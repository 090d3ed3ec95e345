use vstd::prelude::*;
use crate::token::Token;

verus! {

/// A key of a table: a value whose equality, as the table decides it, is the
/// equality of its view.
pub trait Key: View + Sized {
    fn same(&self, other: &Self) -> (r: bool)
        ensures
            r == (self@ == other@),
    ;
}

impl Key for String {
    fn same(&self, other: &Self) -> (r: bool) {
        let r = *self == *other;
        r
    }
}

impl Key for Token {
    fn same(&self, other: &Self) -> (r: bool) {
        Token::same(self, other)
    }
}

/// One entry of a table.
pub struct Entry<K, V> {
    pub key: K,
    pub value: V,
}

/// A finite map from keys to values. A later entry for a key hides the
/// earlier ones.
pub struct Table<K: Key, V: View> {
    entries: Vec<Entry<K, V>>,
}

/// The map that a sequence of pairs stands for: each pair maps its key to its
/// value, and a later pair overrides an earlier one.
pub open spec fn to_map<A, B>(pairs: Seq<(A, B)>) -> Map<A, B>
    decreases pairs.len(),
{
    if pairs.len() == 0 {
        Map::empty()
    } else {
        to_map(pairs.drop_last()).insert(pairs.last().0, pairs.last().1)
    }
}

/// Whether no pair from position `from` on has the key.
pub open spec fn absent_from<A, B>(pairs: Seq<(A, B)>, key: A, from: int) -> bool {
    forall|j: int| from <= j < pairs.len() ==> (#[trigger] pairs[j]).0 != key
}

proof fn lemma_missing<A, B>(pairs: Seq<(A, B)>, key: A)
    requires
        absent_from(pairs, key, 0),
    ensures
        !to_map(pairs).contains_key(key),
    decreases pairs.len(),
{
    if pairs.len() > 0 {
        let rest = pairs.drop_last();
        assert forall|j: int| 0 <= j < rest.len() implies (#[trigger] rest[j]).0 != key by {
            assert(rest[j] == pairs[j]);
        }
        lemma_missing(rest, key);
        assert(pairs.last() == pairs[pairs.len() - 1]);
    }
}

proof fn lemma_found<A, B>(pairs: Seq<(A, B)>, key: A, i: int)
    requires
        0 <= i < pairs.len(),
        pairs[i].0 == key,
        absent_from(pairs, key, i + 1),
    ensures
        to_map(pairs).contains_key(key),
        to_map(pairs)[key] == pairs[i].1,
    decreases pairs.len(),
{
    if i < pairs.len() - 1 {
        let rest = pairs.drop_last();
        assert forall|j: int| i + 1 <= j < rest.len() implies (#[trigger] rest[j]).0 != key by {
            assert(rest[j] == pairs[j]);
        }
        assert(rest[i] == pairs[i]);
        lemma_found(rest, key, i);
        assert(pairs.last() == pairs[pairs.len() - 1]);
    }
}

proof fn lemma_replaced<A, B>(pairs: Seq<(A, B)>, key: A, i: int, value: B)
    requires
        0 <= i < pairs.len(),
        pairs[i].0 == key,
        absent_from(pairs, key, i + 1),
    ensures
        to_map(pairs.update(i, (key, value))) == to_map(pairs).insert(key, value),
    decreases pairs.len(),
{
    let changed = pairs.update(i, (key, value));
    if i == pairs.len() - 1 {
        assert(changed.drop_last() =~= pairs.drop_last());
        assert(to_map(changed) =~= to_map(pairs).insert(key, value));
    } else {
        let rest = pairs.drop_last();
        assert forall|j: int| i + 1 <= j < rest.len() implies (#[trigger] rest[j]).0 != key by {
            assert(rest[j] == pairs[j]);
        }
        assert(rest[i] == pairs[i]);
        lemma_replaced(rest, key, i, value);
        assert(changed.drop_last() =~= rest.update(i, (key, value)));
        assert(pairs.last() == pairs[pairs.len() - 1]);
        assert(changed.last() == pairs.last());
        assert(to_map(changed) =~= to_map(pairs).insert(key, value));
    }
}

impl<K: Key, V: View> Table<K, V> {
    /// The pairs of views that the entries stand for, oldest first.
    closed spec fn pairs(&self) -> Seq<(K::V, V::V)> {
        Seq::new(self.entries@.len(), |i: int| (self.entries@[i].key@, self.entries@[i].value@))
    }

    /// Whether the entry at a position is the one that counts for a key.
    closed spec fn counts_at(&self, i: int, key: K::V) -> bool {
        &&& 0 <= i < self.entries@.len()
        &&& self.pairs()[i].0 == key
        &&& absent_from(self.pairs(), key, i + 1)
    }

    /// The entries as pairs of views, in the order in which their keys first
    /// came into the table.
    pub closed spec fn listing(&self) -> Seq<(K::V, V::V)> {
        self.pairs()
    }

    /// The map of a table is the map that its listing stands for.
    pub proof fn listing_is_view(&self)
        ensures
            to_map(self.listing()) == self@,
    {
    }

    /// How many entries the table holds.
    pub fn len(&self) -> (r: usize)
        ensures
            r == self.listing().len(),
    {
        self.entries.len()
    }

    /// The key of the entry at a position of the listing.
    pub fn key_at(&self, i: usize) -> (r: &K)
        requires
            i < self.listing().len(),
        ensures
            r@ == self.listing()[i as int].0,
    {
        &self.entries[i].key
    }

    /// The value of the entry at a position of the listing.
    pub fn value_at(&self, i: usize) -> (r: &V)
        requires
            i < self.listing().len(),
        ensures
            r@ == self.listing()[i as int].1,
    {
        &self.entries[i].value
    }

    /// A table without entries.
    pub fn new() -> (r: Self)
        ensures
            r@ == Map::<K::V, V::V>::empty(),
    {
        let r = Table { entries: Vec::new() };
        assert(r.pairs() =~= Seq::<(K::V, V::V)>::empty());
        r
    }

    /// The position of the entry that counts for a key.
    fn position(&self, key: &K) -> (r: Option<usize>)
        ensures
            r.is_some() == self@.contains_key(key@),
            r matches Some(i) ==> self.counts_at(i as int, key@) && self.pairs()[i as int].1
                == self@[key@],
    {
        let mut i: usize = self.entries.len();
        while i > 0
            invariant
                i <= self.entries@.len(),
                absent_from(self.pairs(), key@, i as int),
            decreases i,
        {
            i = i - 1;
            if self.entries[i].key.same(key) {
                proof {
                    lemma_found(self.pairs(), key@, i as int);
                }
                return Some(i);
            }
        }
        proof {
            lemma_missing(self.pairs(), key@);
        }
        None
    }

    /// Whether a key maps to a value.
    pub fn contains_key(&self, key: &K) -> (r: bool)
        ensures
            r == self@.contains_key(key@),
    {
        self.position(key).is_some()
    }

    /// The value that a key maps to.
    pub fn get(&self, key: &K) -> (r: Option<&V>)
        ensures
            r.is_some() == self@.contains_key(key@),
            r matches Some(value) ==> value@ == self@[key@],
    {
        match self.position(key) {
            Some(i) => Some(&self.entries[i].value),
            None => None,
        }
    }

    /// Maps a key to a value, in place of what it mapped to before.
    pub fn insert(&mut self, key: K, value: V)
        ensures
            final(self)@ == old(self)@.insert(key@, value@),
    {
        let found = self.position(&key);
        match found {
            Some(i) => {
                let ghost before = self.pairs();
                let ghost k = key@;
                let ghost v = value@;
                self.entries.set(i, Entry { key, value });
                proof {
                    assert(self.pairs() =~= before.update(i as int, (k, v)));
                    lemma_replaced(before, k, i as int, v);
                }
            },
            None => {
                let ghost before = self.pairs();
                let ghost k = key@;
                let ghost v = value@;
                self.entries.push(Entry { key, value });
                proof {
                    assert(self.pairs().drop_last() =~= before);
                    assert(self.pairs().last() == (k, v));
                }
            },
        }
    }
}

impl<K: Key, V: View> View for Table<K, V> {
    type V = Map<K::V, V::V>;

    closed spec fn view(&self) -> Map<K::V, V::V> {
        to_map(self.pairs())
    }
}

} // verus!
