use vstd::prelude::*;
use vstd::string::*;
use crate::ast::Literal;
use crate::error::{Fault, HezenError};
use crate::heap::{immutable_variable, runtime_at, undefined_variable, Heap};
use crate::text::join3;
use crate::number::{equal, equal_numbers};
use crate::table::Table;
use crate::token::{Token, TokenView};

verus! {

/// A runtime value as a mathematical value. Functions, classes and instances
/// are known by their place in the heap: two are the same value if and only if
/// they are the same object.
pub enum Datum {
    Nil,
    Bool(bool),
    Number(u64),
    Text(Seq<char>),
    Function(usize),
    NativeFunction(usize),
    Class(usize),
    Instance(usize),
}

/// A handle on an instance in the heap.
#[derive(Clone, Copy, Debug, PartialEq, Eq, Structural)]
pub struct HezenInstanceHandle {
    pub index: usize,
}

/// A handle on an environment, that is a scope frame, in the heap.
#[derive(Clone, Copy, Debug, PartialEq, Eq, Structural)]
pub struct HezenEnvironmentHandle {
    pub index: usize,
}

/// A runtime value. A number is held as the bit pattern of its
/// double-precision value.
#[derive(Debug)]
pub enum HezenValue {
    Nil,
    Bool(bool),
    Number(u64),
    String(String),
    Function(usize),
    NativeFunction(usize),
    Class(usize),
    Instance(HezenInstanceHandle),
}

impl View for HezenValue {
    type V = Datum;

    open spec fn view(&self) -> Datum {
        match self {
            HezenValue::Nil => Datum::Nil,
            HezenValue::Bool(b) => Datum::Bool(*b),
            HezenValue::Number(bits) => Datum::Number(*bits),
            HezenValue::String(text) => Datum::Text(text@),
            HezenValue::Function(index) => Datum::Function(*index),
            HezenValue::NativeFunction(index) => Datum::NativeFunction(*index),
            HezenValue::Class(index) => Datum::Class(*index),
            HezenValue::Instance(handle) => Datum::Instance(handle.index),
        }
    }
}

impl Clone for HezenValue {
    fn clone(&self) -> (r: Self)
        ensures
            r == *self,
    {
        match self {
            HezenValue::Nil => HezenValue::Nil,
            HezenValue::Bool(b) => HezenValue::Bool(*b),
            HezenValue::Number(bits) => HezenValue::Number(*bits),
            HezenValue::String(text) => HezenValue::String(text.clone()),
            HezenValue::Function(index) => HezenValue::Function(*index),
            HezenValue::NativeFunction(index) => HezenValue::NativeFunction(*index),
            HezenValue::Class(index) => HezenValue::Class(*index),
            HezenValue::Instance(handle) => HezenValue::Instance(*handle),
        }
    }
}

/// Truthiness: `nil` and `false` are false, every other value is true.
pub open spec fn truthy(value: Datum) -> bool {
    match value {
        Datum::Nil => false,
        Datum::Bool(b) => b,
        _ => true,
    }
}

/// Equality of values: `nil` equals `nil`; booleans, numbers and strings
/// compare by what they hold; functions, classes and instances by identity;
/// values of different kinds are never equal.
pub open spec fn same_value(a: Datum, b: Datum) -> bool {
    match (a, b) {
        (Datum::Nil, Datum::Nil) => true,
        (Datum::Bool(x), Datum::Bool(y)) => x == y,
        (Datum::Number(x), Datum::Number(y)) => equal_numbers(x, y),
        (Datum::Text(x), Datum::Text(y)) => x == y,
        (Datum::Function(x), Datum::Function(y)) => x == y,
        (Datum::NativeFunction(x), Datum::NativeFunction(y)) => x == y,
        (Datum::Class(x), Datum::Class(y)) => x == y,
        (Datum::Instance(x), Datum::Instance(y)) => x == y,
        _ => false,
    }
}

/// The value of a literal.
pub open spec fn literal_value(literal: Literal) -> Datum {
    match literal {
        Literal::Nil => Datum::Nil,
        Literal::Bool(b) => Datum::Bool(b),
        Literal::Number(bits) => Datum::Number(bits),
        Literal::String(text) => Datum::Text(text@),
    }
}

impl HezenValue {
    /// Whether the value counts as true: every value but `nil` and `false`.
    pub fn is_truthy(&self) -> (r: bool)
        ensures
            r == truthy(self@),
    {
        match self {
            HezenValue::Nil => false,
            HezenValue::Bool(b) => *b,
            _ => true,
        }
    }

    /// Whether two values are equal.
    pub fn equals(&self, other: &HezenValue) -> (r: bool)
        ensures
            r == same_value(self@, other@),
    {
        match self {
            HezenValue::Nil => match other {
                HezenValue::Nil => true,
                _ => false,
            },
            HezenValue::Bool(x) => match other {
                HezenValue::Bool(y) => *x == *y,
                _ => false,
            },
            HezenValue::Number(x) => match other {
                HezenValue::Number(y) => equal(*x, *y),
                _ => false,
            },
            HezenValue::String(x) => match other {
                HezenValue::String(y) => {
                    let r = *x == *y;
                    r
                },
                _ => false,
            },
            HezenValue::Function(x) => match other {
                HezenValue::Function(y) => *x == *y,
                _ => false,
            },
            HezenValue::NativeFunction(x) => match other {
                HezenValue::NativeFunction(y) => *x == *y,
                _ => false,
            },
            HezenValue::Class(x) => match other {
                HezenValue::Class(y) => *x == *y,
                _ => false,
            },
            HezenValue::Instance(x) => match other {
                HezenValue::Instance(y) => x.index == y.index,
                _ => false,
            },
        }
    }

    /// The name of the kind of this value, as error messages give it.
    pub fn kind_name(&self, heap: &Heap) -> (r: String)
        ensures
            r@ == heap@.kind_name(self@),
    {
        match self {
            HezenValue::Nil => String::from_str("nil"),
            HezenValue::Bool(_) => String::from_str("bool"),
            HezenValue::Number(_) => String::from_str("number"),
            HezenValue::String(_) => String::from_str("string"),
            HezenValue::Function(_) => String::from_str("function"),
            HezenValue::NativeFunction(_) => String::from_str("native function"),
            HezenValue::Class(class) => {
                let mut text = String::from_str("class ");
                text.append(heap.class_name(*class).as_str());
                text
            },
            HezenValue::Instance(instance) => {
                let mut text = String::from_str("instance of ");
                text.append(instance.class_name(heap).as_str());
                text
            },
        }
    }

    /// The value of a literal.
    pub fn from(literal: &Literal) -> (r: Self)
        ensures
            r@ == literal_value(*literal),
    {
        match literal {
            Literal::Nil => HezenValue::Nil,
            Literal::Bool(b) => HezenValue::Bool(*b),
            Literal::Number(bits) => HezenValue::Number(*bits),
            Literal::String(text) => HezenValue::String(text.clone()),
        }
    }
}

/// A variable binding as a mathematical value.
pub struct Binding {
    pub value: Datum,
    pub is_mutable: bool,
    pub definition: TokenView,
}

/// A variable binding: its value, whether it may be assigned to, and the
/// token that defined it.
#[derive(Debug)]
pub struct HezenVariable {
    pub value: HezenValue,
    pub is_mutable: bool,
    pub definition_token: Token,
}

impl View for HezenVariable {
    type V = Binding;

    open spec fn view(&self) -> Binding {
        Binding {
            value: self.value@,
            is_mutable: self.is_mutable,
            definition: self.definition_token@,
        }
    }
}

impl HezenVariable {
    /// A binding of a value, defined by a token.
    pub fn new(name: Token, value: HezenValue, is_mutable: bool) -> (r: Self)
        ensures
            r == (HezenVariable { value, is_mutable, definition_token: name }),
    {
        Self { value, is_mutable, definition_token: name }
    }

    /// The value of the binding.
    pub fn get(&self) -> (r: HezenValue)
        ensures
            r == self.value,
    {
        self.value.clone()
    }

    /// Gives the binding another value.
    pub fn set(&mut self, value: HezenValue)
        ensures
            *final(self) == (HezenVariable { value, ..*old(self) }),
    {
        self.value = value;
    }

    /// Whether two variables hold equal values.
    pub fn equals(&self, other: &HezenVariable) -> (r: bool)
        ensures
            r == same_value(self@.value, other@.value),
    {
        self.value.equals(&other.value)
    }
}

/// A scope frame as a mathematical value: the bindings by name, and the frame
/// that encloses it.
pub struct Scope {
    pub values: Map<Seq<char>, Binding>,
    pub enclosing: Option<usize>,
}

/// A scope frame.
pub struct Frame {
    pub values: Table<String, HezenVariable>,
    pub enclosing: Option<HezenEnvironmentHandle>,
}

impl View for Frame {
    type V = Scope;

    open spec fn view(&self) -> Scope {
        Scope {
            values: self.values@,
            enclosing: match self.enclosing {
                Some(handle) => Some(handle.index),
                None => None,
            },
        }
    }
}

/// The position that an optional handle holds.
pub open spec fn handle_index(handle: Option<HezenEnvironmentHandle>) -> Option<usize> {
    match handle {
        Some(handle) => Some(handle.index),
        None => None,
    }
}

/// A value or an error, as mathematical values.
pub open spec fn outcome(result: Result<HezenValue, HezenError>) -> Result<Datum, Fault> {
    match result {
        Ok(value) => Ok(value@),
        Err(error) => Err(error@),
    }
}

/// Success or an error, as mathematical values.
pub open spec fn done(result: Result<(), HezenError>) -> Result<(), Fault> {
    match result {
        Ok(_) => Ok(()),
        Err(error) => Err(error@),
    }
}

/// The complaint about a name that nothing binds.
pub fn undefined_message(name: &String) -> (r: String)
    ensures
        r@ == undefined_variable(name@),
{
    join3("Undefined variable '", name.as_str(), "'")
}

/// The complaint about an assignment to a binding that is not mutable.
pub fn immutable_message(name: &String) -> (r: String)
    ensures
        r@ == immutable_variable(name@),
{
    join3("Cannot assign to immutable variable '", name.as_str(), "'")
}

impl HezenEnvironmentHandle {
    /// Makes a new, empty frame.
    pub fn new(heap: &mut Heap, enclosing: Option<HezenEnvironmentHandle>) -> (r: Self)
        ensures
            r.index == old(heap)@.frames.len(),
            final(heap)@ == old(heap)@.frame_added(
                match enclosing {
                    Some(handle) => Some(handle.index),
                    None => None,
                },
            ),
    {
        let index = heap.frames.len();
        let frame = Frame { values: Table::new(), enclosing };
        heap.frames.push(frame);
        assert(heap@.frames =~= old(heap)@.frames.push(frame@));
        assert(heap@.functions =~= old(heap)@.functions);
        assert(heap@.natives =~= old(heap)@.natives);
        assert(heap@.classes =~= old(heap)@.classes);
        assert(heap@.instances =~= old(heap)@.instances);
        HezenEnvironmentHandle { index }
    }

    /// The frame `distance` enclosing links away from this one.
    pub fn ancestor(&self, heap: &Heap, distance: usize) -> (r: Option<HezenEnvironmentHandle>)
        ensures
            handle_index(r) == heap@.ancestor(self.index, distance as nat),
            r matches Some(frame) ==> frame.index < heap@.frames.len(),
    {
        let mut current = *self;
        let mut left = distance;
        while left > 0
            invariant
                heap@.ancestor(self.index, distance as nat) == heap@.ancestor(
                    current.index,
                    left as nat,
                ),
            decreases left,
        {
            if current.index >= heap.frames.len() {
                return None;
            }
            match heap.frames[current.index].enclosing {
                Some(outer) => {
                    current = outer;
                    left = left - 1;
                },
                None => {
                    return None;
                },
            }
        }
        if current.index < heap.frames.len() {
            Some(current)
        } else {
            None
        }
    }

    /// The nearest frame, from this one outwards, that binds a name.
    pub fn holder(&self, heap: &Heap, name: &String) -> (r: Option<HezenEnvironmentHandle>)
        ensures
            handle_index(r) == heap@.holder(self.index, name@),
            r matches Some(frame) ==> heap@.defined(frame.index, name@),
    {
        let mut current = *self;
        loop
            invariant
                heap@.holder(self.index, name@) == heap@.holder(current.index, name@),
            decreases current.index,
        {
            if current.index >= heap.frames.len() {
                return None;
            }
            if heap.frames[current.index].values.contains_key(name) {
                return Some(current);
            }
            match heap.frames[current.index].enclosing {
                Some(outer) => {
                    if outer.index < current.index {
                        current = outer;
                    } else {
                        return None;
                    }
                },
                None => {
                    return None;
                },
            }
        }
    }

    /// The frame that encloses this one.
    pub fn enclosing(&self, heap: &Heap) -> (r: Option<HezenEnvironmentHandle>)
        ensures
            handle_index(r) == (if self.index < heap@.frames.len() {
                heap@.frames[self.index as int].enclosing
            } else {
                None
            }),
    {
        if self.index < heap.frames.len() {
            heap.frames[self.index].enclosing
        } else {
            None
        }
    }

    /// Whether this frame itself binds the lexeme of a token.
    pub fn defined(&self, heap: &Heap, name: &Token) -> (r: bool)
        ensures
            r == heap@.defined(self.index, name@.lexeme),
    {
        self.index < heap.frames.len() && heap.frames[self.index].values.contains_key(&name.lexeme)
    }

    /// Whether the frame `distance` links away itself binds the lexeme of a
    /// token.
    pub fn defined_at(&self, heap: &Heap, distance: usize, name: &Token) -> (r: bool)
        ensures
            r == match heap@.ancestor(self.index, distance as nat) {
                Some(frame) => heap@.defined(frame, name@.lexeme),
                None => false,
            },
    {
        match self.ancestor(heap, distance) {
            Some(frame) => frame.defined(heap, name),
            None => false,
        }
    }

    /// The value of a name as seen from this frame.
    pub fn get(&self, heap: &Heap, name: &Token) -> (r: Result<HezenValue, HezenError>)
        ensures
            outcome(r) == heap@.read(self.index, name@),
    {
        match self.holder(heap, &name.lexeme) {
            Some(frame) => {
                match heap.frames[frame.index].values.get(&name.lexeme) {
                    Some(variable) => Ok(variable.value.clone()),
                    None => Err(runtime_at(name, undefined_message(&name.lexeme))),
                }
            },
            None => Err(runtime_at(name, undefined_message(&name.lexeme))),
        }
    }

    /// The value of a name in exactly the frame `distance` links away.
    pub fn get_at(&self, heap: &Heap, distance: usize, name: &Token) -> (r: Result<
        HezenValue,
        HezenError,
    >)
        ensures
            outcome(r) == heap@.read_at(self.index, distance as nat, name@),
    {
        match self.ancestor(heap, distance) {
            Some(frame) => {
                match heap.frames[frame.index].values.get(&name.lexeme) {
                    Some(variable) => Ok(variable.value.clone()),
                    None => Err(runtime_at(name, undefined_message(&name.lexeme))),
                }
            },
            None => Err(runtime_at(name, undefined_message(&name.lexeme))),
        }
    }

    /// Whether some frame, from this one outwards, binds a name mutably.
    pub fn mutable(&self, heap: &Heap, name: &Token) -> (r: bool)
        ensures
            r == heap@.mutable(self.index, name@.lexeme),
    {
        let mut current = *self;
        loop
            invariant
                heap@.mutable(self.index, name@.lexeme) == heap@.mutable(
                    current.index,
                    name@.lexeme,
                ),
            decreases current.index,
        {
            if current.index >= heap.frames.len() {
                return false;
            }
            match heap.frames[current.index].values.get(&name.lexeme) {
                Some(variable) => {
                    if variable.is_mutable {
                        return true;
                    }
                },
                None => {},
            }
            match heap.frames[current.index].enclosing {
                Some(outer) => {
                    if outer.index < current.index {
                        current = outer;
                    } else {
                        return false;
                    }
                },
                None => {
                    return false;
                },
            }
        }
    }

    /// Whether exactly the frame `distance` links away binds a name mutably.
    pub fn mutable_at(&self, heap: &Heap, distance: usize, name: &Token) -> (r: bool)
        ensures
            r == heap@.mutable_at(self.index, distance as nat, name@.lexeme),
    {
        match self.ancestor(heap, distance) {
            Some(frame) => {
                match heap.frames[frame.index].values.get(&name.lexeme) {
                    Some(variable) => variable.is_mutable,
                    None => false,
                }
            },
            None => false,
        }
    }

    /// Gives the binding of a name in this very frame a new value.
    fn revalue(&self, heap: &mut Heap, name: &Token, value: HezenValue)
        requires
            old(heap)@.defined(self.index, name@.lexeme),
        ensures
            final(heap)@ == old(heap)@.revalued(self.index, name@.lexeme, value@),
    {
        let (is_mutable, definition) = match heap.frames[self.index].values.get(&name.lexeme) {
            Some(variable) => (variable.is_mutable, variable.definition_token.clone()),
            None => (false, name.clone()),
        };
        let variable = HezenVariable { value, is_mutable, definition_token: definition };
        heap.frames[self.index].values.insert(name.lexeme.clone(), variable);
        assert(heap@.frames =~= old(heap)@.revalued(self.index, name@.lexeme, value@).frames);
        assert(heap@.functions =~= old(heap)@.functions);
        assert(heap@.natives =~= old(heap)@.natives);
        assert(heap@.classes =~= old(heap)@.classes);
        assert(heap@.instances =~= old(heap)@.instances);
    }

    /// Assigns to a name as seen from this frame: the nearest binding takes
    /// the value, if it is mutable.
    pub fn assign(&self, heap: &mut Heap, name: &Token, value: HezenValue) -> (r: Result<
        (),
        HezenError,
    >)
        ensures
            (final(heap)@, done(r)) == old(heap)@.write(self.index, name@, value@),
    {
        match self.holder(heap, &name.lexeme) {
            Some(frame) => {
                let is_mutable = match heap.frames[frame.index].values.get(&name.lexeme) {
                    Some(variable) => variable.is_mutable,
                    None => false,
                };
                if is_mutable {
                    frame.revalue(heap, name, value);
                    Ok(())
                } else {
                    Err(runtime_at(name, immutable_message(&name.lexeme)))
                }
            },
            None => Err(runtime_at(name, undefined_message(&name.lexeme))),
        }
    }

    /// Assigns to a name in exactly the frame `distance` links away: its
    /// binding takes the value, if it is mutable.
    pub fn assign_at(&self, heap: &mut Heap, distance: usize, name: &Token, value: HezenValue) -> (r:
        Result<(), HezenError>)
        ensures
            (final(heap)@, done(r)) == old(heap)@.write_at(
                self.index,
                distance as nat,
                name@,
                value@,
            ),
    {
        if self.mutable_at(heap, distance, name) {
            match self.ancestor(heap, distance) {
                Some(frame) => {
                    frame.revalue(heap, name, value);
                    Ok(())
                },
                None => Err(runtime_at(name, immutable_message(&name.lexeme))),
            }
        } else {
            Err(runtime_at(name, immutable_message(&name.lexeme)))
        }
    }

    /// Binds the lexeme of a token to a value in this frame, in place of what
    /// it was bound to there.
    pub fn define(&self, heap: &mut Heap, name: Token, value: HezenValue, is_mutable: bool)
        ensures
            final(heap)@ == old(heap)@.defining(self.index, name@, value@, is_mutable),
    {
        if self.index < heap.frames.len() {
            let key = name.lexeme.clone();
            let variable = HezenVariable::new(name, value, is_mutable);
            heap.frames[self.index].values.insert(key, variable);
            assert(heap@.frames =~= old(heap)@.defining(
                self.index,
                name@,
                value@,
                is_mutable,
            ).frames);
            assert(heap@.functions =~= old(heap)@.functions);
            assert(heap@.natives =~= old(heap)@.natives);
            assert(heap@.classes =~= old(heap)@.classes);
            assert(heap@.instances =~= old(heap)@.instances);
        }
    }
}

} // verus!
