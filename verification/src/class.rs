use vstd::prelude::*;
use crate::heap::{Heap, Memory};
use crate::table::Table;

verus! {

/// What kind of class body the resolver is inside of.
#[derive(Clone, Copy, Debug, PartialEq, Eq, Structural)]
pub enum ClassType {
    /// Outside of every class.
    NoClass,
    Class,
    Subclass,
}

/// A handle on a class in the heap.
#[derive(Clone, Copy, Debug, PartialEq, Eq, Structural)]
pub struct HezenClassHandle {
    pub index: usize,
}

/// A class as a mathematical value: its name, its superclass and its own
/// methods, each by its place in the heap.
pub struct Blueprint {
    pub name: Seq<char>,
    pub superclass: Option<usize>,
    pub methods: Map<Seq<char>, usize>,
}

/// A class. It does not change once it is made.
pub struct HezenClass {
    pub name: String,
    pub superclass: Option<usize>,
    pub methods: Table<String, usize>,
}

impl View for HezenClass {
    type V = Blueprint;

    open spec fn view(&self) -> Blueprint {
        Blueprint { name: self.name@, superclass: self.superclass, methods: self.methods@ }
    }
}

impl Blueprint {
    /// The method of a name that the class has or inherits: its own, else
    /// what its superclass has or inherits.
    pub open spec fn method_in(self, memory: Memory, name: Seq<char>) -> Option<usize> {
        if self.methods.contains_key(name) {
            Some(self.methods[name])
        } else {
            match self.superclass {
                Some(parent) => memory.method(parent, name),
                None => None,
            }
        }
    }
}

impl HezenClass {
    /// The method of a name that the class has or inherits.
    pub fn find_method(&self, heap: &Heap, name: &String) -> (r: Option<usize>)
        ensures
            r == self@.method_in(heap@, name@),
    {
        match self.methods.get(name) {
            Some(method) => Some(*method),
            None => match self.superclass {
                Some(parent) => heap.find_method(parent, name),
                None => None,
            },
        }
    }

    /// A class of a name, with its superclass and its own methods.
    pub fn new(name: String, superclass: Option<usize>, methods: Table<String, usize>) -> (r: Self)
        ensures
            r@ == (Blueprint { name: name@, superclass, methods: methods@ }),
    {
        Self { name, superclass, methods }
    }
}

} // verus!
