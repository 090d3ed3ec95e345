use vstd::prelude::*;
use crate::environment::{Datum, HezenInstanceHandle, HezenValue};
use crate::heap::Heap;
use crate::table::Table;

verus! {

/// An instance as a mathematical value: its class, by its place in the heap,
/// and its fields by name.
pub struct Object {
    pub class: usize,
    pub fields: Map<Seq<char>, Datum>,
}

/// An instance of a class. Fields come into being when they are first set.
pub struct HezenInstance {
    pub class: usize,
    pub fields: Table<String, HezenValue>,
}

impl View for HezenInstance {
    type V = Object;

    open spec fn view(&self) -> Object {
        Object { class: self.class, fields: self.fields@ }
    }
}

impl HezenInstanceHandle {
    /// Makes a new instance of a class, without fields.
    pub fn new(heap: &mut Heap, class: usize) -> (r: Self)
        ensures
            r.index == old(heap)@.instances.len(),
            final(heap)@ == old(heap)@.instance_added(class),
    {
        let index = heap.instances.len();
        let instance = HezenInstance { class, fields: Table::new() };
        heap.instances.push(instance);
        assert(heap@.instances =~= old(heap)@.instances.push(instance@));
        assert(heap@.frames =~= old(heap)@.frames);
        assert(heap@.functions =~= old(heap)@.functions);
        assert(heap@.natives =~= old(heap)@.natives);
        assert(heap@.classes =~= old(heap)@.classes);
        HezenInstanceHandle { index }
    }

    /// The property of a name: the field, else the method of the class bound
    /// to this instance.
    pub fn get(&self, heap: &mut Heap, name: &String) -> (r: Option<HezenValue>)
        ensures
            (final(heap)@, maybe(r)) == old(heap)@.property(self.index, name@),
    {
        if self.index >= heap.instances.len() {
            return None;
        }
        match heap.instances[self.index].fields.get(name) {
            Some(value) => {
                return Some(value.clone());
            },
            None => {},
        }
        let class = heap.instances[self.index].class;
        match heap.find_method(class, name) {
            Some(method) => {
                if method < heap.functions.len() {
                    let unbound = heap.functions[method].clone();
                    let bound = unbound.bind(heap, *self);
                    let index = heap.add_function(bound);
                    Some(HezenValue::Function(index))
                } else {
                    Some(HezenValue::Function(method))
                }
            },
            None => None,
        }
    }

    /// Sets a field, making it if the instance has none of that name.
    pub fn set(&self, heap: &mut Heap, name: String, value: HezenValue)
        ensures
            final(heap)@ == old(heap)@.field_set(self.index, name@, value@),
    {
        if self.index < heap.instances.len() {
            heap.instances[self.index].fields.insert(name, value);
            assert(heap@.instances =~= old(heap)@.field_set(self.index, name@, value@).instances);
            assert(heap@.frames =~= old(heap)@.frames);
            assert(heap@.functions =~= old(heap)@.functions);
            assert(heap@.natives =~= old(heap)@.natives);
            assert(heap@.classes =~= old(heap)@.classes);
        }
    }

    /// The name of the class of the instance.
    pub fn class_name(&self, heap: &Heap) -> (r: String)
        ensures
            r@ == heap@.instance_class_name(self.index),
    {
        if self.index < heap.instances.len() {
            heap.class_name(heap.instances[self.index].class)
        } else {
            String::new()
        }
    }
}

/// An optional value as a mathematical value.
pub open spec fn maybe(value: Option<HezenValue>) -> Option<Datum> {
    match value {
        Some(value) => Some(value@),
        None => None,
    }
}

} // verus!
