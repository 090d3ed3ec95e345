use vstd::prelude::*;
use crate::class::{Blueprint, HezenClass};
use crate::environment::{Binding, Datum, Frame, Scope};
use crate::function::{Closure, HezenFunction, HezenNativeFunction, Native};
use crate::instance::{HezenInstance, Object};
use crate::error::{Fault, HezenError, Place};
use crate::token::{Token, TokenType, TokenView};

verus! {

/// The complaint about a name that nothing binds.
pub open spec fn undefined_variable(name: Seq<char>) -> Seq<char> {
    "Undefined variable '"@ + name + "'"@
}

/// The complaint about an assignment to a binding that is not mutable.
pub open spec fn immutable_variable(name: Seq<char>) -> Seq<char> {
    "Cannot assign to immutable variable '"@ + name + "'"@
}

/// A runtime error at the place of a token.
pub fn runtime_at(token: &Token, message: String) -> (r: HezenError)
    ensures
        r@ == Fault::Runtime(token@.position, message@),
{
    HezenError::runtime(
        token.position.file.clone(),
        token.position.line,
        token.position.column,
        message,
    )
}

/// The heap as a mathematical value: the frames, functions, host functions,
/// classes and instances of a run, each kind in the order of making. A handle
/// is a position in one of these sequences. Functions, host functions,
/// classes and instances are never removed; frames are given back only at the
/// end of the block or call that made them, and only where no function can
/// close over them.
pub struct Memory {
    pub frames: Seq<Scope>,
    pub functions: Seq<Closure>,
    pub natives: Seq<Native>,
    pub classes: Seq<Blueprint>,
    pub instances: Seq<Object>,
}

impl Memory {
    /// The heap after a new, empty frame was made.
    pub open spec fn frame_added(self, enclosing: Option<usize>) -> Memory {
        Memory {
            frames: self.frames.push(Scope { values: Map::empty(), enclosing }),
            ..self
        }
    }

    /// Whether a frame binds a name itself.
    pub open spec fn defined(self, env: usize, name: Seq<char>) -> bool {
        env < self.frames.len() && self.frames[env as int].values.contains_key(name)
    }

    /// The binding of a name in a frame itself.
    pub open spec fn here(self, env: usize, name: Seq<char>) -> Option<Binding> {
        if self.defined(env, name) {
            Some(self.frames[env as int].values[name])
        } else {
            None
        }
    }

    /// The heap after a frame bound a name; a frame that does not exist binds
    /// nothing.
    pub open spec fn bound(self, env: usize, name: Seq<char>, binding: Binding) -> Memory {
        if env < self.frames.len() {
            Memory {
                frames: self.frames.update(
                    env as int,
                    Scope {
                        values: self.frames[env as int].values.insert(name, binding),
                        ..self.frames[env as int]
                    },
                ),
                ..self
            }
        } else {
            self
        }
    }

    /// The heap after a frame defined a variable under the lexeme of a token.
    pub open spec fn defining(
        self,
        env: usize,
        token: TokenView,
        value: Datum,
        is_mutable: bool,
    ) -> Memory {
        self.bound(env, token.lexeme, Binding { value, is_mutable, definition: token })
    }

    /// The frame that is `distance` enclosing links away from a frame.
    pub open spec fn ancestor(self, env: usize, distance: nat) -> Option<usize>
        decreases distance,
    {
        if env >= self.frames.len() {
            None
        } else if distance == 0 {
            Some(env)
        } else {
            match self.frames[env as int].enclosing {
                Some(outer) => self.ancestor(outer, (distance - 1) as nat),
                None => None,
            }
        }
    }

    /// The nearest frame that binds a name, from a frame outwards. A frame
    /// encloses only frames that were made after it.
    pub open spec fn holder(self, env: usize, name: Seq<char>) -> Option<usize>
        decreases env,
    {
        if env >= self.frames.len() {
            None
        } else if self.frames[env as int].values.contains_key(name) {
            Some(env)
        } else {
            match self.frames[env as int].enclosing {
                Some(outer) => if outer < env {
                    self.holder(outer, name)
                } else {
                    None
                },
                None => None,
            }
        }
    }

    /// The binding of a name as seen from a frame: that of the nearest frame
    /// that binds it.
    pub open spec fn lookup(self, env: usize, name: Seq<char>) -> Option<Binding> {
        match self.holder(env, name) {
            Some(frame) => Some(self.frames[frame as int].values[name]),
            None => None,
        }
    }

    /// Whether some frame, from a frame outwards, binds a name mutably.
    pub open spec fn mutable(self, env: usize, name: Seq<char>) -> bool
        decreases env,
    {
        if env >= self.frames.len() {
            false
        } else if self.frames[env as int].values.contains_key(name)
            && self.frames[env as int].values[name].is_mutable {
            true
        } else {
            match self.frames[env as int].enclosing {
                Some(outer) => outer < env && self.mutable(outer, name),
                None => false,
            }
        }
    }

    /// What reading a name from a frame outwards gives: the value of the
    /// nearest binding, or the complaint that there is none.
    pub open spec fn read(self, env: usize, name: TokenView) -> Result<Datum, Fault> {
        match self.lookup(env, name.lexeme) {
            Some(binding) => Ok(binding.value),
            None => Err(Fault::Runtime(name.position, undefined_variable(name.lexeme))),
        }
    }

    /// What reading a name from exactly the frame `distance` links away gives.
    pub open spec fn read_at(self, env: usize, distance: nat, name: TokenView) -> Result<
        Datum,
        Fault,
    > {
        match self.ancestor(env, distance) {
            Some(frame) => match self.here(frame, name.lexeme) {
                Some(binding) => Ok(binding.value),
                None => Err(Fault::Runtime(name.position, undefined_variable(name.lexeme))),
            },
            None => Err(Fault::Runtime(name.position, undefined_variable(name.lexeme))),
        }
    }

    /// The heap after the binding of a name in a frame took a new value.
    pub open spec fn revalued(self, frame: usize, name: Seq<char>, value: Datum) -> Memory {
        self.bound(frame, name, Binding { value, ..self.frames[frame as int].values[name] })
    }

    /// What assigning to a name from a frame outwards does: the nearest
    /// binding takes the value if it is mutable.
    pub open spec fn write(self, env: usize, name: TokenView, value: Datum) -> (Memory, Result<(), Fault>) {
        match self.holder(env, name.lexeme) {
            Some(frame) => if self.frames[frame as int].values[name.lexeme].is_mutable {
                (self.revalued(frame, name.lexeme, value), Ok(()))
            } else {
                (self, Err(Fault::Runtime(name.position, immutable_variable(name.lexeme))))
            },
            None => (self, Err(Fault::Runtime(name.position, undefined_variable(name.lexeme)))),
        }
    }

    /// Whether exactly the frame `distance` links away binds a name mutably.
    pub open spec fn mutable_at(self, env: usize, distance: nat, name: Seq<char>) -> bool {
        match self.ancestor(env, distance) {
            Some(frame) => match self.here(frame, name) {
                Some(binding) => binding.is_mutable,
                None => false,
            },
            None => false,
        }
    }

    /// What assigning to a name in exactly the frame `distance` links away
    /// does: its binding takes the value if it is mutable.
    pub open spec fn write_at(self, env: usize, distance: nat, name: TokenView, value: Datum) -> (
        Memory,
        Result<(), Fault>,
    ) {
        if self.mutable_at(env, distance, name.lexeme) {
            (self.revalued(self.ancestor(env, distance).unwrap(), name.lexeme, value), Ok(()))
        } else {
            (self, Err(Fault::Runtime(name.position, immutable_variable(name.lexeme))))
        }
    }

    /// The heap after the frames that were made since it had `frames` of them
    /// were given back, which happens only where no function was made since
    /// it had `functions` of them: then no function closes over such a frame.
    pub open spec fn released(self, frames: nat, functions: nat) -> Memory {
        if self.functions.len() == functions && frames <= self.frames.len() {
            Memory { frames: self.frames.take(frames as int), ..self }
        } else {
            self
        }
    }

    /// The heap after a new function was made.
    pub open spec fn function_added(self, function: Closure) -> Memory {
        Memory { functions: self.functions.push(function), ..self }
    }

    /// The heap after a new host function was made.
    pub open spec fn native_added(self, native: Native) -> Memory {
        Memory { natives: self.natives.push(native), ..self }
    }

    /// The heap after a new class was made.
    pub open spec fn class_added(self, class: Blueprint) -> Memory {
        Memory { classes: self.classes.push(class), ..self }
    }

    /// The heap after a new instance without fields was made.
    pub open spec fn instance_added(self, class: usize) -> Memory {
        Memory { instances: self.instances.push(Object { class, fields: Map::empty() }), ..self }
    }

    /// The method of a name that a class has or inherits: its own, else that
    /// of its superclass. A class inherits only from a class made before it.
    pub open spec fn method(self, class: usize, name: Seq<char>) -> Option<usize>
        decreases class,
    {
        if class >= self.classes.len() {
            None
        } else if self.classes[class as int].methods.contains_key(name) {
            Some(self.classes[class as int].methods[name])
        } else {
            match self.classes[class as int].superclass {
                Some(parent) => if parent < class {
                    self.method(parent, name)
                } else {
                    None
                },
                None => None,
            }
        }
    }

    /// The field of a name of an instance.
    pub open spec fn field(self, instance: usize, name: Seq<char>) -> Option<Datum> {
        if instance < self.instances.len() && self.instances[instance as int].fields.contains_key(
            name,
        ) {
            Some(self.instances[instance as int].fields[name])
        } else {
            None
        }
    }

    /// The heap after a field of an instance was set; an instance that does
    /// not exist takes no field.
    pub open spec fn field_set(self, instance: usize, name: Seq<char>, value: Datum) -> Memory {
        if instance < self.instances.len() {
            Memory {
                instances: self.instances.update(
                    instance as int,
                    Object {
                        fields: self.instances[instance as int].fields.insert(name, value),
                        ..self.instances[instance as int]
                    },
                ),
                ..self
            }
        } else {
            self
        }
    }

    /// The token under which a bound method finds its instance: the word
    /// `self`, at the place of the method's name.
    pub open spec fn self_token(place: Place) -> TokenView {
        TokenView { ty: TokenType::Builtin@, lexeme: "self"@, position: place }
    }

    /// A function bound to an instance: a new function like the given one,
    /// whose closure is a new frame that encloses the old closure and binds
    /// `self` to the instance. A function that does not exist stays unbound.
    pub open spec fn method_bound(self, function: usize, instance: usize) -> (Memory, usize) {
        if function < self.functions.len() {
            let unbound = self.functions[function as int];
            let frame = self.frames.len() as usize;
            (
                self.frame_added(Some(unbound.closure)).defining(
                    frame,
                    Self::self_token(unbound.declaration.name@.position),
                    Datum::Instance(instance),
                    false,
                ).function_added(Closure { closure: frame, ..unbound }),
                self.functions.len() as usize,
            )
        } else {
            (self, function)
        }
    }

    /// The class of an instance.
    pub open spec fn class_of(self, instance: usize) -> Option<usize> {
        if instance < self.instances.len() {
            Some(self.instances[instance as int].class)
        } else {
            None
        }
    }

    /// The property of a name of an instance: the field of that name, else
    /// the method of that name of its class, bound to the instance.
    pub open spec fn property(self, instance: usize, name: Seq<char>) -> (Memory, Option<Datum>) {
        match self.field(instance, name) {
            Some(value) => (self, Some(value)),
            None => match self.class_of(instance) {
                Some(class) => match self.method(class, name) {
                    Some(method) => {
                        let (memory, bound) = self.method_bound(method, instance);
                        (memory, Some(Datum::Function(bound)))
                    },
                    None => (self, None),
                },
                None => (self, None),
            },
        }
    }

    /// The name of the kind of a value, as error messages give it.
    pub open spec fn kind_name(self, value: Datum) -> Seq<char> {
        match value {
            Datum::Nil => "nil"@,
            Datum::Bool(_) => "bool"@,
            Datum::Number(_) => "number"@,
            Datum::Text(_) => "string"@,
            Datum::Function(_) => "function"@,
            Datum::NativeFunction(_) => "native function"@,
            Datum::Class(class) => "class "@ + self.class_name(class),
            Datum::Instance(instance) => "instance of "@ + self.instance_class_name(instance),
        }
    }

    /// The name of a class; empty for a class that does not exist.
    pub open spec fn class_name(self, class: usize) -> Seq<char> {
        if class < self.classes.len() {
            self.classes[class as int].name
        } else {
            Seq::<char>::empty()
        }
    }

    /// The name of the class of an instance.
    pub open spec fn instance_class_name(self, instance: usize) -> Seq<char> {
        if instance < self.instances.len() {
            self.class_name(self.instances[instance as int].class)
        } else {
            Seq::<char>::empty()
        }
    }
}

/// The heap: the frames, functions, host functions, classes and instances of
/// a run. Values refer to them by position, so that a frame can be shared by
/// many closures and an instance by many variables.
pub struct Heap {
    pub frames: Vec<Frame>,
    pub functions: Vec<HezenFunction>,
    pub natives: Vec<HezenNativeFunction>,
    pub classes: Vec<HezenClass>,
    pub instances: Vec<HezenInstance>,
}

impl View for Heap {
    type V = Memory;

    open spec fn view(&self) -> Memory {
        Memory {
            frames: Seq::new(self.frames@.len(), |i: int| self.frames@[i]@),
            functions: Seq::new(self.functions@.len(), |i: int| self.functions@[i]@),
            natives: Seq::new(self.natives@.len(), |i: int| self.natives@[i]@),
            classes: Seq::new(self.classes@.len(), |i: int| self.classes@[i]@),
            instances: Seq::new(self.instances@.len(), |i: int| self.instances@[i]@),
        }
    }
}

impl Heap {
    /// An empty heap.
    pub fn new() -> (r: Self)
        ensures
            r@ == (Memory {
                frames: Seq::empty(),
                functions: Seq::empty(),
                natives: Seq::empty(),
                classes: Seq::empty(),
                instances: Seq::empty(),
            }),
    {
        let r = Heap {
            frames: Vec::new(),
            functions: Vec::new(),
            natives: Vec::new(),
            classes: Vec::new(),
            instances: Vec::new(),
        };
        assert(r@.frames =~= Seq::empty());
        assert(r@.functions =~= Seq::empty());
        assert(r@.natives =~= Seq::empty());
        assert(r@.classes =~= Seq::empty());
        assert(r@.instances =~= Seq::empty());
        r
    }

    /// The method of a name that a class has or inherits.
    pub fn find_method(&self, class: usize, name: &String) -> (r: Option<usize>)
        ensures
            r == self@.method(class, name@),
    {
        let mut current = class;
        loop
            invariant
                self@.method(class, name@) == self@.method(current, name@),
            decreases current,
        {
            if current >= self.classes.len() {
                return None;
            }
            match self.classes[current].methods.get(name) {
                Some(method) => {
                    return Some(*method);
                },
                None => {},
            }
            match self.classes[current].superclass {
                Some(parent) => {
                    if parent < current {
                        current = parent;
                    } else {
                        return None;
                    }
                },
                None => {
                    return None;
                },
            }
        }
    }

    /// The name of a class; empty for a class that does not exist.
    pub fn class_name(&self, class: usize) -> (r: String)
        ensures
            r@ == self@.class_name(class),
    {
        if class < self.classes.len() {
            self.classes[class].name.clone()
        } else {
            String::new()
        }
    }

    /// Gives back the frames that were made since the heap had `frames` of
    /// them, unless a function was made since it had `functions` of them.
    pub fn release(&mut self, frames: usize, functions: usize)
        ensures
            final(self)@ == old(self)@.released(frames as nat, functions as nat),
    {
        if self.functions.len() == functions && frames <= self.frames.len() {
            self.frames.truncate(frames);
            assert(self@.frames =~= old(self)@.frames.take(frames as int));
            assert(self@.functions =~= old(self)@.functions);
            assert(self@.natives =~= old(self)@.natives);
            assert(self@.classes =~= old(self)@.classes);
            assert(self@.instances =~= old(self)@.instances);
        }
    }

    /// Puts a function into the heap and says where it is.
    pub fn add_function(&mut self, function: HezenFunction) -> (r: usize)
        ensures
            r == old(self)@.functions.len(),
            final(self)@ == old(self)@.function_added(function@),
    {
        let index = self.functions.len();
        self.functions.push(function);
        assert(self@.functions =~= old(self)@.functions.push(function@));
        assert(self@.frames =~= old(self)@.frames);
        assert(self@.natives =~= old(self)@.natives);
        assert(self@.classes =~= old(self)@.classes);
        assert(self@.instances =~= old(self)@.instances);
        index
    }

    /// Puts a host function into the heap and says where it is.
    pub fn add_native(&mut self, native: HezenNativeFunction) -> (r: usize)
        ensures
            r == old(self)@.natives.len(),
            final(self)@ == old(self)@.native_added(native@),
    {
        let index = self.natives.len();
        self.natives.push(native);
        assert(self@.natives =~= old(self)@.natives.push(native@));
        assert(self@.frames =~= old(self)@.frames);
        assert(self@.functions =~= old(self)@.functions);
        assert(self@.classes =~= old(self)@.classes);
        assert(self@.instances =~= old(self)@.instances);
        index
    }

    /// Puts a class into the heap and says where it is.
    pub fn add_class(&mut self, class: HezenClass) -> (r: usize)
        ensures
            r == old(self)@.classes.len(),
            final(self)@ == old(self)@.class_added(class@),
    {
        let index = self.classes.len();
        self.classes.push(class);
        assert(self@.classes =~= old(self)@.classes.push(class@));
        assert(self@.frames =~= old(self)@.frames);
        assert(self@.functions =~= old(self)@.functions);
        assert(self@.natives =~= old(self)@.natives);
        assert(self@.instances =~= old(self)@.instances);
        index
    }
}

} // verus!
