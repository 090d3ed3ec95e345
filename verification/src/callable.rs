use vstd::prelude::*;
use vstd::string::*;
use crate::class::HezenClassHandle;
use crate::environment::{outcome, HezenValue};
use crate::error::HezenError;
use crate::function::{HezenFunction, HezenNativeFunction};
use crate::heap::{runtime_at, Heap};
use crate::host::{agrees, extends, Host, Link, Oracle};
use crate::interpreter::{data, Interpreter};
use crate::semantics::{call_closure, class_arity, construct, native_called};
use crate::text::decimal;

verus! {

/// What can be called with arguments: a function, a host function or a
/// class. Whoever calls asks for the arity first: `call` itself takes the
/// arguments as they come.
pub trait HezenCallable {
    /// Calls with arguments, in an interpreter.
    fn call<H: Host>(
        &self,
        interpreter: &mut Interpreter,
        link: &mut Link<H>,
        arguments: &Vec<HezenValue>,
        fuel: u64,
    ) -> Result<HezenValue, HezenError>;

    /// How many arguments a call takes.
    fn arity(&self, heap: &Heap) -> usize;

    /// The name under which it was declared.
    fn name(&self, heap: &Heap) -> String;
}

impl HezenCallable for HezenFunction {
    fn call<H: Host>(
        &self,
        interpreter: &mut Interpreter,
        link: &mut Link<H>,
        arguments: &Vec<HezenValue>,
        fuel: u64,
    ) -> (r: Result<HezenValue, HezenError>)
        ensures
            extends(old(link).log(), final(link).log()),
            forall|oracle: Oracle| #[trigger]
                agrees(oracle, final(link).log()) ==> call_closure(
                    oracle,
                    old(interpreter).state(old(link).asked()),
                    self@,
                    data(arguments@),
                    fuel as nat,
                ) == (final(interpreter).state(final(link).asked()), outcome(r)),
    {
        interpreter.call_closure(link, self, arguments, fuel)
    }

    fn arity(&self, heap: &Heap) -> (r: usize)
        ensures
            r == self@.declaration.parameters@.len(),
    {
        self.declaration.parameters.len()
    }

    fn name(&self, heap: &Heap) -> (r: String)
        ensures
            r@ == self@.declaration.name.lexeme@,
    {
        self.declaration.name.lexeme.clone()
    }
}

impl HezenCallable for HezenNativeFunction {
    fn call<H: Host>(
        &self,
        interpreter: &mut Interpreter,
        link: &mut Link<H>,
        arguments: &Vec<HezenValue>,
        fuel: u64,
    ) -> (r: Result<HezenValue, HezenError>)
        ensures
            extends(old(link).log(), final(link).log()),
            forall|oracle: Oracle| #[trigger]
                agrees(oracle, final(link).log()) ==> native_called(
                    oracle,
                    old(interpreter).state(old(link).asked()),
                    self@,
                    data(arguments@),
                ) == (final(interpreter).state(final(link).asked()), outcome(r)),
    {
        if arguments.len() != self.arity {
            let mut message = String::from_str("Expected ");
            message.append(decimal(self.arity).as_str());
            message.append(" arguments but got ");
            message.append(decimal(arguments.len()).as_str());
            message.append(".");
            return Err(runtime_at(&self.name, message));
        }
        interpreter.native(link, self.function, arguments)
    }

    fn arity(&self, heap: &Heap) -> (r: usize)
        ensures
            r == self.arity,
    {
        self.arity
    }

    fn name(&self, heap: &Heap) -> (r: String)
        ensures
            r@ == self.name.lexeme@,
    {
        self.name.lexeme.clone()
    }
}

impl HezenCallable for HezenClassHandle {
    fn call<H: Host>(
        &self,
        interpreter: &mut Interpreter,
        link: &mut Link<H>,
        arguments: &Vec<HezenValue>,
        fuel: u64,
    ) -> (r: Result<HezenValue, HezenError>)
        ensures
            extends(old(link).log(), final(link).log()),
            forall|oracle: Oracle| #[trigger]
                agrees(oracle, final(link).log()) ==> construct(
                    oracle,
                    old(interpreter).state(old(link).asked()),
                    self.index,
                    data(arguments@),
                    fuel as nat,
                ) == (final(interpreter).state(final(link).asked()), outcome(r)),
    {
        interpreter.construct(link, self.index, arguments, fuel)
    }

    fn arity(&self, heap: &Heap) -> (r: usize)
        ensures
            r == class_arity(heap@, self.index),
    {
        if self.index < heap.classes.len() {
            let key = String::from_str("init");
            match heap.classes[self.index].methods.get(&key) {
                Some(init) => {
                    if *init < heap.functions.len() {
                        heap.functions[*init].declaration.parameters.len()
                    } else {
                        0
                    }
                },
                None => 0,
            }
        } else {
            0
        }
    }

    fn name(&self, heap: &Heap) -> (r: String)
        ensures
            r@ == heap@.class_name(self.index),
    {
        heap.class_name(self.index)
    }
}

} // verus!
