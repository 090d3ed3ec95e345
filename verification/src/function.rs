use vstd::prelude::*;
use std::rc::Rc;
use crate::ast::{share, Declaration, Stmt};
use vstd::string::*;
use crate::environment::{Datum, HezenEnvironmentHandle, HezenInstanceHandle, HezenValue};
use crate::heap::{Heap, Memory};
use crate::token::{Token, TokenType, TokenView};

verus! {

/// What kind of function body the resolver is inside of.
#[derive(Clone, Copy, Debug, PartialEq, Eq, Structural)]
pub enum FunctionType {
    /// Outside of every function.
    TopLevel,
    Function,
    Initializer,
    Method,
}

/// The functions that the host language provides.
#[derive(Clone, Copy, Debug, PartialEq, Eq, Structural)]
pub enum Builtin {
    Clock,
    Print,
    Println,
    Mod,
    Show,
}

/// A function value as a mathematical value: its declaration, the frame it
/// closes over, and whether it is an initializer.
pub struct Closure {
    pub declaration: Declaration,
    pub closure: usize,
    pub initializer: bool,
}

/// A function value.
#[derive(Debug)]
pub struct HezenFunction {
    pub declaration: Rc<Declaration>,
    pub closure: HezenEnvironmentHandle,
    pub initializer: bool,
}

impl View for HezenFunction {
    type V = Closure;

    open spec fn view(&self) -> Closure {
        Closure {
            declaration: *self.declaration,
            closure: self.closure.index,
            initializer: self.initializer,
        }
    }
}

impl Clone for HezenFunction {
    fn clone(&self) -> (r: Self)
        ensures
            r == *self,
    {
        HezenFunction {
            declaration: share(&self.declaration),
            closure: self.closure,
            initializer: self.initializer,
        }
    }
}

impl HezenFunction {
    /// A function of a name, parameters and a body, closing over a frame.
    pub fn new(
        name: Token,
        parameters: Vec<Token>,
        body: Stmt,
        closure: HezenEnvironmentHandle,
        initializer: bool,
    ) -> (r: Self)
        ensures
            r@ == (Closure {
                declaration: Declaration { name, parameters, body },
                closure: closure.index,
                initializer,
            }),
    {
        Self { declaration: Rc::new(Declaration { name, parameters, body }), closure, initializer }
    }

    /// The function that a declaration makes in an environment.
    pub fn declared(
        declaration: &Rc<Declaration>,
        closure: HezenEnvironmentHandle,
        initializer: bool,
    ) -> (r: Self)
        ensures
            r@ == (Closure { declaration: **declaration, closure: closure.index, initializer }),
    {
        Self { declaration: share(declaration), closure, initializer }
    }

    /// This function bound to an instance: a function like this one, whose
    /// closure is a new frame that encloses this one's closure and binds
    /// `self` to the instance.
    pub fn bind(&self, heap: &mut Heap, instance: HezenInstanceHandle) -> (r: Self)
        ensures
            r@ == (Closure { closure: old(heap)@.frames.len() as usize, ..self@ }),
            final(heap)@ == old(heap)@.frame_added(Some(self.closure.index)).defining(
                old(heap)@.frames.len() as usize,
                Memory::self_token(self@.declaration.name@.position),
                Datum::Instance(instance.index),
                false,
            ),
    {
        let environment = HezenEnvironmentHandle::new(heap, Some(self.closure));
        environment.define(
            heap,
            Token::new(
                TokenType::Builtin,
                String::from_str("self"),
                self.declaration.name.position.clone(),
            ),
            HezenValue::Instance(instance),
            false,
        );
        HezenFunction {
            declaration: share(&self.declaration),
            closure: environment,
            initializer: self.initializer,
        }
    }

}

/// A host function as a mathematical value.
pub struct Native {
    pub name: TokenView,
    pub arity: usize,
    pub function: Builtin,
}

/// A function of the host: its name, how many arguments it takes, and which
/// of the host's functions it is.
#[derive(Debug)]
pub struct HezenNativeFunction {
    pub name: Token,
    pub arity: usize,
    pub function: Builtin,
}

impl View for HezenNativeFunction {
    type V = Native;

    open spec fn view(&self) -> Native {
        Native { name: self.name@, arity: self.arity, function: self.function }
    }
}

impl HezenNativeFunction {
    /// A host function under a name.
    pub fn new(name: Token, arity: usize, function: Builtin) -> (r: Self)
        ensures
            r == (HezenNativeFunction { name, arity, function }),
    {
        Self { name, arity, function }
    }

}

} // verus!
