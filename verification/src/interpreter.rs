use vstd::prelude::*;
use vstd::string::*;
use crate::ast::{Expr, Stmt};
use crate::environment::{
    done, immutable_message, outcome, Datum, HezenEnvironmentHandle, HezenInstanceHandle,
    HezenValue,
};
use crate::error::{Fault, HezenError, HezenLineInfo};
use crate::function::{Builtin, HezenFunction, HezenNativeFunction, Native};
use crate::class::HezenClass;
use crate::heap::{runtime_at, Heap, Memory};
use crate::host::{agrees, dialogue, extends, Arithmetic, Host, Link, Oracle, Request};
use crate::number::{equal, less, negate};
use crate::semantics::{
    Interruption, Machine, Signal, argument, arithmetic_of, arity_message, arity_of, binary,
    builtin_place, call_closure, call_function, call_value, class_made, comparison, construct,
    evaluate, evaluate_assign,
    evaluate_binary, evaluate_call, evaluate_from, evaluate_get, evaluate_logical, evaluate_set,
    evaluate_unary, execute, execute_block, execute_class, execute_from, execute_if,
    execute_return, execute_var, execute_while, exhausted, initialized, interpret_from,
    invalid_operator, methods_made, native_call, operands_message, parameters_bound, rendered,
    unary,
};
use crate::table::Table;
use crate::text::{decimal, join3, join5};
use crate::token::{Token, TokenType, TokenView};

verus! {

/// A signal that leaves the statement that raised it.
#[derive(Debug)]
pub enum HezenControl {
    Return(HezenValue),
    Break,
    Continue,
}

/// Why a statement did not run to its end.
#[derive(Debug)]
pub enum HezenInterruption {
    Control(HezenControl),
    Error(HezenError),
}

impl View for HezenInterruption {
    type V = Interruption;

    open spec fn view(&self) -> Interruption {
        match self {
            HezenInterruption::Control(HezenControl::Return(value)) => Interruption::Control(
                Signal::Return(value@),
            ),
            HezenInterruption::Control(HezenControl::Break) => Interruption::Control(Signal::Break),
            HezenInterruption::Control(HezenControl::Continue) => Interruption::Control(
                Signal::Continue,
            ),
            HezenInterruption::Error(error) => Interruption::Error(error@),
        }
    }
}

/// A value or an interruption, as mathematical values.
pub open spec fn ending(result: Result<HezenValue, HezenInterruption>) -> Result<Datum, Interruption> {
    match result {
        Ok(value) => Ok(value@),
        Err(interruption) => Err(interruption@),
    }
}

/// The text of a signal: its word, and behind `return` the text of the
/// value. An error is no signal and has no such text.
pub open spec fn signal_text(oracle: Oracle, m: Machine, interruption: Interruption) -> (Machine, Seq<char>) {
    match interruption {
        Interruption::Control(Signal::Return(value)) => {
            let (after, text) = rendered(oracle, m, value);
            (after, "return "@ + text)
        },
        Interruption::Control(Signal::Break) => (m, "break"@),
        Interruption::Control(Signal::Continue) => (m, "continue"@),
        Interruption::Error(_) => (m, Seq::empty()),
    }
}

/// The views of a sequence of values.
pub open spec fn data(values: Seq<HezenValue>) -> Seq<Datum> {
    Seq::new(values.len(), |i: int| values[i]@)
}

/// The token that names what the host language itself defines.
pub open spec fn builtin_token(name: Seq<char>) -> TokenView {
    TokenView { ty: TokenType::Builtin@, lexeme: name, position: builtin_place() }
}

/// The heap after a host function was made and bound to its name in the
/// frame of the globals.
pub open spec fn installed(memory: Memory, name: Seq<char>, arity: usize, function: Builtin) -> Memory {
    memory.native_added(Native { name: builtin_token(name), arity, function }).defining(
        0,
        builtin_token(name),
        Datum::NativeFunction(memory.natives.len() as usize),
        false,
    )
}

/// The heap of a new interpreter: the frame of the globals, which binds the
/// host functions `clock`, `print`, `println`, `mod` and `show`, immutably.
pub open spec fn initial_memory() -> Memory {
    installed(
        installed(
            installed(
                installed(
                    installed(
                        Memory {
                            frames: Seq::empty(),
                            functions: Seq::empty(),
                            natives: Seq::empty(),
                            classes: Seq::empty(),
                            instances: Seq::empty(),
                        }.frame_added(None),
                        "clock"@,
                        0,
                        Builtin::Clock,
                    ),
                    "print"@,
                    1,
                    Builtin::Print,
                ),
                "println"@,
                1,
                Builtin::Println,
            ),
            "mod"@,
            2,
            Builtin::Mod,
        ),
        "show"@,
        1,
        Builtin::Show,
    )
}

fn builtin_info() -> (r: HezenLineInfo)
    ensures
        r@ == builtin_place(),
{
    HezenLineInfo { file: String::from_str("<builtin>"), line: 0, column: 0 }
}

fn builtin_error(message: String) -> (r: HezenError)
    ensures
        r@ == Fault::Runtime(builtin_place(), message@),
{
    HezenError::runtime(String::from_str("<builtin>"), 0, 0, message)
}

fn install(heap: &mut Heap, globals: HezenEnvironmentHandle, name: &str, arity: usize, function: Builtin)
    requires
        globals.index == 0,
    ensures
        final(heap)@ == installed(old(heap)@, name@, arity, function),
{
    let native = HezenNativeFunction::new(
        Token::new(TokenType::Builtin, String::from_str(name), builtin_info()),
        arity,
        function,
    );
    let index = heap.add_native(native);
    globals.define(
        heap,
        Token::new(TokenType::Builtin, String::from_str(name), builtin_info()),
        HezenValue::NativeFunction(index),
        false,
    );
}

fn operands_text(prefix: &str, heap: &Heap, left: &HezenValue, right: &HezenValue) -> (r: String)
    ensures
        r@ == operands_message(prefix@, heap@.kind_name(left@), heap@.kind_name(right@)),
{
    join5(prefix, left.kind_name(heap).as_str(), "' and '", right.kind_name(heap).as_str(), "'")
}

fn invalid_operator_text(kind: &str, lexeme: &String) -> (r: String)
    ensures
        r@ == invalid_operator(kind@, lexeme@),
{
    join5(
        "Invalid ",
        kind,
        " operator '",
        lexeme.as_str(),
        "'. Don't know how you did it, but that's a parser bug",
    )
}

fn arity_text(expected: usize, got: usize) -> (r: String)
    ensures
        r@ == arity_message(expected as nat, got as nat),
{
    let mut text = String::from_str("Expected ");
    text.append(decimal(expected).as_str());
    text.append(" arguments but got ");
    text.append(decimal(got).as_str());
    text
}

/// The interpreter: the heap, the frame of the globals, the frame in which
/// evaluation stands, and the distance table that the resolver fills.
pub struct Interpreter {
    pub globals: HezenEnvironmentHandle,
    pub environment: HezenEnvironmentHandle,
    pub locals: Table<Token, usize>,
    pub heap: Heap,
}

impl Interpreter {
    /// The state of the interpreter, given what the host was asked so far.
    pub open spec fn state(&self, asked: Seq<Request>) -> Machine {
        Machine {
            memory: self.heap@,
            globals: self.globals.index,
            environment: self.environment.index,
            locals: self.locals@,
            asked,
        }
    }

    /// A new interpreter: evaluation stands in the frame of the globals,
    /// which binds the host functions, and the distance table is empty.
    pub fn new() -> (r: Self)
        ensures
            r.heap@ == initial_memory(),
            r.globals.index == 0,
            r.environment.index == 0,
            r.locals@ == Map::<TokenView, usize>::empty(),
    {
        let mut heap = Heap::new();
        let globals = HezenEnvironmentHandle::new(&mut heap, None);
        install(&mut heap, globals, "clock", 0, Builtin::Clock);
        install(&mut heap, globals, "print", 1, Builtin::Print);
        install(&mut heap, globals, "println", 1, Builtin::Println);
        install(&mut heap, globals, "mod", 2, Builtin::Mod);
        install(&mut heap, globals, "show", 1, Builtin::Show);
        Interpreter { globals, environment: globals, locals: Table::new(), heap }
    }

    /// Records that the occurrence of a name is bound `depth` frames out.
    pub fn resolve(&mut self, token: &Token, depth: usize)
        ensures
            final(self).locals@ == old(self).locals@.insert(token@, depth),
            final(self).heap == old(self).heap,
            final(self).globals == old(self).globals,
            final(self).environment == old(self).environment,
    {
        self.locals.insert(token.clone(), depth);
    }

    /// The value that an occurrence of a name reads as.
    pub fn get(&self, name: &Token) -> (r: Result<HezenValue, HezenError>)
        ensures
            forall|asked: Seq<Request>| outcome(r) == (#[trigger] self.state(asked)).read_variable(name@),
    {
        match self.locals.get(name) {
            Some(distance) => self.environment.get_at(&self.heap, *distance, name),
            None => self.globals.get(&self.heap, name),
        }
    }

    /// The value of a unary operation.
    pub fn unary(&self, op: &Token, value: &HezenValue) -> (r: Result<HezenValue, HezenError>)
        ensures
            outcome(r) == unary(self.heap@, *op, value@),
    {
        match &op.ty {
            TokenType::Bang => Ok(HezenValue::Bool(!value.is_truthy())),
            TokenType::Minus => match value {
                HezenValue::Number(bits) => Ok(HezenValue::Number(negate(*bits))),
                _ => Err(
                    runtime_at(
                        op,
                        join3(
                            "Operand must be a number, not '",
                            value.kind_name(&self.heap).as_str(),
                            "'",
                        ),
                    ),
                ),
            },
            _ => Err(runtime_at(op, invalid_operator_text("unary", &op.lexeme))),
        }
    }

    fn compute<H: Host>(
        &self,
        link: &mut Link<H>,
        op: &Token,
        operation: Arithmetic,
        left: &HezenValue,
        right: &HezenValue,
    ) -> (r: Result<HezenValue, HezenError>)
        requires
            arithmetic_of(op.ty) == Some(operation),
            operation != Arithmetic::Add,
        ensures
            extends(old(link).log(), final(link).log()),
            forall|oracle: Oracle| #[trigger]
                agrees(oracle, final(link).log()) ==> binary(
                    oracle,
                    self.state(old(link).asked()),
                    *op,
                    left@,
                    right@,
                ) == (self.state(final(link).asked()), outcome(r)),
    {
        match left {
            HezenValue::Number(x) => match right {
                HezenValue::Number(y) => {
                    let bits = link.arithmetic(operation, *x, *y);
                    return Ok(HezenValue::Number(bits));
                },
                _ => {},
            },
            _ => {},
        }
        Err(runtime_at(op, operands_text("Operands must be two numbers, not '", &self.heap, left, right)))
    }

    fn compare(&self, op: &Token, left: &HezenValue, right: &HezenValue) -> (r: Result<
        HezenValue,
        HezenError,
    >)
        requires
            comparison(op.ty, 0, 0).is_some(),
        ensures
            forall|oracle: Oracle, asked: Seq<Request>|
                #[trigger] binary(oracle, self.state(asked), *op, left@, right@) == (
                    self.state(asked),
                    outcome(r),
                ),
    {
        match left {
            HezenValue::Number(x) => match right {
                HezenValue::Number(y) => {
                    let truth = match &op.ty {
                        TokenType::Greater => less(*y, *x),
                        TokenType::GreaterEqual => less(*y, *x) || equal(*x, *y),
                        TokenType::Less => less(*x, *y),
                        _ => less(*x, *y) || equal(*x, *y),
                    };
                    return Ok(HezenValue::Bool(truth));
                },
                _ => {},
            },
            _ => {},
        }
        Err(runtime_at(op, operands_text("Operands must be two numbers, not '", &self.heap, left, right)))
    }

    /// The value of a binary operation on two values.
    pub fn binary<H: Host>(
        &self,
        link: &mut Link<H>,
        op: &Token,
        left: &HezenValue,
        right: &HezenValue,
    ) -> (r: Result<HezenValue, HezenError>)
        ensures
            extends(old(link).log(), final(link).log()),
            forall|oracle: Oracle| #[trigger]
                agrees(oracle, final(link).log()) ==> binary(
                    oracle,
                    self.state(old(link).asked()),
                    *op,
                    left@,
                    right@,
                ) == (self.state(final(link).asked()), outcome(r)),
    {
        match &op.ty {
            TokenType::EqualEqual => Ok(HezenValue::Bool(left.equals(right))),
            TokenType::BangEqual => Ok(HezenValue::Bool(!left.equals(right))),
            TokenType::Plus => {
                match left {
                    HezenValue::Number(x) => match right {
                        HezenValue::Number(y) => {
                            let bits = link.arithmetic(Arithmetic::Add, *x, *y);
                            return Ok(HezenValue::Number(bits));
                        },
                        _ => {},
                    },
                    HezenValue::String(x) => match right {
                        HezenValue::String(y) => {
                            let mut text = x.clone();
                            text.append(y.as_str());
                            return Ok(HezenValue::String(text));
                        },
                        _ => {},
                    },
                    _ => {},
                }
                Err(
                    runtime_at(
                        op,
                        operands_text(
                            "Operands must be two numbers or two strings, not '",
                            &self.heap,
                            left,
                            right,
                        ),
                    ),
                )
            },
            TokenType::Minus => self.compute(link, op, Arithmetic::Subtract, left, right),
            TokenType::Star => self.compute(link, op, Arithmetic::Multiply, left, right),
            TokenType::Slash => self.compute(link, op, Arithmetic::Divide, left, right),
            TokenType::Greater => self.compare(op, left, right),
            TokenType::GreaterEqual => self.compare(op, left, right),
            TokenType::Less => self.compare(op, left, right),
            TokenType::LessEqual => self.compare(op, left, right),
            _ => Err(runtime_at(op, invalid_operator_text("binary", &op.lexeme))),
        }
    }

    /// The text that shows a value.
    pub fn render<H: Host>(&self, link: &mut Link<H>, value: &HezenValue) -> (r: String)
        ensures
            extends(old(link).log(), final(link).log()),
            forall|oracle: Oracle| #[trigger]
                agrees(oracle, final(link).log()) ==> rendered(
                    oracle,
                    self.state(old(link).asked()),
                    value@,
                ) == (self.state(final(link).asked()), r@),
    {
        match value {
            HezenValue::Nil => String::from_str("nil"),
            HezenValue::Bool(b) => if *b {
                String::from_str("true")
            } else {
                String::from_str("false")
            },
            HezenValue::Number(bits) => link.number_text(*bits),
            HezenValue::String(text) => text.clone(),
            HezenValue::Function(function) => {
                if *function < self.heap.functions.len() {
                    join3(
                        "<function ",
                        self.heap.functions[*function].declaration.name.lexeme.as_str(),
                        ">",
                    )
                } else {
                    join3("<function ", String::new().as_str(), ">")
                }
            },
            HezenValue::NativeFunction(native) => {
                if *native < self.heap.natives.len() {
                    join3("<native function ", self.heap.natives[*native].name.lexeme.as_str(), ">")
                } else {
                    join3("<native function ", String::new().as_str(), ">")
                }
            },
            HezenValue::Class(class) => join3("<class ", self.heap.class_name(*class).as_str(), ">"),
            HezenValue::Instance(instance) => join3(
                "<instance ",
                instance.class_name(&self.heap).as_str(),
                ">",
            ),
        }
    }

    /// The text of a signal: its word, and behind `return` the text of the
    /// value.
    pub fn describe<H: Host>(&self, link: &mut Link<H>, signal: &HezenControl) -> (r: String)
        ensures
            extends(old(link).log(), final(link).log()),
            forall|oracle: Oracle| #[trigger]
                agrees(oracle, final(link).log()) ==> signal_text(
                    oracle,
                    self.state(old(link).asked()),
                    (HezenInterruption::Control(*signal))@,
                ) == (self.state(final(link).asked()), r@),
    {
        match signal {
            HezenControl::Return(value) => {
                let text = self.render(link, value);
                let mut shown = String::from_str("return ");
                shown.append(text.as_str());
                shown
            },
            HezenControl::Break => String::from_str("break"),
            HezenControl::Continue => String::from_str("continue"),
        }
    }

    /// What a call of a host function does.
    pub fn native<H: Host>(&self, link: &mut Link<H>, function: Builtin, arguments: &Vec<HezenValue>) -> (r:
        Result<HezenValue, HezenError>)
        ensures
            extends(old(link).log(), final(link).log()),
            forall|oracle: Oracle| #[trigger]
                agrees(oracle, final(link).log()) ==> native_call(
                    oracle,
                    self.state(old(link).asked()),
                    function,
                    data(arguments@),
                ) == (self.state(final(link).asked()), outcome(r)),
    {
        broadcast use dialogue;

        let first = argument_at(arguments, 0);
        match function {
            Builtin::Clock => {
                let bits = link.clock();
                Ok(HezenValue::Number(bits))
            },
            Builtin::Print => {
                let text = self.render(link, &first);
                link.write(text.as_str());
                Ok(HezenValue::Nil)
            },
            Builtin::Println => {
                let mut text = self.render(link, &first);
                text.append("\n");
                link.write(text.as_str());
                Ok(HezenValue::Nil)
            },
            Builtin::Mod => {
                let second = argument_at(arguments, 1);
                match &first {
                    HezenValue::Number(x) => match &second {
                        HezenValue::Number(y) => {
                            let bits = link.arithmetic(Arithmetic::Remainder, *x, *y);
                            return Ok(HezenValue::Number(bits));
                        },
                        _ => {},
                    },
                    _ => {},
                }
                Err(
                    builtin_error(
                        operands_text(
                            "Operands must be two numbers, not '",
                            &self.heap,
                            &first,
                            &second,
                        ),
                    ),
                )
            },
            Builtin::Show => {
                let text = self.render(link, &first);
                Ok(HezenValue::String(text))
            },
        }
    }

    /// What `super.method` gives.
    pub fn evaluate_super(&mut self, keyword: &Token, method: &Token) -> (r: Result<
        HezenValue,
        HezenError,
    >)
        ensures
            final(self).globals == old(self).globals,
            final(self).environment == old(self).environment,
            final(self).locals == old(self).locals,
            forall|asked: Seq<Request>|
                (#[trigger] old(self).state(asked)).evaluate_super(*keyword, *method) == (
                    final(self).state(asked),
                    outcome(r),
                ),
    {
        let distance = match self.locals.get(keyword) {
            Some(distance) => *distance,
            None => {
                return Err(runtime_at(keyword, String::from_str("Can only access superclass from a subclass")));
            },
        };
        if distance == 0 {
            return Err(runtime_at(keyword, String::from_str("Can only access superclass from a subclass")));
        }
        let superclass = match self.environment.get_at(&self.heap, distance, keyword) {
            Ok(HezenValue::Class(class)) => class,
            _ => {
                return Err(runtime_at(keyword, String::from_str("Can only access superclass from a subclass")));
            },
        };
        let own = Token::new(TokenType::Self_, String::from_str("self"), keyword.position.clone());
        let instance = match self.environment.get_at(&self.heap, distance - 1, &own) {
            Ok(HezenValue::Instance(instance)) => instance,
            Ok(_) => {
                return Err(runtime_at(keyword, String::from_str("Can only access superclass from a subclass")));
            },
            Err(error) => {
                return Err(error);
            },
        };
        match self.heap.find_method(superclass, &method.lexeme) {
            Some(found) => {
                if found < self.heap.functions.len() {
                    let unbound = self.heap.functions[found].clone();
                    let bound = unbound.bind(&mut self.heap, instance);
                    let index = self.heap.add_function(bound);
                    Ok(HezenValue::Function(index))
                } else {
                    Ok(HezenValue::Function(found))
                }
            },
            None => Err(runtime_at(method, join3("Undefined property '", method.lexeme.as_str(), "'"))),
        }
    }

    /// Evaluates an expression.
    pub fn evaluate<H: Host>(&mut self, link: &mut Link<H>, expr: &Expr, fuel: u64) -> (r: Result<
        HezenValue,
        HezenError,
    >)
        ensures
            extends(old(link).log(), final(link).log()),
            forall|oracle: Oracle| #[trigger]
                agrees(oracle, final(link).log()) ==> evaluate(
                    oracle,
                    old(self).state(old(link).asked()),
                    *expr,
                    fuel as nat,
                ) == (final(self).state(final(link).asked()), outcome(r)),
        decreases fuel, 0nat, 0nat,
    {
        broadcast use dialogue;

        if fuel == 0 {
            return Err(builtin_error(String::from_str("Evaluation budget exhausted")));
        }
        let fuel = fuel - 1;
        match expr {
            Expr::Literal(literal) => Ok(HezenValue::from(literal)),
            Expr::Grouping(inner) => self.evaluate(link, inner, fuel),
            Expr::Variable(name) => self.get(name),
            Expr::Self_(keyword) => self.get(keyword),
            Expr::Unary(op, right) => self.evaluate_unary(link, op, right, fuel),
            Expr::Binary(left, op, right) => self.evaluate_binary(link, left, op, right, fuel),
            Expr::Logical(left, op, right) => self.evaluate_logical(link, left, op, right, fuel),
            Expr::Assign(name, value) => self.evaluate_assign(link, name, value, fuel),
            Expr::Call(callee, paren, arguments) => self.evaluate_call(
                link,
                callee,
                paren,
                arguments,
                fuel,
            ),
            Expr::Get(object, name) => self.evaluate_get(link, object, name, fuel),
            Expr::SetProperty(object, name, value) => self.evaluate_set(
                link,
                object,
                name,
                value,
                fuel,
            ),
            Expr::Super(keyword, method) => self.evaluate_super(keyword, method),
        }
    }

    fn evaluate_unary<H: Host>(&mut self, link: &mut Link<H>, op: &Token, right: &Expr, fuel: u64) -> (r:
        Result<HezenValue, HezenError>)
        ensures
            extends(old(link).log(), final(link).log()),
            forall|oracle: Oracle| #[trigger]
                agrees(oracle, final(link).log()) ==> evaluate_unary(
                    oracle,
                    old(self).state(old(link).asked()),
                    *op,
                    *right,
                    fuel as nat,
                ) == (final(self).state(final(link).asked()), outcome(r)),
        decreases fuel, 1nat, 0nat,
    {
        broadcast use dialogue;

        match self.evaluate(link, right, fuel) {
            Ok(value) => self.unary(op, &value),
            Err(error) => Err(error),
        }
    }

    fn evaluate_binary<H: Host>(
        &mut self,
        link: &mut Link<H>,
        left: &Expr,
        op: &Token,
        right: &Expr,
        fuel: u64,
    ) -> (r: Result<HezenValue, HezenError>)
        ensures
            extends(old(link).log(), final(link).log()),
            forall|oracle: Oracle| #[trigger]
                agrees(oracle, final(link).log()) ==> evaluate_binary(
                    oracle,
                    old(self).state(old(link).asked()),
                    *left,
                    *op,
                    *right,
                    fuel as nat,
                ) == (final(self).state(final(link).asked()), outcome(r)),
        decreases fuel, 1nat, 0nat,
    {
        broadcast use dialogue;

        let left = match self.evaluate(link, left, fuel) {
            Ok(value) => value,
            Err(error) => {
                return Err(error);
            },
        };
        let right = match self.evaluate(link, right, fuel) {
            Ok(value) => value,
            Err(error) => {
                return Err(error);
            },
        };
        self.binary(link, op, &left, &right)
    }

    fn evaluate_logical<H: Host>(
        &mut self,
        link: &mut Link<H>,
        left: &Expr,
        op: &Token,
        right: &Expr,
        fuel: u64,
    ) -> (r: Result<HezenValue, HezenError>)
        ensures
            extends(old(link).log(), final(link).log()),
            forall|oracle: Oracle| #[trigger]
                agrees(oracle, final(link).log()) ==> evaluate_logical(
                    oracle,
                    old(self).state(old(link).asked()),
                    *left,
                    *op,
                    *right,
                    fuel as nat,
                ) == (final(self).state(final(link).asked()), outcome(r)),
        decreases fuel, 1nat, 0nat,
    {
        broadcast use dialogue;

        let left = match self.evaluate(link, left, fuel) {
            Ok(value) => value,
            Err(error) => {
                return Err(error);
            },
        };
        match &op.ty {
            TokenType::Or => {
                if left.is_truthy() {
                    Ok(left)
                } else {
                    self.evaluate(link, right, fuel)
                }
            },
            TokenType::And => {
                if !left.is_truthy() {
                    Ok(left)
                } else {
                    self.evaluate(link, right, fuel)
                }
            },
            _ => Err(runtime_at(op, invalid_operator_text("logical", &op.lexeme))),
        }
    }

    /// Whether an occurrence of a name may be assigned to.
    pub fn assignable(&self, name: &Token) -> (r: bool)
        ensures
            forall|asked: Seq<Request>| r == (#[trigger] self.state(asked)).assignable(name@),
    {
        match self.locals.get(name) {
            Some(distance) => self.environment.mutable_at(&self.heap, *distance, name),
            None => self.globals.mutable(&self.heap, name),
        }
    }

    /// Assigns a value to an occurrence of a name.
    pub fn assign(&mut self, name: &Token, value: HezenValue) -> (r: Result<(), HezenError>)
        ensures
            forall|asked: Seq<Request>|
                (#[trigger] old(self).state(asked)).assigned(name@, value@) == (
                    final(self).state(asked),
                    done(r),
                ),
    {
        let distance = match self.locals.get(name) {
            Some(distance) => Some(*distance),
            None => None,
        };
        match distance {
            Some(distance) => self.environment.assign_at(&mut self.heap, distance, name, value),
            None => self.globals.assign(&mut self.heap, name, value),
        }
    }

    fn evaluate_assign<H: Host>(&mut self, link: &mut Link<H>, name: &Token, value: &Expr, fuel: u64) -> (r:
        Result<HezenValue, HezenError>)
        ensures
            extends(old(link).log(), final(link).log()),
            forall|oracle: Oracle| #[trigger]
                agrees(oracle, final(link).log()) ==> evaluate_assign(
                    oracle,
                    old(self).state(old(link).asked()),
                    *name,
                    *value,
                    fuel as nat,
                ) == (final(self).state(final(link).asked()), outcome(r)),
        decreases fuel, 1nat, 0nat,
    {
        broadcast use dialogue;

        if !self.assignable(name) {
            return Err(runtime_at(name, immutable_message(&name.lexeme)));
        }
        let value = match self.evaluate(link, value, fuel) {
            Ok(value) => value,
            Err(error) => {
                return Err(error);
            },
        };
        match self.assign(name, value) {
            Ok(_) => Ok(HezenValue::Nil),
            Err(error) => Err(error),
        }
    }

    fn evaluate_get<H: Host>(&mut self, link: &mut Link<H>, object: &Expr, name: &Token, fuel: u64) -> (r:
        Result<HezenValue, HezenError>)
        ensures
            extends(old(link).log(), final(link).log()),
            forall|oracle: Oracle| #[trigger]
                agrees(oracle, final(link).log()) ==> evaluate_get(
                    oracle,
                    old(self).state(old(link).asked()),
                    *object,
                    *name,
                    fuel as nat,
                ) == (final(self).state(final(link).asked()), outcome(r)),
        decreases fuel, 1nat, 0nat,
    {
        broadcast use dialogue;

        let object = match self.evaluate(link, object, fuel) {
            Ok(value) => value,
            Err(error) => {
                return Err(error);
            },
        };
        match object {
            HezenValue::Instance(instance) => {
                match instance.get(&mut self.heap, &name.lexeme) {
                    Some(value) => Ok(value),
                    None => Err(
                        runtime_at(name, join3("Undefined property '", name.lexeme.as_str(), "'")),
                    ),
                }
            },
            other => Err(
                runtime_at(
                    name,
                    join3(
                        "Only instances have properties, '",
                        other.kind_name(&self.heap).as_str(),
                        "' does not",
                    ),
                ),
            ),
        }
    }

    fn evaluate_set<H: Host>(
        &mut self,
        link: &mut Link<H>,
        object: &Expr,
        name: &Token,
        value: &Expr,
        fuel: u64,
    ) -> (r: Result<HezenValue, HezenError>)
        ensures
            extends(old(link).log(), final(link).log()),
            forall|oracle: Oracle| #[trigger]
                agrees(oracle, final(link).log()) ==> evaluate_set(
                    oracle,
                    old(self).state(old(link).asked()),
                    *object,
                    *name,
                    *value,
                    fuel as nat,
                ) == (final(self).state(final(link).asked()), outcome(r)),
        decreases fuel, 1nat, 0nat,
    {
        broadcast use dialogue;

        let object = match self.evaluate(link, object, fuel) {
            Ok(value) => value,
            Err(error) => {
                return Err(error);
            },
        };
        match object {
            HezenValue::Instance(instance) => {
                let value = match self.evaluate(link, value, fuel) {
                    Ok(value) => value,
                    Err(error) => {
                        return Err(error);
                    },
                };
                instance.set(&mut self.heap, name.lexeme.clone(), value.clone());
                Ok(value)
            },
            other => Err(
                runtime_at(
                    name,
                    join3(
                        "Only instances have fields, '",
                        other.kind_name(&self.heap).as_str(),
                        "' does not",
                    ),
                ),
            ),
        }
    }

    #[verifier::loop_isolation(false)]
    fn evaluate_call<H: Host>(
        &mut self,
        link: &mut Link<H>,
        callee: &Expr,
        paren: &Token,
        arguments: &Vec<Expr>,
        fuel: u64,
    ) -> (r: Result<HezenValue, HezenError>)
        ensures
            extends(old(link).log(), final(link).log()),
            forall|oracle: Oracle| #[trigger]
                agrees(oracle, final(link).log()) ==> evaluate_call(
                    oracle,
                    old(self).state(old(link).asked()),
                    *callee,
                    *paren,
                    arguments@,
                    fuel as nat,
                ) == (final(self).state(final(link).asked()), outcome(r)),
        decreases fuel, 5nat, 0nat,
    {
        broadcast use dialogue;

        let callee = match self.evaluate(link, callee, fuel) {
            Ok(value) => value,
            Err(error) => {
                return Err(error);
            },
        };
        let ghost first = self.state(link.asked());
        let ghost begun = link.log();
        let mut values: Vec<HezenValue> = Vec::new();
        let mut i: usize = 0;
        assert(data(values@) =~= Seq::<Datum>::empty());
        while i < arguments.len()
            invariant
                i <= arguments.len(),
                extends(begun, link.log()),
                forall|oracle: Oracle| #[trigger]
                    agrees(oracle, link.log()) ==> evaluate_from(
                        oracle,
                        first,
                        arguments@,
                        0,
                        Seq::empty(),
                        fuel as nat,
                    ) == evaluate_from(
                        oracle,
                        self.state(link.asked()),
                        arguments@,
                        i as int,
                        data(values@),
                        fuel as nat,
                    ),
            decreases arguments.len() - i,
        {
            let value = match self.evaluate(link, &arguments[i], fuel) {
                Ok(value) => value,
                Err(error) => {
                    return Err(error);
                },
            };
            assert(data(values@.push(value)) =~= data(values@).push(value@));
            values.push(value);
            i = i + 1;
        }
        self.call_value(link, &callee, &values, paren, fuel)
    }

    /// How many arguments a value takes when called, if it can be called.
    pub fn arity(&self, callee: &HezenValue) -> (r: Option<usize>)
        ensures
            match r {
                Some(arity) => arity_of(self.heap@, callee@) == Some(arity as nat),
                None => arity_of(self.heap@, callee@).is_none(),
            },
    {
        match callee {
            HezenValue::Function(function) => {
                if *function < self.heap.functions.len() {
                    Some(self.heap.functions[*function].declaration.parameters.len())
                } else {
                    None
                }
            },
            HezenValue::NativeFunction(native) => {
                if *native < self.heap.natives.len() {
                    Some(self.heap.natives[*native].arity)
                } else {
                    None
                }
            },
            HezenValue::Class(class) => {
                if *class < self.heap.classes.len() {
                    let key = String::from_str("init");
                    match self.heap.classes[*class].methods.get(&key) {
                        Some(init) => {
                            if *init < self.heap.functions.len() {
                                Some(self.heap.functions[*init].declaration.parameters.len())
                            } else {
                                Some(0)
                            }
                        },
                        None => Some(0),
                    }
                } else {
                    None
                }
            },
            _ => None,
        }
    }

    /// Calls a value with arguments.
    pub fn call_value<H: Host>(
        &mut self,
        link: &mut Link<H>,
        callee: &HezenValue,
        arguments: &Vec<HezenValue>,
        paren: &Token,
        fuel: u64,
    ) -> (r: Result<HezenValue, HezenError>)
        ensures
            extends(old(link).log(), final(link).log()),
            forall|oracle: Oracle| #[trigger]
                agrees(oracle, final(link).log()) ==> call_value(
                    oracle,
                    old(self).state(old(link).asked()),
                    callee@,
                    data(arguments@),
                    *paren,
                    fuel as nat,
                ) == (final(self).state(final(link).asked()), outcome(r)),
        decreases fuel, 4nat, 0nat,
    {
        broadcast use dialogue;

        let arity = match self.arity(callee) {
            Some(arity) => arity,
            None => {
                return Err(
                    runtime_at(
                        paren,
                        join3(
                            "Can only call functions and classes, not '",
                            callee.kind_name(&self.heap).as_str(),
                            "'",
                        ),
                    ),
                );
            },
        };
        if arity != arguments.len() {
            return Err(runtime_at(paren, arity_text(arity, arguments.len())));
        }
        match callee {
            HezenValue::Function(function) => self.call_function(link, *function, arguments, fuel),
            HezenValue::NativeFunction(native) => {
                let function = self.heap.natives[*native].function;
                self.native(link, function, arguments)
            },
            HezenValue::Class(class) => self.construct(link, *class, arguments, fuel),
            _ => Err(
                runtime_at(
                    paren,
                    join3(
                        "Can only call functions and classes, not '",
                        callee.kind_name(&self.heap).as_str(),
                        "'",
                    ),
                ),
            ),
        }
    }

    /// Calls a class with arguments: makes an instance and initializes it.
    pub fn construct<H: Host>(
        &mut self,
        link: &mut Link<H>,
        class: usize,
        arguments: &Vec<HezenValue>,
        fuel: u64,
    ) -> (r: Result<HezenValue, HezenError>)
        ensures
            extends(old(link).log(), final(link).log()),
            forall|oracle: Oracle| #[trigger]
                agrees(oracle, final(link).log()) ==> construct(
                    oracle,
                    old(self).state(old(link).asked()),
                    class,
                    data(arguments@),
                    fuel as nat,
                ) == (final(self).state(final(link).asked()), outcome(r)),
        decreases fuel, 3nat, 2nat,
    {
        broadcast use dialogue;

        if class >= self.heap.classes.len() {
            return Err(builtin_error(String::from_str("Cannot call a class that does not exist")));
        }
        let key = String::from_str("init");
        let init = match self.heap.classes[class].methods.get(&key) {
            Some(init) => Some(*init),
            None => None,
        };
        let instance = HezenInstanceHandle::new(&mut self.heap, class);
        match init {
            Some(init) => {
                let bound = if init < self.heap.functions.len() {
                    let unbound = self.heap.functions[init].clone();
                    let bound = unbound.bind(&mut self.heap, instance);
                    self.heap.add_function(bound)
                } else {
                    init
                };
                match self.call_function(link, bound, arguments, fuel) {
                    Ok(_) => Ok(HezenValue::Instance(instance)),
                    Err(error) => Err(error),
                }
            },
            None => Ok(HezenValue::Instance(instance)),
        }
    }

    /// Calls a function of the heap with arguments.
    pub fn call_function<H: Host>(
        &mut self,
        link: &mut Link<H>,
        function: usize,
        arguments: &Vec<HezenValue>,
        fuel: u64,
    ) -> (r: Result<HezenValue, HezenError>)
        ensures
            extends(old(link).log(), final(link).log()),
            forall|oracle: Oracle| #[trigger]
                agrees(oracle, final(link).log()) ==> call_function(
                    oracle,
                    old(self).state(old(link).asked()),
                    function,
                    data(arguments@),
                    fuel as nat,
                ) == (final(self).state(final(link).asked()), outcome(r)),
        decreases fuel, 3nat, 1nat,
    {
        broadcast use dialogue;

        if function >= self.heap.functions.len() {
            return Err(builtin_error(String::from_str("Cannot call a function that does not exist")));
        }
        let callee = self.heap.functions[function].clone();
        self.call_closure(link, &callee, arguments, fuel)
    }

    /// Calls a function with arguments.
    pub fn call_closure<H: Host>(
        &mut self,
        link: &mut Link<H>,
        callee: &HezenFunction,
        arguments: &Vec<HezenValue>,
        fuel: u64,
    ) -> (r: Result<HezenValue, HezenError>)
        ensures
            extends(old(link).log(), final(link).log()),
            forall|oracle: Oracle| #[trigger]
                agrees(oracle, final(link).log()) ==> call_closure(
                    oracle,
                    old(self).state(old(link).asked()),
                    callee@,
                    data(arguments@),
                    fuel as nat,
                ) == (final(self).state(final(link).asked()), outcome(r)),
        decreases fuel, 3nat, 0nat,
    {
        broadcast use dialogue;

        match &callee.declaration.body {
            Stmt::Block(statements) => {
                let frames = self.heap.frames.len();
                let functions = self.heap.functions.len();
                let frame = HezenEnvironmentHandle::new(&mut self.heap, Some(callee.closure));
                bind_parameters(&mut self.heap, frame, &callee.declaration.parameters, arguments);
                let r = match self.execute_block(link, statements, frame, fuel) {
                    Err(HezenInterruption::Error(error)) => Err(error),
                    Err(HezenInterruption::Control(HezenControl::Return(value))) => {
                        if callee.initializer {
                            self.initialized(callee)
                        } else {
                            Ok(value)
                        }
                    },
                    Err(HezenInterruption::Control(_)) => Err(
                        runtime_at(
                            &callee.declaration.name,
                            String::from_str("Cannot use 'break' or 'continue' outside of a loop"),
                        ),
                    ),
                    Ok(value) => {
                        if callee.initializer {
                            self.initialized(callee)
                        } else {
                            Ok(value)
                        }
                    },
                };
                self.heap.release(frames, functions);
                r
            },
            _ => Err(
                runtime_at(
                    &callee.declaration.name,
                    String::from_str("Expected block statement in function body"),
                ),
            ),
        }
    }

    fn initialized(&self, function: &HezenFunction) -> (r: Result<HezenValue, HezenError>)
        ensures
            forall|asked: Seq<Request>|
                initialized(#[trigger] self.state(asked), function@) == (self.state(asked), outcome(r)),
    {
        let own = Token::new(
            TokenType::Self_,
            String::from_str("self"),
            function.declaration.name.position.clone(),
        );
        function.closure.get(&self.heap, &own)
    }

    /// Runs statements in a given frame, and returns to the frame in which
    /// evaluation stood.
    pub fn execute_block<H: Host>(
        &mut self,
        link: &mut Link<H>,
        statements: &Vec<Stmt>,
        frame: HezenEnvironmentHandle,
        fuel: u64,
    ) -> (r: Result<HezenValue, HezenInterruption>)
        ensures
            extends(old(link).log(), final(link).log()),
            forall|oracle: Oracle| #[trigger]
                agrees(oracle, final(link).log()) ==> execute_block(
                    oracle,
                    old(self).state(old(link).asked()),
                    statements@,
                    frame.index,
                    fuel as nat,
                ) == (final(self).state(final(link).asked()), ending(r)),
        decreases fuel, 2nat, 0nat,
    {
        broadcast use dialogue;

        let previous = self.environment;
        self.environment = frame;
        let r = self.execute_from(link, statements, fuel);
        self.environment = previous;
        r
    }

    #[verifier::loop_isolation(false)]
    fn execute_from<H: Host>(&mut self, link: &mut Link<H>, statements: &Vec<Stmt>, fuel: u64) -> (r:
        Result<HezenValue, HezenInterruption>)
        ensures
            extends(old(link).log(), final(link).log()),
            forall|oracle: Oracle| #[trigger]
                agrees(oracle, final(link).log()) ==> execute_from(
                    oracle,
                    old(self).state(old(link).asked()),
                    statements@,
                    0,
                    Datum::Nil,
                    fuel as nat,
                ) == (final(self).state(final(link).asked()), ending(r)),
        decreases fuel, 1nat, 1nat,
    {
        broadcast use dialogue;

        let mut last = HezenValue::Nil;
        let mut i: usize = 0;
        while i < statements.len()
            invariant
                i <= statements.len(),
                extends(old(link).log(), link.log()),
                forall|oracle: Oracle| #[trigger]
                    agrees(oracle, link.log()) ==> execute_from(
                        oracle,
                        old(self).state(old(link).asked()),
                        statements@,
                        0,
                        Datum::Nil,
                        fuel as nat,
                    ) == execute_from(
                        oracle,
                        self.state(link.asked()),
                        statements@,
                        i as int,
                        last@,
                        fuel as nat,
                    ),
            decreases statements.len() - i,
        {
            match self.execute(link, &statements[i], fuel) {
                Ok(value) => {
                    last = value;
                },
                Err(interruption) => {
                    return Err(interruption);
                },
            }
            i = i + 1;
        }
        Ok(last)
    }

    /// Executes a statement.
    pub fn execute<H: Host>(&mut self, link: &mut Link<H>, stmt: &Stmt, fuel: u64) -> (r: Result<
        HezenValue,
        HezenInterruption,
    >)
        ensures
            extends(old(link).log(), final(link).log()),
            forall|oracle: Oracle| #[trigger]
                agrees(oracle, final(link).log()) ==> execute(
                    oracle,
                    old(self).state(old(link).asked()),
                    *stmt,
                    fuel as nat,
                ) == (final(self).state(final(link).asked()), ending(r)),
        decreases fuel, 0nat, 0nat,
    {
        broadcast use dialogue;

        if fuel == 0 {
            return Err(
                HezenInterruption::Error(builtin_error(String::from_str("Evaluation budget exhausted"))),
            );
        }
        let fuel = fuel - 1;
        match stmt {
            Stmt::Block(statements) => {
                let frames = self.heap.frames.len();
                let functions = self.heap.functions.len();
                let frame = HezenEnvironmentHandle::new(&mut self.heap, Some(self.environment));
                let r = self.execute_block(link, statements, frame, fuel);
                self.heap.release(frames, functions);
                r
            },
            Stmt::Class(name, superclass, methods) => self.execute_class(
                link,
                name,
                superclass,
                methods,
                fuel,
            ),
            Stmt::Expression(expr) => match self.evaluate(link, expr, fuel) {
                Ok(value) => Ok(value),
                Err(error) => Err(HezenInterruption::Error(error)),
            },
            Stmt::Function(declaration) => {
                let function = HezenFunction::declared(declaration, self.environment, false);
                let index = self.heap.add_function(function);
                self.environment.define(
                    &mut self.heap,
                    declaration.name.clone(),
                    HezenValue::Function(index),
                    false,
                );
                Ok(HezenValue::Nil)
            },
            Stmt::If(condition, then_branch, else_branch) => self.execute_if(
                link,
                condition,
                then_branch,
                else_branch,
                fuel,
            ),
            Stmt::Var(name, initializer) => self.execute_var(link, name, initializer, false, fuel),
            Stmt::VarMut(name, initializer) => self.execute_var(link, name, initializer, true, fuel),
            Stmt::While(condition, body) => self.execute_while(link, condition, body, fuel),
            Stmt::Return(_, value) => self.execute_return(link, value, fuel),
            Stmt::Break => Err(HezenInterruption::Control(HezenControl::Break)),
            Stmt::Continue => Err(HezenInterruption::Control(HezenControl::Continue)),
        }
    }

    fn execute_if<H: Host>(
        &mut self,
        link: &mut Link<H>,
        condition: &Expr,
        then_branch: &Stmt,
        else_branch: &Option<Box<Stmt>>,
        fuel: u64,
    ) -> (r: Result<HezenValue, HezenInterruption>)
        ensures
            extends(old(link).log(), final(link).log()),
            forall|oracle: Oracle| #[trigger]
                agrees(oracle, final(link).log()) ==> execute_if(
                    oracle,
                    old(self).state(old(link).asked()),
                    *condition,
                    *then_branch,
                    *else_branch,
                    fuel as nat,
                ) == (final(self).state(final(link).asked()), ending(r)),
        decreases fuel, 1nat, 0nat,
    {
        broadcast use dialogue;

        let value = match self.evaluate(link, condition, fuel) {
            Ok(value) => value,
            Err(error) => {
                return Err(HezenInterruption::Error(error));
            },
        };
        if value.is_truthy() {
            self.execute(link, then_branch, fuel)
        } else {
            match else_branch {
                Some(branch) => self.execute(link, branch, fuel),
                None => Ok(HezenValue::Nil),
            }
        }
    }

    fn execute_var<H: Host>(
        &mut self,
        link: &mut Link<H>,
        name: &Token,
        initializer: &Option<Expr>,
        is_mutable: bool,
        fuel: u64,
    ) -> (r: Result<HezenValue, HezenInterruption>)
        ensures
            extends(old(link).log(), final(link).log()),
            forall|oracle: Oracle| #[trigger]
                agrees(oracle, final(link).log()) ==> execute_var(
                    oracle,
                    old(self).state(old(link).asked()),
                    *name,
                    *initializer,
                    is_mutable,
                    fuel as nat,
                ) == (final(self).state(final(link).asked()), ending(r)),
        decreases fuel, 1nat, 0nat,
    {
        broadcast use dialogue;

        let value = match initializer {
            Some(initializer) => match self.evaluate(link, initializer, fuel) {
                Ok(value) => value,
                Err(error) => {
                    return Err(HezenInterruption::Error(error));
                },
            },
            None => HezenValue::Nil,
        };
        self.environment.define(&mut self.heap, name.clone(), value, is_mutable);
        Ok(HezenValue::Nil)
    }

    fn execute_return<H: Host>(&mut self, link: &mut Link<H>, value: &Option<Expr>, fuel: u64) -> (r:
        Result<HezenValue, HezenInterruption>)
        ensures
            extends(old(link).log(), final(link).log()),
            forall|oracle: Oracle| #[trigger]
                agrees(oracle, final(link).log()) ==> execute_return(
                    oracle,
                    old(self).state(old(link).asked()),
                    *value,
                    fuel as nat,
                ) == (final(self).state(final(link).asked()), ending(r)),
        decreases fuel, 1nat, 0nat,
    {
        broadcast use dialogue;

        match value {
            Some(value) => match self.evaluate(link, value, fuel) {
                Ok(value) => Err(HezenInterruption::Control(HezenControl::Return(value))),
                Err(error) => Err(HezenInterruption::Error(error)),
            },
            None => Err(HezenInterruption::Control(HezenControl::Return(HezenValue::Nil))),
        }
    }

    #[verifier::loop_isolation(false)]
    fn execute_while<H: Host>(&mut self, link: &mut Link<H>, condition: &Expr, body: &Stmt, fuel: u64) -> (r:
        Result<HezenValue, HezenInterruption>)
        ensures
            extends(old(link).log(), final(link).log()),
            forall|oracle: Oracle| #[trigger]
                agrees(oracle, final(link).log()) ==> execute_while(
                    oracle,
                    old(self).state(old(link).asked()),
                    *condition,
                    *body,
                    fuel as nat,
                ) == (final(self).state(final(link).asked()), ending(r)),
        decreases fuel, 1nat, 0nat,
    {
        broadcast use dialogue;

        let mut left = fuel;
        loop
            invariant
                left <= fuel,
                extends(old(link).log(), link.log()),
                forall|oracle: Oracle| #[trigger]
                    agrees(oracle, link.log()) ==> execute_while(
                        oracle,
                        old(self).state(old(link).asked()),
                        *condition,
                        *body,
                        fuel as nat,
                    ) == execute_while(
                        oracle,
                        self.state(link.asked()),
                        *condition,
                        *body,
                        left as nat,
                    ),
            decreases left,
        {
            if left == 0 {
                return Err(
                    HezenInterruption::Error(
                        builtin_error(String::from_str("Evaluation budget exhausted")),
                    ),
                );
            }
            let value = match self.evaluate(link, condition, left) {
                Ok(value) => value,
                Err(error) => {
                    return Err(HezenInterruption::Error(error));
                },
            };
            if !value.is_truthy() {
                return Ok(HezenValue::Nil);
            }
            match self.execute(link, body, left) {
                Err(HezenInterruption::Control(HezenControl::Break)) => {
                    return Ok(HezenValue::Nil);
                },
                Err(HezenInterruption::Control(HezenControl::Return(value))) => {
                    return Err(HezenInterruption::Control(HezenControl::Return(value)));
                },
                Err(HezenInterruption::Error(error)) => {
                    return Err(HezenInterruption::Error(error));
                },
                _ => {},
            }
            left = left - 1;
        }
    }

    fn execute_class<H: Host>(
        &mut self,
        link: &mut Link<H>,
        name: &Token,
        superclass: &Option<Expr>,
        methods: &Vec<Stmt>,
        fuel: u64,
    ) -> (r: Result<HezenValue, HezenInterruption>)
        ensures
            extends(old(link).log(), final(link).log()),
            forall|oracle: Oracle| #[trigger]
                agrees(oracle, final(link).log()) ==> execute_class(
                    oracle,
                    old(self).state(old(link).asked()),
                    *name,
                    *superclass,
                    methods@,
                    fuel as nat,
                ) == (final(self).state(final(link).asked()), ending(r)),
        decreases fuel, 1nat, 0nat,
    {
        broadcast use dialogue;

        let parent = match superclass {
            Some(superclass) => match self.evaluate(link, superclass, fuel) {
                Ok(HezenValue::Class(parent)) => Some(parent),
                Ok(other) => {
                    return Err(
                        HezenInterruption::Error(
                            runtime_at(
                                name,
                                join3(
                                    "Superclass must be a class, not '",
                                    other.kind_name(&self.heap).as_str(),
                                    "'",
                                ),
                            ),
                        ),
                    );
                },
                Err(error) => {
                    return Err(HezenInterruption::Error(error));
                },
            },
            None => None,
        };
        self.make_class(name, parent, methods)
    }

    /// Makes a class and binds it to its name.
    #[verifier::loop_isolation(false)]
    pub fn make_class(&mut self, name: &Token, superclass: Option<usize>, methods: &Vec<Stmt>) -> (r:
        Result<HezenValue, HezenInterruption>)
        ensures
            forall|asked: Seq<Request>|
                class_made(#[trigger] old(self).state(asked), *name, superclass, methods@) == (
                    final(self).state(asked),
                    ending(r),
                ),
    {
        self.environment.define(&mut self.heap, name.clone(), HezenValue::Nil, true);
        let env = match superclass {
            Some(parent) => {
                let frame = HezenEnvironmentHandle::new(&mut self.heap, Some(self.environment));
                frame.define(
                    &mut self.heap,
                    Token::new(TokenType::Builtin, String::from_str("super"), builtin_info()),
                    HezenValue::Class(parent),
                    false,
                );
                frame
            },
            None => self.environment,
        };
        let ghost prepared = self.heap@;
        let init = String::from_str("init");
        let mut table: Table<String, usize> = Table::new();
        let mut i: usize = 0;
        while i < methods.len()
            invariant
                i <= methods.len(),
                self.globals == old(self).globals,
                self.environment == old(self).environment,
                self.locals == old(self).locals,
                methods_made(prepared, methods@, 0, env.index, Map::empty()) == methods_made(
                    self.heap@,
                    methods@,
                    i as int,
                    env.index,
                    table@,
                ),
            decreases methods.len() - i,
        {
            match &methods[i] {
                Stmt::Function(declaration) => {
                    let initializer = declaration.name.lexeme == init;
                    let function = HezenFunction::declared(declaration, env, initializer);
                    let index = self.heap.add_function(function);
                    table.insert(declaration.name.lexeme.clone(), index);
                },
                _ => {},
            }
            i = i + 1;
        }
        let class = HezenClass::new(name.lexeme.clone(), superclass, table);
        let index = self.heap.add_class(class);
        match self.environment.assign(&mut self.heap, name, HezenValue::Class(index)) {
            Ok(_) => Ok(HezenValue::Class(index)),
            Err(error) => Err(HezenInterruption::Error(error)),
        }
    }

    /// Runs a program: its statements one after the other, up to the first
    /// runtime error.
    #[verifier::loop_isolation(false)]
    pub fn interpret<H: Host>(&mut self, link: &mut Link<H>, statements: &Vec<Stmt>, fuel: u64) -> (r:
        Result<(), HezenError>)
        ensures
            extends(old(link).log(), final(link).log()),
            forall|oracle: Oracle| #[trigger]
                agrees(oracle, final(link).log()) ==> interpret_from(
                    oracle,
                    old(self).state(old(link).asked()),
                    statements@,
                    0,
                    fuel as nat,
                ) == (final(self).state(final(link).asked()), done(r)),
    {
        broadcast use dialogue;

        let mut i: usize = 0;
        while i < statements.len()
            invariant
                i <= statements.len(),
                extends(old(link).log(), link.log()),
                forall|oracle: Oracle| #[trigger]
                    agrees(oracle, link.log()) ==> interpret_from(
                        oracle,
                        old(self).state(old(link).asked()),
                        statements@,
                        0,
                        fuel as nat,
                    ) == interpret_from(
                        oracle,
                        self.state(link.asked()),
                        statements@,
                        i as int,
                        fuel as nat,
                    ),
            decreases statements.len() - i,
        {
            match self.execute(link, &statements[i], fuel) {
                Ok(_) => {},
                Err(HezenInterruption::Error(error)) => {
                    return Err(error);
                },
                Err(HezenInterruption::Control(_)) => {
                    return Err(
                        builtin_error(
                            String::from_str("Cannot use 'break' or 'continue' outside of a loop"),
                        ),
                    );
                },
            }
            i = i + 1;
        }
        Ok(())
    }
}

/// Binds the parameters of a call, each to the argument at its position,
/// immutably.
#[verifier::loop_isolation(false)]
pub fn bind_parameters(
    heap: &mut Heap,
    frame: HezenEnvironmentHandle,
    parameters: &Vec<Token>,
    arguments: &Vec<HezenValue>,
)
    ensures
        final(heap)@ == parameters_bound(
            old(heap)@,
            frame.index,
            parameters@,
            data(arguments@),
            0,
        ),
{
    let mut i: usize = 0;
    while i < parameters.len() && i < arguments.len()
        invariant
            parameters_bound(old(heap)@, frame.index, parameters@, data(arguments@), 0)
                == parameters_bound(heap@, frame.index, parameters@, data(arguments@), i as int),
        decreases parameters.len() - i,
    {
        frame.define(heap, parameters[i].clone(), arguments[i].clone(), false);
        i = i + 1;
    }
}

/// The argument at a position; `nil` where there is none.
pub fn argument_at(arguments: &Vec<HezenValue>, i: usize) -> (r: HezenValue)
    ensures
        r@ == argument(data(arguments@), i as int),
{
    if i < arguments.len() {
        arguments[i].clone()
    } else {
        HezenValue::Nil
    }
}

} // verus!
