use vstd::prelude::*;
use crate::ast::{Declaration, Expr, Stmt};
use crate::class::Blueprint;
use crate::environment::{literal_value, same_value, truthy, Datum};
use crate::error::{Fault, Place};
use crate::function::{Builtin, Closure};
use crate::heap::Memory;
use crate::host::{Arithmetic, Oracle, Reply, Request};
use crate::number::{equal_numbers, less_numbers, negated};
use crate::text::decimal_text;
use crate::token::{Token, TokenType, TokenView};

verus! {

/// The state of an interpreter as a mathematical value: the heap, the frame
/// of the globals, the frame in which evaluation stands, the distance table,
/// and the questions put to the host so far.
pub struct Machine {
    pub memory: Memory,
    pub globals: usize,
    pub environment: usize,
    pub locals: Map<TokenView, usize>,
    pub asked: Seq<Request>,
}

/// A signal that leaves the statement that raised it: `return` with its
/// value, `break` or `continue`.
pub enum Signal {
    Return(Datum),
    Break,
    Continue,
}

/// Why a statement did not run to its end: a signal, or a runtime error.
pub enum Interruption {
    Control(Signal),
    Error(Fault),
}

/// What evaluating an expression gives: the state after it, and the value or
/// the runtime error.
pub type Evaluated = (Machine, Result<Datum, Fault>);

/// What executing a statement gives: the state after it, and the value or
/// the interruption.
pub type Executed = (Machine, Result<Datum, Interruption>);

/// The place of what the host language itself defines.
pub open spec fn builtin_place() -> Place {
    Place { file: "<builtin>"@, line: 0, column: 0 }
}

/// The error of an evaluation that nests deeper than its bound allows.
pub open spec fn exhausted() -> Fault {
    Fault::Runtime(builtin_place(), "Evaluation budget exhausted"@)
}

/// The complaint about a call of a function that the heap does not hold.
pub open spec fn missing_function() -> Seq<char> {
    "Cannot call a function that does not exist"@
}

/// The complaint about a call of a class that the heap does not hold.
pub open spec fn missing_class() -> Seq<char> {
    "Cannot call a class that does not exist"@
}

/// The complaint about a `break` or a `continue` that no loop takes.
pub open spec fn stray_signal() -> Seq<char> {
    "Cannot use 'break' or 'continue' outside of a loop"@
}

/// A complaint that names the kinds of two operands.
pub open spec fn operands_message(prefix: Seq<char>, left: Seq<char>, right: Seq<char>) -> Seq<char> {
    prefix + left + "' and '"@ + right + "'"@
}

/// The complaint about operands that are not two numbers.
pub open spec fn two_numbers(memory: Memory, left: Datum, right: Datum) -> Seq<char> {
    operands_message(
        "Operands must be two numbers, not '"@,
        memory.kind_name(left),
        memory.kind_name(right),
    )
}

/// The complaint about operands that are neither two numbers nor two strings.
pub open spec fn numbers_or_strings(memory: Memory, left: Datum, right: Datum) -> Seq<char> {
    operands_message(
        "Operands must be two numbers or two strings, not '"@,
        memory.kind_name(left),
        memory.kind_name(right),
    )
}

/// The complaint about an operator that its kind of expression does not have.
pub open spec fn invalid_operator(kind: Seq<char>, lexeme: Seq<char>) -> Seq<char> {
    "Invalid "@ + kind + " operator '"@ + lexeme
        + "'. Don't know how you did it, but that's a parser bug"@
}

/// A name between the two halves of a message.
pub open spec fn quoted(prefix: Seq<char>, name: Seq<char>, suffix: Seq<char>) -> Seq<char> {
    prefix + name + suffix
}

/// The complaint about a call with another number of arguments than the
/// callee takes.
pub open spec fn arity_message(expected: nat, got: nat) -> Seq<char> {
    "Expected "@ + decimal_text(expected) + " arguments but got "@ + decimal_text(got)
}

/// The complaint about `super` where no superclass and instance are found.
pub open spec fn no_superclass() -> Seq<char> {
    "Can only access superclass from a subclass"@
}

/// The state after the host was asked a question, and its answer.
pub open spec fn ask(oracle: Oracle, m: Machine, request: Request) -> (Machine, Reply) {
    (Machine { asked: m.asked.push(request), ..m }, oracle(m.asked.len() as int, request))
}

impl Machine {
    /// The state after the frames that were made since an earlier state were
    /// given back: a block and a call give their frames back when they end,
    /// unless a function was made in the meantime, which may close over them.
    pub open spec fn released(self, entry: Machine) -> Machine {
        self.with_memory(
            self.memory.released(entry.memory.frames.len(), entry.memory.functions.len()),
        )
    }

    /// The state with another heap.
    pub open spec fn with_memory(self, memory: Memory) -> Machine {
        Machine { memory, ..self }
    }

    /// What a name reads as: where the distance table knows the occurrence,
    /// the binding in exactly the frame that many links out; else the binding
    /// of the globals.
    pub open spec fn read_variable(self, name: TokenView) -> Result<Datum, Fault> {
        if self.locals.contains_key(name) {
            self.memory.read_at(self.environment, self.locals[name] as nat, name)
        } else {
            self.memory.read(self.globals, name)
        }
    }

    /// Whether an occurrence of a name may be assigned to.
    pub open spec fn assignable(self, name: TokenView) -> bool {
        if self.locals.contains_key(name) {
            self.memory.mutable_at(self.environment, self.locals[name] as nat, name.lexeme)
        } else {
            self.memory.mutable(self.globals, name.lexeme)
        }
    }

    /// The state after an occurrence of a name was assigned a value, and
    /// whether that succeeded.
    pub open spec fn assigned(self, name: TokenView, value: Datum) -> (Machine, Result<(), Fault>) {
        let (memory, done) = if self.locals.contains_key(name) {
            self.memory.write_at(self.environment, self.locals[name] as nat, name, value)
        } else {
            self.memory.write(self.globals, name, value)
        };
        (self.with_memory(memory), done)
    }
}

/// The value of a unary operation.
pub open spec fn unary(memory: Memory, op: Token, value: Datum) -> Result<Datum, Fault> {
    match op.ty {
        TokenType::Bang => Ok(Datum::Bool(!truthy(value))),
        TokenType::Minus => match value {
            Datum::Number(bits) => Ok(Datum::Number(negated(bits))),
            _ => Err(
                Fault::Runtime(
                    op@.position,
                    quoted("Operand must be a number, not '"@, memory.kind_name(value), "'"@),
                ),
            ),
        },
        _ => Err(Fault::Runtime(op@.position, invalid_operator("unary"@, op.lexeme@))),
    }
}

/// The arithmetic that an operator asks of the host.
pub open spec fn arithmetic_of(op: TokenType) -> Option<Arithmetic> {
    match op {
        TokenType::Plus => Some(Arithmetic::Add),
        TokenType::Minus => Some(Arithmetic::Subtract),
        TokenType::Star => Some(Arithmetic::Multiply),
        TokenType::Slash => Some(Arithmetic::Divide),
        _ => None,
    }
}

/// The truth of a comparison of two numbers.
pub open spec fn comparison(op: TokenType, left: u64, right: u64) -> Option<bool> {
    match op {
        TokenType::Greater => Some(less_numbers(right, left)),
        TokenType::GreaterEqual => Some(less_numbers(right, left) || equal_numbers(left, right)),
        TokenType::Less => Some(less_numbers(left, right)),
        TokenType::LessEqual => Some(less_numbers(left, right) || equal_numbers(left, right)),
        _ => None,
    }
}

/// The value of a binary operation on two values. Sums, differences,
/// products and quotients of numbers are the host's; everything else is
/// decided here.
pub open spec fn binary(oracle: Oracle, m: Machine, op: Token, left: Datum, right: Datum) -> Evaluated {
    match op.ty {
        TokenType::EqualEqual => (m, Ok(Datum::Bool(same_value(left, right)))),
        TokenType::BangEqual => (m, Ok(Datum::Bool(!same_value(left, right)))),
        TokenType::Plus => match (left, right) {
            (Datum::Number(x), Datum::Number(y)) => {
                let (after, reply) = ask(oracle, m, Request::Compute(Arithmetic::Add, x, y));
                (after, Ok(Datum::Number(reply.number())))
            },
            (Datum::Text(x), Datum::Text(y)) => (m, Ok(Datum::Text(x + y))),
            _ => (m, Err(Fault::Runtime(op@.position, numbers_or_strings(m.memory, left, right)))),
        },
        _ => match (arithmetic_of(op.ty), left, right) {
            (Some(operation), Datum::Number(x), Datum::Number(y)) => {
                let (after, reply) = ask(oracle, m, Request::Compute(operation, x, y));
                (after, Ok(Datum::Number(reply.number())))
            },
            (Some(_), _, _) => (
                m,
                Err(Fault::Runtime(op@.position, two_numbers(m.memory, left, right))),
            ),
            (None, _, _) => match comparison(op.ty, 0, 0) {
                Some(_) => match (left, right) {
                    (Datum::Number(x), Datum::Number(y)) => (
                        m,
                        Ok(Datum::Bool(comparison(op.ty, x, y).unwrap())),
                    ),
                    _ => (m, Err(Fault::Runtime(op@.position, two_numbers(m.memory, left, right)))),
                },
                None => (
                    m,
                    Err(Fault::Runtime(op@.position, invalid_operator("binary"@, op.lexeme@))),
                ),
            },
        },
    }
}

/// The text that shows a value. That of a number is the host's.
pub open spec fn rendered(oracle: Oracle, m: Machine, value: Datum) -> (Machine, Seq<char>) {
    match value {
        Datum::Nil => (m, "nil"@),
        Datum::Bool(b) => (m, if b { "true"@ } else { "false"@ }),
        Datum::Number(bits) => {
            let (after, reply) = ask(oracle, m, Request::Render(bits));
            (after, reply.text())
        },
        Datum::Text(text) => (m, text),
        Datum::Function(function) => (
            m,
            quoted(
                "<function "@,
                if function < m.memory.functions.len() {
                    m.memory.functions[function as int].declaration.name.lexeme@
                } else {
                    Seq::<char>::empty()
                },
                ">"@,
            ),
        ),
        Datum::NativeFunction(native) => (
            m,
            quoted(
                "<native function "@,
                if native < m.memory.natives.len() {
                    m.memory.natives[native as int].name.lexeme
                } else {
                    Seq::<char>::empty()
                },
                ">"@,
            ),
        ),
        Datum::Class(class) => (m, quoted("<class "@, m.memory.class_name(class), ">"@)),
        Datum::Instance(instance) => (
            m,
            quoted("<instance "@, m.memory.instance_class_name(instance), ">"@),
        ),
    }
}

/// The argument at a position; `nil` where there is none.
pub open spec fn argument(arguments: Seq<Datum>, i: int) -> Datum {
    if 0 <= i < arguments.len() {
        arguments[i]
    } else {
        Datum::Nil
    }
}

/// What a call of a host function does.
pub open spec fn native_call(oracle: Oracle, m: Machine, function: Builtin, arguments: Seq<Datum>) -> Evaluated {
    match function {
        Builtin::Clock => {
            let (after, reply) = ask(oracle, m, Request::Clock);
            (after, Ok(Datum::Number(reply.number())))
        },
        Builtin::Print => {
            let (shown, text) = rendered(oracle, m, argument(arguments, 0));
            let (after, _) = ask(oracle, shown, Request::Write(text));
            (after, Ok(Datum::Nil))
        },
        Builtin::Println => {
            let (shown, text) = rendered(oracle, m, argument(arguments, 0));
            let (after, _) = ask(oracle, shown, Request::Write(text + "\n"@));
            (after, Ok(Datum::Nil))
        },
        Builtin::Mod => match (argument(arguments, 0), argument(arguments, 1)) {
            (Datum::Number(x), Datum::Number(y)) => {
                let (after, reply) = ask(oracle, m, Request::Compute(Arithmetic::Remainder, x, y));
                (after, Ok(Datum::Number(reply.number())))
            },
            _ => (
                m,
                Err(
                    Fault::Runtime(
                        builtin_place(),
                        two_numbers(m.memory, argument(arguments, 0), argument(arguments, 1)),
                    ),
                ),
            ),
        },
        Builtin::Show => {
            let (shown, text) = rendered(oracle, m, argument(arguments, 0));
            (shown, Ok(Datum::Text(text)))
        },
    }
}

/// The heap after the parameters from position `i` on were bound, each to
/// the argument at its position, immutably.
pub open spec fn parameters_bound(
    memory: Memory,
    frame: usize,
    parameters: Seq<Token>,
    arguments: Seq<Datum>,
    i: int,
) -> Memory
    decreases parameters.len() - i,
{
    if 0 <= i < parameters.len() && i < arguments.len() {
        parameters_bound(
            memory.defining(frame, parameters[i]@, arguments[i], false),
            frame,
            parameters,
            arguments,
            i + 1,
        )
    } else {
        memory
    }
}

/// The token under which the methods of a subclass find the superclass.
pub open spec fn super_token() -> TokenView {
    TokenView { ty: TokenType::Builtin@, lexeme: "super"@, position: builtin_place() }
}

/// The token by which `super` finds the instance it acts for.
pub open spec fn self_at(place: Place) -> TokenView {
    TokenView { ty: TokenType::Self_@, lexeme: "self"@, position: place }
}

/// The heap and the method table after the method declarations from
/// position `i` on were made into functions that close over `env`. A
/// statement that declares no function makes no method.
pub open spec fn methods_made(
    memory: Memory,
    methods: Seq<Stmt>,
    i: int,
    env: usize,
    table: Map<Seq<char>, usize>,
) -> (Memory, Map<Seq<char>, usize>)
    decreases methods.len() - i,
{
    if 0 <= i < methods.len() {
        match methods[i] {
            Stmt::Function(declaration) => methods_made(
                memory.function_added(
                    Closure {
                        declaration: *declaration,
                        closure: env,
                        initializer: declaration.name.lexeme@ == "init"@,
                    },
                ),
                methods,
                i + 1,
                env,
                table.insert(declaration.name.lexeme@, memory.functions.len() as usize),
            ),
            _ => methods_made(memory, methods, i + 1, env, table),
        }
    } else {
        (memory, table)
    }
}

/// How many arguments a class takes: as many as its own `init`, or none.
pub open spec fn class_arity(memory: Memory, class: usize) -> nat {
    if class < memory.classes.len() && memory.classes[class as int].methods.contains_key("init"@) {
        let init = memory.classes[class as int].methods["init"@];
        if init < memory.functions.len() {
            memory.functions[init as int].declaration.parameters@.len()
        } else {
            0
        }
    } else {
        0
    }
}

/// An evaluation that ends in a runtime error and leaves the state as it is.
pub open spec fn failed(m: Machine, place: Place, message: Seq<char>) -> Evaluated {
    (m, Err(Fault::Runtime(place, message)))
}

/// An execution that ends in a runtime error and leaves the state as it is.
pub open spec fn interrupted(m: Machine, place: Place, message: Seq<char>) -> Executed {
    (m, Err(Interruption::Error(Fault::Runtime(place, message))))
}

/// A statement's outcome for that of an expression.
pub open spec fn lifted(evaluated: Evaluated) -> Executed {
    match evaluated.1 {
        Ok(value) => (evaluated.0, Ok(value)),
        Err(fault) => (evaluated.0, Err(Interruption::Error(fault))),
    }
}

/// What evaluating an expression gives. `fuel` bounds how deep evaluation
/// may nest, an iteration of a loop counting as one level: where it runs
/// out, evaluation ends with the error `exhausted()`.
pub open spec fn evaluate(oracle: Oracle, m: Machine, expr: Expr, fuel: nat) -> Evaluated
    decreases fuel, 0nat, 0nat,
{
    if fuel == 0 {
        (m, Err(exhausted()))
    } else {
        let fuel = (fuel - 1) as nat;
        match expr {
            Expr::Literal(literal) => (m, Ok(literal_value(literal))),
            Expr::Grouping(inner) => evaluate(oracle, m, *inner, fuel),
            Expr::Variable(name) => (m, m.read_variable(name@)),
            Expr::Self_(keyword) => (m, m.read_variable(keyword@)),
            Expr::Unary(op, right) => evaluate_unary(oracle, m, op, *right, fuel),
            Expr::Binary(left, op, right) => evaluate_binary(oracle, m, *left, op, *right, fuel),
            Expr::Logical(left, op, right) => evaluate_logical(oracle, m, *left, op, *right, fuel),
            Expr::Assign(name, value) => evaluate_assign(oracle, m, name, *value, fuel),
            Expr::Call(callee, paren, arguments) => evaluate_call(
                oracle,
                m,
                *callee,
                paren,
                arguments@,
                fuel,
            ),
            Expr::Get(object, name) => evaluate_get(oracle, m, *object, name, fuel),
            Expr::SetProperty(object, name, value) => evaluate_set(
                oracle,
                m,
                *object,
                name,
                *value,
                fuel,
            ),
            Expr::Super(keyword, method) => m.evaluate_super(keyword, method),
        }
    }
}

impl Machine {
    /// What `super.method` gives: the method of that name of the superclass,
    /// which stands in the frame that the distance table gives for `super`,
    /// bound to the instance that stands one frame nearer.
    pub open spec fn evaluate_super(self, keyword: Token, method: Token) -> Evaluated {
        if !self.locals.contains_key(keyword@) || self.locals[keyword@] == 0 {
            failed(self, keyword@.position, no_superclass())
        } else {
            let distance = self.locals[keyword@];
            match self.memory.read_at(self.environment, distance as nat, keyword@) {
                Ok(Datum::Class(superclass)) => match self.memory.read_at(
                    self.environment,
                    (distance - 1) as nat,
                    self_at(keyword@.position),
                ) {
                    Ok(Datum::Instance(instance)) => match self.memory.method(
                        superclass,
                        method.lexeme@,
                    ) {
                        Some(found) => {
                            let (memory, bound) = self.memory.method_bound(found, instance);
                            (self.with_memory(memory), Ok(Datum::Function(bound)))
                        },
                        None => failed(
                            self,
                            method@.position,
                            quoted("Undefined property '"@, method.lexeme@, "'"@),
                        ),
                    },
                    Ok(_) => failed(self, keyword@.position, no_superclass()),
                    Err(fault) => (self, Err(fault)),
                },
                _ => failed(self, keyword@.position, no_superclass()),
            }
        }
    }
}

/// A unary operation evaluates its operand, then applies the operator.
pub open spec fn evaluate_unary(oracle: Oracle, m: Machine, op: Token, right: Expr, fuel: nat) -> Evaluated
    decreases fuel, 1nat, 0nat,
{
    let (after, value) = evaluate(oracle, m, right, fuel);
    match value {
        Ok(value) => (after, unary(after.memory, op, value)),
        Err(fault) => (after, Err(fault)),
    }
}

/// A binary operation evaluates its left operand, then its right one, then
/// applies the operator.
pub open spec fn evaluate_binary(
    oracle: Oracle,
    m: Machine,
    left: Expr,
    op: Token,
    right: Expr,
    fuel: nat,
) -> Evaluated
    decreases fuel, 1nat, 0nat,
{
    let (first, left) = evaluate(oracle, m, left, fuel);
    match left {
        Ok(left) => {
            let (second, right) = evaluate(oracle, first, right, fuel);
            match right {
                Ok(right) => binary(oracle, second, op, left, right),
                Err(fault) => (second, Err(fault)),
            }
        },
        Err(fault) => (first, Err(fault)),
    }
}

/// `or` gives its left operand where that is true, else its right one; `and`
/// gives its left operand where that is false, else its right one. The right
/// operand is evaluated only where it is given.
pub open spec fn evaluate_logical(
    oracle: Oracle,
    m: Machine,
    left: Expr,
    op: Token,
    right: Expr,
    fuel: nat,
) -> Evaluated
    decreases fuel, 1nat, 0nat,
{
    let (first, left) = evaluate(oracle, m, left, fuel);
    match left {
        Ok(left) => match op.ty {
            TokenType::Or => if truthy(left) {
                (first, Ok(left))
            } else {
                evaluate(oracle, first, right, fuel)
            },
            TokenType::And => if !truthy(left) {
                (first, Ok(left))
            } else {
                evaluate(oracle, first, right, fuel)
            },
            _ => failed(first, op@.position, invalid_operator("logical"@, op.lexeme@)),
        },
        Err(fault) => (first, Err(fault)),
    }
}

/// An assignment first asks whether the name may be assigned to, then
/// evaluates the value, then assigns; it gives `nil`.
pub open spec fn evaluate_assign(oracle: Oracle, m: Machine, name: Token, value: Expr, fuel: nat) -> Evaluated
    decreases fuel, 1nat, 0nat,
{
    if m.assignable(name@) {
        let (after, value) = evaluate(oracle, m, value, fuel);
        match value {
            Ok(value) => {
                let (last, done) = after.assigned(name@, value);
                match done {
                    Ok(_) => (last, Ok(Datum::Nil)),
                    Err(fault) => (last, Err(fault)),
                }
            },
            Err(fault) => (after, Err(fault)),
        }
    } else {
        failed(m, name@.position, crate::heap::immutable_variable(name.lexeme@))
    }
}

/// A property access evaluates its object, which must be an instance, then
/// gives the field of the name, or else the method of the name bound to the
/// instance.
pub open spec fn evaluate_get(oracle: Oracle, m: Machine, object: Expr, name: Token, fuel: nat) -> Evaluated
    decreases fuel, 1nat, 0nat,
{
    let (after, object) = evaluate(oracle, m, object, fuel);
    match object {
        Ok(Datum::Instance(instance)) => {
            let (memory, property) = after.memory.property(instance, name.lexeme@);
            match property {
                Some(value) => (after.with_memory(memory), Ok(value)),
                None => failed(
                    after.with_memory(memory),
                    name@.position,
                    quoted("Undefined property '"@, name.lexeme@, "'"@),
                ),
            }
        },
        Ok(other) => failed(
            after,
            name@.position,
            quoted(
                "Only instances have properties, '"@,
                after.memory.kind_name(other),
                "' does not"@,
            ),
        ),
        Err(fault) => (after, Err(fault)),
    }
}

/// A property assignment evaluates its object, which must be an instance,
/// then the value, then sets the field; it gives the value.
pub open spec fn evaluate_set(
    oracle: Oracle,
    m: Machine,
    object: Expr,
    name: Token,
    value: Expr,
    fuel: nat,
) -> Evaluated
    decreases fuel, 1nat, 0nat,
{
    let (first, object) = evaluate(oracle, m, object, fuel);
    match object {
        Ok(Datum::Instance(instance)) => {
            let (second, value) = evaluate(oracle, first, value, fuel);
            match value {
                Ok(value) => (
                    second.with_memory(second.memory.field_set(instance, name.lexeme@, value)),
                    Ok(value),
                ),
                Err(fault) => (second, Err(fault)),
            }
        },
        Ok(other) => failed(
            first,
            name@.position,
            quoted("Only instances have fields, '"@, first.memory.kind_name(other), "' does not"@),
        ),
        Err(fault) => (first, Err(fault)),
    }
}

/// The values of the expressions from position `i` on, evaluated from left
/// to right, after the values in `values`; the first error ends it.
pub open spec fn evaluate_from(
    oracle: Oracle,
    m: Machine,
    exprs: Seq<Expr>,
    i: int,
    values: Seq<Datum>,
    fuel: nat,
) -> (Machine, Result<Seq<Datum>, Fault>)
    decreases fuel, 1nat, exprs.len() - i,
{
    if 0 <= i < exprs.len() {
        let (after, value) = evaluate(oracle, m, exprs[i], fuel);
        match value {
            Ok(value) => evaluate_from(oracle, after, exprs, i + 1, values.push(value), fuel),
            Err(fault) => (after, Err(fault)),
        }
    } else {
        (m, Ok(values))
    }
}

/// A call evaluates the callee, then the arguments from left to right, then
/// calls.
pub open spec fn evaluate_call(
    oracle: Oracle,
    m: Machine,
    callee: Expr,
    paren: Token,
    arguments: Seq<Expr>,
    fuel: nat,
) -> Evaluated
    decreases fuel, 5nat, 0nat,
{
    let (first, callee) = evaluate(oracle, m, callee, fuel);
    match callee {
        Ok(callee) => {
            let (second, values) = evaluate_from(oracle, first, arguments, 0, Seq::empty(), fuel);
            match values {
                Ok(values) => call_value(oracle, second, callee, values, paren, fuel),
                Err(fault) => (second, Err(fault)),
            }
        },
        Err(fault) => (first, Err(fault)),
    }
}

/// How many arguments a value takes when called, if it can be called.
pub open spec fn arity_of(memory: Memory, callee: Datum) -> Option<nat> {
    match callee {
        Datum::Function(function) => if function < memory.functions.len() {
            Some(memory.functions[function as int].declaration.parameters@.len())
        } else {
            None
        },
        Datum::NativeFunction(native) => if native < memory.natives.len() {
            Some(memory.natives[native as int].arity as nat)
        } else {
            None
        },
        Datum::Class(class) => if class < memory.classes.len() {
            Some(class_arity(memory, class))
        } else {
            None
        },
        _ => None,
    }
}

/// What calling a value with arguments does. Only functions, host functions
/// and classes can be called, and only with as many arguments as they take:
/// otherwise the call is a runtime error and nothing else happens.
pub open spec fn call_value(
    oracle: Oracle,
    m: Machine,
    callee: Datum,
    arguments: Seq<Datum>,
    paren: Token,
    fuel: nat,
) -> Evaluated
    decreases fuel, 4nat, 0nat,
{
    match arity_of(m.memory, callee) {
        None => failed(
            m,
            paren@.position,
            quoted(
                "Can only call functions and classes, not '"@,
                m.memory.kind_name(callee),
                "'"@,
            ),
        ),
        Some(arity) => if arity != arguments.len() {
            failed(m, paren@.position, arity_message(arity, arguments.len()))
        } else {
            match callee {
                Datum::Function(function) => call_function(oracle, m, function, arguments, fuel),
                Datum::NativeFunction(native) => native_call(
                    oracle,
                    m,
                    m.memory.natives[native as int].function,
                    arguments,
                ),
                Datum::Class(class) => construct(oracle, m, class, arguments, fuel),
                _ => failed(
                    m,
                    paren@.position,
                    quoted(
                        "Can only call functions and classes, not '"@,
                        m.memory.kind_name(callee),
                        "'"@,
                    ),
                ),
            }
        },
    }
}

/// What an initializer gives whatever its body returned: the instance that
/// its closure binds to `self`.
pub open spec fn initialized(m: Machine, function: Closure) -> Evaluated {
    (m, m.memory.read(function.closure, self_at(function.declaration.name@.position)))
}

/// What a call of a function does: a new frame that its closure encloses
/// binds the parameters, and the statements of the body run in that frame. A
/// `return` ends the call with its value; a body that runs to its end gives
/// the value of its last statement. An initializer gives its instance in
/// both cases. When the call ends its frames are given back, unless a
/// function was made in the meantime.
pub open spec fn call_closure(
    oracle: Oracle,
    m: Machine,
    callee: Closure,
    arguments: Seq<Datum>,
    fuel: nat,
) -> Evaluated
    decreases fuel, 3nat, 0nat,
{
    match callee.declaration.body {
        Stmt::Block(statements) => {
            let frame = m.memory.frames.len() as usize;
            let memory = parameters_bound(
                m.memory.frame_added(Some(callee.closure)),
                frame,
                callee.declaration.parameters@,
                arguments,
                0,
            );
            let (after, value) = execute_block(
                oracle,
                m.with_memory(memory),
                statements@,
                frame,
                fuel,
            );
            let (ended, result) = match value {
                Err(Interruption::Error(fault)) => (after, Err(fault)),
                Err(Interruption::Control(Signal::Return(value))) => if callee.initializer {
                    initialized(after, callee)
                } else {
                    (after, Ok(value))
                },
                Err(Interruption::Control(_)) => failed(
                    after,
                    callee.declaration.name@.position,
                    stray_signal(),
                ),
                Ok(value) => if callee.initializer {
                    initialized(after, callee)
                } else {
                    (after, Ok(value))
                },
            };
            (ended.released(m), result)
        },
        _ => failed(
            m,
            callee.declaration.name@.position,
            "Expected block statement in function body"@,
        ),
    }
}

/// What a call of a function of the heap does; a function that the heap does
/// not hold cannot be called.
pub open spec fn call_function(
    oracle: Oracle,
    m: Machine,
    function: usize,
    arguments: Seq<Datum>,
    fuel: nat,
) -> Evaluated
    decreases fuel, 3nat, 1nat,
{
    if function < m.memory.functions.len() {
        call_closure(oracle, m, m.memory.functions[function as int], arguments, fuel)
    } else {
        failed(m, builtin_place(), missing_function())
    }
}

/// What a call of a class does: a new instance is made; where the class has
/// an `init` of its own, that is bound to the instance and called with the
/// arguments; the call gives the instance. A class that the heap does not
/// hold cannot be called.
pub open spec fn construct(
    oracle: Oracle,
    m: Machine,
    class: usize,
    arguments: Seq<Datum>,
    fuel: nat,
) -> Evaluated
    decreases fuel, 3nat, 2nat,
{
    if class < m.memory.classes.len() {
        let instance = m.memory.instances.len() as usize;
        let made = m.memory.instance_added(class);
        if m.memory.classes[class as int].methods.contains_key("init"@) {
            let (memory, bound) = made.method_bound(
                m.memory.classes[class as int].methods["init"@],
                instance,
            );
            let (after, value) = call_function(oracle, m.with_memory(memory), bound, arguments, fuel);
            match value {
                Ok(_) => (after, Ok(Datum::Instance(instance))),
                Err(fault) => (after, Err(fault)),
            }
        } else {
            (m.with_memory(made), Ok(Datum::Instance(instance)))
        }
    } else {
        failed(m, builtin_place(), missing_class())
    }
}

/// What a call of a host function does, when it is called by itself: with
/// another number of arguments than it takes, the call is a runtime error at
/// the place of its name.
pub open spec fn native_called(oracle: Oracle, m: Machine, native: crate::function::Native, arguments: Seq<Datum>) -> Evaluated {
    if arguments.len() != native.arity {
        failed(
            m,
            native.name.position,
            arity_message(native.arity as nat, arguments.len()) + "."@,
        )
    } else {
        native_call(oracle, m, native.function, arguments)
    }
}

/// What running statements in a given frame does: evaluation stands in that
/// frame while they run and returns to the frame it stood in before,
/// however they end.
pub open spec fn execute_block(
    oracle: Oracle,
    m: Machine,
    statements: Seq<Stmt>,
    frame: usize,
    fuel: nat,
) -> Executed
    decreases fuel, 2nat, 0nat,
{
    let (after, value) = execute_from(
        oracle,
        Machine { environment: frame, ..m },
        statements,
        0,
        Datum::Nil,
        fuel,
    );
    (Machine { environment: m.environment, ..after }, value)
}

/// What running the statements from position `i` on does, one after the
/// other: the first interruption ends it, and the value is that of the last
/// statement, or `last` where none is left.
pub open spec fn execute_from(
    oracle: Oracle,
    m: Machine,
    statements: Seq<Stmt>,
    i: int,
    last: Datum,
    fuel: nat,
) -> Executed
    decreases fuel, 1nat, statements.len() - i,
{
    if 0 <= i < statements.len() {
        let (after, value) = execute(oracle, m, statements[i], fuel);
        match value {
            Ok(value) => execute_from(oracle, after, statements, i + 1, value, fuel),
            Err(interruption) => (after, Err(interruption)),
        }
    } else {
        (m, Ok(last))
    }
}

/// What a loop does: as long as the condition is true the body runs.
/// `break` ends the loop, `continue` goes on with the condition; a `return`
/// or an error ends the loop and leaves it as it is.
pub open spec fn execute_while(oracle: Oracle, m: Machine, condition: Expr, body: Stmt, fuel: nat) -> Executed
    decreases fuel, 1nat, 0nat,
{
    if fuel == 0 {
        (m, Err(Interruption::Error(exhausted())))
    } else {
        let (first, value) = evaluate(oracle, m, condition, fuel);
        match value {
            Err(fault) => (first, Err(Interruption::Error(fault))),
            Ok(value) => if truthy(value) {
                let (second, outcome) = execute(oracle, first, body, fuel);
                match outcome {
                    Err(Interruption::Control(Signal::Break)) => (second, Ok(Datum::Nil)),
                    Err(Interruption::Control(Signal::Return(value))) => (
                        second,
                        Err(Interruption::Control(Signal::Return(value))),
                    ),
                    Err(Interruption::Error(fault)) => (second, Err(Interruption::Error(fault))),
                    _ => execute_while(oracle, second, condition, body, (fuel - 1) as nat),
                }
            } else {
                (first, Ok(Datum::Nil))
            },
        }
    }
}

/// An `if` evaluates its condition and executes the branch that it selects;
/// without an `else` branch a condition that is not true gives `nil`.
pub open spec fn execute_if(
    oracle: Oracle,
    m: Machine,
    condition: Expr,
    then_branch: Stmt,
    else_branch: Option<Box<Stmt>>,
    fuel: nat,
) -> Executed
    decreases fuel, 1nat, 0nat,
{
    let (after, value) = evaluate(oracle, m, condition, fuel);
    match value {
        Err(fault) => (after, Err(Interruption::Error(fault))),
        Ok(value) => if truthy(value) {
            execute(oracle, after, then_branch, fuel)
        } else {
            match else_branch {
                Some(branch) => execute(oracle, after, *branch, fuel),
                None => (after, Ok(Datum::Nil)),
            }
        },
    }
}

/// A declaration of a variable binds the name, in the frame in which
/// evaluation stands, to the value of the initializer, or to `nil`.
pub open spec fn execute_var(
    oracle: Oracle,
    m: Machine,
    name: Token,
    initializer: Option<Expr>,
    is_mutable: bool,
    fuel: nat,
) -> Executed
    decreases fuel, 1nat, 0nat,
{
    match initializer {
        Some(initializer) => {
            let (after, value) = evaluate(oracle, m, initializer, fuel);
            match value {
                Ok(value) => (
                    after.with_memory(
                        after.memory.defining(after.environment, name@, value, is_mutable),
                    ),
                    Ok(Datum::Nil),
                ),
                Err(fault) => (after, Err(Interruption::Error(fault))),
            }
        },
        None => (
            m.with_memory(m.memory.defining(m.environment, name@, Datum::Nil, is_mutable)),
            Ok(Datum::Nil),
        ),
    }
}

/// A `return` evaluates its value, or takes `nil`, and raises it as a signal.
pub open spec fn execute_return(oracle: Oracle, m: Machine, value: Option<Expr>, fuel: nat) -> Executed
    decreases fuel, 1nat, 0nat,
{
    match value {
        Some(value) => {
            let (after, value) = evaluate(oracle, m, value, fuel);
            match value {
                Ok(value) => (after, Err(Interruption::Control(Signal::Return(value)))),
                Err(fault) => (after, Err(Interruption::Error(fault))),
            }
        },
        None => (m, Err(Interruption::Control(Signal::Return(Datum::Nil)))),
    }
}

/// The state after a class was made and bound to its name. The name is bound
/// first, mutably and to `nil`; the methods close over the frame in which
/// evaluation stands, or, where there is a superclass, over a new frame
/// inside it that binds `super`; at last the name takes the class.
pub open spec fn class_made(m: Machine, name: Token, superclass: Option<usize>, methods: Seq<Stmt>) -> Executed {
    let declared = m.memory.defining(m.environment, name@, Datum::Nil, true);
    let frame = declared.frames.len() as usize;
    let (prepared, env) = match superclass {
        Some(parent) => (
            declared.frame_added(Some(m.environment)).defining(
                frame,
                super_token(),
                Datum::Class(parent),
                false,
            ),
            frame,
        ),
        None => (declared, m.environment),
    };
    let (made, table) = methods_made(prepared, methods, 0, env, Map::empty());
    let class = made.classes.len() as usize;
    let (memory, done) = made.class_added(
        Blueprint { name: name.lexeme@, superclass, methods: table },
    ).write(m.environment, name@, Datum::Class(class));
    match done {
        Ok(_) => (m.with_memory(memory), Ok(Datum::Class(class))),
        Err(fault) => (m.with_memory(memory), Err(Interruption::Error(fault))),
    }
}

/// A class declaration evaluates its superclass, which must be a class, then
/// makes the class.
pub open spec fn execute_class(
    oracle: Oracle,
    m: Machine,
    name: Token,
    superclass: Option<Expr>,
    methods: Seq<Stmt>,
    fuel: nat,
) -> Executed
    decreases fuel, 1nat, 0nat,
{
    match superclass {
        Some(superclass) => {
            let (after, value) = evaluate(oracle, m, superclass, fuel);
            match value {
                Ok(Datum::Class(parent)) => class_made(after, name, Some(parent), methods),
                Ok(other) => interrupted(
                    after,
                    name@.position,
                    quoted(
                        "Superclass must be a class, not '"@,
                        after.memory.kind_name(other),
                        "'"@,
                    ),
                ),
                Err(fault) => (after, Err(Interruption::Error(fault))),
            }
        },
        None => class_made(m, name, None, methods),
    }
}

/// The state after a function was declared: a new function that closes over
/// the frame in which evaluation stands, bound immutably to its name there.
pub open spec fn function_declared(m: Machine, declaration: Declaration) -> Machine {
    m.with_memory(
        m.memory.function_added(
            Closure { declaration, closure: m.environment, initializer: false },
        ).defining(
            m.environment,
            declaration.name@,
            Datum::Function(m.memory.functions.len() as usize),
            false,
        ),
    )
}

/// What executing a statement gives, under the same bound as `evaluate`.
pub open spec fn execute(oracle: Oracle, m: Machine, stmt: Stmt, fuel: nat) -> Executed
    decreases fuel, 0nat, 0nat,
{
    if fuel == 0 {
        (m, Err(Interruption::Error(exhausted())))
    } else {
        let fuel = (fuel - 1) as nat;
        match stmt {
            Stmt::Block(statements) => {
                let (after, value) = execute_block(
                    oracle,
                    m.with_memory(m.memory.frame_added(Some(m.environment))),
                    statements@,
                    m.memory.frames.len() as usize,
                    fuel,
                );
                (after.released(m), value)
            },
            Stmt::Class(name, superclass, methods) => execute_class(
                oracle,
                m,
                name,
                superclass,
                methods@,
                fuel,
            ),
            Stmt::Expression(expr) => lifted(evaluate(oracle, m, expr, fuel)),
            Stmt::Function(declaration) => (function_declared(m, *declaration), Ok(Datum::Nil)),
            Stmt::If(condition, then_branch, else_branch) => execute_if(
                oracle,
                m,
                condition,
                *then_branch,
                else_branch,
                fuel,
            ),
            Stmt::Var(name, initializer) => execute_var(oracle, m, name, initializer, false, fuel),
            Stmt::VarMut(name, initializer) => execute_var(oracle, m, name, initializer, true, fuel),
            Stmt::While(condition, body) => execute_while(oracle, m, condition, *body, fuel),
            Stmt::Return(_, value) => execute_return(oracle, m, value, fuel),
            Stmt::Break => (m, Err(Interruption::Control(Signal::Break))),
            Stmt::Continue => (m, Err(Interruption::Control(Signal::Continue))),
        }
    }
}

/// What running a program does: its statements from position `i` on run one
/// after the other, and the first runtime error ends the run. A signal that
/// reaches the top level is a runtime error too.
pub open spec fn interpret_from(oracle: Oracle, m: Machine, statements: Seq<Stmt>, i: int, fuel: nat) -> (
    Machine,
    Result<(), Fault>,
)
    decreases statements.len() - i,
{
    if 0 <= i < statements.len() {
        let (after, value) = execute(oracle, m, statements[i], fuel);
        match value {
            Ok(_) => interpret_from(oracle, after, statements, i + 1, fuel),
            Err(Interruption::Error(fault)) => (after, Err(fault)),
            Err(Interruption::Control(_)) => (
                after,
                Err(Fault::Runtime(builtin_place(), stray_signal())),
            ),
        }
    } else {
        (m, Ok(()))
    }
}

} // verus!
