use vstd::prelude::*;
use crate::ast::{Expr, Stmt};
use crate::environment::Datum;
use crate::function::Builtin;
use crate::host::{Oracle, Request};
use crate::semantics::{
    binary, call_function, call_value, class_made, evaluate, evaluate_assign, evaluate_binary,
    evaluate_call, evaluate_from, evaluate_get, evaluate_logical, evaluate_set, evaluate_unary,
    execute, execute_block, execute_class, execute_from, execute_if, execute_return, execute_var,
    execute_while, interpret_from, native_call, rendered, Machine,
};
use crate::token::Token;

verus! {

/// Whether a sequence of questions begins with another.
pub open spec fn goes_on(before: Seq<Request>, after: Seq<Request>) -> bool {
    before.len() <= after.len() && forall|i: int|
        0 <= i < before.len() ==> #[trigger] after[i] == before[i]
}

/// Whether a sequence begins with another.
pub open spec fn begun_by<A>(after: Seq<A>, before: Seq<A>) -> bool {
    before.len() <= after.len() && forall|i: int|
        0 <= i < before.len() ==> #[trigger] after[i] == before[i]
}

/// Whether the frames of a heap are those of another, with their enclosing
/// frames, and possibly more: bindings may differ.
pub open spec fn frames_kept(after: Seq<crate::environment::Scope>, before: Seq<crate::environment::Scope>) -> bool {
    before.len() <= after.len() && forall|i: int|
        0 <= i < before.len() ==> (#[trigger] after[i]).enclosing == before[i].enclosing
}

/// Whether the instances of a heap are those of another, each of its class,
/// and possibly more: fields may differ.
pub open spec fn instances_kept(after: Seq<crate::instance::Object>, before: Seq<crate::instance::Object>) -> bool {
    before.len() <= after.len() && forall|i: int|
        0 <= i < before.len() ==> (#[trigger] after[i]).class == before[i].class
}

/// That a state came of another by evaluation: evaluation stands in the
/// frame it stood in; the globals and the distance table are the same; the
/// questions to the host went on; nothing that the heap held has left it;
/// no function, host function or class changed; and no frame changed its
/// enclosing frame, nor an instance its class.
pub open spec fn came_of(after: Machine, before: Machine) -> bool {
    &&& after.environment == before.environment
    &&& after.globals == before.globals
    &&& after.locals == before.locals
    &&& goes_on(before.asked, after.asked)
    &&& frames_kept(after.memory.frames, before.memory.frames)
    &&& begun_by(after.memory.functions, before.memory.functions)
    &&& begun_by(after.memory.natives, before.memory.natives)
    &&& begun_by(after.memory.classes, before.memory.classes)
    &&& instances_kept(after.memory.instances, before.memory.instances)
}

proof fn binary_keeps(oracle: Oracle, m: Machine, op: Token, left: Datum, right: Datum)
    ensures
        came_of(binary(oracle, m, op, left, right).0, m),
{
}

proof fn rendered_keeps(oracle: Oracle, m: Machine, value: Datum)
    ensures
        came_of(rendered(oracle, m, value).0, m),
{
}

proof fn native_keeps(oracle: Oracle, m: Machine, function: Builtin, arguments: Seq<Datum>)
    ensures
        came_of(native_call(oracle, m, function, arguments).0, m),
{
    let first = crate::semantics::argument(arguments, 0);
    rendered_keeps(oracle, m, first);
}

proof fn parameters_keep(
    memory: crate::heap::Memory,
    frame: usize,
    parameters: Seq<Token>,
    arguments: Seq<Datum>,
    i: int,
)
    ensures
        ({
            let bound = crate::semantics::parameters_bound(memory, frame, parameters, arguments, i);
            &&& bound.frames.len() == memory.frames.len()
            &&& frames_kept(bound.frames, memory.frames)
            &&& bound.functions == memory.functions
            &&& bound.natives == memory.natives
            &&& bound.classes == memory.classes
            &&& bound.instances == memory.instances
        }),
    decreases parameters.len() - i,
{
    if 0 <= i < parameters.len() && i < arguments.len() {
        parameters_keep(
            memory.defining(frame, parameters[i]@, arguments[i], false),
            frame,
            parameters,
            arguments,
            i + 1,
        );
    }
}

/// The heap and the method table after the method at position `i` was made.
spec fn method_made(
    memory: crate::heap::Memory,
    methods: Seq<Stmt>,
    i: int,
    env: usize,
    table: Map<Seq<char>, usize>,
) -> (crate::heap::Memory, Map<Seq<char>, usize>) {
    match methods[i] {
        Stmt::Function(declaration) => (
            memory.function_added(
                crate::function::Closure {
                    declaration: *declaration,
                    closure: env,
                    initializer: declaration.name.lexeme@ == "init"@,
                },
            ),
            table.insert(declaration.name.lexeme@, memory.functions.len() as usize),
        ),
        _ => (memory, table),
    }
}

proof fn methods_keep(
    memory: crate::heap::Memory,
    methods: Seq<Stmt>,
    i: int,
    env: usize,
    table: Map<Seq<char>, usize>,
)
    ensures
        ({
            let made = crate::semantics::methods_made(memory, methods, i, env, table).0;
            &&& made.frames == memory.frames
            &&& begun_by(made.functions, memory.functions)
            &&& made.natives == memory.natives
            &&& made.classes == memory.classes
            &&& made.instances == memory.instances
        }),
    decreases methods.len() - i,
{
    if 0 <= i < methods.len() {
        let next = method_made(memory, methods, i, env, table);
        assert(crate::semantics::methods_made(memory, methods, i, env, table)
            == crate::semantics::methods_made(next.0, methods, i + 1, env, next.1));
        methods_keep(next.0, methods, i + 1, env, next.1);
    }
}

proof fn class_keeps(m: Machine, name: Token, superclass: Option<usize>, methods: Seq<Stmt>)
    ensures
        came_of(class_made(m, name, superclass, methods).0, m),
{
    let declared = m.memory.defining(m.environment, name@, Datum::Nil, true);
    let frame = declared.frames.len() as usize;
    let (prepared, env) = match superclass {
        Some(parent) => (
            declared.frame_added(Some(m.environment)).defining(
                frame,
                crate::semantics::super_token(),
                Datum::Class(parent),
                false,
            ),
            frame,
        ),
        None => (declared, m.environment),
    };
    methods_keep(prepared, methods, 0, env, Map::empty());
}

/// Evaluating an expression returns to the frame in which it began, leaves
/// the globals and the distance table as they were, and removes nothing
/// that the heap held before, however it ends.
pub proof fn evaluation_returns_to_its_frame(oracle: Oracle, m: Machine, expr: Expr, fuel: nat)
    ensures
        came_of(evaluate(oracle, m, expr, fuel).0, m),
    decreases fuel, 0nat, 0nat,
{
    if fuel > 0 {
        let fuel = (fuel - 1) as nat;
        match expr {
            Expr::Literal(_) => {},
            Expr::Grouping(inner) => {
                evaluation_returns_to_its_frame(oracle, m, *inner, fuel);
            },
            Expr::Variable(_) => {},
            Expr::Self_(_) => {},
            Expr::Unary(op, right) => {
                unary_keeps(oracle, m, op, *right, fuel);
            },
            Expr::Binary(left, op, right) => {
                binary_expression_keeps(oracle, m, *left, op, *right, fuel);
            },
            Expr::Logical(left, op, right) => {
                logical_keeps(oracle, m, *left, op, *right, fuel);
            },
            Expr::Assign(name, value) => {
                assign_keeps(oracle, m, name, *value, fuel);
            },
            Expr::Call(callee, paren, arguments) => {
                call_expression_keeps(oracle, m, *callee, paren, arguments@, fuel);
            },
            Expr::Get(object, name) => {
                get_keeps(oracle, m, *object, name, fuel);
            },
            Expr::SetProperty(object, name, value) => {
                set_keeps(oracle, m, *object, name, *value, fuel);
            },
            Expr::Super(_, _) => {},
        }
    }
}

proof fn unary_keeps(oracle: Oracle, m: Machine, op: Token, right: Expr, fuel: nat)
    ensures
        came_of(evaluate_unary(oracle, m, op, right, fuel).0, m),
    decreases fuel, 1nat, 0nat,
{
    evaluation_returns_to_its_frame(oracle, m, right, fuel);
}

proof fn binary_expression_keeps(oracle: Oracle, m: Machine, left: Expr, op: Token, right: Expr, fuel: nat)
    ensures
        came_of(evaluate_binary(oracle, m, left, op, right, fuel).0, m),
    decreases fuel, 1nat, 0nat,
{
    evaluation_returns_to_its_frame(oracle, m, left, fuel);
    let (first, one) = evaluate(oracle, m, left, fuel);
    if one.is_ok() {
        evaluation_returns_to_its_frame(oracle, first, right, fuel);
        let (second, two) = evaluate(oracle, first, right, fuel);
        if two.is_ok() {
            binary_keeps(oracle, second, op, one->Ok_0, two->Ok_0);
        }
    }
}

proof fn logical_keeps(oracle: Oracle, m: Machine, left: Expr, op: Token, right: Expr, fuel: nat)
    ensures
        came_of(evaluate_logical(oracle, m, left, op, right, fuel).0, m),
    decreases fuel, 1nat, 0nat,
{
    evaluation_returns_to_its_frame(oracle, m, left, fuel);
    let (first, one) = evaluate(oracle, m, left, fuel);
    if one.is_ok() {
        evaluation_returns_to_its_frame(oracle, first, right, fuel);
    }
}

proof fn assign_keeps(oracle: Oracle, m: Machine, name: Token, value: Expr, fuel: nat)
    ensures
        came_of(evaluate_assign(oracle, m, name, value, fuel).0, m),
    decreases fuel, 1nat, 0nat,
{
    evaluation_returns_to_its_frame(oracle, m, value, fuel);
}

proof fn get_keeps(oracle: Oracle, m: Machine, object: Expr, name: Token, fuel: nat)
    ensures
        came_of(evaluate_get(oracle, m, object, name, fuel).0, m),
    decreases fuel, 1nat, 0nat,
{
    evaluation_returns_to_its_frame(oracle, m, object, fuel);
}

proof fn set_keeps(oracle: Oracle, m: Machine, object: Expr, name: Token, value: Expr, fuel: nat)
    ensures
        came_of(evaluate_set(oracle, m, object, name, value, fuel).0, m),
    decreases fuel, 1nat, 0nat,
{
    evaluation_returns_to_its_frame(oracle, m, object, fuel);
    let (first, one) = evaluate(oracle, m, object, fuel);
    evaluation_returns_to_its_frame(oracle, first, value, fuel);
}

proof fn arguments_keep(oracle: Oracle, m: Machine, exprs: Seq<Expr>, i: int, values: Seq<Datum>, fuel: nat)
    ensures
        came_of(evaluate_from(oracle, m, exprs, i, values, fuel).0, m),
    decreases fuel, 1nat, exprs.len() - i,
{
    if 0 <= i < exprs.len() {
        evaluation_returns_to_its_frame(oracle, m, exprs[i], fuel);
        let (after, value) = evaluate(oracle, m, exprs[i], fuel);
        if value.is_ok() {
            arguments_keep(oracle, after, exprs, i + 1, values.push(value->Ok_0), fuel);
        }
    }
}

proof fn call_expression_keeps(
    oracle: Oracle,
    m: Machine,
    callee: Expr,
    paren: Token,
    arguments: Seq<Expr>,
    fuel: nat,
)
    ensures
        came_of(evaluate_call(oracle, m, callee, paren, arguments, fuel).0, m),
    decreases fuel, 5nat, 0nat,
{
    evaluation_returns_to_its_frame(oracle, m, callee, fuel);
    let (first, one) = evaluate(oracle, m, callee, fuel);
    if one.is_ok() {
        arguments_keep(oracle, first, arguments, 0, Seq::empty(), fuel);
        let (second, values) = evaluate_from(oracle, first, arguments, 0, Seq::empty(), fuel);
        if values.is_ok() {
            call_returns_to_its_frame(oracle, second, one->Ok_0, values->Ok_0, paren, fuel);
        }
    }
}

/// A call returns to the frame in which it was made, however it ends.
pub proof fn call_returns_to_its_frame(
    oracle: Oracle,
    m: Machine,
    callee: Datum,
    arguments: Seq<Datum>,
    paren: Token,
    fuel: nat,
)
    ensures
        came_of(call_value(oracle, m, callee, arguments, paren, fuel).0, m),
    decreases fuel, 4nat, 0nat,
{
    match callee {
        Datum::Function(function) => {
            function_keeps(oracle, m, function, arguments, fuel);
        },
        Datum::NativeFunction(native) => {
            if native < m.memory.natives.len() {
                native_keeps(oracle, m, m.memory.natives[native as int].function, arguments);
            }
        },
        Datum::Class(class) => {
            if class < m.memory.classes.len() && m.memory.classes[class as int].methods.contains_key(
                "init"@,
            ) {
                let instance = m.memory.instances.len() as usize;
                let made = m.memory.instance_added(class);
                let (memory, bound) = made.method_bound(
                    m.memory.classes[class as int].methods["init"@],
                    instance,
                );
                function_keeps(oracle, m.with_memory(memory), bound, arguments, fuel);
            }
        },
        _ => {},
    }
}

proof fn function_keeps(oracle: Oracle, m: Machine, function: usize, arguments: Seq<Datum>, fuel: nat)
    ensures
        came_of(call_function(oracle, m, function, arguments, fuel).0, m),
    decreases fuel, 3nat, 0nat,
{
    if function < m.memory.functions.len() {
        let callee = m.memory.functions[function as int];
        match callee.declaration.body {
            Stmt::Block(statements) => {
                let frame = m.memory.frames.len() as usize;
                parameters_keep(
                    m.memory.frame_added(Some(callee.closure)),
                    frame,
                    callee.declaration.parameters@,
                    arguments,
                    0,
                );
                let memory = crate::semantics::parameters_bound(
                    m.memory.frame_added(Some(callee.closure)),
                    frame,
                    callee.declaration.parameters@,
                    arguments,
                    0,
                );
                block_keeps(oracle, m.with_memory(memory), statements@, frame, fuel);
            },
            _ => {},
        }
    }
}

/// A block returns to the frame in which it was entered, however it ends.
pub proof fn block_keeps(oracle: Oracle, m: Machine, statements: Seq<Stmt>, frame: usize, fuel: nat)
    ensures
        came_of(execute_block(oracle, m, statements, frame, fuel).0, m),
    decreases fuel, 2nat, 0nat,
{
    statements_keep(oracle, Machine { environment: frame, ..m }, statements, 0, Datum::Nil, fuel);
}

proof fn statements_keep(oracle: Oracle, m: Machine, statements: Seq<Stmt>, i: int, last: Datum, fuel: nat)
    ensures
        came_of(execute_from(oracle, m, statements, i, last, fuel).0, m),
    decreases fuel, 1nat, statements.len() - i,
{
    if 0 <= i < statements.len() {
        execution_returns_to_its_frame(oracle, m, statements[i], fuel);
        let (after, value) = execute(oracle, m, statements[i], fuel);
        if value.is_ok() {
            statements_keep(oracle, after, statements, i + 1, value->Ok_0, fuel);
        }
    }
}

proof fn while_keeps(oracle: Oracle, m: Machine, condition: Expr, body: Stmt, fuel: nat)
    ensures
        came_of(execute_while(oracle, m, condition, body, fuel).0, m),
    decreases fuel, 1nat, 0nat,
{
    if fuel > 0 {
        evaluation_returns_to_its_frame(oracle, m, condition, fuel);
        let (first, value) = evaluate(oracle, m, condition, fuel);
        if value.is_ok() && crate::environment::truthy(value->Ok_0) {
            execution_returns_to_its_frame(oracle, first, body, fuel);
            let (second, outcome) = execute(oracle, first, body, fuel);
            while_keeps(oracle, second, condition, body, (fuel - 1) as nat);
        }
    }
}

proof fn if_keeps(
    oracle: Oracle,
    m: Machine,
    condition: Expr,
    then_branch: Stmt,
    else_branch: Option<Box<Stmt>>,
    fuel: nat,
)
    ensures
        came_of(execute_if(oracle, m, condition, then_branch, else_branch, fuel).0, m),
    decreases fuel, 1nat, 0nat,
{
    evaluation_returns_to_its_frame(oracle, m, condition, fuel);
    let (after, value) = evaluate(oracle, m, condition, fuel);
    if value.is_ok() {
        execution_returns_to_its_frame(oracle, after, then_branch, fuel);
        match else_branch {
            Some(branch) => {
                execution_returns_to_its_frame(oracle, after, *branch, fuel);
            },
            None => {},
        }
    }
}

proof fn var_keeps(
    oracle: Oracle,
    m: Machine,
    name: Token,
    initializer: Option<Expr>,
    is_mutable: bool,
    fuel: nat,
)
    ensures
        came_of(execute_var(oracle, m, name, initializer, is_mutable, fuel).0, m),
    decreases fuel, 1nat, 0nat,
{
    match initializer {
        Some(initializer) => {
            evaluation_returns_to_its_frame(oracle, m, initializer, fuel);
        },
        None => {},
    }
}

proof fn return_keeps(oracle: Oracle, m: Machine, value: Option<Expr>, fuel: nat)
    ensures
        came_of(execute_return(oracle, m, value, fuel).0, m),
    decreases fuel, 1nat, 0nat,
{
    match value {
        Some(value) => {
            evaluation_returns_to_its_frame(oracle, m, value, fuel);
        },
        None => {},
    }
}

proof fn class_statement_keeps(
    oracle: Oracle,
    m: Machine,
    name: Token,
    superclass: Option<Expr>,
    methods: Seq<Stmt>,
    fuel: nat,
)
    ensures
        came_of(execute_class(oracle, m, name, superclass, methods, fuel).0, m),
    decreases fuel, 1nat, 0nat,
{
    match superclass {
        Some(superclass) => {
            evaluation_returns_to_its_frame(oracle, m, superclass, fuel);
            let (after, value) = evaluate(oracle, m, superclass, fuel);
            match value {
                Ok(Datum::Class(parent)) => {
                    class_keeps(after, name, Some(parent), methods);
                },
                _ => {},
            }
        },
        None => {
            class_keeps(m, name, None, methods);
        },
    }
}

/// Executing a statement returns to the frame in which it began, leaves the
/// globals and the distance table as they were, and removes nothing that
/// the heap held before, however it ends.
pub proof fn execution_returns_to_its_frame(oracle: Oracle, m: Machine, stmt: Stmt, fuel: nat)
    ensures
        came_of(execute(oracle, m, stmt, fuel).0, m),
    decreases fuel, 0nat, 0nat,
{
    if fuel > 0 {
        let fuel = (fuel - 1) as nat;
        match stmt {
            Stmt::Block(statements) => {
                block_keeps(
                    oracle,
                    m.with_memory(m.memory.frame_added(Some(m.environment))),
                    statements@,
                    m.memory.frames.len() as usize,
                    fuel,
                );
            },
            Stmt::Class(name, superclass, methods) => {
                class_statement_keeps(oracle, m, name, superclass, methods@, fuel);
            },
            Stmt::Expression(expr) => {
                evaluation_returns_to_its_frame(oracle, m, expr, fuel);
            },
            Stmt::Function(_) => {},
            Stmt::If(condition, then_branch, else_branch) => {
                if_keeps(oracle, m, condition, *then_branch, else_branch, fuel);
            },
            Stmt::Var(name, initializer) => {
                var_keeps(oracle, m, name, initializer, false, fuel);
            },
            Stmt::VarMut(name, initializer) => {
                var_keeps(oracle, m, name, initializer, true, fuel);
            },
            Stmt::While(condition, body) => {
                while_keeps(oracle, m, condition, *body, fuel);
            },
            Stmt::Return(_, value) => {
                return_keeps(oracle, m, value, fuel);
            },
            Stmt::Break => {},
            Stmt::Continue => {},
        }
    }
}

/// A run returns to the frame in which it began, leaves the globals and the
/// distance table as they were, and removes nothing that the heap held
/// before.
pub proof fn run_returns_to_its_frame(oracle: Oracle, m: Machine, statements: Seq<Stmt>, i: int, fuel: nat)
    ensures
        came_of(interpret_from(oracle, m, statements, i, fuel).0, m),
    decreases statements.len() - i,
{
    if 0 <= i < statements.len() {
        execution_returns_to_its_frame(oracle, m, statements[i], fuel);
        let (after, value) = execute(oracle, m, statements[i], fuel);
        if value.is_ok() {
            run_returns_to_its_frame(oracle, after, statements, i + 1, fuel);
        }
    }
}

} // verus!
