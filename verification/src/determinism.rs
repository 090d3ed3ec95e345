use vstd::prelude::*;
use crate::ast::{Expr, Stmt};
use crate::discipline::{evaluation_returns_to_its_frame, execution_returns_to_its_frame};
use crate::environment::{truthy, Datum};
use crate::function::Builtin;
use crate::host::Oracle;
use crate::semantics::{
    argument, binary, call_function, call_value, evaluate, evaluate_assign, evaluate_binary,
    evaluate_call, evaluate_from, evaluate_get, evaluate_logical, evaluate_set, evaluate_unary,
    execute, execute_block, execute_class, execute_from, execute_if, execute_return, execute_var,
    execute_while, interpret_from, native_call, parameters_bound, rendered, Machine,
};
use crate::token::Token;

verus! {

/// Whether two hosts give the same answers from the question of a number on.
pub open spec fn answer_alike(one: Oracle, other: Oracle, from: nat) -> bool {
    forall|i: int, request: crate::host::Request|
        from <= i ==> #[trigger] one(i, request) == other(i, request)
}

proof fn binary_alike(one: Oracle, other: Oracle, m: Machine, op: Token, left: Datum, right: Datum)
    requires
        answer_alike(one, other, m.asked.len()),
    ensures
        binary(one, m, op, left, right) == binary(other, m, op, left, right),
{
}

proof fn rendered_alike(one: Oracle, other: Oracle, m: Machine, value: Datum)
    requires
        answer_alike(one, other, m.asked.len()),
    ensures
        rendered(one, m, value) == rendered(other, m, value),
        rendered(one, m, value).0.asked.len() >= m.asked.len(),
{
}

proof fn native_alike(one: Oracle, other: Oracle, m: Machine, function: Builtin, arguments: Seq<Datum>)
    requires
        answer_alike(one, other, m.asked.len()),
    ensures
        native_call(one, m, function, arguments) == native_call(other, m, function, arguments),
{
    rendered_alike(one, other, m, argument(arguments, 0));
}

/// What evaluating an expression gives is determined by the state it
/// begins in and by the answers that the host gives from then on.
pub proof fn evaluation_is_determined(one: Oracle, other: Oracle, m: Machine, expr: Expr, fuel: nat)
    requires
        answer_alike(one, other, m.asked.len()),
    ensures
        evaluate(one, m, expr, fuel) == evaluate(other, m, expr, fuel),
    decreases fuel, 0nat, 0nat,
{
    if fuel > 0 {
        let fuel = (fuel - 1) as nat;
        match expr {
            Expr::Literal(_) => {},
            Expr::Grouping(inner) => {
                evaluation_is_determined(one, other, m, *inner, fuel);
            },
            Expr::Variable(_) => {},
            Expr::Self_(_) => {},
            Expr::Unary(op, right) => {
                unary_alike(one, other, m, op, *right, fuel);
            },
            Expr::Binary(left, op, right) => {
                binary_expression_alike(one, other, m, *left, op, *right, fuel);
            },
            Expr::Logical(left, op, right) => {
                logical_alike(one, other, m, *left, op, *right, fuel);
            },
            Expr::Assign(name, value) => {
                assign_alike(one, other, m, name, *value, fuel);
            },
            Expr::Call(callee, paren, arguments) => {
                call_expression_alike(one, other, m, *callee, paren, arguments@, fuel);
            },
            Expr::Get(object, name) => {
                get_alike(one, other, m, *object, name, fuel);
            },
            Expr::SetProperty(object, name, value) => {
                set_alike(one, other, m, *object, name, *value, fuel);
            },
            Expr::Super(_, _) => {},
        }
    }
}

proof fn unary_alike(one: Oracle, other: Oracle, m: Machine, op: Token, right: Expr, fuel: nat)
    requires
        answer_alike(one, other, m.asked.len()),
    ensures
        evaluate_unary(one, m, op, right, fuel) == evaluate_unary(other, m, op, right, fuel),
    decreases fuel, 1nat, 0nat,
{
    evaluation_is_determined(one, other, m, right, fuel);
}

proof fn binary_expression_alike(
    one: Oracle,
    other: Oracle,
    m: Machine,
    left: Expr,
    op: Token,
    right: Expr,
    fuel: nat,
)
    requires
        answer_alike(one, other, m.asked.len()),
    ensures
        evaluate_binary(one, m, left, op, right, fuel) == evaluate_binary(
            other,
            m,
            left,
            op,
            right,
            fuel,
        ),
    decreases fuel, 1nat, 0nat,
{
    evaluation_is_determined(one, other, m, left, fuel);
    evaluation_returns_to_its_frame(one, m, left, fuel);
    let (first, a) = evaluate(one, m, left, fuel);
    if a.is_ok() {
        evaluation_is_determined(one, other, first, right, fuel);
        evaluation_returns_to_its_frame(one, first, right, fuel);
        let (second, b) = evaluate(one, first, right, fuel);
        if b.is_ok() {
            binary_alike(one, other, second, op, a->Ok_0, b->Ok_0);
        }
    }
}

proof fn logical_alike(one: Oracle, other: Oracle, m: Machine, left: Expr, op: Token, right: Expr, fuel: nat)
    requires
        answer_alike(one, other, m.asked.len()),
    ensures
        evaluate_logical(one, m, left, op, right, fuel) == evaluate_logical(
            other,
            m,
            left,
            op,
            right,
            fuel,
        ),
    decreases fuel, 1nat, 0nat,
{
    evaluation_is_determined(one, other, m, left, fuel);
    evaluation_returns_to_its_frame(one, m, left, fuel);
    let (first, a) = evaluate(one, m, left, fuel);
    if a.is_ok() {
        evaluation_is_determined(one, other, first, right, fuel);
    }
}

proof fn assign_alike(one: Oracle, other: Oracle, m: Machine, name: Token, value: Expr, fuel: nat)
    requires
        answer_alike(one, other, m.asked.len()),
    ensures
        evaluate_assign(one, m, name, value, fuel) == evaluate_assign(other, m, name, value, fuel),
    decreases fuel, 1nat, 0nat,
{
    evaluation_is_determined(one, other, m, value, fuel);
}

proof fn get_alike(one: Oracle, other: Oracle, m: Machine, object: Expr, name: Token, fuel: nat)
    requires
        answer_alike(one, other, m.asked.len()),
    ensures
        evaluate_get(one, m, object, name, fuel) == evaluate_get(other, m, object, name, fuel),
    decreases fuel, 1nat, 0nat,
{
    evaluation_is_determined(one, other, m, object, fuel);
}

proof fn set_alike(
    one: Oracle,
    other: Oracle,
    m: Machine,
    object: Expr,
    name: Token,
    value: Expr,
    fuel: nat,
)
    requires
        answer_alike(one, other, m.asked.len()),
    ensures
        evaluate_set(one, m, object, name, value, fuel) == evaluate_set(
            other,
            m,
            object,
            name,
            value,
            fuel,
        ),
    decreases fuel, 1nat, 0nat,
{
    evaluation_is_determined(one, other, m, object, fuel);
    evaluation_returns_to_its_frame(one, m, object, fuel);
    let (first, a) = evaluate(one, m, object, fuel);
    evaluation_is_determined(one, other, first, value, fuel);
}

proof fn arguments_alike(
    one: Oracle,
    other: Oracle,
    m: Machine,
    exprs: Seq<Expr>,
    i: int,
    values: Seq<Datum>,
    fuel: nat,
)
    requires
        answer_alike(one, other, m.asked.len()),
    ensures
        evaluate_from(one, m, exprs, i, values, fuel) == evaluate_from(
            other,
            m,
            exprs,
            i,
            values,
            fuel,
        ),
        evaluate_from(one, m, exprs, i, values, fuel).0.asked.len() >= m.asked.len(),
    decreases fuel, 1nat, exprs.len() - i,
{
    if 0 <= i < exprs.len() {
        evaluation_is_determined(one, other, m, exprs[i], fuel);
        evaluation_returns_to_its_frame(one, m, exprs[i], fuel);
        let (after, value) = evaluate(one, m, exprs[i], fuel);
        if value.is_ok() {
            arguments_alike(one, other, after, exprs, i + 1, values.push(value->Ok_0), fuel);
        }
    }
}

proof fn call_expression_alike(
    one: Oracle,
    other: Oracle,
    m: Machine,
    callee: Expr,
    paren: Token,
    arguments: Seq<Expr>,
    fuel: nat,
)
    requires
        answer_alike(one, other, m.asked.len()),
    ensures
        evaluate_call(one, m, callee, paren, arguments, fuel) == evaluate_call(
            other,
            m,
            callee,
            paren,
            arguments,
            fuel,
        ),
    decreases fuel, 5nat, 0nat,
{
    evaluation_is_determined(one, other, m, callee, fuel);
    evaluation_returns_to_its_frame(one, m, callee, fuel);
    let (first, a) = evaluate(one, m, callee, fuel);
    if a.is_ok() {
        arguments_alike(one, other, first, arguments, 0, Seq::empty(), fuel);
        let (second, values) = evaluate_from(one, first, arguments, 0, Seq::empty(), fuel);
        if values.is_ok() {
            call_is_determined(one, other, second, a->Ok_0, values->Ok_0, paren, fuel);
        }
    }
}

/// What a call gives is determined by the state in which it is made, the
/// callee, the arguments and the answers that the host gives from then on:
/// the same call from the same state, with a host that answers the same,
/// has the same outcome.
pub proof fn call_is_determined(
    one: Oracle,
    other: Oracle,
    m: Machine,
    callee: Datum,
    arguments: Seq<Datum>,
    paren: Token,
    fuel: nat,
)
    requires
        answer_alike(one, other, m.asked.len()),
    ensures
        call_value(one, m, callee, arguments, paren, fuel) == call_value(
            other,
            m,
            callee,
            arguments,
            paren,
            fuel,
        ),
    decreases fuel, 4nat, 0nat,
{
    match callee {
        Datum::Function(function) => {
            function_alike(one, other, m, function, arguments, fuel);
        },
        Datum::NativeFunction(native) => {
            if native < m.memory.natives.len() {
                native_alike(one, other, m, m.memory.natives[native as int].function, arguments);
            }
        },
        Datum::Class(class) => {
            if class < m.memory.classes.len() && m.memory.classes[class as int].methods.contains_key(
                "init"@,
            ) {
                let instance = m.memory.instances.len() as usize;
                let made = m.memory.instance_added(class);
                let (memory, bound) = made.method_bound(
                    m.memory.classes[class as int].methods["init"@],
                    instance,
                );
                function_alike(one, other, m.with_memory(memory), bound, arguments, fuel);
            }
        },
        _ => {},
    }
}

/// What a call of a function gives is determined by the state in which it
/// is made, the function, the arguments and the answers that the host gives
/// from then on.
pub proof fn function_alike(
    one: Oracle,
    other: Oracle,
    m: Machine,
    function: usize,
    arguments: Seq<Datum>,
    fuel: nat,
)
    requires
        answer_alike(one, other, m.asked.len()),
    ensures
        call_function(one, m, function, arguments, fuel) == call_function(
            other,
            m,
            function,
            arguments,
            fuel,
        ),
    decreases fuel, 3nat, 0nat,
{
    if function < m.memory.functions.len() {
        let callee = m.memory.functions[function as int];
        match callee.declaration.body {
            Stmt::Block(statements) => {
                let frame = m.memory.frames.len() as usize;
                let memory = parameters_bound(
                    m.memory.frame_added(Some(callee.closure)),
                    frame,
                    callee.declaration.parameters@,
                    arguments,
                    0,
                );
                block_alike(one, other, m.with_memory(memory), statements@, frame, fuel);
            },
            _ => {},
        }
    }
}

proof fn block_alike(
    one: Oracle,
    other: Oracle,
    m: Machine,
    statements: Seq<Stmt>,
    frame: usize,
    fuel: nat,
)
    requires
        answer_alike(one, other, m.asked.len()),
    ensures
        execute_block(one, m, statements, frame, fuel) == execute_block(
            other,
            m,
            statements,
            frame,
            fuel,
        ),
    decreases fuel, 2nat, 0nat,
{
    statements_alike(
        one,
        other,
        Machine { environment: frame, ..m },
        statements,
        0,
        Datum::Nil,
        fuel,
    );
}

proof fn statements_alike(
    one: Oracle,
    other: Oracle,
    m: Machine,
    statements: Seq<Stmt>,
    i: int,
    last: Datum,
    fuel: nat,
)
    requires
        answer_alike(one, other, m.asked.len()),
    ensures
        execute_from(one, m, statements, i, last, fuel) == execute_from(
            other,
            m,
            statements,
            i,
            last,
            fuel,
        ),
    decreases fuel, 1nat, statements.len() - i,
{
    if 0 <= i < statements.len() {
        execution_is_determined(one, other, m, statements[i], fuel);
        execution_returns_to_its_frame(one, m, statements[i], fuel);
        let (after, value) = execute(one, m, statements[i], fuel);
        if value.is_ok() {
            statements_alike(one, other, after, statements, i + 1, value->Ok_0, fuel);
        }
    }
}

proof fn while_alike(one: Oracle, other: Oracle, m: Machine, condition: Expr, body: Stmt, fuel: nat)
    requires
        answer_alike(one, other, m.asked.len()),
    ensures
        execute_while(one, m, condition, body, fuel) == execute_while(
            other,
            m,
            condition,
            body,
            fuel,
        ),
    decreases fuel, 1nat, 0nat,
{
    if fuel > 0 {
        evaluation_is_determined(one, other, m, condition, fuel);
        evaluation_returns_to_its_frame(one, m, condition, fuel);
        let (first, value) = evaluate(one, m, condition, fuel);
        if value.is_ok() && truthy(value->Ok_0) {
            execution_is_determined(one, other, first, body, fuel);
            execution_returns_to_its_frame(one, first, body, fuel);
            let (second, outcome) = execute(one, first, body, fuel);
            while_alike(one, other, second, condition, body, (fuel - 1) as nat);
        }
    }
}

proof fn if_alike(
    one: Oracle,
    other: Oracle,
    m: Machine,
    condition: Expr,
    then_branch: Stmt,
    else_branch: Option<Box<Stmt>>,
    fuel: nat,
)
    requires
        answer_alike(one, other, m.asked.len()),
    ensures
        execute_if(one, m, condition, then_branch, else_branch, fuel) == execute_if(
            other,
            m,
            condition,
            then_branch,
            else_branch,
            fuel,
        ),
    decreases fuel, 1nat, 0nat,
{
    evaluation_is_determined(one, other, m, condition, fuel);
    evaluation_returns_to_its_frame(one, m, condition, fuel);
    let (after, value) = evaluate(one, m, condition, fuel);
    if value.is_ok() {
        execution_is_determined(one, other, after, then_branch, fuel);
        match else_branch {
            Some(branch) => {
                execution_is_determined(one, other, after, *branch, fuel);
            },
            None => {},
        }
    }
}

proof fn var_alike(
    one: Oracle,
    other: Oracle,
    m: Machine,
    name: Token,
    initializer: Option<Expr>,
    is_mutable: bool,
    fuel: nat,
)
    requires
        answer_alike(one, other, m.asked.len()),
    ensures
        execute_var(one, m, name, initializer, is_mutable, fuel) == execute_var(
            other,
            m,
            name,
            initializer,
            is_mutable,
            fuel,
        ),
    decreases fuel, 1nat, 0nat,
{
    match initializer {
        Some(initializer) => {
            evaluation_is_determined(one, other, m, initializer, fuel);
        },
        None => {},
    }
}

proof fn return_alike(one: Oracle, other: Oracle, m: Machine, value: Option<Expr>, fuel: nat)
    requires
        answer_alike(one, other, m.asked.len()),
    ensures
        execute_return(one, m, value, fuel) == execute_return(other, m, value, fuel),
    decreases fuel, 1nat, 0nat,
{
    match value {
        Some(value) => {
            evaluation_is_determined(one, other, m, value, fuel);
        },
        None => {},
    }
}

proof fn class_alike(
    one: Oracle,
    other: Oracle,
    m: Machine,
    name: Token,
    superclass: Option<Expr>,
    methods: Seq<Stmt>,
    fuel: nat,
)
    requires
        answer_alike(one, other, m.asked.len()),
    ensures
        execute_class(one, m, name, superclass, methods, fuel) == execute_class(
            other,
            m,
            name,
            superclass,
            methods,
            fuel,
        ),
    decreases fuel, 1nat, 0nat,
{
    match superclass {
        Some(superclass) => {
            evaluation_is_determined(one, other, m, superclass, fuel);
        },
        None => {},
    }
}

/// What executing a statement gives is determined by the state it begins
/// in and by the answers that the host gives from then on.
pub proof fn execution_is_determined(one: Oracle, other: Oracle, m: Machine, stmt: Stmt, fuel: nat)
    requires
        answer_alike(one, other, m.asked.len()),
    ensures
        execute(one, m, stmt, fuel) == execute(other, m, stmt, fuel),
    decreases fuel, 0nat, 0nat,
{
    if fuel > 0 {
        let fuel = (fuel - 1) as nat;
        match stmt {
            Stmt::Block(statements) => {
                block_alike(
                    one,
                    other,
                    m.with_memory(m.memory.frame_added(Some(m.environment))),
                    statements@,
                    m.memory.frames.len() as usize,
                    fuel,
                );
            },
            Stmt::Class(name, superclass, methods) => {
                class_alike(one, other, m, name, superclass, methods@, fuel);
            },
            Stmt::Expression(expr) => {
                evaluation_is_determined(one, other, m, expr, fuel);
            },
            Stmt::Function(_) => {},
            Stmt::If(condition, then_branch, else_branch) => {
                if_alike(one, other, m, condition, *then_branch, else_branch, fuel);
            },
            Stmt::Var(name, initializer) => {
                var_alike(one, other, m, name, initializer, false, fuel);
            },
            Stmt::VarMut(name, initializer) => {
                var_alike(one, other, m, name, initializer, true, fuel);
            },
            Stmt::While(condition, body) => {
                while_alike(one, other, m, condition, *body, fuel);
            },
            Stmt::Return(_, value) => {
                return_alike(one, other, m, value, fuel);
            },
            Stmt::Break => {},
            Stmt::Continue => {},
        }
    }
}

/// What a run gives is determined by the state it begins in and by the
/// answers that the host gives from then on.
pub proof fn run_is_determined(one: Oracle, other: Oracle, m: Machine, statements: Seq<Stmt>, i: int, fuel: nat)
    requires
        answer_alike(one, other, m.asked.len()),
    ensures
        interpret_from(one, m, statements, i, fuel) == interpret_from(other, m, statements, i, fuel),
    decreases statements.len() - i,
{
    if 0 <= i < statements.len() {
        execution_is_determined(one, other, m, statements[i], fuel);
        execution_returns_to_its_frame(one, m, statements[i], fuel);
        let (after, value) = execute(one, m, statements[i], fuel);
        if value.is_ok() {
            run_is_determined(one, other, after, statements, i + 1, fuel);
        }
    }
}

} // verus!
