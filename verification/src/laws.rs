use vstd::prelude::*;
use crate::ast::{Expr, Stmt};
use crate::determinism::{answer_alike, function_alike};
use crate::discipline::evaluation_returns_to_its_frame;
use crate::environment::{same_value, truthy, Datum};
use crate::error::Fault;
use crate::function::FunctionType;
use crate::heap::{immutable_variable, undefined_variable, Memory};
use crate::host::Oracle;
use crate::class::ClassType;
use crate::resolver::{
    resolve_arguments, resolve_class, resolve_expr, resolve_function, resolve_methods,
    resolve_program, resolve_statements, resolve_stmt, return_from_initializer, Resolution,
};
use crate::semantics::{
    arity_message, arity_of, call_function, call_value, evaluate, evaluate_assign,
    evaluate_logical, execute, interpret_from, Interruption, Machine,
};
use crate::token::{Token, TokenType};

verus! {

/// Truthiness is defined for every value: `nil` and `false` are false, and
/// every other value is true.
pub proof fn truthiness_is_total(value: Datum)
    ensures
        truthy(value) == !(value == Datum::Nil || value == Datum::Bool(false)),
{
}

/// Equality of values is symmetric, and every value equals itself but a
/// number that is not-a-number.
pub proof fn equality_of_values(a: Datum, b: Datum)
    ensures
        same_value(a, b) == same_value(b, a),
        same_value(a, a) == !(a matches Datum::Number(bits) && crate::number::not_a_number(bits)),
{
}

/// A name that the resolver found reads from exactly the frame that many
/// enclosing links away from the frame in which evaluation stands: the value
/// is that of the binding there, and no other frame is asked.
pub proof fn resolved_name_reads_its_frame(oracle: Oracle, m: Machine, name: Token, fuel: nat)
    requires
        fuel > 0,
        m.locals.contains_key(name@),
    ensures
        evaluate(oracle, m, Expr::Variable(name), fuel) == (
            m,
            match m.memory.ancestor(m.environment, m.locals[name@] as nat) {
                Some(frame) => if m.memory.defined(frame, name.lexeme@) {
                    Ok::<Datum, Fault>(m.memory.frames[frame as int].values[name.lexeme@].value)
                } else {
                    Err(Fault::Runtime(name@.position, undefined_variable(name.lexeme@)))
                },
                None => Err(Fault::Runtime(name@.position, undefined_variable(name.lexeme@))),
            },
        ),
{
}

/// The frame that is no link away is the frame itself, and the frame that is
/// one link more away is that many links away from the enclosing frame.
pub proof fn distance_counts_enclosing_links(memory: Memory, env: usize, distance: nat)
    requires
        env < memory.frames.len(),
    ensures
        memory.ancestor(env, 0) == Some(env),
        memory.ancestor(env, distance + 1) == match memory.frames[env as int].enclosing {
            Some(outer) => memory.ancestor(outer, distance),
            None => None,
        },
{
    reveal_with_fuel(Memory::ancestor, 2);
}

/// An assignment to a name that the resolver found writes to exactly the
/// frame that many enclosing links away: where it succeeds, the heap after it
/// is the heap after the value was evaluated, but for the value of that
/// binding.
pub proof fn resolved_name_writes_its_frame(oracle: Oracle, m: Machine, name: Token, value: Expr, fuel: nat)
    requires
        m.locals.contains_key(name@),
        evaluate_assign(oracle, m, name, value, fuel).1.is_ok(),
    ensures
        ({
            let valued = evaluate(oracle, m, value, fuel);
            let frame = valued.0.memory.ancestor(m.environment, m.locals[name@] as nat);
            &&& valued.1.is_ok()
            &&& frame.is_some()
            &&& evaluate_assign(oracle, m, name, value, fuel).0 == valued.0.with_memory(
                valued.0.memory.revalued(frame.unwrap(), name.lexeme@, valued.1->Ok_0),
            )
        }),
{
    evaluation_returns_to_its_frame(oracle, m, value, fuel);
}

/// Equal calls have equal outcomes: a function that is called with equal
/// arguments from equal states, by hosts that answer alike from then on,
/// ends in equal states with equal results.
pub proof fn equal_calls_have_equal_outcomes(
    one: Oracle,
    other: Oracle,
    first: Machine,
    second: Machine,
    function: usize,
    arguments: Seq<Datum>,
    others: Seq<Datum>,
    fuel: nat,
)
    requires
        first == second,
        arguments == others,
        answer_alike(one, other, first.asked.len()),
    ensures
        call_function(one, first, function, arguments, fuel) == call_function(
            other,
            second,
            function,
            others,
            fuel,
        ),
{
    function_alike(one, other, first, function, arguments, fuel);
}

/// `or` evaluates its right operand if and only if its left operand is not
/// true: where the left operand is true, the outcome is the left operand and
/// the state is the one that its evaluation left; else the outcome is that
/// of the right operand, evaluated from that state.
pub proof fn or_short_circuits(oracle: Oracle, m: Machine, left: Expr, op: Token, right: Expr, fuel: nat)
    requires
        op.ty == TokenType::Or,
        evaluate(oracle, m, left, fuel).1.is_ok(),
    ensures
        ({
            let (after, value) = evaluate(oracle, m, left, fuel);
            evaluate_logical(oracle, m, left, op, right, fuel) == (if truthy(value->Ok_0) {
                (after, value)
            } else {
                evaluate(oracle, after, right, fuel)
            })
        }),
{
}

/// `and` evaluates its right operand if and only if its left operand is
/// true: where the left operand is not true, the outcome is the left operand
/// and the state is the one that its evaluation left; else the outcome is
/// that of the right operand, evaluated from that state.
pub proof fn and_short_circuits(oracle: Oracle, m: Machine, left: Expr, op: Token, right: Expr, fuel: nat)
    requires
        op.ty == TokenType::And,
        evaluate(oracle, m, left, fuel).1.is_ok(),
    ensures
        ({
            let (after, value) = evaluate(oracle, m, left, fuel);
            evaluate_logical(oracle, m, left, op, right, fuel) == (if !truthy(value->Ok_0) {
                (after, value)
            } else {
                evaluate(oracle, after, right, fuel)
            })
        }),
{
}

/// A call of a class gives the new instance or an error, whatever its
/// initializer returns: no other value comes of it.
pub proof fn class_call_gives_its_instance(
    oracle: Oracle,
    m: Machine,
    class: usize,
    arguments: Seq<Datum>,
    paren: Token,
    fuel: nat,
)
    ensures
        match call_value(oracle, m, Datum::Class(class), arguments, paren, fuel).1 {
            Ok(value) => value == Datum::Instance(m.memory.instances.len() as usize),
            Err(_) => true,
        },
{
}

/// A `return` with a value inside an initializer is rejected: resolving it
/// reports at least one more error than there was.
pub proof fn initializer_cannot_return_a_value(r: Resolution, keyword: Token, value: Expr)
    requires
        r.current_function == FunctionType::Initializer,
    ensures
        resolve_stmt(r, Stmt::Return(keyword, Some(value))).errors.len() > r.errors.len(),
        resolve_stmt(r, Stmt::Return(keyword, Some(value))).errors[r.errors.len() as int]
            == Fault::Validation(keyword@.position, return_from_initializer()),
{
    let reported = r.error(keyword, return_from_initializer());
    errors_are_kept(reported, value);
    assert(reported.errors[r.errors.len() as int] == Fault::Validation(
        keyword@.position,
        return_from_initializer(),
    ));
}

/// That a resolution came of another by resolving part of a program: every
/// error that was reported is kept, as many scopes are open, and the
/// resolver stands in the same kind of function and of class.
pub open spec fn resolved_from(after: Resolution, before: Resolution) -> bool {
    &&& begins_with(after.errors, before.errors)
    &&& after.scopes.len() == before.scopes.len()
    &&& after.current_function == before.current_function
    &&& after.current_class == before.current_class
}

/// Whether a sequence of errors begins with another.
pub open spec fn begins_with(later: Seq<Fault>, earlier: Seq<Fault>) -> bool {
    earlier.len() <= later.len() && forall|i: int|
        0 <= i < earlier.len() ==> #[trigger] later[i] == earlier[i]
}

/// Resolving an expression keeps every error that was reported before it,
/// and leaves as many scopes open as there were.
pub proof fn errors_are_kept(r: Resolution, expr: Expr)
    ensures
        resolved_from(resolve_expr(r, expr), r),
    decreases expr, 3nat, 0nat,
{
    match expr {
        Expr::Assign(name, value) => {
            errors_are_kept(r, *value);
        },
        Expr::Binary(left, _, right) => {
            errors_are_kept(r, *left);
            errors_are_kept(resolve_expr(r, *left), *right);
        },
        Expr::Call(callee, _, _) => {
            errors_are_kept(r, *callee);
            errors_are_kept_by_arguments(resolve_expr(r, *callee), expr, 0);
        },
        Expr::Get(object, _) => {
            errors_are_kept(r, *object);
        },
        Expr::Grouping(inner) => {
            errors_are_kept(r, *inner);
        },
        Expr::Literal(_) => {},
        Expr::Logical(left, _, right) => {
            errors_are_kept(r, *left);
            errors_are_kept(resolve_expr(r, *left), *right);
        },
        Expr::SetProperty(object, _, value) => {
            errors_are_kept(r, *object);
            errors_are_kept(resolve_expr(r, *object), *value);
        },
        Expr::Super(_, _) => {},
        Expr::Self_(_) => {},
        Expr::Unary(_, right) => {
            errors_are_kept(r, *right);
        },
        Expr::Variable(_) => {},
    }
}

/// Resolving the arguments of a call keeps every error that was reported
/// before them.
pub proof fn errors_are_kept_by_arguments(r: Resolution, call: Expr, i: int)
    ensures
        resolved_from(resolve_arguments(r, call, i), r),
    decreases call, 1nat, (match call {
        Expr::Call(_, _, arguments) => arguments@.len() - i,
        _ => 0,
    }),
{
    match call {
        Expr::Call(_, _, arguments) => {
            if 0 <= i < arguments@.len() {
                errors_are_kept(r, arguments@[i]);
                errors_are_kept_by_arguments(resolve_expr(r, arguments@[i]), call, i + 1);
            }
        },
        _ => {},
    }
}

/// Resolving a statement keeps every error that was reported before it, so
/// that what the resolver once rejected stays rejected; and it closes every
/// scope that it opens, and returns to the kind of function and of class in
/// which it began.
#[verifier::rlimit(50)]
pub proof fn statement_keeps_errors(r: Resolution, stmt: Stmt)
    ensures
        resolved_from(resolve_stmt(r, stmt), r),
    decreases stmt, 3nat, 0nat,
{
    match stmt {
        Stmt::Block(_) => {
            statements_keep_errors(r.begin_scope(), stmt, 0);
        },
        Stmt::Class(_, _, _) => {
            class_keeps_errors(r, stmt);
        },
        Stmt::Expression(expr) => {
            errors_are_kept(r, expr);
        },
        Stmt::Function(_) => {
            function_keeps_errors(named(r, stmt), stmt, FunctionType::Function);
        },
        Stmt::If(condition, then_branch, else_branch) => {
            errors_are_kept(r, condition);
            statement_keeps_errors(resolve_expr(r, condition), *then_branch);
            match else_branch {
                Some(branch) => {
                    statement_keeps_errors(
                        resolve_stmt(resolve_expr(r, condition), *then_branch),
                        *branch,
                    );
                },
                None => {},
            }
        },
        Stmt::Return(keyword, value) => {
            let placed = if r.current_function == FunctionType::TopLevel {
                r.error(keyword, crate::resolver::return_at_top())
            } else {
                r
            };
            match value {
                Some(value) => {
                    errors_are_kept(
                        if placed.current_function == FunctionType::Initializer {
                            placed.error(keyword, return_from_initializer())
                        } else {
                            placed
                        },
                        value,
                    );
                },
                None => {},
            }
        },
        Stmt::Var(name, initializer) => {
            match initializer {
                Some(initializer) => {
                    errors_are_kept(r.declare(name), initializer);
                },
                None => {},
            }
        },
        Stmt::VarMut(name, initializer) => {
            match initializer {
                Some(initializer) => {
                    errors_are_kept(r.declare(name), initializer);
                },
                None => {},
            }
        },
        Stmt::While(condition, body) => {
            errors_are_kept(r, condition);
            statement_keeps_errors(resolve_expr(r, condition), *body);
        },
        Stmt::Break => {},
        Stmt::Continue => {},
    }
}

proof fn statements_keep_errors(r: Resolution, block: Stmt, i: int)
    ensures
        resolved_from(resolve_statements(r, block, i), r),
    decreases block, 1nat, (match block {
        Stmt::Block(statements) => statements@.len() - i,
        _ => 0,
    }),
{
    match block {
        Stmt::Block(statements) => {
            if 0 <= i < statements@.len() {
                statement_keeps_errors(r, statements@[i]);
                statements_keep_errors(resolve_stmt(r, statements@[i]), block, i + 1);
            }
        },
        _ => {},
    }
}

/// The resolution after the method at position `i` of a class was resolved.
spec fn method_resolved(r: Resolution, class: Stmt, i: int) -> Resolution {
    match class {
        Stmt::Class(_, _, methods) => match methods@[i] {
            Stmt::Function(declaration) => resolve_function(
                r,
                methods@[i],
                if declaration.name.lexeme@ == "init"@ {
                    FunctionType::Initializer
                } else {
                    FunctionType::Method
                },
            ),
            _ => r,
        },
        _ => r,
    }
}

proof fn methods_keep_errors(r: Resolution, class: Stmt, i: int)
    ensures
        resolved_from(resolve_methods(r, class, i), r),
    decreases class, 1nat, (match class {
        Stmt::Class(_, _, methods) => methods@.len() - i,
        _ => 0,
    }),
{
    match class {
        Stmt::Class(_, _, methods) => {
            if 0 <= i < methods@.len() {
                let next = method_resolved(r, class, i);
                assert(resolved_from(next, r)) by {
                    match methods@[i] {
                        Stmt::Function(declaration) => {
                            function_keeps_errors(
                                r,
                                methods@[i],
                                if declaration.name.lexeme@ == "init"@ {
                                    FunctionType::Initializer
                                } else {
                                    FunctionType::Method
                                },
                            );
                        },
                        _ => {},
                    }
                }
                methods_keep_errors(next, class, i + 1);
            }
        },
        _ => {},
    }
}

/// The resolution after the name of a function was declared and defined.
spec fn named(r: Resolution, function: Stmt) -> Resolution {
    match function {
        Stmt::Function(declaration) => r.declare(declaration.name).define(declaration.name),
        _ => r,
    }
}

/// The body of a function.
spec fn body_of(function: Stmt) -> Stmt {
    match function {
        Stmt::Function(declaration) => declaration.body,
        _ => function,
    }
}

/// The parameters of a function.
spec fn parameters_of(function: Stmt) -> Seq<Token> {
    match function {
        Stmt::Function(declaration) => declaration.parameters@,
        _ => Seq::empty(),
    }
}

proof fn function_keeps_errors(r: Resolution, function: Stmt, kind: FunctionType)
    ensures
        resolved_from(resolve_function(r, function, kind), r),
    decreases function, 1nat, 0nat,
{
    match function {
        Stmt::Function(_) => {
            let begun = Resolution { current_function: kind, ..r }.begin_scope();
            let entered = begun.parameters(parameters_of(function), 0);
            parameters_keep_errors(begun, parameters_of(function), 0);
            let body = body_of(function);
            match body {
                Stmt::Block(_) => {
                    statements_keep_errors(entered, body, 0);
                },
                _ => {},
            }
        },
        _ => {},
    }
}

proof fn parameters_keep_errors(r: Resolution, parameters: Seq<Token>, i: int)
    ensures
        resolved_from(r.parameters(parameters, i), r),
    decreases parameters.len() - i,
{
    if 0 <= i < parameters.len() {
        parameters_keep_errors(r.declare(parameters[i]).define(parameters[i]), parameters, i + 1);
    }
}

proof fn class_keeps_errors(r: Resolution, stmt: Stmt)
    ensures
        resolved_from(resolve_class(r, stmt), r),
    decreases stmt, 2nat, 0nat,
{
    match stmt {
        Stmt::Class(name, superclass, _) => {
            let named = Resolution { current_class: ClassType::Class, ..r }.declare(name).define(name);
            let opened = match superclass {
                Some(superclass) => {
                    let checked = match superclass {
                        Expr::Variable(parent) => if parent.lexeme@ == name.lexeme@ {
                            named.error(parent, crate::resolver::inherits_itself())
                        } else {
                            named
                        },
                        _ => named,
                    };
                    errors_are_kept(
                        Resolution { current_class: ClassType::Subclass, ..checked },
                        superclass,
                    );
                    resolve_expr(
                        Resolution { current_class: ClassType::Subclass, ..checked },
                        superclass,
                    ).begin_scope().put("super"@, true)
                },
                None => named,
            };
            methods_keep_errors(opened.begin_scope().put("self"@, true), stmt, 0);
        },
        _ => {},
    }
}

/// Resolving a program keeps every error that was reported before it, and
/// every error that one of its statements reports: a program with a
/// statement that the resolver rejects is not accepted. And it leaves as
/// many scopes open as there were.
pub proof fn program_keeps_errors(r: Resolution, statements: Seq<Stmt>, i: int)
    ensures
        resolved_from(resolve_program(r, statements, i), r),
    decreases statements.len() - i,
{
    if 0 <= i < statements.len() {
        statement_keeps_errors(r, statements[i]);
        program_keeps_errors(resolve_stmt(r, statements[i]), statements, i + 1);
    }
}

/// A call with another number of arguments than the callee takes is a
/// runtime error at the closing parenthesis, and nothing else happens: the
/// state stays as it was, so no body runs.
pub proof fn wrong_arity_is_an_error(
    oracle: Oracle,
    m: Machine,
    callee: Datum,
    arguments: Seq<Datum>,
    paren: Token,
    fuel: nat,
)
    requires
        arity_of(m.memory, callee).is_some(),
        arity_of(m.memory, callee).unwrap() != arguments.len(),
    ensures
        call_value(oracle, m, callee, arguments, paren, fuel) == (
            m,
            Err::<Datum, Fault>(
                Fault::Runtime(
                    paren@.position,
                    arity_message(arity_of(m.memory, callee).unwrap(), arguments.len()),
                ),
            ),
        ),
{
}

/// An assignment to a name that has no mutable binding is a runtime error,
/// and nothing else happens: the value is not evaluated.
pub proof fn immutable_binding_cannot_be_assigned(
    oracle: Oracle,
    m: Machine,
    name: Token,
    value: Expr,
    fuel: nat,
)
    requires
        !m.assignable(name@),
    ensures
        evaluate_assign(oracle, m, name, value, fuel) == (
            m,
            Err::<Datum, Fault>(Fault::Runtime(name@.position, immutable_variable(name.lexeme@))),
        ),
{
}

/// A binding that was defined immutably is not assignable where the
/// resolver found it in the frame in which evaluation stands, whatever it
/// holds; one that was defined mutably is.
pub proof fn mutability_is_that_of_the_definition(m: Machine, name: Token, value: Datum, is_mutable: bool)
    requires
        m.environment < m.memory.frames.len(),
        m.locals.contains_key(name@),
        m.locals[name@] == 0,
    ensures
        m.with_memory(m.memory.defining(m.environment, name@, value, is_mutable)).assignable(name@)
            == is_mutable,
{
}

/// The distance table holds exactly the occurrences that some scope binds:
/// resolving a name that a scope holds records how many scopes lie between
/// the occurrence and the nearest such scope, and a name that no scope
/// holds is not recorded, so that it is looked up in the globals.
pub proof fn distance_table_holds_the_bound_names(r: Resolution, name: Token)
    ensures
        resolve_expr(r, Expr::Variable(name)).locals == (match crate::resolver::depth_from(
            r.scopes,
            name.lexeme@,
            0,
        ) {
            Some(depth) => r.locals.insert(name@, depth as usize),
            None => r.locals,
        }),
        resolve_expr(r, Expr::Variable(name)).scopes == r.scopes,
{
}

/// The first runtime error ends a run: where a statement ends in an error,
/// the run ends in that error, in the state that the statement left, and
/// no later statement is executed.
pub proof fn first_error_ends_the_run(oracle: Oracle, m: Machine, statements: Seq<Stmt>, i: int, fuel: nat)
    requires
        0 <= i < statements.len(),
        execute(oracle, m, statements[i], fuel).1 matches Err(Interruption::Error(_)),
    ensures
        interpret_from(oracle, m, statements, i, fuel).0 == execute(
            oracle,
            m,
            statements[i],
            fuel,
        ).0,
        interpret_from(oracle, m, statements, i, fuel).1 == Err::<(), Fault>(
            execute(oracle, m, statements[i], fuel).1->Err_0->Error_0,
        ),
{
}

} // verus!
