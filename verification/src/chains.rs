use vstd::prelude::*;
use crate::ast::{Expr, Stmt};
use crate::discipline::call_returns_to_its_frame;
use crate::environment::{truthy, Datum};
use crate::function::{Builtin, Closure};
use crate::heap::Memory;
use crate::host::Oracle;
use crate::interpreter::initial_memory;
use crate::semantics::{
    argument, binary, call_function, call_value, class_made, evaluate, evaluate_assign,
    evaluate_binary, evaluate_call, evaluate_from, evaluate_get, evaluate_logical, evaluate_set,
    evaluate_unary, execute, execute_block, execute_class, execute_from, execute_if,
    execute_return, execute_var, execute_while, interpret_from, methods_made, native_call,
    parameters_bound, rendered, super_token, Machine,
};
use crate::token::Token;

verus! {

/// That the frames of a heap hang on the frame of the globals: that frame is
/// the first and encloses nothing; every other frame is enclosed by a frame
/// that was made before it; and every function closes over a frame that
/// exists.
pub open spec fn rooted(memory: Memory) -> bool {
    &&& memory.frames.len() > 0
    &&& memory.frames[0].enclosing.is_none()
    &&& forall|i: int|
        0 < i < memory.frames.len() ==> (#[trigger] memory.frames[i]).enclosing.is_some()
            && memory.frames[i].enclosing.unwrap() < i
    &&& forall|f: int|
        0 <= f < memory.functions.len() ==> (#[trigger] memory.functions[f]).closure
            < memory.frames.len()
}

/// That a state is in order: its frames hang on the frame of the globals,
/// which is the first, and evaluation stands in a frame that exists.
pub open spec fn in_order(m: Machine) -> bool {
    rooted(m.memory) && m.globals == 0 && m.environment < m.memory.frames.len()
}

/// How many enclosing links lie between a frame and the frame of the
/// globals.
pub open spec fn depth_of(memory: Memory, env: usize) -> nat
    decreases env,
{
    if 0 < env < memory.frames.len() {
        match memory.frames[env as int].enclosing {
            Some(outer) => if outer < env {
                1 + depth_of(memory, outer)
            } else {
                0
            },
            None => 0,
        }
    } else {
        0
    }
}

/// In a heap whose frames hang on the frame of the globals, the chain of
/// enclosing frames of every frame ends at the frame of the globals.
pub proof fn chains_end_at_the_globals(memory: Memory, env: usize)
    requires
        rooted(memory),
        env < memory.frames.len(),
    ensures
        memory.ancestor(env, depth_of(memory, env)) == Some(0usize),
    decreases env,
{
    if env > 0 {
        let outer = memory.frames[env as int].enclosing.unwrap();
        chains_end_at_the_globals(memory, outer);
    }
}

/// The heap of a new interpreter has its one frame, that of the globals.
pub proof fn new_interpreter_is_in_order()
    ensures
        rooted(initial_memory()),
{
}

proof fn bound_keeps(memory: Memory, env: usize, name: Seq<char>, binding: crate::environment::Binding)
    requires
        rooted(memory),
    ensures
        rooted(memory.bound(env, name, binding)),
        memory.bound(env, name, binding).frames.len() == memory.frames.len(),
        memory.bound(env, name, binding).functions == memory.functions,
{
    let after = memory.bound(env, name, binding);
    assert forall|i: int| 0 < i < after.frames.len() implies (#[trigger] after.frames[i]).enclosing.is_some()
        && after.frames[i].enclosing.unwrap() < i by {
        assert(after.frames[i].enclosing == memory.frames[i].enclosing);
    }
}

proof fn frame_keeps(memory: Memory, enclosing: usize)
    requires
        rooted(memory),
        enclosing < memory.frames.len(),
    ensures
        rooted(memory.frame_added(Some(enclosing))),
{
    let after = memory.frame_added(Some(enclosing));
    assert forall|i: int| 0 < i < after.frames.len() implies (#[trigger] after.frames[i]).enclosing.is_some()
        && after.frames[i].enclosing.unwrap() < i by {
        if i < memory.frames.len() {
            assert(after.frames[i] == memory.frames[i]);
        }
    }
    assert(after.frames[0] == memory.frames[0]);
}

proof fn function_keeps(memory: Memory, function: Closure)
    requires
        rooted(memory),
        function.closure < memory.frames.len(),
    ensures
        rooted(memory.function_added(function)),
{
    let after = memory.function_added(function);
    assert forall|f: int| 0 <= f < after.functions.len() implies (#[trigger] after.functions[f]).closure
        < after.frames.len() by {
        if f < memory.functions.len() {
            assert(after.functions[f] == memory.functions[f]);
        }
    }
}

proof fn method_bound_keeps(memory: Memory, function: usize, instance: usize)
    requires
        rooted(memory),
    ensures
        rooted(memory.method_bound(function, instance).0),
        memory.method_bound(function, instance).0.frames.len() >= memory.frames.len(),
{
    if function < memory.functions.len() {
        let unbound = memory.functions[function as int];
        let frame = memory.frames.len() as usize;
        frame_keeps(memory, unbound.closure);
        let framed = memory.frame_added(Some(unbound.closure));
        let defined = framed.defining(
            frame,
            Memory::self_token(unbound.declaration.name@.position),
            Datum::Instance(instance),
            false,
        );
        bound_keeps(
            framed,
            frame,
            Memory::self_token(unbound.declaration.name@.position).lexeme,
            crate::environment::Binding {
                value: Datum::Instance(instance),
                is_mutable: false,
                definition: Memory::self_token(unbound.declaration.name@.position),
            },
        );
        function_keeps(defined, Closure { closure: frame, ..unbound });
    }
}

proof fn heap_only_changes_keep(memory: Memory, after: Memory)
    requires
        rooted(memory),
        after.frames == memory.frames,
        after.functions == memory.functions,
    ensures
        rooted(after),
{
}

proof fn revalued_keeps(memory: Memory, frame: usize, name: Seq<char>, value: Datum)
    requires
        rooted(memory),
    ensures
        rooted(memory.revalued(frame, name, value)),
        memory.revalued(frame, name, value).frames.len() == memory.frames.len(),
{
    bound_keeps(
        memory,
        frame,
        name,
        crate::environment::Binding { value, ..memory.frames[frame as int].values[name] },
    );
}

proof fn assigned_keeps(m: Machine, name: crate::token::TokenView, value: Datum)
    requires
        in_order(m),
    ensures
        in_order(m.assigned(name, value).0),
{
    if m.locals.contains_key(name) {
        if m.memory.mutable_at(m.environment, m.locals[name] as nat, name.lexeme) {
            revalued_keeps(
                m.memory,
                m.memory.ancestor(m.environment, m.locals[name] as nat).unwrap(),
                name.lexeme,
                value,
            );
        }
    } else {
        match m.memory.holder(m.globals, name.lexeme) {
            Some(frame) => {
                revalued_keeps(m.memory, frame, name.lexeme, value);
            },
            None => {},
        }
    }
}

proof fn property_keeps(memory: Memory, instance: usize, name: Seq<char>)
    requires
        rooted(memory),
    ensures
        rooted(memory.property(instance, name).0),
        memory.property(instance, name).0.frames.len() >= memory.frames.len(),
{
    match memory.field(instance, name) {
        Some(_) => {},
        None => match memory.class_of(instance) {
            Some(class) => match memory.method(class, name) {
                Some(method) => {
                    method_bound_keeps(memory, method, instance);
                },
                None => {},
            },
            None => {},
        },
    }
}

proof fn parameters_keep(memory: Memory, frame: usize, parameters: Seq<Token>, arguments: Seq<Datum>, i: int)
    requires
        rooted(memory),
    ensures
        rooted(parameters_bound(memory, frame, parameters, arguments, i)),
        parameters_bound(memory, frame, parameters, arguments, i).frames.len()
            == memory.frames.len(),
        parameters_bound(memory, frame, parameters, arguments, i).functions == memory.functions,
    decreases parameters.len() - i,
{
    if 0 <= i < parameters.len() && i < arguments.len() {
        bound_keeps(
            memory,
            frame,
            parameters[i]@.lexeme,
            crate::environment::Binding {
                value: arguments[i],
                is_mutable: false,
                definition: parameters[i]@,
            },
        );
        parameters_keep(
            memory.defining(frame, parameters[i]@, arguments[i], false),
            frame,
            parameters,
            arguments,
            i + 1,
        );
    }
}

/// The heap and the method table after the method at position `i` was made.
spec fn method_made(memory: Memory, methods: Seq<Stmt>, i: int, env: usize, table: Map<Seq<char>, usize>) -> (
    Memory,
    Map<Seq<char>, usize>,
) {
    match methods[i] {
        Stmt::Function(declaration) => (
            memory.function_added(
                Closure {
                    declaration: *declaration,
                    closure: env,
                    initializer: declaration.name.lexeme@ == "init"@,
                },
            ),
            table.insert(declaration.name.lexeme@, memory.functions.len() as usize),
        ),
        _ => (memory, table),
    }
}

proof fn methods_keep(memory: Memory, methods: Seq<Stmt>, i: int, env: usize, table: Map<Seq<char>, usize>)
    requires
        rooted(memory),
        env < memory.frames.len(),
    ensures
        rooted(methods_made(memory, methods, i, env, table).0),
        methods_made(memory, methods, i, env, table).0.frames.len() == memory.frames.len(),
    decreases methods.len() - i,
{
    if 0 <= i < methods.len() {
        let next = method_made(memory, methods, i, env, table);
        assert(methods_made(memory, methods, i, env, table) == methods_made(
            next.0,
            methods,
            i + 1,
            env,
            next.1,
        ));
        assert(rooted(next.0) && next.0.frames.len() == memory.frames.len()) by {
            match methods[i] {
                Stmt::Function(_) => {
                    let added = choose|c: Closure|
                        next.0 == memory.function_added(c) && c.closure == env;
                    function_keeps(memory, added);
                },
                _ => {},
            }
        }
        methods_keep(next.0, methods, i + 1, env, next.1);
    }
}

proof fn class_keeps(m: Machine, name: Token, superclass: Option<usize>, methods: Seq<Stmt>)
    requires
        in_order(m),
    ensures
        in_order(class_made(m, name, superclass, methods).0),
{
    let first = crate::environment::Binding { value: Datum::Nil, is_mutable: true, definition: name@ };
    bound_keeps(m.memory, m.environment, name@.lexeme, first);
    let declared = m.memory.defining(m.environment, name@, Datum::Nil, true);
    let frame = declared.frames.len() as usize;
    let (prepared, env) = match superclass {
        Some(parent) => (
            declared.frame_added(Some(m.environment)).defining(
                frame,
                super_token(),
                Datum::Class(parent),
                false,
            ),
            frame,
        ),
        None => (declared, m.environment),
    };
    match superclass {
        Some(parent) => {
            frame_keeps(declared, m.environment);
            bound_keeps(
                declared.frame_added(Some(m.environment)),
                frame,
                super_token().lexeme,
                crate::environment::Binding {
                    value: Datum::Class(parent),
                    is_mutable: false,
                    definition: super_token(),
                },
            );
        },
        None => {},
    }
    methods_keep(prepared, methods, 0, env, Map::empty());
    let (made, table) = methods_made(prepared, methods, 0, env, Map::empty());
    let classed = made.class_added(
        crate::class::Blueprint { name: name.lexeme@, superclass, methods: table },
    );
    heap_only_changes_keep(made, classed);
    match classed.holder(m.environment, name@.lexeme) {
        Some(holder) => {
            revalued_keeps(classed, holder, name@.lexeme, Datum::Class(made.classes.len() as usize));
        },
        None => {},
    }
}

/// Evaluating an expression in a state that is in order leaves a state that
/// is in order: every chain of enclosing frames still ends at the frame of
/// the globals.
pub proof fn evaluation_keeps_order(oracle: Oracle, m: Machine, expr: Expr, fuel: nat)
    requires
        in_order(m),
    ensures
        in_order(evaluate(oracle, m, expr, fuel).0),
    decreases fuel, 0nat, 0nat,
{
    if fuel > 0 {
        let fuel = (fuel - 1) as nat;
        match expr {
            Expr::Literal(_) => {},
            Expr::Grouping(inner) => {
                evaluation_keeps_order(oracle, m, *inner, fuel);
            },
            Expr::Variable(_) => {},
            Expr::Self_(_) => {},
            Expr::Unary(op, right) => {
                unary_keeps_order(oracle, m, op, *right, fuel);
            },
            Expr::Binary(left, op, right) => {
                binary_keeps_order(oracle, m, *left, op, *right, fuel);
            },
            Expr::Logical(left, op, right) => {
                logical_keeps_order(oracle, m, *left, op, *right, fuel);
            },
            Expr::Assign(name, value) => {
                assign_keeps_order(oracle, m, name, *value, fuel);
            },
            Expr::Call(callee, paren, arguments) => {
                call_expression_keeps_order(oracle, m, *callee, paren, arguments@, fuel);
            },
            Expr::Get(object, name) => {
                get_keeps_order(oracle, m, *object, name, fuel);
            },
            Expr::SetProperty(object, name, value) => {
                set_keeps_order(oracle, m, *object, name, *value, fuel);
            },
            Expr::Super(keyword, method) => {
                super_keeps_order(m, keyword, method);
            },
        }
    }
}

proof fn unary_keeps_order(oracle: Oracle, m: Machine, op: Token, right: Expr, fuel: nat)
    requires
        in_order(m),
    ensures
        in_order(evaluate_unary(oracle, m, op, right, fuel).0),
    decreases fuel, 1nat, 0nat,
{
    evaluation_keeps_order(oracle, m, right, fuel);
}

proof fn binary_keeps_order(oracle: Oracle, m: Machine, left: Expr, op: Token, right: Expr, fuel: nat)
    requires
        in_order(m),
    ensures
        in_order(evaluate_binary(oracle, m, left, op, right, fuel).0),
    decreases fuel, 1nat, 0nat,
{
    evaluation_keeps_order(oracle, m, left, fuel);
    let (first, a) = evaluate(oracle, m, left, fuel);
    if a.is_ok() {
        evaluation_keeps_order(oracle, first, right, fuel);
        let (second, b) = evaluate(oracle, first, right, fuel);
        if b.is_ok() {
            assert(binary(oracle, second, op, a->Ok_0, b->Ok_0).0.memory == second.memory);
        }
    }
}

proof fn logical_keeps_order(oracle: Oracle, m: Machine, left: Expr, op: Token, right: Expr, fuel: nat)
    requires
        in_order(m),
    ensures
        in_order(evaluate_logical(oracle, m, left, op, right, fuel).0),
    decreases fuel, 1nat, 0nat,
{
    evaluation_keeps_order(oracle, m, left, fuel);
    let (first, a) = evaluate(oracle, m, left, fuel);
    if a.is_ok() {
        evaluation_keeps_order(oracle, first, right, fuel);
    }
}

proof fn assign_keeps_order(oracle: Oracle, m: Machine, name: Token, value: Expr, fuel: nat)
    requires
        in_order(m),
    ensures
        in_order(evaluate_assign(oracle, m, name, value, fuel).0),
    decreases fuel, 1nat, 0nat,
{
    evaluation_keeps_order(oracle, m, value, fuel);
    let (after, v) = evaluate(oracle, m, value, fuel);
    if v.is_ok() {
        assigned_keeps(after, name@, v->Ok_0);
    }
}

proof fn get_keeps_order(oracle: Oracle, m: Machine, object: Expr, name: Token, fuel: nat)
    requires
        in_order(m),
    ensures
        in_order(evaluate_get(oracle, m, object, name, fuel).0),
    decreases fuel, 1nat, 0nat,
{
    evaluation_keeps_order(oracle, m, object, fuel);
    let (after, a) = evaluate(oracle, m, object, fuel);
    match a {
        Ok(Datum::Instance(instance)) => {
            property_keeps(after.memory, instance, name.lexeme@);
        },
        _ => {},
    }
}

proof fn set_keeps_order(oracle: Oracle, m: Machine, object: Expr, name: Token, value: Expr, fuel: nat)
    requires
        in_order(m),
    ensures
        in_order(evaluate_set(oracle, m, object, name, value, fuel).0),
    decreases fuel, 1nat, 0nat,
{
    evaluation_keeps_order(oracle, m, object, fuel);
    let (first, a) = evaluate(oracle, m, object, fuel);
    evaluation_keeps_order(oracle, first, value, fuel);
    let (second, b) = evaluate(oracle, first, value, fuel);
    match (a, b) {
        (Ok(Datum::Instance(instance)), Ok(v)) => {
            heap_only_changes_keep(second.memory, second.memory.field_set(instance, name.lexeme@, v));
        },
        _ => {},
    }
}

proof fn call_expression_keeps_order(
    oracle: Oracle,
    m: Machine,
    callee: Expr,
    paren: Token,
    arguments: Seq<Expr>,
    fuel: nat,
)
    requires
        in_order(m),
    ensures
        in_order(evaluate_call(oracle, m, callee, paren, arguments, fuel).0),
    decreases fuel, 5nat, 0nat,
{
    evaluation_keeps_order(oracle, m, callee, fuel);
    let (first, a) = evaluate(oracle, m, callee, fuel);
    if a.is_ok() {
        arguments_keep_order(oracle, first, arguments, 0, Seq::empty(), fuel);
        let (second, values) = evaluate_from(oracle, first, arguments, 0, Seq::empty(), fuel);
        if values.is_ok() {
            call_keeps_order(oracle, second, a->Ok_0, values->Ok_0, paren, fuel);
        }
    }
}

proof fn super_keeps_order(m: Machine, keyword: Token, method: Token)
    requires
        in_order(m),
    ensures
        in_order(m.evaluate_super(keyword, method).0),
{
    if m.locals.contains_key(keyword@) && m.locals[keyword@] != 0 {
        let distance = m.locals[keyword@];
        match m.memory.read_at(m.environment, distance as nat, keyword@) {
            Ok(Datum::Class(superclass)) => match m.memory.read_at(
                m.environment,
                (distance - 1) as nat,
                crate::semantics::self_at(keyword@.position),
            ) {
                Ok(Datum::Instance(instance)) => match m.memory.method(superclass, method.lexeme@) {
                    Some(found) => {
                        method_bound_keeps(m.memory, found, instance);
                    },
                    None => {},
                },
                _ => {},
            },
            _ => {},
        }
    }
}

proof fn arguments_keep_order(
    oracle: Oracle,
    m: Machine,
    exprs: Seq<Expr>,
    i: int,
    values: Seq<Datum>,
    fuel: nat,
)
    requires
        in_order(m),
    ensures
        in_order(evaluate_from(oracle, m, exprs, i, values, fuel).0),
    decreases fuel, 1nat, exprs.len() - i,
{
    if 0 <= i < exprs.len() {
        evaluation_keeps_order(oracle, m, exprs[i], fuel);
        let (after, value) = evaluate(oracle, m, exprs[i], fuel);
        if value.is_ok() {
            arguments_keep_order(oracle, after, exprs, i + 1, values.push(value->Ok_0), fuel);
        }
    }
}

/// A call in a state that is in order leaves a state that is in order.
pub proof fn call_keeps_order(
    oracle: Oracle,
    m: Machine,
    callee: Datum,
    arguments: Seq<Datum>,
    paren: Token,
    fuel: nat,
)
    requires
        in_order(m),
    ensures
        in_order(call_value(oracle, m, callee, arguments, paren, fuel).0),
    decreases fuel, 4nat, 0nat,
{
    match callee {
        Datum::Function(function) => {
            function_call_keeps_order(oracle, m, function, arguments, fuel);
        },
        Datum::NativeFunction(native) => {
            if native < m.memory.natives.len() {
                let function = m.memory.natives[native as int].function;
                crate::discipline::call_returns_to_its_frame(
                    oracle,
                    m,
                    callee,
                    arguments,
                    paren,
                    fuel,
                );
                native_keeps_order(oracle, m, function, arguments);
            }
        },
        Datum::Class(class) => {
            construction_keeps_order(oracle, m, class, arguments, fuel);
        },
        _ => {},
    }
}

proof fn construction_keeps_order(
    oracle: Oracle,
    m: Machine,
    class: usize,
    arguments: Seq<Datum>,
    fuel: nat,
)
    requires
        in_order(m),
    ensures
        in_order(crate::semantics::construct(oracle, m, class, arguments, fuel).0),
    decreases fuel, 3nat, 2nat,
{
    if class < m.memory.classes.len() {
        let instance = m.memory.instances.len() as usize;
        let made = m.memory.instance_added(class);
        heap_only_changes_keep(m.memory, made);
        if m.memory.classes[class as int].methods.contains_key("init"@) {
            method_bound_keeps(made, m.memory.classes[class as int].methods["init"@], instance);
            let (memory, bound) = made.method_bound(
                m.memory.classes[class as int].methods["init"@],
                instance,
            );
            function_call_keeps_order(oracle, m.with_memory(memory), bound, arguments, fuel);
        }
    }
}

proof fn native_keeps_order(oracle: Oracle, m: Machine, function: Builtin, arguments: Seq<Datum>)
    requires
        in_order(m),
    ensures
        in_order(native_call(oracle, m, function, arguments).0),
{
    assert(rendered(oracle, m, argument(arguments, 0)).0.memory == m.memory);
}

/// Giving back the frames that were made since an earlier state keeps a
/// state in order: where frames are given back, every function was there
/// before them, so that none closes over them.
proof fn release_keeps_order(after: Machine, entry: Machine)
    requires
        in_order(entry),
        in_order(after),
        after.environment == entry.environment,
        crate::discipline::begun_by(after.memory.functions, entry.memory.functions),
    ensures
        in_order(after.released(entry)),
{
    let released = after.released(entry);
    if after.memory.functions.len() == entry.memory.functions.len() && entry.memory.frames.len()
        <= after.memory.frames.len() {
        assert forall|i: int| 0 < i < released.memory.frames.len() implies (
        #[trigger] released.memory.frames[i]).enclosing.is_some()
            && released.memory.frames[i].enclosing.unwrap() < i by {
            assert(released.memory.frames[i] == after.memory.frames[i]);
        }
        assert(released.memory.frames[0] == after.memory.frames[0]);
        assert forall|f: int| 0 <= f < released.memory.functions.len() implies (
        #[trigger] released.memory.functions[f]).closure < released.memory.frames.len() by {
            assert(released.memory.functions[f] == entry.memory.functions[f]);
        }
    }
}

proof fn closure_call_keeps_order(
    oracle: Oracle,
    m: Machine,
    callee: Closure,
    arguments: Seq<Datum>,
    fuel: nat,
)
    requires
        in_order(m),
        callee.closure < m.memory.frames.len(),
    ensures
        in_order(crate::semantics::call_closure(oracle, m, callee, arguments, fuel).0),
    decreases fuel, 3nat, 0nat,
{
    match callee.declaration.body {
        Stmt::Block(statements) => {
            let frame = m.memory.frames.len() as usize;
            frame_keeps(m.memory, callee.closure);
            parameters_keep(
                m.memory.frame_added(Some(callee.closure)),
                frame,
                callee.declaration.parameters@,
                arguments,
                0,
            );
            let memory = parameters_bound(
                m.memory.frame_added(Some(callee.closure)),
                frame,
                callee.declaration.parameters@,
                arguments,
                0,
            );
            let entered = m.with_memory(memory);
            block_keeps_order(oracle, entered, statements@, frame, fuel);
            crate::discipline::block_keeps(oracle, entered, statements@, frame, fuel);
            let after = execute_block(oracle, entered, statements@, frame, fuel).0;
            release_keeps_order(after, m);
        },
        _ => {},
    }
}

proof fn function_call_keeps_order(
    oracle: Oracle,
    m: Machine,
    function: usize,
    arguments: Seq<Datum>,
    fuel: nat,
)
    requires
        in_order(m),
    ensures
        in_order(call_function(oracle, m, function, arguments, fuel).0),
    decreases fuel, 3nat, 1nat,
{
    if function < m.memory.functions.len() {
        closure_call_keeps_order(oracle, m, m.memory.functions[function as int], arguments, fuel);
    }
}

proof fn block_keeps_order(oracle: Oracle, m: Machine, statements: Seq<Stmt>, frame: usize, fuel: nat)
    requires
        in_order(m),
        frame < m.memory.frames.len(),
    ensures
        in_order(execute_block(oracle, m, statements, frame, fuel).0),
    decreases fuel, 2nat, 0nat,
{
    statements_keep_order(
        oracle,
        Machine { environment: frame, ..m },
        statements,
        0,
        Datum::Nil,
        fuel,
    );
    crate::discipline::block_keeps(oracle, m, statements, frame, fuel);
}

proof fn statements_keep_order(
    oracle: Oracle,
    m: Machine,
    statements: Seq<Stmt>,
    i: int,
    last: Datum,
    fuel: nat,
)
    requires
        in_order(m),
    ensures
        in_order(execute_from(oracle, m, statements, i, last, fuel).0),
    decreases fuel, 1nat, statements.len() - i,
{
    if 0 <= i < statements.len() {
        execution_keeps_order(oracle, m, statements[i], fuel);
        let (after, value) = execute(oracle, m, statements[i], fuel);
        if value.is_ok() {
            statements_keep_order(oracle, after, statements, i + 1, value->Ok_0, fuel);
        }
    }
}

proof fn while_keeps_order(oracle: Oracle, m: Machine, condition: Expr, body: Stmt, fuel: nat)
    requires
        in_order(m),
    ensures
        in_order(execute_while(oracle, m, condition, body, fuel).0),
    decreases fuel, 1nat, 0nat,
{
    if fuel > 0 {
        evaluation_keeps_order(oracle, m, condition, fuel);
        let (first, value) = evaluate(oracle, m, condition, fuel);
        if value.is_ok() && truthy(value->Ok_0) {
            execution_keeps_order(oracle, first, body, fuel);
            let (second, outcome) = execute(oracle, first, body, fuel);
            while_keeps_order(oracle, second, condition, body, (fuel - 1) as nat);
        }
    }
}

proof fn class_statement_keeps_order(
    oracle: Oracle,
    m: Machine,
    name: Token,
    superclass: Option<Expr>,
    methods: Seq<Stmt>,
    fuel: nat,
)
    requires
        in_order(m),
    ensures
        in_order(execute_class(oracle, m, name, superclass, methods, fuel).0),
    decreases fuel, 1nat, 0nat,
{
    match superclass {
        Some(superclass) => {
            evaluation_keeps_order(oracle, m, superclass, fuel);
            let (after, value) = evaluate(oracle, m, superclass, fuel);
            match value {
                Ok(Datum::Class(parent)) => {
                    class_keeps(after, name, Some(parent), methods);
                },
                _ => {},
            }
        },
        None => {
            class_keeps(m, name, None, methods);
        },
    }
}

proof fn if_keeps_order(
    oracle: Oracle,
    m: Machine,
    condition: Expr,
    then_branch: Stmt,
    else_branch: Option<Box<Stmt>>,
    fuel: nat,
)
    requires
        in_order(m),
    ensures
        in_order(execute_if(oracle, m, condition, then_branch, else_branch, fuel).0),
    decreases fuel, 1nat, 0nat,
{
    evaluation_keeps_order(oracle, m, condition, fuel);
    let (after, value) = evaluate(oracle, m, condition, fuel);
    if value.is_ok() {
        execution_keeps_order(oracle, after, then_branch, fuel);
        match else_branch {
            Some(branch) => {
                execution_keeps_order(oracle, after, *branch, fuel);
            },
            None => {},
        }
    }
}

proof fn return_keeps_order(oracle: Oracle, m: Machine, value: Option<Expr>, fuel: nat)
    requires
        in_order(m),
    ensures
        in_order(execute_return(oracle, m, value, fuel).0),
    decreases fuel, 1nat, 0nat,
{
    match value {
        Some(value) => {
            evaluation_keeps_order(oracle, m, value, fuel);
        },
        None => {},
    }
}

/// Executing a statement in a state that is in order leaves a state that is
/// in order.
pub proof fn execution_keeps_order(oracle: Oracle, m: Machine, stmt: Stmt, fuel: nat)
    requires
        in_order(m),
    ensures
        in_order(execute(oracle, m, stmt, fuel).0),
    decreases fuel, 0nat, 0nat,
{
    if fuel > 0 {
        let fuel = (fuel - 1) as nat;
        match stmt {
            Stmt::Block(statements) => {
                frame_keeps(m.memory, m.environment);
                let entered = m.with_memory(m.memory.frame_added(Some(m.environment)));
                let frame = m.memory.frames.len() as usize;
                block_keeps_order(oracle, entered, statements@, frame, fuel);
                crate::discipline::block_keeps(oracle, entered, statements@, frame, fuel);
                release_keeps_order(execute_block(oracle, entered, statements@, frame, fuel).0, m);
            },
            Stmt::Class(name, superclass, methods) => {
                class_statement_keeps_order(oracle, m, name, superclass, methods@, fuel);
            },
            Stmt::Expression(expr) => {
                evaluation_keeps_order(oracle, m, expr, fuel);
            },
            Stmt::Function(_) => {
                declared_keeps_order(m, stmt);
            },
            Stmt::If(condition, then_branch, else_branch) => {
                if_keeps_order(oracle, m, condition, *then_branch, else_branch, fuel);
            },
            Stmt::Var(name, initializer) => {
                var_keeps_order(oracle, m, name, initializer, false, fuel);
            },
            Stmt::VarMut(name, initializer) => {
                var_keeps_order(oracle, m, name, initializer, true, fuel);
            },
            Stmt::While(condition, body) => {
                while_keeps_order(oracle, m, condition, *body, fuel);
            },
            Stmt::Return(_, value) => {
                return_keeps_order(oracle, m, value, fuel);
            },
            Stmt::Break => {},
            Stmt::Continue => {},
        }
    }
}

/// The function that a declaration makes in a state.
spec fn declared_closure(m: Machine, stmt: Stmt) -> Closure {
    match stmt {
        Stmt::Function(declaration) => Closure {
            declaration: *declaration,
            closure: m.environment,
            initializer: false,
        },
        _ => arbitrary(),
    }
}

proof fn declared_keeps_order(m: Machine, stmt: Stmt)
    requires
        in_order(m),
        stmt is Function,
    ensures
        ({
            let closure = declared_closure(m, stmt);
            in_order(
                m.with_memory(
                    m.memory.function_added(closure).defining(
                        m.environment,
                        closure.declaration.name@,
                        Datum::Function(m.memory.functions.len() as usize),
                        false,
                    ),
                ),
            )
        }),
{
    let closure = declared_closure(m, stmt);
    function_keeps(m.memory, closure);
    bound_keeps(
        m.memory.function_added(closure),
        m.environment,
        closure.declaration.name@.lexeme,
        crate::environment::Binding {
            value: Datum::Function(m.memory.functions.len() as usize),
            is_mutable: false,
            definition: closure.declaration.name@,
        },
    );
}

proof fn var_keeps_order(
    oracle: Oracle,
    m: Machine,
    name: Token,
    initializer: Option<Expr>,
    is_mutable: bool,
    fuel: nat,
)
    requires
        in_order(m),
    ensures
        in_order(execute_var(oracle, m, name, initializer, is_mutable, fuel).0),
    decreases fuel, 1nat, 0nat,
{
    match initializer {
        Some(initializer) => {
            evaluation_keeps_order(oracle, m, initializer, fuel);
            let (after, value) = evaluate(oracle, m, initializer, fuel);
            if value.is_ok() {
                bound_keeps(
                    after.memory,
                    after.environment,
                    name@.lexeme,
                    crate::environment::Binding {
                        value: value->Ok_0,
                        is_mutable,
                        definition: name@,
                    },
                );
            }
        },
        None => {
            bound_keeps(
                m.memory,
                m.environment,
                name@.lexeme,
                crate::environment::Binding { value: Datum::Nil, is_mutable, definition: name@ },
            );
        },
    }
}

/// A run from a state that is in order ends in a state that is in order.
pub proof fn run_keeps_order(oracle: Oracle, m: Machine, statements: Seq<Stmt>, i: int, fuel: nat)
    requires
        in_order(m),
    ensures
        in_order(interpret_from(oracle, m, statements, i, fuel).0),
    decreases statements.len() - i,
{
    if 0 <= i < statements.len() {
        execution_keeps_order(oracle, m, statements[i], fuel);
        let (after, value) = execute(oracle, m, statements[i], fuel);
        if value.is_ok() {
            run_keeps_order(oracle, after, statements, i + 1, fuel);
        }
    }
}

} // verus!
