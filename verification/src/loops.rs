use vstd::prelude::*;
use crate::ast::{Expr, Literal, Stmt};
use crate::discipline::execution_returns_to_its_frame;
use crate::environment::{truthy, Datum};
use crate::error::Fault;
use crate::host::{Arithmetic, Oracle, Request};
use crate::number::less_numbers;
use crate::semantics::{
    evaluate, evaluate_assign, evaluate_binary, execute, execute_from, execute_while,
    Interruption, Machine, Signal,
};
use crate::token::{Token, TokenType};

verus! {

/// The state in which a loop's condition leaves the state `m`.
pub open spec fn tested(oracle: Oracle, m: Machine, condition: Expr, fuel: nat) -> Machine {
    evaluate(oracle, m, condition, fuel).0
}

/// Whether a loop's condition is found true in the state `m`.
pub open spec fn holds_in(oracle: Oracle, m: Machine, condition: Expr, fuel: nat) -> bool {
    match evaluate(oracle, m, condition, fuel).1 {
        Ok(value) => truthy(value),
        Err(_) => false,
    }
}

/// Whether a loop's condition is found false in the state `m`.
pub open spec fn fails_in(oracle: Oracle, m: Machine, condition: Expr, fuel: nat) -> bool {
    match evaluate(oracle, m, condition, fuel).1 {
        Ok(value) => !truthy(value),
        Err(_) => false,
    }
}

/// Whether a loop's body, run in the state `m`, lets the loop go on: it runs
/// to its end, or ends with `continue`.
pub open spec fn passes(oracle: Oracle, m: Machine, body: Stmt, fuel: nat) -> bool {
    match execute(oracle, m, body, fuel).1 {
        Ok(_) => true,
        Err(Interruption::Control(Signal::Continue)) => true,
        _ => false,
    }
}

/// The state after one round of a loop from the state `m`: the condition is
/// evaluated, then the body runs once.
pub open spec fn after_round(oracle: Oracle, m: Machine, condition: Expr, body: Stmt, fuel: nat) -> Machine {
    execute(oracle, tested(oracle, m, condition, fuel), body, fuel).0
}

/// The state after `rounds` rounds of a loop from the state `m`, in each of
/// which the body runs once. Each round leaves one level less of nesting to
/// the next.
pub open spec fn after_rounds(
    oracle: Oracle,
    m: Machine,
    condition: Expr,
    body: Stmt,
    fuel: nat,
    rounds: nat,
) -> Machine
    decreases rounds,
{
    if rounds == 0 {
        m
    } else {
        after_rounds(
            oracle,
            after_round(oracle, m, condition, body, fuel),
            condition,
            body,
            (fuel - 1) as nat,
            (rounds - 1) as nat,
        )
    }
}

/// Whether a loop from the state `m` makes its round number `round`, counted
/// from zero: the condition is found true in the state after that many
/// rounds, and the body then lets the loop go on.
pub open spec fn makes_round(
    oracle: Oracle,
    m: Machine,
    condition: Expr,
    body: Stmt,
    fuel: nat,
    round: nat,
) -> bool {
    let begun = after_rounds(oracle, m, condition, body, fuel, round);
    let left = (fuel - round) as nat;
    holds_in(oracle, begun, condition, left) && passes(
        oracle,
        tested(oracle, begun, condition, left),
        body,
        left,
    )
}

/// A loop runs its body once for each time that it finds its condition
/// true, and no more. Where the condition is found true in each of the
/// first `rounds` rounds, the body lets the loop go on each time, and the
/// condition is then found false, the loop ends in the state in which that
/// last test leaves the state after `rounds` runs of the body, and gives
/// `nil`. A `for` loop is such a loop: its body is the block of the body
/// that was written and the increment.
pub proof fn loop_runs_once_per_true_condition(
    oracle: Oracle,
    m: Machine,
    condition: Expr,
    body: Stmt,
    fuel: nat,
    rounds: nat,
)
    requires
        rounds < fuel,
        forall|round: nat|
            round < rounds ==> #[trigger] makes_round(oracle, m, condition, body, fuel, round),
        fails_in(
            oracle,
            after_rounds(oracle, m, condition, body, fuel, rounds),
            condition,
            (fuel - rounds) as nat,
        ),
    ensures
        execute_while(oracle, m, condition, body, fuel) == (
            tested(
                oracle,
                after_rounds(oracle, m, condition, body, fuel, rounds),
                condition,
                (fuel - rounds) as nat,
            ),
            Ok::<Datum, Interruption>(Datum::Nil),
        ),
    decreases rounds,
{
    if rounds > 0 {
        let next = after_round(oracle, m, condition, body, fuel);
        let less = (fuel - 1) as nat;
        assert(makes_round(oracle, m, condition, body, fuel, 0));
        assert(execute_while(oracle, m, condition, body, fuel) == execute_while(
            oracle,
            next,
            condition,
            body,
            less,
        ));
        assert forall|round: nat| round < rounds - 1 implies #[trigger] makes_round(
            oracle,
            next,
            condition,
            body,
            less,
            round,
        ) by {
            assert(makes_round(oracle, m, condition, body, fuel, round + 1));
        }
        loop_runs_once_per_true_condition(oracle, next, condition, body, less, (rounds - 1) as nat);
    }
}

/// A loop whose condition is found false at once does not run its body.
pub proof fn loop_with_false_condition_runs_nothing(
    oracle: Oracle,
    m: Machine,
    condition: Expr,
    body: Stmt,
    fuel: nat,
)
    requires
        0 < fuel,
        fails_in(oracle, m, condition, fuel),
    ensures
        execute_while(oracle, m, condition, body, fuel) == (
            tested(oracle, m, condition, fuel),
            Ok::<Datum, Interruption>(Datum::Nil),
        ),
{
}

/// The parts of a loop that counts: the declaration of the variable, the
/// test `name < limit`, the body, and the increment `name = name + amount`,
/// each occurrence of the name and each operator with its token.
pub struct Counter {
    pub declared: Token,
    pub read: Token,
    pub less: Token,
    pub limit: u64,
    pub body: Stmt,
    pub target: Token,
    pub source: Token,
    pub plus: Token,
    pub amount: u64,
}

impl Counter {
    /// The name of the variable that counts.
    pub open spec fn name(self) -> Seq<char> {
        self.read@.lexeme
    }

    /// The test `name < limit`.
    pub open spec fn test(self) -> Expr {
        Expr::Binary(
            Box::new(Expr::Variable(self.read)),
            self.less,
            Box::new(Expr::Literal(Literal::Number(self.limit))),
        )
    }

    /// The sum `name + amount`.
    pub open spec fn sum(self) -> Expr {
        Expr::Binary(
            Box::new(Expr::Variable(self.source)),
            self.plus,
            Box::new(Expr::Literal(Literal::Number(self.amount))),
        )
    }

    /// The increment `name = name + amount;`.
    pub open spec fn increment(self) -> Stmt {
        Stmt::Expression(Expr::Assign(self.target, Box::new(self.sum())))
    }

    /// Whether a statement is the block of the body and the increment: what
    /// a `for` loop repeats.
    pub open spec fn repeats(self, step: Stmt) -> bool {
        match step {
            Stmt::Block(parts) => parts@ =~= seq![self.body, self.increment()],
            _ => false,
        }
    }

    /// Whether a statement is what a `for` loop over the variable stands
    /// for: a block of the declaration `var mut name = first;` and the loop
    /// that repeats `step` while the test holds.
    pub open spec fn stands_for(self, whole: Stmt, first: u64, step: Stmt) -> bool {
        match whole {
            Stmt::Block(parts) => parts@ =~= seq![
                Stmt::VarMut(self.declared, Some(Expr::Literal(Literal::Number(first)))),
                Stmt::While(self.test(), Box::new(step)),
            ],
            _ => false,
        }
    }

    /// The state in which the loop begins: evaluation stands in a new frame,
    /// which binds the variable, mutably, to its first value.
    pub open spec fn begun(self, m: Machine, first: u64) -> Machine {
        let entered = in_new_frame(m);
        entered.with_memory(
            entered.memory.defining(
                entered.environment,
                self.declared@,
                Datum::Number(first),
                true,
            ),
        )
    }

    /// Whether the tokens are those of such a loop, and the distance table
    /// holds for them what resolution puts there: the test reads the
    /// variable in the frame of the loop, and the increment reads and writes
    /// it one frame further out than the frame of its round.
    pub open spec fn resolved_in(self, m: Machine) -> bool {
        &&& self.less.ty == TokenType::Less
        &&& self.plus.ty == TokenType::Plus
        &&& self.declared@.lexeme == self.name()
        &&& self.target@.lexeme == self.name()
        &&& self.source@.lexeme == self.name()
        &&& m.locals.contains_key(self.read@) && m.locals[self.read@] == 0
        &&& m.locals.contains_key(self.target@) && m.locals[self.target@] == 1
        &&& m.locals.contains_key(self.source@) && m.locals[self.source@] == 1
    }
}

/// Whether a frame binds a name, mutably, to a number.
pub open spec fn counts(m: Machine, frame: usize, name: Seq<char>, value: u64) -> bool {
    match m.memory.here(frame, name) {
        Some(binding) => binding.value == Datum::Number(value) && binding.is_mutable,
        None => false,
    }
}

/// Whether the host, whenever it is asked, gives `sum` for `left + right`.
pub open spec fn adds(oracle: Oracle, left: u64, right: u64, sum: u64) -> bool {
    forall|index: int|
        (#[trigger] oracle(index, Request::Compute(Arithmetic::Add, left, right))).number() == sum
}

/// The state in which the statements of a block begin: evaluation stands in
/// a new, empty frame, which the frame in which it stood encloses.
pub open spec fn in_new_frame(m: Machine) -> Machine {
    Machine {
        environment: m.memory.frames.len() as usize,
        ..m.with_memory(m.memory.frame_added(Some(m.environment)))
    }
}

/// Whether a body, run in a new frame from the state `m`, runs to its end
/// and leaves the binding of a name in the frame of `m` as it is. The heap
/// must have room for the new frame.
pub open spec fn leaves_alone(oracle: Oracle, m: Machine, body: Stmt, name: Seq<char>, fuel: nat) -> bool {
    let ended = execute(oracle, in_new_frame(m), body, fuel);
    &&& m.memory.frames.len() < usize::MAX
    &&& ended.1 is Ok
    &&& ended.0.memory.here(m.environment, name) == m.memory.here(m.environment, name)
}

/// One round of a counting loop: where the variable holds a number below the
/// limit, the host adds as asked and the body leaves the variable alone,
/// the test is found true without a change of state, the round runs to its
/// end, and the variable then holds the sum.
proof fn round_counts(
    oracle: Oracle,
    m: Machine,
    c: Counter,
    step: Stmt,
    fuel: nat,
    value: u64,
    sum: u64,
)
    requires
        5 <= fuel,
        c.repeats(step),
        c.resolved_in(m),
        counts(m, m.environment, c.name(), value),
        less_numbers(value, c.limit),
        adds(oracle, value, c.amount, sum),
        leaves_alone(oracle, m, c.body, c.name(), (fuel - 1) as nat),
    ensures
        tested(oracle, m, c.test(), fuel) == m,
        holds_in(oracle, m, c.test(), fuel),
        passes(oracle, m, step, fuel),
        after_round(oracle, m, c.test(), step, fuel).environment == m.environment,
        after_round(oracle, m, c.test(), step, fuel).locals == m.locals,
        counts(after_round(oracle, m, c.test(), step, fuel), m.environment, c.name(), sum),
{
    test_reads_counter(oracle, m, c, fuel, value);
    let inner = (fuel - 1) as nat;
    let entered = in_new_frame(m);
    let (ended, outcome) = execute(oracle, entered, c.body, inner);
    execution_returns_to_its_frame(oracle, entered, c.body, inner);
    let parts = seq![c.body, c.increment()];
    let frame = ended.environment;
    assert(ended.memory.ancestor(frame, 1) == Some(m.environment)) by {
        assert(ended.memory.frames[frame as int].enclosing == Some(m.environment));
        assert(ended.memory.ancestor(m.environment, 0) == Some(m.environment));
    }
    let asked = Machine { asked: ended.asked.push(Request::Compute(Arithmetic::Add, value, c.amount)), ..ended };
    assert(evaluate(oracle, ended, c.sum(), (inner - 2) as nat) == (asked, Ok::<Datum, Fault>(Datum::Number(sum)))) by {
        let deep = (inner - 3) as nat;
        assert(evaluate(oracle, ended, Expr::Variable(c.source), deep).1 == Ok::<Datum, Fault>(Datum::Number(value)));
        assert(evaluate(oracle, ended, Expr::Literal(Literal::Number(c.amount)), deep) == (
            ended,
            Ok::<Datum, Fault>(Datum::Number(c.amount)),
        ));
        assert(evaluate_binary(
            oracle,
            ended,
            Expr::Variable(c.source),
            c.plus,
            Expr::Literal(Literal::Number(c.amount)),
            deep,
        ) == (asked, Ok::<Datum, Fault>(Datum::Number(sum))));
    }
    let written = asked.with_memory(
        asked.memory.revalued(m.environment, c.name(), Datum::Number(sum)),
    );
    assert(evaluate_assign(oracle, ended, c.target, c.sum(), (inner - 2) as nat) == (
        written,
        Ok::<Datum, Fault>(Datum::Nil),
    ));
    assert(execute(oracle, ended, c.increment(), inner) == (
        written,
        Ok::<Datum, Interruption>(Datum::Nil),
    ));
    assert(execute_from(oracle, written, parts, 2, Datum::Nil, inner) == (
        written,
        Ok::<Datum, Interruption>(Datum::Nil),
    ));
    assert(execute_from(oracle, ended, parts, 1, outcome->Ok_0, inner) == (
        written,
        Ok::<Datum, Interruption>(Datum::Nil),
    ));
    assert(execute_from(oracle, entered, parts, 0, Datum::Nil, inner) == (
        written,
        Ok::<Datum, Interruption>(Datum::Nil),
    ));
}

/// The test of a counting loop reads the variable and compares it with the
/// limit; it changes nothing.
proof fn test_reads_counter(oracle: Oracle, m: Machine, c: Counter, fuel: nat, value: u64)
    requires
        2 <= fuel,
        c.resolved_in(m),
        counts(m, m.environment, c.name(), value),
    ensures
        evaluate(oracle, m, c.test(), fuel) == (
            m,
            Ok::<Datum, Fault>(Datum::Bool(less_numbers(value, c.limit))),
        ),
{
    let inner = (fuel - 1) as nat;
    assert(m.memory.ancestor(m.environment, 0) == Some(m.environment));
    assert(evaluate(oracle, m, Expr::Variable(c.read), inner) == (
        m,
        Ok::<Datum, Fault>(Datum::Number(value)),
    ));
    assert(evaluate(oracle, m, Expr::Literal(Literal::Number(c.limit)), inner) == (
        m,
        Ok::<Datum, Fault>(Datum::Number(c.limit)),
    ));
    assert(evaluate_binary(
        oracle,
        m,
        Expr::Variable(c.read),
        c.less,
        Expr::Literal(Literal::Number(c.limit)),
        inner,
    ) == (m, Ok::<Datum, Fault>(Datum::Bool(less_numbers(value, c.limit)))));
}

/// Whether a count goes as `values` says: each value but the last is below
/// the limit and the host gives the next value for its sum with the amount;
/// the last value is not below the limit.
pub open spec fn counted(oracle: Oracle, c: Counter, values: Seq<u64>) -> bool {
    &&& values.len() > 0
    &&& forall|k: int|
        0 <= k < values.len() - 1 ==> less_numbers(#[trigger] values[k], c.limit) && adds(
            oracle,
            values[k],
            c.amount,
            values[k + 1],
        )
    &&& !less_numbers(values.last(), c.limit)
}

/// Whether the body leaves the counting variable alone in each of the first
/// `rounds` rounds of the loop from the state `m`.
pub open spec fn body_leaves_alone(
    oracle: Oracle,
    m: Machine,
    c: Counter,
    step: Stmt,
    fuel: nat,
    rounds: nat,
) -> bool {
    forall|round: nat|
        round < rounds ==> leaves_alone(
            oracle,
            #[trigger] after_rounds(oracle, m, c.test(), step, fuel, round),
            c.body,
            c.name(),
            (fuel - round - 1) as nat,
        )
}

proof fn rounds_count(
    oracle: Oracle,
    m: Machine,
    c: Counter,
    step: Stmt,
    values: Seq<u64>,
    at: nat,
    fuel: nat,
)
    requires
        c.repeats(step),
        c.resolved_in(m),
        counted(oracle, c, values),
        at < values.len(),
        counts(m, m.environment, c.name(), values[at as int]),
        values.len() - at + 3 <= fuel,
        body_leaves_alone(oracle, m, c, step, fuel, (values.len() - 1 - at) as nat),
    ensures
        forall|round: nat|
            round < values.len() - 1 - at ==> #[trigger] makes_round(
                oracle,
                m,
                c.test(),
                step,
                fuel,
                round,
            ),
        ({
            let rounds = (values.len() - 1 - at) as nat;
            let last = after_rounds(oracle, m, c.test(), step, fuel, rounds);
            &&& fails_in(oracle, last, c.test(), (fuel - rounds) as nat)
            &&& tested(oracle, last, c.test(), (fuel - rounds) as nat) == last
            &&& last.environment == m.environment
            &&& counts(last, m.environment, c.name(), values.last())
        }),
    decreases values.len() - at,
{
    let rounds = (values.len() - 1 - at) as nat;
    if rounds == 0 {
        test_reads_counter(oracle, m, c, fuel, values[at as int]);
    } else {
        let next = after_round(oracle, m, c.test(), step, fuel);
        let less = (fuel - 1) as nat;
        assert(after_rounds(oracle, m, c.test(), step, fuel, 0) == m);
        round_counts(oracle, m, c, step, fuel, values[at as int], values[(at + 1) as int]);
        assert forall|round: nat| round < rounds - 1 implies leaves_alone(
            oracle,
            #[trigger] after_rounds(oracle, next, c.test(), step, less, round),
            c.body,
            c.name(),
            (less - round - 1) as nat,
        ) by {
            assert(after_rounds(oracle, m, c.test(), step, fuel, round + 1) == after_rounds(
                oracle,
                next,
                c.test(),
                step,
                less,
                round,
            ));
        }
        rounds_count(oracle, next, c, step, values, at + 1, less);
        assert forall|round: nat| round < rounds implies #[trigger] makes_round(
            oracle,
            m,
            c.test(),
            step,
            fuel,
            round,
        ) by {
            if round > 0 {
                assert(makes_round(oracle, next, c.test(), step, less, (round - 1) as nat));
            }
        }
    }
}

/// A counting loop runs its body once for each value that the variable
/// takes below the limit. Let the variable begin with the first of
/// `values`, each of which but the last is below the limit; let the host
/// give the next value whenever it is asked to add the amount to one of
/// them; and let the body, each time, run to its end and leave the
/// variable alone. Then the loop makes as many rounds as there are values
/// below the limit, ends without a further change of state, and leaves the
/// variable with the last value.
pub proof fn counting_loop_runs_once_per_value(
    oracle: Oracle,
    m: Machine,
    c: Counter,
    step: Stmt,
    values: Seq<u64>,
    fuel: nat,
)
    requires
        c.repeats(step),
        c.resolved_in(m),
        counted(oracle, c, values),
        counts(m, m.environment, c.name(), values[0]),
        values.len() + 3 <= fuel,
        body_leaves_alone(oracle, m, c, step, fuel, (values.len() - 1) as nat),
    ensures
        execute_while(oracle, m, c.test(), step, fuel) == (
            after_rounds(oracle, m, c.test(), step, fuel, (values.len() - 1) as nat),
            Ok::<Datum, Interruption>(Datum::Nil),
        ),
        counts(
            after_rounds(oracle, m, c.test(), step, fuel, (values.len() - 1) as nat),
            m.environment,
            c.name(),
            values.last(),
        ),
{
    rounds_count(oracle, m, c, step, values, 0, fuel);
    loop_runs_once_per_true_condition(
        oracle,
        m,
        c.test(),
        step,
        fuel,
        (values.len() - 1) as nat,
    );
}

/// A `for` loop that counts runs its body once for each value that its
/// variable takes below the limit: `for (var mut name = first; name <
/// limit; name = name + amount) body`, for a host that gives `values` as
/// the sums and a body that each time runs to its end and leaves the
/// variable alone, runs the body once for each of `values` but the last,
/// gives `nil`, and returns to the frame in which it began.
pub proof fn for_loop_runs_once_per_value(
    oracle: Oracle,
    m: Machine,
    c: Counter,
    whole: Stmt,
    step: Stmt,
    values: Seq<u64>,
    fuel: nat,
)
    requires
        c.repeats(step),
        c.resolved_in(m),
        counted(oracle, c, values),
        c.stands_for(whole, values[0], step),
        m.memory.frames.len() < usize::MAX,
        values.len() + 5 <= fuel,
        body_leaves_alone(
            oracle,
            c.begun(m, values[0]),
            c,
            step,
            (fuel - 2) as nat,
            (values.len() - 1) as nat,
        ),
    ensures
        execute(oracle, m, whole, fuel) == (
            (Machine {
                environment: m.environment,
                ..after_rounds(
                    oracle,
                    c.begun(m, values[0]),
                    c.test(),
                    step,
                    (fuel - 2) as nat,
                    (values.len() - 1) as nat,
                )
            }).released(m),
            Ok::<Datum, Interruption>(Datum::Nil),
        ),
{
    let inner = (fuel - 1) as nat;
    let begun = c.begun(m, values[0]);
    let entered = in_new_frame(m);
    let rounds = (values.len() - 1) as nat;
    let last = after_rounds(oracle, begun, c.test(), step, (fuel - 2) as nat, rounds);
    let declaration = Stmt::VarMut(c.declared, Some(Expr::Literal(Literal::Number(values[0]))));
    let parts = seq![declaration, Stmt::While(c.test(), Box::new(step))];
    assert(execute(oracle, entered, declaration, inner) == (
        begun,
        Ok::<Datum, Interruption>(Datum::Nil),
    )) by {
        assert(evaluate(
            oracle,
            entered,
            Expr::Literal(Literal::Number(values[0])),
            (inner - 1) as nat,
        ) == (entered, Ok::<Datum, Fault>(Datum::Number(values[0]))));
    }
    counting_loop_runs_once_per_value(oracle, begun, c, step, values, (fuel - 2) as nat);
    assert(execute(oracle, begun, parts[1], inner) == (
        last,
        Ok::<Datum, Interruption>(Datum::Nil),
    ));
    assert(execute_from(oracle, last, parts, 2, Datum::Nil, inner) == (
        last,
        Ok::<Datum, Interruption>(Datum::Nil),
    ));
    assert(execute_from(oracle, begun, parts, 1, Datum::Nil, inner) == (
        last,
        Ok::<Datum, Interruption>(Datum::Nil),
    ));
    assert(execute_from(oracle, entered, parts, 0, Datum::Nil, inner) == (
        last,
        Ok::<Datum, Interruption>(Datum::Nil),
    ));
}

} // verus!
