use vstd::prelude::*;
use crate::ast::{ExprView, LiteralView, StmtView};
use crate::error::{Fault, Place};
use crate::token::{TokenType, TokenView};

verus! {

/// Why a parse was refused: the token at which, and the complaint.
pub struct Refusal {
    pub token: TokenView,
    pub message: Seq<char>,
}

/// The outcome of parsing from some position: what was parsed, or why it was
/// refused; how many tokens were taken; and the diagnostics reported so far,
/// those from before the rule began included, in order.
pub struct Parsed<T> {
    pub result: Result<T, Refusal>,
    pub used: nat,
    pub errors: Seq<Fault>,
}

/// The outcome of a rule that is never refused: what it gathered, how many
/// tokens it took, and the diagnostics reported so far.
pub struct Gathered<T> {
    pub value: T,
    pub used: nat,
    pub errors: Seq<Fault>,
}

/// What was gathered after `used` tokens.
pub open spec fn later<T>(used: nat, g: Gathered<T>) -> Gathered<T> {
    Gathered { used: used + g.used, ..g }
}

/// The token that stands for the end where the tokens have run out.
pub open spec fn end_token() -> TokenView {
    TokenView {
        ty: TokenType::Eof@,
        lexeme: Seq::empty(),
        position: Place { file: Seq::empty(), line: 0, column: 0 },
    }
}

/// The token at a position.
pub open spec fn peek(t: Seq<TokenView>, at: nat) -> TokenView {
    if at < t.len() {
        t[at as int]
    } else {
        end_token()
    }
}

/// The token before a position.
pub open spec fn previous(t: Seq<TokenView>, at: nat) -> TokenView {
    if 0 < at <= t.len() {
        t[at - 1]
    } else {
        peek(t, at)
    }
}

/// Whether the token at a position ends the program.
pub open spec fn at_end(t: Seq<TokenView>, at: nat) -> bool {
    peek(t, at).ty.ordinal == TokenType::Eof@.ordinal
}

/// Whether the token at a position is of a kind, and not the end.
pub open spec fn stands(t: Seq<TokenView>, at: nat, kind: TokenType) -> bool {
    !at_end(t, at) && peek(t, at).ty.ordinal == kind@.ordinal
}

/// The ordinal of the kind of string literals.
pub open spec fn string_ordinal() -> int {
    20
}

/// The ordinal of the kind of number literals.
pub open spec fn number_ordinal() -> int {
    21
}

/// How many tokens are left from a position on.
pub open spec fn remaining(t: Seq<TokenView>, at: nat) -> nat {
    if at < t.len() {
        (t.len() - at) as nat
    } else {
        0
    }
}

/// The position after a token was taken: the end is never passed.
pub open spec fn advanced(t: Seq<TokenView>, at: nat) -> nat {
    if at_end(t, at) {
        at
    } else {
        at + 1
    }
}

/// An accepted parse that took `used` tokens and reported nothing.
pub open spec fn ok<T>(value: T, used: nat, errors: Seq<Fault>) -> Parsed<T> {
    Parsed { result: Ok(value), used, errors }
}

/// The refusal of the token at a position, reported as a syntax error.
pub open spec fn refuse<T>(t: Seq<TokenView>, at: nat, errors: Seq<Fault>, message: Seq<char>) -> Parsed<
    T,
> {
    Parsed {
        result: Err(Refusal { token: peek(t, at), message }),
        used: 0,
        errors: errors.push(Fault::Syntax(peek(t, at).position, message)),
    }
}

/// An outcome that follows `used` tokens.
pub open spec fn after<T>(used: nat, p: Parsed<T>) -> Parsed<T> {
    Parsed { used: used + p.used, ..p }
}

/// An outcome with another value.
pub open spec fn with<A, B>(p: Parsed<A>, result: Result<B, Refusal>) -> Parsed<B> {
    Parsed { result, used: p.used, errors: p.errors }
}

/// Takes a token of a kind, or refuses the token that stands there.
pub open spec fn consume(
    t: Seq<TokenView>,
    at: nat,
    errors: Seq<Fault>,
    kind: TokenType,
    message: Seq<char>,
) -> Parsed<TokenView> {
    if stands(t, at, kind) {
        ok(peek(t, at), 1, errors)
    } else {
        refuse(t, at, errors, message)
    }
}

/// Whether a token of a kind is an operator of a level of precedence:
/// level 0 holds `*` and `/`; 1 `-` and `+`; 2 the comparisons; 3 `!=` and
/// `==`; 4 `and`; 5 `or`.
pub open spec fn operator_of(level: nat, ordinal: int) -> bool {
    if level == 0 {
        ordinal == TokenType::Star@.ordinal || ordinal == TokenType::Slash@.ordinal
    } else if level == 1 {
        ordinal == TokenType::Minus@.ordinal || ordinal == TokenType::Plus@.ordinal
    } else if level == 2 {
        ordinal == TokenType::Greater@.ordinal || ordinal == TokenType::GreaterEqual@.ordinal
            || ordinal == TokenType::Less@.ordinal || ordinal == TokenType::LessEqual@.ordinal
    } else if level == 3 {
        ordinal == TokenType::BangEqual@.ordinal || ordinal == TokenType::EqualEqual@.ordinal
    } else if level == 4 {
        ordinal == TokenType::And@.ordinal
    } else {
        ordinal == TokenType::Or@.ordinal
    }
}

/// Two operands joined by an operator of a level: `and` and `or` make a
/// logical expression, the others a binary one.
pub open spec fn joined(level: nat, left: ExprView, op: TokenView, right: ExprView) -> ExprView {
    if level >= 4 {
        ExprView::Logical(Box::new(left), op, Box::new(right))
    } else {
        ExprView::Binary(Box::new(left), op, Box::new(right))
    }
}

/// A primary expression: a literal, an expression in parentheses, `self`,
/// `super` with a method name, or a name.
pub open spec fn primary(t: Seq<TokenView>, at: nat, errors: Seq<Fault>) -> Parsed<ExprView>
    decreases remaining(t, at), 0nat,
{
    if stands(t, at, TokenType::False) {
        ok(ExprView::Literal(LiteralView::Bool(false)), 1, errors)
    } else if stands(t, at, TokenType::True) {
        ok(ExprView::Literal(LiteralView::Bool(true)), 1, errors)
    } else if stands(t, at, TokenType::Nil) {
        ok(ExprView::Literal(LiteralView::Nil), 1, errors)
    } else if !at_end(t, at) && peek(t, at).ty.ordinal == number_ordinal() {
        ok(ExprView::Literal(LiteralView::Number(peek(t, at).ty.bits)), 1, errors)
    } else if !at_end(t, at) && peek(t, at).ty.ordinal == string_ordinal() {
        ok(ExprView::Literal(LiteralView::String(peek(t, at).ty.text)), 1, errors)
    } else if stands(t, at, TokenType::LeftParen) {
        let inner = expression(t, at + 1, errors);
        match inner.result {
            Ok(expr) => {
                let close = consume(
                    t,
                    at + 1 + inner.used,
                    inner.errors,
                    TokenType::RightParen,
                    "Expected ')' after expression."@,
                );
                after(
                    1 + inner.used,
                    with(
                        close,
                        match close.result {
                            Ok(_) => Ok(ExprView::Grouping(Box::new(expr))),
                            Err(refusal) => Err(refusal),
                        },
                    ),
                )
            },
            Err(refusal) => after(1, inner),
        }
    } else if stands(t, at, TokenType::Self_) {
        ok(ExprView::Self_(peek(t, at)), 1, errors)
    } else if stands(t, at, TokenType::Super) {
        let dot = consume(t, at + 1, errors, TokenType::Dot, "Expected '.' after 'super'."@);
        match dot.result {
            Ok(_) => {
                let method = consume(
                    t,
                    at + 2,
                    dot.errors,
                    TokenType::Identifier,
                    "Expected superclass method name."@,
                );
                after(
                    2,
                    with(
                        method,
                        match method.result {
                            Ok(name) => Ok(ExprView::Super(peek(t, at), name)),
                            Err(refusal) => Err(refusal),
                        },
                    ),
                )
            },
            Err(refusal) => after(1, with(dot, Err(refusal))),
        }
    } else if stands(t, at, TokenType::Identifier) {
        ok(ExprView::Variable(peek(t, at)), 1, errors)
    } else {
        refuse(t, at, errors, "Expected expression."@)
    }
}

/// The arguments of a call from a position on, after those in `taken`: an
/// expression, then either a comma and more arguments or nothing. There are
/// at most 255.
pub open spec fn arguments_rest(t: Seq<TokenView>, at: nat, errors: Seq<Fault>, taken: Seq<ExprView>) -> Parsed<
    Seq<ExprView>,
>
    decreases remaining(t, at), 85nat,
{
    if taken.len() >= 255 {
        refuse(t, at, errors, "Cannot have more than 255 arguments."@)
    } else {
        let argument = expression(t, at, errors);
        match argument.result {
            Ok(expr) => if stands(t, at + argument.used, TokenType::Comma) {
                after(
                    argument.used + 1,
                    arguments_rest(t, at + argument.used + 1, argument.errors, taken.push(expr)),
                )
            } else {
                with(argument, Ok(taken.push(expr)))
            },
            Err(refusal) => with(argument, Err(refusal)),
        }
    }
}

/// What follows the opening parenthesis of a call.
pub open spec fn finish_call(t: Seq<TokenView>, at: nat, errors: Seq<Fault>, callee: ExprView) -> Parsed<
    ExprView,
>
    decreases remaining(t, at), 86nat,
{
    let arguments = if stands(t, at, TokenType::RightParen) {
        ok(Seq::<ExprView>::empty(), 0, errors)
    } else {
        arguments_rest(t, at, errors, Seq::empty())
    };
    match arguments.result {
        Ok(values) => {
            let paren = consume(
                t,
                at + arguments.used,
                arguments.errors,
                TokenType::RightParen,
                "Expected ')' after arguments."@,
            );
            after(
                arguments.used,
                with(
                    paren,
                    match paren.result {
                        Ok(token) => Ok(ExprView::Call(Box::new(callee), token, values)),
                        Err(refusal) => Err(refusal),
                    },
                ),
            )
        },
        Err(refusal) => with(arguments, Err(refusal)),
    }
}

/// The calls and property accesses that follow an expression.
pub open spec fn call_rest(t: Seq<TokenView>, at: nat, errors: Seq<Fault>, expr: ExprView) -> Parsed<
    ExprView,
>
    decreases remaining(t, at), 42nat,
{
    if stands(t, at, TokenType::LeftParen) {
        let call = finish_call(t, at + 1, errors, expr);
        match call.result {
            Ok(made) => after(1 + call.used, call_rest(t, at + 1 + call.used, call.errors, made)),
            Err(refusal) => after(1, call),
        }
    } else if stands(t, at, TokenType::Dot) {
        let name = consume(
            t,
            at + 1,
            errors,
            TokenType::Identifier,
            "Expected property name after '.'."@,
        );
        match name.result {
            Ok(token) => after(
                2,
                call_rest(t, at + 2, name.errors, ExprView::Get(Box::new(expr), token)),
            ),
            Err(refusal) => after(1, with(name, Err(refusal))),
        }
    } else {
        ok(expr, 0, errors)
    }
}

/// A primary expression with the calls and property accesses behind it.
pub open spec fn call(t: Seq<TokenView>, at: nat, errors: Seq<Fault>) -> Parsed<ExprView>
    decreases remaining(t, at), 43nat,
{
    let first = primary(t, at, errors);
    match first.result {
        Ok(expr) => after(first.used, call_rest(t, at + first.used, first.errors, expr)),
        Err(_) => first,
    }
}

/// A call, behind any number of the prefix operators `!` and `-`.
pub open spec fn unary(t: Seq<TokenView>, at: nat, errors: Seq<Fault>) -> Parsed<ExprView>
    decreases remaining(t, at), 44nat,
{
    if stands(t, at, TokenType::Bang) || stands(t, at, TokenType::Minus) {
        let right = unary(t, at + 1, errors);
        after(
            1,
            with(
                right,
                match right.result {
                    Ok(expr) => Ok(ExprView::Unary(peek(t, at), Box::new(expr))),
                    Err(refusal) => Err(refusal),
                },
            ),
        )
    } else {
        call(t, at, errors)
    }
}

/// An operand of a level of precedence: a chain of the next lower level, or
/// a unary expression below the lowest.
pub open spec fn operand(t: Seq<TokenView>, at: nat, errors: Seq<Fault>, level: nat) -> Parsed<ExprView>
    decreases remaining(t, at), 45 + 3 * level,
{
    if level == 0 {
        unary(t, at, errors)
    } else {
        chain(t, at, errors, (level - 1) as nat)
    }
}

/// The operators of a level and their right operands that follow a left
/// operand: they group to the left.
pub open spec fn chain_rest(
    t: Seq<TokenView>,
    at: nat,
    errors: Seq<Fault>,
    level: nat,
    left: ExprView,
) -> Parsed<ExprView>
    decreases remaining(t, at), 46 + 3 * level,
{
    if !at_end(t, at) && operator_of(level, peek(t, at).ty.ordinal) {
        let right = operand(t, at + 1, errors, level);
        match right.result {
            Ok(expr) => after(
                1 + right.used,
                chain_rest(
                    t,
                    at + 1 + right.used,
                    right.errors,
                    level,
                    joined(level, left, peek(t, at), expr),
                ),
            ),
            Err(refusal) => after(1, right),
        }
    } else {
        ok(left, 0, errors)
    }
}

/// An expression of a level of precedence: operands of that level, joined
/// by its operators.
pub open spec fn chain(t: Seq<TokenView>, at: nat, errors: Seq<Fault>, level: nat) -> Parsed<ExprView>
    decreases remaining(t, at), 47 + 3 * level,
{
    let left = operand(t, at, errors, level);
    match left.result {
        Ok(expr) => after(left.used, chain_rest(t, at + left.used, left.errors, level, expr)),
        Err(_) => left,
    }
}

/// An assignment, or an expression of the level of `or`. Only a variable
/// and a property access can be assigned to.
pub open spec fn assignment(t: Seq<TokenView>, at: nat, errors: Seq<Fault>) -> Parsed<ExprView>
    decreases remaining(t, at), 70nat,
{
    let target = chain(t, at, errors, 5);
    match target.result {
        Ok(expr) => if stands(t, at + target.used, TokenType::Equal) {
            let value = assignment(t, at + target.used + 1, target.errors);
            match value.result {
                Ok(assigned) => match expr {
                    ExprView::Variable(name) => after(
                        target.used + 1,
                        with(value, Ok(ExprView::Assign(name, Box::new(assigned)))),
                    ),
                    ExprView::Get(object, name) => after(
                        target.used + 1,
                        with(value, Ok(ExprView::SetProperty(object, name, Box::new(assigned)))),
                    ),
                    _ => Parsed {
                        result: Err(
                            Refusal {
                                token: peek(t, at + target.used),
                                message: "Invalid assignment target."@,
                            },
                        ),
                        used: target.used + 1 + value.used,
                        errors: value.errors.push(
                            Fault::Syntax(
                                peek(t, at + target.used).position,
                                "Invalid assignment target."@,
                            ),
                        ),
                    },
                },
                Err(refusal) => after(target.used + 1, value),
            }
        } else {
            target
        },
        Err(_) => target,
    }
}

/// An expression: an assignment.
pub open spec fn expression(t: Seq<TokenView>, at: nat, errors: Seq<Fault>) -> Parsed<ExprView>
    decreases remaining(t, at), 71nat,
{
    assignment(t, at, errors)
}

/// An expression and a semicolon.
pub open spec fn expression_statement(t: Seq<TokenView>, at: nat, errors: Seq<Fault>) -> Parsed<StmtView>
    decreases remaining(t, at), 72nat,
{
    let expr = expression(t, at, errors);
    match expr.result {
        Ok(value) => {
            let end = consume(
                t,
                at + expr.used,
                expr.errors,
                TokenType::Semicolon,
                "Expected ';' after expression."@,
            );
            after(
                expr.used,
                with(
                    end,
                    match end.result {
                        Ok(_) => Ok(StmtView::Expression(value)),
                        Err(refusal) => Err(refusal),
                    },
                ),
            )
        },
        Err(refusal) => with(expr, Err(refusal)),
    }
}

/// An optional initializer: `=` and an expression, or nothing.
pub open spec fn initializer(t: Seq<TokenView>, at: nat, errors: Seq<Fault>) -> Parsed<Option<ExprView>>
    decreases remaining(t, at), 72nat,
{
    if stands(t, at, TokenType::Equal) {
        let value = expression(t, at + 1, errors);
        after(
            1,
            with(
                value,
                match value.result {
                    Ok(expr) => Ok(Some(expr)),
                    Err(refusal) => Err(refusal),
                },
            ),
        )
    } else {
        ok(None, 0, errors)
    }
}

/// What follows `var`: an optional `mut`, a name, an optional initializer
/// and a semicolon.
pub open spec fn var_declaration(t: Seq<TokenView>, at: nat, errors: Seq<Fault>) -> Parsed<StmtView>
    decreases remaining(t, at), 73nat,
{
    let mutable = stands(t, at, TokenType::Mut);
    let skip: nat = if mutable {
        1
    } else {
        0
    };
    let name = consume(t, at + skip, errors, TokenType::Identifier, "Expected variable name."@);
    match name.result {
        Ok(token) => {
            let value = initializer(t, at + skip + 1, name.errors);
            match value.result {
                Ok(found) => {
                    let end = consume(
                        t,
                        at + skip + 1 + value.used,
                        value.errors,
                        TokenType::Semicolon,
                        "Expected ';' after variable declaration."@,
                    );
                    after(
                        skip + 1 + value.used,
                        with(
                            end,
                            match end.result {
                                Ok(_) => Ok(
                                    if mutable {
                                        StmtView::VarMut(token, found)
                                    } else {
                                        StmtView::Var(token, found)
                                    },
                                ),
                                Err(refusal) => Err(refusal),
                            },
                        ),
                    )
                },
                Err(refusal) => after(skip + 1, with(value, Err(refusal))),
            }
        },
        Err(refusal) => after(skip, with(name, Err(refusal))),
    }
}

/// The parameters of a function from a position on, after those in `taken`:
/// a name, then either a comma and more parameters or nothing. There are at
/// most 255.
pub open spec fn parameters_rest(t: Seq<TokenView>, at: nat, errors: Seq<Fault>, taken: Seq<TokenView>) -> Parsed<
    Seq<TokenView>,
>
    decreases remaining(t, at),
{
    if taken.len() >= 255 {
        refuse(t, at, errors, "Cannot have more than 255 parameters."@)
    } else {
        let name = consume(t, at, errors, TokenType::Identifier, "Expected parameter name."@);
        match name.result {
            Ok(token) => if stands(t, at + 1, TokenType::Comma) {
                after(2, parameters_rest(t, at + 2, name.errors, taken.push(token)))
            } else {
                with(name, Ok(taken.push(token)))
            },
            Err(refusal) => with(name, Err(refusal)),
        }
    }
}

/// The parameters of a function in parentheses.
pub open spec fn parameters(t: Seq<TokenView>, at: nat, errors: Seq<Fault>, kind: Seq<char>) -> Parsed<
    Seq<TokenView>,
> {
    let open = consume(
        t,
        at,
        errors,
        TokenType::LeftParen,
        "Expected '(' after "@ + kind + " name."@,
    );
    match open.result {
        Ok(_) => {
            let names = if stands(t, at + 1, TokenType::RightParen) {
                ok(Seq::<TokenView>::empty(), 0, open.errors)
            } else {
                parameters_rest(t, at + 1, open.errors, Seq::empty())
            };
            match names.result {
                Ok(found) => {
                    let close = consume(
                        t,
                        at + 1 + names.used,
                        names.errors,
                        TokenType::RightParen,
                        "Expected ')' after parameters."@,
                    );
                    after(
                        1 + names.used,
                        with(
                            close,
                            match close.result {
                                Ok(_) => Ok(found),
                                Err(refusal) => Err(refusal),
                            },
                        ),
                    )
                },
                Err(refusal) => after(1, names),
            }
        },
        Err(refusal) => with(open, Err(refusal)),
    }
}

/// What follows `fn`, or stands for a method: a name, the parameters in
/// parentheses, and a block.
pub open spec fn function_declaration(t: Seq<TokenView>, at: nat, errors: Seq<Fault>, kind: Seq<char>) -> Parsed<
    StmtView,
>
    decreases remaining(t, at), 74nat,
{
    let name = consume(t, at, errors, TokenType::Identifier, "Expected "@ + kind + " name."@);
    match name.result {
        Ok(token) => {
            let names = parameters(t, at + 1, name.errors, kind);
            match names.result {
                Ok(found) => {
                    let body = block_statement(t, at + 1 + names.used, names.errors);
                    after(
                        1 + names.used,
                        with(
                            body,
                            match body.result {
                                Ok(block) => Ok(StmtView::Function(token, found, Box::new(block))),
                                Err(refusal) => Err(refusal),
                            },
                        ),
                    )
                },
                Err(refusal) => after(1, with(names, Err(refusal))),
            }
        },
        Err(refusal) => with(name, Err(refusal)),
    }
}

/// The methods of a class from a position on, after those in `taken`, up to
/// the closing brace or the end.
pub open spec fn methods_rest(t: Seq<TokenView>, at: nat, errors: Seq<Fault>, taken: Seq<StmtView>) -> Parsed<
    Seq<StmtView>,
>
    decreases remaining(t, at), 75nat,
{
    if !stands(t, at, TokenType::RightBrace) && !at_end(t, at) {
        let method = function_declaration(t, at, errors, "method"@);
        match method.result {
            Ok(function) => if method.used > 0 {
                after(
                    method.used,
                    methods_rest(t, at + method.used, method.errors, taken.push(function)),
                )
            } else {
                with(method, Ok(taken.push(function)))
            },
            Err(refusal) => with(method, Err(refusal)),
        }
    } else {
        ok(taken, 0, errors)
    }
}

/// An optional superclass: `<` and a name, or nothing.
pub open spec fn superclass(t: Seq<TokenView>, at: nat, errors: Seq<Fault>) -> Parsed<Option<ExprView>> {
    if stands(t, at, TokenType::Less) {
        let parent = consume(
            t,
            at + 1,
            errors,
            TokenType::Identifier,
            "Expected superclass name."@,
        );
        after(
            1,
            with(
                parent,
                match parent.result {
                    Ok(found) => Ok(Some(ExprView::Variable(found))),
                    Err(refusal) => Err(refusal),
                },
            ),
        )
    } else {
        ok(None, 0, errors)
    }
}

/// The body of a class: the methods in braces.
pub open spec fn class_body(t: Seq<TokenView>, at: nat, errors: Seq<Fault>) -> Parsed<Seq<StmtView>>
    decreases remaining(t, at), 76nat,
{
    let open = consume(t, at, errors, TokenType::LeftBrace, "Expected '{' before class body."@);
    match open.result {
        Ok(_) => {
            let methods = methods_rest(t, at + 1, open.errors, Seq::empty());
            match methods.result {
                Ok(functions) => {
                    let close = consume(
                        t,
                        at + 1 + methods.used,
                        methods.errors,
                        TokenType::RightBrace,
                        "Expected '}' after class body."@,
                    );
                    after(
                        1 + methods.used,
                        with(
                            close,
                            match close.result {
                                Ok(_) => Ok(functions),
                                Err(refusal) => Err(refusal),
                            },
                        ),
                    )
                },
                Err(refusal) => after(1, methods),
            }
        },
        Err(refusal) => with(open, Err(refusal)),
    }
}

/// What follows `class`: a name, an optional superclass after `<`, and the
/// methods in braces.
pub open spec fn class_declaration(t: Seq<TokenView>, at: nat, errors: Seq<Fault>) -> Parsed<StmtView>
    decreases remaining(t, at), 77nat,
{
    let name = consume(t, at, errors, TokenType::Identifier, "Expected class name."@);
    match name.result {
        Ok(token) => {
            let parent = superclass(t, at + 1, name.errors);
            match parent.result {
                Ok(found) => {
                    let body = class_body(t, at + 1 + parent.used, parent.errors);
                    after(
                        1 + parent.used,
                        with(
                            body,
                            match body.result {
                                Ok(functions) => Ok(StmtView::Class(token, found, functions)),
                                Err(refusal) => Err(refusal),
                            },
                        ),
                    )
                },
                Err(refusal) => after(1, with(parent, Err(refusal))),
            }
        },
        Err(refusal) => with(name, Err(refusal)),
    }
}

/// A block: declarations in braces.
pub open spec fn block_statement(t: Seq<TokenView>, at: nat, errors: Seq<Fault>) -> Parsed<StmtView>
    decreases remaining(t, at), 73nat,
{
    let open = consume(t, at, errors, TokenType::LeftBrace, "Expected '{' before block."@);
    match open.result {
        Ok(_) => {
            let body = block_rest(t, at + 1, open.errors, Seq::empty());
            let close = consume(
                t,
                at + 1 + body.used,
                body.errors,
                TokenType::RightBrace,
                "Expected '}' after block."@,
            );
            after(
                1 + body.used,
                with(
                    close,
                    match close.result {
                        Ok(_) => Ok(StmtView::Block(body.value)),
                        Err(refusal) => Err(refusal),
                    },
                ),
            )
        },
        Err(refusal) => with(open, Err(refusal)),
    }
}

/// The statements with what a declaration left, if it left one.
pub open spec fn gathered(taken: Seq<StmtView>, left: Option<StmtView>) -> Seq<StmtView> {
    match left {
        Some(statement) => taken.push(statement),
        None => taken,
    }
}

/// The declarations of a block from a position on, after those in `taken`,
/// up to the closing brace or the end. A declaration that was refused leaves
/// no statement.
pub open spec fn block_rest(t: Seq<TokenView>, at: nat, errors: Seq<Fault>, taken: Seq<StmtView>) -> Gathered<
    Seq<StmtView>,
>
    decreases remaining(t, at), 95nat,
{
    if !stands(t, at, TokenType::RightBrace) && !at_end(t, at) {
        let next = declaration(t, at, errors);
        if next.used > 0 {
            later(
                next.used,
                block_rest(t, at + next.used, next.errors, gathered(taken, next.value)),
            )
        } else {
            Gathered { value: gathered(taken, next.value), used: next.used, errors: next.errors }
        }
    } else {
        Gathered { value: taken, used: 0, errors }
    }
}

/// How many tokens recovery skips from a position on: up to the end, or to
/// just behind a semicolon, or to a token that begins a declaration or a
/// statement.
pub open spec fn skipped(t: Seq<TokenView>, at: nat) -> nat
    decreases remaining(t, at),
{
    if at_end(t, at) {
        0
    } else if previous(t, at).ty.ordinal == TokenType::Semicolon@.ordinal {
        0
    } else if begins_statement(peek(t, at).ty.ordinal) {
        0
    } else {
        1 + skipped(t, at + 1)
    }
}

/// Whether a kind of token begins a declaration or a statement, so that
/// recovery stops before it.
pub open spec fn begins_statement(ordinal: int) -> bool {
    ordinal == TokenType::Class@.ordinal || ordinal == TokenType::Fn@.ordinal || ordinal
        == TokenType::Var@.ordinal || ordinal == TokenType::For@.ordinal || ordinal
        == TokenType::If@.ordinal || ordinal == TokenType::While@.ordinal || ordinal
        == TokenType::Return@.ordinal
}

/// How many tokens recovery takes from a position on: one, unless the end
/// stands there, and then what it skips.
pub open spec fn synchronized(t: Seq<TokenView>, at: nat) -> nat {
    (advanced(t, at) - at + skipped(t, advanced(t, at))) as nat
}

/// How many tokens a refused rule and the recovery from it take together.
pub open spec fn recovered<T>(t: Seq<TokenView>, at: nat, p: Parsed<T>) -> nat {
    p.used + synchronized(t, at + p.used)
}

/// A declaration as such: a class, a function or a variable, each after its
/// keyword, or a statement.
pub open spec fn declared(t: Seq<TokenView>, at: nat, errors: Seq<Fault>) -> Parsed<StmtView>
    decreases remaining(t, at), 89nat,
{
    if stands(t, at, TokenType::Class) {
        after(1, class_declaration(t, at + 1, errors))
    } else if stands(t, at, TokenType::Fn) {
        after(1, function_declaration(t, at + 1, errors, "function"@))
    } else if stands(t, at, TokenType::Var) {
        after(1, var_declaration(t, at + 1, errors))
    } else {
        statement(t, at, errors)
    }
}

/// A declaration, with recovery: where it is refused, the parser recovers
/// from where it stands then, and the declaration leaves no statement.
pub open spec fn declaration(t: Seq<TokenView>, at: nat, errors: Seq<Fault>) -> Gathered<
    Option<StmtView>,
>
    decreases remaining(t, at), 90nat,
{
    let parsed = declared(t, at, errors);
    match parsed.result {
        Ok(found) => Gathered { value: Some(found), used: parsed.used, errors: parsed.errors },
        Err(_) => Gathered { value: None, used: recovered(t, at, parsed), errors: parsed.errors },
    }
}

/// A statement that is its keyword and a semicolon.
pub open spec fn bare_statement(
    t: Seq<TokenView>,
    at: nat,
    errors: Seq<Fault>,
    statement: StmtView,
    message: Seq<char>,
) -> Parsed<StmtView> {
    let end = consume(t, at, errors, TokenType::Semicolon, message);
    with(
        end,
        match end.result {
            Ok(_) => Ok(statement),
            Err(refusal) => Err(refusal),
        },
    )
}

/// A statement: by its keyword a `return`, `break`, `continue`, `for`, `if`
/// or `while`; behind an opening brace a block; else an expression statement.
pub open spec fn statement(t: Seq<TokenView>, at: nat, errors: Seq<Fault>) -> Parsed<StmtView>
    decreases remaining(t, at), 80nat,
{
    if stands(t, at, TokenType::Return) {
        after(1, return_statement(t, at + 1, errors))
    } else if stands(t, at, TokenType::Break) {
        after(
            1,
            bare_statement(
                t,
                at + 1,
                errors,
                StmtView::Break,
                "Expected ';' after 'break' statement."@,
            ),
        )
    } else if stands(t, at, TokenType::Continue) {
        after(
            1,
            bare_statement(
                t,
                at + 1,
                errors,
                StmtView::Continue,
                "Expected ';' after continue statement."@,
            ),
        )
    } else if stands(t, at, TokenType::For) {
        after(1, for_statement(t, at + 1, errors))
    } else if stands(t, at, TokenType::If) {
        after(1, if_statement(t, at + 1, errors))
    } else if stands(t, at, TokenType::While) {
        after(1, while_statement(t, at + 1, errors))
    } else if stands(t, at, TokenType::LeftBrace) {
        block_statement(t, at, errors)
    } else {
        expression_statement(t, at, errors)
    }
}

/// An expression, unless a token of the kind `stop` stands there.
pub open spec fn optional_expression(t: Seq<TokenView>, at: nat, errors: Seq<Fault>, stop: TokenType) -> Parsed<
    Option<ExprView>,
>
    decreases remaining(t, at), 72nat,
{
    if !stands(t, at, stop) {
        let expr = expression(t, at, errors);
        with(
            expr,
            match expr.result {
                Ok(found) => Ok(Some(found)),
                Err(refusal) => Err(refusal),
            },
        )
    } else {
        ok(None, 0, errors)
    }
}

/// What follows `return`: an optional value and a semicolon.
pub open spec fn return_statement(t: Seq<TokenView>, at: nat, errors: Seq<Fault>) -> Parsed<StmtView>
    decreases remaining(t, at), 73nat,
{
    let value = optional_expression(t, at, errors, TokenType::Semicolon);
    match value.result {
        Ok(found) => {
            let end = consume(
                t,
                at + value.used,
                value.errors,
                TokenType::Semicolon,
                "Expected ';' after return value."@,
            );
            after(
                value.used,
                with(
                    end,
                    match end.result {
                        Ok(_) => Ok(StmtView::Return(previous(t, at), found)),
                        Err(refusal) => Err(refusal),
                    },
                ),
            )
        },
        Err(refusal) => with(value, Err(refusal)),
    }
}

/// What follows `while`: a condition and a block.
pub open spec fn while_statement(t: Seq<TokenView>, at: nat, errors: Seq<Fault>) -> Parsed<StmtView>
    decreases remaining(t, at), 74nat,
{
    let condition = expression(t, at, errors);
    match condition.result {
        Ok(expr) => {
            let body = block_statement(t, at + condition.used, condition.errors);
            after(
                condition.used,
                with(
                    body,
                    match body.result {
                        Ok(block) => Ok(StmtView::While(expr, Box::new(block))),
                        Err(refusal) => Err(refusal),
                    },
                ),
            )
        },
        Err(refusal) => with(condition, Err(refusal)),
    }
}

/// An optional `else` branch: `else` with another `if` or with a block, or
/// nothing.
pub open spec fn else_branch(t: Seq<TokenView>, at: nat, errors: Seq<Fault>) -> Parsed<
    Option<Box<StmtView>>,
>
    decreases remaining(t, at), 82nat,
{
    if stands(t, at, TokenType::Else) {
        let branch = if stands(t, at + 1, TokenType::If) {
            after(1, if_statement(t, at + 2, errors))
        } else {
            block_statement(t, at + 1, errors)
        };
        after(
            1,
            with(
                branch,
                match branch.result {
                    Ok(found) => Ok(Some(Box::new(found))),
                    Err(refusal) => Err(refusal),
                },
            ),
        )
    } else {
        ok(None, 0, errors)
    }
}

/// What follows `if`: a condition, a statement, and optionally `else` with
/// another `if` or a block.
pub open spec fn if_statement(t: Seq<TokenView>, at: nat, errors: Seq<Fault>) -> Parsed<StmtView>
    decreases remaining(t, at), 83nat,
{
    let condition = expression(t, at, errors);
    match condition.result {
        Ok(expr) => {
            let then_branch = statement(t, at + condition.used, condition.errors);
            match then_branch.result {
                Ok(then_stmt) => {
                    let other = else_branch(
                        t,
                        at + condition.used + then_branch.used,
                        then_branch.errors,
                    );
                    after(
                        condition.used + then_branch.used,
                        with(
                            other,
                            match other.result {
                                Ok(found) => Ok(StmtView::If(expr, Box::new(then_stmt), found)),
                                Err(refusal) => Err(refusal),
                            },
                        ),
                    )
                },
                Err(refusal) => after(condition.used, then_branch),
            }
        },
        Err(refusal) => with(condition, Err(refusal)),
    }
}

/// The loop that a `for` stands for: the body, followed by the increment if
/// there is one, runs while the condition holds, which is `true` if there is
/// none; the initializer, if there is one, comes first, in a block around
/// the loop.
pub open spec fn desugared(
    initializer: Option<StmtView>,
    condition: Option<ExprView>,
    increment: Option<ExprView>,
    body: StmtView,
) -> StmtView {
    let stepped = match increment {
        Some(expr) => StmtView::Block(seq![body, StmtView::Expression(expr)]),
        None => body,
    };
    let looped = StmtView::While(
        match condition {
            Some(expr) => expr,
            None => ExprView::Literal(LiteralView::Bool(true)),
        },
        Box::new(stepped),
    );
    match initializer {
        Some(first) => StmtView::Block(seq![first, looped]),
        None => looped,
    }
}

/// The first clause of a `for`: a semicolon alone, a variable declaration,
/// or an expression statement.
pub open spec fn for_initializer(t: Seq<TokenView>, at: nat, errors: Seq<Fault>) -> Parsed<
    Option<StmtView>,
>
    decreases remaining(t, at), 74nat,
{
    if stands(t, at, TokenType::Semicolon) {
        ok(None, 1, errors)
    } else {
        let first = if stands(t, at, TokenType::Var) {
            after(1, var_declaration(t, at + 1, errors))
        } else {
            expression_statement(t, at, errors)
        };
        with(
            first,
            match first.result {
                Ok(found) => Ok(Some(found)),
                Err(refusal) => Err(refusal),
            },
        )
    }
}

/// The second and third clause of a `for`: an optional condition, a
/// semicolon, an optional increment and the closing parenthesis.
pub open spec fn for_clauses(t: Seq<TokenView>, at: nat, errors: Seq<Fault>) -> Parsed<
    (Option<ExprView>, Option<ExprView>),
>
    decreases remaining(t, at), 74nat,
{
    let condition = optional_expression(t, at, errors, TokenType::Semicolon);
    match condition.result {
        Ok(test) => {
            let separator = consume(
                t,
                at + condition.used,
                condition.errors,
                TokenType::Semicolon,
                "Expected ';' after loop condition."@,
            );
            match separator.result {
                Ok(_) => {
                    let increment = optional_expression(
                        t,
                        at + condition.used + 1,
                        separator.errors,
                        TokenType::RightParen,
                    );
                    match increment.result {
                        Ok(step) => {
                            let close = consume(
                                t,
                                at + condition.used + 1 + increment.used,
                                increment.errors,
                                TokenType::RightParen,
                                "Expected ')' after for clauses."@,
                            );
                            after(
                                condition.used + 1 + increment.used,
                                with(
                                    close,
                                    match close.result {
                                        Ok(_) => Ok((test, step)),
                                        Err(refusal) => Err(refusal),
                                    },
                                ),
                            )
                        },
                        Err(refusal) => after(
                            condition.used + 1,
                            with(increment, Err(refusal)),
                        ),
                    }
                },
                Err(refusal) => after(condition.used, with(separator, Err(refusal))),
            }
        },
        Err(refusal) => with(condition, Err(refusal)),
    }
}

/// What follows `for`: in parentheses an initializer, an optional condition,
/// a semicolon and an optional increment; then a block.
pub open spec fn for_statement(t: Seq<TokenView>, at: nat, errors: Seq<Fault>) -> Parsed<StmtView>
    decreases remaining(t, at), 75nat,
{
    let open = consume(t, at, errors, TokenType::LeftParen, "Expected '(' after 'for'."@);
    match open.result {
        Ok(_) => {
            let first = for_initializer(t, at + 1, open.errors);
            match first.result {
                Ok(initializer) => {
                    let clauses = for_clauses(t, at + 1 + first.used, first.errors);
                    match clauses.result {
                        Ok(found) => {
                            let body = block_statement(
                                t,
                                at + 1 + first.used + clauses.used,
                                clauses.errors,
                            );
                            after(
                                1 + first.used + clauses.used,
                                with(
                                    body,
                                    match body.result {
                                        Ok(block) => Ok(
                                            desugared(initializer, found.0, found.1, block),
                                        ),
                                        Err(refusal) => Err(refusal),
                                    },
                                ),
                            )
                        },
                        Err(refusal) => after(1 + first.used, with(clauses, Err(refusal))),
                    }
                },
                Err(refusal) => after(1, with(first, Err(refusal))),
            }
        },
        Err(refusal) => with(open, Err(refusal)),
    }
}

/// The statements of a program from a position on, after those in `taken`,
/// up to the end, with every diagnostic on the way.
pub open spec fn program(t: Seq<TokenView>, at: nat, errors: Seq<Fault>, taken: Seq<StmtView>) -> Gathered<
    Seq<StmtView>,
>
    decreases remaining(t, at),
{
    if !at_end(t, at) {
        let next = declaration(t, at, errors);
        if next.used > 0 {
            later(next.used, program(t, at + next.used, next.errors, gathered(taken, next.value)))
        } else {
            Gathered { value: gathered(taken, next.value), used: next.used, errors: next.errors }
        }
    } else {
        Gathered { value: taken, used: 0, errors }
    }
}

} // verus!
