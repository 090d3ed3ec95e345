use vstd::prelude::*;
use crate::ast::StmtView;
use crate::error::Fault;
use crate::grammar::{
    at_end, block_statement, class_declaration, declaration, declared, function_declaration,
    methods_rest, program, statement,
};
use crate::host::Oracle;
use crate::lexer::{line_end, past_digits, past_name, scan_all, scan_token, string_end, Scan};
use crate::token::{TokenType, TokenView};

verus! {

/// Whether no token of a sequence is the token of the end.
pub open spec fn without_end(tokens: Seq<TokenView>) -> bool {
    forall|i: int| 0 <= i < tokens.len() ==> (#[trigger] tokens[i]).ty.ordinal != TokenType::Eof@.ordinal
}

proof fn digits_stay_inside(src: Seq<char>, at: nat)
    requires
        at <= src.len(),
    ensures
        at <= past_digits(src, at) <= src.len(),
    decreases src.len() - at,
{
    if at < src.len() && crate::lexer::digit(src[at as int]) {
        digits_stay_inside(src, at + 1);
    }
}

proof fn name_stays_inside(src: Seq<char>, at: nat)
    requires
        at <= src.len(),
    ensures
        at <= past_name(src, at) <= src.len(),
    decreases src.len() - at,
{
    if at < src.len() && crate::lexer::continues_name(src[at as int]) {
        name_stays_inside(src, at + 1);
    }
}

proof fn line_stays_inside(src: Seq<char>, at: nat)
    requires
        at <= src.len(),
    ensures
        at <= line_end(src, at) <= src.len(),
    decreases src.len() - at,
{
    if at < src.len() && src[at as int] != '\n' {
        line_stays_inside(src, at + 1);
    }
}

proof fn string_stays_inside(src: Seq<char>, at: nat, line: nat, line_start: nat)
    requires
        at <= src.len(),
    ensures
        at <= string_end(src, at, line, line_start).0 <= src.len(),
    decreases src.len() - at,
{
    if at < src.len() && src[at as int] != '"' {
        if src[at as int] == '\n' {
            string_stays_inside(src, at + 1, line + 1, at + 1);
        } else {
            string_stays_inside(src, at + 1, line, line_start);
        }
    }
}

/// Reading what stands at a position goes on by at least one character,
/// stays inside the source text, and adds no token of the end.
pub proof fn scanning_goes_on(oracle: Oracle, src: Seq<char>, file: Seq<char>, s: Scan)
    requires
        s.at < src.len(),
        without_end(s.tokens),
    ensures
        s.at < scan_token(oracle, src, file, s).at <= src.len(),
        without_end(scan_token(oracle, src, file, s).tokens),
{
    let next = s.at + 1;
    digits_stay_inside(src, next);
    digits_stay_inside(src, s.at);
    let whole = past_digits(src, s.at);
    if whole + 1 <= src.len() {
        digits_stay_inside(src, whole + 1);
    }
    name_stays_inside(src, next);
    if next + 1 <= src.len() {
        line_stays_inside(src, next + 1);
    }
    string_stays_inside(src, next, s.line, s.line_start);
    let after = scan_token(oracle, src, file, s);
    assert forall|i: int| 0 <= i < after.tokens.len() implies (#[trigger] after.tokens[i]).ty.ordinal
        != TokenType::Eof@.ordinal by {
        if i < s.tokens.len() {
            assert(after.tokens[i] == s.tokens[i]);
        }
    }
}

/// The tokens of a source text end with the token of the end, and hold no
/// other token of the end.
pub proof fn tokens_end_with_one_end_token(oracle: Oracle, src: Seq<char>, file: Seq<char>, s: Scan)
    requires
        s.at <= src.len(),
        without_end(s.tokens),
    ensures
        ({
            let tokens = scan_all(oracle, src, file, s).tokens;
            &&& tokens.len() > 0
            &&& tokens.last().ty == TokenType::Eof@
            &&& without_end(tokens.drop_last())
        }),
    decreases src.len() - s.at,
{
    if s.at < src.len() {
        scanning_goes_on(oracle, src, file, s);
        tokens_end_with_one_end_token(oracle, src, file, scan_token(oracle, src, file, s));
    } else {
        let tokens = scan_all(oracle, src, file, s).tokens;
        assert(tokens.drop_last() =~= s.tokens);
    }
}

proof fn accepted_block_takes_tokens(t: Seq<TokenView>, at: nat, errors: Seq<Fault>)
    ensures
        block_statement(t, at, errors).result.is_ok() ==> block_statement(t, at, errors).used > 0,
{
}

proof fn accepted_statement_takes_tokens(t: Seq<TokenView>, at: nat, errors: Seq<Fault>)
    ensures
        statement(t, at, errors).result.is_ok() ==> statement(t, at, errors).used > 0,
{
    accepted_block_takes_tokens(t, at, errors);
}

proof fn accepted_declaration_takes_tokens(t: Seq<TokenView>, at: nat, errors: Seq<Fault>)
    ensures
        declared(t, at, errors).result.is_ok() ==> declared(t, at, errors).used > 0,
{
    accepted_statement_takes_tokens(t, at, errors);
}

/// A declaration that does not begin at the end takes at least one token,
/// whether it is accepted or refused.
pub proof fn declarations_go_on(t: Seq<TokenView>, at: nat, errors: Seq<Fault>)
    requires
        !at_end(t, at),
    ensures
        declaration(t, at, errors).used > 0,
{
    accepted_declaration_takes_tokens(t, at, errors);
    let parsed = declared(t, at, errors);
    if parsed.result.is_err() && parsed.used == 0 {
        assert(crate::grammar::synchronized(t, at) > 0);
    }
}

/// A parse reads the whole program: it ends where the token of the end
/// stands, or where the tokens have run out.
pub proof fn parse_reads_to_the_end(t: Seq<TokenView>, at: nat, errors: Seq<Fault>, taken: Seq<StmtView>)
    ensures
        at_end(t, at + program(t, at, errors, taken).used),
    decreases crate::grammar::remaining(t, at),
{
    if !at_end(t, at) {
        declarations_go_on(t, at, errors);
        let next = declaration(t, at, errors);
        parse_reads_to_the_end(
            t,
            at + next.used,
            next.errors,
            crate::grammar::gathered(taken, next.value),
        );
    }
}

/// Whether a statement declares a function whose body is a block.
pub open spec fn declares_function(statement: StmtView) -> bool {
    statement matches StmtView::Function(_, _, body) && *body is Block
}

/// Whether every statement of a sequence declares a function whose body is
/// a block.
pub open spec fn all_declare_functions(statements: Seq<StmtView>) -> bool {
    forall|i: int| 0 <= i < statements.len() ==> declares_function(#[trigger] statements[i])
}

/// What the parser accepts as a function is a function whose body is a
/// block.
pub proof fn parsed_functions_have_blocks(t: Seq<TokenView>, at: nat, errors: Seq<Fault>, kind: Seq<char>)
    ensures
        function_declaration(t, at, errors, kind).result matches Ok(function) ==> declares_function(
            function,
        ),
{
    let name = crate::grammar::consume(
        t,
        at,
        errors,
        TokenType::Identifier,
        "Expected "@ + kind + " name."@,
    );
    if name.result.is_ok() {
        let names = crate::grammar::parameters(t, at + 1, name.errors, kind);
        if names.result.is_ok() {
            let body = block_statement(t, at + 1 + names.used, names.errors);
            assert(body.result matches Ok(block) ==> block is Block);
        }
    }
}

/// What the parser accepts as the methods of a class are functions whose
/// bodies are blocks.
pub proof fn parsed_methods_are_functions(t: Seq<TokenView>, at: nat, errors: Seq<Fault>, taken: Seq<StmtView>)
    requires
        all_declare_functions(taken),
    ensures
        methods_rest(t, at, errors, taken).result matches Ok(methods) ==> all_declare_functions(
            methods,
        ),
    decreases crate::grammar::remaining(t, at),
{
    if !crate::grammar::stands(t, at, TokenType::RightBrace) && !at_end(t, at) {
        let method = function_declaration(t, at, errors, "method"@);
        parsed_functions_have_blocks(t, at, errors, "method"@);
        match method.result {
            Ok(function) => {
                let next = taken.push(function);
                assert forall|i: int| 0 <= i < next.len() implies declares_function(
                    #[trigger] next[i],
                ) by {
                    if i < taken.len() {
                        assert(next[i] == taken[i]);
                    }
                }
                if method.used > 0 {
                    parsed_methods_are_functions(t, at + method.used, method.errors, next);
                }
            },
            Err(_) => {},
        }
    }
}

/// What the parser accepts as a class is a class whose methods are
/// functions with blocks for their bodies.
pub proof fn parsed_classes_hold_functions(t: Seq<TokenView>, at: nat, errors: Seq<Fault>)
    ensures
        class_declaration(t, at, errors).result matches Ok(StmtView::Class(_, _, methods))
            ==> all_declare_functions(methods),
{
    let name = crate::grammar::consume(t, at, errors, TokenType::Identifier, "Expected class name."@);
    if name.result.is_ok() {
        let parent = crate::grammar::superclass(t, at + 1, name.errors);
        if parent.result.is_ok() {
            let from = at + 1 + parent.used;
            let open = crate::grammar::consume(
                t,
                from,
                parent.errors,
                TokenType::LeftBrace,
                "Expected '{' before class body."@,
            );
            if open.result.is_ok() {
                parsed_methods_are_functions(t, from + 1, open.errors, Seq::empty());
            }
        }
    }
}

} // verus!
