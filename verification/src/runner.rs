use vstd::prelude::*;
use vstd::string::*;
use crate::ast::{stmt_views, token_views, Stmt, StmtView};
use crate::class::ClassType;
use crate::error::{Fault, HezenError, HezenErrorList, Place};
use crate::function::FunctionType;
use crate::grammar::program;
use crate::host::{agrees, dialogue, extends, Host, Link, Oracle, Request};
use crate::interpreter::{initial_memory, Interpreter};
use crate::lexer::{scanned, Lexer};
use crate::parser::Parser;
use crate::printer::{stmt_text, tokens_text};
use crate::resolver::{resolve_program, Resolution, Resolver};
use crate::semantics::{interpret_from, Machine};
use crate::table::to_map;
use crate::text::{decimal, decimal_text};
use crate::token::{Token, TokenView};

verus! {

/// What a run reports besides its output: the tokens, the syntax tree, the
/// distance table.
#[derive(Clone, Copy, Debug, PartialEq, Eq, Structural)]
pub struct Verbosity {
    pub lexer: bool,
    pub intermediate: bool,
    pub resolver: bool,
}

/// The verbosity of a level: from 1 on the syntax tree is reported, from 2
/// on the distance table too, from 3 on the tokens too.
pub fn get_verbosity(level: Option<u8>) -> (r: Verbosity)
    ensures
        r == (match level {
            Some(level) => Verbosity { lexer: level > 2, intermediate: level > 0, resolver: level > 1 },
            None => Verbosity { lexer: false, intermediate: false, resolver: false },
        }),
{
    let mut v = Verbosity { lexer: false, intermediate: false, resolver: false };
    match level {
        Some(level) => {
            if level > 0 {
                v.intermediate = true;
            }
            if level > 1 {
                v.resolver = true;
            }
            if level > 2 {
                v.lexer = true;
            }
        },
        None => {},
    }
    v
}

/// The resolution that a program is resolved from, given the distance table
/// so far.
pub open spec fn resolution_of(locals: Map<TokenView, usize>) -> Resolution {
    Resolution {
        scopes: Seq::empty(),
        current_function: FunctionType::TopLevel,
        current_class: ClassType::NoClass,
        locals,
        errors: Seq::empty(),
    }
}

/// The questions to the host after the statements from position `i` on were
/// written, each on a line of its own.
pub open spec fn tree_written(oracle: Oracle, asked: Seq<Request>, statements: Seq<Stmt>, i: int) -> Seq<
    Request,
>
    decreases statements.len() - i,
{
    if 0 <= i < statements.len() {
        let (shown, text) = stmt_text(oracle, asked, statements[i]);
        tree_written(oracle, shown.push(Request::Write(text + "\n"@)), statements, i + 1)
    } else {
        asked
    }
}

/// The line that reports an entry of the distance table: the name, the
/// distance, and the line and column of the occurrence.
pub open spec fn entry_text(entry: (TokenView, usize)) -> Seq<char> {
    entry.0.lexeme + ": "@ + decimal_text(entry.1 as nat) + ", at "@ + decimal_text(
        entry.0.position.line as nat,
    ) + ":"@ + decimal_text(entry.0.position.column as nat) + "\n"@
}

/// The questions to the host after the entries of the distance table from
/// position `i` on were written.
pub open spec fn table_written(asked: Seq<Request>, listing: Seq<(TokenView, usize)>, i: int) -> Seq<
    Request,
>
    decreases listing.len() - i,
{
    if 0 <= i < listing.len() {
        table_written(asked.push(Request::Write(entry_text(listing[i]))), listing, i + 1)
    } else {
        asked
    }
}

/// What running statements does: they are resolved, and unless that
/// reported errors they are interpreted. Errors of the resolver end the run
/// with all of them, an error of the interpreter with that one. A verbose
/// run writes the distance table after the resolution, entry by entry as
/// `listing` has them.
pub open spec fn performed(
    oracle: Oracle,
    before: Machine,
    statements: Seq<Stmt>,
    fuel: nat,
    verbose: bool,
    listing: Seq<(TokenView, usize)>,
) -> (Machine, Result<(), Seq<Fault>>) {
    let resolved = resolve_program(
        resolution_of(before.locals).begin_scope(),
        statements,
        0,
    ).end_scope();
    let ready = Machine {
        locals: resolved.locals,
        asked: if verbose {
            table_written(before.asked, listing, 0)
        } else {
            before.asked
        },
        ..before
    };
    if resolved.errors.len() > 0 {
        (ready, Err(resolved.errors))
    } else {
        let (after, outcome) = interpret_from(oracle, ready, statements, 0, fuel);
        (
            after,
            match outcome {
                Ok(_) => Ok(()),
                Err(fault) => Err(seq![fault]),
            },
        )
    }
}

/// That a listing is one of the distance table that resolving statements
/// gives: it stands for the same map.
pub open spec fn lists(listing: Seq<(TokenView, usize)>, locals: Map<TokenView, usize>, statements: Seq<Stmt>) -> bool {
    to_map(listing) == resolve_program(
        resolution_of(locals).begin_scope(),
        statements,
        0,
    ).end_scope().locals
}

/// What the tokens of a source text parse to: the syntax errors, those of
/// the scan or else those of the parse, or the views of the statements.
pub open spec fn parsed_from(
    oracle: Oracle,
    file: Seq<char>,
    source: Seq<char>,
    asked: Seq<Request>,
    tokens: Seq<Token>,
) -> Result<Seq<StmtView>, Seq<Fault>> {
    let scan = scanned(oracle, source, file, Seq::empty(), asked);
    if scan.errors.len() > 0 {
        Err(scan.errors)
    } else {
        let parsed = program(token_views(tokens), 0, Seq::empty(), Seq::empty());
        if parsed.errors.len() > 0 {
            Err(parsed.errors)
        } else {
            Ok(parsed.value)
        }
    }
}

/// The questions put to the host by the time a source text was read: those
/// of the scan, and in a verbose reading the writing of the tokens, unless
/// the scan reported errors.
pub open spec fn asked_by_reading(
    oracle: Oracle,
    file: Seq<char>,
    source: Seq<char>,
    asked: Seq<Request>,
    verbose: bool,
    tokens: Seq<Token>,
) -> Seq<Request> {
    let scan = scanned(oracle, source, file, Seq::empty(), asked);
    if scan.errors.len() == 0 && verbose {
        let (shown, text) = tokens_text(oracle, scan.asked, tokens, 0);
        shown.push(Request::Write("Tokens: "@ + text + "\n"@))
    } else {
        scan.asked
    }
}

/// What reading a source text gives, given the tokens that were read from
/// it: the questions put to the host by then, and what the tokens parse to.
pub open spec fn loaded(
    oracle: Oracle,
    file: Seq<char>,
    source: Seq<char>,
    asked: Seq<Request>,
    verbose: bool,
    tokens: Seq<Token>,
) -> (Seq<Request>, Result<Seq<StmtView>, Seq<Fault>>) {
    (
        asked_by_reading(oracle, file, source, asked, verbose, tokens),
        parsed_from(oracle, file, source, asked, tokens),
    )
}

/// That tokens are those of a source text.
pub open spec fn scanned_to(oracle: Oracle, file: Seq<char>, source: Seq<char>, asked: Seq<Request>, tokens: Seq<Token>) -> bool {
    token_views(tokens) == scanned(oracle, source, file, Seq::empty(), asked).tokens
}

/// What running a source text does, given the tokens that were read from
/// it, the statements that were parsed from them and a listing of the
/// distance table: unless reading reported errors, which end the run, the
/// statements are run. A verbose run writes the statements before it runs
/// them.
pub open spec fn ran(
    oracle: Oracle,
    file: Seq<char>,
    source: Seq<char>,
    fuel: nat,
    verbosity: Verbosity,
    before: Machine,
    tokens: Seq<Token>,
    statements: Seq<Stmt>,
    listing: Seq<(TokenView, usize)>,
) -> (Machine, Result<(), Seq<Fault>>) {
    let (asked, read) = loaded(oracle, file, source, before.asked, verbosity.lexer, tokens);
    match read {
        Err(faults) => (Machine { asked, ..before }, Err(faults)),
        Ok(_) => performed(
            oracle,
            Machine {
                asked: if verbosity.intermediate {
                    tree_written(oracle, asked.push(Request::Write("AST:\n"@)), statements, 0)
                } else {
                    asked
                },
                ..before
            },
            statements,
            fuel,
            verbosity.resolver,
            listing,
        ),
    }
}

/// That tokens, statements and a listing are those of a source text: the
/// tokens are what the text scans to, the statements what the tokens parse
/// to, and the listing one of the distance table that resolving them gives.
pub open spec fn read_from(
    oracle: Oracle,
    file: Seq<char>,
    source: Seq<char>,
    asked: Seq<Request>,
    locals: Map<TokenView, usize>,
    tokens: Seq<Token>,
    statements: Seq<Stmt>,
    listing: Seq<(TokenView, usize)>,
) -> bool {
    &&& scanned_to(oracle, file, source, asked, tokens)
    &&& match parsed_from(oracle, file, source, asked, tokens) {
        Ok(views) => stmt_views(statements) == views && lists(listing, locals, statements),
        Err(_) => true,
    }
}

/// The diagnostics of a run, as mathematical values.
pub open spec fn verdict(r: Result<(), HezenErrorList>) -> Result<(), Seq<Fault>> {
    match r {
        Ok(_) => Ok(()),
        Err(list) => Err(list@),
    }
}

/// Statements or diagnostics, as mathematical values.
pub open spec fn reading(r: Result<Vec<Stmt>, HezenErrorList>) -> Result<Seq<StmtView>, Seq<Fault>> {
    match r {
        Ok(statements) => Ok(stmt_views(statements@)),
        Err(list) => Err(list@),
    }
}

/// The error of a source text that is too long for its lines and columns to
/// be counted.
pub open spec fn too_long(file: Seq<char>) -> Seq<Fault> {
    seq![Fault::Syntax(Place { file, line: 0, column: 0 }, "Source text is too long."@)]
}

/// Reads a source text: scans it and, unless that reported errors, parses
/// the tokens.
pub fn load<H: Host>(link: &mut Link<H>, filename: String, code: String, verbose: bool) -> (r: Result<
    Vec<Stmt>,
    HezenErrorList,
>)
    requires
        code@.len() < usize::MAX,
    ensures
        extends(old(link).log(), final(link).log()),
        forall|oracle: Oracle| #[trigger]
            agrees(oracle, final(link).log()) ==> exists|tokens: Seq<Token>|
                scanned_to(oracle, filename@, code@, old(link).asked(), tokens) && loaded(
                    oracle,
                    filename@,
                    code@,
                    old(link).asked(),
                    verbose,
                    tokens,
                ) == (final(link).asked(), reading(r)),
{
    broadcast use dialogue;

    let mut errors = HezenErrorList::default();
    let lexer = Lexer::new(filename, code);
    let tokens = lexer.get_tokens(&mut errors, link);
    let ghost read = tokens.list@;
    if !errors.is_empty() {
        assert forall|oracle: Oracle| #[trigger] agrees(oracle, link.log()) implies exists|
            tokens: Seq<Token>,
        |
            scanned_to(oracle, filename@, code@, old(link).asked(), tokens) && loaded(
                oracle,
                filename@,
                code@,
                old(link).asked(),
                verbose,
                tokens,
            ) == (link.asked(), reading(Err::<Vec<Stmt>, HezenErrorList>(errors))) by {
            assert(scanned_to(oracle, filename@, code@, old(link).asked(), read));
        }
        return Err(errors);
    }
    if verbose {
        let text = tokens.to_string(link);
        let mut line = String::from_str("Tokens: ");
        line.append(text.as_str());
        line.append("\n");
        link.write(line.as_str());
    }
    assert(errors@ =~= Seq::<Fault>::empty());
    let parser = Parser::new(tokens);
    let statements = parser.parse(&mut errors);
    let r = if errors.is_empty() {
        Ok(statements)
    } else {
        Err(errors)
    };
    assert forall|oracle: Oracle| #[trigger] agrees(oracle, link.log()) implies exists|
        tokens: Seq<Token>,
    |
        scanned_to(oracle, filename@, code@, old(link).asked(), tokens) && loaded(
            oracle,
            filename@,
            code@,
            old(link).asked(),
            verbose,
            tokens,
        ) == (link.asked(), reading(r)) by {
        assert(scanned_to(oracle, filename@, code@, old(link).asked(), read));
    }
    r
}

/// Writes statements, each on a line of its own.
#[verifier::loop_isolation(false)]
pub fn write_tree<H: Host>(link: &mut Link<H>, statements: &Vec<Stmt>)
    ensures
        extends(old(link).log(), final(link).log()),
        forall|oracle: Oracle| #[trigger]
            agrees(oracle, final(link).log()) ==> tree_written(
                oracle,
                old(link).asked(),
                statements@,
                0,
            ) == final(link).asked(),
{
    broadcast use dialogue;

    let mut i: usize = 0;
    while i < statements.len()
        invariant
            i <= statements.len(),
            extends(old(link).log(), link.log()),
            forall|oracle: Oracle| #[trigger]
                agrees(oracle, link.log()) ==> tree_written(
                    oracle,
                    old(link).asked(),
                    statements@,
                    0,
                ) == tree_written(oracle, link.asked(), statements@, i as int),
        decreases statements.len() - i,
    {
        let mut line = statements[i].to_string(link);
        line.append("\n");
        link.write(line.as_str());
        i = i + 1;
    }
}

/// The line that reports an entry of the distance table.
pub fn entry_line(token: &Token, distance: usize) -> (r: String)
    ensures
        r@ == entry_text((token@, distance)),
{
    let mut line = token.lexeme.clone();
    line.append(": ");
    line.append(decimal(distance).as_str());
    line.append(", at ");
    line.append(decimal(token.position.line).as_str());
    line.append(":");
    line.append(decimal(token.position.column).as_str());
    line.append("\n");
    line
}

/// Writes the distance table of an interpreter, entry by entry.
pub fn write_table<H: Host>(interpreter: &Interpreter, link: &mut Link<H>)
    ensures
        extends(old(link).log(), final(link).log()),
        final(link).asked() == table_written(old(link).asked(), interpreter.locals.listing(), 0),
{
    broadcast use dialogue;

    let count = interpreter.locals.len();
    let mut i: usize = 0;
    while i < count
        invariant
            i <= count,
            count == interpreter.locals.listing().len(),
            extends(old(link).log(), link.log()),
            table_written(old(link).asked(), interpreter.locals.listing(), 0) == table_written(
                link.asked(),
                interpreter.locals.listing(),
                i as int,
            ),
        decreases count - i,
    {
        let line = entry_line(interpreter.locals.key_at(i), *interpreter.locals.value_at(i));
        link.write(line.as_str());
        i = i + 1;
    }
}

/// Runs statements in an interpreter: resolves them and, unless that
/// reported errors, interprets them.
pub fn perform<H: Host>(
    interpreter: &mut Interpreter,
    link: &mut Link<H>,
    statements: &Vec<Stmt>,
    fuel: u64,
    verbose: bool,
) -> (r: Result<(), HezenErrorList>)
    ensures
        extends(old(link).log(), final(link).log()),
        exists|listing: Seq<(TokenView, usize)>|
            lists(listing, old(interpreter).locals@, statements@) && forall|oracle: Oracle| #[trigger]
                agrees(oracle, final(link).log()) ==> performed(
                    oracle,
                    old(interpreter).state(old(link).asked()),
                    statements@,
                    fuel as nat,
                    verbose,
                    listing,
                ) == (final(interpreter).state(final(link).asked()), verdict(r)),
{
    broadcast use dialogue;

    let mut errors = HezenErrorList::default();
    let mut resolver = Resolver::new();
    resolver.resolve(interpreter, &mut errors, statements);
    let ghost listing = interpreter.locals.listing();
    proof {
        interpreter.locals.listing_is_view();
    }
    if verbose {
        write_table(interpreter, link);
    }
    let r = if !errors.is_empty() {
        Err(errors)
    } else {
        match interpreter.interpret(link, statements, fuel) {
            Ok(_) => Ok(()),
            Err(error) => Err(HezenErrorList::from(error)),
        }
    };
    assert(lists(listing, old(interpreter).locals@, statements@) && forall|oracle: Oracle| #[trigger]
        agrees(oracle, link.log()) ==> performed(
            oracle,
            old(interpreter).state(old(link).asked()),
            statements@,
            fuel as nat,
            verbose,
            listing,
        ) == (interpreter.state(link.asked()), verdict(r)));
    r
}

/// Runs a source text in an interpreter.
pub fn run_in<H: Host>(
    interpreter: &mut Interpreter,
    link: &mut Link<H>,
    filename: String,
    code: String,
    verbosity: Verbosity,
    fuel: u64,
) -> (r: Result<(), HezenErrorList>)
    ensures
        extends(old(link).log(), final(link).log()),
        code@.len() >= usize::MAX ==> verdict(r) == Err::<(), Seq<Fault>>(too_long(filename@))
            && *final(interpreter) == *old(interpreter) && final(link).log() == old(link).log(),
        code@.len() < usize::MAX ==> forall|oracle: Oracle| #[trigger]
            agrees(oracle, final(link).log()) ==> exists|
                tokens: Seq<Token>,
                statements: Seq<Stmt>,
                listing: Seq<(TokenView, usize)>,
            |
                read_from(
                    oracle,
                    filename@,
                    code@,
                    old(link).asked(),
                    old(interpreter).locals@,
                    tokens,
                    statements,
                    listing,
                ) && ran(
                    oracle,
                    filename@,
                    code@,
                    fuel as nat,
                    verbosity,
                    old(interpreter).state(old(link).asked()),
                    tokens,
                    statements,
                    listing,
                ) == (final(interpreter).state(final(link).asked()), verdict(r)),
{
    broadcast use dialogue;

    if code.as_str().unicode_len() >= usize::MAX {
        let mut errors = HezenErrorList::default();
        errors.add(
            HezenError::syntax_error(filename, 0, 0, String::from_str("Source text is too long.")),
        );
        assert(errors@ =~= too_long(filename@));
        return Err(errors);
    }
    let ghost file = filename@;
    let ghost source = code@;
    match load(link, filename, code, verbosity.lexer) {
        Err(errors) => {
            assert forall|oracle: Oracle| #[trigger] agrees(oracle, link.log()) implies exists|
                tokens: Seq<Token>,
                statements: Seq<Stmt>,
                listing: Seq<(TokenView, usize)>,
            |
                read_from(
                    oracle,
                    file,
                    source,
                    old(link).asked(),
                    old(interpreter).locals@,
                    tokens,
                    statements,
                    listing,
                ) && ran(
                    oracle,
                    file,
                    source,
                    fuel as nat,
                    verbosity,
                    old(interpreter).state(old(link).asked()),
                    tokens,
                    statements,
                    listing,
                ) == (
                    interpreter.state(link.asked()),
                    verdict(Err::<(), HezenErrorList>(errors)),
                ) by {
                let tokens = choose|tokens: Seq<Token>|
                    scanned_to(oracle, file, source, old(link).asked(), tokens) && loaded(
                        oracle,
                        file,
                        source,
                        old(link).asked(),
                        verbosity.lexer,
                        tokens,
                    ) == (link.asked(), Err::<Seq<StmtView>, Seq<Fault>>(errors@));
                assert(read_from(
                    oracle,
                    file,
                    source,
                    old(link).asked(),
                    old(interpreter).locals@,
                    tokens,
                    Seq::<Stmt>::empty(),
                    Seq::<(TokenView, usize)>::empty(),
                ));
            }
            Err(errors)
        },
        Ok(statements) => {
            let ghost loaded_log = link.log();
            let ghost asked = link.asked();
            if verbosity.intermediate {
                link.write("AST:\n");
                write_tree(link, &statements);
            }
            let ghost shown_log = link.log();
            let ghost shown = link.asked();
            let r = perform(interpreter, link, &statements, fuel, verbosity.resolver);
            let ghost listing = choose|listing: Seq<(TokenView, usize)>|
                lists(listing, old(interpreter).locals@, statements@) && forall|oracle: Oracle| #[trigger]
                    agrees(oracle, link.log()) ==> performed(
                        oracle,
                        Machine { asked: shown, ..old(interpreter).state(old(link).asked()) },
                        statements@,
                        fuel as nat,
                        verbosity.resolver,
                        listing,
                    ) == (interpreter.state(link.asked()), verdict(r));
            assert forall|oracle: Oracle| #[trigger] agrees(oracle, link.log()) implies exists|
                tokens: Seq<Token>,
                found: Seq<Stmt>,
                listed: Seq<(TokenView, usize)>,
            |
                read_from(
                    oracle,
                    file,
                    source,
                    old(link).asked(),
                    old(interpreter).locals@,
                    tokens,
                    found,
                    listed,
                ) && ran(
                    oracle,
                    file,
                    source,
                    fuel as nat,
                    verbosity,
                    old(interpreter).state(old(link).asked()),
                    tokens,
                    found,
                    listed,
                ) == (interpreter.state(link.asked()), verdict(r)) by {
                assert(agrees(oracle, loaded_log));
                assert(agrees(oracle, shown_log));
                let tokens = choose|tokens: Seq<Token>|
                    scanned_to(oracle, file, source, old(link).asked(), tokens) && loaded(
                        oracle,
                        file,
                        source,
                        old(link).asked(),
                        verbosity.lexer,
                        tokens,
                    ) == (asked, Ok::<Seq<StmtView>, Seq<Fault>>(stmt_views(statements@)));
                assert(read_from(
                    oracle,
                    file,
                    source,
                    old(link).asked(),
                    old(interpreter).locals@,
                    tokens,
                    statements@,
                    listing,
                ));
            }
            r
        },
    }
}

/// The state of a new interpreter, given what the host was asked so far.
pub open spec fn fresh(asked: Seq<Request>) -> Machine {
    Machine { memory: initial_memory(), globals: 0, environment: 0, locals: Map::empty(), asked }
}

/// Runs a source text in a new interpreter.
pub fn run<H: Host>(link: &mut Link<H>, filename: String, code: String, verbosity: Verbosity, fuel: u64) -> (r:
    Result<(), HezenErrorList>)
    ensures
        extends(old(link).log(), final(link).log()),
        code@.len() >= usize::MAX ==> verdict(r) == Err::<(), Seq<Fault>>(too_long(filename@))
            && final(link).log() == old(link).log(),
        code@.len() < usize::MAX ==> forall|oracle: Oracle| #[trigger]
            agrees(oracle, final(link).log()) ==> exists|
                tokens: Seq<Token>,
                statements: Seq<Stmt>,
                listing: Seq<(TokenView, usize)>,
            |
                read_from(
                    oracle,
                    filename@,
                    code@,
                    old(link).asked(),
                    Map::empty(),
                    tokens,
                    statements,
                    listing,
                ) && ({
                    let end = ran(
                        oracle,
                        filename@,
                        code@,
                        fuel as nat,
                        verbosity,
                        fresh(old(link).asked()),
                        tokens,
                        statements,
                        listing,
                    );
                    end.0.asked == final(link).asked() && end.1 == verdict(r)
                }),
{
    let mut interpreter = Interpreter::new();
    let ghost begun = interpreter.state(link.asked());
    assert(begun == fresh(link.asked()));
    let r = run_in(&mut interpreter, link, filename, code, verbosity, fuel);
    proof {
        if code@.len() < usize::MAX {
            assert forall|oracle: Oracle| #[trigger] agrees(oracle, link.log()) implies exists|
                tokens: Seq<Token>,
                statements: Seq<Stmt>,
                listing: Seq<(TokenView, usize)>,
            |
                read_from(
                    oracle,
                    filename@,
                    code@,
                    old(link).asked(),
                    Map::empty(),
                    tokens,
                    statements,
                    listing,
                ) && ({
                    let end = ran(
                        oracle,
                        filename@,
                        code@,
                        fuel as nat,
                        verbosity,
                        fresh(old(link).asked()),
                        tokens,
                        statements,
                        listing,
                    );
                    end.0.asked == link.asked() && end.1 == verdict(r)
                }) by {
                let (tokens, statements, listing) = choose|
                    tokens: Seq<Token>,
                    statements: Seq<Stmt>,
                    listing: Seq<(TokenView, usize)>,
                |
                    read_from(
                        oracle,
                        filename@,
                        code@,
                        old(link).asked(),
                        begun.locals,
                        tokens,
                        statements,
                        listing,
                    ) && ran(
                        oracle,
                        filename@,
                        code@,
                        fuel as nat,
                        verbosity,
                        begun,
                        tokens,
                        statements,
                        listing,
                    ) == (interpreter.state(link.asked()), verdict(r));
                assert(read_from(
                    oracle,
                    filename@,
                    code@,
                    old(link).asked(),
                    Map::empty(),
                    tokens,
                    statements,
                    listing,
                ));
            }
        }
    }
    r
}

/// Whether a character is white space, as std decides it.
pub uninterp spec fn whitespace(c: char) -> bool;

/// Whether a character is white space.
///
/// Trusted: wraps `char::is_whitespace`, which depends on nothing but the
/// character.
#[verifier::external_body]
fn is_whitespace(c: char) -> (r: bool)
    ensures
        r == whitespace(c),
{
    c.is_whitespace()
}

/// The position of the first character from a position on that is no white
/// space, or the end.
pub open spec fn past_blanks(line: Seq<char>, at: nat) -> nat
    decreases line.len() - at,
{
    if at < line.len() && whitespace(line[at as int]) {
        past_blanks(line, at + 1)
    } else {
        at
    }
}

/// The position behind the last character before a position that is no
/// white space, or the beginning.
pub open spec fn before_blanks(line: Seq<char>, end: nat) -> nat
    decreases end,
{
    if 0 < end <= line.len() && whitespace(line[end - 1]) {
        before_blanks(line, (end - 1) as nat)
    } else {
        end
    }
}

/// What is left of a line without the white space at its ends.
pub open spec fn trimmed(line: Seq<char>) -> Seq<char> {
    let from = past_blanks(line, 0);
    let to = before_blanks(line, line.len());
    if from <= to <= line.len() {
        line.subrange(from as int, to as int)
    } else {
        Seq::empty()
    }
}

/// A line without the white space at its ends.
pub fn trim(line: &str) -> (r: String)
    ensures
        r@ == trimmed(line@),
{
    let chars = crate::lexer::characters(line);
    let mut from: usize = 0;
    while from < chars.len() && is_whitespace(chars[from])
        invariant
            from <= chars@.len(),
            past_blanks(chars@, 0) == past_blanks(chars@, from as nat),
        decreases chars@.len() - from,
    {
        from = from + 1;
    }
    let mut to: usize = chars.len();
    while to > 0 && is_whitespace(chars[to - 1])
        invariant
            to <= chars@.len(),
            before_blanks(chars@, chars@.len()) == before_blanks(chars@, to as nat),
        decreases to,
    {
        to = to - 1;
    }
    if from <= to {
        crate::lexer::text_between(&chars, from, to)
    } else {
        String::new()
    }
}

/// What the shell does with a line.
pub enum ShellStep {
    /// The line asked to leave the shell.
    Exit,
    /// The line asked for help.
    Help,
    /// The line was run as a program.
    Ran(Result<(), HezenErrorList>),
}

impl ShellStep {
    /// The diagnostics of the run of a line, if the line was run.
    pub open spec fn outcome(self) -> Option<Result<(), Seq<Fault>>> {
        match self {
            ShellStep::Ran(r) => Some(verdict(r)),
            _ => None,
        }
    }
}

/// No report besides the output.
pub open spec fn quiet() -> Verbosity {
    Verbosity { lexer: false, intermediate: false, resolver: false }
}

/// One step of the shell. A line, without the white space at its ends, is
/// `exit`, a request to leave; or `help`, a request for help; or a program,
/// which is run in the interpreter of the shell under the file name `shell`.
pub fn shell<H: Host>(interpreter: &mut Interpreter, link: &mut Link<H>, line: &str, fuel: u64) -> (r:
    ShellStep)
    ensures
        extends(old(link).log(), final(link).log()),
        trimmed(line@) == "exit"@ <==> r is Exit,
        (trimmed(line@) != "exit"@ && trimmed(line@) == "help"@) <==> r is Help,
        !(r is Ran) ==> *final(interpreter) == *old(interpreter) && final(link).log() == old(
            link,
        ).log(),
        r is Ran && trimmed(line@).len() < usize::MAX ==> forall|oracle: Oracle| #[trigger]
            agrees(oracle, final(link).log()) ==> exists|
                tokens: Seq<Token>,
                statements: Seq<Stmt>,
                listing: Seq<(TokenView, usize)>,
            |
                read_from(
                    oracle,
                    "shell"@,
                    trimmed(line@),
                    old(link).asked(),
                    old(interpreter).locals@,
                    tokens,
                    statements,
                    listing,
                ) && ({
                    let end = ran(
                        oracle,
                        "shell"@,
                        trimmed(line@),
                        fuel as nat,
                        quiet(),
                        old(interpreter).state(old(link).asked()),
                        tokens,
                        statements,
                        listing,
                    );
                    end.0 == final(interpreter).state(final(link).asked()) && Some(end.1)
                        == r.outcome()
                }),
{
    let input = trim(line);
    let exit = String::from_str("exit");
    let help = String::from_str("help");
    if input == exit {
        ShellStep::Exit
    } else if input == help {
        ShellStep::Help
    } else {
        let silent = Verbosity { lexer: false, intermediate: false, resolver: false };
        let r = run_in(interpreter, link, String::from_str("shell"), input, silent, fuel);
        proof {
            if trimmed(line@).len() < usize::MAX {
                assert forall|oracle: Oracle| #[trigger] agrees(oracle, link.log()) implies exists|
                    tokens: Seq<Token>,
                    statements: Seq<Stmt>,
                    listing: Seq<(TokenView, usize)>,
                |
                    read_from(
                        oracle,
                        "shell"@,
                        trimmed(line@),
                        old(link).asked(),
                        old(interpreter).locals@,
                        tokens,
                        statements,
                        listing,
                    ) && ({
                        let end = ran(
                            oracle,
                            "shell"@,
                            trimmed(line@),
                            fuel as nat,
                            quiet(),
                            old(interpreter).state(old(link).asked()),
                            tokens,
                            statements,
                            listing,
                        );
                        end.0 == interpreter.state(link.asked()) && Some(end.1) == Some(verdict(r))
                    }) by {
                    let (tokens, statements, listing) = choose|
                        tokens: Seq<Token>,
                        statements: Seq<Stmt>,
                        listing: Seq<(TokenView, usize)>,
                    |
                        read_from(
                            oracle,
                            "shell"@,
                            trimmed(line@),
                            old(link).asked(),
                            old(interpreter).locals@,
                            tokens,
                            statements,
                            listing,
                        ) && ran(
                            oracle,
                            "shell"@,
                            trimmed(line@),
                            fuel as nat,
                            quiet(),
                            old(interpreter).state(old(link).asked()),
                            tokens,
                            statements,
                            listing,
                        ) == (interpreter.state(link.asked()), verdict(r));
                    assert(read_from(
                        oracle,
                        "shell"@,
                        trimmed(line@),
                        old(link).asked(),
                        old(interpreter).locals@,
                        tokens,
                        statements,
                        listing,
                    ));
                }
            }
        }
        ShellStep::Ran(r)
    }
}

} // verus!
