use vstd::prelude::*;
use vstd::string::*;
use crate::error::{Fault, HezenError, HezenErrorList, HezenLineInfo, Place};
use crate::host::{agrees, dialogue, extends, Host, Link, Oracle, Request};
use crate::text::push_char;
use crate::token::{Token, TokenType, TokenView, Tokens};

verus! {

/// What replacing every match of a pattern in a text gives, as the regex
/// engine computes it: a function of the pattern, the text and the
/// replacement alone.
pub uninterp spec fn replaced(pattern: Seq<char>, text: Seq<char>, replacement: Seq<char>) -> Seq<char>;

/// Whether a character is alphanumeric, as std decides it.
pub uninterp spec fn alphanumeric(c: char) -> bool;

/// Whether the regex engine accepts a pattern: a function of the pattern
/// alone.
pub uninterp spec fn compiles(pattern: Seq<char>) -> bool;

/// Replaces every match of a pattern in a text.
///
/// Trusted: wraps `regex::Regex::new` and `regex::Regex::replace_all`. The
/// first fails for a pattern that is invalid or too big, which depends on the
/// pattern alone; otherwise the second gives the text with every match
/// replaced, which depends on nothing but the pattern, the text and the
/// replacement.
#[verifier::external_body]
fn replace_all(pattern: &str, text: &str, replacement: &str) -> (r: Option<String>)
    ensures
        r.is_some() == compiles(pattern@),
        r matches Some(changed) ==> changed@ == replaced(pattern@, text@, replacement@),
{
    match regex::Regex::new(pattern) {
        Ok(compiled) => Some(compiled.replace_all(text, replacement).into_owned()),
        Err(_) => None,
    }
}

/// Whether a character is alphanumeric.
///
/// Trusted: wraps `char::is_alphanumeric`, which depends on nothing but the
/// character.
#[verifier::external_body]
fn is_alphanumeric(c: char) -> (r: bool)
    ensures
        r == alphanumeric(c),
{
    c.is_alphanumeric()
}

/// Whether a character is one of the digits `0` to `9`.
pub open spec fn digit(c: char) -> bool {
    '0' <= c <= '9'
}

/// Whether a character can begin a name: a letter of the English alphabet
/// or an underscore.
pub open spec fn begins_name(c: char) -> bool {
    ('a' <= c <= 'z') || ('A' <= c <= 'Z') || c == '_'
}

/// Whether a character can go on a name: an alphanumeric character or an
/// underscore.
pub open spec fn continues_name(c: char) -> bool {
    alphanumeric(c) || c == '_'
}

fn is_digit(c: char) -> (r: bool)
    ensures
        r == digit(c),
{
    '0' <= c && c <= '9'
}

fn is_name_start(c: char) -> (r: bool)
    ensures
        r == begins_name(c),
{
    ('a' <= c && c <= 'z') || ('A' <= c && c <= 'Z') || c == '_'
}

/// The characters of a string.
pub fn characters(text: &str) -> (r: Vec<char>)
    ensures
        r@ == text@,
{
    broadcast use vstd::string::group_string_axioms;

    let mut chars: Vec<char> = Vec::new();
    for c in iter: text.chars()
        invariant
            iter.seq() == text@,
            chars@ == text@.take(iter.index() as int),
    {
        assert(text@.take(iter.index() + 1) =~= text@.take(iter.index() as int).push(c));
        chars.push(c);
    }
    assert(text@.take(text@.len() as int) =~= text@);
    chars
}

/// The string of the characters from one position up to another.
pub fn text_between(chars: &Vec<char>, from: usize, to: usize) -> (r: String)
    requires
        from <= to <= chars@.len(),
    ensures
        r@ == chars@.subrange(from as int, to as int),
{
    let mut text = String::new();
    let mut i: usize = from;
    while i < to
        invariant
            from <= i <= to <= chars@.len(),
            text@ == chars@.subrange(from as int, i as int),
        decreases to - i,
    {
        push_char(&mut text, chars[i]);
        assert(chars@.subrange(from as int, i + 1) =~= chars@.subrange(from as int, i as int).push(
            chars@[i as int],
        ));
        i = i + 1;
    }
    text
}

/// A text with every match of a pattern replaced; unchanged where the
/// regex engine does not accept the pattern.
pub open spec fn substituted(pattern: Seq<char>, text: Seq<char>, replacement: Seq<char>) -> Seq<char> {
    if compiles(pattern) {
        replaced(pattern, text, replacement)
    } else {
        text
    }
}

/// The value of a string literal: the text between the quotes, in which an
/// escaped `n` becomes a line break and an escaped `t` a tab, and doubled
/// backslashes are rewritten, each by its pattern, in this order.
pub open spec fn unescaped(text: Seq<char>) -> Seq<char> {
    substituted(
        "(\\\\\\\\)"@,
        substituted(
            "(^|[^\\\\])(\\\\t)"@,
            substituted("(^|[^\\\\])(\\\\n)"@, text, "$1\n"@),
            "$1\t"@,
        ),
        "$1\\"@,
    )
}

fn substitute(pattern: &str, text: String, replacement: &str) -> (r: String)
    ensures
        r@ == substituted(pattern@, text@, replacement@),
{
    match replace_all(pattern, text.as_str(), replacement) {
        Some(changed) => changed,
        None => text,
    }
}

/// The value of a string literal.
pub fn unescape(text: String) -> (r: String)
    ensures
        r@ == unescaped(text@),
{
    let first = substitute("(^|[^\\\\])(\\\\n)", text, "$1\n");
    let second = substitute("(^|[^\\\\])(\\\\t)", first, "$1\t");
    substitute("(\\\\\\\\)", second, "$1\\")
}

/// The state of a scan as a mathematical value: the position, the line and
/// where it began, the tokens and the diagnostics so far, and the questions
/// put to the host so far.
pub struct Scan {
    pub at: nat,
    pub line: nat,
    pub line_start: nat,
    pub tokens: Seq<TokenView>,
    pub errors: Seq<Fault>,
    pub asked: Seq<Request>,
}

/// The place of a position in a line: lines and columns count from one.
pub open spec fn place(file: Seq<char>, line: nat, line_start: nat, at: nat) -> Place {
    Place { file, line: line as usize, column: (at - line_start + 1) as usize }
}

/// The position behind the digits that stand at a position.
pub open spec fn past_digits(src: Seq<char>, at: nat) -> nat
    decreases src.len() - at,
{
    if at < src.len() && digit(src[at as int]) {
        past_digits(src, at + 1)
    } else {
        at
    }
}

/// The position behind the number that stands at a position: digits, and
/// after them a point and more digits if there are any.
pub open spec fn past_number(src: Seq<char>, at: nat) -> nat {
    let whole = past_digits(src, at);
    if whole + 1 < src.len() && src[whole as int] == '.' && digit(src[(whole + 1) as int]) {
        past_digits(src, whole + 1)
    } else {
        whole
    }
}

/// The position behind the name that stands at a position.
pub open spec fn past_name(src: Seq<char>, at: nat) -> nat
    decreases src.len() - at,
{
    if at < src.len() && continues_name(src[at as int]) {
        past_name(src, at + 1)
    } else {
        at
    }
}

/// The position of the next line break from a position on, or the end.
pub open spec fn line_end(src: Seq<char>, at: nat) -> nat
    decreases src.len() - at,
{
    if at < src.len() && src[at as int] != '\n' {
        line_end(src, at + 1)
    } else {
        at
    }
}

/// Where a string literal ends and in which line: the position of the next
/// quote from a position on, or the end, with the line and the start of the
/// line that are reached there.
pub open spec fn string_end(src: Seq<char>, at: nat, line: nat, line_start: nat) -> (nat, nat, nat)
    decreases src.len() - at,
{
    if at < src.len() && src[at as int] != '"' {
        if src[at as int] == '\n' {
            string_end(src, at + 1, line + 1, at + 1)
        } else {
            string_end(src, at + 1, line, line_start)
        }
    } else {
        (at, line, line_start)
    }
}

/// The kind of a word: that of the keyword it is, or an identifier.
pub open spec fn word_kind(text: Seq<char>) -> TokenType {
    if text == "and"@ {
        TokenType::And
    } else if text == "class"@ {
        TokenType::Class
    } else if text == "else"@ {
        TokenType::Else
    } else if text == "false"@ {
        TokenType::False
    } else if text == "fn"@ {
        TokenType::Fn
    } else if text == "for"@ {
        TokenType::For
    } else if text == "if"@ {
        TokenType::If
    } else if text == "nil"@ {
        TokenType::Nil
    } else if text == "or"@ {
        TokenType::Or
    } else if text == "return"@ {
        TokenType::Return
    } else if text == "super"@ {
        TokenType::Super
    } else if text == "self"@ {
        TokenType::Self_
    } else if text == "true"@ {
        TokenType::True
    } else if text == "var"@ {
        TokenType::Var
    } else if text == "mut"@ {
        TokenType::Mut
    } else if text == "while"@ {
        TokenType::While
    } else if text == "break"@ {
        TokenType::Break
    } else if text == "continue"@ {
        TokenType::Continue
    } else {
        TokenType::Identifier
    }
}

/// The kind of the punctuator that a character is by itself.
pub open spec fn single(c: char) -> Option<TokenType> {
    if c == '(' {
        Some(TokenType::LeftParen)
    } else if c == ')' {
        Some(TokenType::RightParen)
    } else if c == '{' {
        Some(TokenType::LeftBrace)
    } else if c == '}' {
        Some(TokenType::RightBrace)
    } else if c == ',' {
        Some(TokenType::Comma)
    } else if c == '.' {
        Some(TokenType::Dot)
    } else if c == '-' {
        Some(TokenType::Minus)
    } else if c == '+' {
        Some(TokenType::Plus)
    } else if c == ';' {
        Some(TokenType::Semicolon)
    } else if c == '*' {
        Some(TokenType::Star)
    } else {
        None
    }
}

/// The kinds of the punctuators that a character begins: the one it is by
/// itself, and the one it is with `=` behind it.
pub open spec fn double(c: char) -> Option<(TokenType, TokenType)> {
    if c == '!' {
        Some((TokenType::Bang, TokenType::BangEqual))
    } else if c == '=' {
        Some((TokenType::Equal, TokenType::EqualEqual))
    } else if c == '<' {
        Some((TokenType::Less, TokenType::LessEqual))
    } else if c == '>' {
        Some((TokenType::Greater, TokenType::GreaterEqual))
    } else {
        None
    }
}

impl Scan {
    /// The scan after a token of a kind was read from the characters up to
    /// `end`.
    pub open spec fn token(self, src: Seq<char>, file: Seq<char>, ty: crate::token::Lexical, end: nat) -> Scan {
        Scan {
            at: end,
            tokens: self.tokens.push(
                TokenView {
                    ty,
                    lexeme: src.subrange(self.at as int, end as int),
                    position: place(file, self.line, self.line_start, self.at),
                },
            ),
            ..self
        }
    }

    /// The scan after a complaint about the character before `end`.
    pub open spec fn error(self, file: Seq<char>, message: Seq<char>, line: nat, line_start: nat, end: nat) -> Scan {
        Scan {
            at: end,
            line,
            line_start,
            errors: self.errors.push(
                Fault::Syntax(
                    Place { file, line: line as usize, column: (end - line_start) as usize },
                    message,
                ),
            ),
            ..self
        }
    }
}

/// The scan after what stands at its position was read: a token, a comment,
/// white space, or a character that is complained about. The value of a
/// number is the host's.
pub open spec fn scan_token(oracle: Oracle, src: Seq<char>, file: Seq<char>, s: Scan) -> Scan {
    let c = src[s.at as int];
    let next = s.at + 1;
    if single(c).is_some() {
        s.token(src, file, single(c).unwrap()@, next)
    } else if double(c).is_some() {
        if next < src.len() && src[next as int] == '=' {
            s.token(src, file, double(c).unwrap().1@, next + 1)
        } else {
            s.token(src, file, double(c).unwrap().0@, next)
        }
    } else if c == '/' {
        if next < src.len() && src[next as int] == '/' {
            Scan { at: line_end(src, next + 1), ..s }
        } else {
            s.token(src, file, TokenType::Slash@, next)
        }
    } else if c == ' ' || c == '\r' || c == '\t' {
        Scan { at: next, ..s }
    } else if c == '\n' {
        Scan { at: next, line: s.line + 1, line_start: next, ..s }
    } else if c == '"' {
        let (end, line, line_start) = string_end(src, next, s.line, s.line_start);
        if end >= src.len() {
            s.error(file, "Unterminated string."@, line, line_start, end)
        } else {
            Scan {
                line,
                line_start,
                ..s.token(
                    src,
                    file,
                    crate::token::Lexical {
                        ordinal: crate::grammar::string_ordinal(),
                        text: unescaped(src.subrange(next as int, end as int)),
                        bits: 0,
                    },
                    end + 1,
                )
            }
        }
    } else if digit(c) {
        let end = past_number(src, s.at);
        let request = Request::Parse(src.subrange(s.at as int, end as int));
        Scan {
            asked: s.asked.push(request),
            ..s.token(
                src,
                file,
                crate::token::Lexical {
                    ordinal: crate::grammar::number_ordinal(),
                    text: Seq::empty(),
                    bits: oracle(s.asked.len() as int, request).number(),
                },
                end,
            )
        }
    } else if begins_name(c) {
        let end = past_name(src, next);
        s.token(src, file, word_kind(src.subrange(s.at as int, end as int))@, end)
    } else {
        s.error(file, "Unexpected character."@, s.line, s.line_start, next)
    }
}

/// The scan after everything from its position on was read, and the token
/// of the end was added.
pub open spec fn scan_all(oracle: Oracle, src: Seq<char>, file: Seq<char>, s: Scan) -> Scan
    decreases src.len() - s.at,
{
    if s.at < src.len() {
        let next = scan_token(oracle, src, file, s);
        if s.at < next.at <= src.len() {
            scan_all(oracle, src, file, next)
        } else {
            next
        }
    } else {
        Scan {
            tokens: s.tokens.push(
                TokenView {
                    ty: TokenType::Eof@,
                    lexeme: Seq::empty(),
                    position: place(file, s.line, s.line_start, s.at),
                },
            ),
            ..s
        }
    }
}

/// The scan of a source text from its beginning.
pub open spec fn scanned(
    oracle: Oracle,
    src: Seq<char>,
    file: Seq<char>,
    errors: Seq<Fault>,
    asked: Seq<Request>,
) -> Scan {
    scan_all(
        oracle,
        src,
        file,
        Scan { at: 0, line: 1, line_start: 0, tokens: Seq::empty(), errors, asked },
    )
}

proof fn digits_go_on(src: Seq<char>, at: nat)
    ensures
        past_digits(src, at) >= at,
    decreases src.len() - at,
{
    if at < src.len() && digit(src[at as int]) {
        digits_go_on(src, at + 1);
    }
}

/// The lexer: a source text, and the state of its scan.
pub struct Lexer {
    filename: String,
    source: Vec<char>,
    tokens: Tokens,
    current: usize,
    line: usize,
    line_start: usize,
}

fn same_text(word: &String, keyword: &str) -> (r: bool)
    ensures
        r == (word@ == keyword@),
{
    let other = String::from_str(keyword);
    *word == other
}

/// The kind of a word: that of the keyword it is, or an identifier.
pub fn kind_of_word(text: &String) -> (r: TokenType)
    ensures
        r == word_kind(text@),
{
    if same_text(text, "and") {
        TokenType::And
    } else if same_text(text, "class") {
        TokenType::Class
    } else if same_text(text, "else") {
        TokenType::Else
    } else if same_text(text, "false") {
        TokenType::False
    } else if same_text(text, "fn") {
        TokenType::Fn
    } else if same_text(text, "for") {
        TokenType::For
    } else if same_text(text, "if") {
        TokenType::If
    } else if same_text(text, "nil") {
        TokenType::Nil
    } else if same_text(text, "or") {
        TokenType::Or
    } else if same_text(text, "return") {
        TokenType::Return
    } else if same_text(text, "super") {
        TokenType::Super
    } else if same_text(text, "self") {
        TokenType::Self_
    } else if same_text(text, "true") {
        TokenType::True
    } else if same_text(text, "var") {
        TokenType::Var
    } else if same_text(text, "mut") {
        TokenType::Mut
    } else if same_text(text, "while") {
        TokenType::While
    } else if same_text(text, "break") {
        TokenType::Break
    } else if same_text(text, "continue") {
        TokenType::Continue
    } else {
        TokenType::Identifier
    }
}

fn single_kind(c: char) -> (r: Option<TokenType>)
    ensures
        r == single(c),
{
    if c == '(' {
        Some(TokenType::LeftParen)
    } else if c == ')' {
        Some(TokenType::RightParen)
    } else if c == '{' {
        Some(TokenType::LeftBrace)
    } else if c == '}' {
        Some(TokenType::RightBrace)
    } else if c == ',' {
        Some(TokenType::Comma)
    } else if c == '.' {
        Some(TokenType::Dot)
    } else if c == '-' {
        Some(TokenType::Minus)
    } else if c == '+' {
        Some(TokenType::Plus)
    } else if c == ';' {
        Some(TokenType::Semicolon)
    } else if c == '*' {
        Some(TokenType::Star)
    } else {
        None
    }
}

fn double_kind(c: char) -> (r: Option<(TokenType, TokenType)>)
    ensures
        r == double(c),
{
    if c == '!' {
        Some((TokenType::Bang, TokenType::BangEqual))
    } else if c == '=' {
        Some((TokenType::Equal, TokenType::EqualEqual))
    } else if c == '<' {
        Some((TokenType::Less, TokenType::LessEqual))
    } else if c == '>' {
        Some((TokenType::Greater, TokenType::GreaterEqual))
    } else {
        None
    }
}

impl Lexer {
    /// The source text as a sequence of characters.
    pub closed spec fn source(&self) -> Seq<char> {
        self.source@
    }

    /// The name of the file that the source text is from.
    pub closed spec fn filename(&self) -> Seq<char> {
        self.filename@
    }

    /// Whether nothing was read yet.
    pub closed spec fn fresh(&self) -> bool {
        &&& self.current == 0
        &&& self.line == 1
        &&& self.line_start == 0
        &&& self.tokens.list@.len() == 0
    }

    /// Whether every line and column of the source text can be counted.
    pub open spec fn fits(&self) -> bool {
        self.source().len() < usize::MAX
    }

    closed spec fn wf(&self) -> bool {
        &&& self.source@.len() < usize::MAX
        &&& self.line_start <= self.current <= self.source@.len()
        &&& 1 <= self.line <= self.current + 1
    }

    closed spec fn scan(&self, errors: Seq<Fault>, asked: Seq<Request>) -> Scan {
        Scan {
            at: self.current as nat,
            line: self.line as nat,
            line_start: self.line_start as nat,
            tokens: crate::ast::token_views(self.tokens.list@),
            errors,
            asked,
        }
    }

    /// A lexer at the beginning of a source text.
    pub fn new(filename: String, source: String) -> (r: Self)
        ensures
            r.source() == source@,
            r.filename() == filename@,
            r.fresh(),
    {
        Self {
            filename,
            source: characters(source.as_str()),
            tokens: Tokens::new(),
            current: 0,
            line: 1,
            line_start: 0,
        }
    }

    /// Whether every line and column of the source text can be counted.
    pub fn countable(&self) -> (r: bool)
        ensures
            r == self.fits(),
    {
        self.source.len() < usize::MAX
    }

    fn position(&self, start: usize) -> (r: HezenLineInfo)
        requires
            self.wf(),
            self.line_start <= start <= self.source@.len(),
        ensures
            r@ == place(self.filename@, self.line as nat, self.line_start as nat, start as nat),
    {
        HezenLineInfo::new(self.filename.clone(), self.line, start - self.line_start + 1)
    }

    fn add_token(&mut self, ty: TokenType, end: usize)
        requires
            old(self).wf(),
            old(self).current <= end <= old(self).source@.len(),
        ensures
            final(self).wf(),
            final(self).source == old(self).source,
            final(self).filename == old(self).filename,
            final(self).current == end,
            final(self).line == old(self).line,
            final(self).line_start == old(self).line_start,
            forall|errors: Seq<Fault>, asked: Seq<Request>|
                final(self).scan(errors, asked) == (#[trigger] old(self).scan(errors, asked)).token(
                    old(self).source@,
                    old(self).filename@,
                    ty@,
                    end as nat,
                ),
    {
        let text = text_between(&self.source, self.current, end);
        let position = self.position(self.current);
        let token = Token::new(ty, text, position);
        assert(crate::ast::token_views(self.tokens.list@.push(token)) =~= crate::ast::token_views(
            self.tokens.list@,
        ).push(token@));
        self.tokens.add(token);
        self.current = end;
    }

    fn error(
        &mut self,
        errors: &mut HezenErrorList,
        message: &str,
        line: usize,
        line_start: usize,
        end: usize,
    )
        requires
            old(self).wf(),
            old(self).current <= end <= old(self).source@.len(),
            line_start <= end,
            1 <= line <= end + 1,
        ensures
            final(self).wf(),
            final(self).source == old(self).source,
            final(self).filename == old(self).filename,
            final(self).current == end,
            forall|asked: Seq<Request>|
                final(self).scan(final(errors)@, asked) == (#[trigger] old(self).scan(
                    old(errors)@,
                    asked,
                )).error(old(self).filename@, message@, line as nat, line_start as nat, end as nat),
    {
        errors.add(
            HezenError::syntax_error(
                self.filename.clone(),
                line,
                end - line_start,
                String::from_str(message),
            ),
        );
        self.line = line;
        self.line_start = line_start;
        self.current = end;
    }

    fn past_digits(&self, from: usize) -> (r: usize)
        requires
            from <= self.source@.len(),
        ensures
            r == past_digits(self.source@, from as nat),
            from <= r <= self.source@.len(),
    {
        let mut at = from;
        while at < self.source.len() && is_digit(self.source[at])
            invariant
                from <= at <= self.source@.len(),
                past_digits(self.source@, from as nat) == past_digits(self.source@, at as nat),
            decreases self.source@.len() - at,
        {
            at = at + 1;
        }
        at
    }

    fn past_number(&self, from: usize) -> (r: usize)
        requires
            from <= self.source@.len(),
            self.source@.len() < usize::MAX,
        ensures
            r == past_number(self.source@, from as nat),
            past_digits(self.source@, from as nat) <= r <= self.source@.len(),
    {
        let whole = self.past_digits(from);
        if whole + 1 < self.source.len() && self.source[whole] == '.' && is_digit(
            self.source[whole + 1],
        ) {
            self.past_digits(whole + 1)
        } else {
            whole
        }
    }

    fn past_name(&self, from: usize) -> (r: usize)
        requires
            from <= self.source@.len(),
        ensures
            r == past_name(self.source@, from as nat),
            from <= r <= self.source@.len(),
    {
        let mut at = from;
        while at < self.source.len() && (is_alphanumeric(self.source[at]) || self.source[at] == '_')
            invariant
                from <= at <= self.source@.len(),
                past_name(self.source@, from as nat) == past_name(self.source@, at as nat),
            decreases self.source@.len() - at,
        {
            at = at + 1;
        }
        at
    }

    fn line_end(&self, from: usize) -> (r: usize)
        requires
            from <= self.source@.len(),
        ensures
            r == line_end(self.source@, from as nat),
            from <= r <= self.source@.len(),
    {
        let mut at = from;
        while at < self.source.len() && self.source[at] != '\n'
            invariant
                from <= at <= self.source@.len(),
                line_end(self.source@, from as nat) == line_end(self.source@, at as nat),
            decreases self.source@.len() - at,
        {
            at = at + 1;
        }
        at
    }

    fn string_end(&self, from: usize) -> (r: (usize, usize, usize))
        requires
            self.wf(),
            self.current < from <= self.source@.len(),
        ensures
            (r.0 as nat, r.1 as nat, r.2 as nat) == string_end(
                self.source@,
                from as nat,
                self.line as nat,
                self.line_start as nat,
            ),
            from <= r.0 <= self.source@.len(),
            r.2 <= r.0,
            1 <= r.1 <= r.0 + 1,
    {
        let mut at = from;
        let mut line = self.line;
        let mut line_start = self.line_start;
        while at < self.source.len() && self.source[at] != '"'
            invariant
                from <= at <= self.source@.len(),
                self.source@.len() < usize::MAX,
                line_start <= at,
                1 <= line <= at,
                string_end(self.source@, from as nat, self.line as nat, self.line_start as nat)
                    == string_end(self.source@, at as nat, line as nat, line_start as nat),
            decreases self.source@.len() - at,
        {
            if self.source[at] == '\n' {
                line = line + 1;
                line_start = at + 1;
            }
            at = at + 1;
        }
        (at, line, line_start)
    }

    /// Reads what stands at the position.
    fn get_token<H: Host>(&mut self, errors: &mut HezenErrorList, link: &mut Link<H>)
        requires
            old(self).wf(),
            old(self).current < old(self).source@.len(),
        ensures
            final(self).wf(),
            final(self).source == old(self).source,
            final(self).filename == old(self).filename,
            final(self).current > old(self).current,
            extends(old(link).log(), final(link).log()),
            forall|oracle: Oracle| #[trigger]
                agrees(oracle, final(link).log()) ==> scan_token(
                    oracle,
                    old(self).source@,
                    old(self).filename@,
                    old(self).scan(old(errors)@, old(link).asked()),
                ) == final(self).scan(final(errors)@, final(link).asked()),
    {
        broadcast use dialogue;

        let c = self.source[self.current];
        let next = self.current + 1;
        match single_kind(c) {
            Some(kind) => {
                self.add_token(kind, next);
                return ;
            },
            None => {},
        }
        match double_kind(c) {
            Some((alone, with_equal)) => {
                if next < self.source.len() && self.source[next] == '=' {
                    self.add_token(with_equal, next + 1);
                } else {
                    self.add_token(alone, next);
                }
                return ;
            },
            None => {},
        }
        if c == '/' {
            if next < self.source.len() && self.source[next] == '/' {
                self.current = self.line_end(next + 1);
            } else {
                self.add_token(TokenType::Slash, next);
            }
        } else if c == ' ' || c == '\r' || c == '\t' {
            self.current = next;
        } else if c == '\n' {
            self.line = self.line + 1;
            self.line_start = next;
            self.current = next;
        } else if c == '"' {
            let (end, line, line_start) = self.string_end(next);
            if end >= self.source.len() {
                self.error(errors, "Unterminated string.", line, line_start, end);
            } else {
                let value = unescape(text_between(&self.source, next, end));
                self.add_token(TokenType::String(value), end + 1);
                self.line = line;
                self.line_start = line_start;
            }
        } else if is_digit(c) {
            proof {
                digits_go_on(self.source@, next as nat);
            }
            let end = self.past_number(self.current);
            let text = text_between(&self.source, self.current, end);
            let bits = link.parse_number(text.as_str());
            self.add_token(TokenType::Number(bits), end);
        } else if is_name_start(c) {
            let end = self.past_name(next);
            let text = text_between(&self.source, self.current, end);
            self.add_token(kind_of_word(&text), end);
        } else {
            self.error(errors, "Unexpected character.", self.line, self.line_start, next);
        }
    }

    /// Reads the whole source text: its tokens, and behind them the token of
    /// the end. What cannot be read is reported to `errors` and left out.
    #[verifier::loop_isolation(false)]
    pub fn get_tokens<H: Host>(self, errors: &mut HezenErrorList, link: &mut Link<H>) -> (r: Tokens)
        requires
            self.fresh(),
            self.fits(),
        ensures
            extends(old(link).log(), final(link).log()),
            forall|oracle: Oracle| #[trigger]
                agrees(oracle, final(link).log()) ==> ({
                    let end = scanned(
                        oracle,
                        self.source(),
                        self.filename(),
                        old(errors)@,
                        old(link).asked(),
                    );
                    &&& crate::ast::token_views(r.list@) == end.tokens
                    &&& final(errors)@ == end.errors
                    &&& final(link).asked() == end.asked
                }),
    {
        broadcast use dialogue;

        let mut lexer = self;
        assert(crate::ast::token_views(lexer.tokens.list@) =~= Seq::<TokenView>::empty());
        while lexer.current < lexer.source.len()
            invariant
                lexer.wf(),
                lexer.source == self.source,
                lexer.filename == self.filename,
                extends(old(link).log(), link.log()),
                forall|oracle: Oracle| #[trigger]
                    agrees(oracle, link.log()) ==> scanned(
                        oracle,
                        self.source@,
                        self.filename@,
                        old(errors)@,
                        old(link).asked(),
                    ) == scan_all(
                        oracle,
                        self.source@,
                        self.filename@,
                        lexer.scan(errors@, link.asked()),
                    ),
            decreases lexer.source@.len() - lexer.current,
        {
            lexer.get_token(errors, link);
        }
        let position = lexer.position(lexer.current);
        let token = Token::new(TokenType::Eof, String::new(), position);
        assert(crate::ast::token_views(lexer.tokens.list@.push(token)) =~= crate::ast::token_views(
            lexer.tokens.list@,
        ).push(token@));
        lexer.tokens.add(token);
        lexer.tokens
    }
}

} // verus!
