use hezen::error::HezenErrorList;
use hezen::host::{Arithmetic, Host, Link};
use hezen::lexer::{characters, kind_of_word, text_between, unescape, Lexer};
use hezen::token::{TokenType, Tokens};

struct Plain;

impl Host for Plain {
    fn parse_number(&mut self, text: &str) -> u64 {
        text.parse::<f64>().unwrap().to_bits()
    }

    fn arithmetic(&mut self, _operation: Arithmetic, left: u64, _right: u64) -> u64 {
        left
    }

    fn number_text(&mut self, number: u64) -> String {
        format!("{}", f64::from_bits(number))
    }

    fn clock(&mut self) -> u64 {
        0
    }

    fn write(&mut self, _text: &str) {}
}

fn scan(source: &str) -> (Tokens, HezenErrorList) {
    let mut errors = HezenErrorList::default();
    let mut link = Link::new(Plain);
    let lexer = Lexer::new("s.hz".to_string(), source.to_string());
    assert!(lexer.countable());
    let tokens = lexer.get_tokens(&mut errors, &mut link);
    (tokens, errors)
}

fn kinds(source: &str) -> Vec<u8> {
    let (tokens, errors) = scan(source);
    assert!(errors.is_empty(), "{}", errors.to_string());
    tokens.list.iter().map(|t| t.ty.ordinal()).collect()
}

#[test]
fn empty_source_is_one_end_token() {
    let (tokens, errors) = scan("");
    assert!(errors.is_empty());
    assert_eq!(tokens.len(), 1);
    assert!(tokens.get(0).ty.same(&TokenType::Eof));
    assert_eq!(tokens.get(0).lexeme, "");
    assert_eq!(tokens.get(0).position.line, 1);
    assert_eq!(tokens.get(0).position.column, 1);
    assert_eq!(tokens.get(0).position.file, "s.hz");
}

#[test]
fn punctuators_are_read() {
    let expected: Vec<u8> = [
        TokenType::LeftParen,
        TokenType::RightParen,
        TokenType::LeftBrace,
        TokenType::RightBrace,
        TokenType::Comma,
        TokenType::Dot,
        TokenType::Minus,
        TokenType::Plus,
        TokenType::Semicolon,
        TokenType::Slash,
        TokenType::Star,
        TokenType::Bang,
        TokenType::BangEqual,
        TokenType::Equal,
        TokenType::EqualEqual,
        TokenType::Greater,
        TokenType::GreaterEqual,
        TokenType::Less,
        TokenType::LessEqual,
        TokenType::Eof,
    ]
    .iter()
    .map(|t| t.ordinal())
    .collect();
    assert_eq!(kinds("( ) { } , . - + ; / * ! != = == > >= < <="), expected);
}

#[test]
fn keywords_and_identifiers_are_told_apart() {
    let words = [
        ("and", TokenType::And),
        ("class", TokenType::Class),
        ("else", TokenType::Else),
        ("false", TokenType::False),
        ("fn", TokenType::Fn),
        ("for", TokenType::For),
        ("if", TokenType::If),
        ("nil", TokenType::Nil),
        ("or", TokenType::Or),
        ("return", TokenType::Return),
        ("super", TokenType::Super),
        ("self", TokenType::Self_),
        ("true", TokenType::True),
        ("var", TokenType::Var),
        ("mut", TokenType::Mut),
        ("while", TokenType::While),
        ("break", TokenType::Break),
        ("continue", TokenType::Continue),
        ("classy", TokenType::Identifier),
        ("_x1", TokenType::Identifier),
        ("If", TokenType::Identifier),
    ];
    for (word, kind) in words {
        assert!(kind_of_word(&word.to_string()).same(&kind), "{word}");
        let (tokens, errors) = scan(word);
        assert!(errors.is_empty());
        assert_eq!(tokens.len(), 2);
        assert!(tokens.get(0).ty.same(&kind), "{word}");
        assert_eq!(tokens.get(0).lexeme, word);
    }
}

#[test]
fn names_go_on_with_letters_digits_and_underscores() {
    let (tokens, errors) = scan("a1_b2 caf\u{e9}9+x");
    assert!(errors.is_empty());
    assert_eq!(tokens.get(0).lexeme, "a1_b2");
    assert_eq!(tokens.get(1).lexeme, "caf\u{e9}9");
    assert!(tokens.get(2).ty.same(&TokenType::Plus));
    assert_eq!(tokens.get(3).lexeme, "x");
    assert_eq!(tokens.get(3).position.column, 13);
}

#[test]
fn numbers_take_a_fraction_only_with_digits_behind_the_point() {
    let (tokens, errors) = scan("12 3.25 4. 5.x");
    assert!(errors.is_empty());
    assert!(tokens.get(0).ty.same(&TokenType::Number(12f64.to_bits())));
    assert_eq!(tokens.get(0).lexeme, "12");
    assert!(tokens.get(1).ty.same(&TokenType::Number(3.25f64.to_bits())));
    assert_eq!(tokens.get(1).lexeme, "3.25");
    assert!(tokens.get(2).ty.same(&TokenType::Number(4f64.to_bits())));
    assert!(tokens.get(3).ty.same(&TokenType::Dot));
    assert!(tokens.get(4).ty.same(&TokenType::Number(5f64.to_bits())));
    assert!(tokens.get(5).ty.same(&TokenType::Dot));
    assert!(tokens.get(6).ty.same(&TokenType::Identifier));
}

#[test]
fn positions_count_lines_and_columns_from_one() {
    let (tokens, errors) = scan("var x;\n  x = 1;\n\nprint(x);");
    assert!(errors.is_empty());
    let places: Vec<(String, usize, usize)> = tokens
        .list
        .iter()
        .map(|t| (t.lexeme.clone(), t.position.line, t.position.column))
        .collect();
    assert_eq!(
        places,
        vec![
            ("var".to_string(), 1, 1),
            ("x".to_string(), 1, 5),
            (";".to_string(), 1, 6),
            ("x".to_string(), 2, 3),
            ("=".to_string(), 2, 5),
            ("1".to_string(), 2, 7),
            (";".to_string(), 2, 8),
            ("print".to_string(), 4, 1),
            ("(".to_string(), 4, 6),
            ("x".to_string(), 4, 7),
            (")".to_string(), 4, 8),
            (";".to_string(), 4, 9),
            ("".to_string(), 4, 10),
        ]
    );
}

#[test]
fn strings_keep_their_text_and_their_quotes_in_the_lexeme() {
    let (tokens, errors) = scan("\"hi there\" \"\"");
    assert!(errors.is_empty());
    assert!(tokens.get(0).ty.same(&TokenType::String("hi there".to_string())));
    assert_eq!(tokens.get(0).lexeme, "\"hi there\"");
    assert!(tokens.get(1).ty.same(&TokenType::String(String::new())));
    assert_eq!(tokens.get(1).position.column, 12);
}

#[test]
fn strings_may_span_lines() {
    let (tokens, errors) = scan("\"a\nb\" x");
    assert!(errors.is_empty());
    assert!(tokens.get(0).ty.same(&TokenType::String("a\nb".to_string())));
    assert_eq!(tokens.get(0).position.line, 1);
    assert_eq!(tokens.get(1).position.line, 2);
    assert_eq!(tokens.get(1).position.column, 4);
}

#[test]
fn escapes_become_line_breaks_and_tabs() {
    assert_eq!(unescape("a\\nb".to_string()), "a\nb");
    assert_eq!(unescape("\\n".to_string()), "\n");
    assert_eq!(unescape("a\\tb".to_string()), "a\tb");
    assert_eq!(unescape("plain".to_string()), "plain");
    assert_eq!(unescape("a\\\\b".to_string()), "a\\\\\\b");
    assert_eq!(unescape("x\\\\n".to_string()), "x\\\\\\n");
    assert_eq!(unescape("\\t\\n".to_string()), "\t\n");
    assert_eq!(unescape("".to_string()), "");
}

#[test]
fn comments_run_to_the_end_of_the_line() {
    assert_eq!(
        kinds("1 // two three\n4"),
        vec![
            TokenType::Number(0).ordinal(),
            TokenType::Number(0).ordinal(),
            TokenType::Eof.ordinal()
        ]
    );
    assert_eq!(kinds("// only"), vec![TokenType::Eof.ordinal()]);
}

#[test]
fn unexpected_characters_are_reported_and_skipped() {
    let (tokens, errors) = scan("a # b");
    assert_eq!(errors.len(), 1);
    assert_eq!(errors.iter()[0].to_string(), "SyntaxError: Unexpected character. at s.hz:1:3");
    assert_eq!(tokens.len(), 3);
}

#[test]
fn unterminated_strings_are_reported() {
    let (tokens, errors) = scan("x \"abc");
    assert_eq!(errors.len(), 1);
    assert_eq!(errors.iter()[0].to_string(), "SyntaxError: Unterminated string. at s.hz:1:6");
    assert_eq!(tokens.len(), 2);
}

#[test]
fn characters_and_slices_of_them() {
    let chars = characters("h\u{e9}llo");
    assert_eq!(chars, vec!['h', '\u{e9}', 'l', 'l', 'o']);
    assert_eq!(text_between(&chars, 1, 4), "\u{e9}ll");
    assert_eq!(text_between(&chars, 2, 2), "");
}
