use hezen::error::HezenLineInfo;
use hezen::host::{Arithmetic, Host, Link};
use hezen::token::{Token, TokenType, Tokens};

struct Plain;

impl Host for Plain {
    fn parse_number(&mut self, text: &str) -> u64 {
        text.parse::<f64>().unwrap().to_bits()
    }

    fn arithmetic(&mut self, _operation: Arithmetic, left: u64, _right: u64) -> u64 {
        left
    }

    fn number_text(&mut self, number: u64) -> String {
        format!("{}", f64::from_bits(number))
    }

    fn clock(&mut self) -> u64 {
        0
    }

    fn write(&mut self, _text: &str) {}
}

fn token(ty: TokenType, lexeme: &str, line: usize, column: usize) -> Token {
    Token::new(ty, lexeme.to_string(), HezenLineInfo::new("t.hz".to_string(), line, column))
}

#[test]
fn tokens_are_equal_when_all_parts_are() {
    let a = token(TokenType::Identifier, "x", 1, 1);
    assert!(a.same(&token(TokenType::Identifier, "x", 1, 1)));
    assert!(a.same(&a.clone()));
    assert!(!a.same(&token(TokenType::Identifier, "y", 1, 1)));
    assert!(!a.same(&token(TokenType::Identifier, "x", 2, 1)));
    assert!(!a.same(&token(TokenType::Identifier, "x", 1, 2)));
    assert!(!a.same(&token(TokenType::Var, "x", 1, 1)));
    let other_file = Token::new(
        TokenType::Identifier,
        "x".to_string(),
        HezenLineInfo::new("u.hz".to_string(), 1, 1),
    );
    assert!(!a.same(&other_file));
}

#[test]
fn number_literals_compare_by_bit_pattern() {
    let zero = TokenType::Number(0.0f64.to_bits());
    let minus_zero = TokenType::Number((-0.0f64).to_bits());
    let nan = TokenType::Number(f64::NAN.to_bits());
    assert!(zero.same(&TokenType::Number(0.0f64.to_bits())));
    assert!(!zero.same(&minus_zero));
    assert!(nan.same(&TokenType::Number(f64::NAN.to_bits())));
    assert!(zero.is(&minus_zero));
    assert_eq!(zero.number(), Some(0));
    assert_eq!(TokenType::Plus.number(), None);
}

#[test]
fn string_literals_compare_by_text() {
    let a = TokenType::String("a".to_string());
    assert!(a.same(&TokenType::String("a".to_string())));
    assert!(!a.same(&TokenType::String("b".to_string())));
    assert!(a.is(&TokenType::String("b".to_string())));
    assert!(!a.same(&TokenType::Identifier));
    assert_eq!(a.text(), Some("a".to_string()));
    assert_eq!(TokenType::Identifier.text(), None);
}

#[test]
fn kinds_have_their_ordinals() {
    assert_eq!(TokenType::LeftParen.ordinal(), 0);
    assert_eq!(TokenType::Identifier.ordinal(), 19);
    assert_eq!(TokenType::String(String::new()).ordinal(), 20);
    assert_eq!(TokenType::Number(0).ordinal(), 21);
    assert_eq!(TokenType::And.ordinal(), 22);
    assert_eq!(TokenType::Eof.ordinal(), 40);
    assert_eq!(TokenType::Builtin.ordinal(), 41);
    assert!(TokenType::Plus.same(&TokenType::Plus.clone()));
    assert!(!TokenType::Plus.same(&TokenType::Minus));
    assert!(TokenType::Plus.is(&TokenType::Plus));
}

#[test]
fn token_lists_grow_in_order() {
    let mut tokens = Tokens::new();
    assert_eq!(tokens.len(), 0);
    tokens.add(token(TokenType::Var, "var", 1, 1));
    tokens.add(token(TokenType::Identifier, "x", 1, 5));
    assert_eq!(tokens.len(), 2);
    assert_eq!(tokens.get(0).lexeme, "var");
    assert_eq!(tokens.get(1).lexeme, "x");
    assert_eq!(tokens.get(1).position.column, 5);
}

#[test]
fn tokens_show_their_lexeme_and_kind() {
    let mut link = Link::new(Plain);
    assert_eq!(token(TokenType::Var, "var", 1, 1).to_string(&mut link), "var: var");
    assert_eq!(token(TokenType::Identifier, "x", 1, 1).to_string(&mut link), "x: identifier");
    assert_eq!(
        token(TokenType::String("hi".to_string()), "\"hi\"", 1, 1).to_string(&mut link),
        "\"hi\": \"hi\""
    );
    assert_eq!(
        token(TokenType::Number(1.5f64.to_bits()), "1.5", 1, 1).to_string(&mut link),
        "1.5: 1.5"
    );
    assert_eq!(TokenType::LeftBrace.to_string(&mut link), "{");
    assert_eq!(TokenType::BangEqual.to_string(&mut link), "!=");
    assert_eq!(TokenType::Self_.to_string(&mut link), "self");
    assert_eq!(TokenType::Eof.to_string(&mut link), "eof");
    let mut tokens = Tokens::new();
    tokens.add(token(TokenType::Identifier, "a", 1, 1));
    tokens.add(token(TokenType::Semicolon, ";", 1, 2));
    assert_eq!(tokens.to_string(&mut link), "a: identifier\n;: ;\n");
}
