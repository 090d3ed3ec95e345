use hezen::ast::{Expr, Literal, Stmt};
use hezen::error::{HezenErrorList, HezenLineInfo};
use hezen::host::{Arithmetic, Host, Link};
use hezen::lexer::Lexer;
use hezen::parser::{desugar, ParseError, Parser};
use hezen::token::{Token, TokenType, Tokens};

struct Plain;

impl Host for Plain {
    fn parse_number(&mut self, text: &str) -> u64 {
        text.parse::<f64>().unwrap().to_bits()
    }

    fn arithmetic(&mut self, _operation: Arithmetic, left: u64, _right: u64) -> u64 {
        left
    }

    fn number_text(&mut self, number: u64) -> String {
        format!("{}", f64::from_bits(number))
    }

    fn clock(&mut self) -> u64 {
        0
    }

    fn write(&mut self, _text: &str) {}
}

fn parse(source: &str) -> (Vec<Stmt>, Vec<String>) {
    let mut errors = HezenErrorList::default();
    let mut link = Link::new(Plain);
    let tokens = Lexer::new("p.hz".to_string(), source.to_string()).get_tokens(&mut errors, &mut link);
    assert!(errors.is_empty(), "{}", errors.to_string());
    let statements = Parser::new(tokens).parse(&mut errors);
    (statements, errors.iter().iter().map(|e| e.to_string()).collect())
}

fn tree(source: &str) -> Vec<String> {
    let (statements, errors) = parse(source);
    assert!(errors.is_empty(), "{errors:?}");
    let mut link = Link::new(Plain);
    statements.iter().map(|s| s.to_string(&mut link)).collect()
}

fn syntax_errors(source: &str) -> Vec<String> {
    parse(source).1
}

#[test]
fn factors_bind_tighter_than_terms() {
    assert_eq!(
        tree("1 + 2 * 3;"),
        vec!["(binary +  1 (binary *  2 3))"]
    );
    assert_eq!(
        tree("1 * 2 + 3;"),
        vec!["(binary +  (binary *  1 2) 3)"]
    );
}

#[test]
fn operators_of_one_level_group_to_the_left() {
    assert_eq!(tree("1 - 2 - 3;"), vec!["(binary -  (binary -  1 2) 3)"]);
    assert_eq!(tree("8 / 4 / 2;"), vec!["(binary /  (binary /  8 4) 2)"]);
    assert_eq!(
        tree("a or b or c;"),
        vec!["(logical or  (logical or  (variable a) (variable b)) (variable c))"]
    );
}

#[test]
fn the_levels_of_precedence_nest() {
    assert_eq!(
        tree("a or b and c == d < e + f * -g;"),
        vec![
            "(logical or  (variable a) (logical and  (variable b) (binary ==  (variable c) \
             (binary <  (variable d) (binary +  (variable e) (binary *  (variable f) (- (variable g))))))))"
        ]
    );
}

#[test]
fn parentheses_group() {
    assert_eq!(
        tree("(1 + 2) * 3;"),
        vec!["(binary *  (grouping (binary +  1 2)) 3)"]
    );
}

#[test]
fn unary_operators_nest() {
    assert_eq!(tree("!!true;"), vec!["(! (! true))"]);
    assert_eq!(tree("-x.y;"), vec!["(- (get (variable x) y))"]);
}

#[test]
fn literals_are_parsed() {
    assert_eq!(
        tree("nil; true; false; 1.5; \"s\";"),
        vec!["nil", "true", "false", "1.5", "\"s\""]
    );
}

#[test]
fn assignment_groups_to_the_right_and_needs_a_target() {
    assert_eq!(
        tree("a = b = 1;"),
        vec!["(assign a (assign b 1))"]
    );
    assert_eq!(tree("a.b.c = 2;"), vec!["(set (get (variable a) b) c to 2)"]);
    assert_eq!(
        syntax_errors("1 = 2;"),
        vec!["SyntaxError: Invalid assignment target. at p.hz:1:3"]
    );
    assert_eq!(
        syntax_errors("(a) = 2;"),
        vec!["SyntaxError: Invalid assignment target. at p.hz:1:5"]
    );
}

#[test]
fn calls_and_property_accesses_chain() {
    assert_eq!(
        tree("f(1, x)(2).g.h();"),
        vec![
            "(call callee: (get (get (call callee: (call callee: (variable f) (arguments 1 (variable x))) \
             (arguments 2)) g) h) (arguments))"
        ]
    );
}

#[test]
fn self_and_super_are_expressions() {
    assert_eq!(
        tree("class A < B { m() { self.x; super.m(); } }"),
        vec![
            "(class name: A superclass: (variable B) (methods (function name: m (block (get self x) \
             (call callee: (super super m) (arguments))))))"
        ]
    );
}

#[test]
fn declarations_are_parsed() {
    assert_eq!(
        tree("var a; var mut b = 1; fn f(x, y) { return x; } fn g() { return; } class C {}"),
        vec![
            "(var a)",
            "(var mut b = 1)",
            "(function name: f (params x y) (block (return (variable x))))",
            "(function name: g (block (return)))",
            "(class name: C (methods))",
        ]
    );
}

#[test]
fn control_flow_is_parsed() {
    assert_eq!(
        tree("if (a) { b; } else if (c) { d; } else { e; } while (f) { break; continue; }"),
        vec![
            "(if (grouping (variable a)) (then (block (variable b)))  else (if (grouping (variable c)) \
             (then (block (variable d)))  else (block (variable e))))",
            "(while (grouping (variable f)) (block break continue))",
        ]
    );
    assert_eq!(tree("if a b;"), vec!["(if (variable a) (then (variable b)) )"]);
}

#[test]
fn for_becomes_a_while_in_a_block() {
    assert_eq!(
        tree("for (var mut i = 0; i < 3; i = i + 1) { print(i); }"),
        vec![
            "(block (var mut i = 0) (while (binary <  (variable i) 3) (block (block (call callee: \
             (variable print) (arguments (variable i)))) (assign i (binary +  (variable i) 1)))))"
        ]
    );
    assert_eq!(tree("for (;;) {}"), vec!["(while true (block))"]);
    assert_eq!(
        tree("for (i = 0; ; ) {}"),
        vec!["(block (assign i 0) (while true (block)))"]
    );
    assert_eq!(
        tree("for (; a; b) {}"),
        vec!["(while (variable a) (block (block) (variable b)))"]
    );
}

#[test]
fn desugaring_builds_the_loop() {
    let mut link = Link::new(Plain);
    let body = Stmt::Block(Vec::new());
    let looped = desugar(None, None, None, body);
    assert_eq!(looped.to_string(&mut link), "(while true (block))");
    let stepped = desugar(
        Some(Stmt::Break),
        Some(Expr::Literal(Literal::Nil)),
        Some(Expr::Literal(Literal::Bool(false))),
        Stmt::Continue,
    );
    assert_eq!(stepped.to_string(&mut link), "(block break (while nil (block continue false)))");
}

#[test]
fn for_needs_a_block() {
    assert_eq!(
        syntax_errors("for (;;) x;"),
        vec!["SyntaxError: Expected '{' before block. at p.hz:1:10"]
    );
}

#[test]
fn every_missing_piece_has_its_message() {
    let cases = [
        ("var 1;", "Expected variable name."),
        ("var a = 1", "Expected ';' after variable declaration."),
        ("fn (", "Expected function name."),
        ("fn f {", "Expected '(' after function name."),
        ("fn f(1", "Expected parameter name."),
        ("fn f(a {", "Expected ')' after parameters."),
        ("fn f() 1", "Expected '{' before block."),
        ("{ 1;", "Expected '}' after block."),
        ("class 1", "Expected class name."),
        ("class A < 1", "Expected superclass name."),
        ("class A 1", "Expected '{' before class body."),
        ("class A { 1 }", "Expected method name."),
        ("class A { m 1 }", "Expected '(' after method name."),
        ("class A { m() {}", "Expected '}' after class body."),
        ("1", "Expected ';' after expression."),
        ("(1", "Expected ')' after expression."),
        ("f(1", "Expected ')' after arguments."),
        ("a.1", "Expected property name after '.'."),
        ("super x", "Expected '.' after 'super'."),
        ("super.1", "Expected superclass method name."),
        ("return 1", "Expected ';' after return value."),
        ("break", "Expected ';' after 'break' statement."),
        ("continue", "Expected ';' after continue statement."),
        ("for x", "Expected '(' after 'for'."),
        ("for (; a b) {}", "Expected ';' after loop condition."),
        ("for (;; a b) {}", "Expected ')' after for clauses."),
        (";", "Expected expression."),
    ];
    for (source, message) in cases {
        let errors = syntax_errors(source);
        assert!(!errors.is_empty(), "{source}");
        assert!(
            errors[0].starts_with(&format!("SyntaxError: {message} at p.hz:")),
            "{source}: {errors:?}"
        );
    }
}

#[test]
fn parser_recovers_at_the_next_statement() {
    let (statements, errors) = parse("var = 1; var ok = 2; print(; fn f() {} 1 +; class A {}");
    assert_eq!(
        errors,
        vec![
            "SyntaxError: Expected variable name. at p.hz:1:5",
            "SyntaxError: Expected expression. at p.hz:1:28",
            "SyntaxError: Expected expression. at p.hz:1:43",
        ]
    );
    let mut link = Link::new(Plain);
    let shown: Vec<String> = statements.iter().map(|s| s.to_string(&mut link)).collect();
    assert_eq!(
        shown,
        vec!["(var ok = 2)", "(function name: f (block))", "(class name: A (methods))"]
    );
}

#[test]
fn recovery_skips_the_token_that_was_refused() {
    let (statements, errors) = parse("class fn f() {} var a;");
    assert_eq!(errors, vec!["SyntaxError: Expected class name. at p.hz:1:7"]);
    let mut link = Link::new(Plain);
    let shown: Vec<String> = statements.iter().map(|s| s.to_string(&mut link)).collect();
    assert_eq!(shown, vec!["(var a)"]);
}

#[test]
fn errors_inside_a_block_leave_the_rest_of_it() {
    let (statements, errors) = parse("{ var a = ; b; }");
    assert_eq!(errors, vec!["SyntaxError: Expected expression. at p.hz:1:11"]);
    let mut link = Link::new(Plain);
    let shown: Vec<String> = statements.iter().map(|s| s.to_string(&mut link)).collect();
    assert_eq!(shown, vec!["(block (variable b))"]);
}

#[test]
fn the_parser_needs_no_end_token() {
    let mut errors = HezenErrorList::default();
    let statements = Parser::new(Tokens::new()).parse(&mut errors);
    assert!(statements.is_empty());
    assert!(errors.is_empty());
    let mut tokens = Tokens::new();
    tokens.add(Token::new(
        TokenType::Nil,
        "nil".to_string(),
        HezenLineInfo::new("p.hz".to_string(), 1, 1),
    ));
    let statements = Parser::new(tokens).parse(&mut errors);
    assert!(statements.is_empty());
    assert_eq!(errors.len(), 1);
    assert_eq!(errors.iter()[0].to_string(), "SyntaxError: Expected ';' after expression. at :0:0");
}

#[test]
fn parser_steps_over_tokens() {
    let mut errors = HezenErrorList::default();
    let mut link = Link::new(Plain);
    let tokens = Lexer::new("p.hz".to_string(), "a ; b".to_string()).get_tokens(&mut errors, &mut link);
    let mut parser = Parser::new(tokens);
    assert_eq!(parser.peek().lexeme, "a");
    assert!(parser.check(&TokenType::Identifier));
    assert!(!parser.check(&TokenType::Semicolon));
    assert!(!parser.is_at_end());
    assert!(!parser.match_token(&TokenType::Semicolon));
    assert!(parser.match_token(&TokenType::Identifier));
    assert_eq!(parser.previous().lexeme, "a");
    assert!(parser.consume(&mut errors, &TokenType::Semicolon, "expected").is_ok());
    let refused = parser.consume(&mut errors, &TokenType::Semicolon, "Expected ';'.");
    assert_eq!(refused.unwrap_err().to_string(), "[p.hz line 1:5] Error at 'b': Expected ';'.");
    assert_eq!(errors.len(), 1);
    parser.advance();
    assert!(parser.is_at_end());
    parser.advance();
    assert!(parser.is_at_end());
    assert_eq!(parser.current, 3);
}

#[test]
fn recovery_stops_behind_a_semicolon_or_before_a_statement() {
    let mut errors = HezenErrorList::default();
    let mut link = Link::new(Plain);
    let tokens =
        Lexer::new("p.hz".to_string(), "a b ; c d while e".to_string()).get_tokens(&mut errors, &mut link);
    let mut parser = Parser::new(tokens);
    parser.synchronize();
    assert_eq!(parser.current, 3);
    parser.synchronize();
    assert_eq!(parser.current, 5);
    parser.synchronize();
    assert_eq!(parser.current, 7);
    assert!(parser.is_at_end());
}

#[test]
fn parse_errors_name_their_token() {
    let token = Token::new(
        TokenType::Identifier,
        "x".to_string(),
        HezenLineInfo::new("p.hz".to_string(), 2, 3),
    );
    let error = ParseError::new(token, "Expected expression.".to_string());
    assert_eq!(error.message, "Expected expression.");
    assert_eq!(error.token.lexeme, "x");
    assert_eq!(error.to_string(), "[p.hz line 2:3] Error at 'x': Expected expression.");
}
