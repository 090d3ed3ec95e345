use vstd::prelude::*;
use vstd::string::*;
use std::rc::Rc;
use crate::ast::{
    expr_views, maybe_expr, stmt_views, token_views, Declaration, Expr, ExprView, Literal, Stmt,
    StmtView,
};
use crate::error::{Fault, HezenError, HezenErrorList, HezenLineInfo};
use crate::grammar::{
    advanced, arguments_rest, assignment, at_end, bare_statement, begins_statement, block_rest,
    block_statement, call, call_rest, chain, chain_rest, class_body, class_declaration, consume,
    declaration, declared, desugared, else_branch, expression, expression_statement, finish_call,
    for_clauses, for_initializer, for_statement, function_declaration, if_statement, initializer,
    later, methods_rest, operand, operator_of, optional_expression, parameters, parameters_rest,
    peek, previous, primary, program, return_statement, skipped, stands, statement, superclass,
    synchronized, unary, var_declaration, while_statement, Refusal,
};
use crate::text::join3;
use crate::token::{Token, TokenType, TokenView, Tokens};

verus! {

/// Why a parse was refused: the token at which, and the complaint.
#[derive(Debug)]
pub struct ParseError {
    pub token: Token,
    pub message: String,
}

impl View for ParseError {
    type V = Refusal;

    open spec fn view(&self) -> Refusal {
        Refusal { token: self.token@, message: self.message@ }
    }
}

impl ParseError {
    /// The refusal of a token, with a complaint.
    pub fn new(token: Token, message: String) -> (r: Self)
        ensures
            r == (ParseError { token, message }),
    {
        Self { token, message }
    }

    /// The one-line rendering of the refusal.
    pub fn to_string(&self) -> (r: String)
        ensures
            r@ == "["@ + self.token.position.file@ + " line "@ + crate::text::decimal_text(
                self.token.position.line as nat,
            ) + ":"@ + crate::text::decimal_text(self.token.position.column as nat)
                + "] Error at '"@ + self.token.lexeme@ + "': "@ + self.message@,
    {
        let mut text = String::from_str("[");
        text.append(self.token.position.file.as_str());
        text.append(" line ");
        text.append(crate::text::decimal(self.token.position.line).as_str());
        text.append(":");
        text.append(crate::text::decimal(self.token.position.column).as_str());
        text.append("] Error at '");
        text.append(self.token.lexeme.as_str());
        text.append("': ");
        text.append(self.message.as_str());
        text
    }
}

/// An expression or a refusal, as mathematical values.
pub open spec fn expr_outcome(r: Result<Expr, ParseError>) -> Result<ExprView, Refusal> {
    match r {
        Ok(expr) => Ok(expr@),
        Err(error) => Err(error@),
    }
}

/// A statement or a refusal, as mathematical values.
pub open spec fn stmt_outcome(r: Result<Stmt, ParseError>) -> Result<StmtView, Refusal> {
    match r {
        Ok(stmt) => Ok(stmt@),
        Err(error) => Err(error@),
    }
}

/// A token or a refusal, as mathematical values.
pub open spec fn token_outcome(r: Result<Token, ParseError>) -> Result<TokenView, Refusal> {
    match r {
        Ok(token) => Ok(token@),
        Err(error) => Err(error@),
    }
}

/// The parser: the tokens of a program and the position at which it stands.
#[derive(Debug)]
pub struct Parser {
    pub tokens: Tokens,
    pub current: usize,
}

/// That a parser went on by `used` tokens over the same tokens.
pub open spec fn stepped(before: Parser, now: Parser, used: nat) -> bool {
    now.tokens == before.tokens && now.current == before.current + used
}

impl Parser {
    /// The tokens as mathematical values.
    pub open spec fn stream(&self) -> Seq<TokenView> {
        token_views(self.tokens.list@)
    }

    /// The position as a natural number.
    pub open spec fn at(&self) -> nat {
        self.current as nat
    }

    /// The parser never stands behind the last token.
    pub open spec fn wf(&self) -> bool {
        self.current <= self.tokens.list@.len()
    }

    /// A parser at the first of the tokens.
    pub fn new(tokens: Tokens) -> (r: Self)
        ensures
            r.tokens == tokens,
            r.current == 0,
            r.wf(),
    {
        Self { tokens, current: 0 }
    }

    /// The token at which the parser stands.
    pub fn peek(&self) -> (r: Token)
        ensures
            r@ == peek(self.stream(), self.at()),
    {
        if self.current < self.tokens.list.len() {
            self.tokens.list[self.current].clone()
        } else {
            Token::new(
                TokenType::Eof,
                String::new(),
                HezenLineInfo { file: String::new(), line: 0, column: 0 },
            )
        }
    }

    /// The token before the one at which the parser stands.
    pub fn previous(&self) -> (r: Token)
        ensures
            r@ == previous(self.stream(), self.at()),
    {
        if 0 < self.current && self.current <= self.tokens.list.len() {
            self.tokens.list[self.current - 1].clone()
        } else {
            self.peek()
        }
    }

    /// Whether the parser stands at the end of the program.
    pub fn is_at_end(&self) -> (r: bool)
        ensures
            r == at_end(self.stream(), self.at()),
            !r ==> self.current < self.tokens.list@.len() && self.current < usize::MAX,
    {
        if self.current < self.tokens.list.len() {
            self.tokens.list[self.current].ty.is(&TokenType::Eof)
        } else {
            true
        }
    }

    /// Whether a token of a kind stands at the position.
    pub fn check(&self, kind: &TokenType) -> (r: bool)
        ensures
            r == stands(self.stream(), self.at(), *kind),
            r ==> self.current < self.tokens.list@.len() && self.current < usize::MAX,
    {
        if self.current < self.tokens.list.len() {
            let ty = &self.tokens.list[self.current].ty;
            !ty.is(&TokenType::Eof) && ty.is(kind)
        } else {
            false
        }
    }

    /// Goes on by one token, unless the end stands there.
    pub fn advance(&mut self)
        requires
            old(self).wf(),
        ensures
            final(self).wf(),
            final(self).tokens == old(self).tokens,
            final(self).current == advanced(old(self).stream(), old(self).at()),
    {
        if !self.is_at_end() {
            self.current = self.current + 1;
        }
    }

    /// Takes a token of a kind if one stands at the position.
    pub fn match_token(&mut self, kind: &TokenType) -> (r: bool)
        requires
            old(self).wf(),
        ensures
            final(self).wf(),
            final(self).tokens == old(self).tokens,
            r == stands(old(self).stream(), old(self).at(), *kind),
            final(self).current == old(self).current + (if r {
                1nat
            } else {
                0nat
            }),
    {
        if self.check(kind) {
            self.current = self.current + 1;
            true
        } else {
            false
        }
    }

    /// Refuses the token at the position and reports a syntax error.
    pub fn refuse(&self, errors: &mut HezenErrorList, message: &str) -> (r: ParseError)
        ensures
            r@ == (Refusal { token: peek(self.stream(), self.at()), message: message@ }),
            final(errors)@ == old(errors)@.push(
                Fault::Syntax(peek(self.stream(), self.at()).position, message@),
            ),
    {
        let token = self.peek();
        errors.add(
            HezenError::syntax_error(
                token.position.file.clone(),
                token.position.line,
                token.position.column,
                String::from_str(message),
            ),
        );
        ParseError::new(token, String::from_str(message))
    }

    /// Takes a token of a kind, or refuses the token that stands there.
    pub fn consume(&mut self, errors: &mut HezenErrorList, kind: &TokenType, message: &str) -> (r:
        Result<Token, ParseError>)
        requires
            old(self).wf(),
        ensures
            final(self).wf(),
            ({
                let p = consume(old(self).stream(), old(self).at(), old(errors)@, *kind, message@);
                stepped(*old(self), *final(self), p.used) && final(errors)@ == p.errors
                    && token_outcome(r) == p.result
            }),
    {
        if self.check(kind) {
            let token = self.tokens.list[self.current].clone();
            self.current = self.current + 1;
            Ok(token)
        } else {
            Err(self.refuse(errors, message))
        }
    }

    /// Recovers from a refusal: skips tokens up to where a declaration or a
    /// statement may begin.
    #[verifier::loop_isolation(false)]
    pub fn synchronize(&mut self)
        requires
            old(self).wf(),
        ensures
            final(self).wf(),
            final(self).tokens == old(self).tokens,
            final(self).current == old(self).current + synchronized(
                old(self).stream(),
                old(self).at(),
            ),
    {
        self.advance();
        let ghost start = self.current;
        while !self.is_at_end()
            invariant
                self.wf(),
                self.tokens == old(self).tokens,
                start <= self.current,
                skipped(self.stream(), start as nat) == (self.current - start) + skipped(
                    self.stream(),
                    self.at(),
                ),
            decreases self.tokens.list@.len() - self.current,
        {
            let before = if self.current > 0 {
                self.current - 1
            } else {
                self.current
            };
            if self.tokens.list[before].ty.is(&TokenType::Semicolon) {
                return ;
            }
            if begins(&self.tokens.list[self.current].ty) {
                return ;
            }
            self.current = self.current + 1;
        }
    }

    #[verifier::spinoff_prover]
    #[verifier::rlimit(100)]
    fn primary(&mut self, errors: &mut HezenErrorList) -> (r: Result<Expr, ParseError>)
        requires
            old(self).wf(),
        ensures
            final(self).wf(),
            ({
                let p = primary(old(self).stream(), old(self).at(), old(errors)@);
                stepped(*old(self), *final(self), p.used) && final(errors)@ == p.errors
                    && expr_outcome(r) == p.result
            }),
        decreases old(self).tokens.list@.len() - old(self).current, 0nat,
    {
        if self.match_token(&TokenType::False) {
            return Ok(Expr::Literal(Literal::Bool(false)));
        }
        if self.match_token(&TokenType::True) {
            return Ok(Expr::Literal(Literal::Bool(true)));
        }
        if self.match_token(&TokenType::Nil) {
            return Ok(Expr::Literal(Literal::Nil));
        }
        if !self.is_at_end() {
            match self.tokens.list[self.current].ty.number() {
                Some(bits) => {
                    self.current = self.current + 1;
                    return Ok(Expr::Literal(Literal::Number(bits)));
                },
                None => {},
            }
            match self.tokens.list[self.current].ty.text() {
                Some(text) => {
                    self.current = self.current + 1;
                    return Ok(Expr::Literal(Literal::String(text)));
                },
                None => {},
            }
        }
        if self.match_token(&TokenType::LeftParen) {
            let expr = match self.expression(errors) {
                Ok(expr) => expr,
                Err(error) => {
                    return Err(error);
                },
            };
            return match self.consume(errors, &TokenType::RightParen, "Expected ')' after expression.") {
                Ok(_) => Ok(Expr::Grouping(Box::new(expr))),
                Err(error) => Err(error),
            };
        }
        if self.match_token(&TokenType::Self_) {
            return Ok(Expr::Self_(self.previous()));
        }
        if self.match_token(&TokenType::Super) {
            let keyword = self.previous();
            match self.consume(errors, &TokenType::Dot, "Expected '.' after 'super'.") {
                Ok(_) => {},
                Err(error) => {
                    return Err(error);
                },
            }
            return match self.consume(
                errors,
                &TokenType::Identifier,
                "Expected superclass method name.",
            ) {
                Ok(method) => Ok(Expr::Super(keyword, method)),
                Err(error) => Err(error),
            };
        }
        if self.match_token(&TokenType::Identifier) {
            return Ok(Expr::Variable(self.previous()));
        }
        Err(self.refuse(errors, "Expected expression."))
    }

    #[verifier::spinoff_prover]
    #[verifier::rlimit(100)]
    fn arguments_rest(&mut self, errors: &mut HezenErrorList, taken: Vec<Expr>) -> (r: Result<
        Vec<Expr>,
        ParseError,
    >)
        requires
            old(self).wf(),
        ensures
            final(self).wf(),
            ({
                let p = arguments_rest(old(self).stream(), old(self).at(), old(errors)@, expr_views(taken@));
                stepped(*old(self), *final(self), p.used) && final(errors)@ == p.errors
                    && (match r {
                    Ok(values) => Ok(expr_views(values@)),
                    Err(error) => Err(error@),
                }) == p.result
            }),
        decreases old(self).tokens.list@.len() - old(self).current, 85nat,
    {
        if taken.len() >= 255 {
            return Err(self.refuse(errors, "Cannot have more than 255 arguments."));
        }
        let mut taken = taken;
        let expr = match self.expression(errors) {
            Ok(expr) => expr,
            Err(error) => {
                return Err(error);
            },
        };
        assert(expr_views(taken@.push(expr)) =~= expr_views(taken@).push(expr@));
        taken.push(expr);
        if self.match_token(&TokenType::Comma) {
            self.arguments_rest(errors, taken)
        } else {
            Ok(taken)
        }
    }

    #[verifier::spinoff_prover]
    #[verifier::rlimit(100)]
    fn finish_call(&mut self, errors: &mut HezenErrorList, callee: Expr) -> (r: Result<
        Expr,
        ParseError,
    >)
        requires
            old(self).wf(),
        ensures
            final(self).wf(),
            ({
                let p = finish_call(old(self).stream(), old(self).at(), old(errors)@, callee@);
                stepped(*old(self), *final(self), p.used) && final(errors)@ == p.errors
                    && expr_outcome(r) == p.result
            }),
        decreases old(self).tokens.list@.len() - old(self).current, 86nat,
    {
        let arguments: Vec<Expr> = Vec::new();
        assert(expr_views(arguments@) =~= Seq::<ExprView>::empty());
        let arguments = if self.check(&TokenType::RightParen) {
            arguments
        } else {
            match self.arguments_rest(errors, arguments) {
                Ok(arguments) => arguments,
                Err(error) => {
                    return Err(error);
                },
            }
        };
        match self.consume(errors, &TokenType::RightParen, "Expected ')' after arguments.") {
            Ok(paren) => {
                let call = Expr::Call(Box::new(callee), paren, arguments);
                assert(call@ == ExprView::Call(Box::new(callee@), paren@, expr_views(arguments@))) by {
                    assert(call@->Call_2 =~= expr_views(arguments@));
                }
                Ok(call)
            },
            Err(error) => Err(error),
        }
    }

    #[verifier::spinoff_prover]
    #[verifier::rlimit(100)]
    fn call_rest(&mut self, errors: &mut HezenErrorList, expr: Expr) -> (r: Result<Expr, ParseError>)
        requires
            old(self).wf(),
        ensures
            final(self).wf(),
            ({
                let p = call_rest(old(self).stream(), old(self).at(), old(errors)@, expr@);
                stepped(*old(self), *final(self), p.used) && final(errors)@ == p.errors
                    && expr_outcome(r) == p.result
            }),
        decreases old(self).tokens.list@.len() - old(self).current, 42nat,
    {
        if self.match_token(&TokenType::LeftParen) {
            match self.finish_call(errors, expr) {
                Ok(call) => self.call_rest(errors, call),
                Err(error) => Err(error),
            }
        } else if self.match_token(&TokenType::Dot) {
            match self.consume(errors, &TokenType::Identifier, "Expected property name after '.'.") {
                Ok(name) => self.call_rest(errors, Expr::Get(Box::new(expr), name)),
                Err(error) => Err(error),
            }
        } else {
            Ok(expr)
        }
    }

    #[verifier::spinoff_prover]
    #[verifier::rlimit(100)]
    fn call(&mut self, errors: &mut HezenErrorList) -> (r: Result<Expr, ParseError>)
        requires
            old(self).wf(),
        ensures
            final(self).wf(),
            ({
                let p = call(old(self).stream(), old(self).at(), old(errors)@);
                stepped(*old(self), *final(self), p.used) && final(errors)@ == p.errors
                    && expr_outcome(r) == p.result
            }),
        decreases old(self).tokens.list@.len() - old(self).current, 43nat,
    {
        match self.primary(errors) {
            Ok(expr) => self.call_rest(errors, expr),
            Err(error) => Err(error),
        }
    }

    #[verifier::spinoff_prover]
    #[verifier::rlimit(100)]
    fn unary(&mut self, errors: &mut HezenErrorList) -> (r: Result<Expr, ParseError>)
        requires
            old(self).wf(),
        ensures
            final(self).wf(),
            ({
                let p = unary(old(self).stream(), old(self).at(), old(errors)@);
                stepped(*old(self), *final(self), p.used) && final(errors)@ == p.errors
                    && expr_outcome(r) == p.result
            }),
        decreases old(self).tokens.list@.len() - old(self).current, 44nat,
    {
        if self.check(&TokenType::Bang) || self.check(&TokenType::Minus) {
            let operator = self.peek();
            self.current = self.current + 1;
            match self.unary(errors) {
                Ok(right) => Ok(Expr::Unary(operator, Box::new(right))),
                Err(error) => Err(error),
            }
        } else {
            self.call(errors)
        }
    }

    #[verifier::spinoff_prover]
    #[verifier::rlimit(100)]
    fn operand(&mut self, errors: &mut HezenErrorList, level: u8) -> (r: Result<Expr, ParseError>)
        requires
            old(self).wf(),
        ensures
            final(self).wf(),
            ({
                let p = operand(old(self).stream(), old(self).at(), old(errors)@, level as nat);
                stepped(*old(self), *final(self), p.used) && final(errors)@ == p.errors
                    && expr_outcome(r) == p.result
            }),
        decreases old(self).tokens.list@.len() - old(self).current, 45 + 3 * level,
    {
        if level == 0 {
            self.unary(errors)
        } else {
            self.chain(errors, level - 1)
        }
    }

    /// Whether an operator of a level of precedence stands at the position.
    fn operator_stands(&self, level: u8) -> (r: bool)
        ensures
            r == (!at_end(self.stream(), self.at()) && operator_of(
                level as nat,
                peek(self.stream(), self.at()).ty.ordinal,
            )),
            r ==> self.current < self.tokens.list@.len() && self.current < usize::MAX,
    {
        if self.is_at_end() {
            return false;
        }
        let ty = &self.tokens.list[self.current].ty;
        if level == 0 {
            ty.is(&TokenType::Star) || ty.is(&TokenType::Slash)
        } else if level == 1 {
            ty.is(&TokenType::Minus) || ty.is(&TokenType::Plus)
        } else if level == 2 {
            ty.is(&TokenType::Greater) || ty.is(&TokenType::GreaterEqual) || ty.is(&TokenType::Less)
                || ty.is(&TokenType::LessEqual)
        } else if level == 3 {
            ty.is(&TokenType::BangEqual) || ty.is(&TokenType::EqualEqual)
        } else if level == 4 {
            ty.is(&TokenType::And)
        } else {
            ty.is(&TokenType::Or)
        }
    }

    #[verifier::spinoff_prover]
    #[verifier::rlimit(100)]
    fn chain_rest(&mut self, errors: &mut HezenErrorList, level: u8, left: Expr) -> (r: Result<
        Expr,
        ParseError,
    >)
        requires
            old(self).wf(),
        ensures
            final(self).wf(),
            ({
                let p = chain_rest(old(self).stream(), old(self).at(), old(errors)@, level as nat, left@);
                stepped(*old(self), *final(self), p.used) && final(errors)@ == p.errors
                    && expr_outcome(r) == p.result
            }),
        decreases old(self).tokens.list@.len() - old(self).current, 46 + 3 * level,
    {
        if self.operator_stands(level) {
            let operator = self.peek();
            self.current = self.current + 1;
            match self.operand(errors, level) {
                Ok(right) => {
                    let joined = if level >= 4 {
                        Expr::Logical(Box::new(left), operator, Box::new(right))
                    } else {
                        Expr::Binary(Box::new(left), operator, Box::new(right))
                    };
                    self.chain_rest(errors, level, joined)
                },
                Err(error) => Err(error),
            }
        } else {
            Ok(left)
        }
    }

    #[verifier::spinoff_prover]
    #[verifier::rlimit(100)]
    fn chain(&mut self, errors: &mut HezenErrorList, level: u8) -> (r: Result<Expr, ParseError>)
        requires
            old(self).wf(),
        ensures
            final(self).wf(),
            ({
                let p = chain(old(self).stream(), old(self).at(), old(errors)@, level as nat);
                stepped(*old(self), *final(self), p.used) && final(errors)@ == p.errors
                    && expr_outcome(r) == p.result
            }),
        decreases old(self).tokens.list@.len() - old(self).current, 47 + 3 * level,
    {
        match self.operand(errors, level) {
            Ok(left) => self.chain_rest(errors, level, left),
            Err(error) => Err(error),
        }
    }

    #[verifier::spinoff_prover]
    #[verifier::rlimit(100)]
    fn assignment(&mut self, errors: &mut HezenErrorList) -> (r: Result<Expr, ParseError>)
        requires
            old(self).wf(),
        ensures
            final(self).wf(),
            ({
                let p = assignment(old(self).stream(), old(self).at(), old(errors)@);
                stepped(*old(self), *final(self), p.used) && final(errors)@ == p.errors
                    && expr_outcome(r) == p.result
            }),
        decreases old(self).tokens.list@.len() - old(self).current, 70nat,
    {
        let expr = match self.chain(errors, 5) {
            Ok(expr) => expr,
            Err(error) => {
                return Err(error);
            },
        };
        if self.check(&TokenType::Equal) {
            let equals = self.peek();
            self.current = self.current + 1;
            let value = match self.assignment(errors) {
                Ok(value) => value,
                Err(error) => {
                    return Err(error);
                },
            };
            match expr {
                Expr::Variable(name) => Ok(Expr::Assign(name, Box::new(value))),
                Expr::Get(object, name) => Ok(Expr::SetProperty(object, name, Box::new(value))),
                _ => {
                    errors.add(
                        HezenError::syntax_error(
                            equals.position.file.clone(),
                            equals.position.line,
                            equals.position.column,
                            String::from_str("Invalid assignment target."),
                        ),
                    );
                    Err(ParseError::new(equals, String::from_str("Invalid assignment target.")))
                },
            }
        } else {
            Ok(expr)
        }
    }

    #[verifier::spinoff_prover]
    #[verifier::rlimit(100)]
    fn expression(&mut self, errors: &mut HezenErrorList) -> (r: Result<Expr, ParseError>)
        requires
            old(self).wf(),
        ensures
            final(self).wf(),
            ({
                let p = expression(old(self).stream(), old(self).at(), old(errors)@);
                stepped(*old(self), *final(self), p.used) && final(errors)@ == p.errors
                    && expr_outcome(r) == p.result
            }),
        decreases old(self).tokens.list@.len() - old(self).current, 71nat,
    {
        self.assignment(errors)
    }

    #[verifier::spinoff_prover]
    #[verifier::rlimit(100)]
    fn expression_statement(&mut self, errors: &mut HezenErrorList) -> (r: Result<Stmt, ParseError>)
        requires
            old(self).wf(),
        ensures
            final(self).wf(),
            ({
                let p = expression_statement(old(self).stream(), old(self).at(), old(errors)@);
                stepped(*old(self), *final(self), p.used) && final(errors)@ == p.errors
                    && stmt_outcome(r) == p.result
            }),
            r.is_ok() ==> final(self).current > old(self).current,
        decreases old(self).tokens.list@.len() - old(self).current, 72nat,
    {
        let expr = match self.expression(errors) {
            Ok(expr) => expr,
            Err(error) => {
                return Err(error);
            },
        };
        match self.consume(errors, &TokenType::Semicolon, "Expected ';' after expression.") {
            Ok(_) => Ok(Stmt::Expression(expr)),
            Err(error) => Err(error),
        }
    }

    #[verifier::spinoff_prover]
    #[verifier::rlimit(100)]
    fn initializer(&mut self, errors: &mut HezenErrorList) -> (r: Result<Option<Expr>, ParseError>)
        requires
            old(self).wf(),
        ensures
            final(self).wf(),
            ({
                let p = initializer(old(self).stream(), old(self).at(), old(errors)@);
                stepped(*old(self), *final(self), p.used) && final(errors)@ == p.errors
                    && (match r {
                    Ok(found) => Ok(maybe_expr(found)),
                    Err(error) => Err(error@),
                }) == p.result
            }),
        decreases old(self).tokens.list@.len() - old(self).current, 72nat,
    {
        if self.match_token(&TokenType::Equal) {
            match self.expression(errors) {
                Ok(expr) => Ok(Some(expr)),
                Err(error) => Err(error),
            }
        } else {
            Ok(None)
        }
    }

    #[verifier::spinoff_prover]
    #[verifier::rlimit(100)]
    fn var_declaration(&mut self, errors: &mut HezenErrorList) -> (r: Result<Stmt, ParseError>)
        requires
            old(self).wf(),
        ensures
            final(self).wf(),
            ({
                let p = var_declaration(old(self).stream(), old(self).at(), old(errors)@);
                stepped(*old(self), *final(self), p.used) && final(errors)@ == p.errors
                    && stmt_outcome(r) == p.result
            }),
        decreases old(self).tokens.list@.len() - old(self).current, 73nat,
    {
        let mutable = self.match_token(&TokenType::Mut);
        let name = match self.consume(errors, &TokenType::Identifier, "Expected variable name.") {
            Ok(name) => name,
            Err(error) => {
                return Err(error);
            },
        };
        let initializer = match self.initializer(errors) {
            Ok(initializer) => initializer,
            Err(error) => {
                return Err(error);
            },
        };
        match self.consume(errors, &TokenType::Semicolon, "Expected ';' after variable declaration.") {
            Ok(_) => {
                if mutable {
                    Ok(Stmt::VarMut(name, initializer))
                } else {
                    Ok(Stmt::Var(name, initializer))
                }
            },
            Err(error) => Err(error),
        }
    }

    #[verifier::spinoff_prover]
    #[verifier::rlimit(100)]
    fn parameters_rest(&mut self, errors: &mut HezenErrorList, taken: Vec<Token>) -> (r: Result<
        Vec<Token>,
        ParseError,
    >)
        requires
            old(self).wf(),
        ensures
            final(self).wf(),
            ({
                let p = parameters_rest(old(self).stream(), old(self).at(), old(errors)@, token_views(taken@));
                stepped(*old(self), *final(self), p.used) && final(errors)@ == p.errors
                    && (match r {
                    Ok(names) => Ok(token_views(names@)),
                    Err(error) => Err(error@),
                }) == p.result
            }),
        decreases old(self).tokens.list@.len() - old(self).current,
    {
        if taken.len() >= 255 {
            return Err(self.refuse(errors, "Cannot have more than 255 parameters."));
        }
        let mut taken = taken;
        let name = match self.consume(errors, &TokenType::Identifier, "Expected parameter name.") {
            Ok(name) => name,
            Err(error) => {
                return Err(error);
            },
        };
        assert(token_views(taken@.push(name)) =~= token_views(taken@).push(name@));
        taken.push(name);
        if self.match_token(&TokenType::Comma) {
            self.parameters_rest(errors, taken)
        } else {
            Ok(taken)
        }
    }

    #[verifier::spinoff_prover]
    #[verifier::rlimit(100)]
    fn parameters(&mut self, errors: &mut HezenErrorList, kind: &str) -> (r: Result<
        Vec<Token>,
        ParseError,
    >)
        requires
            old(self).wf(),
        ensures
            final(self).wf(),
            ({
                let p = parameters(old(self).stream(), old(self).at(), old(errors)@, kind@);
                stepped(*old(self), *final(self), p.used) && final(errors)@ == p.errors
                    && (match r {
                    Ok(names) => Ok(token_views(names@)),
                    Err(error) => Err(error@),
                }) == p.result
            }),
            r.is_ok() ==> final(self).current > old(self).current,
    {
        match self.consume(
            errors,
            &TokenType::LeftParen,
            join3("Expected '(' after ", kind, " name.").as_str(),
        ) {
            Ok(_) => {},
            Err(error) => {
                return Err(error);
            },
        }
        let names: Vec<Token> = Vec::new();
        assert(token_views(names@) =~= Seq::<TokenView>::empty());
        let names = if self.check(&TokenType::RightParen) {
            names
        } else {
            match self.parameters_rest(errors, names) {
                Ok(names) => names,
                Err(error) => {
                    return Err(error);
                },
            }
        };
        match self.consume(errors, &TokenType::RightParen, "Expected ')' after parameters.") {
            Ok(_) => Ok(names),
            Err(error) => Err(error),
        }
    }

    #[verifier::spinoff_prover]
    #[verifier::rlimit(100)]
    fn function_declaration(&mut self, errors: &mut HezenErrorList, kind: &str) -> (r: Result<
        Stmt,
        ParseError,
    >)
        requires
            old(self).wf(),
        ensures
            final(self).wf(),
            ({
                let p = function_declaration(old(self).stream(), old(self).at(), old(errors)@, kind@);
                stepped(*old(self), *final(self), p.used) && final(errors)@ == p.errors
                    && stmt_outcome(r) == p.result
            }),
            r.is_ok() ==> final(self).current > old(self).current,
        decreases old(self).tokens.list@.len() - old(self).current, 74nat,
    {
        let name = match self.consume(
            errors,
            &TokenType::Identifier,
            join3("Expected ", kind, " name.").as_str(),
        ) {
            Ok(name) => name,
            Err(error) => {
                return Err(error);
            },
        };
        let parameters = match self.parameters(errors, kind) {
            Ok(parameters) => parameters,
            Err(error) => {
                return Err(error);
            },
        };
        match self.block_statement(errors) {
            Ok(body) => Ok(Stmt::Function(Rc::new(Declaration { name, parameters, body }))),
            Err(error) => Err(error),
        }
    }

    #[verifier::spinoff_prover]
    #[verifier::rlimit(100)]
    fn superclass(&mut self, errors: &mut HezenErrorList) -> (r: Result<Option<Expr>, ParseError>)
        requires
            old(self).wf(),
        ensures
            final(self).wf(),
            ({
                let p = superclass(old(self).stream(), old(self).at(), old(errors)@);
                stepped(*old(self), *final(self), p.used) && final(errors)@ == p.errors
                    && (match r {
                    Ok(found) => Ok(maybe_expr(found)),
                    Err(error) => Err(error@),
                }) == p.result
            }),
    {
        if self.match_token(&TokenType::Less) {
            match self.consume(errors, &TokenType::Identifier, "Expected superclass name.") {
                Ok(parent) => Ok(Some(Expr::Variable(parent))),
                Err(error) => Err(error),
            }
        } else {
            Ok(None)
        }
    }

    /// The methods of a class, up to the closing brace or the end.
    #[verifier::spinoff_prover]
    #[verifier::rlimit(100)]
    fn methods_rest(&mut self, errors: &mut HezenErrorList) -> (r: Result<Vec<Stmt>, ParseError>)
        requires
            old(self).wf(),
        ensures
            final(self).wf(),
            ({
                let p = methods_rest(old(self).stream(), old(self).at(), old(errors)@, Seq::empty());
                stepped(*old(self), *final(self), p.used) && final(errors)@ == p.errors && (match r {
                    Ok(methods) => Ok(stmt_views(methods@)),
                    Err(error) => Err(error@),
                }) == p.result
            }),
        decreases old(self).tokens.list@.len() - old(self).current, 75nat,
    {
        let ghost start = self.at();
        let ghost reported = errors@;
        let ghost stream = self.stream();
        let mut methods: Vec<Stmt> = Vec::new();
        assert(stmt_views(methods@) =~= Seq::<StmtView>::empty());
        while !self.check(&TokenType::RightBrace) && !self.is_at_end()
            invariant
                self.wf(),
                self.tokens == old(self).tokens,
                stream == self.stream(),
                start == old(self).at(),
                reported == old(errors)@,
                start <= self.current,
                methods_rest(stream, start, reported, Seq::empty()) == crate::grammar::after(
                    (self.current - start) as nat,
                    methods_rest(stream, self.at(), errors@, stmt_views(methods@)),
                ),
            decreases self.tokens.list@.len() - self.current,
        {
            let ghost taken = stmt_views(methods@);
            match self.function_declaration(errors, "method") {
                Ok(method) => {
                    assert(stmt_views(methods@.push(method)) =~= taken.push(method@));
                    methods.push(method);
                },
                Err(error) => {
                    return Err(error);
                },
            }
        }
        Ok(methods)
    }

    #[verifier::spinoff_prover]
    #[verifier::rlimit(100)]
    fn class_body(&mut self, errors: &mut HezenErrorList) -> (r: Result<Vec<Stmt>, ParseError>)
        requires
            old(self).wf(),
        ensures
            final(self).wf(),
            ({
                let p = class_body(old(self).stream(), old(self).at(), old(errors)@);
                stepped(*old(self), *final(self), p.used) && final(errors)@ == p.errors && (match r {
                    Ok(methods) => Ok(stmt_views(methods@)),
                    Err(error) => Err(error@),
                }) == p.result
            }),
        decreases old(self).tokens.list@.len() - old(self).current, 76nat,
    {
        match self.consume(errors, &TokenType::LeftBrace, "Expected '{' before class body.") {
            Ok(_) => {},
            Err(error) => {
                return Err(error);
            },
        }
        let methods = match self.methods_rest(errors) {
            Ok(methods) => methods,
            Err(error) => {
                return Err(error);
            },
        };
        match self.consume(errors, &TokenType::RightBrace, "Expected '}' after class body.") {
            Ok(_) => Ok(methods),
            Err(error) => Err(error),
        }
    }

    #[verifier::spinoff_prover]
    #[verifier::rlimit(100)]
    fn class_declaration(&mut self, errors: &mut HezenErrorList) -> (r: Result<Stmt, ParseError>)
        requires
            old(self).wf(),
        ensures
            final(self).wf(),
            ({
                let p = class_declaration(old(self).stream(), old(self).at(), old(errors)@);
                stepped(*old(self), *final(self), p.used) && final(errors)@ == p.errors
                    && stmt_outcome(r) == p.result
            }),
        decreases old(self).tokens.list@.len() - old(self).current, 77nat,
    {
        let name = match self.consume(errors, &TokenType::Identifier, "Expected class name.") {
            Ok(name) => name,
            Err(error) => {
                return Err(error);
            },
        };
        let superclass = match self.superclass(errors) {
            Ok(superclass) => superclass,
            Err(error) => {
                return Err(error);
            },
        };
        match self.class_body(errors) {
            Ok(methods) => {
                let class = Stmt::Class(name, superclass, methods);
                assert(class@ == StmtView::Class(name@, maybe_expr(superclass), stmt_views(methods@)))
                    by {
                    assert(class@->Class_2 =~= stmt_views(methods@));
                }
                Ok(class)
            },
            Err(error) => Err(error),
        }
    }

    /// The declarations of a block, up to the closing brace or the end.
    #[verifier::spinoff_prover]
    #[verifier::rlimit(100)]
    fn block_rest(&mut self, errors: &mut HezenErrorList) -> (r: Vec<Stmt>)
        requires
            old(self).wf(),
        ensures
            final(self).wf(),
            ({
                let p = block_rest(old(self).stream(), old(self).at(), old(errors)@, Seq::empty());
                stepped(*old(self), *final(self), p.used) && final(errors)@ == p.errors
                    && stmt_views(r@) == p.value
            }),
        decreases old(self).tokens.list@.len() - old(self).current, 95nat,
    {
        let ghost start = self.at();
        let ghost reported = errors@;
        let ghost stream = self.stream();
        let mut statements: Vec<Stmt> = Vec::new();
        assert(stmt_views(statements@) =~= Seq::<StmtView>::empty());
        while !self.check(&TokenType::RightBrace) && !self.is_at_end()
            invariant
                self.wf(),
                self.tokens == old(self).tokens,
                stream == self.stream(),
                start == old(self).at(),
                start <= self.current,
                block_rest(stream, start, reported, Seq::empty()) == later(
                    (self.current - start) as nat,
                    block_rest(stream, self.at(), errors@, stmt_views(statements@)),
                ),
            decreases self.tokens.list@.len() - self.current,
        {
            let ghost taken = stmt_views(statements@);
            match self.declaration(errors) {
                Some(statement) => {
                    assert(stmt_views(statements@.push(statement)) =~= taken.push(statement@));
                    statements.push(statement);
                },
                None => {},
            }
        }
        statements
    }

    #[verifier::spinoff_prover]
    #[verifier::rlimit(100)]
    fn block_statement(&mut self, errors: &mut HezenErrorList) -> (r: Result<Stmt, ParseError>)
        requires
            old(self).wf(),
        ensures
            final(self).wf(),
            ({
                let p = block_statement(old(self).stream(), old(self).at(), old(errors)@);
                stepped(*old(self), *final(self), p.used) && final(errors)@ == p.errors
                    && stmt_outcome(r) == p.result
            }),
            r.is_ok() ==> final(self).current > old(self).current,
        decreases old(self).tokens.list@.len() - old(self).current, 73nat,
    {
        match self.consume(errors, &TokenType::LeftBrace, "Expected '{' before block.") {
            Ok(_) => {},
            Err(error) => {
                return Err(error);
            },
        }
        let statements = self.block_rest(errors);
        match self.consume(errors, &TokenType::RightBrace, "Expected '}' after block.") {
            Ok(_) => {
                let block = Stmt::Block(statements);
                assert(block@ == StmtView::Block(stmt_views(statements@))) by {
                    assert(block@->Block_0 =~= stmt_views(statements@));
                }
                Ok(block)
            },
            Err(error) => Err(error),
        }
    }

    #[verifier::spinoff_prover]
    #[verifier::rlimit(100)]
    fn declared(&mut self, errors: &mut HezenErrorList) -> (r: Result<Stmt, ParseError>)
        requires
            old(self).wf(),
        ensures
            final(self).wf(),
            ({
                let p = declared(old(self).stream(), old(self).at(), old(errors)@);
                stepped(*old(self), *final(self), p.used) && final(errors)@ == p.errors
                    && stmt_outcome(r) == p.result
            }),
            r.is_ok() ==> final(self).current > old(self).current,
        decreases old(self).tokens.list@.len() - old(self).current, 89nat,
    {
        if self.match_token(&TokenType::Class) {
            self.class_declaration(errors)
        } else if self.match_token(&TokenType::Fn) {
            self.function_declaration(errors, "function")
        } else if self.match_token(&TokenType::Var) {
            self.var_declaration(errors)
        } else {
            self.statement(errors)
        }
    }

    /// A declaration: a class, a function, a variable or a statement. A
    /// refusal is recovered from here, and leaves no statement.
    #[verifier::spinoff_prover]
    #[verifier::rlimit(100)]
    fn declaration(&mut self, errors: &mut HezenErrorList) -> (r: Option<Stmt>)
        requires
            old(self).wf(),
        ensures
            final(self).wf(),
            ({
                let p = declaration(old(self).stream(), old(self).at(), old(errors)@);
                stepped(*old(self), *final(self), p.used) && final(errors)@ == p.errors && (match r {
                    Some(statement) => Some(statement@),
                    None => None,
                }) == p.value
            }),
            !at_end(old(self).stream(), old(self).at()) ==> final(self).current > old(self).current,
        decreases old(self).tokens.list@.len() - old(self).current, 90nat,
    {
        match self.declared(errors) {
            Ok(statement) => Some(statement),
            Err(_) => {
                self.synchronize();
                None
            },
        }
    }

    #[verifier::spinoff_prover]
    #[verifier::rlimit(100)]
    fn bare_statement(&mut self, errors: &mut HezenErrorList, statement: Stmt, message: &str) -> (r:
        Result<Stmt, ParseError>)
        requires
            old(self).wf(),
        ensures
            final(self).wf(),
            ({
                let p = bare_statement(old(self).stream(), old(self).at(), old(errors)@, statement@, message@);
                stepped(*old(self), *final(self), p.used) && final(errors)@ == p.errors
                    && stmt_outcome(r) == p.result
            }),
    {
        match self.consume(errors, &TokenType::Semicolon, message) {
            Ok(_) => Ok(statement),
            Err(error) => Err(error),
        }
    }

    #[verifier::spinoff_prover]
    #[verifier::rlimit(100)]
    fn statement(&mut self, errors: &mut HezenErrorList) -> (r: Result<Stmt, ParseError>)
        requires
            old(self).wf(),
        ensures
            final(self).wf(),
            ({
                let p = statement(old(self).stream(), old(self).at(), old(errors)@);
                stepped(*old(self), *final(self), p.used) && final(errors)@ == p.errors
                    && stmt_outcome(r) == p.result
            }),
            r.is_ok() ==> final(self).current > old(self).current,
        decreases old(self).tokens.list@.len() - old(self).current, 80nat,
    {
        if self.match_token(&TokenType::Return) {
            self.return_statement(errors)
        } else if self.match_token(&TokenType::Break) {
            self.bare_statement(errors, Stmt::Break, "Expected ';' after 'break' statement.")
        } else if self.match_token(&TokenType::Continue) {
            self.bare_statement(errors, Stmt::Continue, "Expected ';' after continue statement.")
        } else if self.match_token(&TokenType::For) {
            self.for_statement(errors)
        } else if self.match_token(&TokenType::If) {
            self.if_statement(errors)
        } else if self.match_token(&TokenType::While) {
            self.while_statement(errors)
        } else if self.check(&TokenType::LeftBrace) {
            self.block_statement(errors)
        } else {
            self.expression_statement(errors)
        }
    }

    #[verifier::spinoff_prover]
    #[verifier::rlimit(100)]
    fn optional_expression(&mut self, errors: &mut HezenErrorList, stop: &TokenType) -> (r: Result<
        Option<Expr>,
        ParseError,
    >)
        requires
            old(self).wf(),
        ensures
            final(self).wf(),
            ({
                let p = optional_expression(old(self).stream(), old(self).at(), old(errors)@, *stop);
                stepped(*old(self), *final(self), p.used) && final(errors)@ == p.errors
                    && (match r {
                    Ok(found) => Ok(maybe_expr(found)),
                    Err(error) => Err(error@),
                }) == p.result
            }),
        decreases old(self).tokens.list@.len() - old(self).current, 72nat,
    {
        if !self.check(stop) {
            match self.expression(errors) {
                Ok(expr) => Ok(Some(expr)),
                Err(error) => Err(error),
            }
        } else {
            Ok(None)
        }
    }

    #[verifier::spinoff_prover]
    #[verifier::rlimit(100)]
    fn return_statement(&mut self, errors: &mut HezenErrorList) -> (r: Result<Stmt, ParseError>)
        requires
            old(self).wf(),
        ensures
            final(self).wf(),
            ({
                let p = return_statement(old(self).stream(), old(self).at(), old(errors)@);
                stepped(*old(self), *final(self), p.used) && final(errors)@ == p.errors
                    && stmt_outcome(r) == p.result
            }),
        decreases old(self).tokens.list@.len() - old(self).current, 73nat,
    {
        let keyword = self.previous();
        let value = match self.optional_expression(errors, &TokenType::Semicolon) {
            Ok(value) => value,
            Err(error) => {
                return Err(error);
            },
        };
        match self.consume(errors, &TokenType::Semicolon, "Expected ';' after return value.") {
            Ok(_) => Ok(Stmt::Return(keyword, value)),
            Err(error) => Err(error),
        }
    }

    #[verifier::spinoff_prover]
    #[verifier::rlimit(100)]
    fn while_statement(&mut self, errors: &mut HezenErrorList) -> (r: Result<Stmt, ParseError>)
        requires
            old(self).wf(),
        ensures
            final(self).wf(),
            ({
                let p = while_statement(old(self).stream(), old(self).at(), old(errors)@);
                stepped(*old(self), *final(self), p.used) && final(errors)@ == p.errors
                    && stmt_outcome(r) == p.result
            }),
        decreases old(self).tokens.list@.len() - old(self).current, 74nat,
    {
        let condition = match self.expression(errors) {
            Ok(expr) => expr,
            Err(error) => {
                return Err(error);
            },
        };
        match self.block_statement(errors) {
            Ok(body) => Ok(Stmt::While(condition, Box::new(body))),
            Err(error) => Err(error),
        }
    }

    #[verifier::spinoff_prover]
    #[verifier::rlimit(100)]
    fn else_branch(&mut self, errors: &mut HezenErrorList) -> (r: Result<
        Option<Box<Stmt>>,
        ParseError,
    >)
        requires
            old(self).wf(),
        ensures
            final(self).wf(),
            ({
                let p = else_branch(old(self).stream(), old(self).at(), old(errors)@);
                stepped(*old(self), *final(self), p.used) && final(errors)@ == p.errors
                    && (match r {
                    Ok(Some(branch)) => Ok(Some(Box::new(branch@))),
                    Ok(None) => Ok(None),
                    Err(error) => Err(error@),
                }) == p.result
            }),
        decreases old(self).tokens.list@.len() - old(self).current, 82nat,
    {
        if self.match_token(&TokenType::Else) {
            let branch = if self.match_token(&TokenType::If) {
                self.if_statement(errors)
            } else {
                self.block_statement(errors)
            };
            match branch {
                Ok(statement) => Ok(Some(Box::new(statement))),
                Err(error) => Err(error),
            }
        } else {
            Ok(None)
        }
    }

    #[verifier::spinoff_prover]
    #[verifier::rlimit(100)]
    fn if_statement(&mut self, errors: &mut HezenErrorList) -> (r: Result<Stmt, ParseError>)
        requires
            old(self).wf(),
        ensures
            final(self).wf(),
            ({
                let p = if_statement(old(self).stream(), old(self).at(), old(errors)@);
                stepped(*old(self), *final(self), p.used) && final(errors)@ == p.errors
                    && stmt_outcome(r) == p.result
            }),
        decreases old(self).tokens.list@.len() - old(self).current, 83nat,
    {
        let condition = match self.expression(errors) {
            Ok(expr) => expr,
            Err(error) => {
                return Err(error);
            },
        };
        let then_branch = match self.statement(errors) {
            Ok(statement) => statement,
            Err(error) => {
                return Err(error);
            },
        };
        match self.else_branch(errors) {
            Ok(other) => Ok(Stmt::If(condition, Box::new(then_branch), other)),
            Err(error) => Err(error),
        }
    }

    #[verifier::spinoff_prover]
    #[verifier::rlimit(100)]
    fn for_initializer(&mut self, errors: &mut HezenErrorList) -> (r: Result<Option<Stmt>, ParseError>)
        requires
            old(self).wf(),
        ensures
            final(self).wf(),
            ({
                let p = for_initializer(old(self).stream(), old(self).at(), old(errors)@);
                stepped(*old(self), *final(self), p.used) && final(errors)@ == p.errors
                    && (match r {
                    Ok(Some(statement)) => Ok(Some(statement@)),
                    Ok(None) => Ok(None),
                    Err(error) => Err(error@),
                }) == p.result
            }),
        decreases old(self).tokens.list@.len() - old(self).current, 74nat,
    {
        if self.match_token(&TokenType::Semicolon) {
            Ok(None)
        } else {
            let first = if self.match_token(&TokenType::Var) {
                self.var_declaration(errors)
            } else {
                self.expression_statement(errors)
            };
            match first {
                Ok(statement) => Ok(Some(statement)),
                Err(error) => Err(error),
            }
        }
    }

    #[verifier::spinoff_prover]
    #[verifier::rlimit(100)]
    fn for_clauses(&mut self, errors: &mut HezenErrorList) -> (r: Result<
        (Option<Expr>, Option<Expr>),
        ParseError,
    >)
        requires
            old(self).wf(),
        ensures
            final(self).wf(),
            ({
                let p = for_clauses(old(self).stream(), old(self).at(), old(errors)@);
                stepped(*old(self), *final(self), p.used) && final(errors)@ == p.errors
                    && (match r {
                    Ok(found) => Ok((maybe_expr(found.0), maybe_expr(found.1))),
                    Err(error) => Err(error@),
                }) == p.result
            }),
        decreases old(self).tokens.list@.len() - old(self).current, 74nat,
    {
        let condition = match self.optional_expression(errors, &TokenType::Semicolon) {
            Ok(condition) => condition,
            Err(error) => {
                return Err(error);
            },
        };
        match self.consume(errors, &TokenType::Semicolon, "Expected ';' after loop condition.") {
            Ok(_) => {},
            Err(error) => {
                return Err(error);
            },
        }
        let increment = match self.optional_expression(errors, &TokenType::RightParen) {
            Ok(increment) => increment,
            Err(error) => {
                return Err(error);
            },
        };
        match self.consume(errors, &TokenType::RightParen, "Expected ')' after for clauses.") {
            Ok(_) => Ok((condition, increment)),
            Err(error) => Err(error),
        }
    }

    #[verifier::spinoff_prover]
    #[verifier::rlimit(100)]
    fn for_statement(&mut self, errors: &mut HezenErrorList) -> (r: Result<Stmt, ParseError>)
        requires
            old(self).wf(),
        ensures
            final(self).wf(),
            ({
                let p = for_statement(old(self).stream(), old(self).at(), old(errors)@);
                stepped(*old(self), *final(self), p.used) && final(errors)@ == p.errors
                    && stmt_outcome(r) == p.result
            }),
        decreases old(self).tokens.list@.len() - old(self).current, 75nat,
    {
        match self.consume(errors, &TokenType::LeftParen, "Expected '(' after 'for'.") {
            Ok(_) => {},
            Err(error) => {
                return Err(error);
            },
        }
        let initializer = match self.for_initializer(errors) {
            Ok(initializer) => initializer,
            Err(error) => {
                return Err(error);
            },
        };
        let (condition, increment) = match self.for_clauses(errors) {
            Ok(clauses) => clauses,
            Err(error) => {
                return Err(error);
            },
        };
        match self.block_statement(errors) {
            Ok(body) => Ok(desugar(initializer, condition, increment, body)),
            Err(error) => Err(error),
        }
    }

    /// Parses a program: its declarations up to the end. Every refusal is
    /// reported to `errors`, and what was refused leaves no statement.
    #[verifier::spinoff_prover]
    #[verifier::rlimit(100)]
    #[verifier::loop_isolation(false)]
    pub fn parse(self, errors: &mut HezenErrorList) -> (r: Vec<Stmt>)
        requires
            self.wf(),
        ensures
            ({
                let p = program(self.stream(), self.at(), old(errors)@, Seq::empty());
                final(errors)@ == p.errors && stmt_views(r@) == p.value
            }),
    {
        let mut parser = self;
        let ghost start = parser.at();
        let ghost reported = errors@;
        let mut statements: Vec<Stmt> = Vec::new();
        assert(stmt_views(statements@) =~= Seq::<StmtView>::empty());
        while !parser.is_at_end()
            invariant
                parser.wf(),
                parser.tokens == self.tokens,
                start <= parser.current,
                program(self.stream(), start, reported, Seq::empty()) == later(
                    (parser.current - start) as nat,
                    program(self.stream(), parser.at(), errors@, stmt_views(statements@)),
                ),
            decreases parser.tokens.list@.len() - parser.current,
        {
            let ghost taken = stmt_views(statements@);
            match parser.declaration(errors) {
                Some(statement) => {
                    assert(stmt_views(statements@.push(statement)) =~= taken.push(statement@));
                    statements.push(statement);
                },
                None => {},
            }
        }
        statements
    }
}

fn begins(ty: &TokenType) -> (r: bool)
    ensures
        r == begins_statement(ty@.ordinal),
{
    ty.is(&TokenType::Class) || ty.is(&TokenType::Fn) || ty.is(&TokenType::Var) || ty.is(
        &TokenType::For,
    ) || ty.is(&TokenType::If) || ty.is(&TokenType::While) || ty.is(&TokenType::Return)
}

/// The loop that a `for` stands for.
pub fn desugar(initializer: Option<Stmt>, condition: Option<Expr>, increment: Option<Expr>, body: Stmt) -> (r:
    Stmt)
    ensures
        r@ == desugared(
            match initializer {
                Some(statement) => Some(statement@),
                None => None,
            },
            maybe_expr(condition),
            maybe_expr(increment),
            body@,
        ),
{
    let stepped = match increment {
        Some(expr) => {
            let step = Stmt::Expression(expr);
            let ghost first = body@;
            let ghost second = step@;
            assert(second == StmtView::Expression(expr@));
            let mut both: Vec<Stmt> = Vec::new();
            both.push(body);
            both.push(step);
            let block = Stmt::Block(both);
            assert(block@->Block_0 =~= stmt_views(both@));
            assert(stmt_views(both@) =~= seq![first, second]);
            block
        },
        None => body,
    };
    let looped = Stmt::While(
        match condition {
            Some(expr) => expr,
            None => Expr::Literal(Literal::Bool(true)),
        },
        Box::new(stepped),
    );
    match initializer {
        Some(first) => {
            let ghost one = first@;
            let ghost two = looped@;
            let mut both: Vec<Stmt> = Vec::new();
            both.push(first);
            both.push(looped);
            let block = Stmt::Block(both);
            assert(block@->Block_0 =~= stmt_views(both@));
            assert(stmt_views(both@) =~= seq![one, two]);
            block
        },
        None => looped,
    }
}

} // verus!
