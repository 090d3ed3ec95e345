use vstd::prelude::*;
use vstd::string::*;
use crate::ast::{Expr, Literal, Stmt};
use crate::host::{agrees, dialogue, extends, Host, Link, Oracle, Request};
use crate::text::{join3, join5};
use crate::token::{Token, TokenType, Tokens};

verus! {

/// A text, and the questions put to the host by the time it was made.
pub type Shown = (Seq<Request>, Seq<char>);

/// The text that shows a number: the answer of the host.
pub open spec fn number_text(oracle: Oracle, asked: Seq<Request>, bits: u64) -> Shown {
    (asked.push(Request::Render(bits)), oracle(asked.len() as int, Request::Render(bits)).text())
}

/// The text of a kind of token that carries nothing.
pub open spec fn kind_text(ty: TokenType) -> Seq<char> {
    match ty {
        TokenType::LeftParen => "("@,
        TokenType::RightParen => ")"@,
        TokenType::LeftBrace => "{"@,
        TokenType::RightBrace => "}"@,
        TokenType::Comma => ","@,
        TokenType::Dot => "."@,
        TokenType::Minus => "-"@,
        TokenType::Plus => "+"@,
        TokenType::Semicolon => ";"@,
        TokenType::Slash => "/"@,
        TokenType::Star => "*"@,
        TokenType::Bang => "!"@,
        TokenType::BangEqual => "!="@,
        TokenType::Equal => "="@,
        TokenType::EqualEqual => "=="@,
        TokenType::Greater => ">"@,
        TokenType::GreaterEqual => ">="@,
        TokenType::Less => "<"@,
        TokenType::LessEqual => "<="@,
        TokenType::Identifier => "identifier"@,
        TokenType::And => "and"@,
        TokenType::Class => "class"@,
        TokenType::Else => "else"@,
        TokenType::False => "false"@,
        TokenType::Fn => "fn"@,
        TokenType::For => "for"@,
        TokenType::If => "if"@,
        TokenType::Nil => "nil"@,
        TokenType::Or => "or"@,
        TokenType::Return => "return"@,
        TokenType::Super => "super"@,
        TokenType::Self_ => "self"@,
        TokenType::True => "true"@,
        TokenType::Var => "var"@,
        TokenType::While => "while"@,
        TokenType::Mut => "mut"@,
        TokenType::Break => "break"@,
        TokenType::Continue => "continue"@,
        TokenType::Eof => "eof"@,
        TokenType::Builtin => "builtin"@,
        _ => Seq::<char>::empty(),
    }
}

/// The text of a kind of token: a string literal in quotes, a number as the
/// host shows it, every other kind by its word or sign.
pub open spec fn type_text(oracle: Oracle, asked: Seq<Request>, ty: TokenType) -> Shown {
    match ty {
        TokenType::String(text) => (asked, "\""@ + text@ + "\""@),
        TokenType::Number(bits) => number_text(oracle, asked, bits),
        _ => (asked, kind_text(ty)),
    }
}

/// The text of a token: its lexeme, a colon and its kind.
pub open spec fn token_text(oracle: Oracle, asked: Seq<Request>, token: Token) -> Shown {
    let (after, kind) = type_text(oracle, asked, token.ty);
    (after, token.lexeme@ + ": "@ + kind)
}

/// The text of the tokens from position `i` on: each on a line of its own.
pub open spec fn tokens_text(oracle: Oracle, asked: Seq<Request>, tokens: Seq<Token>, i: int) -> Shown
    decreases tokens.len() - i,
{
    if 0 <= i < tokens.len() {
        let (first, text) = token_text(oracle, asked, tokens[i]);
        let (after, rest) = tokens_text(oracle, first, tokens, i + 1);
        (after, text + "\n"@ + rest)
    } else {
        (asked, Seq::<char>::empty())
    }
}

/// The text of a literal: a string in quotes, a number as the host shows it.
pub open spec fn literal_text(oracle: Oracle, asked: Seq<Request>, literal: Literal) -> Shown {
    match literal {
        Literal::Nil => (asked, "nil"@),
        Literal::Bool(b) => (asked, if b { "true"@ } else { "false"@ }),
        Literal::Number(bits) => number_text(oracle, asked, bits),
        Literal::String(text) => (asked, "\""@ + text@ + "\""@),
    }
}

/// The text of an expression: its kind and its parts in parentheses.
pub open spec fn expr_text(oracle: Oracle, asked: Seq<Request>, expr: Expr) -> Shown
    decreases expr, 1nat, 0nat,
{
    match expr {
        Expr::Assign(name, value) => {
            let (after, text) = expr_text(oracle, asked, *value);
            (after, "(assign "@ + name.lexeme@ + " "@ + text + ")"@)
        },
        Expr::Binary(left, op, right) => {
            let (first, one) = expr_text(oracle, asked, *left);
            let (after, two) = expr_text(oracle, first, *right);
            (after, "(binary "@ + op.lexeme@ + "  "@ + one + " "@ + two + ")"@)
        },
        Expr::Call(callee, _, _) => {
            let (first, one) = expr_text(oracle, asked, *callee);
            let (after, rest) = arguments_text(oracle, first, expr, 0);
            (after, "(call callee: "@ + one + " (arguments"@ + rest + "))"@)
        },
        Expr::Get(object, name) => {
            let (after, text) = expr_text(oracle, asked, *object);
            (after, "(get "@ + text + " "@ + name.lexeme@ + ")"@)
        },
        Expr::Grouping(inner) => {
            let (after, text) = expr_text(oracle, asked, *inner);
            (after, "(grouping "@ + text + ")"@)
        },
        Expr::Literal(literal) => literal_text(oracle, asked, literal),
        Expr::Logical(left, op, right) => {
            let (first, one) = expr_text(oracle, asked, *left);
            let (after, two) = expr_text(oracle, first, *right);
            (after, "(logical "@ + op.lexeme@ + "  "@ + one + " "@ + two + ")"@)
        },
        Expr::Self_(_) => (asked, "self"@),
        Expr::Super(keyword, method) => (
            asked,
            "(super "@ + keyword.lexeme@ + " "@ + method.lexeme@ + ")"@,
        ),
        Expr::SetProperty(object, name, value) => {
            let (first, one) = expr_text(oracle, asked, *object);
            let (after, two) = expr_text(oracle, first, *value);
            (after, "(set "@ + one + " "@ + name.lexeme@ + " to "@ + two + ")"@)
        },
        Expr::Unary(op, right) => {
            let (after, text) = expr_text(oracle, asked, *right);
            (after, "("@ + op.lexeme@ + " "@ + text + ")"@)
        },
        Expr::Variable(name) => (asked, "(variable "@ + name.lexeme@ + ")"@),
    }
}

/// The texts of the arguments of a call from position `i` on, each behind a
/// space.
pub open spec fn arguments_text(oracle: Oracle, asked: Seq<Request>, call: Expr, i: int) -> Shown
    decreases call, 0nat, (match call {
        Expr::Call(_, _, arguments) => arguments@.len() - i,
        _ => 0,
    }),
{
    match call {
        Expr::Call(_, _, arguments) => if 0 <= i < arguments@.len() {
            let (first, text) = expr_text(oracle, asked, arguments@[i]);
            let (after, rest) = arguments_text(oracle, first, call, i + 1);
            (after, " "@ + text + rest)
        } else {
            (asked, Seq::<char>::empty())
        },
        _ => (asked, Seq::<char>::empty()),
    }
}

/// The text of an optional expression behind a prefix; empty without one.
pub open spec fn optional_text(oracle: Oracle, asked: Seq<Request>, prefix: Seq<char>, expr: Option<Expr>) -> Shown {
    match expr {
        Some(expr) => {
            let (after, text) = expr_text(oracle, asked, expr);
            (after, prefix + text)
        },
        None => (asked, Seq::<char>::empty()),
    }
}

/// The lexemes of the tokens from position `i` on, each behind a space but
/// for the first.
pub open spec fn names_text(names: Seq<Token>, i: int) -> Seq<char>
    decreases names.len() - i,
{
    if 0 <= i < names.len() {
        (if i > 0 {
            " "@
        } else {
            Seq::<char>::empty()
        }) + names[i].lexeme@ + names_text(names, i + 1)
    } else {
        Seq::<char>::empty()
    }
}

/// The text of a statement: its kind and its parts in parentheses.
pub open spec fn stmt_text(oracle: Oracle, asked: Seq<Request>, stmt: Stmt) -> Shown
    decreases stmt, 1nat, 0nat,
{
    match stmt {
        Stmt::Block(_) => {
            let (after, rest) = statements_text(oracle, asked, stmt, 0);
            (after, "(block"@ + rest + ")"@)
        },
        Stmt::Class(name, superclass, _) => {
            let (first, parent) = optional_text(oracle, asked, " superclass: "@, superclass);
            let (after, rest) = statements_text(oracle, first, stmt, 0);
            (after, "(class name: "@ + name.lexeme@ + parent + " (methods"@ + rest + "))"@)
        },
        Stmt::Expression(expr) => expr_text(oracle, asked, expr),
        Stmt::Function(declaration) => {
            let (after, body) = stmt_text(oracle, asked, declaration.body);
            (
                after,
                "(function name: "@ + declaration.name.lexeme@ + (if declaration.parameters@.len()
                    > 0 {
                    " (params "@ + names_text(declaration.parameters@, 0) + ")"@
                } else {
                    Seq::<char>::empty()
                }) + " "@ + body + ")"@,
            )
        },
        Stmt::If(condition, then_branch, else_branch) => {
            let (first, one) = expr_text(oracle, asked, condition);
            let (second, two) = stmt_text(oracle, first, *then_branch);
            let (after, three) = match else_branch {
                Some(branch) => {
                    let (last, text) = stmt_text(oracle, second, *branch);
                    (last, " else "@ + text)
                },
                None => (second, Seq::<char>::empty()),
            };
            (after, "(if "@ + one + " (then "@ + two + ") "@ + three + ")"@)
        },
        Stmt::Var(name, initializer) => {
            let (after, text) = optional_text(oracle, asked, " = "@, initializer);
            (after, "(var "@ + name.lexeme@ + text + ")"@)
        },
        Stmt::VarMut(name, initializer) => {
            let (after, text) = optional_text(oracle, asked, " = "@, initializer);
            (after, "(var mut "@ + name.lexeme@ + text + ")"@)
        },
        Stmt::While(condition, body) => {
            let (first, one) = expr_text(oracle, asked, condition);
            let (after, two) = stmt_text(oracle, first, *body);
            (after, "(while "@ + one + " "@ + two + ")"@)
        },
        Stmt::Return(_, value) => {
            let (after, text) = optional_text(oracle, asked, " "@, value);
            (after, "(return"@ + text + ")"@)
        },
        Stmt::Break => (asked, "break"@),
        Stmt::Continue => (asked, "continue"@),
    }
}

/// The texts of the statements of a block, or of the methods of a class,
/// from position `i` on, each behind a space.
pub open spec fn statements_text(oracle: Oracle, asked: Seq<Request>, parent: Stmt, i: int) -> Shown
    decreases parent, 0nat, (match parent {
        Stmt::Block(statements) => statements@.len() - i,
        Stmt::Class(_, _, methods) => methods@.len() - i,
        _ => 0,
    }),
{
    match parent {
        Stmt::Block(statements) => if 0 <= i < statements@.len() {
            let (first, text) = stmt_text(oracle, asked, statements@[i]);
            let (after, rest) = statements_text(oracle, first, parent, i + 1);
            (after, " "@ + text + rest)
        } else {
            (asked, Seq::<char>::empty())
        },
        Stmt::Class(_, _, methods) => if 0 <= i < methods@.len() {
            let (first, text) = stmt_text(oracle, asked, methods@[i]);
            let (after, rest) = statements_text(oracle, first, parent, i + 1);
            (after, " "@ + text + rest)
        } else {
            (asked, Seq::<char>::empty())
        },
        _ => (asked, Seq::<char>::empty()),
    }
}

fn kind_string(ty: &TokenType) -> (r: String)
    ensures
        r@ == kind_text(*ty),
{
    match ty {
        TokenType::LeftParen => String::from_str("("),
        TokenType::RightParen => String::from_str(")"),
        TokenType::LeftBrace => String::from_str("{"),
        TokenType::RightBrace => String::from_str("}"),
        TokenType::Comma => String::from_str(","),
        TokenType::Dot => String::from_str("."),
        TokenType::Minus => String::from_str("-"),
        TokenType::Plus => String::from_str("+"),
        TokenType::Semicolon => String::from_str(";"),
        TokenType::Slash => String::from_str("/"),
        TokenType::Star => String::from_str("*"),
        TokenType::Bang => String::from_str("!"),
        TokenType::BangEqual => String::from_str("!="),
        TokenType::Equal => String::from_str("="),
        TokenType::EqualEqual => String::from_str("=="),
        TokenType::Greater => String::from_str(">"),
        TokenType::GreaterEqual => String::from_str(">="),
        TokenType::Less => String::from_str("<"),
        TokenType::LessEqual => String::from_str("<="),
        TokenType::Identifier => String::from_str("identifier"),
        TokenType::And => String::from_str("and"),
        TokenType::Class => String::from_str("class"),
        TokenType::Else => String::from_str("else"),
        TokenType::False => String::from_str("false"),
        TokenType::Fn => String::from_str("fn"),
        TokenType::For => String::from_str("for"),
        TokenType::If => String::from_str("if"),
        TokenType::Nil => String::from_str("nil"),
        TokenType::Or => String::from_str("or"),
        TokenType::Return => String::from_str("return"),
        TokenType::Super => String::from_str("super"),
        TokenType::Self_ => String::from_str("self"),
        TokenType::True => String::from_str("true"),
        TokenType::Var => String::from_str("var"),
        TokenType::While => String::from_str("while"),
        TokenType::Mut => String::from_str("mut"),
        TokenType::Break => String::from_str("break"),
        TokenType::Continue => String::from_str("continue"),
        TokenType::Eof => String::from_str("eof"),
        TokenType::Builtin => String::from_str("builtin"),
        _ => String::new(),
    }
}

impl TokenType {
    /// The text of this kind of token.
    pub fn to_string<H: Host>(&self, link: &mut Link<H>) -> (r: String)
        ensures
            extends(old(link).log(), final(link).log()),
            forall|oracle: Oracle| #[trigger]
                agrees(oracle, final(link).log()) ==> type_text(oracle, old(link).asked(), *self)
                    == (final(link).asked(), r@),
    {
        match self {
            TokenType::String(text) => join3("\"", text.as_str(), "\""),
            TokenType::Number(bits) => link.number_text(*bits),
            _ => kind_string(self),
        }
    }
}

impl Token {
    /// The text of this token.
    pub fn to_string<H: Host>(&self, link: &mut Link<H>) -> (r: String)
        ensures
            extends(old(link).log(), final(link).log()),
            forall|oracle: Oracle| #[trigger]
                agrees(oracle, final(link).log()) ==> token_text(oracle, old(link).asked(), *self)
                    == (final(link).asked(), r@),
    {
        let kind = self.ty.to_string(link);
        join3(self.lexeme.as_str(), ": ", kind.as_str())
    }
}

proof fn tokens_text_splits(oracle: Oracle, asked: Seq<Request>, tokens: Seq<Token>, i: int)
    requires
        0 <= i < tokens.len(),
    ensures
        ({
            let (first, text) = token_text(oracle, asked, tokens[i]);
            let (after, rest) = tokens_text(oracle, first, tokens, i + 1);
            tokens_text(oracle, asked, tokens, i) == (after, text + "\n"@ + rest)
        }),
{
}

impl Tokens {
    /// The text of the tokens: each on a line of its own.
    #[verifier::loop_isolation(false)]
    pub fn to_string<H: Host>(&self, link: &mut Link<H>) -> (r: String)
        ensures
            extends(old(link).log(), final(link).log()),
            forall|oracle: Oracle| #[trigger]
                agrees(oracle, final(link).log()) ==> tokens_text(
                    oracle,
                    old(link).asked(),
                    self.list@,
                    0,
                ) == (final(link).asked(), r@),
    {
        broadcast use dialogue;

        let mut text = String::new();
        let mut i: usize = 0;
        while i < self.list.len()
            invariant
                i <= self.list.len(),
                extends(old(link).log(), link.log()),
                forall|oracle: Oracle| #[trigger]
                    agrees(oracle, link.log()) ==> ({
                        let rest = tokens_text(oracle, link.asked(), self.list@, i as int);
                        tokens_text(oracle, old(link).asked(), self.list@, 0) == (
                            rest.0,
                            text@ + rest.1,
                        )
                    }),
            decreases self.list.len() - i,
        {
            let ghost before = text@;
            let ghost asked = link.asked();
            let line = self.list[i].to_string(link);
            text.append(line.as_str());
            text.append("\n");
            assert forall|oracle: Oracle| #[trigger] agrees(oracle, link.log()) implies ({
                let rest = tokens_text(oracle, link.asked(), self.list@, i + 1);
                tokens_text(oracle, old(link).asked(), self.list@, 0) == (rest.0, text@ + rest.1)
            }) by {
                let rest = tokens_text(oracle, link.asked(), self.list@, i + 1);
                tokens_text_splits(oracle, asked, self.list@, i as int);
                assert(before + (line@ + "\n"@ + rest.1) =~= before + line@ + "\n"@ + rest.1);
            }
            i = i + 1;
        }
        assert(text@ + Seq::<char>::empty() =~= text@);
        text
    }
}

impl Literal {
    /// The text of this literal.
    pub fn to_string<H: Host>(&self, link: &mut Link<H>) -> (r: String)
        ensures
            extends(old(link).log(), final(link).log()),
            forall|oracle: Oracle| #[trigger]
                agrees(oracle, final(link).log()) ==> literal_text(oracle, old(link).asked(), *self) == (final(link).asked(), r@),
    {
        match self {
            Literal::Nil => String::from_str("nil"),
            Literal::Bool(b) => if *b {
                String::from_str("true")
            } else {
                String::from_str("false")
            },
            Literal::Number(bits) => link.number_text(*bits),
            Literal::String(text) => join3("\"", text.as_str(), "\""),
        }
    }
}

/// The text of an optional expression behind a prefix.
fn optional_string<H: Host>(link: &mut Link<H>, prefix: &str, expr: &Option<Expr>) -> (r: String)
        ensures
            extends(old(link).log(), final(link).log()),
            forall|oracle: Oracle| #[trigger]
                agrees(oracle, final(link).log()) ==> optional_text(oracle, old(link).asked(), prefix@, *expr) == (final(link).asked(), r@),
{
    match expr {
        Some(expr) => {
            let mut text = String::from_str(prefix);
            text.append(expr.to_string(link).as_str());
            text
        },
        None => String::new(),
    }
}

/// The lexemes of tokens, with a space between one and the next.
fn names_string(names: &Vec<Token>) -> (r: String)
    ensures
        r@ == names_text(names@, 0),
{
    let mut text = String::new();
    let mut i: usize = 0;
    while i < names.len()
        invariant
            i <= names.len(),
            names_text(names@, 0) == text@ + names_text(names@, i as int),
        decreases names.len() - i,
    {
        let ghost before = text@;
        if i > 0 {
            text.append(" ");
        }
        text.append(names[i].lexeme.as_str());
        assert(before + ((if i > 0 {
            " "@
        } else {
            Seq::<char>::empty()
        }) + names@[i as int].lexeme@ + names_text(names@, i + 1)) =~= text@ + names_text(
            names@,
            i + 1,
        ));
        i = i + 1;
    }
    assert(text@ + Seq::<char>::empty() =~= text@);
    text
}

impl Expr {
    /// The text of this expression.
    #[verifier::loop_isolation(false)]
    pub fn to_string<H: Host>(&self, link: &mut Link<H>) -> (r: String)
        ensures
            extends(old(link).log(), final(link).log()),
            forall|oracle: Oracle| #[trigger]
                agrees(oracle, final(link).log()) ==> expr_text(oracle, old(link).asked(), *self) == (final(link).asked(), r@),
        decreases self,
    {
        broadcast use dialogue;

        match self {
            Expr::Assign(name, value) => {
                let text = value.to_string(link);
                join5("(assign ", name.lexeme.as_str(), " ", text.as_str(), ")")
            },
            Expr::Binary(left, op, right) => {
                let one = left.to_string(link);
                let two = right.to_string(link);
                let mut text = join5("(binary ", op.lexeme.as_str(), "  ", one.as_str(), " ");
                text.append(two.as_str());
                text.append(")");
                text
            },
            Expr::Call(callee, _, arguments) => {
                let one = callee.to_string(link);
                let ghost begun = link.asked();
                let ghost begun_log = link.log();
                let mut rest = String::new();
                let mut i: usize = 0;
                while i < arguments.len()
                    invariant
                        i <= arguments.len(),
                        extends(begun_log, link.log()),
                        forall|oracle: Oracle| #[trigger]
                            agrees(oracle, link.log()) ==> ({
                                let left = arguments_text(oracle, link.asked(), *self, i as int);
                                arguments_text(oracle, begun, *self, 0) == (left.0, rest@ + left.1)
                            }),
                    decreases arguments.len() - i,
                {
                    let ghost before = rest@;
                    let ghost asked = link.asked();
                    let text = arguments[i].to_string(link);
                    rest.append(" ");
                    rest.append(text.as_str());
                    assert forall|oracle: Oracle| #[trigger] agrees(oracle, link.log()) implies ({
                        let left = arguments_text(oracle, link.asked(), *self, i + 1);
                        arguments_text(oracle, begun, *self, 0) == (left.0, rest@ + left.1)
                    }) by {
                        let left = arguments_text(oracle, link.asked(), *self, i + 1);
                        assert(arguments_text(oracle, asked, *self, i as int) == (
                            left.0,
                            " "@ + text@ + left.1,
                        ));
                        assert(before + (" "@ + text@ + left.1) =~= before + " "@ + text@ + left.1);
                    }
                    i = i + 1;
                }
                assert(rest@ + Seq::<char>::empty() =~= rest@);
                join5("(call callee: ", one.as_str(), " (arguments", rest.as_str(), "))")
            },
            Expr::Get(object, name) => {
                let text = object.to_string(link);
                join5("(get ", text.as_str(), " ", name.lexeme.as_str(), ")")
            },
            Expr::Grouping(inner) => {
                let text = inner.to_string(link);
                join3("(grouping ", text.as_str(), ")")
            },
            Expr::Literal(literal) => literal.to_string(link),
            Expr::Logical(left, op, right) => {
                let one = left.to_string(link);
                let two = right.to_string(link);
                let mut text = join5("(logical ", op.lexeme.as_str(), "  ", one.as_str(), " ");
                text.append(two.as_str());
                text.append(")");
                text
            },
            Expr::Self_(_) => String::from_str("self"),
            Expr::Super(keyword, method) => join5(
                "(super ",
                keyword.lexeme.as_str(),
                " ",
                method.lexeme.as_str(),
                ")",
            ),
            Expr::SetProperty(object, name, value) => {
                let one = object.to_string(link);
                let two = value.to_string(link);
                let mut text = join5("(set ", one.as_str(), " ", name.lexeme.as_str(), " to ");
                text.append(two.as_str());
                text.append(")");
                text
            },
            Expr::Unary(op, right) => {
                let text = right.to_string(link);
                join5("(", op.lexeme.as_str(), " ", text.as_str(), ")")
            },
            Expr::Variable(name) => join3("(variable ", name.lexeme.as_str(), ")"),
        }
    }
}

impl Stmt {
    /// The texts of the statements of a list, each behind a space.
    #[verifier::loop_isolation(false)]
    fn list_string<H: Host>(&self, link: &mut Link<H>, list: &Vec<Stmt>) -> (r: String)
        requires
            (self matches Stmt::Block(statements) && statements == list) || (self matches Stmt::Class(
                _,
                _,
                methods,
            ) && methods == list),
        ensures
            extends(old(link).log(), final(link).log()),
            forall|oracle: Oracle| #[trigger]
                agrees(oracle, final(link).log()) ==> statements_text(oracle, old(link).asked(), *self, 0) == (final(link).asked(), r@),
        decreases self, 0nat,
    {
        broadcast use dialogue;

        let mut rest = String::new();
        let mut i: usize = 0;
        while i < list.len()
            invariant
                i <= list.len(),
                extends(old(link).log(), link.log()),
                forall|oracle: Oracle| #[trigger]
                    agrees(oracle, link.log()) ==> ({
                        let left = statements_text(oracle, link.asked(), *self, i as int);
                        statements_text(oracle, old(link).asked(), *self, 0) == (
                            left.0,
                            rest@ + left.1,
                        )
                    }),
            decreases list.len() - i,
        {
            let ghost before = rest@;
            let ghost asked = link.asked();
            let text = list[i].to_string(link);
            rest.append(" ");
            rest.append(text.as_str());
            assert forall|oracle: Oracle| #[trigger] agrees(oracle, link.log()) implies ({
                let left = statements_text(oracle, link.asked(), *self, i + 1);
                statements_text(oracle, old(link).asked(), *self, 0) == (left.0, rest@ + left.1)
            }) by {
                let left = statements_text(oracle, link.asked(), *self, i + 1);
                assert(statements_text(oracle, asked, *self, i as int) == (
                    left.0,
                    " "@ + text@ + left.1,
                ));
                assert(before + (" "@ + text@ + left.1) =~= before + " "@ + text@ + left.1);
            }
            i = i + 1;
        }
        assert(rest@ + Seq::<char>::empty() =~= rest@);
        rest
    }

    /// The text of this statement.
    pub fn to_string<H: Host>(&self, link: &mut Link<H>) -> (r: String)
        ensures
            extends(old(link).log(), final(link).log()),
            forall|oracle: Oracle| #[trigger]
                agrees(oracle, final(link).log()) ==> stmt_text(oracle, old(link).asked(), *self) == (final(link).asked(), r@),
        decreases self, 1nat,
    {
        broadcast use dialogue;

        match self {
            Stmt::Block(statements) => {
                let rest = self.list_string(link, statements);
                join3("(block", rest.as_str(), ")")
            },
            Stmt::Class(name, superclass, methods) => {
                let parent = optional_string(link, " superclass: ", superclass);
                let rest = self.list_string(link, methods);
                let mut text = join5(
                    "(class name: ",
                    name.lexeme.as_str(),
                    parent.as_str(),
                    " (methods",
                    rest.as_str(),
                );
                text.append("))");
                text
            },
            Stmt::Expression(expr) => expr.to_string(link),
            Stmt::Function(declaration) => {
                let body = declaration.body.to_string(link);
                let mut text = String::from_str("(function name: ");
                text.append(declaration.name.lexeme.as_str());
                if declaration.parameters.len() > 0 {
                    let names = join3(" (params ", names_string(&declaration.parameters).as_str(), ")");
                    text.append(names.as_str());
                } else {
                    assert(text@ + Seq::<char>::empty() =~= text@);
                }
                text.append(" ");
                text.append(body.as_str());
                text.append(")");
                text
            },
            Stmt::If(condition, then_branch, else_branch) => {
                let one = condition.to_string(link);
                let two = then_branch.to_string(link);
                let three = match else_branch {
                    Some(branch) => {
                        let mut text = String::from_str(" else ");
                        text.append(branch.to_string(link).as_str());
                        text
                    },
                    None => String::new(),
                };
                let mut text = join5("(if ", one.as_str(), " (then ", two.as_str(), ") ");
                text.append(three.as_str());
                text.append(")");
                text
            },
            Stmt::Var(name, initializer) => {
                let text = optional_string(link, " = ", initializer);
                let mut shown = join3("(var ", name.lexeme.as_str(), text.as_str());
                shown.append(")");
                shown
            },
            Stmt::VarMut(name, initializer) => {
                let text = optional_string(link, " = ", initializer);
                let mut shown = join3("(var mut ", name.lexeme.as_str(), text.as_str());
                shown.append(")");
                shown
            },
            Stmt::While(condition, body) => {
                let one = condition.to_string(link);
                let two = body.to_string(link);
                join5("(while ", one.as_str(), " ", two.as_str(), ")")
            },
            Stmt::Return(_, value) => {
                let text = optional_string(link, " ", value);
                join3("(return", text.as_str(), ")")
            },
            Stmt::Break => String::from_str("break"),
            Stmt::Continue => String::from_str("continue"),
        }
    }
}

} // verus!
