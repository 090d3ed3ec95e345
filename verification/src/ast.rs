use vstd::prelude::*;
use std::rc::Rc;
use crate::token::{Token, TokenView};

verus! {

/// A literal of the language.
#[derive(Debug)]
pub enum Literal {
    Nil,
    Bool(bool),
    /// A number, held as the bit pattern of its double-precision value.
    Number(u64),
    String(String),
}

/// An expression.
#[derive(Debug)]
pub enum Expr {
    Assign(Token, Box<Expr>),
    Binary(Box<Expr>, Token, Box<Expr>),
    Call(Box<Expr>, Token, Vec<Expr>),
    Get(Box<Expr>, Token),
    Grouping(Box<Expr>),
    Literal(Literal),
    Logical(Box<Expr>, Token, Box<Expr>),
    Self_(Token),
    Super(Token, Token),
    SetProperty(Box<Expr>, Token, Box<Expr>),
    Unary(Token, Box<Expr>),
    Variable(Token),
}

/// The declaration of a function or of a method: its name, its parameters
/// and its body, which is a block.
#[derive(Debug)]
pub struct Declaration {
    pub name: Token,
    pub parameters: Vec<Token>,
    pub body: Stmt,
}

/// A statement. A function's declaration is shared between the tree and the
/// function values that are made from it.
#[derive(Debug)]
pub enum Stmt {
    Block(Vec<Stmt>),
    Class(Token, Option<Expr>, Vec<Stmt>),
    Expression(Expr),
    Function(Rc<Declaration>),
    If(Expr, Box<Stmt>, Option<Box<Stmt>>),
    Var(Token, Option<Expr>),
    VarMut(Token, Option<Expr>),
    While(Expr, Box<Stmt>),
    Return(Token, Option<Expr>),
    Break,
    Continue,
}

/// Another handle on a shared declaration.
///
/// Trusted: wraps `Rc::clone`, which std documents as making another pointer
/// to the same allocation; the value behind it is the same.
#[verifier::external_body]
pub(crate) fn share(declaration: &Rc<Declaration>) -> (r: Rc<Declaration>)
    ensures
        r == *declaration,
{
    Rc::clone(declaration)
}

/// A literal as a mathematical value.
pub enum LiteralView {
    Nil,
    Bool(bool),
    Number(u64),
    String(Seq<char>),
}

/// An expression as a mathematical value.
pub enum ExprView {
    Assign(TokenView, Box<ExprView>),
    Binary(Box<ExprView>, TokenView, Box<ExprView>),
    Call(Box<ExprView>, TokenView, Seq<ExprView>),
    Get(Box<ExprView>, TokenView),
    Grouping(Box<ExprView>),
    Literal(LiteralView),
    Logical(Box<ExprView>, TokenView, Box<ExprView>),
    Self_(TokenView),
    Super(TokenView, TokenView),
    SetProperty(Box<ExprView>, TokenView, Box<ExprView>),
    Unary(TokenView, Box<ExprView>),
    Variable(TokenView),
}

/// A statement as a mathematical value.
pub enum StmtView {
    Block(Seq<StmtView>),
    Class(TokenView, Option<ExprView>, Seq<StmtView>),
    Expression(ExprView),
    Function(TokenView, Seq<TokenView>, Box<StmtView>),
    If(ExprView, Box<StmtView>, Option<Box<StmtView>>),
    Var(TokenView, Option<ExprView>),
    VarMut(TokenView, Option<ExprView>),
    While(ExprView, Box<StmtView>),
    Return(TokenView, Option<ExprView>),
    Break,
    Continue,
}

impl View for Literal {
    type V = LiteralView;

    open spec fn view(&self) -> LiteralView {
        match self {
            Literal::Nil => LiteralView::Nil,
            Literal::Bool(b) => LiteralView::Bool(*b),
            Literal::Number(bits) => LiteralView::Number(*bits),
            Literal::String(text) => LiteralView::String(text@),
        }
    }
}

impl Literal {
    /// Whether two literals are equal: the same kind, and the same truth
    /// value, the same bit pattern or the same text.
    pub fn same(&self, other: &Literal) -> (r: bool)
        ensures
            r == (self@ == other@),
    {
        match self {
            Literal::Nil => match other {
                Literal::Nil => true,
                _ => false,
            },
            Literal::Bool(a) => match other {
                Literal::Bool(b) => *a == *b,
                _ => false,
            },
            Literal::Number(a) => match other {
                Literal::Number(b) => *a == *b,
                _ => false,
            },
            Literal::String(a) => match other {
                Literal::String(b) => {
                    let r = *a == *b;
                    r
                },
                _ => false,
            },
        }
    }
}

/// The views of a sequence of tokens.
pub open spec fn token_views(tokens: Seq<Token>) -> Seq<TokenView> {
    Seq::new(tokens.len(), |i: int| tokens[i]@)
}

impl Expr {
    /// The expression as a mathematical value.
    pub open spec fn model(&self) -> ExprView
        decreases self,
    {
        match self {
            Expr::Assign(name, value) => ExprView::Assign(name@, Box::new(value.model())),
            Expr::Binary(left, op, right) => ExprView::Binary(
                Box::new(left.model()),
                op@,
                Box::new(right.model()),
            ),
            Expr::Call(callee, paren, arguments) => ExprView::Call(
                Box::new(callee.model()),
                paren@,
                Seq::new(
                    arguments@.len(),
                    |i: int|
                        if 0 <= i < arguments@.len() {
                            arguments@[i].model()
                        } else {
                            ExprView::Literal(LiteralView::Nil)
                        },
                ),
            ),
            Expr::Get(object, name) => ExprView::Get(Box::new(object.model()), name@),
            Expr::Grouping(inner) => ExprView::Grouping(Box::new(inner.model())),
            Expr::Literal(literal) => ExprView::Literal(literal@),
            Expr::Logical(left, op, right) => ExprView::Logical(
                Box::new(left.model()),
                op@,
                Box::new(right.model()),
            ),
            Expr::Self_(keyword) => ExprView::Self_(keyword@),
            Expr::Super(keyword, method) => ExprView::Super(keyword@, method@),
            Expr::SetProperty(object, name, value) => ExprView::SetProperty(
                Box::new(object.model()),
                name@,
                Box::new(value.model()),
            ),
            Expr::Unary(op, right) => ExprView::Unary(op@, Box::new(right.model())),
            Expr::Variable(name) => ExprView::Variable(name@),
        }
    }
}

impl View for Expr {
    type V = ExprView;

    open spec fn view(&self) -> ExprView {
        self.model()
    }
}

/// The views of a sequence of expressions.
pub open spec fn expr_views(exprs: Seq<Expr>) -> Seq<ExprView> {
    Seq::new(exprs.len(), |i: int| exprs[i]@)
}

/// The view of an optional expression.
pub open spec fn maybe_expr(expr: Option<Expr>) -> Option<ExprView> {
    match expr {
        Some(expr) => Some(expr@),
        None => None,
    }
}

impl Stmt {
    /// The statement as a mathematical value.
    pub open spec fn model(&self) -> StmtView
        decreases self,
    {
        match self {
            Stmt::Block(statements) => StmtView::Block(
                Seq::new(
                    statements@.len(),
                    |i: int|
                        if 0 <= i < statements@.len() {
                            statements@[i].model()
                        } else {
                            StmtView::Break
                        },
                ),
            ),
            Stmt::Class(name, superclass, methods) => StmtView::Class(
                name@,
                maybe_expr(*superclass),
                Seq::new(
                    methods@.len(),
                    |i: int|
                        if 0 <= i < methods@.len() {
                            methods@[i].model()
                        } else {
                            StmtView::Break
                        },
                ),
            ),
            Stmt::Expression(expr) => StmtView::Expression(expr@),
            Stmt::Function(declaration) => StmtView::Function(
                declaration.name@,
                token_views(declaration.parameters@),
                Box::new(declaration.body.model()),
            ),
            Stmt::If(condition, then_branch, else_branch) => StmtView::If(
                condition@,
                Box::new(then_branch.model()),
                match else_branch {
                    Some(branch) => Some(Box::new(branch.model())),
                    None => None,
                },
            ),
            Stmt::Var(name, initializer) => StmtView::Var(name@, maybe_expr(*initializer)),
            Stmt::VarMut(name, initializer) => StmtView::VarMut(name@, maybe_expr(*initializer)),
            Stmt::While(condition, body) => StmtView::While(condition@, Box::new(body.model())),
            Stmt::Return(keyword, value) => StmtView::Return(keyword@, maybe_expr(*value)),
            Stmt::Break => StmtView::Break,
            Stmt::Continue => StmtView::Continue,
        }
    }
}

impl View for Stmt {
    type V = StmtView;

    open spec fn view(&self) -> StmtView {
        self.model()
    }
}

/// The views of a sequence of statements.
pub open spec fn stmt_views(statements: Seq<Stmt>) -> Seq<StmtView> {
    Seq::new(statements.len(), |i: int| statements[i]@)
}

} // verus!
