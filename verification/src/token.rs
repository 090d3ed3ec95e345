use vstd::prelude::*;
use vstd::string::*;
use crate::error::{HezenLineInfo, Place};

verus! {

/// The kind of a token. Keywords and punctuators carry nothing; a string
/// literal carries its text and a number literal its value.
#[derive(Debug)]
pub enum TokenType {
    LeftParen,
    RightParen,
    LeftBrace,
    RightBrace,
    Comma,
    Dot,
    Minus,
    Plus,
    Semicolon,
    Slash,
    Star,
    Bang,
    BangEqual,
    Equal,
    EqualEqual,
    Greater,
    GreaterEqual,
    Less,
    LessEqual,
    Identifier,
    String(String),
    /// A number literal, held as the bit pattern of its double-precision value.
    Number(u64),
    And,
    Class,
    Else,
    False,
    Fn,
    For,
    If,
    Nil,
    Or,
    Return,
    Super,
    Self_,
    True,
    Var,
    While,
    Mut,
    Break,
    Continue,
    Eof,
    Builtin,
}

/// A token kind as a mathematical value: the position of the variant in the
/// declaration, the text of a string literal and the bits of a number literal.
pub struct Lexical {
    pub ordinal: int,
    pub text: Seq<char>,
    pub bits: u64,
}

impl View for TokenType {
    type V = Lexical;

    open spec fn view(&self) -> Lexical {
        Lexical {
            ordinal: self.ordinal_of(),
            text: match self {
                TokenType::String(text) => text@,
                _ => Seq::<char>::empty(),
            },
            bits: match self {
                TokenType::Number(bits) => *bits,
                _ => 0,
            },
        }
    }
}

impl Clone for TokenType {
    fn clone(&self) -> (r: Self)
        ensures
            r == *self,
    {
        match self {
            TokenType::LeftParen => TokenType::LeftParen,
            TokenType::RightParen => TokenType::RightParen,
            TokenType::LeftBrace => TokenType::LeftBrace,
            TokenType::RightBrace => TokenType::RightBrace,
            TokenType::Comma => TokenType::Comma,
            TokenType::Dot => TokenType::Dot,
            TokenType::Minus => TokenType::Minus,
            TokenType::Plus => TokenType::Plus,
            TokenType::Semicolon => TokenType::Semicolon,
            TokenType::Slash => TokenType::Slash,
            TokenType::Star => TokenType::Star,
            TokenType::Bang => TokenType::Bang,
            TokenType::BangEqual => TokenType::BangEqual,
            TokenType::Equal => TokenType::Equal,
            TokenType::EqualEqual => TokenType::EqualEqual,
            TokenType::Greater => TokenType::Greater,
            TokenType::GreaterEqual => TokenType::GreaterEqual,
            TokenType::Less => TokenType::Less,
            TokenType::LessEqual => TokenType::LessEqual,
            TokenType::Identifier => TokenType::Identifier,
            TokenType::String(text) => TokenType::String(text.clone()),
            TokenType::Number(bits) => TokenType::Number(*bits),
            TokenType::And => TokenType::And,
            TokenType::Class => TokenType::Class,
            TokenType::Else => TokenType::Else,
            TokenType::False => TokenType::False,
            TokenType::Fn => TokenType::Fn,
            TokenType::For => TokenType::For,
            TokenType::If => TokenType::If,
            TokenType::Nil => TokenType::Nil,
            TokenType::Or => TokenType::Or,
            TokenType::Return => TokenType::Return,
            TokenType::Super => TokenType::Super,
            TokenType::Self_ => TokenType::Self_,
            TokenType::True => TokenType::True,
            TokenType::Var => TokenType::Var,
            TokenType::While => TokenType::While,
            TokenType::Mut => TokenType::Mut,
            TokenType::Break => TokenType::Break,
            TokenType::Continue => TokenType::Continue,
            TokenType::Eof => TokenType::Eof,
            TokenType::Builtin => TokenType::Builtin,
        }
    }
}

impl TokenType {
    /// The position of the variant in the declaration, from zero.
    pub open spec fn ordinal_of(&self) -> int {
        match self {
            TokenType::LeftParen => 0,
            TokenType::RightParen => 1,
            TokenType::LeftBrace => 2,
            TokenType::RightBrace => 3,
            TokenType::Comma => 4,
            TokenType::Dot => 5,
            TokenType::Minus => 6,
            TokenType::Plus => 7,
            TokenType::Semicolon => 8,
            TokenType::Slash => 9,
            TokenType::Star => 10,
            TokenType::Bang => 11,
            TokenType::BangEqual => 12,
            TokenType::Equal => 13,
            TokenType::EqualEqual => 14,
            TokenType::Greater => 15,
            TokenType::GreaterEqual => 16,
            TokenType::Less => 17,
            TokenType::LessEqual => 18,
            TokenType::Identifier => 19,
            TokenType::String(_) => 20,
            TokenType::Number(_) => 21,
            TokenType::And => 22,
            TokenType::Class => 23,
            TokenType::Else => 24,
            TokenType::False => 25,
            TokenType::Fn => 26,
            TokenType::For => 27,
            TokenType::If => 28,
            TokenType::Nil => 29,
            TokenType::Or => 30,
            TokenType::Return => 31,
            TokenType::Super => 32,
            TokenType::Self_ => 33,
            TokenType::True => 34,
            TokenType::Var => 35,
            TokenType::While => 36,
            TokenType::Mut => 37,
            TokenType::Break => 38,
            TokenType::Continue => 39,
            TokenType::Eof => 40,
            TokenType::Builtin => 41,
        }
    }

    /// The position of the variant in the declaration, from zero.
    pub fn ordinal(&self) -> (r: u8)
        ensures
            r == self.ordinal_of(),
    {
        match self {
            TokenType::LeftParen => 0,
            TokenType::RightParen => 1,
            TokenType::LeftBrace => 2,
            TokenType::RightBrace => 3,
            TokenType::Comma => 4,
            TokenType::Dot => 5,
            TokenType::Minus => 6,
            TokenType::Plus => 7,
            TokenType::Semicolon => 8,
            TokenType::Slash => 9,
            TokenType::Star => 10,
            TokenType::Bang => 11,
            TokenType::BangEqual => 12,
            TokenType::Equal => 13,
            TokenType::EqualEqual => 14,
            TokenType::Greater => 15,
            TokenType::GreaterEqual => 16,
            TokenType::Less => 17,
            TokenType::LessEqual => 18,
            TokenType::Identifier => 19,
            TokenType::String(_) => 20,
            TokenType::Number(_) => 21,
            TokenType::And => 22,
            TokenType::Class => 23,
            TokenType::Else => 24,
            TokenType::False => 25,
            TokenType::Fn => 26,
            TokenType::For => 27,
            TokenType::If => 28,
            TokenType::Nil => 29,
            TokenType::Or => 30,
            TokenType::Return => 31,
            TokenType::Super => 32,
            TokenType::Self_ => 33,
            TokenType::True => 34,
            TokenType::Var => 35,
            TokenType::While => 36,
            TokenType::Mut => 37,
            TokenType::Break => 38,
            TokenType::Continue => 39,
            TokenType::Eof => 40,
            TokenType::Builtin => 41,
        }
    }

    /// Whether two kinds are equal: the same variant, and for literals the
    /// same text or the same bit pattern.
    pub fn same(&self, other: &TokenType) -> (r: bool)
        ensures
            r == (self@ == other@),
    {
        match self {
            TokenType::String(a) => match other {
                TokenType::String(b) => {
                    let r = *a == *b;
                    r
                },
                _ => false,
            },
            TokenType::Number(a) => match other {
                TokenType::Number(b) => *a == *b,
                _ => false,
            },
            _ => self.ordinal() == other.ordinal(),
        }
    }

    /// The value of a number literal.
    pub fn number(&self) -> (r: Option<u64>)
        ensures
            r == (if self@.ordinal == 21 {
                Some(self@.bits)
            } else {
                None
            }),
    {
        match self {
            TokenType::Number(bits) => Some(*bits),
            _ => None,
        }
    }

    /// The text of a string literal.
    pub fn text(&self) -> (r: Option<String>)
        ensures
            self@.ordinal == 20 <==> r.is_some(),
            r matches Some(text) ==> text@ == self@.text,
    {
        match self {
            TokenType::String(text) => Some(text.clone()),
            _ => None,
        }
    }

    /// Whether this kind is the variant of `kind`, whatever a literal carries.
    pub fn is(&self, kind: &TokenType) -> (r: bool)
        ensures
            r == (self@.ordinal == kind@.ordinal),
    {
        self.ordinal() == kind.ordinal()
    }
}

/// A token as a mathematical value.
pub struct TokenView {
    pub ty: Lexical,
    pub lexeme: Seq<char>,
    pub position: Place,
}

/// A token: its kind, the text it was read from and where that text stood.
#[derive(Debug)]
pub struct Token {
    pub ty: TokenType,
    pub lexeme: String,
    pub position: HezenLineInfo,
}

impl View for Token {
    type V = TokenView;

    open spec fn view(&self) -> TokenView {
        TokenView { ty: self.ty@, lexeme: self.lexeme@, position: self.position@ }
    }
}

impl Clone for Token {
    fn clone(&self) -> (r: Self)
        ensures
            r == *self,
    {
        Token {
            ty: self.ty.clone(),
            lexeme: self.lexeme.clone(),
            position: self.position.clone(),
        }
    }
}

impl Token {
    /// A token of a kind, with its lexeme and its place.
    pub fn new(ty: TokenType, lexeme: String, position: HezenLineInfo) -> (r: Self)
        ensures
            r == (Token { ty, lexeme, position }),
    {
        Self { ty, lexeme, position }
    }

    /// Whether two tokens are equal: kind, lexeme and position all agree.
    pub fn same(&self, other: &Token) -> (r: bool)
        ensures
            r == (self@ == other@),
    {
        if self.position.line != other.position.line || self.position.column
            != other.position.column {
            return false;
        }
        let same_lexeme = self.lexeme == other.lexeme;
        if !same_lexeme {
            return false;
        }
        let same_file = self.position.file == other.position.file;
        same_file && self.ty.same(&other.ty)
    }
}

/// The tokens of one source text, in the order in which they were read.
#[derive(Debug)]
pub struct Tokens {
    pub list: Vec<Token>,
}

impl Tokens {
    /// An empty list of tokens.
    pub fn new() -> (r: Self)
        ensures
            r.list@.len() == 0,
    {
        Self { list: Vec::new() }
    }

    /// Adds a token behind those that the list holds.
    pub fn add(&mut self, token: Token)
        ensures
            final(self).list@ == old(self).list@.push(token),
    {
        self.list.push(token);
    }

    pub fn get(&self, index: usize) -> (r: &Token)
        requires
            index < self.list@.len(),
        ensures
            *r == self.list@[index as int],
    {
        &self.list[index]
    }

    pub fn len(&self) -> (r: usize)
        ensures
            r == self.list@.len(),
    {
        self.list.len()
    }
}

} // verus!
