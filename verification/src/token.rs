//! The smallest lexical unit: a category, the exact source text it came
//! from, and the 1-based line it starts on (for a string literal, the line
//! it ends on).
use vstd::prelude::*;

use crate::token_type::{TokenType, TokenTypeView};

verus! {

pub struct Token {
    pub kind: TokenType,
    pub lexeme: String,
    pub line: usize,
}

/// Mathematical image of a [`Token`].
pub ghost struct TokenView {
    pub kind: TokenTypeView,
    pub lexeme: Seq<char>,
    pub line: nat,
}

impl View for Token {
    type V = TokenView;

    open spec fn view(&self) -> TokenView {
        TokenView { kind: self.kind@, lexeme: self.lexeme@, line: self.line as nat }
    }
}

impl Token {
    pub fn new(kind: TokenType, lexeme: String, line: usize) -> (t: Token)
        ensures
            t@ == (TokenView { kind: kind@, lexeme: lexeme@, line: line as nat }),
    {
        Token { kind, lexeme, line }
    }
}

/// An exact copy of a token; written out because a derived `Clone` would say
/// nothing about the copy's fields.
pub fn copy_token(t: &Token) -> (r: Token)
    ensures
        r@ == t@,
{
    Token { kind: copy_token_type(&t.kind), lexeme: t.lexeme.clone(), line: t.line }
}

/// An exact copy of a token category, payload included.
pub fn copy_token_type(k: &TokenType) -> (r: TokenType)
    ensures
        r@ == k@,
{
    match k {
        TokenType::LeftParen => TokenType::LeftParen,
        TokenType::RightParen => TokenType::RightParen,
        TokenType::LeftBrace => TokenType::LeftBrace,
        TokenType::RightBrace => TokenType::RightBrace,
        TokenType::Comma => TokenType::Comma,
        TokenType::Dot => TokenType::Dot,
        TokenType::Minus => TokenType::Minus,
        TokenType::Plus => TokenType::Plus,
        TokenType::Semicolon => TokenType::Semicolon,
        TokenType::Slash => TokenType::Slash,
        TokenType::Star => TokenType::Star,
        TokenType::Bang => TokenType::Bang,
        TokenType::BangEqual => TokenType::BangEqual,
        TokenType::Equal => TokenType::Equal,
        TokenType::EqualEqual => TokenType::EqualEqual,
        TokenType::Greater => TokenType::Greater,
        TokenType::GreaterEqual => TokenType::GreaterEqual,
        TokenType::Less => TokenType::Less,
        TokenType::LessEqual => TokenType::LessEqual,
        TokenType::Identifier => TokenType::Identifier,
        TokenType::String { literal } => TokenType::String { literal: literal.clone() },
        TokenType::Number { text } => TokenType::Number { text: text.clone() },
        TokenType::Var => TokenType::Var,
        TokenType::And => TokenType::And,
        TokenType::Class => TokenType::Class,
        TokenType::Else => TokenType::Else,
        TokenType::False => TokenType::False,
        TokenType::Fun => TokenType::Fun,
        TokenType::For => TokenType::For,
        TokenType::If => TokenType::If,
        TokenType::Nil => TokenType::Nil,
        TokenType::Or => TokenType::Or,
        TokenType::Print => TokenType::Print,
        TokenType::Return => TokenType::Return,
        TokenType::While => TokenType::While,
        TokenType::Super => TokenType::Super,
        TokenType::This => TokenType::This,
        TokenType::True => TokenType::True,
        TokenType::Eof => TokenType::Eof,
    }
}

} // verus!
