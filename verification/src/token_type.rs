//! The closed set of lexical categories a token can have, together with the
//! payload a literal-carrying category holds.
use vstd::prelude::*;

verus! {

/// Lexical category of a token. String and number literals carry their
/// payload here: a string literal its text between the quotes, a number
/// literal its value as canonical decimal text (no leading zeros in the
/// integer part, no trailing zeros in the fraction, no trailing dot).
#[derive(Debug, Clone)]
pub enum TokenType {
    LeftParen,
    RightParen,
    LeftBrace,
    RightBrace,
    Comma,
    Dot,
    Minus,
    Plus,
    Semicolon,
    Slash,
    Star,
    Bang,
    BangEqual,
    Equal,
    EqualEqual,
    Greater,
    GreaterEqual,
    Less,
    LessEqual,
    Identifier,
    String { literal: String },
    Number { text: String },
    Var,
    And,
    Class,
    Else,
    False,
    Fun,
    For,
    If,
    Nil,
    Or,
    Print,
    Return,
    While,
    Super,
    This,
    True,
    Eof,
}

/// Mathematical image of a [`TokenType`]: the same categories, with literal
/// payloads as sequences of characters.
pub ghost enum TokenTypeView {
    LeftParen,
    RightParen,
    LeftBrace,
    RightBrace,
    Comma,
    Dot,
    Minus,
    Plus,
    Semicolon,
    Slash,
    Star,
    Bang,
    BangEqual,
    Equal,
    EqualEqual,
    Greater,
    GreaterEqual,
    Less,
    LessEqual,
    Identifier,
    String { literal: Seq<char> },
    Number { text: Seq<char> },
    Var,
    And,
    Class,
    Else,
    False,
    Fun,
    For,
    If,
    Nil,
    Or,
    Print,
    Return,
    While,
    Super,
    This,
    True,
    Eof,
}

impl View for TokenType {
    type V = TokenTypeView;

    open spec fn view(&self) -> TokenTypeView {
        match self {
            TokenType::LeftParen => TokenTypeView::LeftParen,
            TokenType::RightParen => TokenTypeView::RightParen,
            TokenType::LeftBrace => TokenTypeView::LeftBrace,
            TokenType::RightBrace => TokenTypeView::RightBrace,
            TokenType::Comma => TokenTypeView::Comma,
            TokenType::Dot => TokenTypeView::Dot,
            TokenType::Minus => TokenTypeView::Minus,
            TokenType::Plus => TokenTypeView::Plus,
            TokenType::Semicolon => TokenTypeView::Semicolon,
            TokenType::Slash => TokenTypeView::Slash,
            TokenType::Star => TokenTypeView::Star,
            TokenType::Bang => TokenTypeView::Bang,
            TokenType::BangEqual => TokenTypeView::BangEqual,
            TokenType::Equal => TokenTypeView::Equal,
            TokenType::EqualEqual => TokenTypeView::EqualEqual,
            TokenType::Greater => TokenTypeView::Greater,
            TokenType::GreaterEqual => TokenTypeView::GreaterEqual,
            TokenType::Less => TokenTypeView::Less,
            TokenType::LessEqual => TokenTypeView::LessEqual,
            TokenType::Identifier => TokenTypeView::Identifier,
            TokenType::String { literal } => TokenTypeView::String { literal: literal@ },
            TokenType::Number { text } => TokenTypeView::Number { text: text@ },
            TokenType::Var => TokenTypeView::Var,
            TokenType::And => TokenTypeView::And,
            TokenType::Class => TokenTypeView::Class,
            TokenType::Else => TokenTypeView::Else,
            TokenType::False => TokenTypeView::False,
            TokenType::Fun => TokenTypeView::Fun,
            TokenType::For => TokenTypeView::For,
            TokenType::If => TokenTypeView::If,
            TokenType::Nil => TokenTypeView::Nil,
            TokenType::Or => TokenTypeView::Or,
            TokenType::Print => TokenTypeView::Print,
            TokenType::Return => TokenTypeView::Return,
            TokenType::While => TokenTypeView::While,
            TokenType::Super => TokenTypeView::Super,
            TokenType::This => TokenTypeView::This,
            TokenType::True => TokenTypeView::True,
            TokenType::Eof => TokenTypeView::Eof,
        }
    }
}

} // verus!
