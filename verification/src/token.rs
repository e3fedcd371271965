//! Tokens handed to the parser by the lexer. A double literal is carried as
//! its IEEE-754 bit pattern.

use vstd::prelude::*;

verus! {

pub enum Token {
    // Single-character symbols
    LParen,
    RParen,
    LBrace,
    RBrace,
    Plus,
    Minus,
    Star,
    Slash,
    Equal,
    Semicolon,
    Comma,
    // Multi-character symbols
    DblEqual,
    NotEqual,
    LessThan,
    GreaterThan,
    LessThanEqual,
    GreaterThanEqual,
    // Literals
    Number(i64),
    Float(u64),
    String(String),
    Bool(bool),
    // Keywords
    If,
    Else,
    Elif,
    Print,
    Var,
    Fn,
    Return,
    For,
    In,
    Range,
    // Identifiers
    Identifier { name: String },
    // Special
    EOF,
    Illegal(char),
}

/// Mathematical image of a token.
pub enum TokenV {
    LParen,
    RParen,
    LBrace,
    RBrace,
    Plus,
    Minus,
    Star,
    Slash,
    Equal,
    Semicolon,
    Comma,
    DblEqual,
    NotEqual,
    LessThan,
    GreaterThan,
    LessThanEqual,
    GreaterThanEqual,
    Number(i64),
    Float(u64),
    String(Seq<char>),
    Bool(bool),
    If,
    Else,
    Elif,
    Print,
    Var,
    Fn,
    Return,
    For,
    In,
    Range,
    Identifier(Seq<char>),
    EOF,
    Illegal(char),
}

impl View for Token {
    type V = TokenV;

    open spec fn view(&self) -> TokenV {
        match self {
            Token::LParen => TokenV::LParen,
            Token::RParen => TokenV::RParen,
            Token::LBrace => TokenV::LBrace,
            Token::RBrace => TokenV::RBrace,
            Token::Plus => TokenV::Plus,
            Token::Minus => TokenV::Minus,
            Token::Star => TokenV::Star,
            Token::Slash => TokenV::Slash,
            Token::Equal => TokenV::Equal,
            Token::Semicolon => TokenV::Semicolon,
            Token::Comma => TokenV::Comma,
            Token::DblEqual => TokenV::DblEqual,
            Token::NotEqual => TokenV::NotEqual,
            Token::LessThan => TokenV::LessThan,
            Token::GreaterThan => TokenV::GreaterThan,
            Token::LessThanEqual => TokenV::LessThanEqual,
            Token::GreaterThanEqual => TokenV::GreaterThanEqual,
            Token::Number(n) => TokenV::Number(*n),
            Token::Float(b) => TokenV::Float(*b),
            Token::String(s) => TokenV::String(s@),
            Token::Bool(b) => TokenV::Bool(*b),
            Token::If => TokenV::If,
            Token::Else => TokenV::Else,
            Token::Elif => TokenV::Elif,
            Token::Print => TokenV::Print,
            Token::Var => TokenV::Var,
            Token::Fn => TokenV::Fn,
            Token::Return => TokenV::Return,
            Token::For => TokenV::For,
            Token::In => TokenV::In,
            Token::Range => TokenV::Range,
            Token::Identifier { name } => TokenV::Identifier(name@),
            Token::EOF => TokenV::EOF,
            Token::Illegal(c) => TokenV::Illegal(*c),
        }
    }
}

impl Clone for Token {
    fn clone(&self) -> (r: Token)
        ensures
            r == *self,
    {
        match self {
            Token::LParen => Token::LParen,
            Token::RParen => Token::RParen,
            Token::LBrace => Token::LBrace,
            Token::RBrace => Token::RBrace,
            Token::Plus => Token::Plus,
            Token::Minus => Token::Minus,
            Token::Star => Token::Star,
            Token::Slash => Token::Slash,
            Token::Equal => Token::Equal,
            Token::Semicolon => Token::Semicolon,
            Token::Comma => Token::Comma,
            Token::DblEqual => Token::DblEqual,
            Token::NotEqual => Token::NotEqual,
            Token::LessThan => Token::LessThan,
            Token::GreaterThan => Token::GreaterThan,
            Token::LessThanEqual => Token::LessThanEqual,
            Token::GreaterThanEqual => Token::GreaterThanEqual,
            Token::Number(n) => Token::Number(*n),
            Token::Float(b) => Token::Float(*b),
            Token::String(s) => Token::String(s.clone()),
            Token::Bool(b) => Token::Bool(*b),
            Token::If => Token::If,
            Token::Else => Token::Else,
            Token::Elif => Token::Elif,
            Token::Print => Token::Print,
            Token::Var => Token::Var,
            Token::Fn => Token::Fn,
            Token::Return => Token::Return,
            Token::For => Token::For,
            Token::In => Token::In,
            Token::Range => Token::Range,
            Token::Identifier { name } => (Token::Identifier { name: name.clone() }),
            Token::EOF => Token::EOF,
            Token::Illegal(c) => Token::Illegal(*c),
        }
    }
}

} // verus!
