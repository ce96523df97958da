//! The token model: the alphabet of lexical units handed from the lexer to
//! the parser, each paired with its literal text and byte offset.

use vstd::prelude::*;

verus! {

/// A located token: the token itself, the literal text it was read from,
/// and the character offset at which that text starts.
#[derive(Debug, Clone, PartialEq)]
pub struct Node {
    pub token: Token,
    pub ch: String,
    pub loc: usize,
}

impl Node {
    pub fn new(token: Token, ch: String, loc: usize) -> (n: Self)
        ensures
            n.token == token,
            n.ch == ch,
            n.loc == loc,
    {
        Self { token, ch, loc }
    }
}

/// A numeric literal. Integer literals carry their 32-bit value; float
/// literals carry their source text verbatim, so that no precision is lost
/// before the emitter copies them into the output.
#[derive(Debug, Clone, PartialEq)]
pub enum Number {
    Int(i32),
    Float(String),
}

#[derive(Debug, Clone, PartialEq)]
pub enum Token {
    Illegal,
    Blank,
    Eof,
    // Identifiers and literals
    Ident(String),
    Number(Number),
    Bool(bool),
    String(String),
    Regexp(String, String),
    // Statements
    Assign,
    If,
    Else,
    While,
    Let,
    Return,
    // Arithmetic operators
    Plus,
    Minus,
    Bang,
    Asterisk,
    Slash,
    Caret,
    Percent,
    // Compound assignment operators
    PlusAssign,
    MulAssign,
    DivAssign,
    SubAssign,
    // Comparison operators
    Equal,
    NotEqual,
    LessThan,
    LessThanEqual,
    GreaterThan,
    GreaterThanEqual,
    // Delimiters
    Comma,
    Dot,
    Colon,
    Semicolon,
    Lparen,
    Rparen,
    Lbrace,
    Rbrace,
    Lbracket,
    Rbracket,
    Func,
    End,
}

} // verus!
