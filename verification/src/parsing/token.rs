//! Tokens, source locations and lexical errors of the location-tracking
//! scanner.

use vstd::prelude::*;

verus! {

/// A lexical token. Identifiers beginning with an uppercase letter are type
/// identifiers, others are object identifiers.
#[derive(Debug, Clone, PartialEq)]
pub enum Token {
    Class_,
    Else,
    Fi,
    If,
    In,
    Inherits,
    Let,
    Loop,
    Pool,
    Then,
    While,
    Case,
    Esac,
    Of,
    New,
    Isvoid,
    Not,
    StrConst(String),
    IntConst(String),
    BoolConst(bool),
    Typeid(String),
    Objectid(String),
    Darrow,
    Assign,
    Le,
    Lbrace,
    Rbrace,
    Lparen,
    Rparen,
    Colon,
    Semicolon,
    At,
    Plus,
    Minus,
    Divide,
    Mul,
    Neg,
    Equal,
    Lt,
    Period,
    Comma,
    Error(String),
}

/// A 1-based line and 0-based column.
#[derive(Debug, Clone, Copy, PartialEq, Eq, Default)]
pub struct Loc {
    pub line: usize,
    pub column: usize,
}

/// A lexical error: an unexpected character, a string literal that never
/// closes, or an integer literal out of range.
#[derive(Debug, Clone, PartialEq)]
pub enum LexicalError {
    InvalidChar(char, Loc),
    UnterminatedString(Loc),
    InvalidNumber(String, Loc),
}

} // verus!
