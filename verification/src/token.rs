use vstd::prelude::*;

verus! {

/// The category of a token handed to the parser by the token source.
#[derive(Clone, Copy, PartialEq, Eq, Structural, Debug)]
pub enum TokenKind {
    Illegal,
    Eof,
    Ident,
    Int,
    Assign,
    Plus,
    Minus,
    Bang,
    Asterisk,
    Slash,
    Lt,
    Gt,
    Eq,
    NotEq,
    Comma,
    Semicolon,
    LParen,
    RParen,
    LBrace,
    RBrace,
    Function,
    Let,
    True,
    False,
    If,
    Else,
    Return,
}

/// One token of the source: its category and the literal text it was read
/// from. The literal matters only for identifiers and integer literals.
pub struct Token {
    pub kind: TokenKind,
    pub literal: String,
}

impl Token {
    pub fn new(kind: TokenKind, literal: &str) -> (t: Token)
        ensures
            t.kind == kind,
            t.literal@ == literal@,
    {
        Token { kind, literal: literal.to_owned() }
    }
}

} // verus!
