//! Lexical tokens of the language, their spec-level model, and the
//! operator-precedence table that drives expression parsing.

use vstd::prelude::*;

verus! {

/// One lexical unit of source text.
///
/// A float literal keeps the exact digit run it was scanned from (digits
/// with one decimal point); the run is the value, and callers that need a
/// machine float convert the text themselves.  A character that no rule
/// of the lexical grammar matches becomes `Invalid` and scanning goes on.
#[derive(Debug, PartialEq)]
pub enum Token {
    Invalid(char),
    Identifier(String),
    Integer(i64),
    Float(String),
    Assign,
    Denial,
    Asterix,
    Minus,
    Plus,
    Slash,
    GreaterThan,
    LessThan,
    EqualTo,
    NotEqualTo,
    Comma,
    Colon,
    Arrow,
    LBrace,
    RBrace,
    LParen,
    RParen,
    Period,
    Function,
    Lambda,
    If,
    Unless,
    Else,
    Return,
    End,
    And,
    BinaryAnd,
    True,
    False,
}

/// Mathematical model of a token: the payload-carrying variants hold
/// sequences and unbounded integers, every payload-free variant is kept
/// as itself.
pub enum SpecTok {
    Invalid(char),
    Identifier(Seq<char>),
    Integer(int),
    Float(Seq<char>),
    Simple(Token),
}

/// The model of an executable token.
pub open spec fn tok_view(t: Token) -> SpecTok {
    match t {
        Token::Invalid(c) => SpecTok::Invalid(c),
        Token::Identifier(s) => SpecTok::Identifier(s@),
        Token::Integer(n) => SpecTok::Integer(n as int),
        Token::Float(s) => SpecTok::Float(s@),
        _ => SpecTok::Simple(t),
    }
}

/// Binding strength of a token used as an infix operator; `-1` means the
/// token is not an infix operator and expression parsing stops before it.
/// Assignment binds weakest, then logical and, the comparisons, the
/// additive operators, the multiplicative ones, and field access tightest.
pub open spec fn spec_precedence(t: SpecTok) -> int {
    match t {
        SpecTok::Simple(Token::Assign) => 10,
        SpecTok::Simple(Token::And) => 12,
        SpecTok::Simple(Token::LessThan) => 15,
        SpecTok::Simple(Token::GreaterThan) => 15,
        SpecTok::Simple(Token::EqualTo) => 15,
        SpecTok::Simple(Token::NotEqualTo) => 15,
        SpecTok::Simple(Token::Plus) => 20,
        SpecTok::Simple(Token::Minus) => 20,
        SpecTok::Simple(Token::Slash) => 40,
        SpecTok::Simple(Token::Asterix) => 40,
        SpecTok::Simple(Token::Period) => 100,
        _ => -1,
    }
}

/// Binding strength of `token` as an infix operator, `-1` for a token
/// that is none.
pub fn get_precedence(token: &Token) -> (r: i32)
    ensures
        r as int == spec_precedence(tok_view(*token)),
{
    match token {
        Token::Assign => 10,
        Token::And => 12,
        Token::LessThan => 15,
        Token::GreaterThan => 15,
        Token::EqualTo => 15,
        Token::NotEqualTo => 15,
        Token::Plus => 20,
        Token::Minus => 20,
        Token::Slash => 40,
        Token::Asterix => 40,
        Token::Period => 100,
        _ => -1,
    }
}

} // verus!
