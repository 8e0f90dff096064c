//! The error values that tokenizing and parsing can surface.

use vstd::prelude::*;

verus! {

/// Why a parse (or the scan feeding it) stopped.  Every parsing
/// operation reports the first failure it meets and nothing after it.
#[derive(Debug, Clone, Copy, PartialEq, Eq)]
pub enum ParserError {
    /// An invalid character reached the parser.
    BadInput,
    /// A token with no binding strength stood where an expression was
    /// expected.
    UnknownOperator,
    /// A `(` was never answered by a `)`.
    MissingRParen,
    /// A function declaration carries no name.
    FnMissingName,
    /// A function declaration carries no parameter list.
    FnMissingParameters,
    /// The input ended in the middle of a construct.
    OutOfInput,
    /// A numeric literal is neither a valid integer nor a valid float.
    BadNumber,
    /// A token that no grammar rule expects at this point.
    UnexpectedToken,
    /// The nesting of the input exceeds the parser's recursion budget.
    TooDeep,
}

/// The model of the message `description` returns.
pub open spec fn spec_description(e: ParserError) -> Seq<char> {
    match e {
        ParserError::BadInput => "Illegal characters found in input stream"@,
        ParserError::UnknownOperator => "Unknown operator"@,
        ParserError::MissingRParen => "Expected ')'"@,
        ParserError::FnMissingName => "Function declaration is missing name"@,
        ParserError::FnMissingParameters => "Function declaration is missing parameters"@,
        ParserError::OutOfInput => "Unexpected end of input"@,
        ParserError::BadNumber => "Invalid number"@,
        ParserError::UnexpectedToken => "Unexpected token"@,
        ParserError::TooDeep => "Input is nested too deeply"@,
    }
}

impl ParserError {
    /// A human-readable account of the error.
    pub fn description(&self) -> (r: &'static str)
        ensures
            r@ == spec_description(*self),
    {
        match self {
            ParserError::BadInput => "Illegal characters found in input stream",
            ParserError::UnknownOperator => "Unknown operator",
            ParserError::MissingRParen => "Expected ')'",
            ParserError::FnMissingName => "Function declaration is missing name",
            ParserError::FnMissingParameters => "Function declaration is missing parameters",
            ParserError::OutOfInput => "Unexpected end of input",
            ParserError::BadNumber => "Invalid number",
            ParserError::UnexpectedToken => "Unexpected token",
            ParserError::TooDeep => "Input is nested too deeply",
        }
    }
}

} // verus!
