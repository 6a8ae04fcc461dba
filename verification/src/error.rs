//! The closed set of typed reasons for which an evaluation fails.

use vstd::prelude::*;
use crate::ast::SpecToken;
use crate::ast::Token;

verus! {

/// Why an evaluation was rejected. Every failure of the pipeline is one of
/// these reasons; none aborts the process.
#[derive(Debug, Clone, PartialEq)]
pub enum EvalError {
    /// The input exceeds 1000 characters; rejected before any scanning.
    InputTooLong,
    /// The input contains `;`, `|` or `&`; rejected before any scanning.
    UnsafeCharacter,
    /// A character no tokenizer branch recognizes.
    InvalidCharacter(char),
    /// An identifier that is not a whitelisted function name.
    UnknownFunction(String),
    /// A numeric lexeme that does not denote a number (no digits).
    NumberParseError(String),
    /// The token sequence handed to evaluation is empty.
    EmptyExpression,
    /// The cursor ran off the end while a factor was expected.
    UnexpectedEndOfInput,
    /// A `(` was opened without a `)` at the expected position.
    UnmatchedParenthesis,
    /// A function name not immediately followed by `(`.
    MissingFunctionParenthesis,
    /// A function argument not immediately followed by `)`.
    MissingFunctionClosingParenthesis,
    /// A token in factor position that starts no factor.
    UnexpectedToken(Token),
    /// A division whose right operand is zero.
    DivisionByZero,
    /// A power whose result is not finite.
    InvalidPowerResult,
    /// A function application whose result is not finite.
    InvalidFunctionResult,
}

/// Mathematical model of an [`EvalError`].
pub enum SpecError {
    InputTooLong,
    UnsafeCharacter,
    InvalidCharacter(char),
    UnknownFunction(Seq<char>),
    NumberParseError(Seq<char>),
    EmptyExpression,
    UnexpectedEndOfInput,
    UnmatchedParenthesis,
    MissingFunctionParenthesis,
    MissingFunctionClosingParenthesis,
    UnexpectedToken(SpecToken),
    DivisionByZero,
    InvalidPowerResult,
    InvalidFunctionResult,
}

impl View for EvalError {
    type V = SpecError;

    open spec fn view(&self) -> SpecError {
        match self {
            EvalError::InputTooLong => SpecError::InputTooLong,
            EvalError::UnsafeCharacter => SpecError::UnsafeCharacter,
            EvalError::InvalidCharacter(c) => SpecError::InvalidCharacter(*c),
            EvalError::UnknownFunction(name) => SpecError::UnknownFunction(name@),
            EvalError::NumberParseError(lex) => SpecError::NumberParseError(lex@),
            EvalError::EmptyExpression => SpecError::EmptyExpression,
            EvalError::UnexpectedEndOfInput => SpecError::UnexpectedEndOfInput,
            EvalError::UnmatchedParenthesis => SpecError::UnmatchedParenthesis,
            EvalError::MissingFunctionParenthesis => SpecError::MissingFunctionParenthesis,
            EvalError::MissingFunctionClosingParenthesis => (
                SpecError::MissingFunctionClosingParenthesis
            ),
            EvalError::UnexpectedToken(t) => SpecError::UnexpectedToken(t@),
            EvalError::DivisionByZero => SpecError::DivisionByZero,
            EvalError::InvalidPowerResult => SpecError::InvalidPowerResult,
            EvalError::InvalidFunctionResult => SpecError::InvalidFunctionResult,
        }
    }
}

} // verus!
