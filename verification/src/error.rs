//! Error types returned by compilation and evaluation.
//!
//! A `SyntaxError` is produced by the tokenizer or the parser and carries the
//! byte position in the expression text at which the problem was found.  An
//! `EvalError` is produced only by evaluation; path lookups never fail, so the
//! only evaluation failures are type mismatches, division by zero, and the
//! defensive check for an operator the evaluator does not know.

use vstd::prelude::*;

verus! {

/// What went wrong while tokenizing or parsing an expression.
#[derive(Clone, Copy, Debug, PartialEq, Eq, Structural)]
pub enum SyntaxErrorKind {
    /// A quote (`'` or `` ` ``) was opened and never closed.
    UnterminatedText,
    /// A numeric literal does not fit the number model.
    NumberTooLarge,
    /// A numeric literal carries a fractional part, which the integer
    /// number model does not represent.
    FractionalNumber,
    /// No registered operator lexeme matches the input at this position.
    UnknownOperator,
    /// A token that cannot start or continue an expression at this point.
    UnexpectedToken,
    /// The expression ended where an operand was still expected.
    UnexpectedEnd,
    /// A parenthesized sub-expression was not closed by `)`.
    UnmatchedParen,
    /// Tokens remained after a complete expression had been parsed.
    TrailingToken,
    /// The expression exceeds the parser's nesting allowance.
    TooDeep,
    /// The token sequence is too long for the parser's fuel arithmetic.
    TooLong,
}

/// A lexical or structural defect in the expression text, reported with the
/// position at which it was detected: a byte offset for tokenizer errors, a
/// token index for parser errors.
#[derive(Clone, Copy, Debug, PartialEq, Eq, Structural)]
pub struct SyntaxError {
    pub pos: usize,
    pub kind: SyntaxErrorKind,
}

/// A failure raised while evaluating a compiled expression against a context.
#[derive(Clone, Copy, Debug, PartialEq, Eq, Structural)]
pub enum EvalError {
    /// Operand types are incompatible for the requested operation.
    TypeMismatch,
    /// The right operand of `/` evaluated to zero.
    DivideByZero,
    /// A node carries an operator whose arity does not fit the node shape.
    UnknownOperator,
}

} // verus!
