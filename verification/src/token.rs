//! The lexical tokens of the calculator.

use vstd::prelude::*;
use crate::value::Value;

verus! {

/// A token of an arithmetic expression. Tokens are immutable values,
/// produced once by the tokenizer and passed by value from stage to stage.
#[derive(Debug, Clone, Copy)]
pub enum Token {
    /// A finite, successfully parsed double-precision number.
    Number(Value),
    /// One of the operator symbols `+ - * / ^`.
    Operator(char),
    LeftParen,
    RightParen,
}

} // verus!
