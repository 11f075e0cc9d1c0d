//! Operator metadata: precedence and associativity of the operator alphabet
//! `+ - * / ^`, as pure lookups.

use vstd::prelude::*;

verus! {

/// Binding strength of an operator symbol: `+ -` bind loosest, `^` tightest.
/// A symbol outside the operator alphabet maps to 0.
pub open spec fn spec_precedence(op: char) -> u32 {
    if op == '+' || op == '-' {
        1
    } else if op == '*' || op == '/' {
        2
    } else if op == '^' {
        3
    } else {
        0
    }
}

/// Higher precedence gets evaluated first.
pub fn get_precedence(op: char) -> (p: u32)
    ensures
        p == spec_precedence(op),
{
    match op {
        '+' | '-' => 1,
        '*' | '/' => 2,
        '^' => 3,
        _ => 0,
    }
}

/// `^` is right-associative; every other symbol is treated as left-associative.
pub open spec fn spec_is_left_associative(op: char) -> bool {
    op != '^'
}

pub fn is_left_associative(op: char) -> (b: bool)
    ensures
        b == spec_is_left_associative(op),
{
    match op {
        '+' | '-' | '*' | '/' => true,
        '^' => false,
        _ => true,
    }
}

} // verus!
