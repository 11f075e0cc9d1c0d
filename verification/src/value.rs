//! The numeric domain of the calculator: finite double-precision values,
//! carried by `noisy_float`'s checked wrapper type `R64` so that a number
//! held in a token is always a finite, successfully parsed value.
//!
//! The value itself is opaque to the verifier. Each arithmetic step goes
//! through a trusted wrapper below; where the step is a deterministic
//! function of its arguments alone, its result carries a spec-level name
//! so that callers' contracts can speak of it exactly.

use vstd::prelude::*;
use noisy_float::types::R64;

verus! {

/// A finite double-precision value. The struct is opaque to the verifier
/// (Verus cannot take `NoisyFloat`'s generics), so everything known about
/// values is stated on the trusted wrappers below. The field is public so
/// that unverified callers — the surrounding program and the tests — can
/// build and inspect values directly.
#[verifier::external_body]
#[derive(Debug)]
pub struct Value {
    pub raw: R64,
}

impl Clone for Value {
    /// Relies on `NoisyFloat` being plain copyable data: the clone carries
    /// the same value.
    #[verifier::external_body]
    fn clone(&self) -> (r: Self)
        ensures
            r == *self,
    {
        Value { raw: self.raw }
    }
}

impl Copy for Value {

}

/// The finite double parsed from a run of text, `None` where the text is
/// not a valid floating-point literal or the value it denotes is not
/// finite. Parsing of doubles is correctly rounded, so the result is a
/// function of the text alone.
pub uninterp spec fn parsed_num(text: Seq<char>) -> Option<Value>;

/// The IEEE sum of two finite doubles, `None` where it is not finite.
pub uninterp spec fn val_add(a: Value, b: Value) -> Option<Value>;

/// The IEEE difference of two finite doubles, `None` where it is not finite.
pub uninterp spec fn val_sub(a: Value, b: Value) -> Option<Value>;

/// The IEEE product of two finite doubles, `None` where it is not finite.
pub uninterp spec fn val_mul(a: Value, b: Value) -> Option<Value>;

/// The IEEE quotient of two finite doubles, `None` where it is not finite.
pub uninterp spec fn val_div(a: Value, b: Value) -> Option<Value>;

/// Whether a finite double compares equal to zero (of either sign).
pub uninterp spec fn val_is_zero(v: Value) -> bool;

/// The canonical text of a value: the shortest decimal rendering of the
/// double — a function of the value alone.
pub uninterp spec fn val_text(v: Value) -> Seq<char>;

/// Relies on `str::parse` for doubles, which Rust documents as correctly
/// rounded (hence deterministic), and on `NoisyFloat::try_new`, which its
/// source shows returning `Some` exactly for values its checker accepts —
/// for `R64`, the finite ones.
#[verifier::external_body]
pub(crate) fn parse_number(text: &Vec<char>) -> (r: Option<Value>)
    ensures
        r == parsed_num(text@),
{
    let s: String = text.iter().collect();
    match s.parse() {
        Ok(v) => match R64::try_new(v) {
            Some(raw) => Some(Value { raw }),
            None => None,
        },
        Err(_) => None,
    }
}

/// Relies on IEEE double addition (via `NoisyFloat::raw`) and
/// `NoisyFloat::try_new`: the sum where it is finite, `None` where not.
#[verifier::external_body]
pub(crate) fn value_add(a: Value, b: Value) -> (r: Option<Value>)
    ensures
        r == val_add(a, b),
{
    match R64::try_new(a.raw.raw() + b.raw.raw()) {
        Some(raw) => Some(Value { raw }),
        None => None,
    }
}

/// Relies on IEEE double subtraction (via `NoisyFloat::raw`) and
/// `NoisyFloat::try_new`: the difference where it is finite, `None` where not.
#[verifier::external_body]
pub(crate) fn value_sub(a: Value, b: Value) -> (r: Option<Value>)
    ensures
        r == val_sub(a, b),
{
    match R64::try_new(a.raw.raw() - b.raw.raw()) {
        Some(raw) => Some(Value { raw }),
        None => None,
    }
}

/// Relies on IEEE double multiplication (via `NoisyFloat::raw`) and
/// `NoisyFloat::try_new`: the product where it is finite, `None` where not.
#[verifier::external_body]
pub(crate) fn value_mul(a: Value, b: Value) -> (r: Option<Value>)
    ensures
        r == val_mul(a, b),
{
    match R64::try_new(a.raw.raw() * b.raw.raw()) {
        Some(raw) => Some(Value { raw }),
        None => None,
    }
}

/// Relies on IEEE double division (via `NoisyFloat::raw`) and
/// `NoisyFloat::try_new`: the quotient where it is finite, `None` where
/// not. Division of doubles never panics, whatever the divisor.
#[verifier::external_body]
pub(crate) fn value_div(a: Value, b: Value) -> (r: Option<Value>)
    ensures
        r == val_div(a, b),
{
    match R64::try_new(a.raw.raw() / b.raw.raw()) {
        Some(raw) => Some(Value { raw }),
        None => None,
    }
}

/// Relies on `num_traits::Zero::is_zero` for `NoisyFloat`, whose source
/// compares the value against zero.
#[verifier::external_body]
pub(crate) fn value_is_zero(v: &Value) -> (r: bool)
    ensures
        r == val_is_zero(*v),
{
    num_traits::Zero::is_zero(&v.raw)
}

/// Relies on the display of doubles (via `NoisyFloat`), which Rust
/// documents as the shortest decimal text that parses back to the same
/// value, never in exponent notation — deterministic, so a name pins it,
/// and round-tripping through `parsed_num` (the value is finite, so the
/// re-parse accepts it).
#[verifier::external_body]
pub(crate) fn value_text(v: &Value) -> (r: String)
    ensures
        r@ == val_text(*v),
        parsed_num(r@) == Some(*v),
{
    format!("{}", v.raw)
}

/// Relies on `f64::powf` (via `NoisyFloat::raw`) and `NoisyFloat::try_new`.
/// Rust documents the power's precision as platform-defined, so no
/// spec-level name pins the value: only the shape of the outcome is known,
/// a finite result as `Some` and anything else as `None`.
#[verifier::external_body]
pub(crate) fn value_pow(a: Value, b: Value) -> (r: Option<Value>) {
    match R64::try_new(a.raw.raw().powf(b.raw.raw())) {
        Some(raw) => Some(Value { raw }),
        None => None,
    }
}

} // verus!
