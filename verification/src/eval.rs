//! The postfix evaluator: runs a value stack over a postfix token
//! sequence. Every failure is terminal for the one evaluation and comes
//! back as a typed error, never as a panic.

use vstd::prelude::*;
use crate::token::Token;
use crate::value::{
    Value, val_add, val_div, val_is_zero, val_mul, val_sub, value_add, value_div, value_is_zero,
    value_mul, value_pow, value_sub,
};

verus! {

/// Why evaluating a postfix token sequence failed.
#[derive(Debug, Clone, Copy, PartialEq, Eq)]
pub enum EvalError {
    /// An operator arrived with fewer than two values on the stack.
    InsufficientOperands(char),
    /// A division's right operand was zero.
    DivisionByZero,
    /// An operator symbol outside `+ - * / ^`.
    UnknownOperator(char),
    /// A parenthesis token, which a postfix sequence must never contain.
    UnexpectedToken,
    /// An arithmetic result fell outside the finite doubles.
    NonFiniteResult,
    /// The run ended with the value stack not holding exactly one value.
    InvalidExpression,
}

/// A finite arithmetic result is the value; a non-finite one is an error.
pub open spec fn arith_result(v: Option<Value>) -> Result<Value, EvalError> {
    match v {
        Some(x) => Ok(x),
        None => Err(EvalError::NonFiniteResult),
    }
}

/// What applying operator `op` to left operand `a` and right operand `b`
/// may return. For `+ - * /` the outcome is pinned to the named IEEE
/// results; for `^` the value comes from `powf`, whose precision is
/// platform-defined, so only the shape of the outcome is stated.
pub open spec fn apply_rel(op: char, a: Value, b: Value, r: Result<Value, EvalError>) -> bool {
    if op == '+' {
        r == arith_result(val_add(a, b))
    } else if op == '-' {
        r == arith_result(val_sub(a, b))
    } else if op == '*' {
        r == arith_result(val_mul(a, b))
    } else if op == '/' {
        if val_is_zero(b) {
            r == Result::<Value, EvalError>::Err(EvalError::DivisionByZero)
        } else {
            r == arith_result(val_div(a, b))
        }
    } else if op == '^' {
        r is Ok || r == Result::<Value, EvalError>::Err(EvalError::NonFiniteResult)
    } else {
        r == Result::<Value, EvalError>::Err(EvalError::UnknownOperator(op))
    }
}

/// The relation between a postfix token sequence, a starting value stack
/// (its top is its last element), and the outcome of evaluating it. The
/// outcome is pinned completely except across `^`, where any finite power
/// result — or the non-finite failure — is admitted.
pub open spec fn eval_rel(
    toks: Seq<Token>,
    stack: Seq<Value>,
    r: Result<Value, EvalError>,
) -> bool
    decreases toks.len(),
{
    if toks.len() == 0 {
        if stack.len() == 1 {
            r == Result::<Value, EvalError>::Ok(stack[0])
        } else {
            r == Result::<Value, EvalError>::Err(EvalError::InvalidExpression)
        }
    } else {
        match toks[0] {
            Token::Number(v) => eval_rel(toks.skip(1), stack.push(v), r),
            Token::Operator(op) => {
                if stack.len() < 2 {
                    r == Result::<Value, EvalError>::Err(EvalError::InsufficientOperands(op))
                } else {
                    let a = stack[stack.len() - 2];
                    let b = stack[stack.len() - 1];
                    exists|step: Result<Value, EvalError>|
                        #[trigger] apply_rel(op, a, b, step) && match step {
                            Ok(v) => eval_rel(
                                toks.skip(1),
                                stack.drop_last().drop_last().push(v),
                                r,
                            ),
                            Err(e) => r == Result::<Value, EvalError>::Err(e),
                        }
                }
            },
            Token::LeftParen => r == Result::<Value, EvalError>::Err(EvalError::UnexpectedToken),
            Token::RightParen => r == Result::<Value, EvalError>::Err(EvalError::UnexpectedToken),
        }
    }
}

/// A token sequence free of the power operator, whose value — alone in
/// the alphabet — is platform-defined.
pub open spec fn pow_free(toks: Seq<Token>) -> bool {
    forall|m: int| 0 <= m < toks.len() ==> (#[trigger] toks[m]) != Token::Operator('^')
}

/// Evaluation is a single deterministic pass: on a postfix sequence free
/// of `^`, the evaluation relation admits exactly one outcome. (With `^`
/// the outcome's value comes from the platform's power routine, so only
/// its shape is determined.)
pub proof fn lemma_eval_deterministic(
    toks: Seq<Token>,
    stack: Seq<Value>,
    r1: Result<Value, EvalError>,
    r2: Result<Value, EvalError>,
)
    requires
        pow_free(toks),
        eval_rel(toks, stack, r1),
        eval_rel(toks, stack, r2),
    ensures
        r1 == r2,
    decreases toks.len(),
{
    if toks.len() == 0 {
    } else {
        assert(toks[0] != Token::Operator('^'));
        assert forall|m: int| 0 <= m < toks.skip(1).len() implies (#[trigger] toks.skip(1)[m])
            != Token::Operator('^') by {
            assert(toks.skip(1)[m] == toks[m + 1]);
        }
        match toks[0] {
            Token::Number(v) => {
                lemma_eval_deterministic(toks.skip(1), stack.push(v), r1, r2);
            },
            Token::Operator(op) => {
                if stack.len() >= 2 {
                    let a = stack[stack.len() - 2];
                    let b = stack[stack.len() - 1];
                    let step1 = choose|step: Result<Value, EvalError>|
                        #[trigger] apply_rel(op, a, b, step) && match step {
                            Ok(v) => eval_rel(
                                toks.skip(1),
                                stack.drop_last().drop_last().push(v),
                                r1,
                            ),
                            Err(e) => r1 == Result::<Value, EvalError>::Err(e),
                        };
                    let step2 = choose|step: Result<Value, EvalError>|
                        #[trigger] apply_rel(op, a, b, step) && match step {
                            Ok(v) => eval_rel(
                                toks.skip(1),
                                stack.drop_last().drop_last().push(v),
                                r2,
                            ),
                            Err(e) => r2 == Result::<Value, EvalError>::Err(e),
                        };
                    // Off the power operator, the applying relation pins
                    // the step, so both witnesses are the same step.
                    assert(op != '^');
                    assert(step1 == step2);
                    match step1 {
                        Ok(v) => {
                            lemma_eval_deterministic(
                                toks.skip(1),
                                stack.drop_last().drop_last().push(v),
                                r1,
                                r2,
                            );
                        },
                        Err(_) => {
                        },
                    }
                }
            },
            Token::LeftParen => {
            },
            Token::RightParen => {
            },
        }
    }
}

/// Applies one operator to its two operands: `b` is the operand popped
/// first (the right-hand one), `a` the second.
pub fn apply_operator(op: char, a: Value, b: Value) -> (r: Result<Value, EvalError>)
    ensures
        apply_rel(op, a, b, r),
{
    if op == '+' {
        match value_add(a, b) {
            Some(v) => Ok(v),
            None => Err(EvalError::NonFiniteResult),
        }
    } else if op == '-' {
        match value_sub(a, b) {
            Some(v) => Ok(v),
            None => Err(EvalError::NonFiniteResult),
        }
    } else if op == '*' {
        match value_mul(a, b) {
            Some(v) => Ok(v),
            None => Err(EvalError::NonFiniteResult),
        }
    } else if op == '/' {
        if value_is_zero(&b) {
            Err(EvalError::DivisionByZero)
        } else {
            match value_div(a, b) {
                Some(v) => Ok(v),
                None => Err(EvalError::NonFiniteResult),
            }
        }
    } else if op == '^' {
        match value_pow(a, b) {
            Some(v) => Ok(v),
            None => Err(EvalError::NonFiniteResult),
        }
    } else {
        Err(EvalError::UnknownOperator(op))
    }
}

/// Evaluates a postfix token sequence with a value stack.
pub fn evaluate_postfix(postfix: Vec<Token>) -> (r: Result<Value, EvalError>)
    ensures
        eval_rel(postfix@, Seq::empty(), r),
{
    let ghost ts = postfix@;
    let mut stack: Vec<Value> = Vec::new();
    let n = postfix.len();
    let mut i: usize = 0;
    proof {
        assert(ts.skip(0) =~= ts);
    }
    while i < n
        invariant
            n == ts.len(),
            ts == postfix@,
            i <= n,
            forall|res: Result<Value, EvalError>|
                #[trigger] eval_rel(ts.skip(i as int), stack@, res) ==> eval_rel(
                    ts,
                    Seq::empty(),
                    res,
                ),
        decreases n - i,
    {
        let t = postfix[i];
        proof {
            assert(ts.skip(i as int).skip(1) =~= ts.skip(i + 1));
            assert(ts.skip(i as int)[0] == ts[i as int]);
        }
        match t {
            Token::Number(v) => {
                let ghost st0 = stack@;
                stack.push(v);
                proof {
                    assert forall|res: Result<Value, EvalError>|
                        #[trigger] eval_rel(ts.skip(i + 1), stack@, res) implies eval_rel(
                        ts,
                        Seq::empty(),
                        res,
                    ) by {
                        assert(eval_rel(ts.skip(i as int), st0, res));
                    }
                }
            },
            Token::Operator(op) => {
                if stack.len() < 2 {
                    proof {
                        assert(eval_rel(
                            ts.skip(i as int),
                            stack@,
                            Result::<Value, EvalError>::Err(EvalError::InsufficientOperands(op)),
                        ));
                    }
                    return Err(EvalError::InsufficientOperands(op));
                }
                let ghost st0 = stack@;
                let b = stack.pop().unwrap();
                let a = stack.pop().unwrap();
                proof {
                    assert(stack@ =~= st0.drop_last().drop_last());
                    assert(a == st0[st0.len() - 2]);
                    assert(b == st0[st0.len() - 1]);
                }
                let step = apply_operator(op, a, b);
                match step {
                    Ok(v) => {
                        stack.push(v);
                        proof {
                            assert forall|res: Result<Value, EvalError>|
                                #[trigger] eval_rel(ts.skip(i + 1), stack@, res) implies eval_rel(
                                ts,
                                Seq::empty(),
                                res,
                            ) by {
                                assert(apply_rel(op, a, b, Result::<Value, EvalError>::Ok(v)));
                                assert(eval_rel(ts.skip(i as int), st0, res));
                            }
                        }
                    },
                    Err(e) => {
                        proof {
                            assert(apply_rel(op, a, b, Result::<Value, EvalError>::Err(e)));
                            assert(eval_rel(
                                ts.skip(i as int),
                                st0,
                                Result::<Value, EvalError>::Err(e),
                            ));
                        }
                        return Err(e);
                    },
                }
            },
            Token::LeftParen => {
                proof {
                    assert(eval_rel(
                        ts.skip(i as int),
                        stack@,
                        Result::<Value, EvalError>::Err(EvalError::UnexpectedToken),
                    ));
                }
                return Err(EvalError::UnexpectedToken);
            },
            Token::RightParen => {
                proof {
                    assert(eval_rel(
                        ts.skip(i as int),
                        stack@,
                        Result::<Value, EvalError>::Err(EvalError::UnexpectedToken),
                    ));
                }
                return Err(EvalError::UnexpectedToken);
            },
        }
        i += 1;
    }
    proof {
        assert(ts.skip(n as int) =~= Seq::<Token>::empty());
    }
    if stack.len() != 1 {
        proof {
            assert(eval_rel(
                ts.skip(n as int),
                stack@,
                Result::<Value, EvalError>::Err(EvalError::InvalidExpression),
            ));
        }
        return Err(EvalError::InvalidExpression);
    }
    let ghost st_end = stack@;
    let v = stack.pop().unwrap();
    proof {
        assert(st_end =~= seq![v]);
        assert(eval_rel(ts.skip(n as int), st_end, Result::<Value, EvalError>::Ok(v)));
    }
    Ok(v)
}

} // verus!
