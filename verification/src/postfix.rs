//! The infix-to-postfix converter: the shunting yard algorithm over an
//! operator stack. Mismatched parentheses are tolerated: the offending
//! token is dropped and conversion goes on, so the output is a best-effort
//! postfix sequence — by design.

use vstd::prelude::*;
use crate::token::Token;
use crate::ops::{get_precedence, is_left_associative, spec_is_left_associative, spec_precedence};

verus! {

/// Whether the operator `op` about to be pushed forces `top`, the token on
/// the operator stack's top, to be popped to the output first.
pub open spec fn pops_before(op: char, top: Token) -> bool {
    match top {
        Token::Operator(t) => {
            if spec_is_left_associative(op) {
                spec_precedence(op) <= spec_precedence(t)
            } else {
                spec_precedence(op) < spec_precedence(t)
            }
        },
        _ => false,
    }
}

/// Stack state and emitted output after popping, for an incoming operator
/// `op`, every stack-top operator that binds at least as tightly. The
/// stack's top is its last element; the first pop is emitted first.
pub open spec fn pop_for_operator(op: char, stack: Seq<Token>) -> (Seq<Token>, Seq<Token>)
    decreases stack.len(),
{
    if stack.len() > 0 && pops_before(op, stack.last()) {
        let rec = pop_for_operator(op, stack.drop_last());
        (rec.0, seq![stack.last()] + rec.1)
    } else {
        (stack, Seq::empty())
    }
}

/// Stack state and emitted output after popping, at a right parenthesis,
/// every token above the nearest left parenthesis. Where no left
/// parenthesis is on the stack, the whole stack is emitted.
pub open spec fn pop_for_rparen(stack: Seq<Token>) -> (Seq<Token>, Seq<Token>)
    decreases stack.len(),
{
    if stack.len() > 0 && !(stack.last() is LeftParen) {
        let rec = pop_for_rparen(stack.drop_last());
        (rec.0, seq![stack.last()] + rec.1)
    } else {
        (stack, Seq::empty())
    }
}

/// Output emitted when the whole stack is drained after the last input
/// token; a left parenthesis still on the stack is a mismatch and is
/// dropped, not emitted.
pub open spec fn drain_stack(stack: Seq<Token>) -> Seq<Token>
    decreases stack.len(),
{
    if stack.len() == 0 {
        Seq::empty()
    } else {
        let rest = drain_stack(stack.drop_last());
        if stack.last() is LeftParen {
            rest
        } else {
            seq![stack.last()] + rest
        }
    }
}

/// The shunting-yard run over the remaining tokens, given the operator
/// stack and the output emitted so far.
pub open spec fn spec_convert(toks: Seq<Token>, stack: Seq<Token>, out: Seq<Token>) -> Seq<Token>
    decreases toks.len(),
{
    if toks.len() == 0 {
        out + drain_stack(stack)
    } else {
        match toks[0] {
            Token::Number(_) => spec_convert(toks.skip(1), stack, out.push(toks[0])),
            Token::Operator(op) => {
                let rec = pop_for_operator(op, stack);
                spec_convert(toks.skip(1), rec.0.push(Token::Operator(op)), out + rec.1)
            },
            Token::LeftParen => spec_convert(toks.skip(1), stack.push(Token::LeftParen), out),
            Token::RightParen => {
                let rec = pop_for_rparen(stack);
                let popped = if rec.0.len() > 0 {
                    rec.0.drop_last()
                } else {
                    rec.0
                };
                spec_convert(toks.skip(1), popped, out + rec.1)
            },
        }
    }
}

/// The postfix form of `toks`.
pub open spec fn spec_to_postfix(toks: Seq<Token>) -> Seq<Token> {
    spec_convert(toks, Seq::empty(), Seq::empty())
}

/// Pops every stack-top operator that binds at least as tightly than the
/// incoming `op` into `out`.
fn pop_operators(op: char, stack: &mut Vec<Token>, out: &mut Vec<Token>)
    ensures
        final(stack)@ == pop_for_operator(op, old(stack)@).0,
        final(out)@ == old(out)@ + pop_for_operator(op, old(stack)@).1,
    decreases old(stack)@.len(),
{
    let len = stack.len();
    let mut popping = false;
    if len > 0 {
        let top = stack[len - 1];
        if let Token::Operator(stack_op) = top {
            let current_precedence = get_precedence(op);
            let stack_precedence = get_precedence(stack_op);
            popping = if is_left_associative(op) {
                current_precedence <= stack_precedence
            } else {
                current_precedence < stack_precedence
            };
        }
        proof {
            assert(popping == pops_before(op, old(stack)@.last()));
        }
    }
    if popping {
        let ghost stack0 = stack@;
        let ghost out0 = out@;
        let popped = stack.pop().unwrap();
        out.push(popped);
        pop_operators(op, stack, out);
        proof {
            assert(stack0.subrange(0, stack0.len() - 1) =~= stack0.drop_last());
            assert((out0 + seq![stack0.last()]) + pop_for_operator(op, stack0.drop_last()).1
                =~= out0 + (seq![stack0.last()] + pop_for_operator(op, stack0.drop_last()).1));
            assert(out0.push(stack0.last()) =~= out0 + seq![stack0.last()]);
        }
    } else {
        proof {
            assert(out@ =~= out@ + Seq::<Token>::empty());
        }
    }
}

/// Pops every token above the nearest left parenthesis into `out`. The
/// left parenthesis itself stays on the stack.
fn pop_until_left_paren(stack: &mut Vec<Token>, out: &mut Vec<Token>)
    ensures
        final(stack)@ == pop_for_rparen(old(stack)@).0,
        final(out)@ == old(out)@ + pop_for_rparen(old(stack)@).1,
    decreases old(stack)@.len(),
{
    let len = stack.len();
    let mut popping = false;
    if len > 0 {
        let top = stack[len - 1];
        popping = !(matches!(top, Token::LeftParen));
    }
    if popping {
        let ghost stack0 = stack@;
        let ghost out0 = out@;
        let popped = stack.pop().unwrap();
        out.push(popped);
        pop_until_left_paren(stack, out);
        proof {
            assert(stack0.subrange(0, stack0.len() - 1) =~= stack0.drop_last());
            assert((out0 + seq![stack0.last()]) + pop_for_rparen(stack0.drop_last()).1
                =~= out0 + (seq![stack0.last()] + pop_for_rparen(stack0.drop_last()).1));
            assert(out0.push(stack0.last()) =~= out0 + seq![stack0.last()]);
        }
    } else {
        proof {
            assert(out@ =~= out@ + Seq::<Token>::empty());
        }
    }
}

/// Pops everything left on the stack into `out`; a remaining left
/// parenthesis is a mismatch and is dropped.
fn drain_operators(stack: &mut Vec<Token>, out: &mut Vec<Token>)
    ensures
        final(stack)@.len() == 0,
        final(out)@ == old(out)@ + drain_stack(old(stack)@),
    decreases old(stack)@.len(),
{
    let ghost stack0 = stack@;
    let ghost out0 = out@;
    let popped = stack.pop();
    match popped {
        None => {
            proof {
                assert(out@ =~= out@ + Seq::<Token>::empty());
            }
        },
        Some(t) => {
            proof {
                assert(stack0.subrange(0, stack0.len() - 1) =~= stack0.drop_last());
            }
            match t {
                Token::LeftParen => {
                    // Mismatched parenthesis: dropped, with its diagnostic.
                    drain_operators(stack, out);
                },
                _ => {
                    out.push(t);
                    drain_operators(stack, out);
                    proof {
                        assert((out0 + seq![stack0.last()]) + drain_stack(stack0.drop_last())
                            =~= out0 + (seq![stack0.last()] + drain_stack(stack0.drop_last())));
                        assert(out0.push(stack0.last()) =~= out0 + seq![stack0.last()]);
                    }
                },
            }
        },
    }
}

/// Reorders an infix token sequence into postfix (Reverse Polish) order.
pub fn infix_to_postfix(tokens: Vec<Token>) -> (output: Vec<Token>)
    ensures
        output@ == spec_to_postfix(tokens@),
{
    let ghost ts = tokens@;
    let mut output_queue: Vec<Token> = Vec::new();
    let mut operator_stack: Vec<Token> = Vec::new();
    let n = tokens.len();
    let mut i: usize = 0;
    proof {
        assert(ts.skip(0) =~= ts);
    }
    while i < n
        invariant
            n == ts.len(),
            ts == tokens@,
            i <= n,
            spec_convert(ts, Seq::empty(), Seq::empty()) == spec_convert(
                ts.skip(i as int),
                operator_stack@,
                output_queue@,
            ),
        decreases n - i,
    {
        let t = tokens[i];
        proof {
            assert(ts.skip(i as int).skip(1) =~= ts.skip(i + 1));
            assert(ts.skip(i as int)[0] == ts[i as int]);
        }
        match t {
            Token::Number(_) => {
                output_queue.push(t);
            },
            Token::Operator(op) => {
                pop_operators(op, &mut operator_stack, &mut output_queue);
                operator_stack.push(t);
            },
            Token::LeftParen => {
                operator_stack.push(t);
            },
            Token::RightParen => {
                pop_until_left_paren(&mut operator_stack, &mut output_queue);
                let ghost st1 = operator_stack@;
                if operator_stack.len() > 0 {
                    // The matching left parenthesis, discarded.
                    operator_stack.pop();
                    proof {
                        assert(operator_stack@ =~= st1.drop_last());
                    }
                } else {
                    // Mismatched parenthesis: dropped diagnostic.
                }
            },
        }
        i += 1;
    }
    drain_operators(&mut operator_stack, &mut output_queue);
    proof {
        assert(ts.skip(n as int) =~= Seq::<Token>::empty());
    }
    output_queue
}

} // verus!
