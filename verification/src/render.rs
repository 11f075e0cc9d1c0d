//! A canonical renderer for token sequences — one line of text, token
//! texts joined by single spaces — and the round-trip law: re-tokenizing
//! a rendering yields the token sequence it came from.

use vstd::prelude::*;
use crate::token::Token;
use crate::lexer::{
    is_number_char, is_operator_char, lemma_num_run_len_exact, spec_tokenize,
};
use crate::value::{parsed_num, val_text, value_text, Value};
use vstd::string::StrSliceExecFns;

verus! {

/// Whether a value's canonical text reads back as one plain numeric run:
/// nonempty, made of digit / `.` characters only, and parsing to the value
/// itself. Values parsed from numeric runs are such (their text has no
/// sign and no exponent); a negative value is not, since its text starts
/// with `-`.
pub open spec fn renders_plain(v: Value) -> bool {
    &&& val_text(v).len() > 0
    &&& forall|m: int| 0 <= m < val_text(v).len() ==> is_number_char(#[trigger] val_text(v)[m])
    &&& parsed_num(val_text(v)) == Some(v)
}

/// Whether a token renders as text that the tokenizer reads back as that
/// token: a number whose text is a plain numeric run, an operator from
/// the operator alphabet, or a parenthesis.
pub open spec fn token_wf(t: Token) -> bool {
    match t {
        Token::Number(v) => renders_plain(v),
        Token::Operator(c) => is_operator_char(c),
        Token::LeftParen => true,
        Token::RightParen => true,
    }
}

/// The canonical text of one token.
pub open spec fn token_text(t: Token) -> Seq<char> {
    match t {
        Token::Number(v) => val_text(v),
        Token::Operator(c) => seq![c],
        Token::LeftParen => seq!['('],
        Token::RightParen => seq![')'],
    }
}

/// The canonical one-line rendering of a token sequence: token texts
/// joined by single spaces.
pub open spec fn spec_render(toks: Seq<Token>) -> Seq<char>
    decreases toks.len(),
{
    if toks.len() == 0 {
        Seq::empty()
    } else if toks.len() == 1 {
        token_text(toks[0])
    } else {
        token_text(toks[0]) + seq![' '] + spec_render(toks.skip(1))
    }
}

/// Appending one token to a rendered sequence appends a space (where the
/// sequence was nonempty) and the token's text.
proof fn lemma_render_snoc(toks: Seq<Token>, t: Token)
    ensures
        spec_render(toks.push(t)) == if toks.len() == 0 {
            token_text(t)
        } else {
            spec_render(toks) + seq![' '] + token_text(t)
        },
    decreases toks.len(),
{
    if toks.len() == 0 {
        assert(toks.push(t) =~= seq![t]);
    } else {
        lemma_render_snoc(toks.skip(1), t);
        assert(toks.push(t).skip(1) =~= toks.skip(1).push(t));
        assert(toks.push(t)[0] == toks[0]);
        if toks.len() == 1 {
            assert(toks.skip(1).len() == 0);
            assert(spec_render(toks.push(t)) == token_text(toks[0]) + seq![' '] + token_text(t));
            assert(spec_render(toks) == token_text(toks[0]));
        } else {
            assert(spec_render(toks.push(t)) == token_text(toks[0]) + seq![' ']
                + spec_render(toks.skip(1).push(t)));
            assert(spec_render(toks.skip(1).push(t)) == spec_render(toks.skip(1)) + seq![' ']
                + token_text(t));
            assert(token_text(toks[0]) + seq![' '] + (spec_render(toks.skip(1)) + seq![' ']
                + token_text(t)) =~= (token_text(toks[0]) + seq![' '] + spec_render(toks.skip(1)))
                + seq![' '] + token_text(t));
        }
    }
}

/// Tokenizing a plain numeric text followed by anything that does not
/// extend the run yields the number token and then the rest.
proof fn lemma_tokenize_number_prefix(v: Value, tail: Seq<char>)
    requires
        renders_plain(v),
        tail.len() > 0 ==> !is_number_char(tail[0]),
    ensures
        spec_tokenize(val_text(v) + tail) == seq![Token::Number(v)] + spec_tokenize(tail),
{
    let text = val_text(v);
    let s = text + tail;
    assert forall|m: int| 0 <= m < text.len() implies is_number_char(s[m]) by {
        assert(s[m] == text[m]);
    }
    if text.len() < s.len() {
        assert(s[text.len() as int] == tail[0]);
    }
    lemma_num_run_len_exact(s, text.len());
    assert(s.take(text.len() as int) =~= text);
    assert(s.skip(text.len() as int) =~= tail);
    assert(is_number_char(s[0]));
}

/// Tokenizing a single operator or parenthesis symbol followed by anything
/// yields its token and then the rest.
proof fn lemma_tokenize_symbol_prefix(t: Token, tail: Seq<char>)
    requires
        token_wf(t),
        !(t is Number),
    ensures
        spec_tokenize(token_text(t) + tail) == seq![t] + spec_tokenize(tail),
{
    let s = token_text(t) + tail;
    assert(s[0] == token_text(t)[0]);
    assert(s.skip(1) =~= tail);
    match t {
        Token::Number(_) => {
        },
        Token::Operator(c) => {
            assert(!is_number_char(c));
            assert(s[0] == c);
        },
        Token::LeftParen => {
            assert(s[0] == '(');
        },
        Token::RightParen => {
            assert(s[0] == ')');
        },
    }
}

/// The round-trip law: for a token sequence whose tokens render as text
/// the tokenizer reads back — numbers with a plain numeric text, operators
/// from the operator alphabet — tokenizing the canonical rendering yields
/// the sequence itself. (A number token holding a negative value is left
/// out: its text starts with `-`, which re-tokenizes as an operator.)
pub proof fn lemma_render_round_trip(toks: Seq<Token>)
    requires
        forall|m: int| 0 <= m < toks.len() ==> #[trigger] token_wf(toks[m]),
    ensures
        spec_tokenize(spec_render(toks)) == toks,
    decreases toks.len(),
{
    if toks.len() == 0 {
        assert(spec_tokenize(spec_render(toks)) =~= Seq::<Token>::empty());
    } else {
        let t = toks[0];
        let rest = toks.skip(1);
        assert(token_wf(t));
        assert forall|m: int| 0 <= m < rest.len() implies #[trigger] token_wf(rest[m]) by {
            assert(rest[m] == toks[m + 1]);
        }
        lemma_render_round_trip(rest);
        let tail: Seq<char> = if toks.len() == 1 {
            Seq::empty()
        } else {
            seq![' '] + spec_render(rest)
        };
        // The rendering splits as the head token's text plus the tail.
        if toks.len() == 1 {
            assert(spec_render(toks) =~= token_text(t) + tail);
        } else {
            assert(spec_render(toks) == token_text(t) + seq![' '] + spec_render(rest));
            assert(token_text(t) + seq![' '] + spec_render(rest) =~= token_text(t) + tail);
        }
        // The tail tokenizes to the rest of the sequence.
        if toks.len() == 1 {
            assert(rest =~= Seq::<Token>::empty());
            assert(spec_tokenize(tail) =~= Seq::<Token>::empty());
        } else {
            assert(tail[0] == ' ');
            assert(!is_number_char(' '));
            assert(!is_operator_char(' '));
            assert(tail.skip(1) =~= spec_render(rest));
            assert(spec_tokenize(tail) == spec_tokenize(spec_render(rest)));
        }
        if tail.len() > 0 {
            assert(!is_number_char(tail[0]));
        }
        match t {
            Token::Number(v) => {
                lemma_tokenize_number_prefix(v, tail);
            },
            _ => {
                lemma_tokenize_symbol_prefix(t, tail);
            },
        }
        assert(seq![t] + rest =~= toks);
    }
}

/// Renders a token sequence as its canonical one-line text.
pub fn render_tokens(tokens: &Vec<Token>) -> (r: Vec<char>)
    ensures
        r@ == spec_render(tokens@),
{
    let ghost ts = tokens@;
    let mut acc: Vec<char> = Vec::new();
    let n = tokens.len();
    let mut i: usize = 0;
    proof {
        assert(ts.take(0) =~= Seq::<Token>::empty());
    }
    while i < n
        invariant
            n == ts.len(),
            ts == tokens@,
            i <= n,
            acc@ == spec_render(ts.take(i as int)),
        decreases n - i,
    {
        let ghost acc0 = acc@;
        if i > 0 {
            acc.push(' ');
        }
        let ghost base = acc@;
        let t = tokens[i];
        match t {
            Token::Number(v) => {
                let text = value_text(&v);
                let text_str = text.as_str();
                let m = text_str.unicode_len();
                let mut k: usize = 0;
                proof {
                    assert(val_text(v).take(0) =~= Seq::<char>::empty());
                    assert(acc@ =~= base + val_text(v).take(0));
                }
                while k < m
                    invariant
                        m == val_text(v).len(),
                        text_str@ == val_text(v),
                        k <= m,
                        acc@ == base + val_text(v).take(k as int),
                    decreases m - k,
                {
                    let c = text_str.get_char(k);
                    acc.push(c);
                    proof {
                        assert(acc@ =~= base + val_text(v).take(k + 1));
                    }
                    k += 1;
                }
                proof {
                    assert(val_text(v).take(m as int) =~= val_text(v));
                }
            },
            Token::Operator(c) => {
                acc.push(c);
                proof {
                    assert(acc@ =~= base + token_text(t));
                }
            },
            Token::LeftParen => {
                acc.push('(');
                proof {
                    assert(acc@ =~= base + token_text(t));
                }
            },
            Token::RightParen => {
                acc.push(')');
                proof {
                    assert(acc@ =~= base + token_text(t));
                }
            },
        }
        proof {
            lemma_render_snoc(ts.take(i as int), ts[i as int]);
            assert(ts.take(i + 1) =~= ts.take(i as int).push(ts[i as int]));
            if i > 0 {
                assert(base =~= acc0 + seq![' ']);
                assert(acc@ =~= (spec_render(ts.take(i as int)) + seq![' ']) + token_text(
                    ts[i as int],
                ));
                assert((spec_render(ts.take(i as int)) + seq![' ']) + token_text(ts[i as int])
                    =~= spec_render(ts.take(i as int)) + seq![' '] + token_text(ts[i as int]));
            } else {
                assert(ts.take(0) =~= Seq::<Token>::empty());
                assert(acc@ =~= token_text(ts[i as int]));
            }
        }
        i += 1;
    }
    proof {
        assert(ts.take(n as int) =~= ts);
    }
    acc
}

} // verus!
