//! The tokenizer: scans a text line left to right and classifies runs of
//! characters into tokens. Malformed pieces (a digit run that does not
//! parse, an unrecognized character) produce no token and scanning goes
//! on, so the result can be shorter than the input suggests — by design.

use vstd::prelude::*;
use vstd::string::StrSliceExecFns;
use crate::token::Token;
use crate::value::{parse_number, parsed_num};

verus! {

/// An ASCII decimal digit.
pub open spec fn is_digit(c: char) -> bool {
    '0' <= c && c <= '9'
}

/// A character that may stand in a numeric literal run: a digit or `.`.
pub open spec fn is_number_char(c: char) -> bool {
    is_digit(c) || c == '.'
}

/// One of the operator symbols `+ - * / ^`.
pub open spec fn is_operator_char(c: char) -> bool {
    c == '+' || c == '-' || c == '*' || c == '/' || c == '^'
}

/// Length of the maximal prefix of `s` made of digit / `.` characters:
/// the tokenizer consumes such a run greedily.
pub open spec fn num_run_len(s: Seq<char>) -> nat
    decreases s.len(),
{
    if s.len() == 0 {
        0
    } else if is_number_char(s[0]) {
        1 + num_run_len(s.skip(1))
    } else {
        0
    }
}

pub proof fn lemma_num_run_len_bounds(s: Seq<char>)
    ensures
        num_run_len(s) <= s.len(),
        s.len() > 0 && is_number_char(s[0]) ==> num_run_len(s) >= 1,
    decreases s.len(),
{
    if s.len() > 0 && is_number_char(s[0]) {
        lemma_num_run_len_bounds(s.skip(1));
    }
}

/// The run length is the position of the first non-number character.
pub proof fn lemma_num_run_len_exact(s: Seq<char>, k: nat)
    requires
        k <= s.len(),
        forall|m: int| 0 <= m < k ==> is_number_char(s[m]),
        k < s.len() ==> !is_number_char(s[k as int]),
    ensures
        num_run_len(s) == k,
    decreases k,
{
    if k == 0 {
    } else {
        assert(is_number_char(s[0]));
        assert(forall|m: int| 0 <= m < k - 1 ==> is_number_char(s.skip(1)[m]));
        lemma_num_run_len_exact(s.skip(1), (k - 1) as nat);
    }
}

/// The token sequence that scanning `s` produces: a greedy digit/`.` run
/// becomes a Number token where it parses as a finite double (and is
/// dropped where it does not), an operator character or a parenthesis
/// becomes its token, and whitespace or any other character is skipped.
pub open spec fn spec_tokenize(s: Seq<char>) -> Seq<Token>
    decreases s.len(),
        via spec_tokenize_decreases
{
    if s.len() == 0 {
        Seq::empty()
    } else if is_number_char(s[0]) {
        let k = num_run_len(s) as int;
        let rest = spec_tokenize(s.skip(k));
        match parsed_num(s.take(k)) {
            Some(v) => seq![Token::Number(v)] + rest,
            None => rest,
        }
    } else if is_operator_char(s[0]) {
        seq![Token::Operator(s[0])] + spec_tokenize(s.skip(1))
    } else if s[0] == '(' {
        seq![Token::LeftParen] + spec_tokenize(s.skip(1))
    } else if s[0] == ')' {
        seq![Token::RightParen] + spec_tokenize(s.skip(1))
    } else {
        spec_tokenize(s.skip(1))
    }
}

#[via_fn]
proof fn spec_tokenize_decreases(s: Seq<char>) {
    lemma_num_run_len_bounds(s);
}

/// Whether `c` may stand in a numeric literal run.
fn number_char(c: char) -> (b: bool)
    ensures
        b == is_number_char(c),
{
    (c >= '0' && c <= '9') || c == '.'
}

/// Scans `input` into tokens, left to right.
pub fn tokenize(input: &str) -> (tokens: Vec<Token>)
    ensures
        tokens@ == spec_tokenize(input@),
{
    let ghost s = input@;
    let n = input.unicode_len();
    let mut tokens: Vec<Token> = Vec::new();
    let mut i: usize = 0;
    proof {
        assert(s.skip(0) =~= s);
        assert(Seq::<Token>::empty() + spec_tokenize(s) =~= spec_tokenize(s));
    }
    while i < n
        invariant
            n == s.len(),
            s == input@,
            i <= n,
            spec_tokenize(s) == tokens@ + spec_tokenize(s.skip(i as int)),
        decreases n - i,
    {
        let c = input.get_char(i);
        if number_char(c) {
            // Greedily consume the whole digit / `.` run.
            let mut j: usize = i + 1;
            while j < n && number_char(input.get_char(j))
                invariant
                    n == s.len(),
                    s == input@,
                    i < j <= n,
                    forall|m: int| i <= m < j ==> is_number_char(s[m]),
                decreases n - j,
            {
                j += 1;
            }
            let mut run: Vec<char> = Vec::new();
            let mut m: usize = i;
            while m < j
                invariant
                    n == s.len(),
                    s == input@,
                    i <= m <= j <= n,
                    run@ == s.subrange(i as int, m as int),
                decreases j - m,
            {
                let rc = input.get_char(m);
                run.push(rc);
                proof {
                    assert(run@ =~= s.subrange(i as int, m + 1));
                }
                m += 1;
            }
            let ghost k: int = j - i;
            proof {
                lemma_num_run_len_exact(s.skip(i as int), k as nat);
                assert(s.skip(i as int).take(k) =~= s.subrange(i as int, j as int));
                assert(s.skip(i as int).skip(k) =~= s.skip(j as int));
            }
            match parse_number(&run) {
                Some(v) => {
                    let ghost before = tokens@;
                    tokens.push(Token::Number(v));
                    proof {
                        assert(tokens@ =~= before + seq![Token::Number(v)]);
                        assert(before + (seq![Token::Number(v)] + spec_tokenize(s.skip(j as int)))
                            =~= tokens@ + spec_tokenize(s.skip(j as int)));
                    }
                },
                None => {
                },
            }
            i = j;
        } else {
            proof {
                assert(s.skip(i as int).skip(1) =~= s.skip(i + 1));
            }
            if c == '+' || c == '-' || c == '*' || c == '/' || c == '^' {
                let ghost before = tokens@;
                tokens.push(Token::Operator(c));
                proof {
                    assert(tokens@ =~= before + seq![Token::Operator(c)]);
                    assert(before + (seq![Token::Operator(c)] + spec_tokenize(s.skip(i + 1)))
                        =~= tokens@ + spec_tokenize(s.skip(i + 1)));
                }
            } else if c == '(' {
                let ghost before = tokens@;
                tokens.push(Token::LeftParen);
                proof {
                    assert(tokens@ =~= before + seq![Token::LeftParen]);
                    assert(before + (seq![Token::LeftParen] + spec_tokenize(s.skip(i + 1)))
                        =~= tokens@ + spec_tokenize(s.skip(i + 1)));
                }
            } else if c == ')' {
                let ghost before = tokens@;
                tokens.push(Token::RightParen);
                proof {
                    assert(tokens@ =~= before + seq![Token::RightParen]);
                    assert(before + (seq![Token::RightParen] + spec_tokenize(s.skip(i + 1)))
                        =~= tokens@ + spec_tokenize(s.skip(i + 1)));
                }
            } else {
                // Whitespace and unrecognized characters alike produce no
                // token; the latter are a dropped diagnostic.
            }
            i += 1;
        }
    }
    proof {
        assert(s.skip(n as int) =~= Seq::<char>::empty());
        assert(tokens@ + Seq::<Token>::empty() =~= tokens@);
    }
    tokens
}

} // verus!
