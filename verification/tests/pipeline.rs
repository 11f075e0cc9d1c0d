use calculator::eval::{evaluate_postfix, EvalError};
use calculator::lexer::tokenize;
use calculator::postfix::infix_to_postfix;
use calculator::render::render_tokens;
use calculator::token::Token;
use calculator::value::Value;
use noisy_float::types::r64;

#[test]
fn test_tokenize() {
    assert_eq!(
        format!("{:?}", tokenize("2 + 2")),
        format!(
            "{:?}",
            vec![
                Token::Number(Value { raw: r64(2.0) }),
                Token::Operator('+'),
                Token::Number(Value { raw: r64(2.0) })
            ]
        )
    );
}

#[test]
fn test_empty() {
    assert_eq!(format!("{:?}", tokenize("")), format!("{:?}", Vec::<Token>::new()));
}

#[test]
fn infix_to_postfix_test() {
    let tokens = tokenize("2 + 2");
    assert_eq!(
        format!("{:?}", infix_to_postfix(tokens)),
        format!(
            "{:?}",
            vec![
                Token::Number(Value { raw: r64(2.0) }),
                Token::Number(Value { raw: r64(2.0) }),
                Token::Operator('+')
            ]
        )
    )
}

#[test]
fn infix_to_postfix_test_with_precedence() {
    let tokens = tokenize("2 + 2 * 3");
    assert_eq!(
        format!("{:?}", infix_to_postfix(tokens)),
        format!(
            "{:?}",
            vec![
                Token::Number(Value { raw: r64(2.0) }),
                Token::Number(Value { raw: r64(2.0) }),
                Token::Number(Value { raw: r64(3.0) }),
                Token::Operator('*'),
                Token::Operator('+')
            ]
        )
    )
}

#[test]
fn infix_to_postfix_test_with_parenthesis() {
    let tokens = tokenize("(2 + 2) * 3");
    assert_eq!(
        format!("{:?}", infix_to_postfix(tokens)),
        format!(
            "{:?}",
            vec![
                Token::Number(Value { raw: r64(2.0) }),
                Token::Number(Value { raw: r64(2.0) }),
                Token::Operator('+'),
                Token::Number(Value { raw: r64(3.0) }),
                Token::Operator('*')
            ]
        )
    )
}

#[test]
fn evaluate_precedence() {
    let res = evaluate_postfix(infix_to_postfix(tokenize("2 + 2 * 3")));
    assert!(matches!(res, Ok(v) if v.raw == r64(8.0)));
}

#[test]
fn evaluate_parenthesis() {
    let res = evaluate_postfix(infix_to_postfix(tokenize("(2 + 2) * 3")));
    assert!(matches!(res, Ok(v) if v.raw == r64(12.0)));
}

#[test]
fn evaluate_division_by_zero() {
    let res = evaluate_postfix(infix_to_postfix(tokenize("5 / 0")));
    assert_eq!(res.unwrap_err(), EvalError::DivisionByZero);
}

#[test]
fn evaluate_two_operands_no_operator() {
    let res = evaluate_postfix(infix_to_postfix(tokenize("2 2")));
    assert_eq!(res.unwrap_err(), EvalError::InvalidExpression);
}

#[test]
fn evaluate_empty_input() {
    let res = evaluate_postfix(infix_to_postfix(tokenize("")));
    assert_eq!(res.unwrap_err(), EvalError::InvalidExpression);
}

#[test]
fn evaluate_power_right_associative() {
    let res = evaluate_postfix(infix_to_postfix(tokenize("2 ^ 3 ^ 2")));
    assert!(matches!(res, Ok(v) if v.raw == r64(512.0)));
}

#[test]
fn evaluate_subtraction_left_associative() {
    let res = evaluate_postfix(infix_to_postfix(tokenize("10 - 2 - 3")));
    assert!(matches!(res, Ok(v) if v.raw == r64(5.0)));
}

#[test]
fn evaluate_fractional_division() {
    let res = evaluate_postfix(infix_to_postfix(tokenize("7 / 2")));
    assert!(matches!(res, Ok(v) if v.raw == r64(3.5)));
}

#[test]
fn evaluate_fractional_power() {
    let res = evaluate_postfix(infix_to_postfix(tokenize("2 ^ 0.5")));
    match res {
        Ok(v) => assert!((v.raw.raw() - 2.0_f64.sqrt()).abs() < 1e-12),
        Err(e) => panic!("{:?}", e),
    }
}

#[test]
fn evaluate_without_spaces() {
    let res = evaluate_postfix(infix_to_postfix(tokenize("2+2*3")));
    assert!(matches!(res, Ok(v) if v.raw == r64(8.0)));
}

#[test]
fn evaluate_insufficient_operands() {
    let postfix = vec![Token::Number(Value { raw: r64(2.0) }), Token::Operator('+')];
    let res = evaluate_postfix(postfix);
    assert_eq!(res.unwrap_err(), EvalError::InsufficientOperands('+'));
}

#[test]
fn evaluate_unknown_operator() {
    let postfix = vec![
        Token::Number(Value { raw: r64(2.0) }),
        Token::Number(Value { raw: r64(3.0) }),
        Token::Operator('%'),
    ];
    let res = evaluate_postfix(postfix);
    assert_eq!(res.unwrap_err(), EvalError::UnknownOperator('%'));
}

#[test]
fn evaluate_unexpected_parenthesis() {
    let res = evaluate_postfix(vec![Token::LeftParen]);
    assert_eq!(res.unwrap_err(), EvalError::UnexpectedToken);
}

#[test]
fn evaluate_overflowing_sum() {
    let big = Value { raw: r64(1.0e308) };
    let postfix = vec![Token::Number(big), Token::Number(big), Token::Operator('+')];
    let res = evaluate_postfix(postfix);
    assert_eq!(res.unwrap_err(), EvalError::NonFiniteResult);
}

#[test]
fn tokenize_drops_malformed_number() {
    // A run with two dots does not parse; it is consumed without a token.
    assert_eq!(
        format!("{:?}", tokenize("1.2.3 + 4")),
        format!("{:?}", vec![Token::Operator('+'), Token::Number(Value { raw: r64(4.0) })])
    );
}

#[test]
fn tokenize_skips_unknown_characters() {
    assert_eq!(
        format!("{:?}", tokenize("2 @ 3")),
        format!(
            "{:?}",
            vec![
                Token::Number(Value { raw: r64(2.0) }),
                Token::Number(Value { raw: r64(3.0) })
            ]
        )
    );
}

#[test]
fn tokenize_leading_dot() {
    assert_eq!(
        format!("{:?}", tokenize(".5")),
        format!("{:?}", vec![Token::Number(Value { raw: r64(0.5) })])
    );
}

#[test]
fn mismatched_parentheses_are_dropped() {
    let tokens = tokenize(")2 + 3(");
    assert_eq!(
        format!("{:?}", infix_to_postfix(tokens)),
        format!(
            "{:?}",
            vec![
                Token::Number(Value { raw: r64(2.0) }),
                Token::Number(Value { raw: r64(3.0) }),
                Token::Operator('+')
            ]
        )
    );
}

#[test]
fn render_round_trip() {
    let tokens = tokenize("2 + 2 * (3.5 / 7) ^ 2");
    let text: String = render_tokens(&tokens).into_iter().collect();
    assert_eq!(text, "2 + 2 * ( 3.5 / 7 ) ^ 2");
    assert_eq!(format!("{:?}", tokenize(&text)), format!("{:?}", tokens));
}

#[test]
fn render_round_trip_unspaced() {
    let tokens = tokenize("(10.25-3)/2");
    let text: String = render_tokens(&tokens).into_iter().collect();
    assert_eq!(format!("{:?}", tokenize(&text)), format!("{:?}", tokens));
}
