use calculator::ops::{get_precedence, is_left_associative};

#[test]
fn precedence_table() {
    assert_eq!(get_precedence('+'), 1);
    assert_eq!(get_precedence('-'), 1);
    assert_eq!(get_precedence('*'), 2);
    assert_eq!(get_precedence('/'), 2);
    assert_eq!(get_precedence('^'), 3);
    assert_eq!(get_precedence('x'), 0);
}

#[test]
fn associativity_table() {
    assert!(is_left_associative('+'));
    assert!(is_left_associative('-'));
    assert!(is_left_associative('*'));
    assert!(is_left_associative('/'));
    assert!(!is_left_associative('^'));
    assert!(is_left_associative('x'));
}
