//! An infix calculator core: a tokenizer, an infix-to-postfix converter
//! (shunting yard), and a postfix evaluator over double-precision values.

pub mod ops;
pub mod token;
pub mod value;
pub mod lexer;
pub mod postfix;
pub mod eval;
pub mod render;
