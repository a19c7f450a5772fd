//! The front end of a small scripting-language interpreter: a scanner that
//! turns source text into tokens, and an expression tree that can be printed
//! and evaluated.
//!
//! - `tokens`: the tokens, and the scanner's entry points on strings.
//! - `grammar`: the lexical grammar as a specification, and what follows
//!   from it.
//! - `scanner`: the scanner itself, on vectors of characters.
//! - `ast`: expressions, how they are written and what they evaluate to.
//! - `binary64`: numbers as bits, their order and their negation.
//! - `reading`: the proof that what is printed scans back to its tokens.
//! - `parser_utils`, `text`, `lox`: white space around a rule, strings and
//!   characters, and the interpreter's note of its errors.
//!
//! Everything here is verified, but for `text::push_char`, which appends a
//! character to a string and is taken on trust. Floating point is not part of
//! the library: a number is held as its bits, a numeral as its text, and
//! whoever evaluates or prints an expression hands in the arithmetic and the
//! text of a number.
pub mod ast;
pub mod binary64;
pub mod grammar;
pub mod lox;
pub mod parser_utils;
pub mod reading;
pub mod scanner;
pub mod text;
pub mod tokens;
