//! What the interpreter knows of the errors it has met.
use crate::text::{decimal, push_decimal};
use vstd::prelude::*;

verus! {

/// The state of an interpreter: whether an error has been reported.
#[derive(Debug)]
pub struct Lox {
    pub had_error: bool,
}

/// The line that reports an error at `column` of line `line`.
pub open spec fn report_text(line: nat, column: Seq<char>, message: Seq<char>) -> Seq<char> {
    "[line "@ + decimal(line) + "] Error at "@ + column + ": "@ + message
}

impl Lox {
    /// An interpreter that has met no error.
    pub fn new() -> (lox: Self)
        ensures
            !lox.had_error,
    {
        Lox { had_error: false }
    }

    /// Takes note of an error on line `line`, and returns the line that
    /// reports it.
    pub fn error(&mut self, line: u32, message: &str) -> (text: String)
        ensures
            final(self).had_error,
            text@ == report_text(line as nat, Seq::empty(), message@),
    {
        let text = self.report(line, "", message);
        proof {
            reveal_strlit("");
            assert(""@ =~= Seq::<char>::empty());
        }
        text
    }

    /// Takes note of an error at `column` of line `line`, and returns the
    /// line that reports it.
    pub fn report(&mut self, line: u32, column: &str, message: &str) -> (text: String)
        ensures
            final(self).had_error,
            text@ == report_text(line as nat, column@, message@),
    {
        let mut text = String::from_str("[line ");
        push_decimal(&mut text, line);
        text.append("] Error at ");
        text.append(column);
        text.append(": ");
        text.append(message);
        self.had_error = true;
        text
    }
}

} // verus!
