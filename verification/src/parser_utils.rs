//! White space around a token.
use crate::grammar::{run_end, Class};
use crate::scanner;
use crate::text::characters;
use vstd::prelude::*;

verus! {

/// `s` without the white space at its start.
pub open spec fn trimmed(s: Seq<char>) -> Seq<char> {
    s.subrange(run_end(s, 0, Class::Space), s.len() as int)
}

/// `input` without the white space at its start.
pub fn trim(input: &str) -> (rest: &str)
    ensures
        rest@ == trimmed(input@),
{
    let chars = characters(input);
    let start = scanner::run_end(&chars, 0, Class::Space);
    input.substring_char(start, chars.len())
}

/// Applies the rule `inner` to `input` with the white space before and after
/// what the rule takes passed over: `inner` is called on `input` without the
/// white space at its start; where it finds something, that is returned with
/// what `inner` left, again without the white space at its start; where it
/// finds nothing, nothing is returned.
pub fn ws<'a, T, F: Fn(&'a str) -> Option<(&'a str, T)>>(inner: &F, input: &'a str) -> (taken:
    Option<(&'a str, T)>)
    requires
        forall|text: &'a str| call_requires(*inner, (text,)),
    ensures
        exists|start: &'a str, found: Option<(&'a str, T)>|
            start@ == trimmed(input@) && #[trigger] call_ensures(*inner, (start,), found)
                && match found {
                Some((left, token)) => taken matches Some((rest, t)) && t == token && rest@
                    == trimmed(left@),
                None => taken is None,
            },
{
    let start = trim(input);
    match inner(start) {
        Some((left, token)) => Some((trim(left), token)),
        None => None,
    }
}

} // verus!
