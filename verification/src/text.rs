//! The few operations on `String` and `str` that the library needs from std.
use vstd::prelude::*;

verus! {

/// Calls `String::push`; the contract states what std documents: the string
/// afterwards is the string before, followed by the character.
#[verifier::external_body]
pub(crate) fn push_char(s: &mut String, c: char)
    ensures
        final(s)@ == old(s)@.push(c),
{
    s.push(c);
}

/// Calls `<str as PartialEq>::eq`; the contract states what std documents:
/// true exactly when the two slices hold the same characters.
#[verifier::external_body]
pub(crate) fn str_eq(a: &str, b: &str) -> (r: bool)
    ensures
        r == (a@ == b@),
{
    a == b
}

} // verus!
