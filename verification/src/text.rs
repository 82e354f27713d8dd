//! Small trusted bridges between `String`/`&str` and their `Seq<char>` views.

use vstd::prelude::*;

verus! {

/// Relies on `str::chars`: yields exactly the characters of the string, in
/// order; collecting them gives a vector whose view is the string's view.
#[verifier::external_body]
pub(crate) fn chars_of(s: &str) -> (r: Vec<char>)
    ensures
        r@ == s@,
{
    s.chars().collect()
}

/// Relies on `String::push`: appends the given character to the string.
#[verifier::external_body]
pub(crate) fn push_char(s: &mut String, c: char)
    ensures
        final(s)@ == old(s)@.push(c),
{
    s.push(c)
}

} // verus!
