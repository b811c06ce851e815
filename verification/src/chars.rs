//! Character-level helpers the scanning code relies on.

use vstd::prelude::*;

verus! {

/// What `char::is_alphabetic` returns for `c`: whether `c` has the Unicode
/// `Alphabetic` property, a function of the character alone.
pub uninterp spec fn is_alphabetic_char(c: char) -> bool;

/// Relies on `char::is_alphabetic`: the result depends on the character
/// alone, and among ASCII characters exactly the letters `A`-`Z` and
/// `a`-`z` have the `Alphabetic` property.
#[verifier::external_body]
pub(crate) fn char_is_alphabetic(c: char) -> (r: bool)
    ensures
        r == is_alphabetic_char(c),
        (c as u32) < 128 ==> (r <==> ((97 <= c as u32 && c as u32 <= 122) || (65 <= c as u32
            && c as u32 <= 90))),
{
    c.is_alphabetic()
}

/// Relies on `String::push`: appends the character to the end of the string.
#[verifier::external_body]
pub(crate) fn push_char(s: &mut String, c: char)
    ensures
        final(s)@ == old(s)@.push(c),
{
    s.push(c);
}

} // verus!
