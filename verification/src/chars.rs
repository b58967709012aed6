//! Bridges between `String` values and the `Vec<char>` buffers the library
//! computes over. Verified code builds and inspects character vectors; these
//! three declarations carry the values across the `String` boundary.

use vstd::prelude::*;

verus! {

/// Relies on `str::chars` collected into a `Vec`: the vector holds exactly
/// the characters of the string, in order.
#[verifier::external_body]
pub(crate) fn chars_of_str(s: &str) -> (r: Vec<char>)
    ensures
        r@ == s@,
{
    s.chars().collect()
}

/// Relies on `FromIterator for String`: collecting characters yields the
/// string of exactly those characters, in order.
#[verifier::external_body]
pub(crate) fn string_from_chars(v: Vec<char>) -> (r: String)
    ensures
        r@ == v@,
{
    v.into_iter().collect()
}

/// Relies on `char::from_u32`: it returns the character with the given code
/// point exactly when the value is a Unicode scalar (not a surrogate, not
/// above the maximum code point), and `None` otherwise.
#[verifier::external_body]
pub(crate) fn char_from_u32(v: u32) -> (r: Option<char>)
    ensures
        r is Some <==> vstd::utf8::is_scalar(v),
        r matches Some(c) ==> c as u32 == v,
{
    char::from_u32(v)
}

} // verus!
