//! Conversions between `String`/`&str` and their character sequences.

use vstd::prelude::*;

verus! {

/// Relies on str::chars: iterating a string slice yields exactly its
/// characters, in order.
#[verifier::external_body]
pub fn str_to_chars(s: &str) -> (r: Vec<char>)
    ensures
        r@ == s@,
{
    s.chars().collect()
}

/// Relies on String implementing FromIterator over characters: collecting
/// characters concatenates exactly those characters, in order.
#[verifier::external_body]
pub fn chars_to_string(v: &Vec<char>) -> (r: String)
    ensures
        r@ == v@,
{
    v.iter().collect()
}

} // verus!
