use vstd::prelude::*;

verus! {

/// Relies on str::chars and Iterator::collect: yields the characters of the
/// string in order, so the collected vector's view equals the string's view.
#[verifier::external_body]
pub(crate) fn chars_of(s: &str) -> (r: Vec<char>)
    ensures
        r@ == s@,
{
    s.chars().collect()
}

/// Relies on String::from_iter: builds the string whose characters are exactly
/// the vector's characters in order.
#[verifier::external_body]
pub(crate) fn string_from_chars(v: &Vec<char>) -> (r: String)
    ensures
        r@ == v@,
{
    v.iter().collect()
}

} // verus!
