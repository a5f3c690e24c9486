//! Roman numerals, as the `roman` crate writes them.

use vstd::prelude::*;

verus! {

/// Largest number that has a Roman numeral.
pub const MAX_ROMAN: i32 = 3999;

/// What `roman::to` returns for `n`: the numeral's text, or `None` where `n`
/// has no numeral.
pub uninterp spec fn roman_numeral(n: int) -> Option<Seq<char>>;

/// An optional string as an optional text.
pub open spec fn text_of(s: Option<String>) -> Option<Seq<char>> {
    match s {
        Some(t) => Some(t@),
        None => None,
    }
}

/// Calls `roman::to`. Not proved: the result is the numeral that the crate
/// assigns to `n`, and there is one exactly for `n` from 1 to 3999.
#[verifier::external_body]
pub(crate) fn to_roman(n: i32) -> (r: Option<String>)
    ensures
        text_of(r) == roman_numeral(n as int),
        r is Some <==> 1 <= n <= MAX_ROMAN,
{
    roman::to(n)
}

} // verus!
