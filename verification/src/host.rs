//! Trusted boundary: the few host and outside-crate calls the library leans
//! on. Each item's contract states only what the callee's documentation or
//! source plainly shows; everything else in the crate is verified against
//! these contracts.

use itertools::Itertools as _;
use vstd::prelude::*;

verus! {

/// Whether the host classifies a code point as whitespace.
pub uninterp spec fn whitespace(c: char) -> bool;

/// Relies on char::is_whitespace: the result depends on the code point alone.
#[verifier::external_body]
pub fn is_whitespace_char(c: char) -> (r: bool)
    ensures
        r == whitespace(c),
{
    c.is_whitespace()
}

/// Whether the host classifies a code point as alphanumeric.
pub uninterp spec fn alphanumeric(c: char) -> bool;

/// Relies on char::is_alphanumeric: the result depends on the code point
/// alone.
#[verifier::external_body]
pub fn is_alphanumeric_char(c: char) -> (r: bool)
    ensures
        r == alphanumeric(c),
{
    c.is_alphanumeric()
}

/// Relies on String::push: appends the given char to the end of the string.
pub assume_specification[ std::string::String::push ](s: &mut String, c: char)
    ensures
        final(s)@ == old(s)@.push(c),
;

/// The concatenation of `parts` with `sep` between consecutive elements.
pub open spec fn join_seqs(parts: Seq<Seq<char>>, sep: Seq<char>) -> Seq<char>
    decreases parts.len(),
{
    if parts.len() == 0 {
        Seq::empty()
    } else if parts.len() == 1 {
        parts[0]
    } else {
        parts[0] + sep + join_seqs(parts.drop_first(), sep)
    }
}

/// Relies on itertools' Itertools::join: combines all iterator elements into
/// one String, separated by `sep`, using each element's Display form (for a
/// String, its own content).
#[verifier::external_body]
pub fn join_all(parts: &Vec<String>, sep: &str) -> (r: String)
    ensures
        r@ == join_seqs(parts@.map_values(|p: String| p@), sep@),
{
    parts.iter().join(sep)
}

} // verus!
