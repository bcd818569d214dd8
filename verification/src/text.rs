//! Text helpers at the protocol edge: trimming a received line and lowering
//! its case for the exit-word comparison. Both lean on std's Unicode
//! handling, whose exact output is named rather than restated.

use vstd::prelude::*;

verus! {

/// What `str::trim` returns for a given character sequence: the sequence
/// with leading and trailing whitespace removed.
pub uninterp spec fn trim_of(s: Seq<char>) -> Seq<char>;

/// What `str::to_lowercase` returns for a given character sequence.
pub uninterp spec fn lower_of(s: Seq<char>) -> Seq<char>;

/// Relies on `str::trim`: returns the slice with leading and trailing
/// whitespace removed, a function of the input characters alone.
#[verifier::external_body]
pub fn trim_line(s: &str) -> (r: String)
    ensures
        r@ == trim_of(s@),
{
    s.trim().to_owned()
}

/// Relies on `str::to_lowercase`: the result depends on the input
/// characters alone.
#[verifier::external_body]
pub fn lowercase(s: &str) -> (r: String)
    ensures
        r@ == lower_of(s@),
{
    s.to_lowercase()
}

} // verus!
