//! Line normalization: case folding at the point of production.
//!
//! When case-insensitive comparison is configured, every line is folded
//! to lower case once, as it is produced; the folded form is what gets
//! both compared and displayed.

use vstd::prelude::*;

verus! {

/// The lower-case form that `str::to_lowercase` produces for a given
/// character sequence.
pub uninterp spec fn lower_of(s: Seq<char>) -> Seq<char>;

/// Relies on `str::to_lowercase`: the result depends on the characters
/// alone, and an empty string stays empty.
#[verifier::external_body]
fn to_lower(s: &str) -> (r: String)
    ensures
        r@ == lower_of(s@),
        s@.len() == 0 ==> r@.len() == 0,
{
    s.to_lowercase()
}

/// What a produced line holds: the folded form when folding is on,
/// the line itself otherwise.
pub open spec fn norm_line(l: Seq<char>, insensitive: bool) -> Seq<char> {
    if insensitive {
        lower_of(l)
    } else {
        l
    }
}

/// Normalize one line as the line source hands it out.
pub fn normalize_line(line: &String, insensitive: bool) -> (r: String)
    ensures
        r@ == norm_line(line@, insensitive),
{
    if insensitive {
        to_lower(line.as_str())
    } else {
        line.clone()
    }
}

} // verus!
