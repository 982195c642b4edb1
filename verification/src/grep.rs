//! The line filter at the heart of the pattern scanner: keep the lines
//! a pattern selects.

use vstd::prelude::*;
use crate::pattern::{Pattern, PatternV, regex_match};

verus! {

/// Whether a line is kept: it matches the pattern, or, with
/// `invert` set, it does not.
pub open spec fn line_selected(l: Seq<char>, pat: PatternV, invert: bool) -> bool {
    regex_match(pat.src, pat.ci, l) != invert
}

/// Keep, in order, exactly the lines the pattern selects: the matching
/// ones, or with `invert_match` the non-matching ones.
pub fn find_lines(lines: &Vec<String>, pattern: &Pattern, invert_match: bool) -> (r: Vec<
    String,
>)
    ensures
        r.deep_view() == lines.deep_view().filter(
            |l: Seq<char>| line_selected(l, pattern@, invert_match),
        ),
{
    let ghost pred = |l: Seq<char>| line_selected(l, pattern@, invert_match);
    let mut r: Vec<String> = Vec::new();
    let mut i: usize = 0;
    proof {
        reveal(Seq::filter);
        assert(r.deep_view() =~= lines.deep_view().take(0).filter(pred));
    }
    while i < lines.len()
        invariant
            i <= lines.len(),
            r.deep_view() == lines.deep_view().take(i as int).filter(pred),
            pred == (|l: Seq<char>| line_selected(l, pattern@, invert_match)),
        decreases lines.len() - i,
    {
        let ghost pre = r.deep_view();
        let ghost dv = lines.deep_view();
        let keep = pattern.is_match(lines[i].as_str()) != invert_match;
        if keep {
            r.push(lines[i].clone());
        }
        proof {
            reveal(Seq::filter);
            assert(dv.take(i + 1 as int).drop_last() =~= dv.take(i as int));
            assert(dv.take(i + 1 as int).last() == dv[i as int]);
            if keep {
                assert(r.deep_view() =~= pre.push(dv[i as int]));
            }
            assert(r.deep_view() =~= dv.take(i + 1 as int).filter(pred));
        }
        i += 1;
    }
    proof {
        assert(lines.deep_view().take(i as int) =~= lines.deep_view());
    }
    r
}

} // verus!
