//! Compiled search patterns, kept together with the text they were
//! compiled from so that contracts can speak about what they match.

use vstd::prelude::*;

verus! {

#[verifier::external_type_specification]
#[verifier::external_body]
pub struct ExRegex(regex::Regex);

/// Whether the pattern written as `pat`, compiled with the given
/// case-insensitivity flag, matches anywhere inside `text`.
pub uninterp spec fn regex_match(pat: Seq<char>, ci: bool, text: Seq<char>) -> bool;

/// Whether `pat` is syntax that compiles, under regex's default limits.
pub uninterp spec fn regex_valid(pat: Seq<char>, ci: bool) -> bool;

/// The mathematical image of a `Pattern`: the pattern text it was
/// compiled from and its case-insensitivity flag.
pub ghost struct PatternV {
    pub src: Seq<char>,
    pub ci: bool,
}

/// A compiled search pattern.  The compiled form is kept beside the
/// source text and flag it was built from; every match it reports is a
/// function of those two alone.
pub struct Pattern {
    re: regex::Regex,
    src: String,
    ci: bool,
}

impl View for Pattern {
    type V = PatternV;

    closed spec fn view(&self) -> PatternV {
        PatternV { src: self.src@, ci: self.ci }
    }
}

impl Pattern {
    /// Relies on regex's `RegexBuilder`: compiling succeeds exactly for
    /// valid pattern syntax, and depends on the pattern text and the
    /// case-insensitivity flag alone.
    #[verifier::external_body]
    pub fn new(pattern: &str, case_insensitive: bool) -> (r: Option<Pattern>)
        ensures
            r is Some <==> regex_valid(pattern@, case_insensitive),
            r matches Some(p) ==> p@.src == pattern@ && p@.ci == case_insensitive,
    {
        match regex::RegexBuilder::new(pattern).case_insensitive(case_insensitive).build() {
            Ok(re) => Some(Pattern { re, src: pattern.to_string(), ci: case_insensitive }),
            Err(_) => None,
        }
    }

    /// Relies on regex's `Regex::is_match`: whether the pattern matches
    /// anywhere in the text, a function of pattern and text alone.
    #[verifier::external_body]
    pub fn is_match(&self, text: &str) -> (r: bool)
        ensures
            r == regex_match(self@.src, self@.ci, text@),
    {
        self.re.is_match(text)
    }
}

} // verus!
