//! Verified core of a small suite of line-oriented text utilities.
//!
//! The centrepiece is a `comm`-style set comparison: two sorted line
//! sequences are merged, every line is classified as unique to the first
//! source, unique to the second, or common to both, and the classification
//! is rendered into delimiter-separated output columns.  The suite also
//! holds the pure cores of three sibling filters: a fortune picker, a
//! pattern-based line filter, and a directory-entry filter.
//!
//! File and terminal handling live outside this crate; the functions here
//! take plain values (lines already read, flags already parsed) and state
//! exactly what they produce.

pub mod compare;
pub mod config;
pub mod column;
pub mod lines;
pub mod merge;
pub mod laws;
pub mod fortune;
pub mod pattern;
pub mod grep;
pub mod find;
