//! Configuration of a comparison run, and its one validity rule:
//! only one of the two sources may be standard input.

use vstd::prelude::*;
use vstd::string::StringExecFns;

verus! {

/// Read-only settings for one comparison run: the two source names,
/// the visibility of the three output columns, the case-folding flag,
/// and the delimiter that joins output cells.
pub struct Config {
    pub file1: String,
    pub file2: String,
    pub show_col1: bool,
    pub show_col2: bool,
    pub show_col3: bool,
    pub insensitive: bool,
    pub delimiter: String,
}

/// The mathematical image of a `Config`.
pub ghost struct ConfigV {
    pub file1: Seq<char>,
    pub file2: Seq<char>,
    pub show_col1: bool,
    pub show_col2: bool,
    pub show_col3: bool,
    pub insensitive: bool,
    pub delimiter: Seq<char>,
}

impl View for Config {
    type V = ConfigV;

    open spec fn view(&self) -> ConfigV {
        ConfigV {
            file1: self.file1@,
            file2: self.file2@,
            show_col1: self.show_col1,
            show_col2: self.show_col2,
            show_col3: self.show_col3,
            insensitive: self.insensitive,
            delimiter: self.delimiter@,
        }
    }
}

/// Both sources resolve to standard input: the one rejected configuration.
pub open spec fn both_stdin(file1: Seq<char>, file2: Seq<char>) -> bool {
    file1 == "-"@ && file2 == "-"@
}

impl Config {
    /// Build a configuration, rejecting two standard-input sources
    /// before anything is opened or read.
    pub fn new(
        file1: String,
        file2: String,
        show_col1: bool,
        show_col2: bool,
        show_col3: bool,
        insensitive: bool,
        delimiter: String,
    ) -> (r: Result<Config, String>)
        ensures
            r is Ok <==> !both_stdin(file1@, file2@),
            r matches Ok(c) ==> c@.file1 == file1@ && c@.file2 == file2@ && c@.show_col1
                == show_col1 && c@.show_col2 == show_col2 && c@.show_col3 == show_col3
                && c@.insensitive == insensitive && c@.delimiter == delimiter@,
            r matches Err(e) ==> e@ == "Both input files cannot be STDIN (\"-\")"@,
    {
        let dash = String::from_str("-");
        if file1 == dash && file2 == dash {
            Err(String::from_str("Both input files cannot be STDIN (\"-\")"))
        } else {
            Ok(
                Config {
                    file1,
                    file2,
                    show_col1,
                    show_col2,
                    show_col3,
                    insensitive,
                    delimiter,
                },
            )
        }
    }
}

} // verus!
