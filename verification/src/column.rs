//! Classified lines and their rendering into output columns.

use vstd::prelude::*;
use vstd::string::StringExecFns;
use crate::config::{Config, ConfigV};

verus! {

/// A classified line, ready for column formatting: unique to source 1,
/// unique to source 2, or common to both.
pub enum Column {
    Col1(String),
    Col2(String),
    Col3(String),
}

/// The mathematical image of an emitted line: the three classified
/// columns, plus the two raw-emission shapes used once the opposite
/// source is exhausted (those bypass column formatting entirely).
pub ghost enum Class {
    Col1(Seq<char>),
    Col2(Seq<char>),
    Col3(Seq<char>),
    RawA(Seq<char>),
    RawB(Seq<char>),
}

impl View for Column {
    type V = Class;

    open spec fn view(&self) -> Class {
        match self {
            Column::Col1(t) => Class::Col1(t@),
            Column::Col2(t) => Class::Col2(t@),
            Column::Col3(t) => Class::Col3(t@),
        }
    }
}

/// What one classified line prints as, given the column visibility flags
/// and the delimiter: `None` is total suppression (no output line at
/// all), `Some` is the joined cell sequence.  A visible column is
/// preceded by one delimiter for each visible column to its left, the
/// placeholder an empty cell leaves behind.  A raw-emitted line prints
/// exactly as it stands, whatever the flags say.
pub open spec fn format_spec(c: Class, cfg: ConfigV) -> Option<Seq<char>> {
    match c {
        Class::Col1(t) => if cfg.show_col1 {
            Some(t)
        } else {
            None
        },
        Class::Col2(t) => if cfg.show_col2 {
            Some(
                if cfg.show_col1 {
                    cfg.delimiter + t
                } else {
                    t
                },
            )
        } else {
            None
        },
        Class::Col3(t) => if cfg.show_col3 {
            Some(
                (if cfg.show_col1 {
                    cfg.delimiter
                } else {
                    Seq::empty()
                }) + (if cfg.show_col2 {
                    cfg.delimiter
                } else {
                    Seq::empty()
                }) + t,
            )
        } else {
            None
        },
        Class::RawA(t) => Some(t),
        Class::RawB(t) => Some(t),
    }
}

/// Render one classified line per the configured column visibility:
/// `None` when the line's column is suppressed, otherwise the cells
/// joined by the configured delimiter.
pub fn format_column(col: &Column, config: &Config) -> (r: Option<String>)
    ensures
        r.deep_view() == format_spec(col@, config@),
{
    match col {
        Column::Col1(val) => {
            if config.show_col1 {
                Some(val.clone())
            } else {
                None
            }
        },
        Column::Col2(val) => {
            if config.show_col2 {
                let mut out = String::new();
                if config.show_col1 {
                    out.append(config.delimiter.as_str());
                }
                out.append(val.as_str());
                proof {
                    assert(out@ =~= format_spec(col@, config@)->0);
                }
                Some(out)
            } else {
                None
            }
        },
        Column::Col3(val) => {
            if config.show_col3 {
                let mut out = String::new();
                if config.show_col1 {
                    out.append(config.delimiter.as_str());
                }
                if config.show_col2 {
                    out.append(config.delimiter.as_str());
                }
                out.append(val.as_str());
                proof {
                    assert(out@ =~= format_spec(col@, config@)->0);
                }
                Some(out)
            } else {
                None
            }
        },
    }
}

} // verus!
