//! The directory filter's decision core: whether one directory entry
//! passes the configured type and name filters.

use vstd::prelude::*;
use crate::pattern::{Pattern, regex_match};

verus! {

/// The kind of directory entry a type filter selects.
#[derive(Clone, Copy, PartialEq, Eq, Structural)]
pub enum EntryType {
    Dir,
    File,
    Link,
}

/// The facts about one directory entry that the filters read: the three
/// kind tests, and the entry's file name.
pub struct EntryInfo {
    pub is_dir: bool,
    pub is_file: bool,
    pub is_link: bool,
    pub name: String,
}

/// Whether one type filter selects the entry.
pub open spec fn type_matches(t: EntryType, e: EntryInfo) -> bool {
    match t {
        EntryType::Dir => e.is_dir,
        EntryType::File => e.is_file,
        EntryType::Link => e.is_link,
    }
}

/// Whether the entry passes both filter lists: an empty list rejects
/// nothing, a non-empty one asks for at least one of its filters to
/// select the entry.
pub open spec fn entry_selected(
    e: EntryInfo,
    entry_types: Seq<EntryType>,
    names: Seq<Pattern>,
) -> bool {
    (entry_types.len() == 0 || exists|k: int|
        0 <= k < entry_types.len() && type_matches(entry_types[k], e)) && (names.len() == 0
        || exists|k: int| 0 <= k < names.len() && regex_match(names[k]@.src, names[k]@.ci, e.name@))
}

/// Decide whether one directory entry passes the configured type and
/// name filters.
pub fn matches_filters(e: &EntryInfo, entry_types: &Vec<EntryType>, names: &Vec<Pattern>) -> (r:
    bool)
    ensures
        r == entry_selected(*e, entry_types@, names@),
{
    let mut type_ok = entry_types.len() == 0;
    let mut k: usize = 0;
    while k < entry_types.len()
        invariant
            k <= entry_types@.len(),
            type_ok == (entry_types@.len() == 0 || exists|j: int|
                0 <= j < k && type_matches(entry_types@[j], *e)),
        decreases entry_types.len() - k,
    {
        let hit = match entry_types[k] {
            EntryType::Dir => e.is_dir,
            EntryType::File => e.is_file,
            EntryType::Link => e.is_link,
        };
        if hit {
            type_ok = true;
            proof {
                assert(type_matches(entry_types@[k as int], *e));
            }
        }
        k += 1;
    }
    let mut name_ok = names.len() == 0;
    let mut k: usize = 0;
    while k < names.len()
        invariant
            k <= names@.len(),
            name_ok == (names@.len() == 0 || exists|j: int|
                0 <= j < k && regex_match(names@[j]@.src, names@[j]@.ci, e.name@)),
        decreases names.len() - k,
    {
        if names[k].is_match(e.name.as_str()) {
            name_ok = true;
            proof {
                assert(regex_match(names@[k as int]@.src, names@[k as int]@.ci, e.name@));
            }
        }
        k += 1;
    }
    type_ok && name_ok
}

} // verus!
