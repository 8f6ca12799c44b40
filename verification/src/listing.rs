//! Directory listings as plain values, and case-insensitive lookups in them.
use vstd::prelude::*;

use crate::error::LookupError;
use crate::text::{ascii_lower, to_ascii_lowercase};

verus! {

/// What kind of file system object an entry is (following links).
#[derive(Clone, Copy, Debug, PartialEq, Eq, Structural)]
pub enum EntryKind {
    File,
    Dir,
    Other,
}

/// One entry of a directory listing: its full path, its last component and its kind.
#[derive(Clone, Debug)]
pub struct DirEntryInfo {
    pub path: String,
    pub name: String,
    pub kind: EntryKind,
}

/// The entry has the kind that is looked for: a file, or else a directory.
pub open spec fn kind_wanted(kind: EntryKind, file: bool) -> bool {
    if file {
        kind == EntryKind::File
    } else {
        kind == EntryKind::Dir
    }
}

/// The entry is of the wanted kind and its name equals `subpath` up to ASCII case.
pub open spec fn sub_matches(e: DirEntryInfo, subpath: Seq<char>, file: bool) -> bool {
    kind_wanted(e.kind, file) && ascii_lower(e.name@) == ascii_lower(subpath)
}

/// `i` is the first entry that matches `subpath`.
pub open spec fn is_first_sub_match(
    entries: Seq<DirEntryInfo>,
    subpath: Seq<char>,
    file: bool,
    i: int,
) -> bool {
    0 <= i < entries.len() && sub_matches(entries[i], subpath, file) && forall|j: int|
        0 <= j < i ==> !sub_matches(entries[j], subpath, file)
}

/// Some entry matches `subpath`.
pub open spec fn has_sub_match(entries: Seq<DirEntryInfo>, subpath: Seq<char>, file: bool) -> bool {
    exists|i: int| 0 <= i < entries.len() && sub_matches(entries[i], subpath, file)
}

/// The result of a lookup: the first match, or the not-found error naming the
/// lower-cased subpath.
pub open spec fn sub_lookup_result(
    entries: Seq<DirEntryInfo>,
    subpath: Seq<char>,
    file: bool,
    r: Result<usize, LookupError>,
) -> bool {
    match r {
        Ok(i) => is_first_sub_match(entries, subpath, file, i as int),
        Err(e) => !has_sub_match(entries, subpath, file) && (e matches LookupError::SubpathNotFound {
            subpath: s,
        } && s@ == ascii_lower(subpath)),
    }
}

/// Finds, in a directory listing in the order the directory gave it, the first
/// entry of the wanted kind (`file`: a file, else a directory) whose name equals
/// `subpath` up to ASCII case, and returns its index.
pub fn find_sub_case_insensitive(entries: &Vec<DirEntryInfo>, subpath: &str, file: bool) -> (r:
    Result<usize, LookupError>)
    ensures
        sub_lookup_result(entries@, subpath@, file, r),
{
    let wanted = to_ascii_lowercase(subpath);
    let mut i: usize = 0;
    while i < entries.len()
        invariant
            wanted@ == ascii_lower(subpath@),
            i <= entries.len(),
            forall|j: int| 0 <= j < i ==> !sub_matches(entries@[j], subpath@, file),
        decreases entries.len() - i,
    {
        let e = &entries[i];
        let kind_ok = if file {
            e.kind == EntryKind::File
        } else {
            e.kind == EntryKind::Dir
        };
        if kind_ok {
            let name = to_ascii_lowercase(e.name.as_str());
            if name == wanted {
                return Ok(i);
            }
        }
        i = i + 1;
    }
    Err(LookupError::SubpathNotFound { subpath: wanted })
}

/// Finds the first file in the listing named `subpath` up to ASCII case.
pub fn find_subfile_case_insensitive(entries: &Vec<DirEntryInfo>, subpath: &str) -> (r: Result<
    usize,
    LookupError,
>)
    ensures
        sub_lookup_result(entries@, subpath@, true, r),
{
    find_sub_case_insensitive(entries, subpath, true)
}

/// Finds the first directory in the listing named `subpath` up to ASCII case.
pub fn find_subdir_case_insensitive(entries: &Vec<DirEntryInfo>, subpath: &str) -> (r: Result<
    usize,
    LookupError,
>)
    ensures
        sub_lookup_result(entries@, subpath@, false, r),
{
    find_sub_case_insensitive(entries, subpath, false)
}

/// A lookup does not depend on the case of the name looked for: two names equal
/// up to ASCII case have the same first match, and the same absence of one.
pub proof fn lemma_lookup_ignores_case(
    entries: Seq<DirEntryInfo>,
    a: Seq<char>,
    b: Seq<char>,
    file: bool,
    i: int,
)
    requires
        ascii_lower(a) == ascii_lower(b),
    ensures
        is_first_sub_match(entries, a, file, i) == is_first_sub_match(entries, b, file, i),
        has_sub_match(entries, a, file) == has_sub_match(entries, b, file),
{
}

/// Only an entry of the wanted kind is ever found: a lookup for a file never
/// yields a directory, and one for a directory never yields a file.
pub proof fn lemma_lookup_finds_wanted_kind(
    entries: Seq<DirEntryInfo>,
    subpath: Seq<char>,
    file: bool,
    i: int,
)
    requires
        is_first_sub_match(entries, subpath, file, i),
    ensures
        file ==> entries[i].kind == EntryKind::File,
        !file ==> entries[i].kind == EntryKind::Dir,
{
}

/// There is at most one first match.
pub proof fn lemma_first_match_unique(
    entries: Seq<DirEntryInfo>,
    subpath: Seq<char>,
    file: bool,
    i: int,
    j: int,
)
    requires
        is_first_sub_match(entries, subpath, file, i),
        is_first_sub_match(entries, subpath, file, j),
    ensures
        i == j,
{
}

} // verus!
