//! What a caller has read from disk, as plain values.

use vstd::prelude::*;

verus! {

/// What kind of thing a directory entry is.
#[derive(Clone, Copy, Debug, PartialEq, Eq, Structural)]
pub enum EntryKind {
    Directory,
    File,
    /// Neither a directory nor a regular file.
    Other,
}

/// One entry of a directory.
#[derive(Debug, PartialEq, Eq)]
pub struct Entry {
    /// The entry's name within its directory.
    pub name: String,
    /// The entry's full path, as it is to be reported.
    pub path: String,
    pub kind: EntryKind,
}

/// An entry of the contestant's directory together with what it holds.
#[derive(Debug, PartialEq, Eq)]
pub struct Subtree {
    pub entry: Entry,
    /// The entry's own listing, or `None` where it could not be read. For
    /// an entry that is no directory it is never looked at.
    pub children: Option<Vec<Entry>>,
}

/// The views of a sequence of strings.
pub open spec fn texts(strings: Seq<String>) -> Seq<Seq<char>> {
    strings.map_values(|s: String| s@)
}

/// A copy of `paths`.
pub fn copy_paths(paths: &Vec<String>) -> (copy: Vec<String>)
    ensures
        copy@ == paths@,
{
    let mut copy: Vec<String> = Vec::new();
    let mut i: usize = 0;
    while i < paths.len()
        invariant
            i <= paths.len(),
            copy@ == paths@.take(i as int),
        decreases paths.len() - i,
    {
        copy.push(paths[i].clone());
        assert(paths@.take(i + 1) =~= paths@.take(i as int).push(paths@[i as int]));
        i = i + 1;
    }
    assert(paths@.take(paths@.len() as int) =~= paths@);
    copy
}

} // verus!
