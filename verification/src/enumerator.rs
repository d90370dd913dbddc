//! Lists the files that lie two levels below the contestant's directory.

use crate::listing::{Entry, EntryKind, Subtree};
use vstd::prelude::*;
use vstd::string::StringExecFns;

verus! {

/// A file found below the contestant's directory.
#[derive(Debug, PartialEq, Eq)]
pub struct FoundFile {
    /// The file's full path, as it is reported.
    pub path: String,
    /// The file's path from the contestant's directory, with `/` between
    /// the directory's name and the file's: what the expressions are held
    /// against.
    pub relative: String,
}

/// A directory below the contestant's directory that could not be read.
#[derive(Debug, PartialEq, Eq)]
pub enum WalkError {
    /// Listing the directory with this path failed.
    DirectoryWalkFailure(String),
}

/// What a walk below the contestant's directory gave.
#[derive(Debug, PartialEq, Eq)]
pub struct Enumeration {
    /// The files found, directory by directory.
    pub files: Vec<FoundFile>,
    /// One failure for each directory that could not be listed, in the
    /// order of the walk. The files of the other directories are found all
    /// the same.
    pub failures: Vec<WalkError>,
}

impl View for FoundFile {
    type V = (Seq<char>, Seq<char>);

    /// The file as a pair of texts: its full path and its relative path.
    open spec fn view(&self) -> (Seq<char>, Seq<char>) {
        (self.path@, self.relative@)
    }
}

/// The path of a file from the contestant's directory: the name of the
/// directory that holds it, a `/`, and the file's own name.
pub open spec fn relative_of(directory: Seq<char>, file: Seq<char>) -> Seq<char> {
    directory + seq!['/'] + file
}

/// The files among `children`, which lie in the directory called
/// `directory`, as pairs of full path and relative path.
pub open spec fn files_among(directory: Seq<char>, children: Seq<Entry>) -> Seq<
    (Seq<char>, Seq<char>),
>
    decreases children.len(),
{
    if children.len() == 0 {
        Seq::empty()
    } else {
        let before = files_among(directory, children.drop_last());
        let child = children.last();
        if child.kind == EntryKind::File {
            before.push((child.path@, relative_of(directory, child.name@)))
        } else {
            before
        }
    }
}

/// Whether `node` is a directory whose listing was read.
pub open spec fn is_walked(node: Subtree) -> bool {
    node.entry.kind == EntryKind::Directory && node.children is Some
}

/// Whether `node` is a directory whose listing could not be read.
pub open spec fn is_unreadable(node: Subtree) -> bool {
    node.entry.kind == EntryKind::Directory && node.children is None
}

/// The files that one entry of the contestant's directory gives: those in
/// it where it is a directory that was read, none where it is not.
pub open spec fn files_below(node: Subtree) -> Seq<(Seq<char>, Seq<char>)> {
    if is_walked(node) {
        files_among(node.entry.name@, node.children->Some_0@)
    } else {
        Seq::empty()
    }
}

/// The paths of the directories of the first level that could not be read,
/// in the order of the listing.
pub open spec fn unreadable(tree: Seq<Subtree>) -> Seq<Seq<char>>
    decreases tree.len(),
{
    if tree.len() == 0 {
        Seq::empty()
    } else {
        let before = unreadable(tree.drop_last());
        if is_unreadable(tree.last()) {
            before.push(tree.last().entry.path@)
        } else {
            before
        }
    }
}

/// The paths that `failures` name.
pub open spec fn failed_paths(failures: Seq<WalkError>) -> Seq<Seq<char>> {
    failures.map_values(|e: WalkError| e->DirectoryWalkFailure_0@)
}

/// All files two levels below the contestant's directory: directory by
/// directory, and within each in the order of its listing.
pub open spec fn enumerated(tree: Seq<Subtree>) -> Seq<(Seq<char>, Seq<char>)>
    decreases tree.len(),
{
    if tree.len() == 0 {
        Seq::empty()
    } else {
        enumerated(tree.drop_last()) + files_below(tree.last())
    }
}

/// The pairs of full and relative path that `files` stand for.
pub open spec fn path_pairs(files: Seq<FoundFile>) -> Seq<(Seq<char>, Seq<char>)> {
    files.map_values(|f: FoundFile| f@)
}

/// The relative path of the file called `file` in the directory called
/// `directory`.
pub fn relative_path(directory: &str, file: &str) -> (relative: String)
    ensures
        relative@ == relative_of(directory@, file@),
{
    proof {
        reveal_strlit("/");
        assert("/"@ =~= seq!['/']);
    }
    String::from_str(directory).concat("/").concat(file)
}

/// Appends to `files` the regular files among `children`, the listing of
/// the directory called `directory`.
pub fn push_files(files: &mut Vec<FoundFile>, directory: &str, children: &Vec<Entry>)
    ensures
        path_pairs(final(files)@) == path_pairs(old(files)@) + files_among(
            directory@,
            children@,
        ),
{
    let mut j: usize = 0;
    while j < children.len()
        invariant
            j <= children.len(),
            path_pairs(files@) == path_pairs(old(files)@) + files_among(
                directory@,
                children@.take(j as int),
            ),
        decreases children.len() - j,
    {
        let ghost before = files@;
        assert(children@.take(j + 1).drop_last() =~= children@.take(j as int));
        match children[j].kind {
            EntryKind::File => {
                let found = FoundFile {
                    path: children[j].path.clone(),
                    relative: relative_path(directory, children[j].name.as_str()),
                };
                files.push(found);
                assert(path_pairs(files@) =~= path_pairs(before).push(
                    (found.path@, found.relative@),
                ));
            },
            _ => {},
        }
        j = j + 1;
    }
    assert(children@.take(children@.len() as int) =~= children@);
}

/// Lists the files two levels below the contestant's directory.
///
/// `tree` holds the entries of the contestant's directory in the order of
/// its listing, each with its own listing. Only regular files that lie
/// directly in a directory of the first level are given; everything else is
/// passed over. A directory that could not be listed gives no file and one
/// failure, and does not stop the walk.
pub fn enumerate(tree: &Vec<Subtree>) -> (walk: Enumeration)
    ensures
        path_pairs(walk.files@) == enumerated(tree@),
        failed_paths(walk.failures@) == unreadable(tree@),
{
    let mut files: Vec<FoundFile> = Vec::new();
    let mut failures: Vec<WalkError> = Vec::new();
    let mut i: usize = 0;
    while i < tree.len()
        invariant
            i <= tree.len(),
            path_pairs(files@) == enumerated(tree@.take(i as int)),
            failed_paths(failures@) == unreadable(tree@.take(i as int)),
        decreases tree.len() - i,
    {
        assert(tree@.take(i + 1).drop_last() =~= tree@.take(i as int));
        let ghost found = files@;
        let ghost failed = failures@;
        let node = &tree[i];
        match node.entry.kind {
            EntryKind::Directory => match &node.children {
                Some(children) => {
                    push_files(&mut files, node.entry.name.as_str(), children);
                },
                None => {
                    let failure = WalkError::DirectoryWalkFailure(node.entry.path.clone());
                    failures.push(failure);
                    assert(failed_paths(failures@) =~= failed_paths(failed).push(
                        node.entry.path@,
                    ));
                    assert(path_pairs(found) + files_below(*node) =~= path_pairs(found));
                },
            },
            _ => {
                assert(path_pairs(found) + files_below(*node) =~= path_pairs(found));
            },
        }
        i = i + 1;
    }
    assert(tree@.take(tree@.len() as int) =~= tree@);
    Enumeration { files, failures }
}

/// Enumerating two listings one after the other gives what enumerating
/// them as one gives.
pub proof fn lemma_enumerated_concat(head: Seq<Subtree>, tail: Seq<Subtree>)
    ensures
        enumerated(head + tail) == enumerated(head) + enumerated(tail),
    decreases tail.len(),
{
    if tail.len() == 0 {
        assert(head + tail =~= head);
        assert(enumerated(head) + enumerated(tail) =~= enumerated(head));
    } else {
        lemma_enumerated_concat(head, tail.drop_last());
        assert((head + tail).drop_last() =~= head + tail.drop_last());
        assert((head + tail).last() == tail.last());
        assert(enumerated(head + tail) =~= enumerated(head) + enumerated(tail));
    }
}

/// An entry of the contestant's directory that is no directory, such as a
/// file placed directly in it, is never enumerated: the enumeration is what
/// it is without that entry.
pub proof fn lemma_depth_boundary(tree: Seq<Subtree>, i: int)
    requires
        0 <= i < tree.len(),
        tree[i].entry.kind != EntryKind::Directory,
    ensures
        enumerated(tree) == enumerated(tree.remove(i)),
{
    let head = tree.take(i);
    let one = seq![tree[i]];
    let tail = tree.skip(i + 1);
    assert(tree =~= head + one + tail);
    assert(tree.remove(i) =~= head + tail);
    lemma_enumerated_concat(head + one, tail);
    lemma_enumerated_concat(head, one);
    lemma_enumerated_concat(head, tail);
    assert(one.drop_last() =~= Seq::<Subtree>::empty());
    assert(enumerated(one.drop_last()) =~= Seq::<(Seq<char>, Seq<char>)>::empty());
    assert(one.last() == tree[i]);
    assert(enumerated(one) =~= Seq::<(Seq<char>, Seq<char>)>::empty());
    assert(enumerated(head) + enumerated(one) =~= enumerated(head));
}

/// `pair` stands for the `j`-th entry of the `i`-th entry of `tree`: a
/// regular file that lies directly in a directory of the first level.
pub open spec fn lies_at(tree: Seq<Subtree>, i: int, j: int, pair: (Seq<char>, Seq<char>)) -> bool {
    &&& 0 <= i < tree.len()
    &&& is_walked(tree[i])
    &&& 0 <= j < tree[i].children->Some_0@.len()
    &&& tree[i].children->Some_0@[j].kind == EntryKind::File
    &&& pair == (
        tree[i].children->Some_0@[j].path@,
        relative_of(tree[i].entry.name@, tree[i].children->Some_0@[j].name@),
    )
}

/// What is listed from one directory is what its regular files give.
pub proof fn lemma_files_among_members(
    directory: Seq<char>,
    children: Seq<Entry>,
    pair: (Seq<char>, Seq<char>),
)
    ensures
        files_among(directory, children).contains(pair) <==> exists|j: int|
            0 <= j < children.len() && (#[trigger] children[j]).kind == EntryKind::File && pair == (
                children[j].path@,
                relative_of(directory, children[j].name@),
            ),
    decreases children.len(),
{
    if children.len() > 0 {
        let rest = children.drop_last();
        let child = children.last();
        let own = (child.path@, relative_of(directory, child.name@));
        lemma_files_among_members(directory, rest, pair);
        let listed = files_among(directory, rest);
        if files_among(directory, children).contains(pair) {
            if child.kind == EntryKind::File && pair == own {
                assert(children[children.len() - 1] == child);
            } else {
                if child.kind == EntryKind::File {
                    let at = choose|at: int|
                        0 <= at < listed.push(own).len() && listed.push(own)[at] == pair;
                    assert(listed[at] == pair);
                }
                assert(listed.contains(pair));
                let j = choose|j: int|
                    0 <= j < rest.len() && (#[trigger] rest[j]).kind == EntryKind::File && pair == (
                        rest[j].path@,
                        relative_of(directory, rest[j].name@),
                    );
                assert(children[j] == rest[j]);
            }
        }
        if exists|j: int|
            0 <= j < children.len() && (#[trigger] children[j]).kind == EntryKind::File && pair == (
                children[j].path@,
                relative_of(directory, children[j].name@),
            ) {
            let j = choose|j: int|
                0 <= j < children.len() && (#[trigger] children[j]).kind == EntryKind::File && pair
                    == (children[j].path@, relative_of(directory, children[j].name@));
            if j == children.len() - 1 {
                assert(listed.push(own)[listed.len() as int] == pair);
            } else {
                assert(rest[j] == children[j]);
                assert(listed.contains(pair));
                let at = choose|at: int| 0 <= at < listed.len() && listed[at] == pair;
                if child.kind == EntryKind::File {
                    assert(listed.push(own)[at] == pair);
                }
            }
        }
    }
}

/// Exactly the regular files that lie directly in a directory of the first
/// level are enumerated.
pub proof fn lemma_enumerated_members(tree: Seq<Subtree>, pair: (Seq<char>, Seq<char>))
    ensures
        enumerated(tree).contains(pair) <==> exists|i: int, j: int| lies_at(tree, i, j, pair),
    decreases tree.len(),
{
    if tree.len() > 0 {
        let rest = tree.drop_last();
        let node = tree.last();
        let last = tree.len() - 1;
        lemma_enumerated_members(rest, pair);
        let children = node.children->Some_0@;
        lemma_files_among_members(node.entry.name@, children, pair);
        let listed = enumerated(rest);
        let below = files_below(node);
        if enumerated(tree).contains(pair) {
            let at = choose|at: int| 0 <= at < (listed + below).len() && (listed + below)[at] == pair;
            if at < listed.len() {
                assert(listed[at] == pair);
                assert(listed.contains(pair));
                let (i, j) = choose|i: int, j: int| lies_at(rest, i, j, pair);
                assert(rest[i] == tree[i]);
                assert(lies_at(tree, i, j, pair));
            } else {
                assert(below[at - listed.len()] == pair);
                assert(below.contains(pair));
                let j = choose|j: int|
                    0 <= j < children.len() && (#[trigger] children[j]).kind == EntryKind::File
                        && pair == (children[j].path@, relative_of(node.entry.name@, children[j].name@));
                assert(lies_at(tree, last, j, pair));
            }
        }
        if exists|i: int, j: int| lies_at(tree, i, j, pair) {
            let (i, j) = choose|i: int, j: int| lies_at(tree, i, j, pair);
            if i == last {
                assert(children[j].kind == EntryKind::File);
                assert(below.contains(pair));
                let at = choose|at: int| 0 <= at < below.len() && below[at] == pair;
                assert((listed + below)[listed.len() + at] == pair);
            } else {
                assert(rest[i] == tree[i]);
                assert(lies_at(rest, i, j, pair));
                assert(listed.contains(pair));
                let at = choose|at: int| 0 <= at < listed.len() && listed[at] == pair;
                assert((listed + below)[at] == pair);
            }
        }
    } else {
        assert(!enumerated(tree).contains(pair));
    }
}

} // verus!
