//! The whole inspection of a contestant's directory: walk, classify, report.

use crate::classifier::{classified, lemma_classification_complete};
use crate::config::{Contestant, Problem};
use crate::enumerator::{
    enumerate, enumerated, failed_paths, lemma_enumerated_members, lies_at, unreadable, WalkError,
};
use crate::listing::{texts, Subtree};
use crate::report::{is_report_of, ProblemReport};
use vstd::prelude::*;

verus! {

impl Contestant {
    /// Inspects the contestant's directory, given as the entries of its
    /// first level with their listings.
    ///
    /// The files two levels down are held against every problem, and the
    /// report on the problems is returned, together with one failure for
    /// each directory that could not be listed.
    pub fn inspect(&mut self, tree: &Vec<Subtree>) -> (outcome: (
        Vec<ProblemReport>,
        Vec<WalkError>,
    ))
        ensures
            final(self).root_path == old(self).root_path,
            final(self).regex == old(self).regex,
            classified(old(self).problems@, enumerated(tree@), final(self).problems@),
            is_report_of(outcome.0@, final(self).problems@),
            failed_paths(outcome.1@) == unreadable(tree@),
    {
        let walk = enumerate(tree);
        self.classify(&walk.files);
        let entries = self.report();
        (entries, walk.failures)
    }
}

/// After an inspection a path is on a problem's list exactly if it was
/// there before, or is the full path of a regular file that lies directly in
/// a directory of the first level and whose relative path the problem
/// accepts.
pub proof fn lemma_two_level_complete(
    before: Seq<Problem>,
    tree: Seq<Subtree>,
    after: Seq<Problem>,
    p: int,
    path: Seq<char>,
)
    requires
        classified(before, enumerated(tree), after),
        0 <= p < before.len(),
    ensures
        texts(after[p].existing_files@).contains(path) <==> texts(
            before[p].existing_files@,
        ).contains(path) || exists|i: int, j: int, relative: Seq<char>|
            lies_at(tree, i, j, (path, relative)) && after[p].accepts(relative),
{
    let files = enumerated(tree);
    lemma_classification_complete(before, files, after, p, path);
    if exists|k: int|
        0 <= k < files.len() && after[p].accepts((#[trigger] files[k]).1) && files[k].0 == path {
        let k = choose|k: int|
            0 <= k < files.len() && after[p].accepts((#[trigger] files[k]).1) && files[k].0 == path;
        let pair = files[k];
        assert(files.contains(pair));
        lemma_enumerated_members(tree, pair);
        let (i, j) = choose|i: int, j: int| lies_at(tree, i, j, pair);
        assert(pair == (path, pair.1));
        assert(lies_at(tree, i, j, (path, pair.1)) && after[p].accepts(pair.1));
    }
    if exists|i: int, j: int, relative: Seq<char>|
        lies_at(tree, i, j, (path, relative)) && after[p].accepts(relative) {
        let (i, j, relative) = choose|i: int, j: int, relative: Seq<char>|
            lies_at(tree, i, j, (path, relative)) && after[p].accepts(relative);
        lemma_enumerated_members(tree, (path, relative));
        assert(files.contains((path, relative)));
        let k = choose|k: int| 0 <= k < files.len() && files[k] == (path, relative);
        assert(after[p].accepts(files[k].1) && files[k].0 == path);
    }
}

} // verus!
