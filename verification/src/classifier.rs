//! Holds every file against the expression of every problem.

use crate::config::{Contestant, Problem};
use crate::enumerator::{path_pairs, FoundFile};
use crate::listing::texts;
use crate::regex_sd::regex_is_match;
use regex::Regex;
use vstd::prelude::*;

verus! {

/// The full paths of those of `files`, pairs of full and relative path,
/// whose relative path matches `pattern`, in the order of `files`.
pub open spec fn matching(files: Seq<(Seq<char>, Seq<char>)>, pattern: Regex) -> Seq<Seq<char>>
    decreases files.len(),
{
    if files.len() == 0 {
        Seq::empty()
    } else {
        let before = matching(files.drop_last(), pattern);
        if regex_is_match(pattern, files.last().1) {
            before.push(files.last().0)
        } else {
            before
        }
    }
}

/// `after` is `before` once `files`, pairs of full and relative path, have
/// been classified: the same problems in the same order, each with the
/// matching files appended to its list.
pub open spec fn classified(
    before: Seq<Problem>,
    files: Seq<(Seq<char>, Seq<char>)>,
    after: Seq<Problem>,
) -> bool {
    &&& after.len() == before.len()
    &&& forall|i: int|
        0 <= i < before.len() ==> {
            &&& (#[trigger] after[i]).name == before[i].name
            &&& after[i].regex == before[i].regex
            &&& texts(after[i].existing_files@) == texts(before[i].existing_files@) + matching(
                files,
                before[i].regex,
            )
        }
}

/// Holds one file against every problem, in their order, and appends its
/// full path to the list of each problem that it matches.
pub fn classify_file(file: &FoundFile, problems: &mut Vec<Problem>)
    ensures
        classified(old(problems)@, seq![file@], final(problems)@),
{
    let ghost before = problems@;
    let mut j: usize = 0;
    while j < problems.len()
        invariant
            j <= problems.len(),
            problems@.len() == before.len(),
            forall|i: int|
                0 <= i < before.len() ==> (#[trigger] problems@[i]).name == before[i].name
                    && problems@[i].regex == before[i].regex,
            forall|i: int|
                0 <= i < j ==> texts((#[trigger] problems@[i]).existing_files@) == texts(
                    before[i].existing_files@,
                ) + matching(seq![file@], before[i].regex),
            forall|i: int|
                j <= i < before.len() ==> (#[trigger] problems@[i]).existing_files
                    == before[i].existing_files,
        decreases problems.len() - j,
    {
        let matched = problems[j].matches(file.relative.as_str());
        let ghost held = problems@[j as int].existing_files@;
        problems[j].record(matched, &file.path);
        proof {
            let one = seq![file@];
            assert(one.drop_last() =~= Seq::<(Seq<char>, Seq<char>)>::empty());
            assert(matching(one.drop_last(), before[j as int].regex) =~= Seq::<Seq<char>>::empty());
            assert(one.last() == file@);
            if matched {
                assert(texts(held.push(file.path)) =~= texts(held) + seq![file.path@]);
                assert(matching(one, before[j as int].regex) =~= seq![file.path@]);
            } else {
                assert(matching(one, before[j as int].regex) =~= Seq::<Seq<char>>::empty());
                assert(texts(held) + Seq::<Seq<char>>::empty() =~= texts(held));
            }
        }
        j = j + 1;
    }
}

/// Classifying `head` and then `tail` gives what classifying `head + tail`
/// at once gives.
pub proof fn lemma_matching_concat(
    head: Seq<(Seq<char>, Seq<char>)>,
    tail: Seq<(Seq<char>, Seq<char>)>,
    pattern: Regex,
)
    ensures
        matching(head + tail, pattern) == matching(head, pattern) + matching(tail, pattern),
    decreases tail.len(),
{
    if tail.len() == 0 {
        assert(head + tail =~= head);
        assert(matching(head, pattern) + matching(tail, pattern) =~= matching(head, pattern));
    } else {
        lemma_matching_concat(head, tail.drop_last(), pattern);
        assert((head + tail).drop_last() =~= head + tail.drop_last());
        assert((head + tail).last() == tail.last());
        if regex_is_match(pattern, tail.last().1) {
            assert(matching(head + tail, pattern) =~= matching(head, pattern) + matching(
                tail,
                pattern,
            ));
        }
    }
}

/// Holds every file against every problem.
///
/// The files are taken in their order, and for each file the problems in
/// theirs. The full path of a file is appended to the list of every problem
/// whose expression matches the file's relative path; a file that matches
/// several problems is appended to each. Lists that were not empty at the
/// start keep what they held.
pub fn classify(files: &Vec<FoundFile>, problems: &mut Vec<Problem>)
    ensures
        classified(old(problems)@, path_pairs(files@), final(problems)@),
{
    let ghost before = problems@;
    let ghost pairs = path_pairs(files@);
    let mut k: usize = 0;
    assert forall|i: int| 0 <= i < before.len() implies texts(before[i].existing_files@) + matching(
        pairs.take(0),
        before[i].regex,
    ) == texts(before[i].existing_files@) by {
        assert(texts(before[i].existing_files@) + Seq::<Seq<char>>::empty() =~= texts(
            before[i].existing_files@,
        ));
    }
    while k < files.len()
        invariant
            k <= files.len(),
            pairs == path_pairs(files@),
            classified(before, pairs.take(k as int), problems@),
        decreases files.len() - k,
    {
        let ghost middle = problems@;
        classify_file(&files[k], problems);
        proof {
            let done = pairs.take(k as int);
            let one = seq![files@[k as int]@];
            assert(pairs.take(k + 1) =~= done + one);
            assert forall|i: int| 0 <= i < before.len() implies texts(
                (#[trigger] problems@[i]).existing_files@,
            ) == texts(before[i].existing_files@) + matching(
                pairs.take(k + 1),
                before[i].regex,
            ) by {
                lemma_matching_concat(done, one, before[i].regex);
                assert(middle[i].regex == before[i].regex);
                assert(texts(problems@[i].existing_files@) =~= texts(before[i].existing_files@)
                    + (matching(done, before[i].regex) + matching(one, before[i].regex)));
            }
        }
        k = k + 1;
    }
    assert(pairs.take(files@.len() as int) =~= pairs);
}

impl Contestant {
    /// Holds every file against every problem of the configuration.
    pub fn classify(&mut self, files: &Vec<FoundFile>)
        ensures
            final(self).root_path == old(self).root_path,
            final(self).regex == old(self).regex,
            classified(old(self).problems@, path_pairs(files@), final(self).problems@),
    {
        classify(files, &mut self.problems);
    }
}

/// The paths that match are those of the files whose relative path matches.
pub proof fn lemma_matching_members(
    files: Seq<(Seq<char>, Seq<char>)>,
    pattern: Regex,
    path: Seq<char>,
)
    ensures
        matching(files, pattern).contains(path) <==> exists|k: int|
            0 <= k < files.len() && regex_is_match(pattern, (#[trigger] files[k]).1) && files[k].0
                == path,
    decreases files.len(),
{
    if files.len() > 0 {
        let rest = files.drop_last();
        let file = files.last();
        let listed = matching(rest, pattern);
        lemma_matching_members(rest, pattern, path);
        if matching(files, pattern).contains(path) {
            if regex_is_match(pattern, file.1) && file.0 == path {
                assert(files[files.len() - 1] == file);
            } else {
                if regex_is_match(pattern, file.1) {
                    let at = choose|at: int|
                        0 <= at < listed.push(file.0).len() && listed.push(file.0)[at]
                            == path;
                    assert(listed[at] == path);
                }
                assert(listed.contains(path));
                let k = choose|k: int|
                    0 <= k < rest.len() && regex_is_match(pattern, (#[trigger] rest[k]).1)
                        && rest[k].0 == path;
                assert(files[k] == rest[k]);
            }
        }
        if exists|k: int|
            0 <= k < files.len() && regex_is_match(pattern, (#[trigger] files[k]).1)
                && files[k].0 == path {
            let k = choose|k: int|
                0 <= k < files.len() && regex_is_match(pattern, (#[trigger] files[k]).1)
                    && files[k].0 == path;
            if k == files.len() - 1 {
                assert(listed.push(file.0)[listed.len() as int] == path);
            } else {
                assert(rest[k] == files[k]);
                assert(listed.contains(path));
                let at = choose|at: int| 0 <= at < listed.len() && listed[at] == path;
                if regex_is_match(pattern, file.1) {
                    assert(listed.push(file.0)[at] == path);
                }
            }
        }
    } else {
        assert(!matching(files, pattern).contains(path));
    }
}

/// After classification a path is on a problem's list exactly if it was
/// there before or is the full path of a file whose relative path the
/// problem accepts. For a list that was empty at the start: a file is on it
/// if and only if it matches.
pub proof fn lemma_classification_complete(
    before: Seq<Problem>,
    files: Seq<(Seq<char>, Seq<char>)>,
    after: Seq<Problem>,
    i: int,
    path: Seq<char>,
)
    requires
        classified(before, files, after),
        0 <= i < before.len(),
    ensures
        texts(after[i].existing_files@).contains(path) <==> texts(
            before[i].existing_files@,
        ).contains(path) || exists|k: int|
            0 <= k < files.len() && after[i].accepts((#[trigger] files[k]).1)
                && files[k].0 == path,
{
    let held = texts(before[i].existing_files@);
    let added = matching(files, before[i].regex);
    let all = texts(after[i].existing_files@);
    assert(all == held + added);
    lemma_matching_members(files, before[i].regex, path);
    if all.contains(path) {
        let at = choose|at: int| 0 <= at < all.len() && all[at] == path;
        if at < held.len() {
            assert(held[at] == path);
        } else {
            assert(added[at - held.len()] == path);
        }
    }
    if held.contains(path) {
        let at = choose|at: int| 0 <= at < held.len() && held[at] == path;
        assert(all[at] == path);
    }
    if added.contains(path) {
        let at = choose|at: int| 0 <= at < added.len() && added[at] == path;
        assert(all[held.len() + at] == path);
    }
}

/// No problem shuts another out: a file whose relative path two problems
/// accept is on the lists of both after classification.
pub proof fn lemma_overlap_is_kept(
    before: Seq<Problem>,
    files: Seq<(Seq<char>, Seq<char>)>,
    after: Seq<Problem>,
    i: int,
    j: int,
    k: int,
)
    requires
        classified(before, files, after),
        0 <= i < before.len(),
        0 <= j < before.len(),
        0 <= k < files.len(),
        before[i].accepts(files[k].1),
        before[j].accepts(files[k].1),
    ensures
        texts(after[i].existing_files@).contains(files[k].0),
        texts(after[j].existing_files@).contains(files[k].0),
{
    lemma_classification_complete(before, files, after, i, files[k].0);
    lemma_classification_complete(before, files, after, j, files[k].0);
}

} // verus!
