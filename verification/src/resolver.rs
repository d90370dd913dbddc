//! Picks the contestant's directory among the children of the root.

use crate::listing::{texts, Entry, EntryKind};
use crate::regex_sd::{is_match, regex_is_match};
use regex::Regex;
use vstd::prelude::*;

verus! {

/// Why no contestant directory was picked.
#[derive(Debug, PartialEq, Eq)]
pub enum ResolveError {
    /// The root could not be listed.
    RootPathUnreadable,
    /// No directory under the root has a matching name.
    NoContestantDirectory,
    /// Several directories have a matching name; all their paths are given,
    /// in the order of the listing.
    AmbiguousContestantDirectory(Vec<String>),
}

/// An entry is a candidate when it is a directory whose name matches.
pub open spec fn is_candidate(entry: Entry, pattern: Regex) -> bool {
    entry.kind == EntryKind::Directory && regex_is_match(pattern, entry.name@)
}

/// The paths of the candidates among `entries`, in the order of the listing.
pub open spec fn candidates(entries: Seq<Entry>, pattern: Regex) -> Seq<Seq<char>>
    decreases entries.len(),
{
    if entries.len() == 0 {
        Seq::empty()
    } else {
        let before = candidates(entries.drop_last(), pattern);
        if is_candidate(entries.last(), pattern) {
            before.push(entries.last().path@)
        } else {
            before
        }
    }
}

/// What resolution owes for a given sequence of candidate paths.
pub open spec fn resolution_of(found: Seq<Seq<char>>, outcome: Result<String, ResolveError>) -> bool {
    match outcome {
        Ok(path) => found.len() == 1 && path@ == found[0],
        Err(ResolveError::NoContestantDirectory) => found.len() == 0,
        Err(ResolveError::AmbiguousContestantDirectory(all)) => found.len() >= 2 && texts(all@)
            == found,
        Err(ResolveError::RootPathUnreadable) => false,
    }
}

/// Whether `entry` is a directory whose name matches `pattern`.
pub fn entry_is_candidate(entry: &Entry, pattern: &Regex) -> (yes: bool)
    ensures
        yes == is_candidate(*entry, *pattern),
{
    match entry.kind {
        EntryKind::Directory => is_match(pattern, entry.name.as_str()),
        _ => false,
    }
}

/// The paths of the candidates among `entries`, in the order of the listing.
pub fn collect_candidates(entries: &Vec<Entry>, pattern: &Regex) -> (found: Vec<String>)
    ensures
        texts(found@) == candidates(entries@, *pattern),
{
    let mut found: Vec<String> = Vec::new();
    let mut i: usize = 0;
    while i < entries.len()
        invariant
            i <= entries.len(),
            texts(found@) == candidates(entries@.take(i as int), *pattern),
        decreases entries.len() - i,
    {
        let ghost before = found@;
        assert(entries@.take(i + 1).drop_last() =~= entries@.take(i as int));
        if entry_is_candidate(&entries[i], pattern) {
            found.push(entries[i].path.clone());
            assert(texts(found@) =~= texts(before).push(entries@[i as int].path@));
        }
        i = i + 1;
    }
    assert(entries@.take(entries@.len() as int) =~= entries@);
    found
}

/// Decides on the candidates that were found: the only one, or the error for
/// none or for several.
pub fn decide(mut found: Vec<String>) -> (outcome: Result<String, ResolveError>)
    ensures
        resolution_of(texts(found@), outcome),
{
    if found.len() == 0 {
        Err(ResolveError::NoContestantDirectory)
    } else if found.len() == 1 {
        let ghost all = found@;
        let only = found.pop().unwrap();
        assert(only == all[0]);
        Ok(only)
    } else {
        Err(ResolveError::AmbiguousContestantDirectory(found))
    }
}

/// Picks the contestant's directory among the entries of the root.
///
/// Returns the path of the one directory whose name matches `pattern`. With
/// no such directory the error is `NoContestantDirectory`; with several it is
/// `AmbiguousContestantDirectory`, which carries the paths of all of them in
/// the order of the listing.
pub fn resolve_entries(entries: &Vec<Entry>, pattern: &Regex) -> (outcome: Result<
    String,
    ResolveError,
>)
    ensures
        resolution_of(candidates(entries@, *pattern), outcome),
{
    decide(collect_candidates(entries, pattern))
}

/// Picks the contestant's directory, given what reading the root gave:
/// `None` where the root is missing or no directory, else its entries.
pub fn resolve(listing: &Option<Vec<Entry>>, pattern: &Regex) -> (outcome: Result<
    String,
    ResolveError,
>)
    ensures
        match *listing {
            None => outcome == Err::<String, ResolveError>(ResolveError::RootPathUnreadable),
            Some(entries) => resolution_of(candidates(entries@, *pattern), outcome),
        },
{
    match listing {
        None => Err(ResolveError::RootPathUnreadable),
        Some(entries) => resolve_entries(entries, pattern),
    }
}

/// Resolution goes by the number of candidates: with exactly one it succeeds
/// and returns that one; with none it fails with `NoContestantDirectory`;
/// with two or more it fails with `AmbiguousContestantDirectory`, which then
/// carries as many paths as there are candidates.
pub proof fn lemma_resolution_by_count(
    entries: Seq<Entry>,
    pattern: Regex,
    outcome: Result<String, ResolveError>,
)
    requires
        resolution_of(candidates(entries, pattern), outcome),
    ensures
        candidates(entries, pattern).len() == 1 <==> outcome is Ok,
        outcome matches Ok(path) ==> path@ == candidates(entries, pattern)[0],
        candidates(entries, pattern).len() == 0 <==> outcome
            == Err::<String, ResolveError>(ResolveError::NoContestantDirectory),
        candidates(entries, pattern).len() >= 2 <==> (outcome matches Err(
            ResolveError::AmbiguousContestantDirectory(_),
        )),
        outcome matches Err(ResolveError::AmbiguousContestantDirectory(all)) ==> all@.len()
            == candidates(entries, pattern).len(),
{
}

} // verus!
