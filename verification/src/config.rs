//! The configuration of a run: where the contestants are, how the
//! contestant's directory is named, and the problems with their expressions.

use crate::listing::Entry;
use crate::regex_sd::{is_match, regex_is_match};
use crate::resolver::{candidates, resolution_of, resolve_entries, ResolveError};
use regex::Regex;
use vstd::prelude::*;

verus! {

/// One problem of the contest.
#[derive(Debug)]
pub struct Problem {
    /// The problem's name, such as `math`.
    pub name: String,
    /// Matches the relative paths of the files that belong to the problem.
    pub regex: Regex,
    /// The full paths of the files found for the problem so far, in the
    /// order in which they were found.
    pub existing_files: Vec<String>,
}

/// The configuration of a run.
#[derive(Debug)]
pub struct Contestant {
    /// The directory that holds one directory for each contestant.
    pub root_path: String,
    /// Matches the name of the contestant's own directory.
    pub regex: Regex,
    /// The problems, in the order in which they are reported.
    pub problems: Vec<Problem>,
}

impl Problem {
    /// A problem with no file found yet.
    pub fn new(name: String, regex: Regex) -> (problem: Problem)
        ensures
            problem.name == name,
            problem.regex == regex,
            problem.existing_files@.len() == 0,
    {
        Problem { name, regex, existing_files: Vec::new() }
    }

    /// Whether a file with this relative path belongs to the problem.
    pub open spec fn accepts(self, relative: Seq<char>) -> bool {
        regex_is_match(self.regex, relative)
    }

    /// Whether a file with this relative path belongs to the problem.
    pub fn matches(&self, relative: &str) -> (yes: bool)
        ensures
            yes == self.accepts(relative@),
    {
        is_match(&self.regex, relative)
    }

    /// Notes the outcome of holding a file against the problem: the file's
    /// full path is appended where it matched, and nothing changes where it
    /// did not.
    pub fn record(&mut self, matched: bool, path: &String)
        ensures
            final(self).name == old(self).name,
            final(self).regex == old(self).regex,
            final(self).existing_files@ == if matched {
                old(self).existing_files@.push(*path)
            } else {
                old(self).existing_files@
            },
    {
        if matched {
            self.existing_files.push(path.clone());
        }
    }
}

impl Contestant {
    /// Picks the contestant's directory among the entries of the root, by
    /// the configured expression.
    pub fn resolve(&self, entries: &Vec<Entry>) -> (outcome: Result<String, ResolveError>)
        ensures
            resolution_of(candidates(entries@, self.regex), outcome),
    {
        resolve_entries(entries, &self.regex)
    }
}

} // verus!
