//! What was found for each problem.

use crate::config::{Contestant, Problem};
use crate::listing::copy_paths;
use vstd::prelude::*;

verus! {

/// What was found for one problem.
#[derive(Debug, PartialEq, Eq)]
pub enum Status {
    /// No file matched.
    Missing,
    /// One file matched: its full path.
    Found(String),
    /// Several files matched: their full paths, in the order in which they
    /// were found.
    Ambiguous(Vec<String>),
}

/// The entry of a report for one problem.
#[derive(Debug, PartialEq, Eq)]
pub struct ProblemReport {
    /// The problem's name.
    pub name: String,
    pub status: Status,
}

/// The status that a list of matched files calls for, which goes by their
/// number alone: none, one, or more.
pub open spec fn is_status_of(status: Status, files: Seq<String>) -> bool {
    match status {
        Status::Missing => files.len() == 0,
        Status::Found(path) => files.len() == 1 && path == files[0],
        Status::Ambiguous(all) => files.len() >= 2 && all@ == files,
    }
}

/// `entries` is the report on `problems`: one entry for each problem, in
/// their order, with the problem's name and the status of its list.
pub open spec fn is_report_of(entries: Seq<ProblemReport>, problems: Seq<Problem>) -> bool {
    &&& entries.len() == problems.len()
    &&& forall|i: int|
        0 <= i < problems.len() ==> (#[trigger] entries[i]).name == problems[i].name
            && is_status_of(entries[i].status, problems[i].existing_files@)
}

/// The status that a list of matched files calls for.
pub fn status_of(files: &Vec<String>) -> (status: Status)
    ensures
        is_status_of(status, files@),
{
    if files.len() == 0 {
        Status::Missing
    } else if files.len() == 1 {
        Status::Found(files[0].clone())
    } else {
        Status::Ambiguous(copy_paths(files))
    }
}

impl Problem {
    /// The status of the problem, by the files found for it.
    pub fn status(&self) -> (status: Status)
        ensures
            is_status_of(status, self.existing_files@),
    {
        status_of(&self.existing_files)
    }
}

/// The report on `problems`: one entry for each, in their order.
pub fn report(problems: &Vec<Problem>) -> (entries: Vec<ProblemReport>)
    ensures
        is_report_of(entries@, problems@),
{
    let mut entries: Vec<ProblemReport> = Vec::new();
    let mut i: usize = 0;
    while i < problems.len()
        invariant
            i <= problems.len(),
            is_report_of(entries@, problems@.take(i as int)),
        decreases problems.len() - i,
    {
        let entry = ProblemReport { name: problems[i].name.clone(), status: problems[i].status() };
        entries.push(entry);
        i = i + 1;
    }
    assert(problems@.take(problems@.len() as int) =~= problems@);
    entries
}

impl Contestant {
    /// The report on the problems of the configuration.
    pub fn report(&self) -> (entries: Vec<ProblemReport>)
        ensures
            is_report_of(entries@, self.problems@),
    {
        report(&self.problems)
    }
}

/// The status goes by the number of matched files alone: two lists of the
/// same length get the same kind of status, whatever they hold.
pub proof fn lemma_status_by_count(
    first: Status,
    first_files: Seq<String>,
    second: Status,
    second_files: Seq<String>,
)
    requires
        is_status_of(first, first_files),
        is_status_of(second, second_files),
        first_files.len() == second_files.len(),
    ensures
        first is Missing <==> second is Missing,
        first is Found <==> second is Found,
        first is Ambiguous <==> second is Ambiguous,
        first is Missing <==> first_files.len() == 0,
        first is Found <==> first_files.len() == 1,
        first is Ambiguous <==> first_files.len() >= 2,
{
}

} // verus!
