//! Regular expressions: the calls into the `regex` crate and their contracts.
//!
//! What an expression matches is not modelled. It is given a name,
//! [`regex_is_match`], and the contracts of this library speak of that name.

use regex::Regex;
use std::str::FromStr;
use vstd::prelude::*;

verus! {

/// `regex::Regex`, a compiled expression. Nothing inside it is visible to
/// the proofs.
#[verifier::external_type_specification]
#[verifier::external_body]
pub struct ExRegex(regex::Regex);

/// `regex::Error`, the failure of compiling an expression. Nothing inside it
/// is visible to the proofs.
#[verifier::external_type_specification]
#[verifier::external_body]
pub struct ExRegexError(regex::Error);

/// Whether the compiled expression `re` finds a match anywhere in `text`:
/// what `Regex::is_match` returns. It is a function of the compiled
/// expression, not of its source: two expressions with one source may have
/// been built with different settings.
pub uninterp spec fn regex_is_match(re: Regex, text: Seq<char>) -> bool;

/// The text that the compiled expression `re` was built from: what
/// `Regex::as_str` returns, and what `Regex::to_string` writes.
pub uninterp spec fn regex_source(re: Regex) -> Seq<char>;

/// Why a text was not accepted as a regular expression.
#[derive(Debug, PartialEq, Eq)]
pub enum PatternError {
    /// The text is no well-formed expression; the message says where.
    Syntax(String),
    /// The compiled expression would be larger than the limit given.
    CompiledTooBig(usize),
    /// A failure that the `regex` crate does not tell apart any further.
    Unknown,
}

/// Calls `Regex::is_match`. The result depends on the expression and the
/// text alone, so it is equated with [`regex_is_match`] of the two.
#[verifier::external_body]
pub(crate) fn is_match(re: &Regex, text: &str) -> (found: bool)
    ensures
        found == regex_is_match(*re, text@),
{
    re.is_match(text)
}

/// Calls `Regex::to_string`, which writes out `Regex::as_str`: the source of
/// the expression, named [`regex_source`].
#[verifier::external_body]
pub(crate) fn source_text(re: &Regex) -> (text: String)
    ensures
        text@ == regex_source(*re),
{
    re.to_string()
}

/// Calls `Regex::from_str`, which is `Regex::new`. Nothing is claimed of
/// when it succeeds: besides the syntax, a limit on the size of the compiled
/// expression decides, and that size is the machine's. An expression that
/// comes back keeps the text it was given as its source.
#[verifier::external_body]
pub(crate) fn compile(source: &str) -> (compiled: Result<Regex, regex::Error>)
    ensures
        compiled matches Ok(re) ==> regex_source(re) == source@,
{
    Regex::from_str(source)
}

/// Moves the fields of a `regex::Error` into a [`PatternError`], variant by
/// variant. Nothing is claimed of which variant comes.
#[verifier::external_body]
pub(crate) fn error_kind(error: regex::Error) -> PatternError {
    match error {
        regex::Error::Syntax(message) => PatternError::Syntax(message),
        regex::Error::CompiledTooBig(limit) => PatternError::CompiledTooBig(limit),
        _ => PatternError::Unknown,
    }
}

/// The text under which an expression is stored in a configuration: its
/// source.
pub fn serialize(r: &Regex) -> (text: String)
    ensures
        text@ == regex_source(*r),
{
    source_text(r)
}

/// Turns the outcome of compiling into the library's own terms: the
/// expression where there is one, else the kind of the failure.
pub fn accept(compiled: Result<Regex, regex::Error>) -> (parsed: Result<Regex, PatternError>)
    ensures
        match compiled {
            Ok(re) => parsed == Ok::<Regex, PatternError>(re),
            Err(_) => parsed is Err,
        },
{
    match compiled {
        Ok(re) => Ok(re),
        Err(error) => Err(error_kind(error)),
    }
}

/// The expression that a stored text stands for.
///
/// Whether the text compiles is for the `regex` crate to say. An expression
/// that is returned has the text as its source.
pub fn deserialize(s: &str) -> (parsed: Result<Regex, PatternError>)
    ensures
        parsed matches Ok(re) ==> regex_source(re) == s@,
{
    accept(compile(s))
}

} // verus!
