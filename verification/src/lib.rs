//! Checks the layout of one contestant's submission directory.
//!
//! The contestant's directory is picked among the children of a root
//! directory by a regular expression on its name. The files two levels below
//! it are then held against the expression of every problem, and each problem
//! is reported as missing, found or ambiguous.
//!
//! Reading directories is left to the caller: the functions here work on
//! listings handed to them as plain values.

pub mod regex_sd;
pub mod listing;
pub mod resolver;
pub mod enumerator;
pub mod config;
pub mod classifier;
pub mod report;
pub mod inspect;
