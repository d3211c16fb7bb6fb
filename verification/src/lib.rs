//! A small text-search library: a literal query is matched against the lines
//! of each file in a tree, matching lines are rendered with the match spans
//! highlighted, and per-file match counts are collected into a final report.

use vstd::prelude::*;

pub mod aggregate;
pub mod matcher;
pub mod pattern;
pub mod search;

verus! {

/// The settings of one search run: the literal query text, the root path to
/// search under, and the two behaviour flags.
pub struct Config {
    pub query: String,
    pub file_path: String,
    pub ignore_case: bool,
    pub stats_only: bool,
}

impl Config {
    /// Builds a run configuration from already-parsed argument values.
    pub fn build(query: String, file_path: String, ignore_case: bool, stats_only: bool) -> (c:
        Config)
        ensures
            c.query@ == query@,
            c.file_path@ == file_path@,
            c.ignore_case == ignore_case,
            c.stats_only == stats_only,
    {
        Config { query, file_path, ignore_case, stats_only }
    }
}

} // verus!
