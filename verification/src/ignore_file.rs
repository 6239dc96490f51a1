//! One ignore file: its rule set, with matching against that file alone.

use vstd::prelude::*;

use crate::ruleset::IgnoreResult;
use crate::ruleset::RuleSet;
use crate::ruleset::RuleSetModel;
use crate::ruleset::lines_views;
use crate::ruleset::rules_of_lines;
use crate::ruleset::set_excluded;
use crate::ruleset::set_verdict;

verus! {

/// A single `.gitignore`-style file: matching against the rules within it.
pub struct IgnoreFile {
    pub ruleset: RuleSet,
}

impl View for IgnoreFile {
    type V = RuleSetModel;

    open spec fn view(&self) -> RuleSetModel {
        self.ruleset@
    }
}

impl IgnoreFile {
    /// Build from the raw lines of one ignore file; `root` is the directory
    /// the file sits in. Blank lines, comments and lines that fail to compile
    /// are dropped, never aborting the rest of the file.
    pub fn new(root: &str, lines: &Vec<String>) -> (r: IgnoreFile)
        ensures
            r@.root == root@,
            r@.rules == rules_of_lines(lines_views(lines@), root@),
    {
        IgnoreFile { ruleset: RuleSet::new(root, lines) }
    }

    /// Whether the path is excluded by this file's rules alone.
    pub fn is_ignored(&self, path: &str, is_dir: bool) -> (r: bool)
        ensures
            r == set_excluded(self@, path@, is_dir),
    {
        self.ruleset.is_ignored(path, is_dir)
    }

    /// This file's three-valued verdict on the path, for layering files in a
    /// hierarchy: `Undefined` when the file has no opinion.
    pub fn is_ignored_or_negated(&self, path: &str, is_dir: bool) -> (r: IgnoreResult)
        ensures
            r == set_verdict(self@, path@, is_dir),
    {
        self.ruleset.is_ignored_or_negated(path, is_dir)
    }
}

} // verus!
