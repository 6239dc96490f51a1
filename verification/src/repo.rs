//! Resolving exclusion across a hierarchy of ignore files under one root:
//! the file nearest the queried path that has an opinion wins.

use vstd::prelude::*;
use vstd::string::*;

use crate::ignore_file::IgnoreFile;
use crate::ruleset::IgnoreResult;
use crate::ruleset::RuleSetModel;
use crate::ruleset::absolutize;
use crate::ruleset::absolutized;
use crate::ruleset::lines_views;
use crate::ruleset::rules_of_lines;
use crate::ruleset::set_verdict;
use crate::text::parent_dir;
use crate::text::parent_of;
use crate::text::lemma_parent_dir_shrinks;
use crate::text::starts_with_str;

verus! {

/// What a repository means: its root directory and, for each ignore file
/// found under it, the directory holding the file and that file's rule set.
pub ghost struct RepoModel {
    pub root: Seq<char>,
    pub files: Seq<(Seq<char>, RuleSetModel)>,
}

/// The rule set registered for a directory: the first entry with that key.
pub open spec fn lookup(files: Seq<(Seq<char>, RuleSetModel)>, dir: Seq<char>) -> Option<
    RuleSetModel,
>
    decreases files.len(),
{
    if files.len() == 0 {
        None
    } else if files.first().0 == dir {
        Some(files.first().1)
    } else {
        lookup(files.drop_first(), dir)
    }
}

/// Whether `dir` lies at or under `root`, component-wise: it is `root`
/// itself, or continues it right after a `/`.
pub open spec fn is_within(dir: Seq<char>, root: Seq<char>) -> bool {
    dir == root || (dir.len() > root.len() && dir.take(root.len() as int) == root && dir[
        root.len() as int
    ] == '/')
}

/// The rule set built for one ignore file: its rules resolved against the
/// directory the file sits in.
pub open spec fn built_set(dir: Seq<char>, lines: Seq<Seq<char>>) -> RuleSetModel {
    RuleSetModel { root: dir, rules: rules_of_lines(lines, dir) }
}

/// The hierarchy walk: starting at `dir` and climbing towards `root`, the
/// verdict of the first ignore file with an opinion; `Undefined` when the
/// walk leaves the root with no file having spoken.
pub open spec fn hierarchy_verdict(
    files: Seq<(Seq<char>, RuleSetModel)>,
    root: Seq<char>,
    dir: Seq<char>,
    path: Seq<char>,
    is_dir: bool,
) -> IgnoreResult
    decreases dir.len(),
    via hierarchy_verdict_decreases
{
    if dir.len() == 0 || !is_within(dir, root) {
        IgnoreResult::Undefined
    } else {
        let v = match lookup(files, dir) {
            Some(m) => set_verdict(m, path, is_dir),
            None => IgnoreResult::Undefined,
        };
        if v != IgnoreResult::Undefined {
            v
        } else {
            hierarchy_verdict(files, root, parent_dir(dir), path, is_dir)
        }
    }
}

#[via_fn]
proof fn hierarchy_verdict_decreases(
    files: Seq<(Seq<char>, RuleSetModel)>,
    root: Seq<char>,
    dir: Seq<char>,
    path: Seq<char>,
    is_dir: bool,
) {
    if dir.len() > 0 {
        lemma_parent_dir_shrinks(dir);
    }
}

/// Whether a repository ignores a path: the path is absolutized against the
/// repository root, and the walk starts in the path's own directory.
pub open spec fn repo_ignored(m: RepoModel, path: Seq<char>, is_dir: bool) -> bool {
    let abs = absolutized(m.root, path);
    hierarchy_verdict(m.files, m.root, parent_dir(abs), abs, is_dir) == IgnoreResult::Ignored
}

/// All the ignore files found under one repository root, each keyed by the
/// directory holding it, with ignore checking against all of them.
pub struct Repo {
    /// The repository root; relative query paths are resolved against it.
    pub root: String,
    /// One entry per ignore file: the directory holding the file, and the
    /// file's rules resolved against that directory.
    pub ignore_files: Vec<(String, IgnoreFile)>,
}

impl View for Repo {
    type V = RepoModel;

    open spec fn view(&self) -> RepoModel {
        RepoModel {
            root: self.root@,
            files: self.ignore_files@.map_values(|e: (String, IgnoreFile)| (e.0@, e.1@)),
        }
    }
}

/// Whether `dir` lies at or under `root`.
pub fn is_within_dir(dir: &str, root: &str) -> (r: bool)
    ensures
        r == is_within(dir@, root@),
{
    let n = dir.unicode_len();
    let m = root.unicode_len();
    if n == m {
        let r = starts_with_str(dir, root);
        proof {
            if r {
                assert(dir@ =~= root@);
            } else {
                assert(dir@.take(m as int) =~= dir@);
            }
        }
        r
    } else if n > m {
        starts_with_str(dir, root) && dir.get_char(m) == '/'
    } else {
        false
    }
}

impl Repo {
    /// Build a repository from its root and the discovered ignore files:
    /// for each, the directory holding it and its raw lines. The caller does
    /// the discovery and the reading; order gives lookup priority to earlier
    /// entries should one directory appear twice.
    pub fn new(root: &str, sources: &Vec<(String, Vec<String>)>) -> (r: Repo)
        ensures
            r@.root == root@,
            r@.files.len() == sources@.len(),
            forall|i: int|
                0 <= i < sources@.len() ==> (#[trigger] r@.files[i]).0 == sources@[i].0@
                    && r@.files[i].1 == built_set(
                    sources@[i].0@,
                    lines_views(sources@[i].1@),
                ),
    {
        let mut ignore_files: Vec<(String, IgnoreFile)> = Vec::new();
        let n = sources.len();
        let mut i: usize = 0;
        while i < n
            invariant
                i <= n,
                n == sources.len(),
                ignore_files@.len() == i,
                forall|j: int|
                    0 <= j < i ==> (#[trigger] ignore_files@[j]).0@ == sources@[j].0@
                        && ignore_files@[j].1@ == built_set(
                        sources@[j].0@,
                        lines_views(sources@[j].1@),
                    ),
            decreases n - i,
        {
            let entry = &sources[i];
            let dir = entry.0.clone();
            let file = IgnoreFile::new(entry.0.as_str(), &entry.1);
            ignore_files.push((dir, file));
            i = i + 1;
        }
        Repo { root: root.to_owned(), ignore_files }
    }

    /// The ignore file registered for a directory, if any.
    fn find_file<'a>(&'a self, dir: &String) -> (r: Option<&'a IgnoreFile>)
        ensures
            match r {
                Some(f) => lookup(self@.files, dir@) == Some(f@),
                None => lookup(self@.files, dir@) is None,
            },
    {
        let n = self.ignore_files.len();
        let mut i: usize = 0;
        proof {
            assert(self@.files.skip(0) =~= self@.files);
        }
        while i < n
            invariant
                i <= n,
                n == self.ignore_files.len(),
                lookup(self@.files, dir@) == lookup(self@.files.skip(i as int), dir@),
            decreases n - i,
        {
            let e = &self.ignore_files[i];
            if e.0 == *dir {
                proof {
                    assert(self@.files.skip(i as int).first() == self@.files[i as int]);
                }
                return Some(&e.1);
            }
            proof {
                assert(self@.files.skip(i as int).first() == self@.files[i as int]);
                assert(self@.files.skip(i as int).drop_first() =~= self@.files.skip(i + 1));
            }
            i = i + 1;
        }
        proof {
            assert(self@.files.skip(n as int) =~= Seq::<(Seq<char>, RuleSetModel)>::empty());
        }
        None
    }

    /// Whether the path is ignored by the repository's ignore files taken
    /// together: walking up from the path's own directory to the root, the
    /// nearest file with an opinion decides; with no opinion anywhere the
    /// path is not ignored.
    pub fn is_ignored(&self, path: &str, is_dir: bool) -> (r: bool)
        ensures
            r == repo_ignored(self@, path@, is_dir),
    {
        let abs = absolutize(self.root.as_str(), path);
        let mut dir: String = parent_of(abs.as_str());
        let ghost start = parent_dir(abs@);
        while dir.unicode_len() > 0 && is_within_dir(dir.as_str(), self.root.as_str())
            invariant
                abs@ == absolutized(self@.root, path@),
                start == parent_dir(abs@),
                hierarchy_verdict(self@.files, self@.root, dir@, abs@, is_dir)
                    == hierarchy_verdict(self@.files, self@.root, start, abs@, is_dir),
            decreases dir@.len(),
        {
            match self.find_file(&dir) {
                Some(file) => {
                    let v = file.is_ignored_or_negated(abs.as_str(), is_dir);
                    if v != IgnoreResult::Undefined {
                        return v == IgnoreResult::Ignored;
                    }
                },
                None => {},
            }
            proof {
                lemma_parent_dir_shrinks(dir@);
            }
            dir = parent_of(dir.as_str());
        }
        false
    }
}

/// Law: the nearest file wins. When the ignore file in a directory at or
/// under the root has a definite verdict on a path, the hierarchy walk
/// started there answers with exactly that verdict — whatever any ancestor's
/// rules would have said.
pub proof fn lemma_nearest_file_wins(
    files: Seq<(Seq<char>, RuleSetModel)>,
    root: Seq<char>,
    dir: Seq<char>,
    path: Seq<char>,
    is_dir: bool,
    m: RuleSetModel,
)
    requires
        dir.len() > 0,
        is_within(dir, root),
        lookup(files, dir) == Some(m),
        set_verdict(m, path, is_dir) != IgnoreResult::Undefined,
    ensures
        hierarchy_verdict(files, root, dir, path, is_dir) == set_verdict(m, path, is_dir),
{
}

} // verus!
