//! An ordered set of rules built from one ignore file's lines, and its
//! evaluation of a candidate path.

use vstd::prelude::*;
use vstd::string::*;

use crate::globs::glob_match;
use crate::rule::Rule;
use crate::rule::RuleModel;
use crate::rule::line_compiles;
use crate::rule::rule_excluded;
use crate::rule::rule_of_line;
use crate::rule::rule_relevant;
use crate::text::trim_start;
use crate::text::trim_start_spec;
use crate::text::first_char_is;
use crate::text::last_char_is;

verus! {

/// The three-valued outcome of holding one ignore file against a path.
#[derive(Clone, Copy, Debug, PartialEq, Eq, Structural)]
pub enum IgnoreResult {
    /// Some rule excludes the path.
    Ignored,
    /// The file's rules speak about the path but leave it not excluded — in
    /// particular when a negation re-includes it.
    Included,
    /// No rule in the file has anything to say about the path; an ancestor's
    /// ignore file must decide.
    Undefined,
}

/// What a rule set means: the directory its rules are resolved against and
/// the rules in file order.
pub ghost struct RuleSetModel {
    pub root: Seq<char>,
    pub rules: Seq<RuleModel>,
}

/// `root` and `path` joined with a single `/` between them.
pub open spec fn joined(root: Seq<char>, path: Seq<char>) -> Seq<char> {
    if root.len() > 0 && root.last() == '/' {
        root + path
    } else {
        root + seq!['/'] + path
    }
}

/// The absolute form of a candidate path: joined to `root` unless it already
/// starts at a root of its own.
pub open spec fn absolutized(root: Seq<char>, path: Seq<char>) -> Seq<char> {
    if path.len() > 0 && path.first() == '/' {
        path
    } else {
        joined(root, path)
    }
}

/// The absolute form of `path` under `root`, as a fresh string.
pub fn absolutize(root: &str, path: &str) -> (r: String)
    ensures
        r@ == absolutized(root@, path@),
{
    if first_char_is(path, '/') {
        path.to_owned()
    } else if last_char_is(root, '/') {
        root.to_owned().concat(path)
    } else {
        proof {
            reveal_strlit("/");
            assert(("/")@ =~= seq!['/']);
        }
        root.to_owned().concat("/").concat(path)
    }
}

/// The fold over a file's rules, in file order, that decides exclusion. The
/// accumulator starts not-excluded; a plain rule that speaks up sets it, a
/// negation that matches clears it and can never set it.
pub open spec fn rules_excluded(rules: Seq<RuleModel>, path: Seq<char>, is_dir: bool) -> bool
    decreases rules.len(),
{
    if rules.len() == 0 {
        false
    } else {
        let prev = rules_excluded(rules.drop_last(), path, is_dir);
        let r = rules.last();
        if r.negation {
            rule_excluded(r, path, is_dir) && prev
        } else {
            prev || rule_excluded(r, path, is_dir)
        }
    }
}

/// Whether any rule of the file has anything to say about the path.
pub open spec fn rules_relevant(rules: Seq<RuleModel>, path: Seq<char>, is_dir: bool) -> bool
    decreases rules.len(),
{
    if rules.len() == 0 {
        false
    } else {
        rules_relevant(rules.drop_last(), path, is_dir) || rule_relevant(
            rules.last(),
            path,
            is_dir,
        )
    }
}

/// The three-valued verdict of one file's rules: excluded by the fold,
/// spoken about but left included, or nothing to say at all.
pub open spec fn rules_verdict(rules: Seq<RuleModel>, path: Seq<char>, is_dir: bool) -> IgnoreResult {
    if rules_excluded(rules, path, is_dir) {
        IgnoreResult::Ignored
    } else if rules_relevant(rules, path, is_dir) {
        IgnoreResult::Included
    } else {
        IgnoreResult::Undefined
    }
}

/// Exclusion by a whole rule set: the candidate is absolutized against the
/// set's root first.
pub open spec fn set_excluded(m: RuleSetModel, path: Seq<char>, is_dir: bool) -> bool {
    rules_excluded(m.rules, absolutized(m.root, path), is_dir)
}

/// The three-valued verdict of a whole rule set.
pub open spec fn set_verdict(m: RuleSetModel, path: Seq<char>, is_dir: bool) -> IgnoreResult {
    rules_verdict(m.rules, absolutized(m.root, path), is_dir)
}

/// A line that never reaches the rule compiler: blank, or a comment once its
/// leading whitespace is dropped.
pub open spec fn line_skipped(line: Seq<char>) -> bool {
    trim_start_spec(line).len() == 0 || trim_start_spec(line).first() == '#'
}

/// The rules an ignore file's lines compile to, in file order: skipped lines
/// and lines that fail to compile are dropped, the rest kept.
pub open spec fn rules_of_lines(lines: Seq<Seq<char>>, root: Seq<char>) -> Seq<RuleModel>
    decreases lines.len(),
{
    if lines.len() == 0 {
        Seq::empty()
    } else {
        let prev = rules_of_lines(lines.drop_last(), root);
        let l = lines.last();
        if !line_skipped(l) && line_compiles(l, root) {
            prev.push(rule_of_line(l, root))
        } else {
            prev
        }
    }
}

/// The views of a vector of lines.
pub open spec fn lines_views(lines: Seq<String>) -> Seq<Seq<char>> {
    lines.map_values(|l: String| l@)
}

/// The ordered rules of one ignore file, with the directory they are
/// resolved against.
pub struct RuleSet {
    /// The directory anchored patterns and relative candidates are resolved
    /// against: the directory holding the ignore file.
    pub root: String,
    /// The compiled rules, in file order; order decides how negations fold.
    pub rules: Vec<Rule>,
}

impl View for RuleSet {
    type V = RuleSetModel;

    open spec fn view(&self) -> RuleSetModel {
        RuleSetModel { root: self.root@, rules: self.rules@.map_values(|p: Rule| p@) }
    }
}

impl RuleSet {
    /// Build the rule set of one ignore file from its raw lines. Blank and
    /// comment lines are skipped; a line that fails to compile is dropped and
    /// the rest of the file still counts.
    pub fn new(root: &str, lines: &Vec<String>) -> (r: RuleSet)
        ensures
            r@.root == root@,
            r@.rules == rules_of_lines(lines_views(lines@), root@),
    {
        let mut rules: Vec<Rule> = Vec::new();
        let mut i: usize = 0;
        while i < lines.len()
            invariant
                i <= lines.len(),
                rules@.map_values(|p: Rule| p@) == rules_of_lines(
                    lines_views(lines@).take(i as int),
                    root@,
                ),
            decreases lines.len() - i,
        {
            let ghost prev = rules@;
            let line: &String = &lines[i];
            let t = trim_start(line.as_str());
            let skip = t.unicode_len() == 0 || t.get_char(0) == '#';
            if !skip {
                match Rule::new(line.as_str(), root) {
                    Ok(p) => rules.push(p),
                    Err(_) => {},
                }
            }
            proof {
                let lv = lines_views(lines@);
                assert(lv.take(i + 1).drop_last() =~= lv.take(i as int));
                assert(lv.take(i + 1).last() == lines@[i as int]@);
                if rules@ != prev {
                    assert(rules@.map_values(|p: Rule| p@) =~= prev.map_values(|p: Rule| p@).push(
                        rules@.last()@,
                    ));
                }
            }
            i = i + 1;
        }
        proof {
            assert(lines_views(lines@).take(lines@.len() as int) =~= lines_views(lines@));
        }
        RuleSet { root: root.to_owned(), rules }
    }

    /// Whether the path is excluded by this file's rules alone, later rules
    /// overriding earlier ones via the fold. A relative path is resolved
    /// against the set's root first.
    pub fn is_ignored(&self, path: &str, is_dir: bool) -> (r: bool)
        ensures
            r == set_excluded(self@, path@, is_dir),
    {
        let abs = absolutize(self.root.as_str(), path);
        let n = self.rules.len();
        let mut excluded = false;
        let mut i: usize = 0;
        while i < n
            invariant
                i <= n,
                n == self.rules.len(),
                abs@ == absolutized(self@.root, path@),
                excluded == rules_excluded(self@.rules.take(i as int), abs@, is_dir),
            decreases n - i,
        {
            let p = &self.rules[i];
            if p.negation {
                // A negation with nothing excluded yet can change nothing.
                if excluded {
                    let m = p.is_excluded(abs.as_str(), is_dir);
                    excluded = m && excluded;
                }
            } else {
                let m = p.is_excluded(abs.as_str(), is_dir);
                excluded = excluded || m;
            }
            proof {
                assert(self@.rules.take(i + 1).drop_last() =~= self@.rules.take(i as int));
                assert(self@.rules.take(i + 1).last() == self@.rules[i as int]);
            }
            i = i + 1;
        }
        proof {
            assert(self@.rules.take(n as int) =~= self@.rules);
        }
        excluded
    }

    /// The three-valued verdict of this file for the path: `Ignored` when the
    /// fold excludes it, `Included` when some rule spoke but the path stays
    /// in, `Undefined` when no rule had anything to say.
    pub fn is_ignored_or_negated(&self, path: &str, is_dir: bool) -> (r: IgnoreResult)
        ensures
            r == set_verdict(self@, path@, is_dir),
    {
        let abs = absolutize(self.root.as_str(), path);
        let n = self.rules.len();
        let mut excluded = false;
        let mut relevant = false;
        let mut i: usize = 0;
        while i < n
            invariant
                i <= n,
                n == self.rules.len(),
                abs@ == absolutized(self@.root, path@),
                excluded == rules_excluded(self@.rules.take(i as int), abs@, is_dir),
                relevant == rules_relevant(self@.rules.take(i as int), abs@, is_dir),
            decreases n - i,
        {
            let p = &self.rules[i];
            let m = p.is_match(abs.as_str(), is_dir);
            relevant = relevant || m;
            let e = if p.directory && !is_dir {
                p.negation
            } else if p.negation {
                !m
            } else {
                m
            };
            assert(e == rule_excluded(self@.rules[i as int], abs@, is_dir));
            if p.negation {
                excluded = e && excluded;
            } else {
                excluded = excluded || e;
            }
            proof {
                assert(self@.rules.take(i + 1).drop_last() =~= self@.rules.take(i as int));
                assert(self@.rules.take(i + 1).last() == self@.rules[i as int]);
            }
            i = i + 1;
        }
        proof {
            assert(self@.rules.take(n as int) =~= self@.rules);
        }
        if excluded {
            IgnoreResult::Ignored
        } else if relevant {
            IgnoreResult::Included
        } else {
            IgnoreResult::Undefined
        }
    }
}

/// Law: a set holding a single non-negated rule excludes exactly the paths
/// the rule speaks about; when the rule is not directory-only (or the
/// candidate is a directory), that is exactly its glob match.
pub proof fn lemma_single_rule(r: RuleModel, path: Seq<char>, is_dir: bool)
    requires
        !r.negation,
    ensures
        rules_excluded(seq![r], path, is_dir) == rule_relevant(r, path, is_dir),
        !(r.directory && !is_dir) ==> rules_excluded(seq![r], path, is_dir) == glob_match(
            r.text,
            path,
            r.anchored,
        ),
{
    reveal_with_fuel(rules_excluded, 2);
    assert(seq![r].drop_last() =~= Seq::<RuleModel>::empty());
    assert(rules_excluded(Seq::<RuleModel>::empty(), path, is_dir) == false);
    assert(seq![r].last() == r);
}

/// Law: a duplicated line is idempotent — a file that ends with the same
/// rule twice gives every path the verdict the file with it once gives.
pub proof fn lemma_duplicate_rule(
    rules: Seq<RuleModel>,
    r: RuleModel,
    path: Seq<char>,
    is_dir: bool,
)
    ensures
        rules_verdict(rules.push(r).push(r), path, is_dir) == rules_verdict(
            rules.push(r),
            path,
            is_dir,
        ),
{
    assert(rules.push(r).push(r).drop_last() =~= rules.push(r));
    assert(rules.push(r).drop_last() =~= rules);
}

/// Law: a negation that stands before anything that could have excluded the
/// path cannot change exclusion — the fold only lets a negation clear an
/// exclusion already set by an earlier rule.
pub proof fn lemma_leading_negation(
    r: RuleModel,
    rules: Seq<RuleModel>,
    path: Seq<char>,
    is_dir: bool,
)
    requires
        r.negation,
    ensures
        rules_excluded(seq![r] + rules, path, is_dir) == rules_excluded(rules, path, is_dir),
    decreases rules.len(),
{
    reveal_with_fuel(rules_excluded, 2);
    if rules.len() == 0 {
        assert(seq![r] + rules =~= seq![r]);
        assert(seq![r].drop_last() =~= Seq::<RuleModel>::empty());
        assert(rules_excluded(Seq::<RuleModel>::empty(), path, is_dir) == false);
        assert((seq![r] + rules).last() == r);
    } else {
        assert((seq![r] + rules).drop_last() =~= seq![r] + rules.drop_last());
        lemma_leading_negation(r, rules.drop_last(), path, is_dir);
        assert((seq![r] + rules).last() == rules.last());
    }
}

/// Law: compiling is deterministic, and a rule's flags are exactly those read
/// off the original line — so two rules compiled from the same line and root
/// give the same answer for every path.
pub proof fn lemma_compile_round_trip(
    a: RuleModel,
    b: RuleModel,
    line: Seq<char>,
    root: Seq<char>,
    path: Seq<char>,
    is_dir: bool,
)
    requires
        a == rule_of_line(line, root),
        b == rule_of_line(line, root),
    ensures
        a.directory == crate::rule::line_directory(line),
        a.negation == crate::rule::line_negation(line),
        a.anchored == crate::rule::line_anchored(line),
        rule_excluded(a, path, is_dir) == rule_excluded(b, path, is_dir),
        rule_relevant(a, path, is_dir) == rule_relevant(b, path, is_dir),
{
}

/// Law: an `Ignored` verdict never comes out of thin air — when the fold
/// excludes a path, some rule of the file actually spoke about it.
pub proof fn lemma_excluded_implies_relevant(rules: Seq<RuleModel>, path: Seq<char>, is_dir: bool)
    ensures
        rules_excluded(rules, path, is_dir) ==> rules_relevant(rules, path, is_dir),
    decreases rules.len(),
{
    if rules.len() > 0 {
        lemma_excluded_implies_relevant(rules.drop_last(), path, is_dir);
    }
}

} // verus!
