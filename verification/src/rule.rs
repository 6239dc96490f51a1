//! Compiling one raw ignore-file line into a structured rule.

use vstd::prelude::*;
use vstd::string::*;

use crate::error::Error;
use crate::globs::compile_glob;
use crate::globs::glob_match;
use crate::globs::glob_ok;
use crate::globs::glob_text;
use crate::globs::matches_glob;
use crate::text::trim_start;
use crate::text::trim_start_spec;
use crate::text::contains_char;
use crate::text::drop_first_char;
use crate::text::drop_last_char;
use crate::text::first_char_is;
use crate::text::last_char_is;

verus! {

/// What a compiled rule means: the glob text handed to the matcher and the
/// three flags read off the raw line.
pub ghost struct RuleModel {
    /// The absolute matcher text: the cleaned pattern with the root prepended
    /// when anchored, or a leading `*` when unanchored.
    pub text: Seq<char>,
    pub anchored: bool,
    pub negation: bool,
    pub directory: bool,
}

/// A raw line ends with `/`: the rule only matches directories.
pub open spec fn line_directory(line: Seq<char>) -> bool {
    line.len() > 0 && line.last() == '/'
}

/// The raw line with a single trailing `/` stripped.
pub open spec fn dir_stripped(line: Seq<char>) -> Seq<char> {
    if line_directory(line) {
        line.drop_last()
    } else {
        line
    }
}

/// A `/` anywhere but as the stripped trailing one anchors the rule to the
/// ignore file's own directory.
pub open spec fn line_anchored(line: Seq<char>) -> bool {
    dir_stripped(line).contains('/')
}

/// A leading `!` negates the rule.
pub open spec fn line_negation(line: Seq<char>) -> bool {
    dir_stripped(line).len() > 0 && dir_stripped(line).first() == '!'
}

/// The pattern text proper: trailing `/` stripped, a leading `!` and the
/// whitespace after it removed.
pub open spec fn line_cleaned(line: Seq<char>) -> Seq<char> {
    if line_negation(line) {
        trim_start_spec(dir_stripped(line).drop_first())
    } else {
        dir_stripped(line)
    }
}

/// The root directory with a single trailing `/` stripped.
pub open spec fn root_trimmed(root: Seq<char>) -> Seq<char> {
    if root.len() > 0 && root.last() == '/' {
        root.drop_last()
    } else {
        root
    }
}

/// The text handed to the glob compiler: anchored rules get the root
/// prepended, unanchored ones a leading `*` unless they already start with
/// one.
pub open spec fn matcher_text(line: Seq<char>, root: Seq<char>) -> Seq<char> {
    if line_anchored(line) {
        root_trimmed(root) + line_cleaned(line)
    } else if !(line_cleaned(line).len() > 0 && line_cleaned(line).first() == '*') {
        seq!['*'] + line_cleaned(line)
    } else {
        line_cleaned(line)
    }
}

/// A raw line compiles when something is left of the pattern after stripping
/// and the resulting glob text is syntactically valid.
pub open spec fn line_compiles(line: Seq<char>, root: Seq<char>) -> bool {
    line_cleaned(line).len() > 0 && glob_ok(matcher_text(line, root))
}

/// The rule a raw line compiles to.
pub open spec fn rule_of_line(line: Seq<char>, root: Seq<char>) -> RuleModel {
    RuleModel {
        text: matcher_text(line, root),
        anchored: line_anchored(line),
        negation: line_negation(line),
        directory: line_directory(line),
    }
}

/// Whether a rule counts a candidate as excluded, negation folded in: a
/// negated rule reports `true` when its glob does *not* match. A
/// directory-only rule against a non-directory reports the rule's own
/// negation flag.
pub open spec fn rule_excluded(r: RuleModel, path: Seq<char>, is_dir: bool) -> bool {
    if r.directory && !is_dir {
        r.negation
    } else {
        r.negation != glob_match(r.text, path, r.anchored)
    }
}

/// Whether a rule has anything to say about a candidate: its glob matches,
/// or — the deliberate edge the matcher preserves — it is directory-only,
/// the candidate is not a directory, and the rule is negated.
pub open spec fn rule_relevant(r: RuleModel, path: Seq<char>, is_dir: bool) -> bool {
    if r.directory && !is_dir {
        r.negation
    } else {
        glob_match(r.text, path, r.anchored)
    }
}

/// A pattern as found in a `.gitignore` file.
pub struct Rule {
    /// The compiled glob: the raw line with negation and trailing slash
    /// removed, and the root prepended if anchored.
    pub pattern: glob::Pattern,
    /// Whether the root was prepended, so matches must sit inside the root
    /// directory.
    pub anchored: bool,
    /// Whether a match negates (re-includes) what earlier rules excluded.
    pub negation: bool,
    /// Whether the rule only matches directories.
    pub directory: bool,
    /// The directory the rule is anchored against.
    pub root: String,
}

impl View for Rule {
    type V = RuleModel;

    open spec fn view(&self) -> RuleModel {
        RuleModel {
            text: glob_text(self.pattern),
            anchored: self.anchored,
            negation: self.negation,
            directory: self.directory,
        }
    }
}

impl Rule {
    /// Compile the raw line of an ignore file into a rule, resolved against
    /// `root` (the directory of the ignore file the line came from).
    ///
    /// Fails exactly when nothing is left of the pattern after stripping, or
    /// the glob text is invalid; the error carries the offending line.
    pub fn new(raw_pattern: &str, root: &str) -> (r: Result<Rule, Error>)
        ensures
            r is Ok <==> line_compiles(raw_pattern@, root@),
            r matches Ok(p) ==> p@ == rule_of_line(raw_pattern@, root@) && p.root@ == root@,
            r matches Err(e) ==> (e matches Error::Pattern { line } && line@ == raw_pattern@),
    {
        let directory = last_char_is(raw_pattern, '/');
        let body = if directory {
            drop_last_char(raw_pattern)
        } else {
            raw_pattern
        };
        let anchored = contains_char(body, '/');
        let negation = first_char_is(body, '!');
        let cleaned = if negation {
            trim_start(drop_first_char(body))
        } else {
            body
        };
        if cleaned.unicode_len() == 0 {
            return Err(Error::Pattern { line: raw_pattern.to_owned() });
        }
        let abs: String = if anchored {
            let rt = if last_char_is(root, '/') {
                drop_last_char(root)
            } else {
                root
            };
            rt.to_owned().concat(cleaned)
        } else if !first_char_is(cleaned, '*') {
            proof {
                reveal_strlit("*");
                assert(("*")@ =~= seq!['*']);
            }
            String::from_str("*").concat(cleaned)
        } else {
            cleaned.to_owned()
        };
        assert(abs@ == matcher_text(raw_pattern@, root@));
        match compile_glob(abs.as_str()) {
            Ok(pattern) => Ok(
                Rule { pattern, anchored, negation, directory, root: root.to_owned() },
            ),
            Err(_) => Err(Error::Pattern { line: raw_pattern.to_owned() }),
        }
    }

    /// Whether the given path is matched by this pattern and would hence be
    /// excluded, with negation folded in: for a negated rule the answer is
    /// flipped. `directory` says whether the path names a directory.
    ///
    /// The path must already be in the absolute form the rule's root was
    /// resolved against.
    pub fn is_excluded(&self, path: &str, directory: bool) -> (r: bool)
        ensures
            r == rule_excluded(self@, path@, directory),
    {
        if self.directory && !directory {
            return self.negation;
        }
        self.negation != matches_glob(&self.pattern, path, self.anchored)
    }

    /// Whether this rule has anything to say about the path: its raw match
    /// result, negation not folded in.
    pub fn is_match(&self, path: &str, directory: bool) -> (r: bool)
        ensures
            r == rule_relevant(self@, path@, directory),
    {
        if self.directory && !directory {
            self.negation
        } else {
            matches_glob(&self.pattern, path, self.anchored)
        }
    }
}

} // verus!
