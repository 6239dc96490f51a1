//! The boundary to the `glob` crate, which compiles and runs the glob
//! patterns that ignore rules are built from.

use vstd::prelude::*;

verus! {

#[verifier::external_type_specification]
#[verifier::external_body]
pub struct ExGlobPattern(glob::Pattern);

#[verifier::external_type_specification]
#[verifier::external_body]
pub struct ExGlobPatternError(glob::PatternError);

/// The text a compiled `glob::Pattern` was built from (what `as_str` returns).
pub uninterp spec fn glob_text(p: glob::Pattern) -> Seq<char>;

/// Whether `glob::Pattern::new` accepts a text as a syntactically valid glob.
pub uninterp spec fn glob_ok(pattern: Seq<char>) -> bool;

/// Whether a compiled glob with the given source text matches a candidate
/// string, compared case-insensitively, with no literal leading dot required,
/// and with `/` required to be matched literally exactly when `require_sep`.
pub uninterp spec fn glob_match(pattern: Seq<char>, candidate: Seq<char>, require_sep: bool) -> bool;

/// Relies on `glob::Pattern::new`: whether it returns `Ok` depends on the
/// pattern text alone (its parser reads nothing else), and the compiled value
/// keeps the text it was built from, as `glob::Pattern::as_str` shows.
#[verifier::external_body]
pub(crate) fn compile_glob(text: &str) -> (r: Result<glob::Pattern, glob::PatternError>)
    ensures
        r is Ok <==> glob_ok(text@),
        r matches Ok(p) ==> glob_text(p) == text@,
{
    glob::Pattern::new(text)
}

/// Relies on `glob::Pattern::matches_with`: its result is a function of the
/// pattern's source text, the candidate string and the options alone. The
/// options other than `require_literal_separator` are fixed here as the
/// `glob_match` name assumes: case-insensitive, no literal leading dot.
#[verifier::external_body]
pub(crate) fn matches_glob(p: &glob::Pattern, candidate: &str, require_sep: bool) -> (r: bool)
    ensures
        r == glob_match(glob_text(*p), candidate@, require_sep),
{
    let options = glob::MatchOptions {
        case_sensitive: false,
        require_literal_separator: require_sep,
        require_literal_leading_dot: false,
    };
    p.matches_with(candidate, options)
}

} // verus!
