//! Glob patterns, compiled and matched by the `globset` crate.

use vstd::prelude::*;

use crate::text::string_views;

verus! {

/// Whether `globset` accepts `pattern` as a glob (`Glob::new` succeeds).
pub uninterp spec fn glob_valid(pattern: Seq<char>) -> bool;

/// Whether the glob `pattern` matches `path`, as a `GlobSet` holding it
/// matches (`GlobSet::is_match` is true when any of its globs matches).
pub uninterp spec fn glob_match(pattern: Seq<char>, path: Seq<char>) -> bool;

/// Whether `GlobSet::new` builds a set from the globs of these valid
/// patterns (it fails when the compiled matcher would exceed the crate's
/// size limit).
pub uninterp spec fn glob_set_builds(patterns: Seq<Seq<char>>) -> bool;

/// Some pattern of `patterns` matches `path`.
pub open spec fn any_glob_matches(patterns: Seq<Seq<char>>, path: Seq<char>) -> bool {
    exists|i: int| 0 <= i < patterns.len() && glob_match(#[trigger] patterns[i], path)
}

/// The error `globset` reports for a pattern it rejects.
#[verifier::external_type_specification]
#[verifier::external_body]
pub struct ExGlobError(globset::Error);

/// Trusted: wraps `globset::Glob::new`, keeping only whether it
/// succeeded and its error. States that the result is `Ok` exactly when
/// the pattern is a valid glob; which patterns are valid is left to the
/// name `glob_valid`, and nothing is stated of the error's content.
#[verifier::external_body]
pub(crate) fn glob_parse(pattern: &str) -> (r: Result<(), globset::Error>)
    ensures
        r is Ok <==> glob_valid(pattern@),
{
    match globset::Glob::new(pattern) {
        Ok(_) => Ok(()),
        Err(e) => Err(e),
    }
}

/// Trusted: wraps `GlobSet::new` over the globs `Glob::new` makes of the
/// patterns (all valid), keeping only whether the set builds and its
/// error. States that the result is `Ok` exactly when the name
/// `glob_set_builds` holds of the patterns; nothing is stated of the
/// error's content.
#[verifier::external_body]
pub(crate) fn glob_set_check(patterns: &[String]) -> (r: Result<(), globset::Error>)
    requires
        forall|i: int| 0 <= i < patterns@.len() ==> glob_valid(#[trigger] patterns@[i]@),
    ensures
        r is Ok <==> glob_set_builds(string_views(patterns@)),
{
    let globs: Result<Vec<globset::Glob>, globset::Error> =
        patterns.iter().map(|p| globset::Glob::new(p)).collect();
    match globs {
        Ok(gs) => globset::GlobSet::new(gs).map(|_| ()),
        Err(e) => Err(e),
    }
}

/// Trusted: wraps `GlobSet::is_match` on the set `GlobSet::new` builds
/// from the globs of the patterns (all valid, and the set builds, so no
/// call here can fail or panic). The answer is true exactly when some
/// pattern matches the path, each match being the name `glob_match`;
/// the matching rules themselves are not stated.
#[verifier::external_body]
pub(crate) fn glob_set_is_match(patterns: &[String], path: &str) -> (r: bool)
    requires
        forall|i: int| 0 <= i < patterns@.len() ==> glob_valid(#[trigger] patterns@[i]@),
        glob_set_builds(string_views(patterns@)),
    ensures
        r == (exists|i: int|
            0 <= i < patterns@.len() && glob_match(#[trigger] string_views(patterns@)[i], path@)),
{
    let globs: Result<Vec<globset::Glob>, globset::Error> =
        patterns.iter().map(|p| globset::Glob::new(p)).collect();
    match globs.and_then(globset::GlobSet::new) {
        Ok(set) => set.is_match(path),
        Err(_) => false,
    }
}

} // verus!
