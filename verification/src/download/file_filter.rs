//! Which files of a repository are downloaded: glob patterns that select
//! files and glob patterns that reject them.

use vstd::prelude::*;
use crate::config::Config;
use crate::types::FileInfo;

verus! {

/// Whether `glob::Pattern::new` accepts `pattern`.
pub uninterp spec fn glob_pattern_valid(pattern: Seq<char>) -> bool;

/// Whether the glob `pattern`, compiled by `glob::Pattern::new`, matches `name`
/// under `Pattern::matches` (default options: case-sensitive, `*` also
/// crossing path separators; which characters are path separators is fixed
/// by the platform the crate is built for).
pub uninterp spec fn glob_pattern_matches(pattern: Seq<char>, name: Seq<char>) -> bool;

/// `glob::Pattern::new(pattern)` and, when it succeeds, `Pattern::matches(name)`.
/// `None` when the pattern is refused; otherwise whether it matches. Both
/// results are named, not stated: glob matching is the crate's algorithm.
#[verifier::external_body]
fn glob_match(pattern: &str, name: &str) -> (r: Option<bool>)
    ensures
        r is Some <==> glob_pattern_valid(pattern@),
        r matches Some(b) ==> b == glob_pattern_matches(pattern@, name@),
{
    match glob::Pattern::new(pattern) {
        Ok(p) => Some(p.matches(name)),
        Err(_) => None,
    }
}

/// `pattern` is a valid glob that matches `name`.
pub open spec fn glob_hit(pattern: Seq<char>, name: Seq<char>) -> bool {
    glob_pattern_valid(pattern) && glob_pattern_matches(pattern, name)
}

/// Some valid glob among `patterns` matches `name`.
pub open spec fn any_glob_hit(patterns: Seq<Seq<char>>, name: Seq<char>) -> bool {
    exists|i: int| 0 <= i < patterns.len() && glob_hit(#[trigger] patterns[i], name)
}

/// A file is downloaded when there are no selecting patterns or one of them
/// matches it, and none of the rejecting patterns matches it. Patterns that are
/// not valid globs match nothing.
pub open spec fn should_download_spec(
    included: Seq<Seq<char>>,
    excluded: Seq<Seq<char>>,
    name: Seq<char>,
) -> bool {
    (included.len() == 0 || any_glob_hit(included, name)) && !any_glob_hit(excluded, name)
}

/// Whether some pattern of `patterns` is a valid glob matching `name`.
pub fn matches_any(patterns: &Vec<String>, name: &str) -> (r: bool)
    ensures
        r == any_glob_hit(crate::text::views(patterns@), name@),
        r == exists|i: int|
            0 <= i < patterns@.len() && glob_pattern_valid(#[trigger] patterns@[i]@)
                && glob_pattern_matches(patterns@[i]@, name@),
{
    let ghost pats = crate::text::views(patterns@);
    let mut i: usize = 0;
    while i < patterns.len()
        invariant
            pats == crate::text::views(patterns@),
            0 <= i <= patterns@.len(),
            forall|j: int| 0 <= j < i ==> !glob_hit(#[trigger] pats[j], name@),
        decreases patterns@.len() - i,
    {
        assert(pats[i as int] == patterns@[i as int]@);
        if let Some(true) = glob_match(patterns[i].as_str(), name) {
            assert(glob_pattern_valid(patterns@[i as int]@));
            return true;
        }
        i += 1;
    }
    assert forall|j: int| 0 <= j < patterns@.len() implies !(glob_pattern_valid(
        #[trigger] patterns@[j]@,
    ) && glob_pattern_matches(patterns@[j]@, name@)) by {
        assert(pats[j] == patterns@[j]@);
    }
    false
}

/// Whether `file` is to be downloaded under the patterns of `config`.
pub fn should_download(config: &Config, file: &FileInfo) -> (r: bool)
    ensures
        r == should_download_spec(
            config@.include_patterns,
            config@.exclude_patterns,
            file.rfilename@,
        ),
{
    if config.include_patterns.len() == 0 && config.exclude_patterns.len() == 0 {
        return true;
    }
    let name = file.rfilename.as_str();
    let should_include = config.include_patterns.len() == 0 || matches_any(
        &config.include_patterns,
        name,
    );
    if should_include && matches_any(&config.exclude_patterns, name) {
        return false;
    }
    should_include
}

/// Without patterns every file is downloaded; a file matched by a rejecting
/// pattern is never downloaded; and when there are selecting patterns, every
/// downloaded file is matched by one of them.
pub proof fn lemma_filter_laws(included: Seq<Seq<char>>, excluded: Seq<Seq<char>>, name: Seq<char>)
    ensures
        included.len() == 0 && excluded.len() == 0 ==> should_download_spec(included, excluded, name),
        any_glob_hit(excluded, name) ==> !should_download_spec(included, excluded, name),
        included.len() > 0 && should_download_spec(included, excluded, name) ==> any_glob_hit(
            included,
            name,
        ),
{
}

/// Adding a rejecting pattern never makes more files downloaded, and adding a
/// selecting pattern to a non-empty list never makes fewer.
pub proof fn lemma_patterns_monotone(
    included: Seq<Seq<char>>,
    excluded: Seq<Seq<char>>,
    extra: Seq<char>,
    name: Seq<char>,
)
    ensures
        should_download_spec(included, excluded.push(extra), name) ==> should_download_spec(
            included,
            excluded,
            name,
        ),
        included.len() > 0 && should_download_spec(included, excluded, name) ==> should_download_spec(
            included.push(extra),
            excluded,
            name,
        ),
{
    if any_glob_hit(excluded, name) {
        let i = choose|i: int| 0 <= i < excluded.len() && glob_hit(#[trigger] excluded[i], name);
        assert(excluded.push(extra)[i] == excluded[i]);
    }
    if included.len() > 0 && any_glob_hit(included, name) {
        let i = choose|i: int| 0 <= i < included.len() && glob_hit(#[trigger] included[i], name);
        assert(included.push(extra)[i] == included[i]);
    }
}

/// Patterns are matched against the whole path of a file in the repository,
/// folders included: a file is downloaded exactly when there are no selecting
/// patterns or a valid one matches its full path, and no valid rejecting
/// pattern matches its full path.
pub proof fn lemma_patterns_match_full_path(
    included: Seq<Seq<char>>,
    excluded: Seq<Seq<char>>,
    path: Seq<char>,
)
    ensures
        should_download_spec(included, excluded, path) == ((included.len() == 0 || exists|i: int|
            0 <= i < included.len() && glob_pattern_valid(#[trigger] included[i])
                && glob_pattern_matches(included[i], path)) && !exists|j: int|
            0 <= j < excluded.len() && glob_pattern_valid(#[trigger] excluded[j])
                && glob_pattern_matches(excluded[j], path)),
{
    if exists|i: int|
        0 <= i < included.len() && glob_pattern_valid(#[trigger] included[i])
            && glob_pattern_matches(included[i], path) {
        let i = choose|i: int|
            0 <= i < included.len() && glob_pattern_valid(#[trigger] included[i])
                && glob_pattern_matches(included[i], path);
        assert(glob_hit(included[i], path));
    }
    if exists|j: int|
        0 <= j < excluded.len() && glob_pattern_valid(#[trigger] excluded[j])
            && glob_pattern_matches(excluded[j], path) {
        let j = choose|j: int|
            0 <= j < excluded.len() && glob_pattern_valid(#[trigger] excluded[j])
                && glob_pattern_matches(excluded[j], path);
        assert(glob_hit(excluded[j], path));
    }
}

} // verus!
