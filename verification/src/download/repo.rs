//! Finding a repository on the server: first as a model, then as a dataset,
//! and the files it lists with their sizes.

use vstd::prelude::*;
use crate::types::{FileInfo, RepoInfo};
use crate::text::{parse_u64, parse_u64_spec, opt_view, views};
use crate::text::lemma_filter_step;

verus! {

/// The two kinds of repository.
#[derive(Debug, Clone, Copy, PartialEq, Eq, Structural)]
pub enum RepoKind {
    Model,
    Dataset,
}

/// The path segment of a kind: `models` or `datasets`.
pub open spec fn kind_segment(kind: RepoKind) -> Seq<char> {
    match kind {
        RepoKind::Model => "models"@,
        RepoKind::Dataset => "datasets"@,
    }
}

/// The address of the description of a repository:
/// `{endpoint}/api/{models|datasets}/{repo}`.
pub open spec fn api_url_spec(endpoint: Seq<char>, repo_id: Seq<char>, kind: RepoKind) -> Seq<char> {
    endpoint + "/api/"@ + kind_segment(kind) + "/"@ + repo_id
}

/// The page of a repository: `{endpoint}/{models|datasets}/{repo}`.
pub open spec fn page_url_spec(endpoint: Seq<char>, repo_id: Seq<char>, kind: RepoKind) -> Seq<char> {
    endpoint + "/"@ + kind_segment(kind) + "/"@ + repo_id
}

/// The address asked for the size of a file:
/// `{endpoint}/{models|datasets}/{repo}/resolve/main/{file}`.
pub open spec fn resolve_url_spec(
    endpoint: Seq<char>,
    repo_id: Seq<char>,
    rfilename: Seq<char>,
    kind: RepoKind,
) -> Seq<char> {
    page_url_spec(endpoint, repo_id, kind) + "/resolve/main/"@ + rfilename
}

/// The `Authorization` header for a token.
pub open spec fn bearer_spec(token: Seq<char>) -> Seq<char> {
    "Bearer "@ + token
}

fn push_kind(s: &mut String, kind: RepoKind)
    ensures
        final(s)@ == old(s)@ + kind_segment(kind),
{
    match kind {
        RepoKind::Model => s.append("models"),
        RepoKind::Dataset => s.append("datasets"),
    }
}

/// The address of the description of `repo_id` as a repository of `kind`.
pub fn api_url(endpoint: &str, repo_id: &str, kind: RepoKind) -> (r: String)
    ensures
        r@ == api_url_spec(endpoint@, repo_id@, kind),
{
    let mut u = String::from_str(endpoint);
    u.append("/api/");
    push_kind(&mut u, kind);
    u.append("/");
    u.append(repo_id);
    u
}

/// The page of `repo_id` as a repository of `kind`.
pub fn page_url(endpoint: &str, repo_id: &str, kind: RepoKind) -> (r: String)
    ensures
        r@ == page_url_spec(endpoint@, repo_id@, kind),
{
    let mut u = String::from_str(endpoint);
    u.append("/");
    push_kind(&mut u, kind);
    u.append("/");
    u.append(repo_id);
    u
}

/// The address asked for the size of `rfilename`.
pub fn resolve_url(endpoint: &str, repo_id: &str, rfilename: &str, kind: RepoKind) -> (r: String)
    ensures
        r@ == resolve_url_spec(endpoint@, repo_id@, rfilename@, kind),
{
    let mut u = page_url(endpoint, repo_id, kind);
    u.append("/resolve/main/");
    u.append(rfilename);
    u
}

/// The `Authorization` header for `token`.
pub fn bearer(token: &str) -> (r: String)
    ensures
        r@ == bearer_spec(token@),
{
    let mut h = String::from_str("Bearer ");
    h.append(token);
    h
}

/// Where a lookup of a repository stands.
#[derive(Debug, Clone, Copy, PartialEq, Eq, Structural)]
pub enum LookupState {
    /// Asking for the repository as a repository of this kind.
    Asking(RepoKind),
    /// Found as a repository of this kind.
    Found(RepoKind),
    /// Neither a model nor a dataset could be had.
    NotFound,
}

/// A lookup starts by asking for a model.
pub fn lookup_start() -> (r: LookupState)
    ensures
        r == LookupState::Asking(RepoKind::Model),
{
    LookupState::Asking(RepoKind::Model)
}

/// The state after the answer to the current question: a success finds the
/// repository; a failure for a model goes on with a dataset, and a failure
/// for a dataset ends the lookup.
pub open spec fn lookup_next_spec(state: LookupState, success: bool) -> LookupState {
    match state {
        LookupState::Asking(kind) => if success {
            LookupState::Found(kind)
        } else {
            match kind {
                RepoKind::Model => LookupState::Asking(RepoKind::Dataset),
                RepoKind::Dataset => LookupState::NotFound,
            }
        },
        _ => state,
    }
}

/// The state after the answer to the current question.
pub fn lookup_next(state: LookupState, success: bool) -> (r: LookupState)
    ensures
        r == lookup_next_spec(state, success),
{
    match state {
        LookupState::Asking(kind) => {
            if success {
                LookupState::Found(kind)
            } else {
                match kind {
                    RepoKind::Model => LookupState::Asking(RepoKind::Dataset),
                    RepoKind::Dataset => LookupState::NotFound,
                }
            }
        },
        _ => state,
    }
}

/// A lookup asks at most twice, a model first, and ends found or not found.
pub proof fn lemma_lookup_ends(a: bool, b: bool)
    ensures
        ({
            let s1 = lookup_next_spec(LookupState::Asking(RepoKind::Model), a);
            let s2 = lookup_next_spec(s1, b);
            &&& a ==> s1 == LookupState::Found(RepoKind::Model)
            &&& !a ==> s1 == LookupState::Asking(RepoKind::Dataset)
            &&& s2 is Found || s2 is NotFound
            &&& (s2 is NotFound <==> !a && !b)
        }),
{
}

/// The error when the repository is neither a model nor a dataset.
pub open spec fn not_found_message(repo_id: Seq<char>) -> Seq<char> {
    "Repository "@ + repo_id
        + " not found or unauthorized. Please check the repository ID and your access token if it's a private repository."@
}

/// The error when the repository is neither a model nor a dataset.
pub fn repo_not_found(repo_id: &str) -> (r: String)
    ensures
        r@ == not_found_message(repo_id@),
{
    let mut m = String::from_str("Repository ");
    m.append(repo_id);
    m.append(
        " not found or unauthorized. Please check the repository ID and your access token if it's a private repository.",
    );
    m
}

/// The description of a repository found as `kind`, with its files.
pub fn repo_info_for(endpoint: &str, repo_id: &str, kind: RepoKind, files: Vec<FileInfo>) -> (r:
    RepoInfo)
    ensures
        r.files == files,
        kind == RepoKind::Model ==> opt_view(r.model_endpoint) == Some(
            page_url_spec(endpoint@, repo_id@, kind),
        ) && r.dataset_endpoint is None,
        kind == RepoKind::Dataset ==> opt_view(r.dataset_endpoint) == Some(
            page_url_spec(endpoint@, repo_id@, kind),
        ) && r.model_endpoint is None,
{
    let page = page_url(endpoint, repo_id, kind);
    match kind {
        RepoKind::Model => RepoInfo { model_endpoint: Some(page), dataset_endpoint: None, files },
        RepoKind::Dataset => RepoInfo { model_endpoint: None, dataset_endpoint: Some(page), files },
    }
}

/// The error when a description lists no files.
pub open spec fn no_files_message() -> Seq<char> {
    "No files found in repository"@
}

/// The names listed in the `siblings` of a description: `None` when there is
/// no such list; one entry per sibling, `None` for a sibling without a textual
/// `rfilename`.
pub open spec fn listed_names(siblings: Seq<Option<String>>) -> Seq<Seq<char>> {
    siblings.filter(|s: Option<String>| s is Some).map_values(|s: Option<String>| s->Some_0@)
}

/// The names of the files a description lists, in order, or the error when it
/// has no list of siblings.
pub fn sibling_names(siblings: Option<Vec<Option<String>>>) -> (r: Result<Vec<String>, String>)
    ensures
        match siblings {
            None => r matches Err(m) && m@ == no_files_message(),
            Some(s) => r matches Ok(names) && views(names@) == listed_names(s@),
        },
{
    match siblings {
        None => Err(String::from_str("No files found in repository")),
        Some(s) => {
            let mut names: Vec<String> = Vec::new();
            let mut i: usize = 0;
            while i < s.len()
                invariant
                    0 <= i <= s@.len(),
                    views(names@) == s@.subrange(0, i as int).filter(
                        |x: Option<String>| x is Some,
                    ).map_values(|x: Option<String>| x->Some_0@),
                decreases s@.len() - i,
            {
                proof {
                    lemma_filter_step(s@, i as int, |x: Option<String>| x is Some);
                }
                let ghost before = names@;
                match &s[i] {
                    Some(n) => {
                        names.push(n.clone());
                        assert(views(names@) =~= views(before).push(n@));
                    },
                    None => {},
                }
                i += 1;
                assert(views(names@) =~= s@.subrange(0, i as int).filter(
                    |x: Option<String>| x is Some,
                ).map_values(|x: Option<String>| x->Some_0@));
            }
            assert(s@.subrange(0, s@.len() as int) =~= s@);
            Ok(names)
        },
    }
}

/// A file with the size read from a `Content-Length` header: the header text
/// parsed as a `u64`, or unknown when there is no header, it is not text, or
/// it is no number.
pub fn file_info_from_header(rfilename: &str, content_length: Option<String>) -> (r: FileInfo)
    ensures
        r.rfilename@ == rfilename@,
        r.size == match content_length {
            Some(h) => parse_u64_spec(h@),
            None => None,
        },
{
    let size = match content_length {
        Some(h) => parse_u64(h.as_str()),
        None => None,
    };
    FileInfo { rfilename: String::from_str(rfilename), size }
}

/// The sum of the known sizes of `files`.
pub open spec fn known_size_total(files: Seq<FileInfo>) -> nat
    decreases files.len(),
{
    if files.len() == 0 {
        0
    } else {
        known_size_total(files.drop_last()) + match files.last().size {
            Some(s) => s as nat,
            None => 0,
        }
    }
}

proof fn lemma_known_size_total_prefix(files: Seq<FileInfo>, i: int)
    requires
        0 <= i <= files.len(),
    ensures
        known_size_total(files.subrange(0, i)) <= known_size_total(files),
    decreases files.len() - i,
{
    if i < files.len() {
        lemma_known_size_total_prefix(files, i + 1);
        assert(files.subrange(0, i + 1).drop_last() =~= files.subrange(0, i));
    } else {
        assert(files.subrange(0, i) =~= files);
    }
}

/// The total of the known sizes of `files`.
pub fn total_known_size(files: &Vec<FileInfo>) -> (r: u64)
    requires
        known_size_total(files@) <= u64::MAX,
    ensures
        r == known_size_total(files@),
{
    let mut total: u64 = 0;
    let mut i: usize = 0;
    while i < files.len()
        invariant
            0 <= i <= files@.len(),
            known_size_total(files@) <= u64::MAX,
            total == known_size_total(files@.subrange(0, i as int)),
        decreases files@.len() - i,
    {
        proof {
            lemma_known_size_total_prefix(files@, i + 1);
            assert(files@.subrange(0, i + 1).drop_last() =~= files@.subrange(0, i as int));
        }
        match files[i].size {
            Some(s) => {
                total = total + s;
            },
            None => {},
        }
        i += 1;
    }
    assert(files@.subrange(0, files@.len() as int) =~= files@);
    total
}

/// The files whose size could be resolved, in order (a failed request drops
/// the file).
pub fn resolved_files(results: Vec<Option<FileInfo>>) -> (r: Vec<FileInfo>)
    ensures
        r@ == results@.filter(|x: Option<FileInfo>| x is Some).map_values(
            |x: Option<FileInfo>| x->Some_0,
        ),
{
    let mut out: Vec<FileInfo> = Vec::new();
    let mut i: usize = 0;
    while i < results.len()
        invariant
            0 <= i <= results@.len(),
            out@ == results@.subrange(0, i as int).filter(|x: Option<FileInfo>| x is Some).map_values(
                |x: Option<FileInfo>| x->Some_0,
            ),
        decreases results@.len() - i,
    {
        proof {
            lemma_filter_step(results@, i as int, |x: Option<FileInfo>| x is Some);
        }
        let ghost before = out@;
        match &results[i] {
            Some(f) => {
                out.push(f.clone());
            },
            None => {},
        }
        i += 1;
        assert(out@ =~= results@.subrange(0, i as int).filter(|x: Option<FileInfo>| x is Some).map_values(
            |x: Option<FileInfo>| x->Some_0,
        ));
    }
    assert(results@.subrange(0, results@.len() as int) =~= results@);
    out
}

} // verus!
