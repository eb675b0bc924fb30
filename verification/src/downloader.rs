//! A downloader selecting files with wildcard patterns turned into regular
//! expressions, and the decisions of its download run.

use vstd::prelude::*;
use crate::config::{Config, local_model_dir};
use crate::types::FileInfo;
use crate::download::repo::{known_size_total, total_known_size};
use crate::text::concat_str;
use crate::text::lemma_filter_step;
use crate::text::{push_char, starts_with, str_eq, str_starts_with, views};

verus! {

/// A downloader with its storage directory, settings and file patterns.
pub struct ModelDownloader {
    pub cache_dir: String,
    pub config: Config,
    pub include_patterns: Vec<String>,
    pub exclude_patterns: Vec<String>,
}

/// Whether `regex::Regex::new` accepts `src`.
pub uninterp spec fn regex_compiles(src: Seq<char>) -> bool;

/// Whether the regular expression `src`, compiled by `regex::Regex::new`,
/// matches somewhere in `text` (`Regex::is_match`).
pub uninterp spec fn regex_finds(src: Seq<char>, text: Seq<char>) -> bool;

/// `regex::Regex::new(src)` and, when it succeeds, `Regex::is_match(text)`:
/// `None` when the expression is refused, otherwise whether it matches.
/// Both results are named, not stated: matching is the crate's algorithm.
#[verifier::external_body]
fn regex_match(src: &str, text: &str) -> (r: Option<bool>)
    ensures
        r is Some <==> regex_compiles(src@),
        r matches Some(b) ==> b == regex_finds(src@, text@),
{
    match regex::Regex::new(src) {
        Ok(re) => Some(re.is_match(text)),
        Err(_) => None,
    }
}

/// The regular expression of a wildcard pattern: every `*` becomes `.*`.
pub open spec fn star_to_regex(p: Seq<char>) -> Seq<char>
    decreases p.len(),
{
    if p.len() == 0 {
        Seq::empty()
    } else {
        star_to_regex(p.drop_last()) + if p.last() == '*' {
            ".*"@
        } else {
            seq![p.last()]
        }
    }
}

/// The outcome of trying patterns in order until one matches.
#[derive(Debug, Clone, Copy, PartialEq, Eq, Structural)]
pub enum RegexScan {
    /// A pattern matched.
    Hit,
    /// No pattern matched.
    Miss,
    /// A pattern tried before any match is not a valid regular expression.
    Broken,
}

/// Tries the patterns in order, as regular expressions, until one matches.
pub open spec fn regex_scan(patterns: Seq<Seq<char>>, name: Seq<char>) -> RegexScan
    decreases patterns.len(),
{
    if patterns.len() == 0 {
        RegexScan::Miss
    } else {
        let src = star_to_regex(patterns[0]);
        if !regex_compiles(src) {
            RegexScan::Broken
        } else if regex_finds(src, name) {
            RegexScan::Hit
        } else {
            regex_scan(patterns.drop_first(), name)
        }
    }
}

/// The filter can decide about `name` without meeting an invalid pattern:
/// the selecting patterns are tried when there are any, and the rejecting
/// ones when the file is still selected.
pub open spec fn regex_filter_defined(
    selecting: Seq<Seq<char>>,
    rejecting: Seq<Seq<char>>,
    name: Seq<char>,
) -> bool {
    if selecting.len() == 0 && rejecting.len() == 0 {
        true
    } else {
        &&& (selecting.len() == 0 || regex_scan(selecting, name) != RegexScan::Broken)
        &&& ((selecting.len() > 0 && regex_scan(selecting, name) == RegexScan::Miss)
            || rejecting.len() == 0 || regex_scan(rejecting, name) != RegexScan::Broken)
    }
}

/// A file is downloaded when there are no patterns; otherwise when some
/// selecting pattern matches it (if there are any) and no rejecting pattern
/// does.
pub open spec fn regex_filter(
    selecting: Seq<Seq<char>>,
    rejecting: Seq<Seq<char>>,
    name: Seq<char>,
) -> bool {
    if selecting.len() == 0 && rejecting.len() == 0 {
        true
    } else if selecting.len() > 0 && regex_scan(selecting, name) != RegexScan::Hit {
        false
    } else {
        !(rejecting.len() > 0 && regex_scan(rejecting, name) == RegexScan::Hit)
    }
}

/// The regular expression of the wildcard pattern `p`.
pub fn pattern_to_regex(p: &str) -> (r: String)
    ensures
        r@ == star_to_regex(p@),
{
    let n = p.unicode_len();
    let mut out = String::new();
    let mut i: usize = 0;
    while i < n
        invariant
            n == p@.len(),
            0 <= i <= n,
            out@ == star_to_regex(p@.subrange(0, i as int)),
        decreases n - i,
    {
        let c = p.get_char(i);
        let ghost next = p@.subrange(0, i + 1);
        assert(next.drop_last() =~= p@.subrange(0, i as int));
        if c == '*' {
            push_char(&mut out, '.');
            push_char(&mut out, '*');
            proof {
                reveal_strlit(".*");
            }
            assert(out@ =~= star_to_regex(next));
        } else {
            push_char(&mut out, c);
            assert(out@ =~= star_to_regex(next));
        }
        i += 1;
    }
    assert(p@.subrange(0, n as int) =~= p@);
    out
}

/// Tries `patterns` in order, as regular expressions, until one matches `name`.
pub fn scan_patterns(patterns: &Vec<String>, name: &str) -> (r: RegexScan)
    ensures
        r == regex_scan(views(patterns@), name@),
{
    let ghost all = views(patterns@);
    assert(all.skip(0) =~= all);
    let mut i: usize = 0;
    while i < patterns.len()
        invariant
            all == views(patterns@),
            0 <= i <= patterns@.len(),
            regex_scan(all, name@) == regex_scan(all.skip(i as int), name@),
        decreases patterns@.len() - i,
    {
        let ghost rest = all.skip(i as int);
        assert(rest[0] == patterns@[i as int]@);
        assert(rest.drop_first() =~= all.skip(i + 1));
        let src = pattern_to_regex(patterns[i].as_str());
        match regex_match(src.as_str(), name) {
            None => {
                return RegexScan::Broken;
            },
            Some(true) => {
                return RegexScan::Hit;
            },
            Some(false) => {},
        }
        i += 1;
    }
    assert(all.skip(patterns@.len() as int) =~= Seq::<Seq<char>>::empty());
    RegexScan::Miss
}

impl ModelDownloader {
    /// The selecting patterns as plain values.
    pub open spec fn selecting(&self) -> Seq<Seq<char>> {
        views(self.include_patterns@)
    }

    /// The rejecting patterns as plain values.
    pub open spec fn rejecting(&self) -> Seq<Seq<char>> {
        views(self.exclude_patterns@)
    }

    /// A downloader with the settings `config`, storing into `cache_dir` or
    /// else the configured model directory, with the given patterns (none when
    /// not given).
    pub fn new(
        cache_dir: Option<String>,
        include_patterns: Option<Vec<String>>,
        exclude_patterns: Option<Vec<String>>,
        config: Config,
    ) -> (r: ModelDownloader)
        ensures
            r.config@ == config@,
            match cache_dir {
                Some(d) => r.cache_dir@ == d@,
                None => if config.use_local_dir {
                    local_model_dir(config.local_dir_base@, Seq::empty(), r.cache_dir@)
                } else {
                    r.cache_dir@ == "models/"@
                },
            },
            r.include_patterns@ == match include_patterns {
                Some(p) => p@,
                None => Seq::<String>::empty(),
            },
            r.exclude_patterns@ == match exclude_patterns {
                Some(p) => p@,
                None => Seq::<String>::empty(),
            },
    {
        let cache_dir = match cache_dir {
            Some(d) => d,
            None => {
                let d = config.get_model_dir("");
                proof {
                    reveal_strlit("");
                    assert(""@ =~= Seq::<char>::empty());
                    assert("models/"@ + ""@ =~= "models/"@);
                }
                d
            },
        };
        ModelDownloader {
            cache_dir,
            config,
            include_patterns: match include_patterns {
                Some(p) => p,
                None => Vec::new(),
            },
            exclude_patterns: match exclude_patterns {
                Some(p) => p,
                None => Vec::new(),
            },
        }
    }

    /// Whether the patterns can decide about `filename` without meeting an
    /// invalid pattern.
    pub fn filter_defined(&self, filename: &str) -> (r: bool)
        ensures
            r == regex_filter_defined(self.selecting(), self.rejecting(), filename@),
    {
        let ni = self.include_patterns.len();
        let ne = self.exclude_patterns.len();
        if ni == 0 && ne == 0 {
            return true;
        }
        let inc = if ni > 0 {
            scan_patterns(&self.include_patterns, filename)
        } else {
            RegexScan::Miss
        };
        if ni > 0 && inc == RegexScan::Broken {
            return false;
        }
        if ni > 0 && inc == RegexScan::Miss {
            return true;
        }
        ne == 0 || scan_patterns(&self.exclude_patterns, filename) != RegexScan::Broken
    }

    /// Whether `filename` is downloaded under the patterns, read as regular
    /// expressions with `*` as `.*`.
    pub fn should_download_file(&self, filename: &str) -> (r: bool)
        requires
            regex_filter_defined(self.selecting(), self.rejecting(), filename@),
        ensures
            r == regex_filter(self.selecting(), self.rejecting(), filename@),
    {
        if self.include_patterns.len() == 0 && self.exclude_patterns.len() == 0 {
            return true;
        }
        if self.include_patterns.len() > 0 {
            if scan_patterns(&self.include_patterns, filename) != RegexScan::Hit {
                return false;
            }
        }
        if self.exclude_patterns.len() > 0 {
            if scan_patterns(&self.exclude_patterns, filename) == RegexScan::Hit {
                return false;
            }
        }
        true
    }

    /// Whether `filename` is downloaded, or `None` when deciding it meets an
    /// invalid pattern.
    pub fn try_should_download_file(&self, filename: &str) -> (r: Option<bool>)
        ensures
            regex_filter_defined(self.selecting(), self.rejecting(), filename@) ==> r == Some(
                regex_filter(self.selecting(), self.rejecting(), filename@),
            ),
            !regex_filter_defined(self.selecting(), self.rejecting(), filename@) ==> r is None,
    {
        if self.filter_defined(filename) {
            Some(self.should_download_file(filename))
        } else {
            None
        }
    }
}


/// Every file of `files` can be decided by the patterns.
pub open spec fn all_decidable(
    selecting: Seq<Seq<char>>,
    rejecting: Seq<Seq<char>>,
    files: Seq<FileInfo>,
) -> bool {
    forall|i: int| 0 <= i < files.len() ==> regex_filter_defined(
        selecting,
        rejecting,
        (#[trigger] files[i]).rfilename@,
    )
}

/// The files of `files` the patterns select, in order.
pub open spec fn regex_selected(
    selecting: Seq<Seq<char>>,
    rejecting: Seq<Seq<char>>,
    files: Seq<FileInfo>,
) -> Seq<FileInfo> {
    files.filter(|f: FileInfo| regex_filter(selecting, rejecting, f.rfilename@))
}

/// How a download run ended for one file.
pub enum TaskResult {
    /// The file was written.
    Done,
    /// The download failed with this error.
    Failed(String),
    /// The task itself broke down, with this error.
    Broke(String),
}

/// The message of a download run stopped by the user.
pub open spec fn cancelled_message() -> Seq<char> {
    "Download cancelled"@
}

/// The outcome of a run from the outcomes of its files, in order: the first
/// file that did not end well decides (a cancellation ends the run quietly);
/// when all ended well, the run reports where the model went.
pub open spec fn run_outcome(
    results: Seq<TaskResult>,
    model_id: Seq<char>,
    base_path: Seq<char>,
) -> Result<Seq<char>, Seq<char>>
    decreases results.len(),
{
    if results.len() == 0 {
        Ok("Downloaded model "@ + model_id + " to "@ + base_path)
    } else {
        match results[0] {
            TaskResult::Done => run_outcome(results.drop_first(), model_id, base_path),
            TaskResult::Failed(e) => if e@ == cancelled_message() {
                Ok(cancelled_message())
            } else {
                Err(e@)
            },
            TaskResult::Broke(e) => Err("Task failed: "@ + e@),
        }
    }
}

/// The plain values of a result of a run.
pub open spec fn outcome_view(r: Result<String, String>) -> Result<Seq<char>, Seq<char>> {
    match r {
        Ok(s) => Ok(s@),
        Err(s) => Err(s@),
    }
}

/// Where the description of a repository is read after a redirect to
/// `location`: the location itself when it is a full address (starting with
/// `http`), otherwise the location on the endpoint.
pub open spec fn redirect_target_spec(endpoint: Seq<char>, location: Seq<char>) -> Seq<char> {
    if starts_with(location, "http"@) {
        location
    } else {
        endpoint + location
    }
}

/// Where the description is read after a redirect to `location`.
pub fn redirect_target(endpoint: &str, location: &str) -> (r: String)
    ensures
        r@ == redirect_target_spec(endpoint@, location@),
{
    if str_starts_with(location, "http") {
        String::from_str(location)
    } else {
        concat_str(endpoint, location)
    }
}

/// The outcome of a run from the outcomes of its files.
pub fn summarize_results(results: Vec<TaskResult>, model_id: &str, base_path: &str) -> (r: Result<
    String,
    String,
>)
    ensures
        outcome_view(r) == run_outcome(results@, model_id@, base_path@),
{
    let mut i: usize = 0;
    assert(results@.skip(0) =~= results@);
    while i < results.len()
        invariant
            0 <= i <= results@.len(),
            run_outcome(results@, model_id@, base_path@) == run_outcome(
                results@.skip(i as int),
                model_id@,
                base_path@,
            ),
        decreases results@.len() - i,
    {
        assert(results@.skip(i as int)[0] == results@[i as int]);
        assert(results@.skip(i as int).drop_first() =~= results@.skip(i + 1));
        match &results[i] {
            TaskResult::Done => {},
            TaskResult::Failed(e) => {
                if str_eq(e.as_str(), "Download cancelled") {
                    return Ok(String::from_str("Download cancelled"));
                }
                return Err(e.clone());
            },
            TaskResult::Broke(e) => {
                return Err(concat_str("Task failed: ", e.as_str()));
            },
        }
        i += 1;
    }
    assert(results@.skip(results@.len() as int) =~= Seq::<TaskResult>::empty());
    let mut m = String::from_str("Downloaded model ");
    m.append(model_id);
    m.append(" to ");
    m.append(base_path);
    Ok(m)
}

impl ModelDownloader {
    /// The directory the files of `model_id` go to: the model's configured
    /// directory when a local directory is used, otherwise `cache_dir`.
    pub fn base_path(&self, model_id: &str) -> (r: String)
        ensures
            self.config.use_local_dir ==> local_model_dir(self.config.local_dir_base@, model_id@, r@),
            !self.config.use_local_dir ==> r@ == self.cache_dir@,
    {
        if self.config.use_local_dir {
            self.config.get_model_dir(model_id)
        } else {
            self.cache_dir.clone()
        }
    }

    /// Whether every file of `files` can be decided by the patterns.
    pub fn files_decidable(&self, files: &Vec<FileInfo>) -> (r: bool)
        ensures
            r == all_decidable(self.selecting(), self.rejecting(), files@),
    {
        let mut i: usize = 0;
        while i < files.len()
            invariant
                0 <= i <= files@.len(),
                forall|j: int| 0 <= j < i ==> regex_filter_defined(
                    self.selecting(),
                    self.rejecting(),
                    (#[trigger] files@[j]).rfilename@,
                ),
            decreases files@.len() - i,
        {
            if !self.filter_defined(files[i].rfilename.as_str()) {
                return false;
            }
            i += 1;
        }
        true
    }

    /// The files the patterns select, in order, with the total of their known
    /// sizes.
    pub fn select_files(&self, files: &Vec<FileInfo>) -> (r: (Vec<FileInfo>, u64))
        requires
            all_decidable(self.selecting(), self.rejecting(), files@),
            known_size_total(regex_selected(self.selecting(), self.rejecting(), files@))
                <= u64::MAX,
        ensures
            r.0@ == regex_selected(self.selecting(), self.rejecting(), files@),
            r.1 == known_size_total(r.0@),
    {
        let ghost sel = self.selecting();
        let ghost rej = self.rejecting();
        let mut out: Vec<FileInfo> = Vec::new();
        let mut i: usize = 0;
        while i < files.len()
            invariant
                sel == self.selecting(),
                rej == self.rejecting(),
                all_decidable(sel, rej, files@),
                0 <= i <= files@.len(),
                out@ == files@.subrange(0, i as int).filter(
                    |f: FileInfo| regex_filter(sel, rej, f.rfilename@),
                ),
            decreases files@.len() - i,
        {
            proof {
                lemma_filter_step(files@, i as int, |f: FileInfo| regex_filter(sel, rej, f.rfilename@));
            }
            assert(regex_filter_defined(sel, rej, files@[i as int].rfilename@));
            if self.should_download_file(files[i].rfilename.as_str()) {
                out.push(files[i].clone());
            }
            i += 1;
        }
        assert(files@.subrange(0, files@.len() as int) =~= files@);
        let total = total_known_size(&out);
        (out, total)
    }

    /// The files the patterns select with their total size, or `None` when a
    /// file cannot be decided or the total does not fit in 64 bits.
    pub fn try_select_files(&self, files: &Vec<FileInfo>) -> (r: Option<(Vec<FileInfo>, u64)>)
        ensures
            match r {
                Some((sel, total)) => all_decidable(self.selecting(), self.rejecting(), files@)
                    && sel@ == regex_selected(self.selecting(), self.rejecting(), files@) && total
                    == known_size_total(sel@),
                None => !all_decidable(self.selecting(), self.rejecting(), files@) || known_size_total(
                    regex_selected(self.selecting(), self.rejecting(), files@),
                ) > u64::MAX,
            },
    {
        if !self.files_decidable(files) {
            return None;
        }
        let ghost sel = self.selecting();
        let ghost rej = self.rejecting();
        let mut out: Vec<FileInfo> = Vec::new();
        let mut total: u64 = 0;
        let mut i: usize = 0;
        while i < files.len()
            invariant
                sel == self.selecting(),
                rej == self.rejecting(),
                all_decidable(sel, rej, files@),
                0 <= i <= files@.len(),
                out@ == files@.subrange(0, i as int).filter(
                    |f: FileInfo| regex_filter(sel, rej, f.rfilename@),
                ),
                total == known_size_total(out@),
            decreases files@.len() - i,
        {
            proof {
                lemma_filter_step(files@, i as int, |f: FileInfo| regex_filter(sel, rej, f.rfilename@));
            }
            assert(regex_filter_defined(sel, rej, files@[i as int].rfilename@));
            if self.should_download_file(files[i].rfilename.as_str()) {
                let f = files[i].clone();
                let ghost before = out@;
                match f.size {
                    Some(s) => {
                        if total > u64::MAX - s {
                            proof {
                                assert(out@.push(f).drop_last() =~= out@);
                                lemma_total_prefix_bound(files@, sel, rej, i + 1);
                            }
                            return None;
                        }
                        total = total + s;
                    },
                    None => {},
                }
                out.push(f);
                assert(out@.drop_last() =~= before);
            }
            i += 1;
        }
        assert(files@.subrange(0, files@.len() as int) =~= files@);
        Some((out, total))
    }
}

proof fn lemma_known_total_push_monotone(s: Seq<FileInfo>, t: Seq<FileInfo>)
    requires
        s.len() <= t.len(),
        s == t.subrange(0, s.len() as int),
    ensures
        known_size_total(s) <= known_size_total(t),
    decreases t.len() - s.len(),
{
    if s.len() < t.len() {
        let u = t.subrange(0, s.len() + 1 as int);
        assert(u.drop_last() =~= s);
        assert(u == t.subrange(0, u.len() as int));
        lemma_known_total_push_monotone(u, t);
        assert(known_size_total(u) == known_size_total(s) + match u.last().size {
            Some(z) => z as nat,
            None => 0,
        });
    } else {
        assert(t.subrange(0, t.len() as int) =~= t);
    }
}

proof fn lemma_filter_prefix<A>(s: Seq<A>, i: int, p: spec_fn(A) -> bool)
    requires
        0 <= i <= s.len(),
    ensures
        s.subrange(0, i).filter(p).len() <= s.filter(p).len(),
        s.subrange(0, i).filter(p) == s.filter(p).subrange(0, s.subrange(0, i).filter(p).len() as int),
    decreases s.len() - i,
{
    if i < s.len() {
        lemma_filter_prefix(s, i + 1, p);
        lemma_filter_step(s, i, p);
        let a = s.subrange(0, i).filter(p);
        let b = s.subrange(0, i + 1).filter(p);
        let f = s.filter(p);
        if p(s[i]) {
            assert(a =~= b.drop_last());
            assert(a =~= f.subrange(0, a.len() as int));
        }
    } else {
        assert(s.subrange(0, i) =~= s);
    }
}

proof fn lemma_total_prefix_bound(
    files: Seq<FileInfo>,
    sel: Seq<Seq<char>>,
    rej: Seq<Seq<char>>,
    i: int,
)
    requires
        0 <= i <= files.len(),
    ensures
        known_size_total(
            files.subrange(0, i).filter(|f: FileInfo| regex_filter(sel, rej, f.rfilename@)),
        ) <= known_size_total(regex_selected(sel, rej, files)),
{
    let p = |f: FileInfo| regex_filter(sel, rej, f.rfilename@);
    lemma_filter_prefix(files, i, p);
    lemma_known_total_push_monotone(files.subrange(0, i).filter(p), files.filter(p));
}

/// Without patterns every file is downloaded; a file that a rejecting pattern
/// matches is not downloaded; when there are selecting patterns, a downloaded
/// file is matched by one of them.
pub proof fn lemma_regex_filter_laws(
    selecting: Seq<Seq<char>>,
    rejecting: Seq<Seq<char>>,
    name: Seq<char>,
)
    ensures
        selecting.len() == 0 && rejecting.len() == 0 ==> regex_filter(selecting, rejecting, name),
        rejecting.len() > 0 && regex_scan(rejecting, name) == RegexScan::Hit ==> !regex_filter(
            selecting,
            rejecting,
            name,
        ),
        selecting.len() > 0 && regex_filter(selecting, rejecting, name) ==> regex_scan(
            selecting,
            name,
        ) == RegexScan::Hit,
{
}

} // verus!
