//! Decisions of a model download: access to gated repositories, the order of
//! the files, whole or range-by-range fetching, resuming, pauses between
//! retries, and unpacking of gzip content.

use vstd::prelude::*;
use std::io::Read;
use rand::Rng;
use crate::download::downloader::ModelDownloader;
use crate::types::FileInfo;
use crate::text::{decimal, u64_to_decimal, concat_str};

verus! {

/// The `gated` field of a repository's description.
pub enum GatedFlag {
    /// A boolean: whether access must be requested.
    Flag(bool),
    /// A text such as `"manual"` or `"auto"`.
    Mode(String),
    /// Anything else (absent, null, a number, ...).
    Other,
}

/// Whether the repository needs a token: a `true` flag or the mode `manual`.
pub open spec fn requires_auth_spec(gated: GatedFlag) -> bool {
    match gated {
        GatedFlag::Flag(b) => b,
        GatedFlag::Mode(m) => m@ == "manual"@,
        GatedFlag::Other => false,
    }
}

/// The error when a gated repository is asked for without a token.
pub open spec fn auth_required_message() -> Seq<char> {
    "该仓库需要认证。请提供 Hugging Face token。可以从 https://huggingface.co/settings/tokens 获取。"@
}

/// The order in which files are fetched: by size, largest first (a file of
/// unknown size counting as empty), files of equal size in their given order.
pub open spec fn size_key(f: FileInfo) -> u64 {
    match f.size {
        Some(s) => s,
        None => 0,
    }
}

/// `x` placed into the size-ordered `sorted`, after every file at least as large.
pub open spec fn insert_by_size(sorted: Seq<FileInfo>, x: FileInfo) -> Seq<FileInfo>
    decreases sorted.len(),
{
    if sorted.len() == 0 {
        seq![x]
    } else if size_key(sorted.last()) >= size_key(x) {
        sorted.push(x)
    } else {
        insert_by_size(sorted.drop_last(), x).push(sorted.last())
    }
}

/// `files` ordered by size, largest first, keeping the given order among
/// files of equal size.
pub open spec fn order_by_size(files: Seq<FileInfo>) -> Seq<FileInfo>
    decreases files.len(),
{
    if files.len() == 0 {
        Seq::empty()
    } else {
        insert_by_size(order_by_size(files.drop_last()), files.last())
    }
}

/// The files are ordered by size, largest first.
pub open spec fn sorted_by_size(s: Seq<FileInfo>) -> bool {
    forall|i: int, j: int| 0 <= i < j < s.len() ==> size_key(#[trigger] s[i]) >= size_key(
        #[trigger] s[j],
    )
}

proof fn lemma_insert_step(s: Seq<FileInfo>, x: FileInfo, j: int)
    requires
        0 < j <= s.len(),
        size_key(s[j - 1]) < size_key(x),
    ensures
        insert_by_size(s.subrange(0, j), x) + s.subrange(j, s.len() as int) == insert_by_size(
            s.subrange(0, j - 1),
            x,
        ) + s.subrange(j - 1, s.len() as int),
{
    let sub = s.subrange(0, j);
    assert(sub.drop_last() =~= s.subrange(0, j - 1));
    assert(sub.last() == s[j - 1]);
    assert(insert_by_size(sub, x) == insert_by_size(s.subrange(0, j - 1), x).push(s[j - 1]));
    assert(insert_by_size(s.subrange(0, j - 1), x).push(s[j - 1]) + s.subrange(j, s.len() as int)
        =~= insert_by_size(s.subrange(0, j - 1), x) + s.subrange(j - 1, s.len() as int));
}

fn key_of(f: &FileInfo) -> (r: u64)
    ensures
        r == size_key(*f),
{
    match f.size {
        Some(v) => v,
        None => 0,
    }
}

fn insert_ordered(out: &mut Vec<FileInfo>, x: FileInfo)
    ensures
        final(out)@ == insert_by_size(old(out)@, x),
{
    let ghost s = out@;
    let mut j: usize = out.len();
    let kx = key_of(&x);
    assert(s.subrange(0, s.len() as int) =~= s);
    assert(insert_by_size(s, x) + s.subrange(s.len() as int, s.len() as int) =~= insert_by_size(s, x));
    while j > 0 && key_of(&out[j - 1]) < kx
        invariant
            out@ == s,
            kx == size_key(x),
            0 <= j <= s.len(),
            insert_by_size(s, x) == insert_by_size(s.subrange(0, j as int), x) + s.subrange(
                j as int,
                s.len() as int,
            ),
        decreases j,
    {
        proof {
            lemma_insert_step(s, x, j as int);
        }
        j -= 1;
    }
    proof {
        let sub = s.subrange(0, j as int);
        if j > 0 {
            assert(sub.last() == s[j - 1]);
            assert(insert_by_size(sub, x) == sub.push(x));
        } else {
            assert(insert_by_size(sub, x) == seq![x]);
        }
        assert(sub.push(x) + s.subrange(j as int, s.len() as int) =~= s.insert(j as int, x));
    }
    out.insert(j, x);
}

proof fn lemma_insert_keys(s: Seq<FileInfo>, x: FileInfo, k: u64)
    requires
        forall|i: int| 0 <= i < s.len() ==> size_key(#[trigger] s[i]) >= k,
        size_key(x) >= k,
    ensures
        forall|i: int| 0 <= i < insert_by_size(s, x).len() ==> size_key(
            #[trigger] insert_by_size(s, x)[i],
        ) >= k,
        insert_by_size(s, x).len() == s.len() + 1,
    decreases s.len(),
{
    if s.len() > 0 && size_key(s.last()) < size_key(x) {
        lemma_insert_keys(s.drop_last(), x, k);
    }
}

proof fn lemma_insert_sorted(s: Seq<FileInfo>, x: FileInfo)
    requires
        sorted_by_size(s),
    ensures
        sorted_by_size(insert_by_size(s, x)),
        insert_by_size(s, x).to_multiset() =~= s.to_multiset().insert(x),
    decreases s.len(),
{
    broadcast use vstd::seq_lib::group_to_multiset_ensures;

    if s.len() > 0 && size_key(s.last()) < size_key(x) {
        let d = s.drop_last();
        assert(sorted_by_size(d));
        lemma_insert_sorted(d, x);
        let l = s.last();
        assert forall|i: int| 0 <= i < d.len() implies size_key(#[trigger] d[i]) >= size_key(l) by {
            assert(s[i] == d[i]);
        }
        lemma_insert_keys(d, x, size_key(l));
        assert(s =~= d.push(l));
    } else if s.len() > 0 {
        assert(s =~= s.drop_last().push(s.last()));
    }
}

/// Ordering by size gives the same files, ordered by size, largest first.
pub proof fn lemma_order_by_size_sorts(files: Seq<FileInfo>)
    ensures
        sorted_by_size(order_by_size(files)),
        order_by_size(files).to_multiset() =~= files.to_multiset(),
    decreases files.len(),
{
    broadcast use vstd::seq_lib::group_to_multiset_ensures;

    if files.len() > 0 {
        lemma_order_by_size_sorts(files.drop_last());
        lemma_insert_sorted(order_by_size(files.drop_last()), files.last());
        assert(files =~= files.drop_last().push(files.last()));
    }
}

proof fn lemma_filter_push(s: Seq<FileInfo>, x: FileInfo, k: u64)
    ensures
        s.push(x).filter(|f: FileInfo| size_key(f) == k) == if size_key(x) == k {
            s.filter(|f: FileInfo| size_key(f) == k).push(x)
        } else {
            s.filter(|f: FileInfo| size_key(f) == k)
        },
{
    reveal(Seq::filter);
    assert(s.push(x).drop_last() =~= s);
}

proof fn lemma_insert_stable(s: Seq<FileInfo>, x: FileInfo, k: u64)
    ensures
        insert_by_size(s, x).filter(|f: FileInfo| size_key(f) == k) == if size_key(x) == k {
            s.filter(|f: FileInfo| size_key(f) == k).push(x)
        } else {
            s.filter(|f: FileInfo| size_key(f) == k)
        },
    decreases s.len(),
{
    if s.len() == 0 {
        lemma_filter_push(s, x, k);
        assert(seq![x] =~= s.push(x));
    } else if size_key(s.last()) >= size_key(x) {
        lemma_filter_push(s, x, k);
    } else {
        let d = s.drop_last();
        lemma_insert_stable(d, x, k);
        lemma_filter_push(insert_by_size(d, x), s.last(), k);
        lemma_filter_push(d, s.last(), k);
        assert(d.push(s.last()) =~= s);
    }
}

/// Files of equal size keep their given order: for every size, the files of
/// that size come out in the order they went in.
pub proof fn lemma_order_by_size_stable(files: Seq<FileInfo>, k: u64)
    ensures
        order_by_size(files).filter(|f: FileInfo| size_key(f) == k) == files.filter(
            |f: FileInfo| size_key(f) == k,
        ),
    decreases files.len(),
{
    if files.len() == 0 {
        reveal(Seq::filter);
    } else {
        let d = files.drop_last();
        lemma_order_by_size_stable(d, k);
        lemma_insert_stable(order_by_size(d), files.last(), k);
        lemma_filter_push(d, files.last(), k);
        assert(d.push(files.last()) =~= files);
    }
}

/// Files are ordered by their real size in bytes, largest first, a file of
/// unknown size counting as empty: for `r` the order of `files`, every file
/// is at least as large as every file after it, no file is lost or added,
/// and for every size the files of that size keep their given order.
pub proof fn lemma_largest_first(files: Seq<FileInfo>, bytes: u64)
    ensures
        ({
            let r = order_by_size(files);
            &&& forall|i: int, j: int|
                0 <= i < j < r.len() ==> (match (#[trigger] r[i]).size {
                    Some(s) => s,
                    None => 0u64,
                }) >= (match (#[trigger] r[j]).size {
                    Some(s) => s,
                    None => 0u64,
                })
            &&& r.to_multiset() == files.to_multiset()
            &&& r.filter(|f: FileInfo| f.size.unwrap_or(0) == bytes) == files.filter(
                |f: FileInfo| f.size.unwrap_or(0) == bytes,
            )
        }),
{
    let r = order_by_size(files);
    lemma_order_by_size_sorts(files);
    lemma_order_by_size_stable(files, bytes);
    assert((|f: FileInfo| f.size.unwrap_or(0) == bytes) =~= (|f: FileInfo| size_key(f) == bytes));
}

/// What unpacking gzip data gives: `flate2`'s `GzDecoder` reading `data` to
/// its end, or nothing when that fails.
pub uninterp spec fn gzip_decoded(data: Seq<u8>) -> Option<Seq<u8>>;

/// `flate2::read::GzDecoder` over `data`, read to the end. The decoded bytes
/// are named, not stated; on failure the error is returned as text, whose
/// wording is not stated.
#[verifier::external_body]
fn gunzip(data: &[u8]) -> (r: Result<Vec<u8>, String>)
    ensures
        r is Ok <==> gzip_decoded(data@) is Some,
        r matches Ok(v) ==> gzip_decoded(data@) == Some(v@),
{
    let mut decoder = flate2::read::GzDecoder::new(data);
    let mut out = Vec::new();
    match decoder.read_to_end(&mut out) {
        Ok(_) => Ok(out),
        Err(e) => Err(e.to_string()),
    }
}

/// A random number from 0 to 500: `rand::thread_rng().gen_range(0..=500)`.
#[verifier::external_body]
fn jitter_millis() -> (r: usize)
    ensures
        r <= 500,
{
    rand::thread_rng().gen_range(0..=500)
}

/// The bytes start with the gzip magic number `1f 8b`.
pub open spec fn is_gzip_spec(data: Seq<u8>) -> bool {
    data.len() >= 2 && data[0] == 0x1f && data[1] == 0x8b
}

/// The pause before a retry, from a base, the number of the retry, a random
/// part and a ceiling: base plus the square of the retry plus the random part,
/// at most the ceiling.
pub open spec fn backoff_spec(base: nat, retry: nat, jitter: nat, max: nat) -> nat {
    let d = base + retry * retry + jitter;
    if d <= max {
        d
    } else {
        max
    }
}

/// The size of the ranges for a file of `total_size` bytes: 64 MiB above
/// 1 GiB, 32 MiB above 100 MiB, 16 MiB otherwise.
pub open spec fn adaptive_chunk_size_spec(total_size: u64) -> u64 {
    if total_size > 1024 * 1024 * 1024 {
        67108864
    } else if total_size > 100 * 1024 * 1024 {
        33554432
    } else {
        16777216
    }
}

/// How a range-by-range download of a file continues from what is on disk.
#[derive(Debug, PartialEq, Eq, Structural)]
pub enum ResumePlan {
    /// The file on disk already has the full size.
    AlreadyComplete,
    /// The file on disk is longer than the file: remove it and start over.
    DiscardAndRestart,
    /// Continue with this many bytes already present (0 for a new file).
    Continue(u64),
}

/// The plan of a range-by-range download from the length of the file on disk
/// (if it exists) and the full size.
pub open spec fn resume_plan_spec(on_disk: Option<u64>, total_size: u64) -> ResumePlan {
    match on_disk {
        Some(len) => if len == total_size {
            ResumePlan::AlreadyComplete
        } else if len > total_size {
            ResumePlan::DiscardAndRestart
        } else {
            ResumePlan::Continue(len)
        },
        None => ResumePlan::Continue(0),
    }
}

/// What to do after fetching a range failed.
pub enum RangeFailureStep {
    /// The download was stopped by the user: end quietly.
    Stop,
    /// Give up with this error.
    GiveUp(String),
    /// Pause this many milliseconds, then try again.
    RetryAfter(usize),
}

/// The error after the last retry of a range.
pub open spec fn range_failure_message(max_retries: nat, error: Seq<char>) -> Seq<char> {
    "下载失败，已重试 "@ + decimal(max_retries) + " 次: "@ + error
}

/// The error when the file on disk does not have the expected length.
pub open spec fn length_mismatch_message(found: nat, expected: nat, incomplete: bool) -> Seq<char> {
    if incomplete {
        "下载不完整: "@ + decimal(found) + " != "@ + decimal(expected)
    } else {
        "文件大小不匹配: "@ + decimal(found) + " != "@ + decimal(expected)
    }
}

/// The size below which (inclusive) a file is fetched in one request: 10 MiB.
pub open spec fn single_request_limit() -> u64 {
    10485760
}

/// How many times a range is retried in a model download.
pub open spec fn model_max_retries() -> usize {
    5
}

impl ModelDownloader {
    /// The answer when every file is already on disk.
    pub fn all_done_message() -> (r: String)
        ensures
            r@ == "所有文件已下载完成"@,
    {
        String::from_str("所有文件已下载完成")
    }

    /// The answer when the user stopped the download.
    pub fn stopped_message() -> (r: String)
        ensures
            r@ == "下载已取消"@,
    {
        String::from_str("下载已取消")
    }

    /// Whether the repository with this `gated` field needs a token.
    pub fn requires_auth(gated: &GatedFlag) -> (r: bool)
        ensures
            r == requires_auth_spec(*gated),
    {
        match gated {
            GatedFlag::Flag(b) => *b,
            GatedFlag::Mode(m) => crate::text::str_eq(m.as_str(), "manual"),
            GatedFlag::Other => false,
        }
    }

    /// The error to give before downloading, if any: a gated repository asked
    /// for without a token.
    pub fn check_access(&self, gated: &GatedFlag) -> (r: Option<String>)
        ensures
            match r {
                Some(m) => requires_auth_spec(*gated) && self.auth.token is None && m@
                    == auth_required_message(),
                None => !(requires_auth_spec(*gated) && self.auth.token is None),
            },
    {
        if Self::requires_auth(gated) && self.auth.token.is_none() {
            Some(
                String::from_str(
                    "该仓库需要认证。请提供 Hugging Face token。可以从 https://huggingface.co/settings/tokens 获取。",
                ),
            )
        } else {
            None
        }
    }

    /// Whether a file of `expected` bytes is already on disk with `on_disk`
    /// bytes, so that it is skipped.
    pub fn already_downloaded(on_disk: Option<u64>, expected: Option<u64>) -> (r: bool)
        ensures
            r == (on_disk is Some && expected is Some && on_disk == expected),
    {
        match (on_disk, expected) {
            (Some(a), Some(b)) => a == b,
            _ => false,
        }
    }

    /// The files ordered for downloading: largest first, equal sizes in their
    /// given order.
    pub fn order_for_download(files: Vec<FileInfo>) -> (r: Vec<FileInfo>)
        ensures
            r@ == order_by_size(files@),
            forall|i: int, j: int|
                0 <= i < j < r@.len() ==> (match (#[trigger] r@[i]).size {
                    Some(s) => s,
                    None => 0u64,
                }) >= (match (#[trigger] r@[j]).size {
                    Some(s) => s,
                    None => 0u64,
                }),
            r@.to_multiset() == files@.to_multiset(),
    {
        let mut out: Vec<FileInfo> = Vec::new();
        let mut i: usize = 0;
        while i < files.len()
            invariant
                0 <= i <= files@.len(),
                out@ == order_by_size(files@.subrange(0, i as int)),
            decreases files@.len() - i,
        {
            let ghost pre = files@.subrange(0, i as int);
            let ghost post = files@.subrange(0, i + 1);
            assert(post.drop_last() =~= pre);
            insert_ordered(&mut out, files[i].clone());
            i += 1;
        }
        assert(files@.subrange(0, files@.len() as int) =~= files@);
        proof {
            lemma_largest_first(files@, 0);
        }
        out
    }

    /// Whether a file of `total_size` bytes is fetched in one request rather
    /// than range by range.
    pub fn fetch_whole(total_size: u64) -> (r: bool)
        ensures
            r == (total_size <= single_request_limit()),
    {
        total_size <= 10 * 1024 * 1024
    }

    /// The size of the ranges of a file of `total_size` bytes.
    pub fn adaptive_chunk_size(total_size: u64) -> (r: u64)
        ensures
            r == adaptive_chunk_size_spec(total_size),
    {
        if total_size > 1024 * 1024 * 1024 {
            64 * 1024 * 1024
        } else if total_size > 100 * 1024 * 1024 {
            32 * 1024 * 1024
        } else {
            16 * 1024 * 1024
        }
    }

    /// How a range-by-range download continues from the file on disk.
    pub fn resume_plan(on_disk: Option<u64>, total_size: u64) -> (r: ResumePlan)
        ensures
            r == resume_plan_spec(on_disk, total_size),
    {
        match on_disk {
            Some(len) => {
                if len == total_size {
                    ResumePlan::AlreadyComplete
                } else if len > total_size {
                    ResumePlan::DiscardAndRestart
                } else {
                    ResumePlan::Continue(len)
                }
            },
            None => ResumePlan::Continue(0),
        }
    }

    /// The pause before retry number `retry`, with the random part `jitter`.
    pub fn backoff_delay(base: usize, retry: usize, jitter: usize, max: usize) -> (r: usize)
        requires
            base + retry * retry + jitter <= usize::MAX,
        ensures
            r == backoff_spec(base as nat, retry as nat, jitter as nat, max as nat),
    {
        assert(retry * retry <= usize::MAX) by (nonlinear_arith)
            requires
                base + retry * retry + jitter <= usize::MAX,
        ;
        let d = base + retry * retry + jitter;
        if d <= max {
            d
        } else {
            max
        }
    }

    /// The pause before retry number `retry`: base plus the square of the
    /// retry plus a random part of 0 to 500, at most `max`.
    pub fn exponential_backoff(base: usize, retry: usize, max: usize) -> (r: usize)
        requires
            base + retry * retry + 500 <= usize::MAX,
        ensures
            exists|j: nat| j <= 500 && r == backoff_spec(base as nat, retry as nat, j, max as nat),
    {
        let jitter = jitter_millis();
        let r = Self::backoff_delay(base, retry, jitter, max);
        assert(r == backoff_spec(base as nat, retry as nat, jitter as nat, max as nat));
        r
    }

    /// What to do after fetching a range failed with `error`, after
    /// `retry_count` retries of at most `max_retries`, while the download is
    /// still `running` or not: stop when it was stopped, give up once the
    /// retries are used up, and otherwise pause and retry.
    pub fn after_range_failure(retry_count: usize, max_retries: usize, running: bool, error: &str) -> (r:
        RangeFailureStep)
        requires
            1000 + retry_count * retry_count + 500 <= usize::MAX,
        ensures
            !running ==> r is Stop,
            running && retry_count >= max_retries ==> (r matches RangeFailureStep::GiveUp(m) && m@
                == range_failure_message(max_retries as nat, error@)),
            running && retry_count < max_retries ==> (r matches RangeFailureStep::RetryAfter(ms) && (
            exists|j: nat| j <= 500 && ms == backoff_spec(1000, retry_count as nat, j, 30000))),
    {
        if !running {
            return RangeFailureStep::Stop;
        }
        if retry_count >= max_retries {
            let mut m = String::from_str("下载失败，已重试 ");
            let k = u64_to_decimal(max_retries as u64);
            m.append(k.as_str());
            m.append(" 次: ");
            m.append(error);
            return RangeFailureStep::GiveUp(m);
        }
        RangeFailureStep::RetryAfter(Self::exponential_backoff(1000, retry_count, 30000))
    }

    /// The error when the file on disk has `found` bytes where `expected` were
    /// wanted: after a range-by-range download (`incomplete`) any difference
    /// is an error; after a whole-file download only when the expected size is
    /// known (not 0).
    pub fn check_length(found: u64, expected: u64, incomplete: bool) -> (r: Option<String>)
        ensures
            match r {
                Some(m) => found != expected && (incomplete || expected != 0) && m@
                    == length_mismatch_message(found as nat, expected as nat, incomplete),
                None => found == expected || (!incomplete && expected == 0),
            },
    {
        if found != expected && (incomplete || expected != 0) {
            let mut m = if incomplete {
                String::from_str("下载不完整: ")
            } else {
                String::from_str("文件大小不匹配: ")
            };
            let a = u64_to_decimal(found);
            let b = u64_to_decimal(expected);
            m.append(a.as_str());
            m.append(" != ");
            m.append(b.as_str());
            Some(m)
        } else {
            None
        }
    }

    /// Whether the bytes start with the gzip magic number.
    pub fn is_gzip_file(data: &[u8]) -> (r: bool)
        ensures
            r == is_gzip_spec(data@),
    {
        data.len() >= 2 && data[0] == 0x1f && data[1] == 0x8b
    }

    /// What a downloaded file becomes: unchanged (`None`) unless it starts
    /// with the gzip magic number, in which case its unpacked content, or an
    /// error when unpacking fails.
    pub fn decompress_gzip_bytes(data: &[u8]) -> (r: Result<Option<Vec<u8>>, String>)
        ensures
            !is_gzip_spec(data@) ==> r matches Ok(None),
            is_gzip_spec(data@) ==> match r {
                Ok(Some(v)) => gzip_decoded(data@) == Some(v@),
                Ok(None) => false,
                Err(m) => gzip_decoded(data@) is None && crate::text::starts_with(
                    m@,
                    "Failed to decompress: "@,
                ),
            },
    {
        if !Self::is_gzip_file(data) {
            return Ok(None);
        }
        match gunzip(data) {
            Ok(v) => Ok(Some(v)),
            Err(e) => {
                let m = concat_str("Failed to decompress: ", e.as_str());
                assert(m@.subrange(0, "Failed to decompress: "@.len() as int) =~= "Failed to decompress: "@);
                Err(m)
            },
        }
    }
}

/// A pause is never longer than the ceiling, and never shorter than the
/// base plus the square of the retry number unless the ceiling cuts it.
pub proof fn lemma_backoff_bounds(base: nat, retry: nat, jitter: nat, max: nat)
    requires
        jitter <= 500,
    ensures
        backoff_spec(base, retry, jitter, max) <= max,
        backoff_spec(base, retry, jitter, max) >= if base + retry * retry <= max {
            base + retry * retry
        } else {
            max
        },
        backoff_spec(base, retry, jitter, max) <= base + retry * retry + 500,
{
}

} // verus!
