//! Splitting a file into byte ranges fetched separately, and the retry rule
//! for one range.

use vstd::prelude::*;
use crate::text::{decimal, u64_to_decimal, concat_str};

verus! {

/// A half-open range of byte offsets `[start, end)` of a file.
#[derive(Clone, Copy, Debug, PartialEq, Eq, Structural)]
pub struct ByteRange {
    pub start: u64,
    pub end: u64,
}

/// How many ranges of `chunk_size` bytes cover `size` bytes.
pub open spec fn chunk_count(size: nat, chunk_size: nat) -> nat
    recommends
        chunk_size > 0,
{
    ((size + chunk_size - 1) / (chunk_size as int)) as nat
}

/// The `i`-th range of `chunk_size` bytes of a file of `size` bytes; the last
/// one is cut at the end of the file.
pub open spec fn chunk_range(i: nat, size: nat, chunk_size: nat) -> (nat, nat) {
    let start = i * chunk_size;
    let end = if start + chunk_size <= size { start + chunk_size } else { size };
    (start, end)
}

/// The value of an HTTP `Range` header asking for the bytes `first..=last`.
pub open spec fn range_header_spec(first: nat, last: nat) -> Seq<char> {
    "bytes="@ + decimal(first) + "-"@ + decimal(last)
}

impl ByteRange {
    /// The number of bytes in the range.
    pub open spec fn len_spec(self) -> int {
        self.end - self.start
    }

    /// The `Range` header that asks for exactly these bytes.
    pub fn header(&self) -> (r: String)
        requires
            self.start < self.end,
        ensures
            r@ == range_header_spec(self.start as nat, (self.end - 1) as nat),
    {
        let first = u64_to_decimal(self.start);
        let last = u64_to_decimal(self.end - 1);
        let a = concat_str("bytes=", first.as_str());
        let b = concat_str(a.as_str(), "-");
        concat_str(b.as_str(), last.as_str())
    }
}

proof fn lemma_chunk_bounds(i: nat, size: nat, cs: nat)
    requires
        cs > 0,
        i < chunk_count(size, cs),
    ensures
        i * cs < size,
        (i + 1) * cs == i * cs + cs,
{
    let n = chunk_count(size, cs);
    assert(n * cs <= size + cs - 1) by (nonlinear_arith)
        requires
            n == ((size + cs - 1) / (cs as int)) as nat,
            cs > 0,
            size >= 0,
    ;
    assert(i * cs + cs <= n * cs) by (nonlinear_arith)
        requires
            i < n,
            cs > 0,
    ;
    assert((i + 1) * cs == i * cs + cs) by (nonlinear_arith);
}

proof fn lemma_chunk_count_covers(size: nat, cs: nat)
    requires
        cs > 0,
    ensures
        chunk_count(size, cs) * cs >= size,
        size > 0 ==> chunk_count(size, cs) > 0,
        chunk_count(size, cs) > 0 ==> (chunk_count(size, cs) - 1) * cs < size,
{
    let n = chunk_count(size, cs);
    assert(n * cs >= size) by (nonlinear_arith)
        requires
            n == ((size + cs - 1) / (cs as int)) as nat,
            cs > 0,
            size >= 0,
    ;
    assert(size > 0 ==> n > 0) by (nonlinear_arith)
        requires
            n * cs >= size,
    ;
    if n > 0 {
        lemma_chunk_bounds((n - 1) as nat, size, cs);
    }
}

/// The ranges of `chunk_size` bytes that cover a file of `size` bytes, in
/// order of their offsets.
pub fn plan_chunks(size: u64, chunk_size: u64) -> (r: Vec<ByteRange>)
    requires
        chunk_size > 0,
        size + chunk_size - 1 <= u64::MAX,
    ensures
        r@.len() == chunk_count(size as nat, chunk_size as nat),
        forall|i: int| 0 <= i < r@.len() ==>
            (#[trigger] r@[i].start as nat, r@[i].end as nat)
                == chunk_range(i as nat, size as nat, chunk_size as nat),
{
    let n: u64 = (size + (chunk_size - 1)) / chunk_size;
    let mut out: Vec<ByteRange> = Vec::new();
    let mut i: u64 = 0;
    while i < n
        invariant
            chunk_size > 0,
            size + chunk_size - 1 <= u64::MAX,
            n == chunk_count(size as nat, chunk_size as nat),
            i <= n,
            out@.len() == i,
            forall|j: int| 0 <= j < out@.len() ==>
                (#[trigger] out@[j].start as nat, out@[j].end as nat)
                    == chunk_range(j as nat, size as nat, chunk_size as nat),
        decreases n - i,
    {
        proof {
            lemma_chunk_bounds(i as nat, size as nat, chunk_size as nat);
        }
        let start: u64 = i * chunk_size;
        let end: u64 = if start + chunk_size <= size { start + chunk_size } else { size };
        out.push(ByteRange { start, end });
        i += 1;
    }
    out
}

/// The ranges of a plan tile the file: the first starts at offset 0, each
/// ends where the next begins, the last ends at the end of the file, and each
/// holds between one and `chunk_size` bytes.
pub proof fn lemma_chunks_tile_file(size: nat, chunk_size: nat)
    requires
        chunk_size > 0,
    ensures
        size == 0 <==> chunk_count(size, chunk_size) == 0,
        size > 0 ==> chunk_range(0, size, chunk_size).0 == 0,
        size > 0 ==> chunk_range((chunk_count(size, chunk_size) - 1) as nat, size, chunk_size).1
            == size,
        forall|i: nat| #![trigger chunk_range(i, size, chunk_size)]
            i < chunk_count(size, chunk_size) ==> {
                let (s, e) = chunk_range(i, size, chunk_size);
                &&& s < e
                &&& e - s <= chunk_size
                &&& (i + 1 < chunk_count(size, chunk_size) ==> e == chunk_range(
                    i + 1,
                    size,
                    chunk_size,
                ).0)
            },
{
    lemma_chunk_count_covers(size, chunk_size);
    assert(0 * chunk_size == 0) by (nonlinear_arith);
    if size == 0 {
        assert(chunk_count(size, chunk_size) == 0) by (nonlinear_arith)
            requires
                chunk_size > 0,
                chunk_count(size, chunk_size) == ((size + chunk_size - 1) / (
                chunk_size as int)) as nat,
                size == 0,
        ;
    }
    assert forall|i: nat| #![trigger chunk_range(i, size, chunk_size)]
        i < chunk_count(size, chunk_size) implies {
            let (s, e) = chunk_range(i, size, chunk_size);
            &&& s < e
            &&& e - s <= chunk_size
            &&& (i + 1 < chunk_count(size, chunk_size) ==> e == chunk_range(
                i + 1,
                size,
                chunk_size,
            ).0)
        } by {
        lemma_chunk_bounds(i, size, chunk_size);
        if i + 1 < chunk_count(size, chunk_size) {
            lemma_chunk_bounds(i + 1, size, chunk_size);
        }
    }
    if size > 0 {
        let last = (chunk_count(size, chunk_size) - 1) as nat;
        lemma_chunk_bounds(last, size, chunk_size);
        assert(last * chunk_size + chunk_size >= size) by (nonlinear_arith)
            requires
                chunk_count(size, chunk_size) * chunk_size >= size,
                last + 1 == chunk_count(size, chunk_size),
        ;
    }
}


/// Where a file of a repository is downloaded from:
/// `{endpoint}/datasets/{repo}/resolve/main/{file}` for a dataset and
/// `{endpoint}/{repo}/resolve/main/{file}` otherwise.
pub open spec fn file_url_spec(
    endpoint: Seq<char>,
    repo_id: Seq<char>,
    rfilename: Seq<char>,
    is_dataset: bool,
) -> Seq<char> {
    if is_dataset {
        endpoint + "/datasets/"@ + repo_id + "/resolve/main/"@ + rfilename
    } else {
        endpoint + "/"@ + repo_id + "/resolve/main/"@ + rfilename
    }
}

/// The download address of `rfilename` in the repository `repo_id`.
pub fn file_url(endpoint: &str, repo_id: &str, rfilename: &str, is_dataset: bool) -> (r: String)
    ensures
        r@ == file_url_spec(endpoint@, repo_id@, rfilename@, is_dataset),
{
    let mut u = String::from_str(endpoint);
    if is_dataset {
        u.append("/datasets/");
    } else {
        u.append("/");
    }
    u.append(repo_id);
    u.append("/resolve/main/");
    u.append(rfilename);
    u
}

/// How a range-by-range download of a file begins.
pub enum ChunkedStart {
    /// The size of the file is not known, which this kind of download needs.
    Refused(String),
    /// The file on disk is already at least as long as the file.
    AlreadyComplete,
    /// The file of this many bytes is to be fetched.
    Fetch(u64),
}

/// The error of a range-by-range download of a file of unknown size.
pub open spec fn missing_size_message() -> Seq<char> {
    "File size is required for chunked download"@
}

/// Decides how a range-by-range download begins from the size that the
/// repository gave (if any) and the length of the file on disk (if it exists).
pub fn chunked_start(known_size: Option<u64>, on_disk: Option<u64>) -> (r: ChunkedStart)
    ensures
        match known_size {
            None => r matches ChunkedStart::Refused(m) && m@ == missing_size_message(),
            Some(size) => match on_disk {
                Some(len) if len >= size => r is AlreadyComplete,
                _ => r == ChunkedStart::Fetch(size),
            },
        },
{
    match known_size {
        None => ChunkedStart::Refused(String::from_str("File size is required for chunked download")),
        Some(size) => {
            match on_disk {
                Some(len) => {
                    if len >= size {
                        ChunkedStart::AlreadyComplete
                    } else {
                        ChunkedStart::Fetch(size)
                    }
                },
                None => ChunkedStart::Fetch(size),
            }
        },
    }
}

/// What came of one request for a range.
pub enum FetchOutcome {
    /// A response arrived; `success` tells whether its status is a success.
    Response { success: bool },
    /// The request could not be sent.
    SendFailed,
    /// No response came in time.
    TimedOut,
}

/// What to do after one request for a range.
pub enum FetchStep {
    /// Read the body of the response into the file.
    ReadBody,
    /// Pause, then send the request again.
    Retry,
    /// Stop with this error.
    Fail(String),
}

/// The attempts made so far for one range, and how many are allowed.
pub struct ChunkRetry {
    pub retries: usize,
    pub max_retries: usize,
}

/// The error after a refused status.
pub open spec fn status_failure_message(status: Seq<char>) -> Seq<char> {
    "Failed to download chunk: "@ + status
}

/// The error after the last request could not be sent.
pub open spec fn send_failure_message(max_retries: nat, error: Seq<char>) -> Seq<char> {
    "Failed to download chunk after "@ + decimal(max_retries) + " retries: "@ + error
}

/// The error after the last request timed out.
pub open spec fn timeout_message(max_retries: nat) -> Seq<char> {
    "Download timed out after "@ + decimal(max_retries) + " retries"@
}

/// The error when no request is allowed at all.
pub open spec fn exhausted_message() -> Seq<char> {
    "Maximum retries exceeded"@
}

impl ChunkRetry {
    /// No attempt made yet.
    pub fn new(max_retries: usize) -> (r: ChunkRetry)
        ensures
            r.retries == 0,
            r.max_retries == max_retries,
    {
        ChunkRetry { retries: 0, max_retries }
    }

    /// Whether another request may be sent.
    pub fn can_attempt(&self) -> (r: bool)
        ensures
            r == (self.retries < self.max_retries),
    {
        self.retries < self.max_retries
    }

    /// The error once no request may be sent any more.
    pub fn exhausted(&self) -> (r: String)
        ensures
            r@ == exhausted_message(),
    {
        String::from_str("Maximum retries exceeded")
    }

    /// Records the outcome of a request; `detail` is the status of a refused
    /// response or the error of a request that could not be sent. A failure
    /// to send or a timeout counts as one retry, and is given up once the
    /// retries reach the limit; a refused status is given up at once.
    pub fn record(&mut self, outcome: FetchOutcome, detail: &str) -> (step: FetchStep)
        requires
            old(self).retries < old(self).max_retries,
        ensures
            final(self).max_retries == old(self).max_retries,
            final(self).retries <= final(self).max_retries,
            match outcome {
                FetchOutcome::Response { success } => {
                    &&& final(self).retries == old(self).retries
                    &&& if success {
                        step is ReadBody
                    } else {
                        step matches FetchStep::Fail(m) && m@ == status_failure_message(detail@)
                    }
                },
                FetchOutcome::SendFailed => {
                    &&& final(self).retries == old(self).retries + 1
                    &&& if final(self).retries >= final(self).max_retries {
                        step matches FetchStep::Fail(m) && m@ == send_failure_message(
                            old(self).max_retries as nat,
                            detail@,
                        )
                    } else {
                        step is Retry
                    }
                },
                FetchOutcome::TimedOut => {
                    &&& final(self).retries == old(self).retries + 1
                    &&& if final(self).retries >= final(self).max_retries {
                        step matches FetchStep::Fail(m) && m@ == timeout_message(
                            old(self).max_retries as nat,
                        )
                    } else {
                        step is Retry
                    }
                },
            },
    {
        match outcome {
            FetchOutcome::Response { success } => {
                if success {
                    FetchStep::ReadBody
                } else {
                    FetchStep::Fail(concat_str("Failed to download chunk: ", detail))
                }
            },
            FetchOutcome::SendFailed => {
                self.retries = self.retries + 1;
                if self.retries >= self.max_retries {
                    let mut m = String::from_str("Failed to download chunk after ");
                    let k = u64_to_decimal(self.max_retries as u64);
                    m.append(k.as_str());
                    m.append(" retries: ");
                    m.append(detail);
                    FetchStep::Fail(m)
                } else {
                    FetchStep::Retry
                }
            },
            FetchOutcome::TimedOut => {
                self.retries = self.retries + 1;
                if self.retries >= self.max_retries {
                    let mut m = String::from_str("Download timed out after ");
                    let k = u64_to_decimal(self.max_retries as u64);
                    m.append(k.as_str());
                    m.append(" retries");
                    FetchStep::Fail(m)
                } else {
                    FetchStep::Retry
                }
            },
        }
    }
}

} // verus!
