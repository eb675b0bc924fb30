//! Decisions of a whole-file download and of the download of a folder: what is
//! already on disk, where to resume, and how much remains.

use vstd::prelude::*;
use crate::types::FileInfo;
use crate::text::{decimal, u64_to_decimal, first_segment, first_segment_exec, find_char, find_char_exec};

verus! {

/// How a whole-file download begins.
pub enum SmallStart {
    /// The file on disk is already as long as the file.
    AlreadyComplete,
    /// Fetch from byte `resume_from` on; `range` is the `Range` header to send
    /// when resuming.
    Fetch { resume_from: u64, range: Option<String> },
}

/// The `Range` header asking for everything from byte `from` on.
pub open spec fn open_range_header(from: nat) -> Seq<char> {
    "bytes="@ + decimal(from) + "-"@
}

/// Decides how a whole-file download begins from the size the repository
/// gave (if any) and the length of the file on disk (if it exists): nothing is
/// fetched when the known size is already on disk; otherwise a non-empty file
/// on disk is resumed from its end.
pub fn small_file_start(known_size: Option<u64>, on_disk: Option<u64>) -> (r: SmallStart)
    ensures
        match (known_size, on_disk) {
            (Some(size), Some(len)) if len >= size => r is AlreadyComplete,
            _ => match on_disk {
                Some(len) if len > 0 => r matches SmallStart::Fetch { resume_from, range } && (
                resume_from == len && (range matches Some(h) && h@ == open_range_header(
                    len as nat,
                ))),
                _ => r matches SmallStart::Fetch { resume_from, range } && (resume_from == 0
                    && range is None),
            },
        },
{
    if let (Some(size), Some(len)) = (known_size, on_disk) {
        if len >= size {
            return SmallStart::AlreadyComplete;
        }
    }
    match on_disk {
        Some(len) => {
            if len > 0 {
                let mut h = String::from_str("bytes=");
                let d = u64_to_decimal(len);
                h.append(d.as_str());
                h.append("-");
                SmallStart::Fetch { resume_from: len, range: Some(h) }
            } else {
                SmallStart::Fetch { resume_from: 0, range: None }
            }
        },
        None => SmallStart::Fetch { resume_from: 0, range: None },
    }
}

/// The error when the size of a file can be learnt neither from the
/// repository nor from the response.
pub open spec fn unknown_size_message() -> Seq<char> {
    "Could not determine file size"@
}

/// The total size of a file being fetched whole: the size the repository
/// gave, or else the length of the response plus what was already on disk.
pub fn small_file_total(known_size: Option<u64>, content_length: Option<u64>, resumed: u64) -> (r:
    Result<u64, String>)
    requires
        known_size is None && content_length is Some ==> content_length->Some_0 + resumed
            <= u64::MAX,
    ensures
        match known_size {
            Some(size) => r == Ok::<u64, String>(size),
            None => match content_length {
                Some(len) => r == Ok::<u64, String>((len + resumed) as u64),
                None => r matches Err(m) && m@ == unknown_size_message(),
            },
        },
{
    match known_size {
        Some(size) => Ok(size),
        None => match content_length {
            Some(len) => Ok(len + resumed),
            None => Err(String::from_str("Could not determine file size")),
        },
    }
}

/// The files of a folder still to fetch and what is already on disk, over
/// the first `n` files: the files still needing bytes, the bytes still
/// missing, the bytes on disk, and the number of complete files. Files of
/// unknown size are left out of all four.
pub open spec fn folder_tally(files: Seq<FileInfo>, on_disk: Seq<u64>, n: int) -> (
    Seq<FileInfo>,
    nat,
    nat,
    nat,
)
    decreases n,
{
    if n <= 0 {
        (Seq::empty(), 0, 0, 0)
    } else {
        let (need, missing, present, complete) = folder_tally(files, on_disk, n - 1);
        let f = files[n - 1];
        match f.size {
            None => (need, missing, present, complete),
            Some(size) => {
                let d = on_disk[n - 1];
                if d < size {
                    (need.push(f), missing + (size - d) as nat, present + d as nat, complete)
                } else {
                    (need, missing, present + d as nat, complete + 1)
                }
            },
        }
    }
}

proof fn lemma_folder_tally_monotone(files: Seq<FileInfo>, on_disk: Seq<u64>, m: int, n: int)
    requires
        0 <= m <= n,
    ensures
        folder_tally(files, on_disk, m).1 <= folder_tally(files, on_disk, n).1,
        folder_tally(files, on_disk, m).2 <= folder_tally(files, on_disk, n).2,
        folder_tally(files, on_disk, n).3 <= n,
    decreases n,
{
    if n > 0 {
        if m < n {
            lemma_folder_tally_monotone(files, on_disk, m, n - 1);
        } else {
            lemma_folder_tally_monotone(files, on_disk, n - 1, n - 1);
        }
    }
}

/// What a folder download has left to do.
pub struct FolderTally {
    /// The files still needing bytes, in order.
    pub need: Vec<FileInfo>,
    /// The bytes still missing.
    pub total_download_size: u64,
    /// The bytes already on disk.
    pub downloaded_size: u64,
    /// The number of files already complete.
    pub downloaded_files: usize,
}

/// Tallies the files of a folder against the lengths `on_disk` of the files
/// already there (0 for a missing file), in the same order.
pub fn plan_folder(files: &Vec<FileInfo>, on_disk: &Vec<u64>) -> (r: FolderTally)
    requires
        files@.len() == on_disk@.len(),
        folder_tally(files@, on_disk@, files@.len() as int).1 <= u64::MAX,
        folder_tally(files@, on_disk@, files@.len() as int).2 <= u64::MAX,
    ensures
        ({
            let t = folder_tally(files@, on_disk@, files@.len() as int);
            &&& r.need@ == t.0
            &&& r.total_download_size == t.1
            &&& r.downloaded_size == t.2
            &&& r.downloaded_files == t.3
        }),
{
    let ghost n = files@.len() as int;
    let mut need: Vec<FileInfo> = Vec::new();
    let mut missing: u64 = 0;
    let mut present: u64 = 0;
    let mut complete: usize = 0;
    let mut i: usize = 0;
    while i < files.len()
        invariant
            n == files@.len(),
            files@.len() == on_disk@.len(),
            folder_tally(files@, on_disk@, n).1 <= u64::MAX,
            folder_tally(files@, on_disk@, n).2 <= u64::MAX,
            0 <= i <= n,
            ({
                let t = folder_tally(files@, on_disk@, i as int);
                &&& need@ == t.0
                &&& missing == t.1
                &&& present == t.2
                &&& complete == t.3
            }),
        decreases n - i,
    {
        proof {
            lemma_folder_tally_monotone(files@, on_disk@, i + 1, n);
            lemma_folder_tally_monotone(files@, on_disk@, i + 1, i + 1);
        }
        let f = &files[i];
        match f.size {
            Some(size) => {
                let d = on_disk[i];
                if d < size {
                    need.push(f.clone());
                    missing = missing + (size - d);
                    present = present + d;
                } else {
                    present = present + d;
                    complete = complete + 1;
                }
            },
            None => {},
        }
        i += 1;
    }
    FolderTally { need, total_download_size: missing, downloaded_size: present, downloaded_files: complete }
}

/// The name shown for a folder download: when the first file still to fetch
/// lies in a subfolder, the part of its path before the first `/`; otherwise
/// the name of the folder.
pub open spec fn folder_display_name_spec(need: Seq<FileInfo>, folder_name: Seq<char>) -> Seq<char> {
    if need.len() > 0 && find_char(need[0].rfilename@, '/') is Some {
        first_segment(need[0].rfilename@, '/')
    } else {
        folder_name
    }
}

/// The name shown for a folder download.
pub fn folder_display_name(need: &Vec<FileInfo>, folder_name: &str) -> (r: String)
    ensures
        r@ == folder_display_name_spec(need@, folder_name@),
{
    if need.len() > 0 && find_char_exec(need[0].rfilename.as_str(), '/').is_some() {
        first_segment_exec(need[0].rfilename.as_str(), '/')
    } else {
        String::from_str(folder_name)
    }
}

/// A folder download fetches exactly the files of known size that are not
/// yet complete on disk, and the bytes it counts as missing and present add
/// up to the sizes of the files it counts.
pub proof fn lemma_folder_tally_accounts(files: Seq<FileInfo>, on_disk: Seq<u64>, n: int)
    requires
        0 <= n <= files.len(),
        files.len() == on_disk.len(),
    ensures
        ({
            let t = folder_tally(files, on_disk, n);
            &&& forall|i: int| 0 <= i < t.0.len() ==> (#[trigger] t.0[i]).size is Some
            &&& t.0.len() + t.3 == files.subrange(0, n).filter(|f: FileInfo| f.size is Some).len()
        }),
    decreases n,
{
    reveal(Seq::filter);
    if n > 0 {
        lemma_folder_tally_accounts(files, on_disk, n - 1);
        assert(files.subrange(0, n).drop_last() =~= files.subrange(0, n - 1));
    }
}

/// The tally adds up file by file: before any file everything is zero, and
/// each further file of known size `s` with `d` bytes on disk adds `d` to the
/// bytes present and either, when `d < s`, itself to the files still to fetch
/// and `s - d` to the bytes missing, or else one to the complete files; a
/// file of unknown size changes nothing.
pub proof fn lemma_folder_tally_adds(files: Seq<FileInfo>, on_disk: Seq<u64>, n: int)
    requires
        0 < n <= files.len(),
        files.len() == on_disk.len(),
    ensures
        folder_tally(files, on_disk, 0) == (Seq::<FileInfo>::empty(), 0nat, 0nat, 0nat),
        ({
            let t = folder_tally(files, on_disk, n);
            let p = folder_tally(files, on_disk, n - 1);
            let f = files[n - 1];
            let d = on_disk[n - 1];
            match f.size {
                None => t == p,
                Some(s) => if d < s {
                    &&& t.0 == p.0.push(f)
                    &&& t.1 == p.1 + (s - d)
                    &&& t.2 == p.2 + d
                    &&& t.3 == p.3
                } else {
                    &&& t.0 == p.0
                    &&& t.1 == p.1
                    &&& t.2 == p.2 + d
                    &&& t.3 == p.3 + 1
                },
            }
        }),
{
}

} // verus!
