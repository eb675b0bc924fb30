//! Messages shown on the progress bars of a download.

use vstd::prelude::*;

verus! {

/// The message of the bar of a folder.
pub open spec fn folder_progress_message(folder_name: Seq<char>) -> Seq<char> {
    "Downloading folder: "@ + folder_name
}

/// The message of the bar of a file inside a folder.
pub open spec fn file_progress_message(file_name: Seq<char>, folder_name: Seq<char>) -> Seq<char> {
    "["@ + folder_name + "] Downloading: "@ + file_name
}

/// The message of a bar whose download failed.
pub open spec fn failure_message(msg: Seq<char>) -> Seq<char> {
    "Download failed: "@ + msg
}

/// The message of the bar of a folder.
pub fn folder_message(folder_name: &str) -> (r: String)
    ensures
        r@ == folder_progress_message(folder_name@),
{
    let mut m = String::from_str("Downloading folder: ");
    m.append(folder_name);
    m
}

/// The message of the bar of a file inside a folder.
pub fn file_message(file_name: &str, folder_name: &str) -> (r: String)
    ensures
        r@ == file_progress_message(file_name@, folder_name@),
{
    let mut m = String::from_str("[");
    m.append(folder_name);
    m.append("] Downloading: ");
    m.append(file_name);
    m
}

/// The message of a bar whose download failed with `msg`.
pub fn failed_message(msg: &str) -> (r: String)
    ensures
        r@ == failure_message(msg@),
{
    let mut m = String::from_str("Download failed: ");
    m.append(msg);
    m
}

/// The message of a bar whose download completed.
pub fn completed_message() -> (r: String)
    ensures
        r@ == "Download completed"@,
{
    String::from_str("Download completed")
}

/// The message of a bar whose download was cancelled.
pub fn cancelled_message() -> (r: String)
    ensures
        r@ == "Download cancelled"@,
{
    String::from_str("Download cancelled")
}

} // verus!
