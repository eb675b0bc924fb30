//! The list of files of a repository, as its description gives it.

use vstd::prelude::*;
use crate::types::FileInfo;
use crate::download::repo::{sibling_names, listed_names, no_files_message};
use crate::text::views;

verus! {

/// The error when the description could not be had.
pub open spec fn repo_info_failure_message(status: Seq<char>) -> Seq<char> {
    "Failed to get repository info: "@ + status
}

/// The error when the description could not be had, with the status or
/// error text `detail`.
pub fn repo_info_failure(detail: &str) -> (r: String)
    ensures
        r@ == repo_info_failure_message(detail@),
{
    let mut m = String::from_str("Failed to get repository info: ");
    m.append(detail);
    m
}

/// The files a description lists, with unknown sizes, or the error when it
/// has no list of siblings.
pub fn get_file_list(siblings: Option<Vec<Option<String>>>) -> (r: Result<Vec<FileInfo>, String>)
    ensures
        match siblings {
            None => r matches Err(m) && m@ == no_files_message(),
            Some(s) => r matches Ok(files) && (files@.len() == listed_names(s@).len() && forall|i: int|
                0 <= i < files@.len() ==> (#[trigger] files@[i]).rfilename@ == listed_names(s@)[i]
                && files@[i].size is None),
        },
{
    match sibling_names(siblings) {
        Err(m) => Err(m),
        Ok(names) => {
            let ghost ns = views(names@);
            let mut files: Vec<FileInfo> = Vec::new();
            let mut i: usize = 0;
            while i < names.len()
                invariant
                    ns == views(names@),
                    0 <= i <= names@.len(),
                    files@.len() == i,
                    forall|j: int| 0 <= j < i ==> (#[trigger] files@[j]).rfilename@ == ns[j]
                        && files@[j].size is None,
                decreases names@.len() - i,
            {
                files.push(FileInfo { rfilename: names[i].clone(), size: None });
                i += 1;
            }
            Ok(files)
        },
    }
}

} // verus!
