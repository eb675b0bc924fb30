//! The files of a repository and the credentials used to fetch them.

use vstd::prelude::*;

verus! {

/// A file of a repository: its path inside the repository and, when known,
/// its size in bytes.
#[derive(Debug)]
pub struct FileInfo {
    pub rfilename: String,
    pub size: Option<u64>,
}

impl Clone for FileInfo {
    fn clone(&self) -> (r: Self)
        ensures
            r == *self,
    {
        FileInfo { rfilename: self.rfilename.clone(), size: self.size }
    }
}

/// A repository: the page of the model or of the dataset it is, and its files.
#[derive(Debug)]
pub struct RepoInfo {
    pub model_endpoint: Option<String>,
    pub dataset_endpoint: Option<String>,
    pub files: Vec<FileInfo>,
}

impl RepoInfo {
    /// Whether the repository is a dataset.
    pub fn is_dataset(&self) -> (r: bool)
        ensures
            r == self.dataset_endpoint.is_some(),
    {
        self.dataset_endpoint.is_some()
    }
}

/// The access token sent with requests, if any.
#[derive(Debug)]
pub struct Auth {
    pub token: Option<String>,
}

impl Clone for Auth {
    fn clone(&self) -> (r: Self)
        ensures
            r == *self,
    {
        Auth {
            token: match &self.token {
                Some(t) => Some(t.clone()),
                None => None,
            },
        }
    }
}

} // verus!
