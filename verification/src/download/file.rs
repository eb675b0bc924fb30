//! The file filter of a downloader.

use vstd::prelude::*;
use crate::download::downloader::ModelDownloader;
use crate::download::file_filter::{should_download as config_should_download, should_download_spec};
use crate::types::FileInfo;

verus! {

impl ModelDownloader {
    /// Whether `file` is to be downloaded under the patterns of this
    /// downloader's settings.
    pub fn should_download(&self, file: &FileInfo) -> (r: bool)
        ensures
            r == should_download_spec(
                self.config@.include_patterns,
                self.config@.exclude_patterns,
                file.rfilename@,
            ),
    {
        config_should_download(&self.config, file)
    }
}

} // verus!
