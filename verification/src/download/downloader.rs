//! The downloader of one repository: its settings, where files are stored,
//! and how the files are split between the top level and the folders.

use vstd::prelude::*;
use crate::config::{Config, ConfigView, local_model_dir, join_outcome, expand_tilde, join_path};
use crate::download::file_filter::should_download_spec;
use crate::text::views;
use crate::text::lemma_filter_step;
use crate::types::{Auth, FileInfo, RepoInfo};
use crate::text::{find_char, find_char_exec, last_segment, last_segment_exec, str_eq, lemma_find_from, opt_view};

verus! {

/// The settings, credentials and storage directory of a download.
pub struct ModelDownloader {
    pub config: Config,
    pub auth: Auth,
    pub cache_dir: String,
}

/// How a file is fetched.
#[derive(Debug, PartialEq, Eq, Structural)]
pub enum FetchMethod {
    /// Range by range, over several connections.
    Chunked,
    /// In one request.
    Whole,
}

/// The folder directly under the top of the repository that holds the file
/// `name` (the part before its first `/`); none for a file at the top.
pub open spec fn folder_of(name: Seq<char>) -> Option<Seq<char>> {
    match find_char(name, '/') {
        Some(k) => Some(name.subrange(0, k)),
        None => None,
    }
}

/// The file is at the top of the repository.
pub open spec fn at_top(f: FileInfo) -> bool {
    folder_of(f.rfilename@) is None
}

/// The file is in the folder `folder`.
pub open spec fn in_folder(f: FileInfo, folder: Seq<char>) -> bool {
    folder_of(f.rfilename@) == Some(folder)
}

/// The files of one folder.
pub struct FolderGroup {
    pub name: String,
    pub files: Vec<FileInfo>,
}

/// A file is fetched range by range when its size is known and above the
/// threshold.
pub open spec fn fetch_method_spec(size: Option<u64>, threshold: u64) -> FetchMethod {
    match size {
        Some(s) if s > threshold => FetchMethod::Chunked,
        _ => FetchMethod::Whole,
    }
}

/// How a file at the top of the repository is fetched.
pub fn fetch_method(size: Option<u64>, threshold: u64) -> (r: FetchMethod)
    ensures
        r == fetch_method_spec(size, threshold),
{
    match size {
        Some(s) => if s > threshold {
            FetchMethod::Chunked
        } else {
            FetchMethod::Whole
        },
        None => FetchMethod::Whole,
    }
}

/// The folder of the file `name`, if it is in one.
pub fn folder_name(name: &str) -> (r: Option<String>)
    ensures
        opt_view(r) == folder_of(name@),
{
    match find_char_exec(name, '/') {
        Some(k) => {
            proof {
                lemma_find_from(name@, '/', 0);
            }
            Some(String::from_str(name.substring_char(0, k)))
        },
        None => None,
    }
}

/// The files at the top of the repository, in their order.
pub fn top_level_files(files: &Vec<FileInfo>) -> (r: Vec<FileInfo>)
    ensures
        r@ == files@.filter(|f: FileInfo| at_top(f)),
{
    let mut out: Vec<FileInfo> = Vec::new();
    let mut i: usize = 0;
    while i < files.len()
        invariant
            0 <= i <= files@.len(),
            out@ == files@.subrange(0, i as int).filter(|f: FileInfo| at_top(f)),
        decreases files@.len() - i,
    {
        proof {
            lemma_filter_step(files@, i as int, |f: FileInfo| at_top(f));
        }
        let f = &files[i];
        if folder_name(f.rfilename.as_str()).is_none() {
            out.push(f.clone());
        }
        i += 1;
    }
    assert(files@.subrange(0, files@.len() as int) =~= files@);
    out
}

/// The files in the folder `folder`, in their order.
pub fn files_in_folder(files: &Vec<FileInfo>, folder: &str) -> (r: Vec<FileInfo>)
    ensures
        r@ == files@.filter(|f: FileInfo| in_folder(f, folder@)),
{
    let mut out: Vec<FileInfo> = Vec::new();
    let mut i: usize = 0;
    while i < files.len()
        invariant
            0 <= i <= files@.len(),
            out@ == files@.subrange(0, i as int).filter(|f: FileInfo| in_folder(f, folder@)),
        decreases files@.len() - i,
    {
        proof {
            lemma_filter_step(files@, i as int, |f: FileInfo| in_folder(f, folder@));
        }
        let f = &files[i];
        let same = match folder_name(f.rfilename.as_str()) {
            Some(name) => str_eq(name.as_str(), folder),
            None => false,
        };
        if same {
            out.push(f.clone());
        }
        i += 1;
    }
    assert(files@.subrange(0, files@.len() as int) =~= files@);
    out
}

/// `names` are the folders that hold files of `files`, each once.
pub open spec fn folder_names_of(files: Seq<FileInfo>, names: Seq<Seq<char>>) -> bool {
    &&& forall|i: int, j: int| 0 <= i < j < names.len() ==> names[i] != names[j]
    &&& forall|i: int| #![trigger names[i]] 0 <= i < names.len() ==>
        exists|k: int| 0 <= k < files.len() && in_folder(#[trigger] files[k], names[i])
    &&& forall|k: int| #![trigger files[k]] 0 <= k < files.len() && !at_top(files[k]) ==>
        exists|i: int| 0 <= i < names.len() && in_folder(files[k], #[trigger] names[i])
}

fn contains_name(names: &Vec<String>, name: &str) -> (r: bool)
    ensures
        r == exists|i: int| 0 <= i < names@.len() && #[trigger] names@[i]@ == name@,
{
    let mut i: usize = 0;
    while i < names.len()
        invariant
            0 <= i <= names@.len(),
            forall|j: int| 0 <= j < i ==> #[trigger] names@[j]@ != name@,
        decreases names@.len() - i,
    {
        if str_eq(names[i].as_str(), name) {
            return true;
        }
        i += 1;
    }
    false
}

/// The folders that hold files of `files`, each once, in order of first use.
pub fn folder_names(files: &Vec<FileInfo>) -> (r: Vec<String>)
    ensures
        folder_names_of(files@, crate::text::views(r@)),
{
    let mut names: Vec<String> = Vec::new();
    let mut i: usize = 0;
    while i < files.len()
        invariant
            0 <= i <= files@.len(),
            folder_names_of(files@.subrange(0, i as int), crate::text::views(names@)),
        decreases files@.len() - i,
    {
        let ghost pre = files@.subrange(0, i as int);
        let ghost post = files@.subrange(0, i + 1);
        let ghost before = crate::text::views(names@);
        assert forall|k: int| 0 <= k < pre.len() implies #[trigger] post[k] == pre[k] by {}
        let f = &files[i];
        assert(post[i as int] == *f);
        match folder_name(f.rfilename.as_str()) {
            Some(name) => {
                if !contains_name(&names, name.as_str()) {
                    names.push(name);
                    let ghost after = crate::text::views(names@);
                    assert(after =~= before.push(folder_of(f.rfilename@)->Some_0));
                    assert forall|a: int| #![trigger after[a]] 0 <= a < after.len() implies
                        exists|k: int| 0 <= k < post.len() && in_folder(#[trigger] post[k], after[a]) by {
                        if a < before.len() {
                            let k = choose|k: int| 0 <= k < pre.len() && in_folder(#[trigger] pre[k], before[a]);
                            assert(post[k] == pre[k]);
                        } else {
                            assert(in_folder(post[i as int], after[a]));
                        }
                    }
                    assert forall|k: int| #![trigger post[k]] 0 <= k < post.len() && !at_top(post[k]) implies
                        exists|a: int| 0 <= a < after.len() && in_folder(post[k], #[trigger] after[a]) by {
                        if k < pre.len() {
                            assert(post[k] == pre[k]);
                            let a = choose|a: int| 0 <= a < before.len() && in_folder(pre[k], #[trigger] before[a]);
                            assert(after[a] == before[a]);
                        } else {
                            assert(in_folder(post[k], after[before.len() as int]));
                        }
                    }
                    assert forall|a: int, b: int| 0 <= a < b < after.len() implies after[a] != after[b] by {
                        if b == before.len() {
                            assert(names@[a]@ == before[a]);
                        }
                    }
                } else {
                    let ghost a0 = choose|a: int| 0 <= a < names@.len() && #[trigger] names@[a]@ == name@;
                    assert(before[a0] == names@[a0]@);
                    assert forall|a: int| #![trigger before[a]] 0 <= a < before.len() implies
                        exists|k: int| 0 <= k < post.len() && in_folder(#[trigger] post[k], before[a]) by {
                        let k = choose|k: int| 0 <= k < pre.len() && in_folder(#[trigger] pre[k], before[a]);
                        assert(post[k] == pre[k]);
                    }
                    assert forall|k: int| #![trigger post[k]] 0 <= k < post.len() && !at_top(post[k]) implies
                        exists|a: int| 0 <= a < before.len() && in_folder(post[k], #[trigger] before[a]) by {
                        if k < pre.len() {
                            assert(post[k] == pre[k]);
                        } else {
                            assert(in_folder(post[k], before[a0]));
                        }
                    }
                }
            },
            None => {
                assert forall|a: int| #![trigger before[a]] 0 <= a < before.len() implies
                    exists|k: int| 0 <= k < post.len() && in_folder(#[trigger] post[k], before[a]) by {
                    let k = choose|k: int| 0 <= k < pre.len() && in_folder(#[trigger] pre[k], before[a]);
                    assert(post[k] == pre[k]);
                }
                assert forall|k: int| #![trigger post[k]] 0 <= k < post.len() && !at_top(post[k]) implies
                    exists|a: int| 0 <= a < before.len() && in_folder(post[k], #[trigger] before[a]) by {
                    assert(post[k] == pre[k]);
                }
            },
        }
        i += 1;
    }
    assert(files@.subrange(0, files@.len() as int) =~= files@);
    names
}


/// Where, and in which groups, the files of a repository are downloaded.
pub struct FilesPlan {
    /// The directory the files go to.
    pub base_path: String,
    /// The selected files at the top of the repository.
    pub root_files: Vec<FileInfo>,
    /// The selected files of each folder, one group per folder.
    pub folders: Vec<FolderGroup>,
}

/// The files of `files` that the patterns select.
pub open spec fn selected_files(
    files: Seq<FileInfo>,
    included: Seq<Seq<char>>,
    excluded: Seq<Seq<char>>,
) -> Seq<FileInfo> {
    files.filter(|f: FileInfo| should_download_spec(included, excluded, f.rfilename@))
}

/// `groups` hold the files of `files` folder by folder: one group per folder
/// that holds a file, each with the files of that folder in their order.
pub open spec fn grouped_by_folder(files: Seq<FileInfo>, groups: Seq<FolderGroup>) -> bool {
    &&& folder_names_of(files, groups.map_values(|g: FolderGroup| g.name@))
    &&& forall|i: int| 0 <= i < groups.len() ==> (#[trigger] groups[i]).files@ == files.filter(
        |f: FileInfo| in_folder(f, groups[i].name@),
    )
}

/// The settings of a downloader after the given patterns replace those of the
/// loaded settings.
pub open spec fn downloader_config(
    loaded: ConfigView,
    included: Option<Seq<Seq<char>>>,
    excluded: Option<Seq<Seq<char>>>,
) -> ConfigView {
    ConfigView {
        include_patterns: match included {
            Some(p) => p,
            None => loaded.include_patterns,
        },
        exclude_patterns: match excluded {
            Some(p) => p,
            None => loaded.exclude_patterns,
        },
        ..loaded
    }
}

impl ModelDownloader {
    /// A downloader with the settings `loaded` (read from the configuration
    /// files), whose patterns are replaced by those given, with the access
    /// token `token`, storing into `cache_dir` or else the configured model
    /// directory.
    pub fn new(
        cache_dir: Option<String>,
        include_patterns: Option<Vec<String>>,
        exclude_patterns: Option<Vec<String>>,
        token: Option<String>,
        loaded: Config,
    ) -> (r: ModelDownloader)
        ensures
            r.config@ == downloader_config(
                loaded@,
                crate::cli::opt_views(include_patterns),
                crate::cli::opt_views(exclude_patterns),
            ),
            r.auth.token == token,
            r.cache_dir@ == match cache_dir {
                Some(d) => d@,
                None => loaded.local_dir_base@,
            },
    {
        let mut config = loaded;
        if let Some(p) = include_patterns {
            config.include_patterns = p;
        }
        if let Some(p) = exclude_patterns {
            config.exclude_patterns = p;
        }
        let cache_dir = match cache_dir {
            Some(d) => d,
            None => config.local_dir_base.clone(),
        };
        ModelDownloader { config, auth: Auth { token }, cache_dir }
    }

    /// The directory the files of `model_id` go to: `base_path`, or, when a
    /// local directory is configured, the last part of `model_id` inside the
    /// dataset or model directory.
    pub fn download_base(&self, model_id: &str, base_path: &str, is_dataset: bool) -> (r: String)
        ensures
            !self.config.use_local_dir ==> r@ == base_path@,
            self.config.use_local_dir ==> local_model_dir(
                if is_dataset {
                    self.config.dataset_dir_base@
                } else {
                    self.config.local_dir_base@
                },
                last_segment(model_id@, '/'),
                r@,
            ),
    {
        if self.config.use_local_dir {
            let repo_name = last_segment_exec(model_id, '/');
            let base = if is_dataset {
                expand_tilde(self.config.dataset_dir_base.as_str())
            } else {
                expand_tilde(self.config.local_dir_base.as_str())
            };
            let r = join_path(base.as_str(), repo_name.as_str());
            assert(join_outcome(base@, repo_name@, r@));
            r
        } else {
            String::from_str(base_path)
        }
    }

    /// The files of `files` that this downloader's patterns select, in order.
    pub fn select_files(&self, files: Vec<FileInfo>) -> (r: Vec<FileInfo>)
        ensures
            r@ == selected_files(
                files@,
                self.config@.include_patterns,
                self.config@.exclude_patterns,
            ),
    {
        let ghost inc = self.config@.include_patterns;
        let ghost exc = self.config@.exclude_patterns;
        let mut out: Vec<FileInfo> = Vec::new();
        let mut i: usize = 0;
        while i < files.len()
            invariant
                inc == self.config@.include_patterns,
                exc == self.config@.exclude_patterns,
                0 <= i <= files@.len(),
                out@ == files@.subrange(0, i as int).filter(
                    |f: FileInfo| should_download_spec(inc, exc, f.rfilename@),
                ),
            decreases files@.len() - i,
        {
            proof {
                lemma_filter_step(
                    files@,
                    i as int,
                    |f: FileInfo| should_download_spec(inc, exc, f.rfilename@),
                );
            }
            if self.should_download(&files[i]) {
                out.push(files[i].clone());
            }
            i += 1;
        }
        assert(files@.subrange(0, files@.len() as int) =~= files@);
        out
    }

    /// Where and in which groups the files of `repo_info` are downloaded: the
    /// files the patterns select, split between those at the top of the
    /// repository and those of each folder.
    pub fn plan_files(
        &self,
        model_id: &str,
        base_path: &str,
        is_dataset: bool,
        repo_info: RepoInfo,
    ) -> (r: FilesPlan)
        ensures
            !self.config.use_local_dir ==> r.base_path@ == base_path@,
            self.config.use_local_dir ==> local_model_dir(
                if is_dataset {
                    self.config.dataset_dir_base@
                } else {
                    self.config.local_dir_base@
                },
                last_segment(model_id@, '/'),
                r.base_path@,
            ),
            ({
                let sel = selected_files(
                    repo_info.files@,
                    self.config@.include_patterns,
                    self.config@.exclude_patterns,
                );
                &&& r.root_files@ == sel.filter(|f: FileInfo| at_top(f))
                &&& grouped_by_folder(sel, r.folders@)
            }),
    {
        let base = self.download_base(model_id, base_path, is_dataset);
        let files = self.select_files(repo_info.files);
        let root = top_level_files(&files);
        let names = folder_names(&files);
        let mut groups: Vec<FolderGroup> = Vec::new();
        let mut j: usize = 0;
        while j < names.len()
            invariant
                0 <= j <= names@.len(),
                groups@.len() == j,
                forall|a: int| 0 <= a < j ==> (#[trigger] groups@[a]).name@ == names@[a]@,
                forall|a: int| 0 <= a < j ==> (#[trigger] groups@[a]).files@ == files@.filter(
                    |f: FileInfo| in_folder(f, groups@[a].name@),
                ),
            decreases names@.len() - j,
        {
            let members = files_in_folder(&files, names[j].as_str());
            groups.push(FolderGroup { name: names[j].clone(), files: members });
            j += 1;
        }
        assert(groups@.map_values(|g: FolderGroup| g.name@) =~= views(names@));
        FilesPlan { base_path: base, root_files: root, folders: groups }
    }
}

/// Every file lies either at the top of the repository or in exactly one of
/// the folder groups.
pub proof fn lemma_each_file_in_one_place(files: Seq<FileInfo>, names: Seq<Seq<char>>)
    requires
        folder_names_of(files, names),
    ensures
        forall|k: int| #![trigger files[k]] 0 <= k < files.len() ==> (at_top(files[k]) <==> forall|
            i: int,
        | 0 <= i < names.len() ==> !in_folder(files[k], #[trigger] names[i])),
        forall|k: int, i: int, j: int|
            0 <= k < files.len() && 0 <= i < names.len() && 0 <= j < names.len() && in_folder(
                #[trigger] files[k],
                #[trigger] names[i],
            ) && in_folder(files[k], #[trigger] names[j]) ==> i == j,
{
}

} // verus!
