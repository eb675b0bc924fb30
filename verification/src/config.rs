//! Settings of the downloader: their defaults, how settings read from the
//! configuration files are combined, and where a model is stored.

use vstd::prelude::*;
use crate::text::{starts_with, has_char, views, opt_view};

verus! {

/// Settings of the downloader.
#[derive(Debug, Clone)]
pub struct Config {
    pub endpoint: String,
    pub use_local_dir: bool,
    pub local_dir_base: String,
    pub dataset_dir_base: String,
    pub concurrent_downloads: usize,
    pub max_download_speed: Option<u64>,
    pub connections_per_download: usize,
    pub parallel_download_threshold: u64,
    pub buffer_size: usize,
    pub chunk_size: usize,
    pub max_retries: usize,
    pub include_patterns: Vec<String>,
    pub exclude_patterns: Vec<String>,
    pub hf_username: Option<String>,
    pub hf_token: Option<String>,
}

/// The settings as plain values.
pub struct ConfigView {
    pub endpoint: Seq<char>,
    pub use_local_dir: bool,
    pub local_dir_base: Seq<char>,
    pub dataset_dir_base: Seq<char>,
    pub concurrent_downloads: usize,
    pub max_download_speed: Option<u64>,
    pub connections_per_download: usize,
    pub parallel_download_threshold: u64,
    pub buffer_size: usize,
    pub chunk_size: usize,
    pub max_retries: usize,
    pub include_patterns: Seq<Seq<char>>,
    pub exclude_patterns: Seq<Seq<char>>,
    pub hf_username: Option<Seq<char>>,
    pub hf_token: Option<Seq<char>>,
}

impl View for Config {
    type V = ConfigView;

    open spec fn view(&self) -> ConfigView {
        ConfigView {
            endpoint: self.endpoint@,
            use_local_dir: self.use_local_dir,
            local_dir_base: self.local_dir_base@,
            dataset_dir_base: self.dataset_dir_base@,
            concurrent_downloads: self.concurrent_downloads,
            max_download_speed: self.max_download_speed,
            connections_per_download: self.connections_per_download,
            parallel_download_threshold: self.parallel_download_threshold,
            buffer_size: self.buffer_size,
            chunk_size: self.chunk_size,
            max_retries: self.max_retries,
            include_patterns: views(self.include_patterns@),
            exclude_patterns: views(self.exclude_patterns@),
            hf_username: opt_view(self.hf_username),
            hf_token: opt_view(self.hf_token),
        }
    }
}

/// The settings used when no configuration file says otherwise.
pub open spec fn default_config_view() -> ConfigView {
    ConfigView {
        endpoint: "https://huggingface.co"@,
        use_local_dir: false,
        local_dir_base: "~/.cache/huggingface/models"@,
        dataset_dir_base: "~/.cache/huggingface/datasets"@,
        concurrent_downloads: 4,
        max_download_speed: None,
        connections_per_download: 3,
        parallel_download_threshold: 52428800,
        buffer_size: 8388608,
        chunk_size: 16777216,
        max_retries: 3,
        include_patterns: Seq::empty(),
        exclude_patterns: Seq::empty(),
        hf_username: None,
        hf_token: None,
    }
}

/// The server asked by default.
pub fn default_endpoint() -> (r: String)
    ensures
        r@ == "https://huggingface.co"@,
{
    String::from_str("https://huggingface.co")
}

/// The default directory of models.
pub fn default_model_dir_base() -> (r: String)
    ensures
        r@ == "~/.cache/huggingface/models"@,
{
    String::from_str("~/.cache/huggingface/models")
}

/// The default directory of datasets.
pub fn default_dataset_dir_base() -> (r: String)
    ensures
        r@ == "~/.cache/huggingface/datasets"@,
{
    String::from_str("~/.cache/huggingface/datasets")
}

/// How many files are downloaded at once by default.
pub fn default_concurrent_downloads() -> (r: usize)
    ensures
        r == 4,
{
    4
}

/// How many connections one file uses by default.
pub fn default_connections_per_download() -> (r: usize)
    ensures
        r == 3,
{
    3
}

/// The size above which a file is fetched range by range: 50 MiB.
pub fn default_parallel_download_threshold() -> (r: u64)
    ensures
        r == 50 * 1024 * 1024,
{
    50 * 1024 * 1024
}

/// The write buffer: 8 MiB.
pub fn default_buffer_size() -> (r: usize)
    ensures
        r == 8 * 1024 * 1024,
{
    8 * 1024 * 1024
}

/// The size of one range: 16 MiB.
pub fn default_chunk_size() -> (r: usize)
    ensures
        r == 16 * 1024 * 1024,
{
    16 * 1024 * 1024
}

/// How often a request is tried by default.
pub fn default_max_retries() -> (r: usize)
    ensures
        r == 3,
{
    3
}

impl Default for Config {
    fn default() -> (r: Self)
        ensures
            r@ == default_config_view(),
    {
        let r = Config {
            endpoint: default_endpoint(),
            use_local_dir: false,
            local_dir_base: default_model_dir_base(),
            dataset_dir_base: default_dataset_dir_base(),
            concurrent_downloads: default_concurrent_downloads(),
            max_download_speed: None,
            connections_per_download: default_connections_per_download(),
            parallel_download_threshold: default_parallel_download_threshold(),
            buffer_size: default_buffer_size(),
            chunk_size: default_chunk_size(),
            max_retries: default_max_retries(),
            include_patterns: Vec::new(),
            exclude_patterns: Vec::new(),
            hf_username: None,
            hf_token: None,
        };
        assert(views(r.include_patterns@) =~= Seq::empty());
        assert(views(r.exclude_patterns@) =~= Seq::empty());
        r
    }
}

/// The settings after a configuration file with the settings `file` was read
/// over `base`: the file decides every setting, except that a count of
/// concurrent downloads or of connections that is 0 keeps the earlier one.
pub open spec fn merged(base: ConfigView, file: ConfigView) -> ConfigView {
    ConfigView {
        concurrent_downloads: if file.concurrent_downloads > 0 {
            file.concurrent_downloads
        } else {
            base.concurrent_downloads
        },
        connections_per_download: if file.connections_per_download > 0 {
            file.connections_per_download
        } else {
            base.connections_per_download
        },
        ..file
    }
}

/// The settings after the configuration files with the settings `files` were
/// read, in order, over the defaults.
pub open spec fn loaded(files: Seq<ConfigView>) -> ConfigView
    decreases files.len(),
{
    if files.len() == 0 {
        default_config_view()
    } else {
        merged(loaded(files.drop_last()), files.last())
    }
}

/// The settings of a sequence of configurations.
pub open spec fn config_views(files: Seq<Config>) -> Seq<ConfigView> {
    files.map_values(|c: Config| c@)
}

impl Config {
    /// Reads the settings of one more configuration file over these.
    pub fn merge(&mut self, file: Config)
        ensures
            final(self)@ == merged(old(self)@, file@),
    {
        if file.concurrent_downloads > 0 {
            self.concurrent_downloads = file.concurrent_downloads;
        }
        if file.connections_per_download > 0 {
            self.connections_per_download = file.connections_per_download;
        }
        self.endpoint = file.endpoint;
        self.use_local_dir = file.use_local_dir;
        self.local_dir_base = file.local_dir_base;
        self.dataset_dir_base = file.dataset_dir_base;
        self.max_download_speed = file.max_download_speed;
        self.parallel_download_threshold = file.parallel_download_threshold;
        self.buffer_size = file.buffer_size;
        self.chunk_size = file.chunk_size;
        self.max_retries = file.max_retries;
        self.include_patterns = file.include_patterns;
        self.exclude_patterns = file.exclude_patterns;
        self.hf_username = file.hf_username;
        self.hf_token = file.hf_token;
    }

    /// Uses `endpoint` as the server when one is given, as the `HF_ENDPOINT`
    /// setting of the environment does (a mirror such as
    /// `https://hf-mirror.com`); keeps the configured server otherwise.
    pub fn override_endpoint(&mut self, endpoint: Option<String>)
        ensures
            final(self)@ == (match endpoint {
                Some(e) => ConfigView { endpoint: e@, ..old(self)@ },
                None => old(self)@,
            }),
    {
        if let Some(e) = endpoint {
            self.endpoint = e;
        }
    }

    /// The settings after the configuration files whose contents could be
    /// read, given in the order they are looked up, starting from the defaults.
    pub fn load_from(files: Vec<Config>) -> (r: Config)
        ensures
            r@ == loaded(config_views(files@)),
    {
        let mut config = Config::default();
        let mut files = files;
        let ghost all = config_views(files@);
        let mut rest: Vec<Config> = Vec::new();
        // Take the files out from the back, then read them from the front.
        while files.len() > 0
            invariant
                config_views(files@) + config_views(rest@).reverse() == all,
            decreases files.len(),
        {
            let ghost before_files = files@;
            let ghost before_rest = rest@;
            let f = files.pop().unwrap();
            rest.push(f);
            assert(config_views(files@) =~= config_views(before_files).drop_last());
            assert(config_views(rest@).reverse() =~= seq![f@] + config_views(before_rest).reverse());
            assert(config_views(files@) + config_views(rest@).reverse() =~= config_views(before_files)
                + config_views(before_rest).reverse());
        }
        assert(config_views(files@) =~= Seq::<ConfigView>::empty());
        assert(config_views(rest@).reverse() =~= all);
        let ghost done: Seq<ConfigView> = Seq::empty();
        assert(loaded(done) == config@);
        while rest.len() > 0
            invariant
                done + config_views(rest@).reverse() == all,
                config@ == loaded(done),
            decreases rest.len(),
        {
            let ghost before_rest = rest@;
            let f = rest.pop().unwrap();
            proof {
                assert(config_views(before_rest).reverse() =~= seq![f@] + config_views(rest@).reverse());
                assert(done.push(f@) + config_views(rest@).reverse() =~= done + config_views(before_rest).reverse());
                assert(done.push(f@).drop_last() =~= done);
                done = done.push(f@);
            }
            config.merge(f);
        }
        assert(config_views(rest@).reverse() =~= Seq::<ConfigView>::empty());
        assert(done =~= all);
        config
    }
}


/// `input` begins with a `~` that tilde expansion replaces: one standing alone
/// or followed by a path separator.
pub open spec fn expandable_tilde(input: Seq<char>) -> bool {
    &&& input.len() > 0
    &&& input[0] == '~'
    &&& (input.len() == 1 || input[1] == '/' || input[1] == '\\')
}

/// `out` is a possible result of expanding the leading `~` of `input`: an
/// input without such a `~` is kept; otherwise the `~` is either kept (no home
/// directory known) or replaced by some home directory.
pub open spec fn tilde_outcome(input: Seq<char>, out: Seq<char>) -> bool {
    if expandable_tilde(input) {
        out == input || exists|home: Seq<char>| out == home + input.skip(1)
    } else {
        out == input
    }
}

/// `child` is a relative path without drive prefix and `base` is no verbatim
/// path, so that joining them only appends.
pub open spec fn appends_on_join(base: Seq<char>, child: Seq<char>) -> bool {
    &&& !starts_with(base, "\\"@)
    &&& !starts_with(child, "/"@)
    &&& !starts_with(child, "\\"@)
    &&& !has_char(child, ':')
}

/// `base` is a bare drive prefix such as `C:` (a drive on Windows, an
/// ordinary name elsewhere).
pub open spec fn bare_drive(base: Seq<char>) -> bool {
    base.len() == 2 && base[1] == ':'
}

/// `out` is a possible result of joining the path `child` to `base`, when
/// the join only appends: `base` and `child` with nothing between them when
/// `base` is empty or ends in `/`; with nothing or a `/` between them when
/// `base` ends in `\`; with nothing or one separator between them when `base`
/// is a bare drive prefix; and otherwise with exactly one separator, `/` or
/// `\`, between them. Which of the allowed forms comes out is fixed by the
/// platform the crate is built for.
pub open spec fn join_outcome(base: Seq<char>, child: Seq<char>, out: Seq<char>) -> bool {
    appends_on_join(base, child) ==> {
        if base.len() == 0 || base.last() == '/' {
            out == base + child
        } else if base.last() == '\\' {
            out == base + child || out == base + "/"@ + child
        } else if bare_drive(base) {
            out == base + child || out == base + "/"@ + child || out == base + "\\"@ + child
        } else {
            out == base + "/"@ + child || out == base + "\\"@ + child
        }
    }
}

/// `shellexpand::tilde`: replaces a leading `~` (alone, or followed by a
/// separator) by the home directory of the user, when one is known. The home
/// directory comes from the environment, so the contract only says what holds
/// for any home directory: an input without such a `~` is returned unchanged,
/// and otherwise the rest of the input follows the replacement.
#[verifier::external_body]
pub(crate) fn expand_tilde(input: &str) -> (r: String)
    ensures
        tilde_outcome(input@, r@),
{
    shellexpand::tilde(input).into_owned()
}

/// `PathBuf::join` of std, read back as a string: a relative `child` is
/// adjoined to `base` with a separator where one is needed. Which separator
/// that is, and how absolute or prefixed paths combine, depends on the
/// platform the crate is built for; the contract states what holds on every
/// platform for a relative `child` without drive prefix joined to a base that
/// is no verbatim path, and says nothing of other inputs.
#[verifier::external_body]
pub(crate) fn join_path(base: &str, child: &str) -> (r: String)
    ensures
        join_outcome(base@, child@, r@),
{
    std::path::PathBuf::from(base).join(child).to_string_lossy().into_owned()
}

/// `out` is where the model `model_id` is stored under the directory `base`
/// after tilde expansion.
pub open spec fn local_model_dir(base: Seq<char>, model_id: Seq<char>, out: Seq<char>) -> bool {
    exists|expanded: Seq<char>| tilde_outcome(base, expanded) && join_outcome(expanded, model_id, out)
}

impl Config {
    /// The directory of the model `model_id`: `models/{model_id}`, or, when a
    /// local directory is configured, `model_id` inside `local_dir_base` with
    /// its leading `~` expanded.
    pub fn get_model_dir(&self, model_id: &str) -> (r: String)
        ensures
            !self.use_local_dir ==> r@ == "models/"@ + model_id@,
            self.use_local_dir ==> local_model_dir(self.local_dir_base@, model_id@, r@),
    {
        if self.use_local_dir {
            let base = expand_tilde(self.local_dir_base.as_str());
            let r = join_path(base.as_str(), model_id);
            assert(tilde_outcome(self.local_dir_base@, base@) && join_outcome(base@, model_id@, r@));
            r
        } else {
            let mut r = String::from_str("models/");
            r.append(model_id);
            r
        }
    }
}

/// After any sequence of configuration files, the number of concurrent
/// downloads and of connections per download are positive.
pub proof fn lemma_loaded_counts_positive(files: Seq<ConfigView>)
    ensures
        loaded(files).concurrent_downloads > 0,
        loaded(files).connections_per_download > 0,
    decreases files.len(),
{
    if files.len() > 0 {
        lemma_loaded_counts_positive(files.drop_last());
    }
}

/// The last configuration file read decides every setting but the two counts,
/// which come from the last file that sets them to a positive number, or from
/// the defaults when none does.
pub proof fn lemma_last_file_decides(files: Seq<ConfigView>)
    requires
        files.len() > 0,
    ensures
        ({
            let r = loaded(files);
            let f = files.last();
            &&& r.endpoint == f.endpoint
            &&& r.use_local_dir == f.use_local_dir
            &&& r.local_dir_base == f.local_dir_base
            &&& r.dataset_dir_base == f.dataset_dir_base
            &&& r.max_download_speed == f.max_download_speed
            &&& r.parallel_download_threshold == f.parallel_download_threshold
            &&& r.buffer_size == f.buffer_size
            &&& r.chunk_size == f.chunk_size
            &&& r.max_retries == f.max_retries
            &&& r.include_patterns == f.include_patterns
            &&& r.exclude_patterns == f.exclude_patterns
            &&& r.hf_username == f.hf_username
            &&& r.hf_token == f.hf_token
            &&& (f.concurrent_downloads > 0 ==> r.concurrent_downloads == f.concurrent_downloads)
            &&& (f.connections_per_download > 0 ==> r.connections_per_download
                == f.connections_per_download)
        }),
{
}

/// A count of 0 in every file read leaves the default count: 4 concurrent
/// downloads.
pub proof fn lemma_zero_counts_keep_defaults(files: Seq<ConfigView>)
    requires
        forall|i: int| 0 <= i < files.len() ==> #[trigger] files[i].concurrent_downloads == 0,
    ensures
        loaded(files).concurrent_downloads == 4,
    decreases files.len(),
{
    if files.len() > 0 {
        lemma_zero_counts_keep_defaults(files.drop_last());
    }
}

/// When no file read sets a positive number of connections per download,
/// the default of 3 stays.
pub proof fn lemma_zero_connections_keep_default(files: Seq<ConfigView>)
    requires
        forall|i: int| 0 <= i < files.len() ==> #[trigger] files[i].connections_per_download == 0,
    ensures
        loaded(files).connections_per_download == 3,
    decreases files.len(),
{
    if files.len() > 0 {
        lemma_zero_connections_keep_default(files.drop_last());
    }
}

} // verus!
