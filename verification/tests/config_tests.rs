use hfd::config::{
    default_buffer_size, default_chunk_size, default_concurrent_downloads, default_connections_per_download,
    default_dataset_dir_base, default_endpoint, default_max_retries, default_model_dir_base,
    default_parallel_download_threshold, Config,
};

#[test]
fn defaults() {
    assert_eq!(default_endpoint(), "https://huggingface.co");
    assert_eq!(default_model_dir_base(), "~/.cache/huggingface/models");
    assert_eq!(default_dataset_dir_base(), "~/.cache/huggingface/datasets");
    assert_eq!(default_concurrent_downloads(), 4);
    assert_eq!(default_connections_per_download(), 3);
    assert_eq!(default_parallel_download_threshold(), 52428800);
    assert_eq!(default_buffer_size(), 8388608);
    assert_eq!(default_chunk_size(), 16777216);
    assert_eq!(default_max_retries(), 3);
    let c = Config::default();
    assert!(!c.use_local_dir);
    assert!(c.include_patterns.is_empty() && c.exclude_patterns.is_empty());
    assert!(c.hf_token.is_none() && c.hf_username.is_none() && c.max_download_speed.is_none());
}

#[test]
fn no_files_keeps_defaults() {
    let c = Config::load_from(vec![]);
    assert_eq!(c.endpoint, "https://huggingface.co");
    assert_eq!(c.concurrent_downloads, 4);
}

#[test]
fn later_files_decide() {
    let mut a = Config::default();
    a.endpoint = "https://a".to_string();
    a.concurrent_downloads = 8;
    a.connections_per_download = 5;
    let mut b = Config::default();
    b.endpoint = "https://b".to_string();
    b.concurrent_downloads = 0;
    b.connections_per_download = 0;
    b.hf_token = Some("t".to_string());
    b.max_retries = 9;
    let c = Config::load_from(vec![a, b]);
    assert_eq!(c.endpoint, "https://b");
    assert_eq!(c.concurrent_downloads, 8);
    assert_eq!(c.connections_per_download, 5);
    assert_eq!(c.hf_token.as_deref(), Some("t"));
    assert_eq!(c.max_retries, 9);
}

#[test]
fn zero_counts_keep_earlier_ones() {
    let mut base = Config::default();
    let mut f = Config::default();
    f.concurrent_downloads = 0;
    f.connections_per_download = 7;
    base.merge(f);
    assert_eq!(base.concurrent_downloads, 4);
    assert_eq!(base.connections_per_download, 7);
}

#[test]
fn model_dir_without_local_dir() {
    let c = Config::default();
    assert_eq!(c.get_model_dir("gpt2"), "models/gpt2");
    assert_eq!(c.get_model_dir("org/name"), "models/org/name");
}

#[test]
fn model_dir_with_local_dir() {
    let mut c = Config::default();
    c.use_local_dir = true;
    c.local_dir_base = "/data/models".to_string();
    assert_eq!(c.get_model_dir("gpt2"), "/data/models/gpt2");
    c.local_dir_base = "/data/models/".to_string();
    assert_eq!(c.get_model_dir("org/name"), "/data/models/org/name");
}

#[test]
fn model_dir_expands_tilde() {
    let mut c = Config::default();
    c.use_local_dir = true;
    c.local_dir_base = "~/m".to_string();
    let d = c.get_model_dir("x");
    assert!(d.ends_with("/m/x"));
    if let Some(home) = dirs::home_dir() {
        assert_eq!(d, format!("{}/m/x", home.to_string_lossy()));
    }
    c.local_dir_base = "~other/m".to_string();
    assert_eq!(c.get_model_dir("x"), "~other/m/x");
}

#[test]
fn endpoint_from_the_environment_wins() {
    let mut c = Config::default();
    c.override_endpoint(Some("https://hf-mirror.com".to_string()));
    assert_eq!(c.endpoint, "https://hf-mirror.com");
    c.override_endpoint(None);
    assert_eq!(c.endpoint, "https://hf-mirror.com");
    let mut d = Config::default();
    d.override_endpoint(None);
    assert_eq!(d.endpoint, "https://huggingface.co");
}

#[test]
fn joining_adds_one_separator() {
    let mut c = Config::default();
    c.use_local_dir = true;
    c.local_dir_base = "/data/hf".to_string();
    assert_eq!(c.get_model_dir("gpt2"), "/data/hf/gpt2");
    c.local_dir_base = String::new();
    assert_eq!(c.get_model_dir("gpt2"), "gpt2");
}
