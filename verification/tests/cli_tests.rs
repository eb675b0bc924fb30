use hfd::cli::parse_args;

fn argv(items: &[&str]) -> Vec<String> {
    let mut v = vec!["hfd".to_string(), "download".to_string()];
    v.extend(items.iter().map(|s| s.to_string()));
    v
}

#[test]
fn no_repository_shows_help() {
    assert!(parse_args(&argv(&[])).is_none());
    assert!(parse_args(&vec!["hfd".to_string()]).is_none());
    assert!(parse_args(&vec![]).is_none());
}

#[test]
fn help_flags_show_help() {
    assert!(parse_args(&argv(&["-h"])).is_none());
    assert!(parse_args(&argv(&["--help"])).is_none());
}

#[test]
fn repository_alone() {
    let a = parse_args(&argv(&["gpt2"])).unwrap();
    assert_eq!(a.model_id, "gpt2");
    assert!(a.config_path.is_none());
    assert!(a.include_patterns.is_none());
    assert!(a.exclude_patterns.is_none());
    assert!(a.local_dir.is_none());
    assert!(a.hf_token.is_none());
}

#[test]
fn all_options() {
    let a = parse_args(&argv(&[
        "meta-llama/Llama-2-7b",
        "--config",
        "/path/cfg.toml",
        "--include",
        "*.json",
        "*.txt",
        "--exclude",
        "*.safetensors",
        "--local-dir",
        "./out",
        "--hf_token",
        "tok",
    ]))
    .unwrap();
    assert_eq!(a.model_id, "meta-llama/Llama-2-7b");
    assert_eq!(a.config_path.as_deref(), Some("/path/cfg.toml"));
    assert_eq!(a.include_patterns, Some(vec!["*.json".to_string(), "*.txt".to_string()]));
    assert_eq!(a.exclude_patterns, Some(vec!["*.safetensors".to_string()]));
    assert_eq!(a.local_dir.as_deref(), Some("./out"));
    assert_eq!(a.hf_token.as_deref(), Some("tok"));
}

#[test]
fn list_option_without_values_is_unset() {
    let a = parse_args(&argv(&["gpt2", "--include", "--exclude", "x"])).unwrap();
    assert!(a.include_patterns.is_none());
    assert_eq!(a.exclude_patterns, Some(vec!["x".to_string()]));
}

#[test]
fn value_option_at_end_is_ignored() {
    let a = parse_args(&argv(&["gpt2", "--config"])).unwrap();
    assert!(a.config_path.is_none());
    let b = parse_args(&argv(&["gpt2", "--hf_token"])).unwrap();
    assert!(b.hf_token.is_none());
}

#[test]
fn unknown_arguments_are_skipped_and_last_value_wins() {
    let a = parse_args(&argv(&["gpt2", "stray", "--local-dir", "a", "--local-dir", "b"])).unwrap();
    assert_eq!(a.model_id, "gpt2");
    assert_eq!(a.local_dir.as_deref(), Some("b"));
}

#[test]
fn value_options_take_the_next_argument_even_an_option() {
    let a = parse_args(&argv(&["gpt2", "--config", "--include", "x"])).unwrap();
    assert_eq!(a.config_path.as_deref(), Some("--include"));
    assert!(a.include_patterns.is_none());
}

#[test]
fn help_flag_after_repository_is_not_help() {
    let a = parse_args(&argv(&["gpt2", "--help"])).unwrap();
    assert_eq!(a.model_id, "gpt2");
}
