use hfd::config::Config;
use hfd::download::file_filter::{matches_any, should_download};
use hfd::downloader::{ModelDownloader, RegexScan, pattern_to_regex, scan_patterns};
use hfd::types::FileInfo;

fn file(name: &str) -> FileInfo {
    FileInfo { rfilename: name.to_string(), size: None }
}

fn config_with(inc: &[&str], exc: &[&str]) -> Config {
    let mut c = Config::default();
    c.include_patterns = inc.iter().map(|s| s.to_string()).collect();
    c.exclude_patterns = exc.iter().map(|s| s.to_string()).collect();
    c
}

#[test]
fn no_patterns_downloads_everything() {
    let c = config_with(&[], &[]);
    assert!(should_download(&c, &file("model.safetensors")));
    assert!(should_download(&c, &file("a/b/c")));
}

#[test]
fn selecting_patterns() {
    let c = config_with(&["*.json", "tokenizer*"], &[]);
    assert!(should_download(&c, &file("config.json")));
    assert!(should_download(&c, &file("tokenizer.model")));
    assert!(!should_download(&c, &file("model.bin")));
}

#[test]
fn rejecting_patterns_win() {
    let c = config_with(&["*"], &["*.safetensors"]);
    assert!(!should_download(&c, &file("model.safetensors")));
    assert!(should_download(&c, &file("model.bin")));
    let d = config_with(&[], &["*.bin"]);
    assert!(!should_download(&d, &file("pytorch_model.bin")));
    assert!(should_download(&d, &file("config.json")));
}

#[test]
fn invalid_glob_matches_nothing() {
    let pats = vec!["a/**b".to_string()];
    assert!(!matches_any(&pats, "a/xb"));
    let c = config_with(&["[", "*.txt"], &[]);
    assert!(should_download(&c, &file("notes.txt")));
    assert!(!should_download(&c, &file("[")));
}

#[test]
fn glob_matching_is_not_identity() {
    let pats = vec!["d*g".to_string()];
    assert!(matches_any(&pats, "doog"));
    assert!(!matches_any(&pats, "d*gx"));
}

#[test]
fn wildcard_to_regex() {
    assert_eq!(pattern_to_regex("*.json"), ".*.json");
    assert_eq!(pattern_to_regex("a**b"), "a.*.*b");
    assert_eq!(pattern_to_regex("plain"), "plain");
}

#[test]
fn regex_scans() {
    let pats = vec!["*.json".to_string(), "(".to_string()];
    assert_eq!(scan_patterns(&pats, "config.json"), RegexScan::Hit);
    assert_eq!(scan_patterns(&pats, "model.bin"), RegexScan::Broken);
    assert_eq!(scan_patterns(&vec!["*.txt".to_string()], "a.bin"), RegexScan::Miss);
    assert_eq!(scan_patterns(&vec![], "a.bin"), RegexScan::Miss);
}

#[test]
fn regex_filter_of_downloader() {
    let d = ModelDownloader::new(
        Some("cache".to_string()),
        Some(vec!["*.json".to_string()]),
        Some(vec!["secret*".to_string()]),
        Config::default(),
    );
    assert_eq!(d.try_should_download_file("config.json"), Some(true));
    assert_eq!(d.try_should_download_file("secret.json"), Some(false));
    assert_eq!(d.try_should_download_file("model.bin"), Some(false));
    assert!(d.should_download_file("config.json"));
    let broken = ModelDownloader::new(None, Some(vec!["(".to_string()]), None, Config::default());
    assert_eq!(broken.try_should_download_file("x"), None);
    let none = ModelDownloader::new(None, None, None, Config::default());
    assert_eq!(none.try_should_download_file("anything"), Some(true));
    assert_eq!(none.cache_dir, "models/");
}

#[test]
fn regex_search_is_unanchored() {
    let d = ModelDownloader::new(None, Some(vec!["json".to_string()]), None, Config::default());
    assert_eq!(d.try_should_download_file("config.json.bak"), Some(true));
}
