use hfd::config::Config;
use hfd::download::progress::{cancelled_message, completed_message, failed_message, file_message, folder_message};
use hfd::downloader::{redirect_target, summarize_results, ModelDownloader, TaskResult};
use hfd::types::FileInfo;

fn f(name: &str, size: Option<u64>) -> FileInfo {
    FileInfo { rfilename: name.to_string(), size }
}

#[test]
fn redirects() {
    assert_eq!(redirect_target("https://h", "/api/models/x"), "https://h/api/models/x");
    assert_eq!(redirect_target("https://h", "https://other/x"), "https://other/x");
    assert_eq!(redirect_target("https://h", "http://plain/x"), "http://plain/x");
}

#[test]
fn run_outcomes() {
    assert_eq!(
        summarize_results(vec![TaskResult::Done, TaskResult::Done], "gpt2", "/m"),
        Ok("Downloaded model gpt2 to /m".to_string())
    );
    assert_eq!(
        summarize_results(vec![TaskResult::Done, TaskResult::Failed("Download cancelled".to_string()), TaskResult::Failed("x".to_string())], "g", "/m"),
        Ok("Download cancelled".to_string())
    );
    assert_eq!(summarize_results(vec![TaskResult::Failed("boom".to_string())], "g", "/m"), Err("boom".to_string()));
    assert_eq!(summarize_results(vec![TaskResult::Broke("join".to_string())], "g", "/m"), Err("Task failed: join".to_string()));
    assert_eq!(summarize_results(vec![], "g", "/m"), Ok("Downloaded model g to /m".to_string()));
}

#[test]
fn selection_with_totals() {
    let d = ModelDownloader::new(Some("c".to_string()), None, Some(vec!["*.bin".to_string()]), Config::default());
    let files = vec![f("a.json", Some(3)), f("b.bin", Some(100)), f("c.txt", None), f("d.md", Some(4))];
    let (sel, total) = d.try_select_files(&files).unwrap();
    assert_eq!(sel.iter().map(|f| f.rfilename.as_str()).collect::<Vec<_>>(), vec!["a.json", "c.txt", "d.md"]);
    assert_eq!(total, 7);
    let (sel2, total2) = d.select_files(&files);
    assert_eq!(sel2.len(), 3);
    assert_eq!(total2, 7);
    assert_eq!(d.base_path("gpt2"), "c");
    let huge = vec![f("a", Some(u64::MAX)), f("b", Some(1))];
    assert!(d.try_select_files(&huge).is_none());
    let broken = ModelDownloader::new(None, Some(vec!["(".to_string()]), None, Config::default());
    assert!(broken.try_select_files(&files).is_none());
}

#[test]
fn progress_messages() {
    assert_eq!(folder_message("data"), "Downloading folder: data");
    assert_eq!(file_message("a.txt", "data"), "[data] Downloading: a.txt");
    assert_eq!(failed_message("oops"), "Download failed: oops");
    assert_eq!(completed_message(), "Download completed");
    assert_eq!(cancelled_message(), "Download cancelled");
}

#[test]
fn base_path_with_local_dir() {
    let mut config = Config::default();
    config.use_local_dir = true;
    config.local_dir_base = "/srv".to_string();
    let d = ModelDownloader::new(None, None, None, config);
    assert_eq!(d.base_path("gpt2"), "/srv/gpt2");
    assert_eq!(d.cache_dir, "/srv/");
}
