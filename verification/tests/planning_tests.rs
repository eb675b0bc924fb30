use hfd::config::Config;
use hfd::download::download_task::{folder_display_name, plan_folder, small_file_start, small_file_total, SmallStart};
use hfd::download::downloader::{fetch_method, folder_name, folder_names, files_in_folder, top_level_files, FetchMethod, ModelDownloader};
use hfd::types::{FileInfo, RepoInfo};

fn f(name: &str, size: Option<u64>) -> FileInfo {
    FileInfo { rfilename: name.to_string(), size }
}

#[test]
fn folders_of_paths() {
    assert_eq!(folder_name("a/b/c.txt").as_deref(), Some("a"));
    assert_eq!(folder_name("top.txt"), None);
    assert_eq!(folder_name("/lead").as_deref(), Some(""));
}

#[test]
fn grouping_partitions_files() {
    let files = vec![f("a.json", None), f("x/1", None), f("y/2", None), f("x/3", None), f("b.bin", None)];
    let top = top_level_files(&files);
    assert_eq!(top.iter().map(|f| f.rfilename.as_str()).collect::<Vec<_>>(), vec!["a.json", "b.bin"]);
    let names = folder_names(&files);
    assert_eq!(names, vec!["x".to_string(), "y".to_string()]);
    let x = files_in_folder(&files, "x");
    assert_eq!(x.iter().map(|f| f.rfilename.as_str()).collect::<Vec<_>>(), vec!["x/1", "x/3"]);
    let total: usize = top.len() + names.iter().map(|n| files_in_folder(&files, n).len()).sum::<usize>();
    assert_eq!(total, files.len());
}

#[test]
fn plan_of_a_repository() {
    let mut config = Config::default();
    config.exclude_patterns = vec!["*.bin".to_string()];
    let d = ModelDownloader::new(None, None, None, None, config);
    assert_eq!(d.cache_dir, "~/.cache/huggingface/models");
    let repo = RepoInfo {
        model_endpoint: Some("https://huggingface.co/models/org/m".to_string()),
        dataset_endpoint: None,
        files: vec![f("config.json", Some(10)), f("model.bin", Some(100)), f("sub/a.txt", Some(1)), f("sub/b.bin", Some(2))],
    };
    let plan = d.plan_files("org/m", "/tmp/base", false, repo);
    assert_eq!(plan.base_path, "/tmp/base");
    assert_eq!(plan.root_files.len(), 1);
    assert_eq!(plan.root_files[0].rfilename, "config.json");
    assert_eq!(plan.folders.len(), 1);
    assert_eq!(plan.folders[0].name, "sub");
    assert_eq!(plan.folders[0].files.len(), 1);
    assert_eq!(plan.folders[0].files[0].rfilename, "sub/a.txt");
}

#[test]
fn plan_with_local_dir_uses_last_part_of_repository() {
    let mut config = Config::default();
    config.use_local_dir = true;
    config.local_dir_base = "/models".to_string();
    config.dataset_dir_base = "/datasets".to_string();
    let d = ModelDownloader::new(Some("c".to_string()), Some(vec!["*.json".to_string()]), None, Some("tok".to_string()), config);
    assert_eq!(d.cache_dir, "c");
    assert_eq!(d.auth.token.as_deref(), Some("tok"));
    assert_eq!(d.config.include_patterns, vec!["*.json".to_string()]);
    assert_eq!(d.download_base("org/m", "/ignored", false), "/models/m");
    assert_eq!(d.download_base("org/d", "/ignored", true), "/datasets/d");
    assert_eq!(d.download_base("plain", "/ignored", true), "/datasets/plain");
}

#[test]
fn fetch_methods() {
    assert_eq!(fetch_method(Some(101), 100), FetchMethod::Chunked);
    assert_eq!(fetch_method(Some(100), 100), FetchMethod::Whole);
    assert_eq!(fetch_method(None, 0), FetchMethod::Whole);
}

#[test]
fn folder_tally() {
    let files = vec![f("d/a", Some(10)), f("d/b", Some(5)), f("d/c", None), f("d/e", Some(8))];
    let on_disk = vec![4, 5, 3, 9];
    let t = plan_folder(&files, &on_disk);
    assert_eq!(t.need.iter().map(|f| f.rfilename.as_str()).collect::<Vec<_>>(), vec!["d/a"]);
    assert_eq!(t.total_download_size, 6);
    assert_eq!(t.downloaded_size, 4 + 5 + 9);
    assert_eq!(t.downloaded_files, 2);
    assert_eq!(folder_display_name(&t.need, "fallback"), "d");
    assert_eq!(folder_display_name(&vec![f("top", Some(1))], "fallback"), "fallback");
    assert_eq!(folder_display_name(&vec![], "fallback"), "fallback");
}

#[test]
fn whole_file_start() {
    assert!(matches!(small_file_start(Some(10), Some(10)), SmallStart::AlreadyComplete));
    match small_file_start(Some(10), Some(4)) {
        SmallStart::Fetch { resume_from, range } => {
            assert_eq!(resume_from, 4);
            assert_eq!(range.as_deref(), Some("bytes=4-"));
        }
        _ => panic!("expected fetch"),
    }
    match small_file_start(None, Some(0)) {
        SmallStart::Fetch { resume_from, range } => {
            assert_eq!(resume_from, 0);
            assert!(range.is_none());
        }
        _ => panic!("expected fetch"),
    }
    assert!(matches!(small_file_start(None, None), SmallStart::Fetch { resume_from: 0, range: None }));
}

#[test]
fn whole_file_total() {
    assert_eq!(small_file_total(Some(7), Some(100), 3), Ok(7));
    assert_eq!(small_file_total(None, Some(100), 3), Ok(103));
    assert_eq!(small_file_total(None, None, 3), Err("Could not determine file size".to_string()));
}
