use hfd::download::file_list::{get_file_list, repo_info_failure};
use hfd::download::repo::{
    api_url, bearer, file_info_from_header, lookup_next, lookup_start, page_url, repo_info_for, repo_not_found,
    resolve_url, resolved_files, sibling_names, total_known_size, LookupState, RepoKind,
};
use hfd::types::FileInfo;

#[test]
fn addresses() {
    assert_eq!(api_url("https://huggingface.co", "gpt2", RepoKind::Model), "https://huggingface.co/api/models/gpt2");
    assert_eq!(api_url("https://h", "o/d", RepoKind::Dataset), "https://h/api/datasets/o/d");
    assert_eq!(page_url("https://h", "o/m", RepoKind::Model), "https://h/models/o/m");
    assert_eq!(resolve_url("https://h", "o/d", "f.csv", RepoKind::Dataset), "https://h/datasets/o/d/resolve/main/f.csv");
    assert_eq!(bearer("abc"), "Bearer abc");
}

#[test]
fn lookup_tries_model_then_dataset() {
    let s = lookup_start();
    assert_eq!(s, LookupState::Asking(RepoKind::Model));
    assert_eq!(lookup_next(s, true), LookupState::Found(RepoKind::Model));
    let s2 = lookup_next(s, false);
    assert_eq!(s2, LookupState::Asking(RepoKind::Dataset));
    assert_eq!(lookup_next(s2, true), LookupState::Found(RepoKind::Dataset));
    assert_eq!(lookup_next(s2, false), LookupState::NotFound);
    assert_eq!(lookup_next(LookupState::NotFound, true), LookupState::NotFound);
}

#[test]
fn not_found_message() {
    assert_eq!(
        repo_not_found("x/y"),
        "Repository x/y not found or unauthorized. Please check the repository ID and your access token if it's a private repository."
    );
}

#[test]
fn repository_descriptions() {
    let r = repo_info_for("https://h", "o/m", RepoKind::Model, vec![]);
    assert_eq!(r.model_endpoint.as_deref(), Some("https://h/models/o/m"));
    assert!(r.dataset_endpoint.is_none());
    assert!(!r.is_dataset());
    let d = repo_info_for("https://h", "o/d", RepoKind::Dataset, vec![]);
    assert_eq!(d.dataset_endpoint.as_deref(), Some("https://h/datasets/o/d"));
    assert!(d.is_dataset());
}

#[test]
fn sibling_lists() {
    assert_eq!(sibling_names(None), Err("No files found in repository".to_string()));
    let names = sibling_names(Some(vec![Some("a".to_string()), None, Some("b/c".to_string())])).unwrap();
    assert_eq!(names, vec!["a".to_string(), "b/c".to_string()]);
    let files = get_file_list(Some(vec![None, Some("x".to_string())])).unwrap();
    assert_eq!(files.len(), 1);
    assert_eq!(files[0].rfilename, "x");
    assert!(files[0].size.is_none());
    assert!(get_file_list(None).is_err());
    assert_eq!(repo_info_failure("404 Not Found"), "Failed to get repository info: 404 Not Found");
}

#[test]
fn sizes_from_headers() {
    assert_eq!(file_info_from_header("a", Some("1234".to_string())).size, Some(1234));
    assert_eq!(file_info_from_header("a", Some("12x".to_string())).size, None);
    assert_eq!(file_info_from_header("a", None).size, None);
    assert_eq!(file_info_from_header("a", None).rfilename, "a");
}

#[test]
fn resolved_and_totals() {
    let r = resolved_files(vec![
        Some(FileInfo { rfilename: "a".to_string(), size: Some(3) }),
        None,
        Some(FileInfo { rfilename: "b".to_string(), size: None }),
        Some(FileInfo { rfilename: "c".to_string(), size: Some(4) }),
    ]);
    assert_eq!(r.len(), 3);
    assert_eq!(r[1].rfilename, "b");
    assert_eq!(total_known_size(&r), 7);
}
