use hfd::config::Config;
use hfd::download::{DownloadManager, ProgressHandle};

#[test]
fn bars_are_made_once_and_queued() {
    let mut m = DownloadManager::new(0, Config::default());
    match m.create_file_progress("a".to_string(), 10) {
        ProgressHandle::New { bar, size, message } => {
            assert_eq!(bar, 0);
            assert_eq!(size, 10);
            assert_eq!(message, "Downloading a");
        }
        _ => panic!("expected a new bar"),
    }
    assert!(matches!(m.create_file_progress("a".to_string(), 99), ProgressHandle::Existing(0)));
    assert!(matches!(m.create_file_progress("b".to_string(), 5), ProgressHandle::New { bar: 1, .. }));
    assert_eq!(m.progress_of("a"), Some(0));
    assert_eq!(m.get_progress("b"), 1);
    assert_eq!(m.progress_of("c"), None);
    let (bar, msg) = m.update_progress("a").unwrap();
    assert_eq!(bar, 0);
    assert_eq!(msg.as_deref(), Some("Downloading a"));
    assert!(m.update_progress("zzz").is_none());
}

#[test]
fn slots_go_in_arrival_order() {
    let mut m = DownloadManager::new(0, Config::default());
    m.create_file_progress("a".to_string(), 1);
    m.create_file_progress("b".to_string(), 2);
    let s = m.start_next().unwrap();
    assert_eq!(s.filename, "a");
    assert_eq!(s.bar, 0);
    assert_eq!(s.message, "Downloading a");
    let fin = m.finish_file("a");
    let (bar, msg) = fin.finished.unwrap();
    assert_eq!(bar, 0);
    assert_eq!(msg, "✓ Downloaded a");
    let next = fin.started.unwrap();
    assert_eq!(next.filename, "b");
    assert_eq!(m.progress_of("a"), None);
    let fin2 = m.finish_file("b");
    assert!(fin2.finished.is_some());
    assert!(fin2.started.is_none());
    assert!(m.start_next().is_none());
}

#[test]
fn folder_downloads_share_one_bar() {
    let (mut m, folder) = DownloadManager::new_folder(100, "data", Config::default());
    assert_eq!(folder.bar, 0);
    assert_eq!(folder.size, 100);
    assert_eq!(folder.message, "Downloading folder data");
    assert!(matches!(m.create_file_progress("data/x".to_string(), 3), ProgressHandle::Folder(0)));
    assert_eq!(m.update_progress("data/x"), Some((0, None)));
    let fin = m.finish_file("data/x");
    assert!(fin.finished.is_none() && fin.started.is_none());
    let (b, msg) = m.finish_folder().unwrap();
    assert_eq!(b, 0);
    assert_eq!(msg, "✓ Folder download completed");
    let plain = DownloadManager::new(0, Config::default());
    assert!(plain.finish_folder().is_none());
    assert_eq!(plain.get_config().concurrent_downloads, 4);
}
