use std::io::Write;

use hfd::download::download_impl::{GatedFlag, RangeFailureStep, ResumePlan};
use hfd::download::downloader::ModelDownloader;
use hfd::config::Config;
use hfd::types::FileInfo;

fn f(name: &str, size: Option<u64>) -> FileInfo {
    FileInfo { rfilename: name.to_string(), size }
}

#[test]
fn gated_repositories() {
    assert!(ModelDownloader::requires_auth(&GatedFlag::Flag(true)));
    assert!(!ModelDownloader::requires_auth(&GatedFlag::Flag(false)));
    assert!(ModelDownloader::requires_auth(&GatedFlag::Mode("manual".to_string())));
    assert!(!ModelDownloader::requires_auth(&GatedFlag::Mode("auto".to_string())));
    assert!(!ModelDownloader::requires_auth(&GatedFlag::Other));
    let anonymous = ModelDownloader::new(None, None, None, None, Config::default());
    let msg = anonymous.check_access(&GatedFlag::Flag(true)).unwrap();
    assert!(msg.starts_with("该仓库需要认证"));
    assert!(anonymous.check_access(&GatedFlag::Other).is_none());
    let with_token = ModelDownloader::new(None, None, None, Some("t".to_string()), Config::default());
    assert!(with_token.check_access(&GatedFlag::Flag(true)).is_none());
}

#[test]
fn largest_files_first_stable() {
    let files = vec![f("a", Some(1)), f("b", None), f("c", Some(5)), f("d", Some(1)), f("e", Some(9))];
    let order = ModelDownloader::order_for_download(files);
    let names: Vec<&str> = order.iter().map(|f| f.rfilename.as_str()).collect();
    assert_eq!(names, vec!["e", "c", "a", "d", "b"]);
    assert!(ModelDownloader::order_for_download(vec![]).is_empty());
}

#[test]
fn skip_and_sizes() {
    assert!(ModelDownloader::already_downloaded(Some(5), Some(5)));
    assert!(!ModelDownloader::already_downloaded(Some(4), Some(5)));
    assert!(!ModelDownloader::already_downloaded(None, Some(5)));
    assert!(!ModelDownloader::already_downloaded(Some(5), None));
    assert!(ModelDownloader::fetch_whole(10 * 1024 * 1024));
    assert!(!ModelDownloader::fetch_whole(10 * 1024 * 1024 + 1));
    assert_eq!(ModelDownloader::adaptive_chunk_size(2 * 1024 * 1024 * 1024), 64 * 1024 * 1024);
    assert_eq!(ModelDownloader::adaptive_chunk_size(1024 * 1024 * 1024), 32 * 1024 * 1024);
    assert_eq!(ModelDownloader::adaptive_chunk_size(200 * 1024 * 1024), 32 * 1024 * 1024);
    assert_eq!(ModelDownloader::adaptive_chunk_size(100 * 1024 * 1024), 16 * 1024 * 1024);
}

#[test]
fn resume_plans() {
    assert_eq!(ModelDownloader::resume_plan(Some(10), 10), ResumePlan::AlreadyComplete);
    assert_eq!(ModelDownloader::resume_plan(Some(11), 10), ResumePlan::DiscardAndRestart);
    assert_eq!(ModelDownloader::resume_plan(Some(3), 10), ResumePlan::Continue(3));
    assert_eq!(ModelDownloader::resume_plan(None, 10), ResumePlan::Continue(0));
}

#[test]
fn backoff_is_bounded() {
    assert_eq!(ModelDownloader::backoff_delay(1000, 3, 100, 30000), 1109);
    assert_eq!(ModelDownloader::backoff_delay(1000, 300, 0, 30000), 30000);
    for retry in 0..10 {
        let d = ModelDownloader::exponential_backoff(1000, retry, 30000);
        assert!(d >= 1000 + retry * retry && d <= 1000 + retry * retry + 500);
    }
    assert_eq!(ModelDownloader::exponential_backoff(1000, 1000, 30000), 30000);
}

#[test]
fn range_failures() {
    assert!(matches!(ModelDownloader::after_range_failure(0, 5, false, "e"), RangeFailureStep::Stop));
    match ModelDownloader::after_range_failure(5, 5, true, "timeout") {
        RangeFailureStep::GiveUp(m) => assert_eq!(m, "下载失败，已重试 5 次: timeout"),
        _ => panic!("expected give up"),
    }
    match ModelDownloader::after_range_failure(2, 5, true, "e") {
        RangeFailureStep::RetryAfter(ms) => assert!((1004..=1504).contains(&ms)),
        _ => panic!("expected retry"),
    }
}

#[test]
fn length_checks() {
    assert_eq!(ModelDownloader::check_length(5, 5, true), None);
    assert_eq!(ModelDownloader::check_length(4, 5, true), Some("下载不完整: 4 != 5".to_string()));
    assert_eq!(ModelDownloader::check_length(4, 5, false), Some("文件大小不匹配: 4 != 5".to_string()));
    assert_eq!(ModelDownloader::check_length(4, 0, false), None);
}

#[test]
fn gzip_detection_and_unpacking() {
    assert!(ModelDownloader::is_gzip_file(&[0x1f, 0x8b, 0]));
    assert!(!ModelDownloader::is_gzip_file(&[0x1f]));
    assert!(!ModelDownloader::is_gzip_file(b"plain"));
    assert_eq!(ModelDownloader::decompress_gzip_bytes(b"plain text"), Ok(None));
    let mut enc = flate2::write::GzEncoder::new(Vec::new(), flate2::Compression::default());
    enc.write_all(b"hello gzip").unwrap();
    let packed = enc.finish().unwrap();
    assert_eq!(ModelDownloader::decompress_gzip_bytes(&packed), Ok(Some(b"hello gzip".to_vec())));
    let broken = ModelDownloader::decompress_gzip_bytes(&[0x1f, 0x8b, 1, 2, 3]);
    assert!(broken.unwrap_err().starts_with("Failed to decompress: "));
}

#[test]
fn run_messages() {
    assert_eq!(ModelDownloader::all_done_message(), "所有文件已下载完成");
    assert_eq!(ModelDownloader::stopped_message(), "下载已取消");
}
