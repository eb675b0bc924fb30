use hfd::download::chunk::{
    chunked_start, file_url, plan_chunks, ByteRange, ChunkRetry, ChunkedStart, FetchOutcome, FetchStep,
};

#[test]
fn chunks_tile_the_file() {
    let r = plan_chunks(10, 4);
    assert_eq!(
        r,
        vec![ByteRange { start: 0, end: 4 }, ByteRange { start: 4, end: 8 }, ByteRange { start: 8, end: 10 }]
    );
    for (size, cs) in [(1u64, 1u64), (16, 4), (17, 4), (100, 7), (5, 100), (50 * 1024 * 1024, 16 * 1024 * 1024)] {
        let r = plan_chunks(size, cs);
        assert_eq!(r.len() as u64, (size + cs - 1) / cs);
        assert_eq!(r[0].start, 0);
        assert_eq!(r.last().unwrap().end, size);
        for w in r.windows(2) {
            assert_eq!(w[0].end, w[1].start);
        }
        for c in &r {
            assert!(c.start < c.end && c.end - c.start <= cs);
        }
    }
}

#[test]
fn empty_file_has_no_chunks() {
    assert!(plan_chunks(0, 16).is_empty());
}

#[test]
fn range_headers() {
    assert_eq!(ByteRange { start: 0, end: 4 }.header(), "bytes=0-3");
    assert_eq!(ByteRange { start: 16777216, end: 33554432 }.header(), "bytes=16777216-33554431");
}

#[test]
fn download_addresses() {
    assert_eq!(file_url("https://hf.co", "gpt2", "config.json", false), "https://hf.co/gpt2/resolve/main/config.json");
    assert_eq!(
        file_url("https://hf.co", "org/data", "a/b.csv", true),
        "https://hf.co/datasets/org/data/resolve/main/a/b.csv"
    );
}

#[test]
fn chunked_download_start() {
    match chunked_start(None, Some(3)) {
        ChunkedStart::Refused(m) => assert_eq!(m, "File size is required for chunked download"),
        _ => panic!("expected refusal"),
    }
    assert!(matches!(chunked_start(Some(10), Some(10)), ChunkedStart::AlreadyComplete));
    assert!(matches!(chunked_start(Some(10), Some(11)), ChunkedStart::AlreadyComplete));
    assert!(matches!(chunked_start(Some(10), Some(9)), ChunkedStart::Fetch(10)));
    assert!(matches!(chunked_start(Some(10), None), ChunkedStart::Fetch(10)));
}

#[test]
fn retries_are_bounded() {
    let mut r = ChunkRetry::new(3);
    assert!(r.can_attempt());
    assert!(matches!(r.record(FetchOutcome::SendFailed, "e"), FetchStep::Retry));
    assert!(matches!(r.record(FetchOutcome::TimedOut, ""), FetchStep::Retry));
    match r.record(FetchOutcome::SendFailed, "connection reset") {
        FetchStep::Fail(m) => assert_eq!(m, "Failed to download chunk after 3 retries: connection reset"),
        _ => panic!("expected failure"),
    }
    assert_eq!(r.retries, 3);
    assert!(!r.can_attempt());
    assert_eq!(r.exhausted(), "Maximum retries exceeded");
}

#[test]
fn timeouts_and_statuses() {
    let mut r = ChunkRetry::new(1);
    match r.record(FetchOutcome::TimedOut, "") {
        FetchStep::Fail(m) => assert_eq!(m, "Download timed out after 1 retries"),
        _ => panic!("expected failure"),
    }
    let mut s = ChunkRetry::new(2);
    match s.record(FetchOutcome::Response { success: false }, "404 Not Found") {
        FetchStep::Fail(m) => assert_eq!(m, "Failed to download chunk: 404 Not Found"),
        _ => panic!("expected failure"),
    }
    assert_eq!(s.retries, 0);
    assert!(matches!(s.record(FetchOutcome::Response { success: true }, ""), FetchStep::ReadBody));
    assert!(!ChunkRetry::new(0).can_attempt());
}
