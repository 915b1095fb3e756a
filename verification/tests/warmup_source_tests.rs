use ma_proxy_engine::errors::ProxyError;
use ma_proxy_engine::source::{
    auth_update_plan, dedup_routes, effective_concurrency, interpret_fetch_status,
    interpret_probe, parse_content_range_total, pick_route_index, translate_inner_range,
};
use ma_proxy_engine::warmup::{compute_warmup_ranges, warmup_chunk_span, warmup_probe_size};

const MB: u64 = 1024 * 1024;

#[test]
fn test_warmup_probe_size() {
    assert_eq!(warmup_probe_size(10 * MB, 2 * MB), 32 * 1024);
    assert_eq!(warmup_probe_size(10 * MB, 16 * 1024), 16 * 1024);
    assert_eq!(warmup_probe_size(1000, 2 * MB), 1000);
}

#[test]
fn test_warmup_mp4_with_moov() {
    // ftyp (8 bytes) then a moov of 100 bytes: prefetch the file start
    // through the end of the moov box, byte 8 + 100 - 1.
    let mut header = vec![0u8; 256];
    header[0..4].copy_from_slice(&8u32.to_be_bytes());
    header[4..8].copy_from_slice(b"ftyp");
    header[8..12].copy_from_slice(&100u32.to_be_bytes());
    header[12..16].copy_from_slice(b"moov");
    let ranges = compute_warmup_ranges(&header, 10 * MB, 2 * MB);
    assert_eq!(ranges, vec![(0, 107)]);
    // The chunk grid plays no part in the end: smaller chunks, same range.
    let ranges = compute_warmup_ranges(&header, 1024, 256);
    assert_eq!(ranges, vec![(0, 107)]);

    // A moov reaching past one chunk extends the range just as far.
    header[8..12].copy_from_slice(&(3 * MB as u32).to_be_bytes());
    let ranges = compute_warmup_ranges(&header, 10 * MB, 2 * MB);
    assert_eq!(ranges, vec![(0, 3 * MB + 8 - 1)]);

    // A moov announcing more than the file clamps to the file's end.
    let ranges = compute_warmup_ranges(&header, MB, 2 * MB);
    assert_eq!(ranges, vec![(0, MB - 1)]);
}

#[test]
fn test_warmup_mp4_without_moov() {
    let mut header = vec![0u8; 256];
    header[0..4].copy_from_slice(&8u32.to_be_bytes());
    header[4..8].copy_from_slice(b"ftyp");
    header[8..12].copy_from_slice(&100u32.to_be_bytes());
    header[12..16].copy_from_slice(b"mdat");
    // Head plus tail.
    let ranges = compute_warmup_ranges(&header, 10 * MB, 2 * MB);
    assert_eq!(ranges, vec![(0, 2 * MB - 1), (8 * MB, 10 * MB - 1)]);
    // A single-chunk file has no separate tail.
    let ranges = compute_warmup_ranges(&header, MB, 2 * MB);
    assert_eq!(ranges, vec![(0, MB - 1)]);
}

#[test]
fn test_warmup_sequential_formats_head_only() {
    let mut header = vec![0u8; 256];
    header[0] = 0x1A;
    header[1] = 0x45;
    header[2] = 0xDF;
    header[3] = 0xA3;
    let ranges = compute_warmup_ranges(&header, 10 * MB, 2 * MB);
    assert_eq!(ranges, vec![(0, 2 * MB - 1)]);
}

#[test]
fn test_warmup_unknown_head_and_tail() {
    let header = vec![9u8; 256];
    let ranges = compute_warmup_ranges(&header, 10 * MB, 2 * MB);
    assert_eq!(ranges, vec![(0, 2 * MB - 1), (8 * MB, 10 * MB - 1)]);
}

#[test]
fn test_warmup_chunk_span() {
    // Range (0, 2MB-1) in 2 MB chunks covers chunk 0 only.
    assert_eq!(warmup_chunk_span(0, 2 * MB - 1, 2 * MB, 5), (0, 1));
    // Range (8MB, 10MB-1) covers the last chunk of five.
    assert_eq!(warmup_chunk_span(8 * MB, 10 * MB - 1, 2 * MB, 5), (4, 5));
    // Spans clamp to the grid.
    assert_eq!(warmup_chunk_span(100 * MB, 200 * MB, 2 * MB, 5), (5, 5));
}

#[test]
fn test_interpret_probe() {
    // Auth rejection statuses.
    for status in [401u16, 403, 412] {
        assert_eq!(
            interpret_probe(status, None, None, None).unwrap_err(),
            ProxyError::AuthRejected
        );
        assert_eq!(interpret_fetch_status(status).unwrap_err(), ProxyError::AuthRejected);
    }
    // Other failures.
    assert_eq!(interpret_probe(500, None, None, None).unwrap_err(), ProxyError::FetchFailed);
    assert_eq!(interpret_probe(404, None, None, None).unwrap_err(), ProxyError::FetchFailed);
    assert_eq!(interpret_fetch_status(503).unwrap_err(), ProxyError::FetchFailed);
    assert!(interpret_fetch_status(206).is_ok());

    // 206 means range support; the total comes from Content-Range.
    let info = interpret_probe(206, Some("bytes 0-0/10485760"), None, Some("video/mp4")).unwrap();
    assert!(info.supports_range);
    assert_eq!(info.content_length, 10 * MB);
    assert_eq!(info.content_type, "video/mp4");

    // 200 means no range support; the total comes from Content-Length.
    let info = interpret_probe(200, None, Some("4096"), None).unwrap();
    assert!(!info.supports_range);
    assert_eq!(info.content_length, 4096);
    assert_eq!(info.content_type, "application/octet-stream");

    // Unreadable headers fall back to zero.
    let info = interpret_probe(206, Some("bytes"), None, None).unwrap();
    assert_eq!(info.content_length, 0);
}

#[test]
fn test_parse_content_range_total() {
    assert_eq!(parse_content_range_total("bytes 0-0/12345"), Some(12345));
    assert_eq!(parse_content_range_total("12345"), Some(12345));
    assert_eq!(parse_content_range_total("bytes 0-0/*"), None);
    assert_eq!(parse_content_range_total("bytes 0-0/"), None);
}

#[test]
fn test_effective_concurrency() {
    // Clamped to 8 and to the route pool, an empty pool counting as one.
    assert_eq!(effective_concurrency(6, 0), 1);
    assert_eq!(effective_concurrency(6, 3), 3);
    assert_eq!(effective_concurrency(6, 10), 6);
    assert_eq!(effective_concurrency(20, 10), 8);
}

#[test]
fn test_pick_route_index() {
    assert_eq!(pick_route_index(0, 3), 0);
    assert_eq!(pick_route_index(7, 3), 1);
}

#[test]
fn test_auth_update_plan() {
    // A blank URL and an empty header map are both ignored.
    assert_eq!(auth_update_plan("  ", 0), (false, false));
    assert_eq!(auth_update_plan("http://example.com", 2), (true, true));
    assert_eq!(auth_update_plan("", 1), (false, true));
}

#[test]
fn test_translate_inner_range() {
    assert_eq!(translate_inner_range(1000, 0, 99), (1000, 1099));
}

#[test]
fn test_dedup_routes() {
    // First occurrence wins, order is kept.
    let keys = vec![5u128, 3, 5, 7, 3, 9];
    assert_eq!(dedup_routes(&keys), vec![5, 3, 7, 9]);
    // The pool is capped at eight distinct routes.
    let keys: Vec<u128> = (0..12u128).chain(0..12u128).collect();
    assert_eq!(dedup_routes(&keys), (0..8u128).collect::<Vec<u128>>());
    assert_eq!(dedup_routes(&Vec::new()), Vec::<u128>::new());
}
