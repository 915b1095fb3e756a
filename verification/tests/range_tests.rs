use ma_proxy_engine::range::{
    head_content_range, parse_range_header, resolve_range, ParsedRange, RangeDecision,
};

const STARTUP_CLAMP: u64 = 512 * 1024;

#[test]
fn test_parse_range_header_full() {
    let result = parse_range_header("bytes=0-1023");
    assert!(matches!(
        result,
        Some(ParsedRange::StartEnd { start: 0, end_inclusive: Some(1023) })
    ));
}

#[test]
fn test_parse_range_header_open_ended() {
    let result = parse_range_header("bytes=500-");
    assert!(matches!(
        result,
        Some(ParsedRange::StartEnd { start: 500, end_inclusive: None })
    ));
}

#[test]
fn test_parse_range_header_suffix() {
    let result = parse_range_header("bytes=-1024");
    assert!(matches!(result, Some(ParsedRange::Suffix { len: 1024 })));
}

#[test]
fn test_parse_range_header_invalid() {
    assert_eq!(parse_range_header("invalid"), None);
    assert_eq!(parse_range_header("bytes=abc-def"), None);
}

#[test]
fn test_parse_range_header_edges() {
    // Surrounding whitespace is tolerated.
    assert!(matches!(
        parse_range_header("  bytes=1- 2 "),
        Some(ParsedRange::StartEnd { start: 1, end_inclusive: Some(2) })
    ));
    // A zero-length suffix is rejected.
    assert_eq!(parse_range_header("bytes=-0"), None);
    // A value too large for u64 is rejected.
    assert_eq!(parse_range_header("bytes=99999999999999999999-"), None);
    // A missing dash is rejected.
    assert_eq!(parse_range_header("bytes=123"), None);
}

#[test]
fn test_resolve_single_byte() {
    // Range bytes=0-0 serves exactly one byte as partial content.
    let r = resolve_range(
        Some(ParsedRange::StartEnd { start: 0, end_inclusive: Some(0) }),
        10 * 1024 * 1024,
    );
    assert_eq!(r, RangeDecision::Serve { start: 0, end: 1, partial: true });
}

#[test]
fn test_resolve_open_ended_clamped() {
    let total = 10 * 1024 * 1024;
    // Far from the end: the clamp bounds the body.
    let r = resolve_range(Some(ParsedRange::StartEnd { start: 1000, end_inclusive: None }), total);
    match r {
        RangeDecision::Serve { start, end, partial } => {
            assert_eq!(start, 1000);
            assert_eq!(end - start, STARTUP_CLAMP);
            assert!(partial);
        }
        _ => panic!("expected a served range"),
    }
    // Near the end: the remaining bytes bound the body.
    let start = total - 100;
    let r = resolve_range(Some(ParsedRange::StartEnd { start, end_inclusive: None }), total);
    assert_eq!(r, RangeDecision::Serve { start, end: total, partial: true });
}

#[test]
fn test_resolve_suffix() {
    let total = 10 * 1024 * 1024;
    let r = resolve_range(Some(ParsedRange::Suffix { len: 4096 }), total);
    assert_eq!(r, RangeDecision::Serve { start: total - 4096, end: total, partial: true });
    // A suffix longer than the file starts at zero.
    let r = resolve_range(Some(ParsedRange::Suffix { len: total + 1 }), total);
    assert_eq!(r, RangeDecision::Serve { start: 0, end: total, partial: true });
}

#[test]
fn test_resolve_unsatisfiable() {
    let total = 4096;
    let r = resolve_range(Some(ParsedRange::StartEnd { start: 4096, end_inclusive: None }), total);
    assert_eq!(r, RangeDecision::NotSatisfiable);
    let r = resolve_range(
        Some(ParsedRange::StartEnd { start: 9999, end_inclusive: Some(10000) }),
        total,
    );
    assert_eq!(r, RangeDecision::NotSatisfiable);
    // An inverted range is unsatisfiable too.
    let r = resolve_range(Some(ParsedRange::StartEnd { start: 10, end_inclusive: Some(5) }), total);
    assert_eq!(r, RangeDecision::NotSatisfiable);
}

#[test]
fn test_resolve_no_header() {
    // A small file is served whole with status 200.
    let r = resolve_range(None, 1000);
    assert_eq!(r, RangeDecision::Serve { start: 0, end: 1000, partial: false });
    // A large file is clamped and served as partial content.
    let total = 10 * 1024 * 1024;
    let r = resolve_range(None, total);
    assert_eq!(r, RangeDecision::Serve { start: 0, end: STARTUP_CLAMP, partial: true });
}

#[test]
fn test_head_content_range() {
    let total = 2048;
    assert_eq!(
        head_content_range(ParsedRange::StartEnd { start: 0, end_inclusive: Some(1023) }, total),
        (0, 1024)
    );
    assert_eq!(
        head_content_range(ParsedRange::StartEnd { start: 100, end_inclusive: None }, total),
        (100, 2048)
    );
    assert_eq!(head_content_range(ParsedRange::Suffix { len: 48 }, total), (2000, 2048));
}
