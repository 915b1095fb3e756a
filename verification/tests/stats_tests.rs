use ma_proxy_engine::stats::{sum_snapshots, StatsCollector};

#[test]
fn test_stats_basic() {
    let mut stats = StatsCollector::new(0);
    stats.record_downloaded(1000);
    stats.record_downloaded(500);
    assert_eq!(stats.total_downloaded(), 1500);

    stats.record_served(200);
    stats.record_request(1000, 300);

    stats.increment_workers();
    stats.increment_workers();
    stats.decrement_workers();

    let snap = stats.snapshot(50, 4096);
    assert_eq!(snap.buffered_bytes_ahead, 4096);
    assert_eq!(snap.active_workers, 1);
    let rate = snap.cache_hit_bytes as f64 / snap.requested_bytes as f64;
    assert!((rate - 0.3).abs() < f64::EPSILON);
}

#[test]
fn test_stats_throughput_window() {
    let mut stats = StatsCollector::new(0);
    stats.record_downloaded(1000);
    stats.record_served(500);
    // One full second: 1000 bytes downloaded = 8000 bits per second.
    let snap = stats.snapshot(1000, 0);
    assert_eq!(snap.download_bps, 8000);
    assert_eq!(snap.serve_bps, 4000);
    // A window of 100 ms or less reports zero to avoid division noise.
    stats.record_downloaded(1000);
    let snap = stats.snapshot(1100, 0);
    assert_eq!(snap.download_bps, 0);
    assert_eq!(snap.serve_bps, 0);
    // The next window measures only bytes since the last snapshot.
    let snap = stats.snapshot(2100, 0);
    assert_eq!(snap.download_bps, 0);
    stats.record_downloaded(250);
    let snap = stats.snapshot(4100, 0);
    // 250 bytes over 2 s = 1000 bits per second.
    assert_eq!(snap.download_bps, 1000);
}

#[test]
fn test_stats_workers_never_negative() {
    let mut stats = StatsCollector::new(0);
    stats.decrement_workers();
    let snap = stats.snapshot(10, 0);
    assert_eq!(snap.active_workers, 0);
}

#[test]
fn test_sum_snapshots() {
    let mut a = StatsCollector::new(0);
    a.record_request(100, 40);
    a.increment_workers();
    let mut b = StatsCollector::new(0);
    b.record_request(300, 50);
    let snaps = vec![a.snapshot(10, 7), b.snapshot(10, 5)];
    let sum = sum_snapshots(&snaps);
    assert_eq!(sum.requested_bytes, 400);
    assert_eq!(sum.cache_hit_bytes, 90);
    assert_eq!(sum.buffered_bytes_ahead, 12);
    assert_eq!(sum.active_workers, 1);
}
