use ma_proxy_engine::downloader::{
    fetch_attempt_step, ChunkSlot, Downloader, FetchOutcome, FetchStep,
};
use ma_proxy_engine::errors::ProxyError;
use ma_proxy_engine::session::Session;
use ma_proxy_engine::source::SourceInfo;

const KB: u64 = 1024;
const MB: u64 = 1024 * 1024;

fn make_session(content_length: u64, chunk_size: u64) -> Session {
    let info = SourceInfo {
        content_length,
        content_type: "audio/mpeg".to_string(),
        supports_range: true,
    };
    Session::new("s".to_string(), info, chunk_size, 4, 0).unwrap()
}

fn pattern(start: u64, len: usize) -> Vec<u8> {
    (0..len).map(|i| ((start as usize + i) % 256) as u8).collect()
}

fn fill_chunk(session: &mut Session, i: usize) {
    let cs = session.cache().chunk_size();
    let len = session.cache().chunk_len(i);
    let data = pattern(i as u64 * cs, len);
    session.commit_chunk(i, &data).unwrap();
}

#[test]
fn test_session_rejects_unsupported() {
    // A zero-length origin cannot become a session.
    let info =
        SourceInfo { content_length: 0, content_type: "x".to_string(), supports_range: true };
    let r = Session::new("s".to_string(), info, 2 * MB, 4, 0);
    assert!(matches!(r, Err(ProxyError::Unsupported)));
    // Nor can one without range support.
    let info =
        SourceInfo { content_length: 100, content_type: "x".to_string(), supports_range: false };
    let r = Session::new("s".to_string(), info, 2 * MB, 4, 0);
    assert!(matches!(r, Err(ProxyError::Unsupported)));
}

#[test]
fn test_initial_prefetch_targets_head_and_tail() {
    let mut session = make_session(20 * MB, 2 * MB);
    let spawned = session.initial_prefetch();
    // Chunk 0 and the last four of ten chunks.
    assert_eq!(spawned, vec![0, 6, 7, 8, 9]);
}

#[test]
fn test_serve_range_round_trip() {
    let mut session = make_session(10 * MB, 2 * MB);
    let plan = session.serve_precheck(0, 1024, 0).unwrap();
    assert_eq!(plan.start, 0);
    assert_eq!(plan.end, 1024);
    assert_eq!(plan.first_chunk, 0);
    assert_eq!(plan.last_chunk, 0);
    assert!(!plan.is_seek);

    let urgent = session.dispatch_urgent(plan.first_chunk, plan.last_chunk);
    assert_eq!(urgent, vec![0]);

    // The chunk is not there yet: assembling the range is a cache miss.
    assert!(matches!(
        session.finish_serve(0, 1024, false, 0),
        Err(ProxyError::CacheMiss)
    ));

    // The fetch task hands the chunk over; assembly then returns the bytes.
    fill_chunk(&mut session, 0);
    session.finish_fetch_task(0);
    let (data, spawned) = session.finish_serve(0, 1024, false, 0).unwrap();
    assert_eq!(data.len(), 1024);
    assert_eq!(data, pattern(0, 1024));
    // With no rate estimate yet, the look-ahead reaches twenty chunks: the
    // remaining four of this five-chunk file.
    assert_eq!(spawned, vec![1, 2, 3, 4]);
}

#[test]
fn test_playback_rate_smoothing() {
    let mut session = make_session(10 * MB, 2 * MB);
    fill_chunk(&mut session, 0);
    assert_eq!(session.playback_bps(), 0);
    // First observation is taken whole: 1024 bytes = 8192 bits.
    session.serve_precheck(0, 1024, 0).unwrap();
    session.finish_serve(0, 1024, false, 0).unwrap();
    assert_eq!(session.playback_bps(), 8192);
    // Later observations blend in one part in ten.
    session.serve_precheck(1024, 3072, 0).unwrap();
    session.finish_serve(1024, 3072, false, 0).unwrap();
    // (8192 * 9 + 2048 * 8) / 10
    assert_eq!(session.playback_bps(), (8192 * 9 + 2048 * 8) / 10);
}

#[test]
fn test_serve_rejects_empty_range() {
    let mut session = make_session(10 * MB, 2 * MB);
    assert!(matches!(
        session.serve_precheck(5, 5, 0),
        Err(ProxyError::InvalidRange)
    ));
    // An end past the file is clamped; a start past the file is rejected.
    assert!(matches!(
        session.serve_precheck(10 * MB, 11 * MB, 0),
        Err(ProxyError::InvalidRange)
    ));
    let plan = session.serve_precheck(10 * MB - 1, 11 * MB, 0).unwrap();
    assert_eq!(plan.end, 10 * MB);
}

#[test]
fn test_read_chunk_slice() {
    let mut session = make_session(5 * MB, 2 * MB);
    fill_chunk(&mut session, 1);
    // A chunk outside the range emits nothing.
    assert_eq!(session.read_chunk_slice(0, 3 * MB, 4 * MB).unwrap(), None);
    // The in-range slice of a complete chunk comes back exactly.
    let got = session.read_chunk_slice(1, 3 * MB, 4 * MB).unwrap().unwrap();
    assert_eq!(got, pattern(3 * MB, MB as usize));
    // A missing chunk inside the range is a cache miss.
    assert!(matches!(
        session.read_chunk_slice(2, 3 * MB, 5 * MB),
        Err(ProxyError::CacheMiss)
    ));
}

#[test]
fn test_seek_detection_aborts_outside_window() {
    // 12 MiB in 64 KiB chunks: 192 chunks; the seek window spans 32 chunks.
    let mut session = make_session(12 * MB, 64 * KB);
    for i in 0..192 {
        if i != 190 {
            fill_chunk(&mut session, i);
        }
    }
    // A fetch task is live for chunk 190.
    let (done, spawned) = session.wait_plan(190);
    assert!(!done);
    assert!(spawned);

    // Three sequential serves with over three seconds elapsed enable
    // seek detection.
    let mut t = 0;
    let mut offset = 0;
    for _ in 0..3 {
        let plan = session.serve_precheck(offset, offset + 256 * KB, t).unwrap();
        assert!(!plan.is_seek);
        session.finish_serve(offset, offset + 256 * KB, plan.is_seek, t).unwrap();
        offset += 256 * KB;
        t += 2000;
    }

    // A jump of more than 4 MiB is now classified as a seek...
    let target = 8 * MB;
    let plan = session.serve_precheck(target, target + 256 * KB, t).unwrap();
    assert!(plan.is_seek);
    // ...and the live task outside the 32-chunk window at the target was
    // told to cancel before the seek's own fetches start.
    let first = (target / (64 * KB)) as usize;
    assert!(190 < first || 190 >= first + 32);
    assert_eq!(
        session.downloader_state().slot_at(190),
        ChunkSlot::Active { cancel_requested: true }
    );
}

#[test]
fn test_shutdown_cancels_everything() {
    let mut session = make_session(10 * MB, 2 * MB);
    let (done, spawned) = session.wait_plan(3);
    assert!(!done && spawned);
    session.shutdown();
    assert_eq!(
        session.downloader_state().slot_at(3),
        ChunkSlot::Active { cancel_requested: true }
    );
    // No new work is accepted after shutdown.
    let (done, spawned) = session.wait_plan(4);
    assert!(!done && !spawned);
}

#[test]
fn test_downloader_dedup_and_finish() {
    let mut session = make_session(10 * MB, 2 * MB);
    let (_, first) = session.wait_plan(2);
    assert!(first);
    // A second task for the same chunk is refused while one is live.
    let (_, second) = session.wait_plan(2);
    assert!(!second);
    // Once the task finishes, the slot is free again.
    session.finish_fetch_task(2);
    let (_, third) = session.wait_plan(2);
    assert!(third);
    // A completed chunk never spawns.
    fill_chunk(&mut session, 4);
    let (done, spawned) = session.wait_plan(4);
    assert!(done && !spawned);
}

#[test]
fn test_fetch_attempt_step_protocol() {
    let m = 3;
    assert_eq!(fetch_attempt_step(0, FetchOutcome::Success, true, m), FetchStep::Exit);
    assert_eq!(
        fetch_attempt_step(0, FetchOutcome::Success, false, m),
        FetchStep::WriteAndFinish
    );
    assert_eq!(
        fetch_attempt_step(1, FetchOutcome::AuthRejected, false, m),
        FetchStep::RefreshAuthAndRetry
    );
    // Linear backoff: 500 ms * (attempt + 1).
    assert_eq!(
        fetch_attempt_step(0, FetchOutcome::OtherError, false, m),
        FetchStep::Backoff { delay_ms: 500, next_attempt: 1 }
    );
    assert_eq!(
        fetch_attempt_step(2, FetchOutcome::OtherError, false, m),
        FetchStep::Backoff { delay_ms: 1500, next_attempt: 3 }
    );
    assert_eq!(fetch_attempt_step(3, FetchOutcome::OtherError, false, m), FetchStep::Fail);
}

#[test]
fn test_downloader_prefetch_range_clamps() {
    let mut session = make_session(10 * MB, 2 * MB);
    fill_chunk(&mut session, 1);
    // Directly exercise the downloader over the session's cache.
    let mut d = Downloader::new(5, 6);
    let spawned = d.prefetch_range(session.cache(), 0, 100);
    // Chunk 1 is cached, the rest spawn; the range clamps to five chunks.
    assert_eq!(spawned, vec![0, 2, 3, 4]);
}
