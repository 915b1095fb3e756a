use ma_proxy_engine::config::EngineConfig;
use ma_proxy_engine::errors::ProxyError;
use ma_proxy_engine::registry::{
    close_session, compute_session_id, create_session_install, create_session_reuse, dispose,
    init_engine, playback_url, session_stats, EngineState, SessionInfo,
};
use ma_proxy_engine::session::Session;
use ma_proxy_engine::source::SourceInfo;

fn test_config() -> EngineConfig {
    EngineConfig { chunk_size: 2 * 1024 * 1024, max_concurrency: 6, cache_dir: String::new() }
}

fn test_session(id: &str, content_length: u64) -> Session {
    let info = SourceInfo {
        content_length,
        content_type: "video/mp4".to_string(),
        supports_range: true,
    };
    Session::new(id.to_string(), info, 2 * 1024 * 1024, 4, 0).unwrap()
}

#[test]
fn test_compute_session_id_with_file_key() {
    let id1 = compute_session_id("https://example.com/file.mp4", "abc123");
    let id2 = compute_session_id("https://different.com/other.mp4", "abc123");
    // Same file_key should produce the same session ID regardless of URL.
    assert_eq!(id1, id2);
    assert_eq!(id1.len(), 32); // md5 hex is 32 chars
}

#[test]
fn test_compute_session_id_with_url() {
    let id1 = compute_session_id("https://example.com/file.mp4", "");
    let id2 = compute_session_id("https://example.com/file.mp4", "");
    assert_eq!(id1, id2);

    let id3 = compute_session_id("https://example.com/other.mp4", "");
    assert_ne!(id1, id3);
}

#[test]
fn test_compute_session_id_value() {
    // The id is the lowercase hex MD5 of "url:" + url.
    let id = compute_session_id("a", "");
    assert_eq!(id, format!("{:x}", md5::compute(b"url:a")));
    let id = compute_session_id("whatever", "k");
    assert_eq!(id, format!("{:x}", md5::compute(b"file:k")));
}

#[test]
fn test_session_info_fields() {
    let info = SessionInfo {
        session_id: "test".to_string(),
        playback_url: "http://127.0.0.1:8080/stream/test".to_string(),
        content_length: 1024,
        content_type: "video/mp4".to_string(),
    };
    assert_eq!(info.session_id, "test");
    assert_eq!(info.content_length, 1024);
}

#[test]
fn test_playback_url() {
    assert_eq!(playback_url(8080, "test"), "http://127.0.0.1:8080/stream/test");
    assert_eq!(playback_url(1, "x"), "http://127.0.0.1:1/stream/x");
}

#[test]
fn test_init_engine_idempotent() {
    let mut state: Option<EngineState> = None;
    assert!(init_engine(&mut state, test_config(), 4000).is_ok());
    assert!(state.is_some());
    let port_before = state.as_ref().unwrap().port();
    // A second init is a no-op success, keeping the existing engine.
    let other = EngineConfig { chunk_size: 1, max_concurrency: 1, cache_dir: String::new() };
    assert!(init_engine(&mut state, other, 5000).is_ok());
    assert_eq!(state.as_ref().unwrap().port(), port_before);
    assert_eq!(state.as_ref().unwrap().chunk_size(), 2 * 1024 * 1024);
}

#[test]
fn test_control_before_init() {
    let mut state: Option<EngineState> = None;
    let id = compute_session_id("http://example.com/a", "");
    assert_eq!(
        create_session_reuse(&state, &id).unwrap_err(),
        ProxyError::NotInitialized
    );
    assert_eq!(close_session(&mut state, &id).unwrap_err(), ProxyError::NotInitialized);
    assert_eq!(
        session_stats(&mut state, &id, 0).unwrap_err(),
        ProxyError::NotInitialized
    );
    // Dispose is fine either way.
    assert!(dispose(&mut state).is_ok());
    assert!(state.is_none());
}

#[test]
fn test_create_session_reuse_and_replace() {
    let mut state: Option<EngineState> = None;
    init_engine(&mut state, test_config(), 4000).unwrap();

    let id1 = compute_session_id("http://example.com/a", "");
    assert!(create_session_reuse(&state, &id1).unwrap().is_none());

    let info = create_session_install(&mut state, test_session(&id1, 10 * 1024 * 1024)).unwrap();
    assert_eq!(info.session_id, id1);
    assert_eq!(info.content_length, 10 * 1024 * 1024);
    assert_eq!(info.content_type, "video/mp4");
    assert_eq!(info.playback_url, format!("http://127.0.0.1:4000/stream/{}", id1));

    // The same id is reused.
    let again = create_session_reuse(&state, &id1).unwrap().unwrap();
    assert_eq!(again.session_id, id1);
    assert_eq!(again.content_length, 10 * 1024 * 1024);

    // Installing a new id clears all prior sessions.
    let id2 = compute_session_id("http://example.com/b", "");
    create_session_install(&mut state, test_session(&id2, 1024)).unwrap();
    assert!(create_session_reuse(&state, &id1).unwrap().is_none());
    assert!(create_session_reuse(&state, &id2).unwrap().is_some());
    assert_eq!(state.as_ref().unwrap().registry().len(), 1);
}

#[test]
fn test_close_session_and_stats() {
    let mut state: Option<EngineState> = None;
    init_engine(&mut state, test_config(), 4000).unwrap();
    let id = compute_session_id("http://example.com/a", "");
    create_session_install(&mut state, test_session(&id, 4 * 1024 * 1024)).unwrap();

    let snap = session_stats(&mut state, &id, 0).unwrap();
    assert_eq!(snap.active_workers, 0);
    assert_eq!(snap.requested_bytes, 0);

    let unknown = compute_session_id("http://example.com/missing", "");
    assert_eq!(session_stats(&mut state, &unknown, 0).unwrap_err(), ProxyError::NotFound);

    assert!(close_session(&mut state, &id).is_ok());
    assert_eq!(session_stats(&mut state, &id, 0).unwrap_err(), ProxyError::NotFound);
    // Closing an absent id is still a success.
    assert!(close_session(&mut state, &id).is_ok());
}
