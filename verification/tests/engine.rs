use shortland::backend::memory::{InMemoryBackend, MemoryBackendError};
use shortland::backend::{Backend, BackendError};

// Day 19000 since the epoch is 2022-01-08 (UTC).
const DAY_D: i64 = 19000 * 86400;

#[test]
fn store_ids_strictly_increase() {
    let mut engine = InMemoryBackend::new();
    let a = engine.store("https://example.com/a").unwrap();
    let b = engine.store("https://example.com/b").unwrap();
    let c = engine.store("https://example.com/c").unwrap();
    assert_eq!(a, 1);
    assert_eq!(b, 2);
    assert_eq!(c, 3);
    assert!(a < b && b < c);
}

#[test]
fn retrieve_unknown_id_not_found() {
    let mut engine = InMemoryBackend::new();
    assert!(matches!(engine.retrive_at(42, DAY_D), Err(BackendError::NotFound)));
}

#[test]
fn retrieve_records_and_returns_destination() {
    let mut engine = InMemoryBackend::new();
    let id = engine.store("https://example.com").unwrap();
    let url = engine.retrive_at(id, DAY_D).unwrap();
    assert_eq!(url, "https://example.com");
    assert_eq!(engine.stat_at(id, None, DAY_D).unwrap(), 1);
}

#[test]
fn stat_of_stored_never_retrieved_is_zero() {
    let mut engine = InMemoryBackend::new();
    let id = engine.store("https://example.com").unwrap();
    assert_eq!(engine.stat_at(id, None, DAY_D).unwrap(), 0);
}

#[test]
fn stat_of_unknown_id_not_found() {
    let engine = InMemoryBackend::new();
    assert!(matches!(engine.stat_at(7, None, DAY_D), Err(BackendError::NotFound)));
}

#[test]
fn stat_window_spans_day_boundary() {
    let mut engine = InMemoryBackend::new();
    let id = engine.store("https://example.com").unwrap();
    assert_eq!(id, 1);
    // One event at 23:59:00 of day D, one at 00:01:00 of day D+1.
    engine.retrive_at(id, DAY_D + 86340).unwrap();
    engine.retrive_at(id, DAY_D + 86400 + 60).unwrap();
    // Query since 23:00:00 of day D, at 00:02:00 of day D+1.
    let count = engine
        .stat_at(id, Some(DAY_D + 82800), DAY_D + 86400 + 120)
        .unwrap();
    assert_eq!(count, 2);
}

#[test]
fn stat_since_filters_older_events() {
    let mut engine = InMemoryBackend::new();
    let id = engine.store("https://example.com").unwrap();
    engine.retrive_at(id, DAY_D + 100).unwrap();
    engine.retrive_at(id, DAY_D + 200).unwrap();
    assert_eq!(engine.stat_at(id, Some(DAY_D + 150), DAY_D + 300).unwrap(), 1);
    assert_eq!(engine.stat_at(id, Some(DAY_D + 50), DAY_D + 300).unwrap(), 2);
    assert_eq!(engine.stat_at(id, Some(DAY_D + 250), DAY_D + 300).unwrap(), 0);
}

#[test]
fn stat_default_window_is_trailing_day() {
    let mut engine = InMemoryBackend::new();
    let id = engine.store("https://example.com").unwrap();
    engine.retrive_at(id, DAY_D).unwrap();
    // Within 24 hours the event counts; afterwards it does not.
    assert_eq!(engine.stat_at(id, None, DAY_D + 86400).unwrap(), 1);
    assert_eq!(engine.stat_at(id, None, DAY_D + 86401).unwrap(), 0);
}

#[test]
fn stat_default_window_overflow() {
    let mut engine = InMemoryBackend::new();
    let id = engine.store("https://example.com").unwrap();
    assert!(matches!(
        engine.stat_at(id, None, i64::MIN),
        Err(BackendError::DateTimeOverflow)
    ));
}

#[test]
fn update_replaces_destination_and_keeps_stats() {
    let mut engine = InMemoryBackend::new();
    let id = engine.store("https://example.com").unwrap();
    engine.retrive_at(id, DAY_D).unwrap();
    engine.update(id, "https://example.org").unwrap();
    assert_eq!(engine.retrive_at(id, DAY_D + 1).unwrap(), "https://example.org");
    // The update itself left the count untouched; the second retrieve
    // added one more event.
    assert_eq!(engine.stat_at(id, Some(DAY_D), DAY_D + 10).unwrap(), 2);
}

#[test]
fn update_unknown_id_not_found() {
    let mut engine = InMemoryBackend::new();
    assert!(matches!(
        engine.update(5, "https://example.org"),
        Err(BackendError::NotFound)
    ));
}

#[test]
fn delete_is_terminal() {
    let mut engine = InMemoryBackend::new();
    let id = engine.store("https://example.com").unwrap();
    engine.delete(id).unwrap();
    assert!(matches!(engine.retrive_at(id, DAY_D), Err(BackendError::NotFound)));
    assert!(matches!(
        engine.update(id, "https://example.org"),
        Err(BackendError::NotFound)
    ));
    assert!(matches!(engine.stat_at(id, None, DAY_D), Err(BackendError::NotFound)));
    assert!(matches!(engine.delete(id), Err(BackendError::NotFound)));
}

#[test]
fn deleted_ids_are_never_reissued() {
    let mut engine = InMemoryBackend::new();
    let a = engine.store("https://example.com/a").unwrap();
    engine.delete(a).unwrap();
    let b = engine.store("https://example.com/b").unwrap();
    assert_eq!(b, a + 1);
}

#[test]
fn end_to_end_lifecycle() {
    let mut engine = InMemoryBackend::new();
    let id = engine.store("https://example.com").unwrap();
    assert_eq!(id, 1);
    assert_eq!(engine.retrive_at(1, DAY_D).unwrap(), "https://example.com");
    assert_eq!(engine.stat_at(1, None, DAY_D).unwrap(), 1);
    engine.update(1, "https://example.org").unwrap();
    assert_eq!(engine.retrive_at(1, DAY_D + 1).unwrap(), "https://example.org");
    engine.delete(1).unwrap();
    assert!(matches!(engine.retrive_at(1, DAY_D + 2), Err(BackendError::NotFound)));
}

#[test]
fn clock_based_operations() {
    // The trait methods read the real clock; the window reaches back 24
    // hours, so an event recorded moments ago is counted.
    let mut engine = InMemoryBackend::new();
    let id = engine.store("https://example.com").unwrap();
    assert_eq!(engine.retrive(id).unwrap(), "https://example.com");
    assert_eq!(engine.stat(id, None).unwrap(), 1);
    assert!(matches!(engine.retrive(id + 1), Err(BackendError::NotFound)));
}

#[test]
fn default_engine_is_empty() {
    let mut engine = InMemoryBackend::default();
    assert!(matches!(engine.retrive_at(1, DAY_D), Err(BackendError::NotFound)));
    assert_eq!(engine.store("https://example.com").unwrap(), 1);
}

#[test]
fn memory_error_maps_to_not_found() {
    assert!(matches!(
        MemoryBackendError::NotFound.to_backend_error(),
        BackendError::NotFound
    ));
}

#[test]
fn backend_error_messages() {
    assert_eq!(BackendError::NotFound.message(), "Shorten not found");
    assert_eq!(BackendError::DateTimeOverflow.message(), "Datetime overflow");
    assert_eq!(BackendError::UnsupportedVersion.message(), "Unsupported version");
    assert_eq!(
        BackendError::Internal("socket closed".to_owned()).message(),
        "socket closed"
    );
}
