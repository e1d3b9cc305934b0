use shortland::backend::redis::{RedisBackend, RedisBackendError};
use shortland::backend::BackendError;

// 2022-01-08 00:00:00 UTC.
const TS: i64 = 19000 * 86400;

#[test]
fn store_command_hands_destination_through() {
    let planner = RedisBackend::new();
    let cmd = planner.store_command("https://example.com");
    assert_eq!(cmd.destination, "https://example.com");
    assert_eq!(planner.store_reply(1).unwrap(), 1);
    assert_eq!(planner.store_reply(42).unwrap(), 42);
}

#[test]
fn retrive_command_builds_day_key_member_and_expiry() {
    let planner = RedisBackend::new();
    let cmd = planner.retrive_command(7, TS).unwrap();
    assert_eq!(cmd.mapping_key, "7");
    assert_eq!(cmd.stat_key, "stat:7:20220108");
    assert_eq!(cmd.score, TS);
    assert_eq!(cmd.ttl_seconds, 172800);
    assert!(cmd.ttl_only_if_unset);
    let prefix = format!("{}:", TS);
    assert!(cmd.member.starts_with(&prefix));
    assert_eq!(cmd.member.len(), prefix.len() + 36);
}

#[test]
fn retrive_command_members_are_distinct() {
    // Two events at the same timestamp stay distinguishable members.
    let planner = RedisBackend::new();
    let a = planner.retrive_command(7, TS).unwrap();
    let b = planner.retrive_command(7, TS).unwrap();
    assert_ne!(a.member, b.member);
}

#[test]
fn retrive_command_refuses_unrepresentable_times() {
    let planner = RedisBackend::new();
    assert!(matches!(
        planner.retrive_command(7, -1),
        Err(BackendError::DateTimeOverflow)
    ));
    // 10000-01-01 00:00:00 UTC has no four-digit-year day key.
    assert!(matches!(
        planner.retrive_command(7, 253402300800),
        Err(BackendError::DateTimeOverflow)
    ));
    assert!(planner.retrive_command(7, 253402300799).is_ok());
}

#[test]
fn retrive_reply_absent_is_not_found() {
    let planner = RedisBackend::new();
    assert!(matches!(planner.retrive_reply(None), Err(BackendError::NotFound)));
    assert_eq!(
        planner.retrive_reply(Some("https://example.com".to_owned())).unwrap(),
        "https://example.com"
    );
}

#[test]
fn stat_command_scans_today_and_yesterday() {
    let planner = RedisBackend::new();
    let cmd = planner.stat_command(7, None, TS + 3600).unwrap();
    assert_eq!(cmd.mapping_key, "7");
    assert_eq!(cmd.today_key, "stat:7:20220108");
    assert_eq!(cmd.yesterday_key, "stat:7:20220107");
    assert_eq!(cmd.min_score, TS + 3600 - 86400);
    assert_eq!(cmd.max_score, TS + 3600);
    let explicit = planner.stat_command(7, Some(TS), TS + 3600).unwrap();
    assert_eq!(explicit.min_score, TS);
}

#[test]
fn stat_command_refuses_unrepresentable_times() {
    let planner = RedisBackend::new();
    assert!(matches!(
        planner.stat_command(7, None, 86399),
        Err(BackendError::DateTimeOverflow)
    ));
    assert!(matches!(
        planner.stat_command(7, None, 253402300800),
        Err(BackendError::DateTimeOverflow)
    ));
}

#[test]
fn stat_reply_sums_both_buckets() {
    let planner = RedisBackend::new();
    assert_eq!(planner.stat_reply(true, 2, 3).unwrap(), 5);
    assert!(matches!(
        planner.stat_reply(true, u64::MAX, 1),
        Err(BackendError::Internal(_))
    ));
}

#[test]
fn stat_reply_live_id_with_no_events_is_zero() {
    let planner = RedisBackend::new();
    assert_eq!(planner.stat_reply(true, 0, 0).unwrap(), 0);
}

#[test]
fn stat_reply_missing_id_is_not_found() {
    let planner = RedisBackend::new();
    assert!(matches!(
        planner.stat_reply(false, 0, 0),
        Err(BackendError::NotFound)
    ));
    // Stale bucket counts never turn a missing id into a count.
    assert!(matches!(
        planner.stat_reply(false, 2, 3),
        Err(BackendError::NotFound)
    ));
}

#[test]
fn update_command_is_conditional() {
    let planner = RedisBackend::new();
    let cmd = planner.update_command(7, "https://example.org");
    assert_eq!(cmd.mapping_key, "7");
    assert_eq!(cmd.destination, "https://example.org");
    assert!(cmd.only_if_exists);
}

#[test]
fn update_reply_no_op_is_not_found() {
    let planner = RedisBackend::new();
    assert!(planner.update_reply(Some(())).is_ok());
    assert!(matches!(planner.update_reply(None), Err(BackendError::NotFound)));
}

#[test]
fn delete_command_names_all_three_keys() {
    let planner = RedisBackend::new();
    let cmd = planner.delete_command(7, TS).unwrap();
    assert_eq!(cmd.mapping_key, "7");
    assert_eq!(cmd.today_stat_key, "stat:7:20220108");
    assert_eq!(cmd.yesterday_stat_key, "stat:7:20220107");
}

#[test]
fn delete_reply_follows_the_mapping_key_alone() {
    let planner = RedisBackend::new();
    assert!(planner.delete_reply(true).is_ok());
    // A surviving stat key never makes a delete of a missing id succeed.
    assert!(matches!(planner.delete_reply(false), Err(BackendError::NotFound)));
}

#[test]
fn redis_error_mapping() {
    assert!(matches!(
        RedisBackendError::NotFound.to_backend_error(),
        BackendError::NotFound
    ));
    match RedisBackendError::Client("connection reset".to_owned()).to_backend_error() {
        BackendError::Internal(m) => assert_eq!(m, "connection reset"),
        other => panic!("expected the internal kind, got {:?}", other),
    }
}
