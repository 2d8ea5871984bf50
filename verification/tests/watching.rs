use std::collections::VecDeque;

use keysight::suppression::{
    drain_expired_deletes, drain_expired_writes, DeleteFingerprint, SelfWriteSuppression,
    WriteFingerprint, TTL_NS,
};
use keysight::watch::{route_event, WatchAction, WatchEventKind};

const T0: u64 = 1_000_000_000;

#[test]
fn test_watcher_modify_event_external_triggers_sync_file() {
    let mut s = SelfWriteSuppression::new();
    let a = route_event(
        &mut s,
        WatchEventKind::Modify,
        false,
        Some("/vault/foo.md"),
        Some((13, 42)),
        T0,
    );
    assert_eq!(a, WatchAction::SyncFile("/vault/foo.md".to_string()));
}

#[test]
fn test_watcher_remove_event_external_triggers_remove_file() {
    let mut s = SelfWriteSuppression::new();
    let a = route_event(&mut s, WatchEventKind::Remove, false, Some("/vault/foo.md"), None, T0);
    assert_eq!(a, WatchAction::RemoveFile("/vault/foo.md".to_string()));
}

#[test]
fn test_watcher_remove_event_suppressed_after_record_delete() {
    let mut s = SelfWriteSuppression::new();
    s.record_delete("/vault/foo.md", T0);
    let a = route_event(&mut s, WatchEventKind::Remove, false, Some("/vault/foo.md"), None, T0 + 1);
    assert_eq!(a, WatchAction::Ignore);
    // the entry is consumed: the next removal is external
    let b = route_event(&mut s, WatchEventKind::Remove, false, Some("/vault/foo.md"), None, T0 + 2);
    assert_eq!(b, WatchAction::RemoveFile("/vault/foo.md".to_string()));
}

#[test]
fn test_watcher_modify_event_suppressed_after_record_write() {
    let mut s = SelfWriteSuppression::new();
    s.record_write("/vault/foo.md", 12, 777, T0);
    let a = route_event(
        &mut s,
        WatchEventKind::Modify,
        false,
        Some("/vault/foo.md"),
        Some((12, 777)),
        T0 + 5,
    );
    assert_eq!(a, WatchAction::Ignore);
}

#[test]
fn test_watcher_rescan_triggers_sync_vault() {
    let mut s = SelfWriteSuppression::new();
    let a = route_event(&mut s, WatchEventKind::Any, false, None, None, T0);
    assert_eq!(a, WatchAction::SyncVault);
    let b = route_event(
        &mut s,
        WatchEventKind::Modify,
        true,
        Some("/vault/foo.md"),
        Some((1, 1)),
        T0,
    );
    assert_eq!(b, WatchAction::SyncVault);
    let c = route_event(&mut s, WatchEventKind::Other, false, Some("/vault/x.md"), None, T0);
    assert_eq!(c, WatchAction::SyncVault);
}

#[test]
fn test_watcher_create_event_external_triggers_sync_file() {
    let mut s = SelfWriteSuppression::new();
    let a = route_event(
        &mut s,
        WatchEventKind::Create,
        false,
        Some("/vault/foo.md"),
        Some((17, 5)),
        T0,
    );
    assert_eq!(a, WatchAction::SyncFile("/vault/foo.md".to_string()));
}

#[test]
fn test_watcher_create_event_suppressed_after_record_write() {
    let mut s = SelfWriteSuppression::new();
    s.record_write("/vault/foo.md", 24, 99, T0);
    let a = route_event(
        &mut s,
        WatchEventKind::Create,
        false,
        Some("/vault/foo.md"),
        Some((24, 99)),
        T0,
    );
    assert_eq!(a, WatchAction::Ignore);
}

#[test]
fn access_events_and_pathless_events_are_ignored() {
    let mut s = SelfWriteSuppression::new();
    assert_eq!(
        route_event(&mut s, WatchEventKind::Access, false, Some("/v/a.md"), Some((1, 1)), T0),
        WatchAction::Ignore
    );
    assert_eq!(
        route_event(&mut s, WatchEventKind::Modify, false, None, None, T0),
        WatchAction::Ignore
    );
    assert_eq!(
        route_event(&mut s, WatchEventKind::Remove, false, None, None, T0),
        WatchAction::Ignore
    );
}

#[test]
fn write_with_other_fingerprint_is_external() {
    let mut s = SelfWriteSuppression::new();
    s.record_write("/v/a.md", 10, 5, T0);
    assert!(!s.check_and_consume_write(Some("/v/a.md"), Some((11, 5)), T0));
    assert!(!s.check_and_consume_write(Some("/v/b.md"), Some((10, 5)), T0));
    assert!(!s.check_and_consume_write(Some("/v/a.md"), None, T0));
    assert!(s.check_and_consume_write(Some("/v/a.md"), Some((10, 5)), T0));
    assert!(!s.check_and_consume_write(Some("/v/a.md"), Some((10, 5)), T0));
}

#[test]
fn expired_entries_are_not_recognised() {
    let mut s = SelfWriteSuppression::new();
    s.record_write("/v/a.md", 10, 5, T0);
    s.record_delete("/v/b.md", T0);
    let late = T0 + TTL_NS + 1;
    assert!(!s.check_and_consume_write(Some("/v/a.md"), Some((10, 5)), late));
    assert!(!s.check_and_consume_delete(Some("/v/b.md"), late));
    // exactly at the time-to-live the entry still counts
    let mut t = SelfWriteSuppression::new();
    t.record_delete("/v/b.md", T0);
    assert!(t.check_and_consume_delete(Some("/v/b.md"), T0 + TTL_NS));
}

#[test]
fn draining_drops_only_leading_expired_entries() {
    let mut writes: VecDeque<WriteFingerprint> = VecDeque::from(vec![
        WriteFingerprint { path: "a".to_string(), size: 1, mtime_ns: 1, recorded_at_ns: 0 },
        WriteFingerprint { path: "b".to_string(), size: 1, mtime_ns: 1, recorded_at_ns: T0 * 5 },
        WriteFingerprint { path: "c".to_string(), size: 1, mtime_ns: 1, recorded_at_ns: 0 },
    ]);
    drain_expired_writes(&mut writes, T0 * 5);
    assert_eq!(writes.len(), 2);
    assert_eq!(writes[0].path, "b");
    let mut deletes: VecDeque<DeleteFingerprint> = VecDeque::from(vec![
        DeleteFingerprint { path: "a".to_string(), recorded_at_ns: 0 },
        DeleteFingerprint { path: "b".to_string(), recorded_at_ns: 0 },
    ]);
    drain_expired_deletes(&mut deletes, T0 * 5);
    assert!(deletes.is_empty());
}
