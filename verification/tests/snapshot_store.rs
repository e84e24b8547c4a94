use notmux::remote_sync::{RemoteSyncState, SnapshotStore};

#[test]
fn snapshot_store_set_get_remove() {
    let mut store: SnapshotStore<u32> = SnapshotStore::new();
    assert_eq!(store.snapshot("remote:a:p1"), None);
    store.set_snapshot("remote:a:p1", 1);
    store.set_snapshot("remote:a:p2", 2);
    store.set_snapshot("remote:a:p1", 3);
    assert_eq!(store.snapshot("remote:a:p1"), Some(&3));
    assert_eq!(store.snapshot("remote:a:p2"), Some(&2));
    store.remove_snapshot("remote:a:p1");
    assert_eq!(store.snapshot("remote:a:p1"), None);
    assert_eq!(store.snapshot("remote:a:p2"), Some(&2));
}

#[test]
fn snapshot_store_drops_by_prefix() {
    let mut store: SnapshotStore<String> = SnapshotStore::new();
    store.set_snapshot("remote:a:p1", "one".to_string());
    store.set_snapshot("remote:b:p2", "two".to_string());
    store.set_snapshot("remote:a:p3", "three".to_string());
    store.retain_not_starting_with("remote:a:");
    assert_eq!(store.snapshot("remote:a:p1"), None);
    assert_eq!(store.snapshot("remote:a:p3"), None);
    assert_eq!(store.snapshot("remote:b:p2").map(String::as_str), Some("two"));
}

#[test]
fn pending_focus_holds_each_id_once() {
    let mut s = RemoteSyncState::new();
    s.queue_focus("p1");
    s.queue_focus("p2");
    s.queue_focus("p1");
    assert_eq!(s.pending_focus().len(), 2);
    let mut drained = s.drain_pending_focus();
    drained.sort();
    assert_eq!(drained, vec!["p1".to_string(), "p2".to_string()]);
    assert!(s.pending_focus().is_empty());
}
