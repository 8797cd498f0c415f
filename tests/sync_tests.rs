use tickit::changes::gather_local_changes;
use tickit::client::{bearer, sync_url, SyncClient, SyncConfig, SyncError};
use tickit::merge::apply_incoming_changes;
use tickit::models::{List, Priority, Tag, Task, Timestamp};
use tickit::scheduler::{decimal, failure_message, success_message, SyncScheduler};
use tickit::store::LocalStore;
use tickit::sync_types::{RecordType, SyncRecord, SyncResponse, SyncStatus};

fn ts(secs: i64) -> Timestamp {
    Timestamp { secs, nanos: 0 }
}

fn list(id: u128, name: &str, at: i64) -> List {
    List {
        id,
        name: name.to_string(),
        description: None,
        icon: "L".to_string(),
        color: None,
        is_inbox: name == "Inbox",
        created_at: ts(at),
        updated_at: ts(at),
        sort_order: 0,
    }
}

fn tag(id: u128, name: &str, at: i64) -> Tag {
    Tag { id, name: name.to_string(), color: "#ffffff".to_string(), created_at: ts(at) }
}

fn task(id: u128, title: &str, list_id: u128, at: i64) -> Task {
    Task {
        id,
        title: title.to_string(),
        description: None,
        url: None,
        priority: Priority::Medium,
        completed: false,
        list_id,
        tag_ids: Vec::new(),
        created_at: ts(at),
        updated_at: ts(at),
        completed_at: None,
        due_date: None,
    }
}

fn store_with(tasks: usize, lists: usize, tags: usize, at: i64) -> LocalStore {
    let mut s = LocalStore::new();
    for i in 0..lists {
        s.upsert_list(list(1000 + i as u128, "L", at));
    }
    for i in 0..tags {
        s.upsert_tag(tag(2000 + i as u128, "g", at));
    }
    for i in 0..tasks {
        s.upsert_task(task(3000 + i as u128, "t", 1000, at));
    }
    s
}

fn configured() -> SyncConfig {
    SyncConfig {
        enabled: true,
        server: Some("https://sync.example.com/".to_string()),
        token: Some("abc".to_string()),
        interval_secs: 300,
    }
}

#[test]
fn full_sync_sends_every_entity_and_no_tombstones() {
    let mut s = store_with(3, 2, 4, 10);
    s.record_tombstone(77, "task".to_string(), ts(11));
    let changes = gather_local_changes(s, None);
    assert_eq!(changes.len(), 3 + 2 + 4);
    assert!(changes.iter().all(|r| !matches!(r, SyncRecord::Deleted { .. })));
}

#[test]
fn delta_sync_after_everything_is_empty() {
    let mut s = store_with(3, 2, 4, 10);
    s.record_tombstone(77, "task".to_string(), ts(11));
    let changes = gather_local_changes(s, Some(ts(11)));
    assert!(changes.is_empty());
}

#[test]
fn delta_sync_picks_later_changes_only() {
    let mut s = store_with(1, 1, 1, 10);
    s.upsert_task(task(9, "later", 1000, 30));
    s.upsert_tag(tag(8, "later", 30));
    s.record_tombstone(5, "list".to_string(), ts(31));
    s.record_tombstone(6, "task_tag".to_string(), ts(31));
    s.record_tombstone(4, "tag".to_string(), ts(5));
    let changes = gather_local_changes(s, Some(ts(20)));
    assert_eq!(changes.len(), 4);
    match &changes[0] {
        SyncRecord::Task(t) => assert_eq!(t.id, 9),
        _ => panic!("expected the later task first"),
    }
    match &changes[1] {
        SyncRecord::Tag(g) => assert_eq!(g.id, 8),
        _ => panic!("expected the later tag"),
    }
    match &changes[2] {
        SyncRecord::Deleted { id, record_type, deleted_at } => {
            assert_eq!(*id, 5);
            assert_eq!(*record_type, RecordType::List);
            assert_eq!(*deleted_at, ts(31));
        }
        _ => panic!("expected a list tombstone"),
    }
    match &changes[3] {
        SyncRecord::Deleted { id, record_type, .. } => {
            assert_eq!(*id, 6);
            assert_eq!(*record_type, RecordType::Task);
        }
        _ => panic!("expected an unknown label read as a task tombstone"),
    }
}

#[test]
fn same_second_is_not_after_the_watermark() {
    let mut s = LocalStore::new();
    s.upsert_list(List { updated_at: Timestamp { secs: 20, nanos: 1 }, ..list(1, "L", 20) });
    s.upsert_list(list(2, "M", 20));
    let changes = gather_local_changes(s, Some(ts(20)));
    assert_eq!(changes.len(), 1);
}

#[test]
fn deleted_task_travels_as_tombstone_not_record() {
    let mut s = LocalStore::new();
    s.upsert_list(list(1, "Inbox", 10));
    s.upsert_task(task(5, "old", 1, 10));
    s.set_last_sync(ts(20));
    s.delete_task_by_id(5);
    s.record_tombstone(5, "task".to_string(), ts(25));
    let w = s.get_last_sync();
    let changes = gather_local_changes(s, w);
    assert_eq!(changes.len(), 1);
    match &changes[0] {
        SyncRecord::Deleted { id, record_type, deleted_at } => {
            assert_eq!(*id, 5);
            assert_eq!(*record_type, RecordType::Task);
            assert_eq!(*deleted_at, ts(25));
        }
        _ => panic!("expected a tombstone"),
    }
    assert!(!changes.iter().any(|r| matches!(r, SyncRecord::Task(t) if t.id == 5)));
}

#[test]
fn two_devices_first_sync_scenario() {
    // Device A: one task in its Inbox, never synced.
    let mut a = LocalStore::new();
    a.upsert_list(list(1, "Inbox", 10));
    a.upsert_task(task(2, "buy milk", 1, 11));
    let mut sched_a = SyncScheduler::new(0, true);
    assert!(sched_a.poll(0, true, 300));
    let upload = gather_local_changes(a.clone(), a.get_last_sync());
    assert_eq!(upload.len(), 2);
    let t1 = ts(1000);
    let done = sched_a.complete(&mut a, Ok(SyncResponse { server_time: t1, changes: Vec::new(), conflicts: Vec::new() }));
    assert_eq!(done.applied, Some(0));
    assert!(done.refresh);
    assert_eq!(done.message, "Synced");
    assert_eq!(a.get_last_sync(), Some(t1));

    // Device B: empty, never synced; the server sends A's list and task.
    let mut b = LocalStore::new();
    let mut sched_b = SyncScheduler::new(0, true);
    assert!(sched_b.poll(5, true, 300));
    let upload_b = gather_local_changes(b.clone(), b.get_last_sync());
    assert!(upload_b.is_empty());
    let t2 = ts(1005);
    let done = sched_b.complete(
        &mut b,
        Ok(SyncResponse { server_time: t2, changes: upload, conflicts: Vec::new() }),
    );
    assert_eq!(done.applied, Some(2));
    assert!(done.refresh);
    assert_eq!(done.message, "Synced (2 changes applied)");
    assert_eq!(b.tasks.len(), 1);
    assert_eq!(b.lists.len(), 1);
    assert_eq!(b.tasks[0].title, "buy milk");
    assert_eq!(b.lists[0].name, "Inbox");
    let wb = b.get_last_sync().unwrap();
    assert!(wb >= t1);
    assert_eq!(sched_b.status.last_sync, Some(t2));
}

#[test]
fn failed_attempt_keeps_watermark_and_change_set() {
    let mut s = LocalStore::new();
    s.upsert_list(list(1, "Inbox", 10));
    s.set_last_sync(ts(5));
    let before = gather_local_changes(s.clone(), s.get_last_sync());
    let mut sched = SyncScheduler::new(0, true);
    assert!(sched.poll(1, true, 300));
    let done = sched.complete(&mut s, Err("status 500".to_string()));
    assert_eq!(done.applied, None);
    assert!(!done.refresh);
    assert_eq!(done.message, "Sync failed: status 500");
    assert_eq!(s.get_last_sync(), Some(ts(5)));
    assert_eq!(sched.status.last_error, Some("status 500".to_string()));
    assert!(!sched.in_progress);
    let after = gather_local_changes(s.clone(), s.get_last_sync());
    assert_eq!(before.len(), after.len());
    assert_eq!(after.len(), 1);
}

#[test]
fn scheduler_coalesces_and_waits_for_interval() {
    let mut sched = SyncScheduler::new(100, true);
    assert!(sched.poll(100, true, 60));
    sched.request();
    assert!(!sched.poll(101, true, 60));
    let mut s = LocalStore::new();
    sched.complete(&mut s, Ok(SyncResponse { server_time: ts(7), changes: Vec::new(), conflicts: Vec::new() }));
    assert!(sched.poll(102, true, 60));
    let mut s2 = LocalStore::new();
    sched.complete(&mut s2, Ok(SyncResponse { server_time: ts(8), changes: Vec::new(), conflicts: Vec::new() }));
    assert!(!sched.poll(150, true, 60));
    assert!(sched.poll(162, true, 60));
}

#[test]
fn scheduler_needs_enabled_sync() {
    let mut sched = SyncScheduler::new(0, false);
    sched.request();
    sched.mark_sync_pending(false);
    assert!(!sched.pending);
    assert!(!sched.poll(1000, false, 1));
    let mut manual = SyncScheduler::new(0, true);
    assert!(manual.poll(0, true, 0));
    let mut s = LocalStore::new();
    manual.complete(&mut s, Err("x".to_string()));
    assert!(!manual.poll(100000, true, 0));
    manual.mark_sync_pending(true);
    assert!(manual.poll(100001, true, 0));
}

#[test]
fn sync_url_trims_trailing_slashes() {
    assert_eq!(sync_url("https://sync.example.com//"), "https://sync.example.com/api/v1/sync");
    assert_eq!(sync_url("http://h:3030"), "http://h:3030/api/v1/sync");
    assert_eq!(bearer("tok"), "Bearer tok");
}

#[test]
fn client_refuses_without_configuration() {
    let mut cfg = configured();
    cfg.token = None;
    let mut c = SyncClient::new(cfg, 7);
    assert!(!c.is_enabled());
    let r = c.begin_sync(Vec::new(), None);
    assert_eq!(r.err(), Some(SyncError::NotConfigured));
    assert!(!c.status().syncing);
    assert_eq!(SyncError::NotConfigured.message(), "Sync is not enabled or not configured");
    let mut off = configured();
    off.enabled = false;
    assert!(!SyncClient::new(off, 7).is_enabled());
}

#[test]
fn client_builds_request_and_records_outcome() {
    let mut c = SyncClient::new(configured(), 0xabcd);
    assert!(c.is_enabled());
    assert_eq!(c.device_id(), 0xabcd);
    let out = c.begin_sync(vec![SyncRecord::Tag(tag(1, "g", 3))], Some(ts(9))).unwrap();
    assert_eq!(out.url, "https://sync.example.com/api/v1/sync");
    assert_eq!(out.authorization, "Bearer abc");
    assert_eq!(out.request.device_id, 0xabcd);
    assert_eq!(out.request.last_sync, Some(ts(9)));
    assert_eq!(out.request.changes.len(), 1);
    assert!(c.status().syncing);
    let r = c.end_sync(Err(SyncError::Transport("Sync failed with status: 401".to_string())));
    assert!(r.is_err());
    assert!(!c.status().syncing);
    assert_eq!(c.status().last_error, Some("Sync failed with status: 401".to_string()));
    c.begin_sync(Vec::new(), None).unwrap();
    let ok = c.end_sync(Ok(SyncResponse { server_time: ts(77), changes: Vec::new(), conflicts: vec![3] }));
    assert_eq!(ok.unwrap().conflicts, vec![3]);
    assert_eq!(c.status().last_sync, Some(ts(77)));
    assert_eq!(c.status().last_error, None);
}

#[test]
fn sync_status_defaults() {
    let s = SyncStatus::default();
    assert!(!s.syncing && s.last_sync.is_none() && s.last_error.is_none() && s.pending_changes == 0);
    assert!(SyncStatus::is_configured(&Some("s".to_string()), &Some("t".to_string())));
    assert!(!SyncStatus::is_configured(&Some("s".to_string()), &None));
}

#[test]
fn merge_into_store_after_scheduler_success() {
    let mut s = LocalStore::new();
    let n = apply_incoming_changes(&mut s, SyncResponse { server_time: ts(1), changes: Vec::new(), conflicts: Vec::new() });
    assert_eq!(n, 0);
}

#[test]
fn status_texts() {
    assert_eq!(decimal(0), "0");
    assert_eq!(decimal(7), "7");
    assert_eq!(decimal(1203), "1203");
    assert_eq!(decimal(usize::MAX), usize::MAX.to_string());
    assert_eq!(success_message(0), "Synced");
    assert_eq!(success_message(12), "Synced (12 changes applied)");
    assert_eq!(failure_message("timeout"), "Sync failed: timeout");
}

fn key_of(r: &SyncRecord) -> u128 {
    match r {
        SyncRecord::Task(t) => t.id,
        SyncRecord::List(l) => l.id,
        SyncRecord::Tag(g) => g.id,
        SyncRecord::TaskTag(k) => k.task_id,
        SyncRecord::Deleted { id, .. } => *id,
    }
}

#[test]
fn retry_after_failure_still_sends_every_pending_key() {
    let mut s = LocalStore::new();
    s.upsert_list(list(1, "Inbox", 30));
    s.upsert_task(task(2, "a", 1, 30));
    s.upsert_task(task(3, "b", 1, 30));
    s.upsert_tag(tag(4, "g", 30));
    s.set_last_sync(ts(20));
    let first = gather_local_changes(s.clone(), s.get_last_sync());
    let mut sched = SyncScheduler::new(0, true);
    assert!(sched.poll(0, true, 300));
    sched.complete(&mut s, Err("offline".to_string()));
    // Edits made while offline: one task changed, one deleted, a tag deleted.
    s.upsert_task(task(2, "a, edited", 1, 40));
    s.delete_task_by_id(3);
    s.record_tombstone(3, "task".to_string(), ts(41));
    s.delete_tag_by_id(4);
    s.record_tombstone(4, "tag".to_string(), ts(42));
    let retry = gather_local_changes(s.clone(), s.get_last_sync());
    for r in &first {
        assert!(retry.iter().any(|x| key_of(x) == key_of(r)), "missing {}", key_of(r));
    }
    assert!(retry.iter().any(|x| matches!(x, SyncRecord::Task(t) if t.title == "a, edited")));
}
