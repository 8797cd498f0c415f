use tickit::merge::{applied_total, apply_incoming_changes, order_for_merge, plan_for_merge, storage_op, StorageOp};
use tickit::models::{List, Priority, Tag, Task, Timestamp};
use tickit::store::LocalStore;
use tickit::sync_types::{RecordType, SyncRecord, SyncResponse, TaskTagLink};

fn ts(secs: i64) -> Timestamp {
    Timestamp { secs, nanos: 0 }
}

fn list(id: u128, name: &str) -> List {
    List {
        id,
        name: name.to_string(),
        description: None,
        icon: "L".to_string(),
        color: None,
        is_inbox: false,
        created_at: ts(10),
        updated_at: ts(10),
        sort_order: 0,
    }
}

fn tag(id: u128, name: &str) -> Tag {
    Tag { id, name: name.to_string(), color: "#ffffff".to_string(), created_at: ts(10) }
}

fn task(id: u128, title: &str, list_id: u128) -> Task {
    Task {
        id,
        title: title.to_string(),
        description: None,
        url: None,
        priority: Priority::Medium,
        completed: false,
        list_id,
        tag_ids: Vec::new(),
        created_at: ts(10),
        updated_at: ts(20),
        completed_at: None,
        due_date: None,
    }
}

fn response(changes: Vec<SyncRecord>) -> SyncResponse {
    SyncResponse { server_time: ts(100), changes, conflicts: Vec::new() }
}

fn kind(r: &SyncRecord) -> &'static str {
    match r {
        SyncRecord::List(_) => "list",
        SyncRecord::Tag(_) => "tag",
        SyncRecord::Task(_) => "task",
        SyncRecord::TaskTag(_) => "task_tag",
        SyncRecord::Deleted { .. } => "deleted",
    }
}

#[test]
fn merge_order_groups_kinds_and_keeps_input_order() {
    let batch = vec![
        SyncRecord::Deleted { id: 9, record_type: RecordType::Task, deleted_at: ts(5) },
        SyncRecord::Task(task(1, "a", 100)),
        SyncRecord::TaskTag(TaskTagLink { task_id: 1, tag_id: 7, created_at: ts(5) }),
        SyncRecord::Tag(tag(7, "t")),
        SyncRecord::List(list(100, "first")),
        SyncRecord::Task(task(2, "b", 100)),
        SyncRecord::List(list(101, "second")),
    ];
    let ordered = order_for_merge(batch);
    let kinds: Vec<&str> = ordered.iter().map(kind).collect();
    assert_eq!(kinds, vec!["list", "list", "tag", "task", "task", "task_tag", "deleted"]);
    match (&ordered[0], &ordered[1], &ordered[3], &ordered[4]) {
        (SyncRecord::List(a), SyncRecord::List(b), SyncRecord::Task(c), SyncRecord::Task(d)) => {
            assert_eq!(a.id, 100);
            assert_eq!(b.id, 101);
            assert_eq!(c.id, 1);
            assert_eq!(d.id, 2);
        }
        _ => panic!("unexpected order"),
    }
}

#[test]
fn applying_same_task_twice_in_one_batch_counts_both() {
    let mut store = LocalStore::new();
    store.upsert_list(list(100, "Inbox"));
    let applied = apply_incoming_changes(
        &mut store,
        response(vec![SyncRecord::Task(task(1, "same", 100)), SyncRecord::Task(task(1, "same", 100))]),
    );
    assert_eq!(applied, 2);
    assert_eq!(store.tasks.len(), 1);
    assert_eq!(store.tasks[0].title, "same");
}

#[test]
fn applying_same_task_in_two_merges_is_idempotent() {
    let mut store = LocalStore::new();
    store.upsert_list(list(100, "Inbox"));
    let first = apply_incoming_changes(&mut store, response(vec![SyncRecord::Task(task(1, "t", 100))]));
    let second = apply_incoming_changes(&mut store, response(vec![SyncRecord::Task(task(1, "t", 100))]));
    assert_eq!(first, 1);
    assert_eq!(second, 1);
    assert_eq!(store.tasks.len(), 1);
    assert_eq!(store.tasks[0].id, 1);
    assert_eq!(store.lists.len(), 1);
}

#[test]
fn upsert_overwrites_every_field() {
    let mut store = LocalStore::new();
    store.upsert_list(list(100, "Inbox"));
    apply_incoming_changes(&mut store, response(vec![SyncRecord::Task(task(1, "old", 100))]));
    let mut newer = task(1, "new", 100);
    newer.completed = true;
    newer.priority = Priority::Urgent;
    apply_incoming_changes(&mut store, response(vec![SyncRecord::Task(newer)]));
    assert_eq!(store.tasks.len(), 1);
    assert_eq!(store.tasks[0].title, "new");
    assert!(store.tasks[0].completed);
    assert_eq!(store.tasks[0].priority, Priority::Urgent);
}

#[test]
fn task_before_its_list_still_lands() {
    let mut store = LocalStore::new();
    let applied = apply_incoming_changes(
        &mut store,
        response(vec![SyncRecord::Task(task(1, "t", 55)), SyncRecord::List(list(55, "Work"))]),
    );
    assert_eq!(applied, 2);
    assert_eq!(store.lists.len(), 1);
    assert_eq!(store.lists[0].id, 55);
    assert_eq!(store.tasks.len(), 1);
    assert_eq!(store.tasks[0].list_id, 55);
    assert!(store.foreign_keys);
}

#[test]
fn delete_then_recreate_keeps_task_in_either_order() {
    for tombstone_first in [true, false] {
        let mut store = LocalStore::new();
        store.upsert_list(list(100, "Inbox"));
        store.upsert_task(task(1, "old", 100));
        let d = SyncRecord::Deleted { id: 1, record_type: RecordType::Task, deleted_at: ts(50) };
        let t = SyncRecord::Task(task(1, "recreated", 100));
        let batch = if tombstone_first { vec![d, t] } else { vec![t, d] };
        let applied = apply_incoming_changes(&mut store, response(batch));
        assert_eq!(applied, 2);
        assert_eq!(store.tasks.len(), 1);
        assert_eq!(store.tasks[0].title, "recreated");
    }
}

#[test]
fn tombstone_of_other_kind_is_not_skipped() {
    let mut store = LocalStore::new();
    store.upsert_list(list(1, "L"));
    let applied = apply_incoming_changes(
        &mut store,
        response(vec![
            SyncRecord::Deleted { id: 1, record_type: RecordType::List, deleted_at: ts(50) },
            SyncRecord::Task(task(1, "same id, other kind", 1)),
        ]),
    );
    assert_eq!(applied, 2);
    assert!(store.lists.is_empty());
    assert_eq!(store.tasks.len(), 1);
}

#[test]
fn merge_plan_and_storage_ops() {
    let batch = vec![
        SyncRecord::Deleted { id: 1, record_type: RecordType::Task, deleted_at: ts(5) },
        SyncRecord::Deleted { id: 2, record_type: RecordType::Tag, deleted_at: ts(5) },
        SyncRecord::Deleted { id: 3, record_type: RecordType::TaskTag, deleted_at: ts(5) },
        SyncRecord::Task(task(1, "a", 100)),
        SyncRecord::List(list(100, "l")),
    ];
    let (plan, skipped) = plan_for_merge(batch);
    assert_eq!(skipped, 1);
    let kinds: Vec<&str> = plan.iter().map(kind).collect();
    assert_eq!(kinds, vec!["list", "task", "deleted", "deleted"]);
    let ops: Vec<StorageOp> = plan.into_iter().map(storage_op).collect();
    assert!(matches!(ops[0], StorageOp::UpsertList(ref l) if l.id == 100));
    assert!(matches!(ops[1], StorageOp::UpsertTask(ref t) if t.id == 1));
    assert!(matches!(ops[2], StorageOp::DeleteTag(2)));
    assert!(matches!(ops[3], StorageOp::Nothing));
    assert_eq!(applied_total(skipped, &vec![true, false, true, true]), 4);
    assert_eq!(applied_total(0, &vec![]), 0);
}

#[test]
fn tombstone_for_missing_record_is_applied_noop() {
    let mut store = LocalStore::new();
    store.upsert_list(list(100, "Inbox"));
    let applied = apply_incoming_changes(
        &mut store,
        response(vec![
            SyncRecord::Deleted { id: 42, record_type: RecordType::Task, deleted_at: ts(50) },
            SyncRecord::Deleted { id: 43, record_type: RecordType::Tag, deleted_at: ts(50) },
        ]),
    );
    assert_eq!(applied, 2);
    assert_eq!(store.lists.len(), 1);
    assert!(store.tasks.is_empty());
}

#[test]
fn tombstones_remove_present_records_and_task_tag_tombstone_is_noop() {
    let mut store = LocalStore::new();
    store.upsert_list(list(100, "Inbox"));
    store.upsert_list(list(101, "Old"));
    store.upsert_tag(tag(7, "t"));
    store.upsert_task(task(1, "x", 100));
    let applied = apply_incoming_changes(
        &mut store,
        response(vec![
            SyncRecord::Deleted { id: 101, record_type: RecordType::List, deleted_at: ts(50) },
            SyncRecord::Deleted { id: 7, record_type: RecordType::Tag, deleted_at: ts(50) },
            SyncRecord::Deleted { id: 1, record_type: RecordType::TaskTag, deleted_at: ts(50) },
        ]),
    );
    assert_eq!(applied, 3);
    assert_eq!(store.lists.len(), 1);
    assert_eq!(store.lists[0].id, 100);
    assert!(store.tags.is_empty());
    assert_eq!(store.tasks.len(), 1);
}

#[test]
fn task_tag_links_are_upserted_by_pair() {
    let mut store = LocalStore::new();
    let link = TaskTagLink { task_id: 1, tag_id: 7, created_at: ts(5) };
    let again = TaskTagLink { task_id: 1, tag_id: 7, created_at: ts(6) };
    let applied = apply_incoming_changes(&mut store, response(vec![SyncRecord::TaskTag(link), SyncRecord::TaskTag(again)]));
    assert_eq!(applied, 2);
    assert_eq!(store.links.len(), 1);
    assert_eq!(store.links[0].created_at, ts(6));
}

#[test]
fn enforced_references_reject_orphan_task_outside_merge() {
    let mut store = LocalStore::new();
    assert!(!store.upsert_task(task(1, "orphan", 999)));
    assert!(store.tasks.is_empty());
    store.upsert_list(list(999, "L"));
    assert!(store.upsert_task(task(1, "orphan", 999)));
    let mut tagged = task(2, "tagged", 999);
    tagged.tag_ids.push(5);
    assert!(!store.upsert_task(tagged));
}

#[test]
fn merge_restores_reference_enforcement() {
    let mut store = LocalStore::new();
    apply_incoming_changes(&mut store, response(vec![SyncRecord::Task(task(1, "t", 5))]));
    assert!(store.foreign_keys);
    assert_eq!(store.tasks.len(), 1);
}

#[test]
fn input_order_across_kinds_does_not_change_result() {
    let batch_a = vec![SyncRecord::Task(task(1, "t", 55)), SyncRecord::List(list(55, "Work")), SyncRecord::Tag(tag(3, "g"))];
    let batch_b = vec![SyncRecord::Tag(tag(3, "g")), SyncRecord::List(list(55, "Work")), SyncRecord::Task(task(1, "t", 55))];
    let mut a = LocalStore::new();
    let mut b = LocalStore::new();
    assert_eq!(apply_incoming_changes(&mut a, response(batch_a)), 3);
    assert_eq!(apply_incoming_changes(&mut b, response(batch_b)), 3);
    assert_eq!(format!("{:?}", a), format!("{:?}", b));
}
