//! Merge of the records a sync server returns into local storage: records
//! are taken in dependency order (lists, tags, tasks, task-tag links, then
//! tombstones), with reference enforcement relaxed for the whole batch. A
//! tombstone for a record that the same batch upserts is skipped, so a
//! delete-then-recreate within one batch lands on "recreated".

use vstd::prelude::*;
use crate::store::{after_records, applied_count, record_applies, store_wf, LocalStore, StoreView};
use crate::models::{List, Tag, Task};
use crate::sync_types::{RecordType, SyncRecord, SyncResponse, TaskTagLink};

verus! {

/// The place of a record's kind in the merge order.
pub open spec fn kind_rank(r: SyncRecord) -> int {
    match r {
        SyncRecord::List(_) => 0,
        SyncRecord::Tag(_) => 1,
        SyncRecord::Task(_) => 2,
        SyncRecord::TaskTag(_) => 3,
        SyncRecord::Deleted { .. } => 4,
    }
}

/// The records of `s` whose kind has rank `k`, in input order.
pub open spec fn of_rank(s: Seq<SyncRecord>, k: int) -> Seq<SyncRecord> {
    s.filter(|r: SyncRecord| kind_rank(r) == k)
}

/// The merge order of a batch: all lists, then all tags, then all tasks,
/// then all task-tag links, then all tombstones; input order is kept within
/// each kind.
#[verifier::opaque]
pub open spec fn merge_order(s: Seq<SyncRecord>) -> Seq<SyncRecord> {
    of_rank(s, 0) + of_rank(s, 1) + of_rank(s, 2) + of_rank(s, 3) + of_rank(s, 4)
}

/// Adding a record at the end of a batch adds it to the end of its kind's group.
pub proof fn lemma_of_rank_push(s: Seq<SyncRecord>, r: SyncRecord, k: int)
    ensures
        of_rank(s.push(r), k) == if kind_rank(r) == k {
            of_rank(s, k).push(r)
        } else {
            of_rank(s, k)
        },
{
    s.lemma_filter_push(r, |x: SyncRecord| kind_rank(x) == k);
}

/// The merge order holds every record of the batch exactly as often.
pub proof fn lemma_merge_order_len(s: Seq<SyncRecord>)
    ensures
        merge_order(s).len() == s.len(),
    decreases s.len(),
{
    reveal(merge_order);
    if s.len() > 0 {
        let p = s.drop_last();
        lemma_merge_order_len(p);
        assert(s == p.push(s.last()));
        lemma_of_rank_push(p, s.last(), 0);
        lemma_of_rank_push(p, s.last(), 1);
        lemma_of_rank_push(p, s.last(), 2);
        lemma_of_rank_push(p, s.last(), 3);
        lemma_of_rank_push(p, s.last(), 4);
    }
}

/// Puts a batch into merge order (see `merge_order`).
pub fn order_for_merge(changes: Vec<SyncRecord>) -> (r: Vec<SyncRecord>)
    ensures
        r@ == merge_order(changes@),
{
    let ghost orig = changes@;
    let mut rest = changes;
    let total: usize = rest.len();
    assert(orig.len() == total);
    let mut lists: Vec<SyncRecord> = Vec::new();
    let mut tags: Vec<SyncRecord> = Vec::new();
    let mut tasks: Vec<SyncRecord> = Vec::new();
    let mut links: Vec<SyncRecord> = Vec::new();
    let mut deletes: Vec<SyncRecord> = Vec::new();
    let mut i: usize = 0;
    while rest.len() > 0
        invariant
            i <= orig.len(),
            orig.len() <= usize::MAX,
            rest@ == orig.subrange(i as int, orig.len() as int),
            lists@ == of_rank(orig.subrange(0, i as int), 0),
            tags@ == of_rank(orig.subrange(0, i as int), 1),
            tasks@ == of_rank(orig.subrange(0, i as int), 2),
            links@ == of_rank(orig.subrange(0, i as int), 3),
            deletes@ == of_rank(orig.subrange(0, i as int), 4),
        decreases rest@.len(),
    {
        let r = rest.remove(0);
        proof {
            let prev = orig.subrange(0, i as int);
            assert(orig.subrange(0, i as int + 1) =~= prev.push(r));
            lemma_of_rank_push(prev, r, 0);
            lemma_of_rank_push(prev, r, 1);
            lemma_of_rank_push(prev, r, 2);
            lemma_of_rank_push(prev, r, 3);
            lemma_of_rank_push(prev, r, 4);
        }
        match r {
            SyncRecord::List(_) => lists.push(r),
            SyncRecord::Tag(_) => tags.push(r),
            SyncRecord::Task(_) => tasks.push(r),
            SyncRecord::TaskTag(_) => links.push(r),
            SyncRecord::Deleted { .. } => deletes.push(r),
        }
        i += 1;
    }
    proof {
        assert(orig.subrange(0, orig.len() as int) =~= orig);
        reveal(merge_order);
    }
    lists.append(&mut tags);
    lists.append(&mut tasks);
    lists.append(&mut links);
    lists.append(&mut deletes);
    lists
}

/// With references not enforced, every record of a batch applies.
pub proof fn lemma_all_apply_unenforced(v: StoreView, s: Seq<SyncRecord>)
    requires
        !v.foreign_keys,
        store_wf(v),
    ensures
        applied_count(v, s) == s.len(),
    decreases s.len(),
{
    if s.len() > 0 {
        lemma_all_apply_unenforced(v, s.drop_last());
        crate::store::lemma_after_records_wf(v, s.drop_last());
        assert(record_applies(after_records(v, s.drop_last()), s.last()));
    }
}

/// Record `r` upserts a record of kind `kind` with identifier `id`.
pub open spec fn recreates(r: SyncRecord, id: u128, kind: RecordType) -> bool {
    match r {
        SyncRecord::Task(t) => kind == RecordType::Task && t.id == id,
        SyncRecord::List(l) => kind == RecordType::List && l.id == id,
        SyncRecord::Tag(g) => kind == RecordType::Tag && g.id == id,
        _ => false,
    }
}

/// Some record of `s` upserts a record of kind `kind` with identifier `id`.
pub open spec fn recreated_in(s: Seq<SyncRecord>, id: u128, kind: RecordType) -> bool {
    exists|i: int| 0 <= i < s.len() && recreates(#[trigger] s[i], id, kind)
}

/// Record `r` of batch `s` is applied: every record but a tombstone whose
/// record the same batch upserts.
pub open spec fn takes_effect(s: Seq<SyncRecord>, r: SyncRecord) -> bool {
    match r {
        SyncRecord::Deleted { id, record_type, .. } => !recreated_in(s, id, record_type),
        _ => true,
    }
}

/// The records of a batch that are applied, in merge order.
#[verifier::opaque]
pub open spec fn merge_plan(s: Seq<SyncRecord>) -> Seq<SyncRecord> {
    merge_order(s).filter(|r: SyncRecord| takes_effect(merge_order(s), r))
}

fn recreated(v: &Vec<SyncRecord>, id: u128, kind: RecordType) -> (b: bool)
    ensures
        b == recreated_in(v@, id, kind),
{
    let mut i: usize = 0;
    while i < v.len()
        invariant
            i <= v@.len(),
            forall|j: int| 0 <= j < i ==> !recreates(#[trigger] v@[j], id, kind),
        decreases v@.len() - i,
    {
        let hit = match &v[i] {
            SyncRecord::Task(t) => kind == RecordType::Task && t.id == id,
            SyncRecord::List(l) => kind == RecordType::List && l.id == id,
            SyncRecord::Tag(g) => kind == RecordType::Tag && g.id == id,
            _ => false,
        };
        if hit {
            assert(recreates(v@[i as int], id, kind));
            return true;
        }
        i += 1;
    }
    false
}

/// The records of a batch that are applied, in merge order (see
/// `merge_plan`), and how many tombstones were skipped.
pub fn plan_for_merge(changes: Vec<SyncRecord>) -> (r: (Vec<SyncRecord>, usize))
    ensures
        r.0@ == merge_plan(changes@),
        r.1 + r.0@.len() == changes@.len(),
{
    let ghost orig = changes@;
    proof {
        lemma_merge_order_len(orig);
    }
    let ordered = order_for_merge(changes);
    let ghost o = ordered@;
    let total: usize = ordered.len();
    let mut keep: Vec<bool> = Vec::new();
    let mut i: usize = 0;
    while i < ordered.len()
        invariant
            i <= o.len() == ordered@.len(),
            ordered@ == o,
            keep@.len() == i,
            forall|j: int| 0 <= j < i ==> keep@[j] == takes_effect(o, #[trigger] o[j]),
        decreases o.len() - i,
    {
        let k = match &ordered[i] {
            SyncRecord::Deleted { id, record_type, .. } => !recreated(&ordered, *id, *record_type),
            _ => true,
        };
        keep.push(k);
        i += 1;
    }
    let mut rest = ordered;
    let mut plan: Vec<SyncRecord> = Vec::new();
    let mut skipped: usize = 0;
    let mut n: usize = 0;
    while rest.len() > 0
        invariant
            n <= o.len() == total,
            keep@.len() == o.len(),
            forall|j: int| 0 <= j < o.len() ==> keep@[j] == takes_effect(o, #[trigger] o[j]),
            rest@ == o.subrange(n as int, o.len() as int),
            plan@ == o.subrange(0, n as int).filter(|r: SyncRecord| takes_effect(o, r)),
            skipped + plan@.len() == n,
        decreases rest@.len(),
    {
        let r = rest.remove(0);
        proof {
            let prev = o.subrange(0, n as int);
            assert(o.subrange(0, n as int + 1) =~= prev.push(r));
            prev.lemma_filter_push(r, |x: SyncRecord| takes_effect(o, x));
        }
        if keep[n] {
            plan.push(r);
        } else {
            skipped += 1;
        }
        n += 1;
    }
    proof {
        assert(o.subrange(0, o.len() as int) =~= o);
        reveal(merge_plan);
    }
    (plan, skipped)
}

/// The storage operation that applies one record of a merge plan.
pub enum StorageOp {
    UpsertTask(Task),
    UpsertList(List),
    UpsertTag(Tag),
    UpsertLink(TaskTagLink),
    DeleteTask(u128),
    DeleteList(u128),
    DeleteTag(u128),
    /// Nothing to do: link tombstones are carried by the owning task's tags
    Nothing,
}

/// The operation for a record: an upsert for an entity or link; a delete by
/// identifier for a task, list or tag tombstone; nothing for a link tombstone.
pub open spec fn storage_op_of(r: SyncRecord) -> StorageOp {
    match r {
        SyncRecord::Task(t) => StorageOp::UpsertTask(t),
        SyncRecord::List(l) => StorageOp::UpsertList(l),
        SyncRecord::Tag(g) => StorageOp::UpsertTag(g),
        SyncRecord::TaskTag(k) => StorageOp::UpsertLink(k),
        SyncRecord::Deleted { id, record_type, .. } => match record_type {
            RecordType::Task => StorageOp::DeleteTask(id),
            RecordType::List => StorageOp::DeleteList(id),
            RecordType::Tag => StorageOp::DeleteTag(id),
            RecordType::TaskTag => StorageOp::Nothing,
        },
    }
}

/// The storage operation for a record (see `storage_op_of`).
pub fn storage_op(r: SyncRecord) -> (o: StorageOp)
    ensures
        o == storage_op_of(r),
{
    match r {
        SyncRecord::Task(t) => StorageOp::UpsertTask(t),
        SyncRecord::List(l) => StorageOp::UpsertList(l),
        SyncRecord::Tag(g) => StorageOp::UpsertTag(g),
        SyncRecord::TaskTag(k) => StorageOp::UpsertLink(k),
        SyncRecord::Deleted { id, record_type, .. } => match record_type {
            RecordType::Task => StorageOp::DeleteTask(id),
            RecordType::List => StorageOp::DeleteList(id),
            RecordType::Tag => StorageOp::DeleteTag(id),
            RecordType::TaskTag => StorageOp::Nothing,
        },
    }
}

/// How many records a merge counts as applied: the skipped tombstones and
/// the planned records whose storage operation succeeded.
pub fn applied_total(skipped: usize, outcomes: &Vec<bool>) -> (n: usize)
    requires
        skipped + outcomes@.len() <= usize::MAX,
    ensures
        n == skipped + outcomes@.filter(|b: bool| b).len(),
{
    let mut n: usize = skipped;
    let mut i: usize = 0;
    while i < outcomes.len()
        invariant
            i <= outcomes@.len(),
            skipped + outcomes@.len() <= usize::MAX,
            n == skipped + outcomes@.subrange(0, i as int).filter(|b: bool| b).len(),
            outcomes@.subrange(0, i as int).filter(|b: bool| b).len() <= i,
        decreases outcomes@.len() - i,
    {
        proof {
            let prev = outcomes@.subrange(0, i as int);
            assert(outcomes@.subrange(0, i as int + 1) =~= prev.push(outcomes@[i as int]));
            prev.lemma_filter_push(outcomes@[i as int], |b: bool| b);
        }
        if outcomes[i] {
            n += 1;
        }
        i += 1;
    }
    proof {
        assert(outcomes@.subrange(0, outcomes@.len() as int) =~= outcomes@);
    }
    n
}

/// The store contents a merge starts from: the given contents with
/// reference enforcement switched off.
pub open spec fn relaxed(v: StoreView) -> StoreView {
    StoreView { foreign_keys: false, ..v }
}

/// The store contents after merging `changes`: the records of the merge
/// plan applied in order to the relaxed store, with reference enforcement
/// switched back on.
pub open spec fn merged(v: StoreView, changes: Seq<SyncRecord>) -> StoreView {
    StoreView { foreign_keys: true, ..after_records(relaxed(v), merge_plan(changes)) }
}

/// Applies the records a server returned to local storage, following the
/// merge plan, with reference enforcement off for the batch and switched
/// back on after it in every case. Returns how many records applied; a
/// skipped tombstone counts as applied.
pub fn apply_incoming_changes(store: &mut LocalStore, response: SyncResponse) -> (applied: usize)
    requires
        store_wf(old(store)@),
    ensures
        final(store)@ == merged(old(store)@, response.changes@),
        applied == response.changes@.len(),
        store_wf(final(store)@),
{
    let ghost batch = merge_plan(response.changes@);
    let n_changes: usize = response.changes.len();
    let (mut rest, skipped) = plan_for_merge(response.changes);
    let total: usize = rest.len();
    store.set_foreign_keys(false);
    let ghost start = store@;
    let mut applied: usize = skipped;
    let mut i: usize = 0;
    while rest.len() > 0
        invariant
            i <= batch.len() == total,
            skipped + total == response.changes@.len() == n_changes,
            start == relaxed(old(store)@),
            rest@ == batch.subrange(i as int, batch.len() as int),
            store@ == after_records(start, batch.subrange(0, i as int)),
            applied == skipped + applied_count(start, batch.subrange(0, i as int)),
            applied_count(start, batch.subrange(0, i as int)) <= i,
            store_wf(store@),
        decreases rest@.len(),
    {
        let r = rest.remove(0);
        proof {
            let prev = batch.subrange(0, i as int);
            let next = batch.subrange(0, i as int + 1);
            assert(next.drop_last() =~= prev);
            assert(next.last() == r);
        }
        if store.apply_record(r) {
            applied += 1;
        }
        i += 1;
    }
    proof {
        assert(batch.subrange(0, batch.len() as int) =~= batch);
        crate::store::lemma_after_records_wf(start, batch);
        lemma_all_apply_unenforced(start, batch);
    }
    store.set_foreign_keys(true);
    applied
}

} // verus!
