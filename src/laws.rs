//! Laws of merging and of change sets, stated over the store model.

use vstd::prelude::*;
use crate::changes::{change_set, changed_since, list_changes, tag_changes, task_changes, tombstone_changes, tombstone_record};
use crate::keyed::{has_key, key_index, keys_unique, lemma_upserted_unique, lemma_without_key_unique, upserted, without_key};
use crate::merge::{kind_rank, merge_order, merge_plan, merged, of_rank, recreates, relaxed, takes_effect};
use crate::models::{ts_before, Keyed, List, Tag, Task, Timestamp};
use crate::store::{after_record, after_records, applied_count, record_applies, store_wf, StoreView, Tombstone};
use crate::sync_types::{record_type_of_label, RecordType, SyncRecord};

verus! {

proof fn lemma_upsert_twice<T: Keyed>(s: Seq<T>, x: T)
    requires
        keys_unique(s),
    ensures
        upserted(upserted(s, x), x) == upserted(s, x),
{
    lemma_upserted_unique(s, x);
    let r = upserted(s, x);
    assert(upserted(r, x) =~= r);
}

/// Applying the same task record twice in succession leaves the store as
/// applying it once, and it applies the second time whenever it applied the
/// first.
pub proof fn law_task_upsert_idempotent(v: StoreView, t: Task)
    requires
        store_wf(v),
    ensures
        after_record(after_record(v, SyncRecord::Task(t)), SyncRecord::Task(t)) == after_record(
            v,
            SyncRecord::Task(t),
        ),
        record_applies(v, SyncRecord::Task(t)) ==> record_applies(
            after_record(v, SyncRecord::Task(t)),
            SyncRecord::Task(t),
        ),
{
    reveal(after_record);
    lemma_upsert_twice(v.tasks, t);
}

proof fn lemma_of_rank_single(r: SyncRecord, k: int)
    ensures
        of_rank(seq![r], k) == if kind_rank(r) == k {
            seq![r]
        } else {
            Seq::<SyncRecord>::empty()
        },
{
    Seq::<SyncRecord>::empty().lemma_filter_push(r, |x: SyncRecord| kind_rank(x) == k);
    assert(Seq::<SyncRecord>::empty().push(r) =~= seq![r]);
    assert(Seq::<SyncRecord>::empty().filter(|x: SyncRecord| kind_rank(x) == k) =~= Seq::<SyncRecord>::empty());
}

proof fn lemma_of_rank_pair(a: SyncRecord, b: SyncRecord, k: int)
    ensures
        of_rank(seq![a, b], k) == of_rank(seq![a], k) + of_rank(seq![b], k),
{
    lemma_of_rank_single(a, k);
    lemma_of_rank_single(b, k);
    seq![a].lemma_filter_push(b, |x: SyncRecord| kind_rank(x) == k);
    assert(seq![a].push(b) =~= seq![a, b]);
    if kind_rank(b) == k {
        assert(of_rank(seq![a], k).push(b) =~= of_rank(seq![a], k) + seq![b]);
    } else {
        assert(of_rank(seq![a], k) =~= of_rank(seq![a], k) + Seq::<SyncRecord>::empty());
    }
}

proof fn lemma_uniform_rank(s: Seq<SyncRecord>, k: int, j: int)
    requires
        forall|i: int| 0 <= i < s.len() ==> kind_rank(#[trigger] s[i]) == k,
    ensures
        of_rank(s, j) == if j == k {
            s
        } else {
            Seq::<SyncRecord>::empty()
        },
    decreases s.len(),
{
    if s.len() == 0 {
        assert(of_rank(s, j) =~= Seq::<SyncRecord>::empty()) by {
            reveal(Seq::filter);
        }
        assert(s =~= Seq::<SyncRecord>::empty());
    } else {
        let p = s.drop_last();
        lemma_uniform_rank(p, k, j);
        assert(s =~= p.push(s.last()));
        crate::merge::lemma_of_rank_push(p, s.last(), j);
    }
}

proof fn lemma_merge_order_uniform(s: Seq<SyncRecord>, k: int)
    requires
        0 <= k <= 4,
        forall|i: int| 0 <= i < s.len() ==> kind_rank(#[trigger] s[i]) == k,
    ensures
        merge_order(s) == s,
{
    lemma_uniform_rank(s, k, 0);
    lemma_uniform_rank(s, k, 1);
    lemma_uniform_rank(s, k, 2);
    lemma_uniform_rank(s, k, 3);
    lemma_uniform_rank(s, k, 4);
    reveal(merge_order);
    assert(merge_order(s) =~= s);
}

proof fn lemma_merge_order_same_pair(r: SyncRecord)
    ensures
        merge_order(seq![r, r]) == seq![r, r],
        merge_order(seq![r]) == seq![r],
{
    let two = seq![r, r];
    let one = seq![r];
    assert(two[0] == r && two[1] == r && two.len() == 2);
    assert(one[0] == r && one.len() == 1);
    assert(0 <= kind_rank(r) <= 4);
    assert(forall|i: int| 0 <= i < two.len() ==> kind_rank(#[trigger] two[i]) == kind_rank(r));
    assert(forall|i: int| 0 <= i < one.len() ==> kind_rank(#[trigger] one[i]) == kind_rank(r));
    lemma_merge_order_uniform(two, kind_rank(r));
    lemma_merge_order_uniform(one, kind_rank(r));
}

proof fn lemma_after_two(v: StoreView, a: SyncRecord, b: SyncRecord)
    ensures
        after_records(v, seq![a, b]) == after_record(after_record(v, a), b),
        after_records(v, seq![a]) == after_record(v, a),
{
    assert(seq![a, b].drop_last() =~= seq![a]);
    assert(seq![a].drop_last() =~= Seq::<SyncRecord>::empty());
    assert(after_records(v, Seq::<SyncRecord>::empty()) == v);
    assert(after_records(v, seq![a]) == after_record(after_records(v, seq![a].drop_last()), a));
    assert(after_records(v, seq![a, b]) == after_record(after_records(v, seq![a, b].drop_last()), b));
}

/// Without tombstones in a batch, its merge plan is its merge order.
proof fn lemma_plan_without_tombstones(s: Seq<SyncRecord>)
    requires
        forall|i: int| 0 <= i < merge_order(s).len() ==> !(#[trigger] merge_order(s)[i] is Deleted),
    ensures
        merge_plan(s) == merge_order(s),
{
    reveal(merge_plan);
    let o = merge_order(s);
    assert forall|i: int| 0 <= i < o.len() implies takes_effect(o, #[trigger] o[i]) by {}
    lemma_filter_keeps_all(o, |r: SyncRecord| takes_effect(o, r));
}

/// Merging a batch that holds the same task record twice ends as merging it
/// once, and both copies count as applied.
pub proof fn law_task_twice_in_one_batch(v: StoreView, t: Task)
    requires
        store_wf(v),
    ensures
        merged(v, seq![SyncRecord::Task(t), SyncRecord::Task(t)]) == merged(v, seq![SyncRecord::Task(t)]),
        applied_count(relaxed(v), merge_plan(seq![SyncRecord::Task(t), SyncRecord::Task(t)])) == 2,
{
    let r = SyncRecord::Task(t);
    let rv = relaxed(v);
    lemma_merge_order_same_pair(r);
    lemma_plan_without_tombstones(seq![r, r]);
    lemma_plan_without_tombstones(seq![r]);
    lemma_after_two(rv, r, r);
    law_task_upsert_idempotent(rv, t);
    crate::merge::lemma_all_apply_unenforced(rv, seq![r, r]);
}

/// Merging the same one-task batch twice in succession ends as merging it once.
pub proof fn law_task_batch_twice(v: StoreView, t: Task)
    requires
        store_wf(v),
    ensures
        merged(merged(v, seq![SyncRecord::Task(t)]), seq![SyncRecord::Task(t)]) == merged(
            v,
            seq![SyncRecord::Task(t)],
        ),
{
    let r = SyncRecord::Task(t);
    let rv = relaxed(v);
    lemma_merge_order_same_pair(r);
    lemma_plan_without_tombstones(seq![r]);
    lemma_after_two(rv, r, r);
    let once = merged(v, seq![r]);
    let ro = relaxed(once);
    crate::store::lemma_after_record_wf(rv, r);
    assert(after_records(rv, merge_plan(seq![r])) == after_record(rv, r));
    assert(ro == after_record(rv, r));
    lemma_after_two(ro, r, r);
    law_task_upsert_idempotent(rv, t);
}

/// In merge order every list comes before every tag, every tag before every
/// task, every task before every task-tag link, and every link before every
/// tombstone, whatever the input order.
pub proof fn law_merge_order_sorted(s: Seq<SyncRecord>)
    ensures
        forall|i: int, j: int|
            0 <= i < j < merge_order(s).len() ==> kind_rank(#[trigger] merge_order(s)[i]) <= kind_rank(
                #[trigger] merge_order(s)[j],
            ),
{
    reveal(merge_order);
    let m = merge_order(s);
    let g0 = of_rank(s, 0);
    let g1 = of_rank(s, 1);
    let g2 = of_rank(s, 2);
    let g3 = of_rank(s, 3);
    let g4 = of_rank(s, 4);
    assert forall|k: int, i: int| 0 <= k <= 4 && 0 <= i < of_rank(s, k).len() implies kind_rank(
        #[trigger] of_rank(s, k)[i],
    ) == k by {
        s.lemma_filter_pred(|x: SyncRecord| kind_rank(x) == k, i);
    }
    let b1 = g0.len() as int;
    let b2 = b1 + g1.len();
    let b3 = b2 + g2.len();
    let b4 = b3 + g3.len();
    assert forall|i: int| 0 <= i < m.len() implies kind_rank(#[trigger] m[i]) == (if i < b1 {
        0int
    } else if i < b2 {
        1int
    } else if i < b3 {
        2int
    } else if i < b4 {
        3int
    } else {
        4int
    }) by {
        if i < b1 {
            assert(m[i] == g0[i]);
        } else if i < b2 {
            assert(m[i] == g1[i - b1]);
        } else if i < b3 {
            assert(m[i] == g2[i - b2]);
        } else if i < b4 {
            assert(m[i] == g3[i - b3]);
        } else {
            assert(m[i] == g4[i - b4]);
        }
    }
}

proof fn lemma_of_rank_swap(p: Seq<SyncRecord>, a: SyncRecord, b: SyncRecord, q: Seq<SyncRecord>, k: int)
    requires
        kind_rank(a) != kind_rank(b),
    ensures
        of_rank(p + seq![a, b] + q, k) == of_rank(p + seq![b, a] + q, k),
{
    let pr = |x: SyncRecord| kind_rank(x) == k;
    Seq::filter_distributes_over_add(p + seq![a, b], q, pr);
    Seq::filter_distributes_over_add(p + seq![b, a], q, pr);
    Seq::filter_distributes_over_add(p, seq![a, b], pr);
    Seq::filter_distributes_over_add(p, seq![b, a], pr);
    lemma_of_rank_pair(a, b, k);
    lemma_of_rank_pair(b, a, k);
    lemma_of_rank_single(a, k);
    lemma_of_rank_single(b, k);
    assert(of_rank(seq![a, b], k) =~= of_rank(seq![b, a], k));
}

/// Input order across kinds does not matter: exchanging two neighbouring
/// records of different kinds leaves the merge order, and so the merge
/// result, unchanged.
pub proof fn law_merge_ignores_order_across_kinds(s: Seq<SyncRecord>, i: int, v: StoreView)
    requires
        0 <= i,
        i + 1 < s.len(),
        kind_rank(s[i]) != kind_rank(s[i + 1]),
    ensures
        merge_order(s.update(i, s[i + 1]).update(i + 1, s[i])) == merge_order(s),
        merged(v, s.update(i, s[i + 1]).update(i + 1, s[i])) == merged(v, s),
{
    let a = s[i];
    let b = s[i + 1];
    let p = s.subrange(0, i);
    let q = s.subrange(i + 2, s.len() as int);
    let t = s.update(i, b).update(i + 1, a);
    assert(s =~= p + seq![a, b] + q);
    assert(t =~= p + seq![b, a] + q);
    lemma_of_rank_swap(p, a, b, q, 0);
    lemma_of_rank_swap(p, a, b, q, 1);
    lemma_of_rank_swap(p, a, b, q, 2);
    lemma_of_rank_swap(p, a, b, q, 3);
    lemma_of_rank_swap(p, a, b, q, 4);
    reveal(merge_order);
    reveal(merge_plan);
}

/// A task placed before the list it belongs to still lands, and so does the
/// list: after the merge both are present and the task's list is there, and
/// both records count as applied.
pub proof fn law_task_before_its_list(v: StoreView, t: Task, l: List)
    requires
        store_wf(v),
        t.list_id == l.id,
    ensures
        merge_order(seq![SyncRecord::Task(t), SyncRecord::List(l)]) == seq![SyncRecord::List(l), SyncRecord::Task(t)],
        has_key(merged(v, seq![SyncRecord::Task(t), SyncRecord::List(l)]).lists, t.list_id),
        ({
            let m = merged(v, seq![SyncRecord::Task(t), SyncRecord::List(l)]);
            &&& has_key(m.tasks, t.id)
            &&& m.tasks[key_index(m.tasks, t.id)] == t
            &&& m.lists[key_index(m.lists, l.id)] == l
        }),
        applied_count(relaxed(v), merge_plan(seq![SyncRecord::Task(t), SyncRecord::List(l)])) == 2,
{
    let a = SyncRecord::Task(t);
    let b = SyncRecord::List(l);
    lemma_order_task_list(t, l);
    lemma_plan_without_tombstones(seq![a, b]);
    let rv = relaxed(v);
    lemma_after_two(rv, b, a);
    reveal(after_record);
    lemma_upserted_unique(v.lists, l);
    lemma_upserted_unique(v.tasks, t);
    crate::merge::lemma_all_apply_unenforced(rv, seq![b, a]);
}

#[verifier::rlimit(50)]
proof fn lemma_order_task_list(t: Task, l: List)
    ensures
        merge_order(seq![SyncRecord::Task(t), SyncRecord::List(l)]) == seq![SyncRecord::List(l), SyncRecord::Task(t)],
{
    let a = SyncRecord::Task(t);
    let b = SyncRecord::List(l);
    lemma_of_rank_pair(a, b, 0);
    lemma_of_rank_pair(a, b, 1);
    lemma_of_rank_pair(a, b, 2);
    lemma_of_rank_pair(a, b, 3);
    lemma_of_rank_pair(a, b, 4);
    lemma_of_rank_single(a, 0);
    lemma_of_rank_single(a, 1);
    lemma_of_rank_single(a, 2);
    lemma_of_rank_single(a, 3);
    lemma_of_rank_single(a, 4);
    lemma_of_rank_single(b, 0);
    lemma_of_rank_single(b, 1);
    lemma_of_rank_single(b, 2);
    lemma_of_rank_single(b, 3);
    lemma_of_rank_single(b, 4);
    reveal(merge_order);
    assert(merge_order(seq![a, b]) =~= seq![b, a]);
}

proof fn lemma_order_tombstone_first(t: Task, at: Timestamp)
    ensures
        merge_order(seq![SyncRecord::Deleted { id: t.id, record_type: RecordType::Task, deleted_at: at }, SyncRecord::Task(t)])
            == seq![SyncRecord::Task(t), SyncRecord::Deleted { id: t.id, record_type: RecordType::Task, deleted_at: at }],
{
    let a = SyncRecord::Deleted { id: t.id, record_type: RecordType::Task, deleted_at: at };
    let b = SyncRecord::Task(t);
    lemma_of_rank_pair(a, b, 0);
    lemma_of_rank_pair(a, b, 1);
    lemma_of_rank_pair(a, b, 2);
    lemma_of_rank_pair(a, b, 3);
    lemma_of_rank_pair(a, b, 4);
    lemma_of_rank_single(a, 0);
    lemma_of_rank_single(a, 1);
    lemma_of_rank_single(a, 2);
    lemma_of_rank_single(a, 3);
    lemma_of_rank_single(a, 4);
    lemma_of_rank_single(b, 0);
    lemma_of_rank_single(b, 1);
    lemma_of_rank_single(b, 2);
    lemma_of_rank_single(b, 3);
    lemma_of_rank_single(b, 4);
    reveal(merge_order);
    assert(merge_order(seq![a, b]) =~= seq![b, a]);
}

proof fn lemma_order_task_first(t: Task, at: Timestamp)
    ensures
        merge_order(seq![SyncRecord::Task(t), SyncRecord::Deleted { id: t.id, record_type: RecordType::Task, deleted_at: at }])
            == seq![SyncRecord::Task(t), SyncRecord::Deleted { id: t.id, record_type: RecordType::Task, deleted_at: at }],
{
    let a = SyncRecord::Deleted { id: t.id, record_type: RecordType::Task, deleted_at: at };
    let b = SyncRecord::Task(t);
    lemma_of_rank_pair(b, a, 0);
    lemma_of_rank_pair(b, a, 1);
    lemma_of_rank_pair(b, a, 2);
    lemma_of_rank_pair(b, a, 3);
    lemma_of_rank_pair(b, a, 4);
    lemma_of_rank_single(b, 0);
    lemma_of_rank_single(b, 1);
    lemma_of_rank_single(b, 2);
    lemma_of_rank_single(b, 3);
    lemma_of_rank_single(b, 4);
    lemma_of_rank_single(a, 0);
    lemma_of_rank_single(a, 1);
    lemma_of_rank_single(a, 2);
    lemma_of_rank_single(a, 3);
    lemma_of_rank_single(a, 4);
    reveal(merge_order);
    assert(merge_order(seq![b, a]) =~= seq![b, a]);
}

proof fn lemma_recreate_plan(x: SyncRecord, t: Task, at: Timestamp)
    requires
        x == SyncRecord::Task(t),
    ensures
        ({
            let d = SyncRecord::Deleted { id: t.id, record_type: RecordType::Task, deleted_at: at };
            &&& merge_plan(seq![d, x]) == seq![x]
            &&& merge_plan(seq![x, d]) == seq![x]
        }),
{
    let d = SyncRecord::Deleted { id: t.id, record_type: RecordType::Task, deleted_at: at };
    let e = Seq::<SyncRecord>::empty();
    lemma_order_tombstone_first(t, at);
    lemma_order_task_first(t, at);
    let o = seq![x, d];
    reveal(merge_plan);
    let pr = |r: SyncRecord| takes_effect(o, r);
    assert(o[0] == x);
    assert(recreates(o[0], t.id, RecordType::Task));
    assert(!takes_effect(o, d));
    assert(takes_effect(o, x));
    e.lemma_filter_push(x, pr);
    seq![x].lemma_filter_push(d, pr);
    assert(e.filter(pr) =~= e) by {
        reveal(Seq::filter);
    }
    assert(e.push(x) =~= seq![x]);
    assert(seq![x].push(d) =~= o);
}

/// Delete-then-recreate within one batch: a batch holding a task tombstone
/// and an upsert of the same task, in either order, ends with that task
/// present, stored as upserted.
pub proof fn law_recreate_survives_tombstone(v: StoreView, t: Task, at: Timestamp)
    requires
        store_wf(v),
    ensures
        ({
            let d = SyncRecord::Deleted { id: t.id, record_type: RecordType::Task, deleted_at: at };
            let m1 = merged(v, seq![d, SyncRecord::Task(t)]);
            let m2 = merged(v, seq![SyncRecord::Task(t), d]);
            &&& has_key(m1.tasks, t.id)
            &&& m1.tasks[key_index(m1.tasks, t.id)] == t
            &&& m2 == m1
        }),
{
    let x = SyncRecord::Task(t);
    lemma_recreate_plan(x, t, at);
    let rv = relaxed(v);
    assert(seq![x].drop_last() =~= Seq::<SyncRecord>::empty());
    assert(after_records(rv, seq![x]) == after_record(after_records(rv, Seq::<SyncRecord>::empty()), x));
    reveal(after_record);
    lemma_upserted_unique(v.tasks, t);
}

/// A tombstone for a record that is not present changes nothing and counts
/// as applied.
pub proof fn law_tombstone_absent_is_noop(v: StoreView, id: u128, kind: RecordType, at: Timestamp)
    requires
        match kind {
            RecordType::Task => !has_key(v.tasks, id),
            RecordType::List => !has_key(v.lists, id),
            RecordType::Tag => !has_key(v.tags, id),
            RecordType::TaskTag => true,
        },
    ensures
        after_record(v, SyncRecord::Deleted { id, record_type: kind, deleted_at: at }) == v,
        record_applies(v, SyncRecord::Deleted { id, record_type: kind, deleted_at: at }),
{
    reveal(after_record);
}

proof fn lemma_filter_keeps_all<A>(s: Seq<A>, p: spec_fn(A) -> bool)
    requires
        forall|i: int| 0 <= i < s.len() ==> p(#[trigger] s[i]),
    ensures
        s.filter(p) == s,
    decreases s.len(),
{
    if s.len() == 0 {
        reveal(Seq::filter);
    } else {
        let q = s.drop_last();
        assert forall|i: int| 0 <= i < q.len() implies p(#[trigger] q[i]) by {
            assert(q[i] == s[i]);
        }
        lemma_filter_keeps_all(q, p);
        assert(s =~= q.push(s.last()));
        q.lemma_filter_push(s.last(), p);
    }
}

proof fn lemma_filter_keeps_none<A>(s: Seq<A>, p: spec_fn(A) -> bool)
    requires
        forall|i: int| 0 <= i < s.len() ==> !p(#[trigger] s[i]),
    ensures
        s.filter(p).len() == 0,
    decreases s.len(),
{
    if s.len() == 0 {
        reveal(Seq::filter);
    } else {
        let q = s.drop_last();
        assert forall|i: int| 0 <= i < q.len() implies !p(#[trigger] q[i]) by {
            assert(q[i] == s[i]);
        }
        lemma_filter_keeps_none(q, p);
        assert(s =~= q.push(s.last()));
        q.lemma_filter_push(s.last(), p);
    }
}

/// Without a watermark the change set holds exactly one record per task,
/// list and tag, and no tombstone.
pub proof fn law_full_sync_sends_everything(v: StoreView)
    ensures
        change_set(v, None).len() == v.tasks.len() + v.lists.len() + v.tags.len(),
        forall|i: int|
            0 <= i < change_set(v, None).len() ==> !(#[trigger] change_set(v, None)[i] is Deleted),
{
    let w: Option<Timestamp> = None;
    lemma_filter_keeps_all(v.tasks, |t: Task| changed_since(t.updated_at, w));
    lemma_filter_keeps_all(v.lists, |l: List| changed_since(l.updated_at, w));
    lemma_filter_keeps_all(v.tags, |g: Tag| changed_since(g.created_at, w));
    let a = task_changes(v.tasks, w);
    let b = list_changes(v.lists, w);
    let c = tag_changes(v.tags, w);
    let cs = change_set(v, None);
    assert(tombstone_changes(v.tombstones, w).len() == 0);
    assert(cs =~= a + b + c);
    assert forall|i: int| 0 <= i < cs.len() implies !(#[trigger] cs[i] is Deleted) by {
        if i < a.len() {
            assert(cs[i] == a[i]);
        } else if i < a.len() + b.len() {
            assert(cs[i] == b[i - a.len()]);
        } else {
            assert(cs[i] == c[i - a.len() - b.len()]);
        }
    }
}

/// With a watermark at or after every task and list update, every tag
/// creation and every recorded deletion, the change set is empty.
pub proof fn law_delta_sync_after_everything_is_empty(v: StoreView, w: Timestamp)
    requires
        forall|i: int| 0 <= i < v.tasks.len() ==> !ts_before(w, (#[trigger] v.tasks[i]).updated_at),
        forall|i: int| 0 <= i < v.lists.len() ==> !ts_before(w, (#[trigger] v.lists[i]).updated_at),
        forall|i: int| 0 <= i < v.tags.len() ==> !ts_before(w, (#[trigger] v.tags[i]).created_at),
        forall|i: int|
            0 <= i < v.tombstones.len() ==> !ts_before(w, (#[trigger] v.tombstones[i]).deleted_at),
    ensures
        change_set(v, Some(w)).len() == 0,
{
    let sw = Some(w);
    lemma_filter_keeps_none(v.tasks, |t: Task| changed_since(t.updated_at, sw));
    lemma_filter_keeps_none(v.lists, |l: List| changed_since(l.updated_at, sw));
    lemma_filter_keeps_none(v.tags, |g: Tag| changed_since(g.created_at, sw));
    lemma_filter_keeps_none(v.tombstones, |b: Tombstone| ts_before(w, b.deleted_at));
}

/// A task deleted locally after the watermark, with its tombstone recorded,
/// travels as a task tombstone and not as a task record.
pub proof fn law_deleted_task_travels_as_tombstone(v: StoreView, w: Timestamp, k: int)
    requires
        0 <= k < v.tombstones.len(),
        v.tombstones[k].kind@ == "task"@,
        ts_before(w, v.tombstones[k].deleted_at),
        !has_key(v.tasks, v.tombstones[k].id),
    ensures
        change_set(v, Some(w)).contains(
            SyncRecord::Deleted {
                id: v.tombstones[k].id,
                record_type: RecordType::Task,
                deleted_at: v.tombstones[k].deleted_at,
            },
        ),
        forall|i: int|
            0 <= i < change_set(v, Some(w)).len() ==> (#[trigger] change_set(v, Some(w))[i] matches SyncRecord::Task(t)
                ==> t.id != v.tombstones[k].id),
{
    let sw = Some(w);
    let b = v.tombstones[k];
    let x = b.id;
    let tp = |t: Task| changed_since(t.updated_at, sw);
    let bp = |b: Tombstone| ts_before(w, b.deleted_at);
    let ft = v.tasks.filter(tp);
    let fb = v.tombstones.filter(bp);
    v.tombstones.lemma_filter_contains(bp, k);
    let j = choose|j: int| 0 <= j < fb.len() && fb[j] == b;
    reveal_strlit("task");
    reveal_strlit("list");
    reveal_strlit("tag");
    assert(b.kind@ != "list"@) by {
        assert(b.kind@[0] == 't' && "list"@[0] == 'l');
    }
    assert(b.kind@ != "tag"@) by {
        assert(b.kind@.len() == 4 && "tag"@.len() == 3);
    }
    assert(tombstone_record(b) == SyncRecord::Deleted { id: x, record_type: RecordType::Task, deleted_at: b.deleted_at });
    let ta = task_changes(v.tasks, sw);
    let la = list_changes(v.lists, sw);
    let ga = tag_changes(v.tags, sw);
    let da = tombstone_changes(v.tombstones, sw);
    let cs = change_set(v, sw);
    assert(cs =~= ta + la + ga + da);
    let pos = ta.len() + la.len() + ga.len() + j;
    assert(da[j] == tombstone_record(b));
    assert(cs[pos] == da[j]);
    assert forall|i: int| 0 <= i < cs.len() implies (#[trigger] cs[i] matches SyncRecord::Task(t) ==> t.id != x) by {
        if i < ta.len() {
            assert(cs[i] == ta[i]);
            assert(ta[i] == SyncRecord::Task(ft[i]));
            v.tasks.lemma_filter_contains_rev(tp, ft[i]);
            assert(ft.contains(ft[i]));
            if ft[i].id == x {
                let m = choose|m: int| 0 <= m < v.tasks.len() && v.tasks[m] == ft[i];
                assert(v.tasks[m].key() == x);
            }
        } else if i < ta.len() + la.len() {
            assert(cs[i] == la[i - ta.len()]);
        } else if i < ta.len() + la.len() + ga.len() {
            assert(cs[i] == ga[i - ta.len() - la.len()]);
        } else {
            assert(cs[i] == da[i - ta.len() - la.len() - ga.len()]);
        }
    }
}

proof fn lemma_task_change_member(s: Seq<Task>, w: Option<Timestamp>, x: Task)
    requires
        s.contains(x),
        changed_since(x.updated_at, w),
    ensures
        task_changes(s, w).contains(SyncRecord::Task(x)),
{
    let p = |t: Task| changed_since(t.updated_at, w);
    let k = choose|k: int| 0 <= k < s.len() && s[k] == x;
    s.lemma_filter_contains(p, k);
    let f = s.filter(p);
    let j = choose|j: int| 0 <= j < f.len() && f[j] == x;
    assert(task_changes(s, w)[j] == SyncRecord::Task(x));
}

/// A failed attempt leaves the watermark, so nothing pending is lost: when
/// a task is edited afterwards (stamped after the watermark), the next
/// change set still holds every record the failed attempt would have sent,
/// except the edited task's earlier version, and holds its new version.
pub proof fn law_retry_keeps_pending_changes(v: StoreView, w: Timestamp, t: Task)
    requires
        store_wf(v),
        ts_before(w, t.updated_at),
    ensures
        ({
            let before = change_set(v, Some(w));
            let after = change_set(StoreView { tasks: upserted(v.tasks, t), ..v }, Some(w));
            &&& after.contains(SyncRecord::Task(t))
            &&& forall|i: int|
                0 <= i < before.len() && !(#[trigger] before[i] matches SyncRecord::Task(x) && x.id == t.id)
                    ==> after.contains(before[i])
        }),
{
    let sw = Some(w);
    let v2 = StoreView { tasks: upserted(v.tasks, t), ..v };
    let before = change_set(v, sw);
    let after = change_set(v2, sw);
    let ta = task_changes(v.tasks, sw);
    let la = list_changes(v.lists, sw);
    let ga = tag_changes(v.tags, sw);
    let da = tombstone_changes(v.tombstones, sw);
    let ta2 = task_changes(v2.tasks, sw);
    assert(before =~= ta + la + ga + da);
    assert(after =~= ta2 + la + ga + da);
    lemma_upserted_unique(v.tasks, t);
    let s2 = upserted(v.tasks, t);
    assert(s2.contains(t)) by {
        assert(s2[key_index(s2, t.id)] == t);
    }
    lemma_task_change_member(s2, sw, t);
    let m2 = ta2.len() as int;
    assert forall|r: SyncRecord| ta2.contains(r) implies after.contains(r) by {
        let j = choose|j: int| 0 <= j < ta2.len() && ta2[j] == r;
        assert(after[j] == r);
    }
    assert forall|i: int|
        0 <= i < before.len() && !(#[trigger] before[i] matches SyncRecord::Task(x) && x.id == t.id)
        implies after.contains(before[i]) by {
        let n1 = ta.len() as int;
        if i < n1 {
            let p = |x: Task| changed_since(x.updated_at, sw);
            let f = v.tasks.filter(p);
            let x = f[i];
            assert(before[i] == SyncRecord::Task(x));
            v.tasks.lemma_filter_pred(p, i);
            assert(f.contains(x));
            v.tasks.lemma_filter_contains_rev(p, x);
            let k = choose|k: int| 0 <= k < v.tasks.len() && v.tasks[k] == x;
            assert(x.id != t.id);
            if crate::keyed::has_key(v.tasks, t.id) {
                let q = key_index(v.tasks, t.id);
                assert(v.tasks[q].key() == t.id);
                assert(k != q);
                assert(s2[k] == x);
            } else {
                assert(s2[k] == x);
            }
            assert(s2.contains(x));
            lemma_task_change_member(s2, sw, x);
        } else {
            let off = m2 - n1;
            assert(after[i + off] == before[i]);
        }
    }
}

/// Merging a batch that holds only a tombstone for a record that is not
/// present, into a store that enforces references, leaves the store as it
/// was (and the tombstone counts as applied, by `apply_incoming_changes`).
pub proof fn law_merge_absent_tombstone_is_noop(v: StoreView, id: u128, kind: RecordType, at: Timestamp)
    requires
        store_wf(v),
        v.foreign_keys,
        match kind {
            RecordType::Task => !has_key(v.tasks, id),
            RecordType::List => !has_key(v.lists, id),
            RecordType::Tag => !has_key(v.tags, id),
            RecordType::TaskTag => true,
        },
    ensures
        merged(v, seq![SyncRecord::Deleted { id, record_type: kind, deleted_at: at }]) == v,
{
    let d = SyncRecord::Deleted { id, record_type: kind, deleted_at: at };
    let one = seq![d];
    assert(one[0] == d && one.len() == 1);
    assert(forall|i: int| 0 <= i < one.len() ==> kind_rank(#[trigger] one[i]) == 4);
    lemma_merge_order_uniform(one, 4);
    reveal(merge_plan);
    let pr = |r: SyncRecord| takes_effect(one, r);
    assert(!recreates(one[0], id, kind));
    assert(takes_effect(one, d));
    Seq::<SyncRecord>::empty().lemma_filter_push(d, pr);
    assert(Seq::<SyncRecord>::empty().filter(pr) =~= Seq::<SyncRecord>::empty()) by {
        reveal(Seq::filter);
    }
    assert(Seq::<SyncRecord>::empty().push(d) =~= one);
    let rv = relaxed(v);
    assert(one.drop_last() =~= Seq::<SyncRecord>::empty());
    assert(after_records(rv, one) == after_record(after_records(rv, Seq::<SyncRecord>::empty()), d));
    law_tombstone_absent_is_noop(rv, id, kind, at);
}

/// The identifier a record is about.
pub open spec fn record_key(r: SyncRecord) -> u128 {
    match r {
        SyncRecord::Task(t) => t.id,
        SyncRecord::List(l) => l.id,
        SyncRecord::Tag(g) => g.id,
        SyncRecord::TaskTag(k) => k.task_id,
        SyncRecord::Deleted { id, .. } => id,
    }
}

/// Some record of `cs` is about identifier `i`.
pub open spec fn sends_key(cs: Seq<SyncRecord>, i: u128) -> bool {
    exists|j: int| 0 <= j < cs.len() && record_key(#[trigger] cs[j]) == i
}

/// A local change made through the task manager: saving a task, list or
/// tag, or deleting one and recording its tombstone.
pub enum LocalEdit {
    PutTask(Task),
    PutList(List),
    PutTag(Tag),
    Remove(Tombstone),
}

/// The edit is stamped after watermark `w`.
pub open spec fn edit_after(e: LocalEdit, w: Timestamp) -> bool {
    match e {
        LocalEdit::PutTask(t) => ts_before(w, t.updated_at),
        LocalEdit::PutList(l) => ts_before(w, l.updated_at),
        LocalEdit::PutTag(g) => ts_before(w, g.created_at),
        LocalEdit::Remove(b) => ts_before(w, b.deleted_at),
    }
}

/// The store contents after one local edit.
pub open spec fn after_edit(v: StoreView, e: LocalEdit) -> StoreView {
    match e {
        LocalEdit::PutTask(t) => StoreView { tasks: upserted(v.tasks, t), ..v },
        LocalEdit::PutList(l) => StoreView { lists: upserted(v.lists, l), ..v },
        LocalEdit::PutTag(g) => StoreView { tags: upserted(v.tags, g), ..v },
        LocalEdit::Remove(b) => {
            let v2 = StoreView { tombstones: v.tombstones.push(b), ..v };
            match record_type_of_label(b.kind@) {
                RecordType::List => StoreView { lists: without_key(v.lists, b.id), ..v2 },
                RecordType::Tag => StoreView { tags: without_key(v.tags, b.id), ..v2 },
                _ => StoreView { tasks: without_key(v.tasks, b.id), ..v2 },
            }
        },
    }
}

/// The store contents after local edits, one after another.
pub open spec fn after_edits(v: StoreView, es: Seq<LocalEdit>) -> StoreView
    decreases es.len(),
{
    if es.len() == 0 {
        v
    } else {
        after_edit(after_edits(v, es.drop_last()), es.last())
    }
}

proof fn lemma_fm_member<A>(s: Seq<A>, p: spec_fn(A) -> bool, f: spec_fn(A) -> SyncRecord, x: A)
    requires
        s.contains(x),
        p(x),
    ensures
        sends_key(s.filter(p).map_values(f), record_key(f(x))),
{
    let k = choose|k: int| 0 <= k < s.len() && s[k] == x;
    s.lemma_filter_contains(p, k);
    let fl = s.filter(p);
    let j = choose|j: int| 0 <= j < fl.len() && fl[j] == x;
    assert(s.filter(p).map_values(f)[j] == f(x));
}

proof fn lemma_fm_source<A>(s: Seq<A>, p: spec_fn(A) -> bool, f: spec_fn(A) -> SyncRecord, i: u128) -> (x: A)
    requires
        sends_key(s.filter(p).map_values(f), i),
    ensures
        s.contains(x),
        p(x),
        record_key(f(x)) == i,
{
    let m = s.filter(p).map_values(f);
    let j = choose|j: int| 0 <= j < m.len() && record_key(#[trigger] m[j]) == i;
    let fl = s.filter(p);
    let x = fl[j];
    s.lemma_filter_pred(p, j);
    assert(fl.contains(x));
    s.lemma_filter_contains_rev(p, x);
    x
}

proof fn lemma_segment_upsert<T: Keyed>(s: Seq<T>, x: T, p: spec_fn(T) -> bool, f: spec_fn(T) -> SyncRecord, i: u128)
    requires
        keys_unique(s),
        p(x),
        forall|y: T| #[trigger] record_key(f(y)) == y.key(),
        sends_key(s.filter(p).map_values(f), i),
    ensures
        sends_key(upserted(s, x).filter(p).map_values(f), i),
{
    let y = lemma_fm_source(s, p, f, i);
    let r = upserted(s, x);
    lemma_upserted_unique(s, x);
    assert(record_key(f(y)) == y.key());
    assert(record_key(f(x)) == x.key());
    if y.key() == x.key() {
        assert(r[key_index(r, x.key())] == x);
        assert(r.contains(x));
        lemma_fm_member(r, p, f, x);
    } else {
        let k = choose|k: int| 0 <= k < s.len() && s[k] == y;
        if has_key(s, x.key()) {
            let q = key_index(s, x.key());
            assert(s[q].key() == x.key());
            assert(k != q);
            assert(r[k] == y);
        } else {
            assert(r[k] == y);
        }
        assert(r.contains(y));
        lemma_fm_member(r, p, f, y);
    }
}

proof fn lemma_segment_remove<T: Keyed>(s: Seq<T>, id: u128, p: spec_fn(T) -> bool, f: spec_fn(T) -> SyncRecord, i: u128)
    requires
        keys_unique(s),
        forall|y: T| #[trigger] record_key(f(y)) == y.key(),
        sends_key(s.filter(p).map_values(f), i),
        i != id,
    ensures
        sends_key(without_key(s, id).filter(p).map_values(f), i),
{
    let y = lemma_fm_source(s, p, f, i);
    assert(record_key(f(y)) == y.key());
    let r = without_key(s, id);
    let k = choose|k: int| 0 <= k < s.len() && s[k] == y;
    if has_key(s, id) {
        let q = key_index(s, id);
        assert(s[q].key() == id);
        assert(k != q);
        if k < q {
            assert(r[k] == y);
        } else {
            assert(r[k - 1] == y);
        }
    } else {
        assert(r[k] == y);
    }
    assert(r.contains(y));
    lemma_fm_member(r, p, f, y);
}

proof fn lemma_sends_concat(a: Seq<SyncRecord>, b: Seq<SyncRecord>, i: u128)
    ensures
        sends_key(a + b, i) == (sends_key(a, i) || sends_key(b, i)),
{
    let c = a + b;
    if sends_key(c, i) {
        let j = choose|j: int| 0 <= j < c.len() && record_key(#[trigger] c[j]) == i;
        if j < a.len() {
            assert(c[j] == a[j]);
        } else {
            assert(c[j] == b[j - a.len()]);
        }
    }
    if sends_key(a, i) {
        let j = choose|j: int| 0 <= j < a.len() && record_key(#[trigger] a[j]) == i;
        assert(c[j] == a[j]);
    }
    if sends_key(b, i) {
        let j = choose|j: int| 0 <= j < b.len() && record_key(#[trigger] b[j]) == i;
        assert(c[j + a.len()] == b[j]);
    }
}

proof fn lemma_change_set_parts(v: StoreView, w: Timestamp, i: u128)
    ensures
        sends_key(change_set(v, Some(w)), i) == (sends_key(task_changes(v.tasks, Some(w)), i) || sends_key(
            list_changes(v.lists, Some(w)),
            i,
        ) || sends_key(tag_changes(v.tags, Some(w)), i) || sends_key(tombstone_changes(v.tombstones, Some(w)), i)),
{
    let sw = Some(w);
    let a = task_changes(v.tasks, sw);
    let b = list_changes(v.lists, sw);
    let c = tag_changes(v.tags, sw);
    let d = tombstone_changes(v.tombstones, sw);
    lemma_sends_concat(a, b, i);
    lemma_sends_concat(a + b, c, i);
    lemma_sends_concat(a + b + c, d, i);
}

proof fn lemma_tombstones_grow(s: Seq<Tombstone>, b: Tombstone, w: Timestamp, i: u128)
    requires
        sends_key(tombstone_changes(s, Some(w)), i) || (i == b.id && ts_before(w, b.deleted_at)),
    ensures
        sends_key(tombstone_changes(s.push(b), Some(w)), i),
{
    let p = |x: Tombstone| ts_before(w, x.deleted_at);
    let f = |x: Tombstone| tombstone_record(x);
    let s2 = s.push(b);
    if sends_key(tombstone_changes(s, Some(w)), i) {
        let y = lemma_fm_source(s, p, f, i);
        let k = choose|k: int| 0 <= k < s.len() && s[k] == y;
        assert(s2[k] == y);
        lemma_fm_member(s2, p, f, y);
    } else {
        assert(s2[s.len() as int] == b);
        lemma_fm_member(s2, p, f, b);
    }
}

/// One local edit stamped after the watermark keeps every identifier that
/// the change set was about in the change set.
proof fn lemma_edit_keeps_keys(v: StoreView, w: Timestamp, e: LocalEdit, i: u128)
    requires
        store_wf(v),
        edit_after(e, w),
        sends_key(change_set(v, Some(w)), i),
    ensures
        sends_key(change_set(after_edit(v, e), Some(w)), i),
        store_wf(after_edit(v, e)),
{
    let sw = Some(w);
    let v2 = after_edit(v, e);
    lemma_change_set_parts(v, w, i);
    lemma_change_set_parts(v2, w, i);
    let tp = |t: Task| changed_since(t.updated_at, sw);
    let tf = |t: Task| SyncRecord::Task(t);
    let lp = |l: List| changed_since(l.updated_at, sw);
    let lf = |l: List| SyncRecord::List(l);
    let gp = |g: Tag| changed_since(g.created_at, sw);
    let gf = |g: Tag| SyncRecord::Tag(g);
    assert(forall|y: Task| #[trigger] record_key(tf(y)) == y.key());
    assert(forall|y: List| #[trigger] record_key(lf(y)) == y.key());
    assert(forall|y: Tag| #[trigger] record_key(gf(y)) == y.key());
    match e {
        LocalEdit::PutTask(t) => {
            lemma_upserted_unique(v.tasks, t);
            if sends_key(task_changes(v.tasks, sw), i) {
                lemma_segment_upsert(v.tasks, t, tp, tf, i);
            }
        },
        LocalEdit::PutList(l) => {
            lemma_upserted_unique(v.lists, l);
            if sends_key(list_changes(v.lists, sw), i) {
                lemma_segment_upsert(v.lists, l, lp, lf, i);
            }
        },
        LocalEdit::PutTag(g) => {
            lemma_upserted_unique(v.tags, g);
            if sends_key(tag_changes(v.tags, sw), i) {
                lemma_segment_upsert(v.tags, g, gp, gf, i);
            }
        },
        LocalEdit::Remove(b) => {
            lemma_without_key_unique(v.tasks, b.id);
            lemma_without_key_unique(v.lists, b.id);
            lemma_without_key_unique(v.tags, b.id);
            if i == b.id {
                lemma_tombstones_grow(v.tombstones, b, w, i);
            } else {
                if sends_key(tombstone_changes(v.tombstones, sw), i) {
                    lemma_tombstones_grow(v.tombstones, b, w, i);
                }
                if sends_key(task_changes(v.tasks, sw), i) {
                    lemma_segment_remove(v.tasks, b.id, tp, tf, i);
                }
                if sends_key(list_changes(v.lists, sw), i) {
                    lemma_segment_remove(v.lists, b.id, lp, lf, i);
                }
                if sends_key(tag_changes(v.tags, sw), i) {
                    lemma_segment_remove(v.tags, b.id, gp, gf, i);
                }
            }
        },
    }
}

/// A failed attempt leaves the watermark, so nothing pending is lost: after
/// any sequence of local edits and deletions stamped after the watermark,
/// the next change set is still about every identifier the failed attempt
/// would have sent (with the same record, a newer version of it, or its
/// tombstone).
pub proof fn law_retry_sends_every_pending_key(v: StoreView, w: Timestamp, es: Seq<LocalEdit>, i: u128)
    requires
        store_wf(v),
        forall|k: int| 0 <= k < es.len() ==> edit_after(#[trigger] es[k], w),
        sends_key(change_set(v, Some(w)), i),
    ensures
        sends_key(change_set(after_edits(v, es), Some(w)), i),
        store_wf(after_edits(v, es)),
    decreases es.len(),
{
    if es.len() > 0 {
        let p = es.drop_last();
        assert forall|k: int| 0 <= k < p.len() implies edit_after(#[trigger] p[k], w) by {
            assert(p[k] == es[k]);
        }
        law_retry_sends_every_pending_key(v, w, p, i);
        assert(edit_after(es[es.len() - 1], w));
        lemma_edit_keeps_keys(after_edits(v, p), w, es.last(), i);
    }
}

} // verus!
