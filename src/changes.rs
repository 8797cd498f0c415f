//! Change sets: everything local storage holds that must travel to the
//! server, relative to a watermark.

use vstd::prelude::*;
use crate::models::{ts_before, List, Tag, Task, Timestamp};
use crate::store::{LocalStore, StoreView, Tombstone};
use crate::sync_types::{record_type_of_label, RecordType, SyncRecord};

verus! {

/// A record stamped `t` changed since watermark `w` (always, without a watermark).
pub open spec fn changed_since(t: Timestamp, w: Option<Timestamp>) -> bool {
    match w {
        None => true,
        Some(w) => ts_before(w, t),
    }
}

/// Task records for the tasks updated since `w`.
pub open spec fn task_changes(s: Seq<Task>, w: Option<Timestamp>) -> Seq<SyncRecord> {
    s.filter(|t: Task| changed_since(t.updated_at, w)).map_values(|t: Task| SyncRecord::Task(t))
}

/// List records for the lists updated since `w`.
pub open spec fn list_changes(s: Seq<List>, w: Option<Timestamp>) -> Seq<SyncRecord> {
    s.filter(|l: List| changed_since(l.updated_at, w)).map_values(|l: List| SyncRecord::List(l))
}

/// Tag records for the tags created since `w`.
pub open spec fn tag_changes(s: Seq<Tag>, w: Option<Timestamp>) -> Seq<SyncRecord> {
    s.filter(|g: Tag| changed_since(g.created_at, w)).map_values(|g: Tag| SyncRecord::Tag(g))
}

/// The wire tombstone for a stored one.
pub open spec fn tombstone_record(b: Tombstone) -> SyncRecord {
    SyncRecord::Deleted {
        id: b.id,
        record_type: record_type_of_label(b.kind@),
        deleted_at: b.deleted_at,
    }
}

/// Tombstones recorded after `w`; none without a watermark, since a client
/// that never synced has nothing to delete elsewhere.
pub open spec fn tombstone_changes(s: Seq<Tombstone>, w: Option<Timestamp>) -> Seq<SyncRecord> {
    match w {
        None => Seq::empty(),
        Some(w) => s.filter(|b: Tombstone| ts_before(w, b.deleted_at)).map_values(
            |b: Tombstone| tombstone_record(b),
        ),
    }
}

/// The change set of a store relative to watermark `w`: tasks, lists and
/// tags changed since `w`, then the tombstones recorded after it.
pub open spec fn change_set(v: StoreView, w: Option<Timestamp>) -> Seq<SyncRecord> {
    task_changes(v.tasks, w) + list_changes(v.lists, w) + tag_changes(v.tags, w)
        + tombstone_changes(v.tombstones, w)
}

proof fn lemma_push_filter_map<A, B>(s: Seq<A>, x: A, p: spec_fn(A) -> bool, f: spec_fn(A) -> B)
    ensures
        s.push(x).filter(p).map_values(f) == if p(x) {
            s.filter(p).map_values(f).push(f(x))
        } else {
            s.filter(p).map_values(f)
        },
{
    s.lemma_filter_push(x, p);
    if p(x) {
        assert(s.filter(p).push(x).map_values(f) =~= s.filter(p).map_values(f).push(f(x)));
    }
}

fn take_tasks(v: Vec<Task>, w: Option<Timestamp>, out: &mut Vec<SyncRecord>)
    ensures
        final(out)@ == old(out)@ + task_changes(v@, w),
{
    let ghost orig = v@;
    let ghost start = out@;
    let mut rest = v;
    let mut i: usize = 0;
    let total: usize = rest.len();
    while rest.len() > 0
        invariant
            i <= orig.len() == total,
            rest@ == orig.subrange(i as int, orig.len() as int),
            out@ == start + task_changes(orig.subrange(0, i as int), w),
        decreases rest@.len(),
    {
        let t = rest.remove(0);
        proof {
            let prev = orig.subrange(0, i as int);
            assert(orig.subrange(0, i as int + 1) =~= prev.push(t));
            lemma_push_filter_map(
                prev,
                t,
                |t: Task| changed_since(t.updated_at, w),
                |t: Task| SyncRecord::Task(t),
            );
        }
        let keep = match w {
            None => true,
            Some(w) => t.updated_at.is_after(&w),
        };
        if keep {
            out.push(SyncRecord::Task(t));
        }
        proof {
            assert(out@ =~= start + task_changes(orig.subrange(0, i as int + 1), w));
        }
        i += 1;
    }
    proof {
        assert(orig.subrange(0, orig.len() as int) =~= orig);
    }
}

fn take_lists(v: Vec<List>, w: Option<Timestamp>, out: &mut Vec<SyncRecord>)
    ensures
        final(out)@ == old(out)@ + list_changes(v@, w),
{
    let ghost orig = v@;
    let ghost start = out@;
    let mut rest = v;
    let mut i: usize = 0;
    let total: usize = rest.len();
    while rest.len() > 0
        invariant
            i <= orig.len() == total,
            rest@ == orig.subrange(i as int, orig.len() as int),
            out@ == start + list_changes(orig.subrange(0, i as int), w),
        decreases rest@.len(),
    {
        let l = rest.remove(0);
        proof {
            let prev = orig.subrange(0, i as int);
            assert(orig.subrange(0, i as int + 1) =~= prev.push(l));
            lemma_push_filter_map(
                prev,
                l,
                |l: List| changed_since(l.updated_at, w),
                |l: List| SyncRecord::List(l),
            );
        }
        let keep = match w {
            None => true,
            Some(w) => l.updated_at.is_after(&w),
        };
        if keep {
            out.push(SyncRecord::List(l));
        }
        proof {
            assert(out@ =~= start + list_changes(orig.subrange(0, i as int + 1), w));
        }
        i += 1;
    }
    proof {
        assert(orig.subrange(0, orig.len() as int) =~= orig);
    }
}

fn take_tags(v: Vec<Tag>, w: Option<Timestamp>, out: &mut Vec<SyncRecord>)
    ensures
        final(out)@ == old(out)@ + tag_changes(v@, w),
{
    let ghost orig = v@;
    let ghost start = out@;
    let mut rest = v;
    let mut i: usize = 0;
    let total: usize = rest.len();
    while rest.len() > 0
        invariant
            i <= orig.len() == total,
            rest@ == orig.subrange(i as int, orig.len() as int),
            out@ == start + tag_changes(orig.subrange(0, i as int), w),
        decreases rest@.len(),
    {
        let g = rest.remove(0);
        proof {
            let prev = orig.subrange(0, i as int);
            assert(orig.subrange(0, i as int + 1) =~= prev.push(g));
            lemma_push_filter_map(
                prev,
                g,
                |g: Tag| changed_since(g.created_at, w),
                |g: Tag| SyncRecord::Tag(g),
            );
        }
        let keep = match w {
            None => true,
            Some(w) => g.created_at.is_after(&w),
        };
        if keep {
            out.push(SyncRecord::Tag(g));
        }
        proof {
            assert(out@ =~= start + tag_changes(orig.subrange(0, i as int + 1), w));
        }
        i += 1;
    }
    proof {
        assert(orig.subrange(0, orig.len() as int) =~= orig);
    }
}

fn take_tombstones(v: Vec<Tombstone>, w: Timestamp, out: &mut Vec<SyncRecord>)
    ensures
        final(out)@ == old(out)@ + tombstone_changes(v@, Some(w)),
{
    let ghost orig = v@;
    let ghost start = out@;
    let mut rest = v;
    let mut i: usize = 0;
    let total: usize = rest.len();
    while rest.len() > 0
        invariant
            i <= orig.len() == total,
            rest@ == orig.subrange(i as int, orig.len() as int),
            out@ == start + tombstone_changes(orig.subrange(0, i as int), Some(w)),
        decreases rest@.len(),
    {
        let b = rest.remove(0);
        proof {
            let prev = orig.subrange(0, i as int);
            assert(orig.subrange(0, i as int + 1) =~= prev.push(b));
            lemma_push_filter_map(
                prev,
                b,
                |b: Tombstone| ts_before(w, b.deleted_at),
                |b: Tombstone| tombstone_record(b),
            );
        }
        if b.deleted_at.is_after(&w) {
            let record_type = RecordType::from_label(&b.kind);
            out.push(SyncRecord::Deleted { id: b.id, record_type, deleted_at: b.deleted_at });
        }
        proof {
            assert(out@ =~= start + tombstone_changes(orig.subrange(0, i as int + 1), Some(w)));
        }
        i += 1;
    }
    proof {
        assert(orig.subrange(0, orig.len() as int) =~= orig);
    }
}

/// Builds the change set of a snapshot of local storage relative to the
/// watermark `last_sync` (see `change_set`). Without a watermark this is the
/// whole dataset and no tombstones.
pub fn gather_local_changes(snapshot: LocalStore, last_sync: Option<Timestamp>) -> (r: Vec<SyncRecord>)
    ensures
        r@ == change_set(snapshot@, last_sync),
{
    let ghost v = snapshot@;
    let mut out: Vec<SyncRecord> = Vec::new();
    take_tasks(snapshot.tasks, last_sync, &mut out);
    take_lists(snapshot.lists, last_sync, &mut out);
    take_tags(snapshot.tags, last_sync, &mut out);
    match last_sync {
        Some(w) => take_tombstones(snapshot.tombstones, w, &mut out),
        None => {},
    }
    proof {
        assert(out@ =~= change_set(v, last_sync));
    }
    out
}

} // verus!
