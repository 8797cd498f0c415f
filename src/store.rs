//! In-memory local storage: tasks, lists, tags, task-tag links, tombstones,
//! the sync watermark and the referential-integrity switch.

use vstd::prelude::*;
use crate::keyed::{find_key, has_key, keys_unique, remove_key, upsert_into, upserted, without_key};
use crate::models::{List, Tag, Task, Timestamp};
use crate::sync_types::{RecordType, SyncRecord, TaskTagLink};

verus! {

/// A deletion recorded locally: the identifier, the kind label ("task",
/// "list", "tag", ...) and the time of deletion.
#[derive(Debug, Clone)]
pub struct Tombstone {
    pub id: u128,
    pub kind: String,
    pub deleted_at: Timestamp,
}

/// The contents of a store.
pub struct StoreView {
    pub tasks: Seq<Task>,
    pub lists: Seq<List>,
    pub tags: Seq<Tag>,
    pub links: Seq<TaskTagLink>,
    pub tombstones: Seq<Tombstone>,
    pub last_sync: Option<Timestamp>,
    pub foreign_keys: bool,
}

/// Local storage held in memory.
#[derive(Debug, Clone)]
pub struct LocalStore {
    pub tasks: Vec<Task>,
    pub lists: Vec<List>,
    pub tags: Vec<Tag>,
    pub links: Vec<TaskTagLink>,
    pub tombstones: Vec<Tombstone>,
    /// The watermark: time of the last successful sync, None if never synced
    pub last_sync: Option<Timestamp>,
    /// Whether references from tasks and links to other records are enforced
    pub foreign_keys: bool,
}

impl View for LocalStore {
    type V = StoreView;

    open spec fn view(&self) -> StoreView {
        StoreView {
            tasks: self.tasks@,
            lists: self.lists@,
            tags: self.tags@,
            links: self.links@,
            tombstones: self.tombstones@,
            last_sync: self.last_sync,
            foreign_keys: self.foreign_keys,
        }
    }
}

/// Tasks, lists and tags each carry unique identifiers.
pub open spec fn store_wf(v: StoreView) -> bool {
    keys_unique(v.tasks) && keys_unique(v.lists) && keys_unique(v.tags)
}

/// The task's list and all its tags are present.
pub open spec fn task_refs_present(v: StoreView, t: Task) -> bool {
    has_key(v.lists, t.list_id) && forall|i: int|
        0 <= i < t.tag_ids@.len() ==> has_key(v.tags, #[trigger] t.tag_ids@[i])
}

/// The link's task and tag are present.
pub open spec fn link_refs_present(v: StoreView, l: TaskTagLink) -> bool {
    has_key(v.tasks, l.task_id) && has_key(v.tags, l.tag_id)
}

/// Whether applying `r` to a store with contents `v` succeeds: only
/// references that are enforced and missing make it fail.
pub open spec fn record_applies(v: StoreView, r: SyncRecord) -> bool {
    match r {
        SyncRecord::Task(t) => !v.foreign_keys || task_refs_present(v, t),
        SyncRecord::TaskTag(l) => !v.foreign_keys || link_refs_present(v, l),
        _ => true,
    }
}

/// A link is identified by its task and tag.
pub open spec fn same_link(a: TaskTagLink, b: TaskTagLink) -> bool {
    a.task_id == b.task_id && a.tag_id == b.tag_id
}

/// Insert-or-replace of a link by its task and tag: any link joining the
/// same task and tag is dropped and `l` is appended.
pub open spec fn link_upserted(s: Seq<TaskTagLink>, l: TaskTagLink) -> Seq<TaskTagLink> {
    links_apart(s, l).push(l)
}

/// The links of `s` that do not join the same task and tag as `l`.
pub open spec fn links_apart(s: Seq<TaskTagLink>, l: TaskTagLink) -> Seq<TaskTagLink> {
    s.filter(|x: TaskTagLink| !same_link(x, l))
}

/// The contents after applying one incoming record: an upsert by identifier
/// for a task, list, tag or link; a removal by identifier for a task, list or
/// tag tombstone; nothing for a link tombstone, or where the record does not
/// apply.
#[verifier::opaque]
pub open spec fn after_record(v: StoreView, r: SyncRecord) -> StoreView {
    if !record_applies(v, r) {
        v
    } else {
        match r {
            SyncRecord::Task(t) => StoreView { tasks: upserted(v.tasks, t), ..v },
            SyncRecord::List(l) => StoreView { lists: upserted(v.lists, l), ..v },
            SyncRecord::Tag(g) => StoreView { tags: upserted(v.tags, g), ..v },
            SyncRecord::TaskTag(l) => StoreView { links: link_upserted(v.links, l), ..v },
            SyncRecord::Deleted { id, record_type, deleted_at } => match record_type {
                RecordType::Task => StoreView { tasks: without_key(v.tasks, id), ..v },
                RecordType::List => StoreView { lists: without_key(v.lists, id), ..v },
                RecordType::Tag => StoreView { tags: without_key(v.tags, id), ..v },
                RecordType::TaskTag => v,
            },
        }
    }
}

/// Applying records one after another, from the first.
pub open spec fn after_records(v: StoreView, s: Seq<SyncRecord>) -> StoreView
    decreases s.len(),
{
    if s.len() == 0 {
        v
    } else {
        after_record(after_records(v, s.drop_last()), s.last())
    }
}

/// How many records apply when applied one after another.
pub open spec fn applied_count(v: StoreView, s: Seq<SyncRecord>) -> nat
    decreases s.len(),
{
    if s.len() == 0 {
        0
    } else {
        let before = after_records(v, s.drop_last());
        applied_count(v, s.drop_last()) + if record_applies(before, s.last()) {
            1nat
        } else {
            0nat
        }
    }
}

/// Applying any record keeps identifiers unique.
pub proof fn lemma_after_record_wf(v: StoreView, r: SyncRecord)
    requires
        store_wf(v),
    ensures
        store_wf(after_record(v, r)),
        after_record(v, r).foreign_keys == v.foreign_keys,
        after_record(v, r).last_sync == v.last_sync,
        after_record(v, r).tombstones == v.tombstones,
{
    reveal(after_record);
    match r {
        SyncRecord::Task(t) => crate::keyed::lemma_upserted_unique(v.tasks, t),
        SyncRecord::List(l) => crate::keyed::lemma_upserted_unique(v.lists, l),
        SyncRecord::Tag(g) => crate::keyed::lemma_upserted_unique(v.tags, g),
        SyncRecord::Deleted { id, .. } => {
            crate::keyed::lemma_without_key_unique(v.tasks, id);
            crate::keyed::lemma_without_key_unique(v.lists, id);
            crate::keyed::lemma_without_key_unique(v.tags, id);
        },
        _ => {},
    }
}

/// Applying a sequence of records keeps identifiers unique.
pub proof fn lemma_after_records_wf(v: StoreView, s: Seq<SyncRecord>)
    requires
        store_wf(v),
    ensures
        store_wf(after_records(v, s)),
        after_records(v, s).foreign_keys == v.foreign_keys,
        after_records(v, s).last_sync == v.last_sync,
        after_records(v, s).tombstones == v.tombstones,
    decreases s.len(),
{
    if s.len() > 0 {
        lemma_after_records_wf(v, s.drop_last());
        lemma_after_record_wf(after_records(v, s.drop_last()), s.last());
    }
}

impl LocalStore {
    /// An empty store that enforces references and has never synced.
    pub fn new() -> (r: LocalStore)
        ensures
            r@.tasks.len() == 0,
            r@.lists.len() == 0,
            r@.tags.len() == 0,
            r@.links.len() == 0,
            r@.tombstones.len() == 0,
            r@.last_sync.is_none(),
            r@.foreign_keys,
            store_wf(r@),
    {
        LocalStore {
            tasks: Vec::new(),
            lists: Vec::new(),
            tags: Vec::new(),
            links: Vec::new(),
            tombstones: Vec::new(),
            last_sync: None,
            foreign_keys: true,
        }
    }

    /// Whether the task's list and all its tags are present.
    fn task_refs_ok(&self, t: &Task) -> (r: bool)
        ensures
            r == task_refs_present(self@, *t),
    {
        if find_key(&self.lists, t.list_id).is_none() {
            return false;
        }
        let mut i: usize = 0;
        while i < t.tag_ids.len()
            invariant
                i <= t.tag_ids@.len(),
                forall|j: int| 0 <= j < i ==> has_key(self@.tags, #[trigger] t.tag_ids@[j]),
            decreases t.tag_ids@.len() - i,
        {
            if find_key(&self.tags, t.tag_ids[i]).is_none() {
                return false;
            }
            i += 1;
        }
        true
    }

    /// Whether the link's task and tag are present.
    fn link_refs_ok(&self, l: &TaskTagLink) -> (r: bool)
        ensures
            r == link_refs_present(self@, *l),
    {
        find_key(&self.tasks, l.task_id).is_some() && find_key(&self.tags, l.tag_id).is_some()
    }

    /// Insert-or-replace a task by identifier. Fails, changing nothing, when
    /// references are enforced and its list or one of its tags is missing.
    pub fn upsert_task(&mut self, t: Task) -> (ok: bool)
        requires
            store_wf(old(self)@),
        ensures
            ok == record_applies(old(self)@, SyncRecord::Task(t)),
            final(self)@ == after_record(old(self)@, SyncRecord::Task(t)),
            store_wf(final(self)@),
    {
        reveal(after_record);
        proof {
            lemma_after_record_wf(self@, SyncRecord::Task(t));
        }
        if self.foreign_keys && !self.task_refs_ok(&t) {
            return false;
        }
        upsert_into(&mut self.tasks, t);
        true
    }

    /// Insert-or-replace a list by identifier.
    pub fn upsert_list(&mut self, l: List) -> (ok: bool)
        requires
            store_wf(old(self)@),
        ensures
            ok,
            final(self)@ == after_record(old(self)@, SyncRecord::List(l)),
            store_wf(final(self)@),
    {
        reveal(after_record);
        proof {
            lemma_after_record_wf(self@, SyncRecord::List(l));
        }
        upsert_into(&mut self.lists, l);
        true
    }

    /// Insert-or-replace a tag by identifier.
    pub fn upsert_tag(&mut self, g: Tag) -> (ok: bool)
        requires
            store_wf(old(self)@),
        ensures
            ok,
            final(self)@ == after_record(old(self)@, SyncRecord::Tag(g)),
            store_wf(final(self)@),
    {
        reveal(after_record);
        proof {
            lemma_after_record_wf(self@, SyncRecord::Tag(g));
        }
        upsert_into(&mut self.tags, g);
        true
    }

    /// Insert-or-replace a task-tag link by its task and tag. Fails, changing
    /// nothing, when references are enforced and the task or tag is missing.
    pub fn upsert_task_tag(&mut self, l: TaskTagLink) -> (ok: bool)
        requires
            store_wf(old(self)@),
        ensures
            ok == record_applies(old(self)@, SyncRecord::TaskTag(l)),
            final(self)@ == after_record(old(self)@, SyncRecord::TaskTag(l)),
            store_wf(final(self)@),
    {
        reveal(after_record);
        if self.foreign_keys && !self.link_refs_ok(&l) {
            return false;
        }
        let ghost before = self.links@;
        let mut kept: Vec<TaskTagLink> = Vec::new();
        let mut i: usize = 0;
        while i < self.links.len()
            invariant
                i <= self.links@.len(),
                self.links@ == before,
                kept@ == links_apart(before.subrange(0, i as int), l),
            decreases self.links@.len() - i,
        {
            let x = self.links[i];
            proof {
                let prev = before.subrange(0, i as int);
                assert(before.subrange(0, i as int + 1) =~= prev.push(x));
                prev.lemma_filter_push(x, |y: TaskTagLink| !same_link(y, l));
            }
            if !(x.task_id == l.task_id && x.tag_id == l.tag_id) {
                kept.push(x);
            }
            i += 1;
        }
        proof {
            assert(before.subrange(0, before.len() as int) =~= before);
        }
        kept.push(l);
        self.links = kept;
        true
    }

    /// Delete a task by identifier; succeeds whether or not it was present.
    pub fn delete_task_by_id(&mut self, id: u128) -> (ok: bool)
        requires
            store_wf(old(self)@),
        ensures
            ok,
            final(self)@ == (StoreView { tasks: without_key(old(self)@.tasks, id), ..old(self)@ }),
            store_wf(final(self)@),
    {
        proof {
            crate::keyed::lemma_without_key_unique(self@.tasks, id);
        }
        remove_key(&mut self.tasks, id);
        true
    }

    /// Delete a list by identifier; succeeds whether or not it was present.
    pub fn delete_list_by_id(&mut self, id: u128) -> (ok: bool)
        requires
            store_wf(old(self)@),
        ensures
            ok,
            final(self)@ == (StoreView { lists: without_key(old(self)@.lists, id), ..old(self)@ }),
            store_wf(final(self)@),
    {
        proof {
            crate::keyed::lemma_without_key_unique(self@.lists, id);
        }
        remove_key(&mut self.lists, id);
        true
    }

    /// Delete a tag by identifier; succeeds whether or not it was present.
    pub fn delete_tag_by_id(&mut self, id: u128) -> (ok: bool)
        requires
            store_wf(old(self)@),
        ensures
            ok,
            final(self)@ == (StoreView { tags: without_key(old(self)@.tags, id), ..old(self)@ }),
            store_wf(final(self)@),
    {
        proof {
            crate::keyed::lemma_without_key_unique(self@.tags, id);
        }
        remove_key(&mut self.tags, id);
        true
    }

    /// Apply one incoming record (see `after_record`); returns whether it applied.
    pub fn apply_record(&mut self, r: SyncRecord) -> (ok: bool)
        requires
            store_wf(old(self)@),
        ensures
            ok == record_applies(old(self)@, r),
            final(self)@ == after_record(old(self)@, r),
            store_wf(final(self)@),
    {
        reveal(after_record);
        match r {
            SyncRecord::Task(t) => self.upsert_task(t),
            SyncRecord::List(l) => self.upsert_list(l),
            SyncRecord::Tag(g) => self.upsert_tag(g),
            SyncRecord::TaskTag(l) => self.upsert_task_tag(l),
            SyncRecord::Deleted { id, record_type, deleted_at } => match record_type {
                RecordType::Task => self.delete_task_by_id(id),
                RecordType::List => self.delete_list_by_id(id),
                RecordType::Tag => self.delete_tag_by_id(id),
                RecordType::TaskTag => true,
            },
        }
    }

    /// Record that the record `id` of kind `kind` was deleted at `at`.
    pub fn record_tombstone(&mut self, id: u128, kind: String, at: Timestamp)
        ensures
            final(self)@.tombstones == old(self)@.tombstones.push((Tombstone { id, kind, deleted_at: at })),
            final(self)@ == (StoreView { tombstones: final(self)@.tombstones, ..old(self)@ }),
    {
        self.tombstones.push(Tombstone { id, kind, deleted_at: at });
    }

    /// The watermark.
    pub fn get_last_sync(&self) -> (r: Option<Timestamp>)
        ensures
            r == self@.last_sync,
    {
        self.last_sync
    }

    /// Set the watermark.
    pub fn set_last_sync(&mut self, t: Timestamp)
        ensures
            final(self)@ == (StoreView { last_sync: Some(t), ..old(self)@ }),
    {
        self.last_sync = Some(t);
    }

    /// Switch enforcement of references on or off.
    pub fn set_foreign_keys(&mut self, on: bool)
        ensures
            final(self)@ == (StoreView { foreign_keys: on, ..old(self)@ }),
    {
        self.foreign_keys = on;
    }
}

} // verus!
