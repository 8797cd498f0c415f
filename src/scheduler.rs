//! When to sync: triggers (user request, local change, interval, start-up),
//! at most one attempt in flight, and what an attempt's outcome does to the
//! status and to local storage.

use vstd::prelude::*;
use crate::merge::{apply_incoming_changes, merged};
use crate::store::{store_wf, LocalStore, StoreView};
use crate::sync_types::{SyncResponse, SyncStatus};

verus! {

/// Decides when sync attempts start and records how they end. Times are
/// whole seconds on a clock the caller supplies.
pub struct SyncScheduler {
    /// An attempt is in flight
    pub in_progress: bool,
    /// No attempt has started since start-up
    pub needs_initial_sync: bool,
    /// When the last attempt started
    pub last_attempt: u64,
    /// Local data changed since the last attempt started
    pub pending: bool,
    /// The user asked for a sync
    pub requested: bool,
    /// Status for display
    pub status: SyncStatus,
}

/// The configured interval has elapsed since the last attempt.
pub open spec fn interval_elapsed(s: SyncScheduler, now: u64, interval: u64) -> bool {
    interval > 0 && now >= s.last_attempt && now - s.last_attempt >= interval
}

/// An attempt starts now: sync is switched on and configured, none is in
/// flight, and there is a reason: start-up, a user request, a local change,
/// or the interval having elapsed.
pub open spec fn should_start(s: SyncScheduler, now: u64, enabled: bool, interval: u64) -> bool {
    enabled && !s.in_progress && (s.needs_initial_sync || s.requested || s.pending
        || interval_elapsed(s, now, interval))
}

/// The decimal digit for `d` (0 to 9).
pub open spec fn digit_char(d: int) -> char {
    "0123456789"@[d]
}

/// The decimal text of `n`, without leading zeros.
pub open spec fn decimal_text(n: nat) -> Seq<char>
    decreases n,
{
    if n < 10 {
        seq![digit_char(n as int)]
    } else {
        decimal_text(n / 10) + seq![digit_char((n % 10) as int)]
    }
}

/// The status text after a successful sync that applied `applied` records.
pub open spec fn success_text(applied: nat) -> Seq<char> {
    if applied > 0 {
        "Synced ("@ + decimal_text(applied) + " changes applied)"@
    } else {
        "Synced"@
    }
}

/// The status text after a failed sync with error `e`.
pub open spec fn failure_text(e: Seq<char>) -> Seq<char> {
    "Sync failed: "@ + e
}

/// The decimal text of `n` (see `decimal_text`).
pub fn decimal(n: usize) -> (r: String)
    ensures
        r@ == decimal_text(n as nat),
    decreases n,
{
    proof {
        reveal_strlit("0123456789");
    }
    let digits = "0123456789";
    let d = n % 10;
    let piece = digits.substring_char(d, d + 1);
    assert(piece@ =~= seq![digit_char(d as int)]);
    if n < 10 {
        String::from_str(piece)
    } else {
        let head = decimal(n / 10);
        head.concat(piece)
    }
}

/// The status text after a successful sync (see `success_text`).
pub fn success_message(applied: usize) -> (r: String)
    ensures
        r@ == success_text(applied as nat),
{
    if applied > 0 {
        let n = decimal(applied);
        String::from_str("Synced (").concat(n.as_str()).concat(" changes applied)")
    } else {
        String::from_str("Synced")
    }
}

/// The status text after a failed sync (see `failure_text`).
pub fn failure_message(e: &str) -> (r: String)
    ensures
        r@ == failure_text(e@),
{
    String::from_str("Sync failed: ").concat(e)
}

/// What the end of an attempt tells the caller.
pub struct SyncCompletion {
    /// How many records were applied (None after a failure)
    pub applied: Option<usize>,
    /// In-memory views must be reloaded from local storage
    pub refresh: bool,
    /// The status text to show
    pub message: String,
}

impl SyncScheduler {
    /// The scheduler at process start, at time `now`; with sync switched on,
    /// the first poll starts an attempt.
    pub fn new(now: u64, enabled: bool) -> (r: SyncScheduler)
        ensures
            !r.in_progress,
            r.needs_initial_sync == enabled,
            r.last_attempt == now,
            !r.pending,
            !r.requested,
            !r.status.syncing,
            r.status.last_sync.is_none(),
            r.status.last_error.is_none(),
    {
        SyncScheduler {
            in_progress: false,
            needs_initial_sync: enabled,
            last_attempt: now,
            pending: false,
            requested: false,
            status: SyncStatus::new(),
        }
    }

    /// The user asks for a sync.
    pub fn request(&mut self)
        ensures
            *final(self) == (SyncScheduler { requested: true, ..*old(self) }),
    {
        self.requested = true;
    }

    /// Local data changed; remembered only while sync is switched on.
    pub fn mark_sync_pending(&mut self, enabled: bool)
        ensures
            *final(self) == (SyncScheduler { pending: old(self).pending || enabled, ..*old(self) }),
    {
        if enabled {
            self.pending = true;
        }
    }

    /// Decides whether an attempt starts at `now` (see `should_start`). If it
    /// does, the scheduler goes in flight, clears the request and the pending
    /// change, and notes `now` as the last attempt; otherwise nothing changes.
    pub fn poll(&mut self, now: u64, enabled: bool, interval: u64) -> (start: bool)
        ensures
            start == should_start(*old(self), now, enabled, interval),
            start ==> *final(self) == (SyncScheduler {
                in_progress: true,
                needs_initial_sync: false,
                last_attempt: now,
                pending: false,
                requested: false,
                status: SyncStatus { syncing: true, ..old(self).status },
            }),
            !start ==> *final(self) == *old(self),
    {
        let elapsed = interval > 0 && now >= self.last_attempt && now - self.last_attempt >= interval;
        let start = enabled && !self.in_progress && (self.needs_initial_sync || self.requested
            || self.pending || elapsed);
        if start {
            self.in_progress = true;
            self.needs_initial_sync = false;
            self.last_attempt = now;
            self.pending = false;
            self.requested = false;
            self.status.syncing = true;
        }
        start
    }

    /// Records the end of the attempt in flight. On success the response is
    /// merged into `store` and then its server time becomes the watermark,
    /// the error is cleared, the number of applied records is returned, a
    /// refresh of in-memory views is asked for, and the status text is
    /// "Synced" or "Synced (n changes applied)". On failure the error is
    /// kept, `store`, watermark included, is left exactly as it was, nothing
    /// needs refreshing, and the status text is "Sync failed: <error>".
    /// Either way the scheduler is ready for the next attempt.
    pub fn complete(&mut self, store: &mut LocalStore, outcome: Result<SyncResponse, String>) -> (c: SyncCompletion)
        requires
            store_wf(old(store)@),
        ensures
            !final(self).in_progress,
            !final(self).status.syncing,
            final(self).needs_initial_sync == old(self).needs_initial_sync,
            final(self).last_attempt == old(self).last_attempt,
            final(self).pending == old(self).pending,
            final(self).requested == old(self).requested,
            store_wf(final(store)@),
            match outcome {
                Ok(resp) => {
                    &&& final(store)@ == (StoreView {
                        last_sync: Some(resp.server_time),
                        ..merged(old(store)@, resp.changes@)
                    })
                    &&& c.applied == Some(resp.changes@.len() as usize)
                    &&& c.refresh
                    &&& c.message@ == success_text(resp.changes@.len())
                    &&& final(self).status.last_sync == Some(resp.server_time)
                    &&& final(self).status.last_error.is_none()
                },
                Err(e) => {
                    &&& final(store)@ == old(store)@
                    &&& c.applied.is_none()
                    &&& !c.refresh
                    &&& c.message@ == failure_text(e@)
                    &&& final(self).status.last_sync == old(self).status.last_sync
                    &&& final(self).status.last_error == Some(e)
                },
            },
    {
        self.in_progress = false;
        self.status.syncing = false;
        match outcome {
            Ok(resp) => {
                let server_time = resp.server_time;
                let n = apply_incoming_changes(store, resp);
                store.set_last_sync(server_time);
                self.status.last_sync = Some(server_time);
                self.status.last_error = None;
                SyncCompletion { applied: Some(n), refresh: true, message: success_message(n) }
            },
            Err(e) => {
                let message = failure_message(e.as_str());
                self.status.last_error = Some(e);
                SyncCompletion { applied: None, refresh: false, message }
            },
        }
    }
}

} // verus!
