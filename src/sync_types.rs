//! Records exchanged with the sync server, and the status shown to the user.

use vstd::prelude::*;
use crate::models::{List, Tag, Task, Timestamp};

verus! {

/// Kind of record named by a tombstone.
#[derive(Debug, Clone, Copy, PartialEq, Eq, Structural, Hash)]
pub enum RecordType {
    Task,
    List,
    Tag,
    TaskTag,
}

/// The record kind that a stored tombstone label stands for: "list" and
/// "tag" name those kinds; every other label, unknown ones included, is
/// read as a task.
pub open spec fn record_type_of_label(label: Seq<char>) -> RecordType {
    if label == "list"@ {
        RecordType::List
    } else if label == "tag"@ {
        RecordType::Tag
    } else {
        RecordType::Task
    }
}

impl RecordType {
    /// Reads the kind label of a stored tombstone (see `record_type_of_label`).
    pub fn from_label(label: &String) -> (r: RecordType)
        ensures
            r == record_type_of_label(label@),
    {
        if *label == String::from_str("list") {
            RecordType::List
        } else if *label == String::from_str("tag") {
            RecordType::Tag
        } else {
            RecordType::Task
        }
    }
}

/// Link between a task and a tag (junction-table row on the wire).
#[derive(Debug, Clone, Copy, PartialEq, Eq, Structural, Hash)]
pub struct TaskTagLink {
    pub task_id: u128,
    pub tag_id: u128,
    pub created_at: Timestamp,
}

/// A record that travels between a client and the sync server.
#[derive(Debug, Clone)]
pub enum SyncRecord {
    Task(Task),
    List(List),
    Tag(Tag),
    TaskTag(TaskTagLink),
    /// Tombstone for a deleted record
    Deleted { id: u128, record_type: RecordType, deleted_at: Timestamp },
}

/// Request sent to the sync server.
#[derive(Debug, Clone)]
pub struct SyncRequest {
    /// Device identifier (for conflict attribution)
    pub device_id: u128,
    /// Time of the last successful sync (None = full sync)
    pub last_sync: Option<Timestamp>,
    /// Changes from this client since the last sync
    pub changes: Vec<SyncRecord>,
}

/// Response from the sync server.
#[derive(Debug, Clone)]
pub struct SyncResponse {
    /// Server time of this sync; the new watermark on success
    pub server_time: Timestamp,
    /// Changes to apply locally
    pub changes: Vec<SyncRecord>,
    /// Identifiers whose server value was kept over a local one
    pub conflicts: Vec<u128>,
}

/// Sync status for display.
#[derive(Debug, Clone)]
pub struct SyncStatus {
    /// Whether a sync is in progress
    pub syncing: bool,
    /// Time of the last successful sync
    pub last_sync: Option<Timestamp>,
    /// Last error message (if any)
    pub last_error: Option<String>,
    /// Number of pending local changes
    pub pending_changes: usize,
}

impl SyncStatus {
    /// The status at process start: idle, never synced, no error.
    pub fn new() -> (r: SyncStatus)
        ensures
            !r.syncing,
            r.last_sync.is_none(),
            r.last_error.is_none(),
            r.pending_changes == 0,
    {
        SyncStatus { syncing: false, last_sync: None, last_error: None, pending_changes: 0 }
    }

    /// Sync can be attempted only with both a server and a token.
    pub fn is_configured(server: &Option<String>, token: &Option<String>) -> (r: bool)
        ensures
            r == (server.is_some() && token.is_some()),
    {
        server.is_some() && token.is_some()
    }
}

impl Default for SyncStatus {
    fn default() -> (r: SyncStatus)
        ensures
            !r.syncing,
            r.last_sync.is_none(),
            r.last_error.is_none(),
            r.pending_changes == 0,
    {
        SyncStatus::new()
    }
}

} // verus!
