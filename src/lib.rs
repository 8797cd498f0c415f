//! Task manager core: the data model, an in-memory local store, and the
//! synchronisation subsystem (change sets, merge, the client side of an
//! exchange, and scheduling), with laws proved about merging and change sets.

pub mod changes;
pub mod client;
pub mod config;
pub mod export;
pub mod keyed;
pub mod laws;
pub mod lookup;
pub mod merge;
pub mod models;
pub mod reminders;
pub mod scheduler;
pub mod sources;
pub mod store;
pub mod sync_types;
pub mod ui_state;
pub mod update;

pub use client::{SyncClient, SyncConfig};
pub use config::Config;
pub use models::{ExportFormat, List, Priority, Tag, Task};
pub use sync_types::{SyncRecord, SyncRequest, SyncResponse, SyncStatus};
pub use update::{PackageManager, VersionCheck};
