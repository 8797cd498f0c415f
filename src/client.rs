//! The client side of one sync exchange: configuration, device identity,
//! the outgoing request, and the status kept from each attempt's outcome.

use vstd::prelude::*;
use crate::models::Timestamp;
use crate::sync_types::{SyncRecord, SyncRequest, SyncResponse, SyncStatus};

verus! {

/// The default interval between automatic syncs, in seconds.
pub fn default_sync_interval() -> (r: u64)
    ensures
        r == 300,
{
    300
}

/// Sync configuration.
#[derive(Debug, Clone)]
pub struct SyncConfig {
    /// Whether sync is switched on
    pub enabled: bool,
    /// Sync server base URL (e.g. "https://sync.example.com")
    pub server: Option<String>,
    /// API token for authentication
    pub token: Option<String>,
    /// Interval between automatic syncs in seconds (0 = manual only)
    pub interval_secs: u64,
}

impl Default for SyncConfig {
    fn default() -> (r: SyncConfig)
        ensures
            !r.enabled,
            r.server.is_none(),
            r.token.is_none(),
            r.interval_secs == 0,
    {
        SyncConfig { enabled: false, server: None, token: None, interval_secs: 0 }
    }
}

/// Sync may run: it is switched on and both a server and a token are set.
pub open spec fn config_ready(c: SyncConfig) -> bool {
    c.enabled && c.server.is_some() && c.token.is_some()
}

/// `s` without its trailing '/' characters.
pub open spec fn trim_trailing_slashes(s: Seq<char>) -> Seq<char>
    decreases s.len(),
{
    if s.len() > 0 && s.last() == '/' {
        trim_trailing_slashes(s.drop_last())
    } else {
        s
    }
}

/// The path of the sync endpoint under a server's base URL.
pub open spec fn sync_path() -> Seq<char> {
    "/api/v1/sync"@
}

/// The URL of the sync endpoint under base URL `server`.
pub open spec fn sync_url_of(server: Seq<char>) -> Seq<char> {
    trim_trailing_slashes(server) + sync_path()
}

/// The authorization header value for `token`.
pub open spec fn bearer_of(token: Seq<char>) -> Seq<char> {
    "Bearer "@ + token
}

/// The URL of the sync endpoint under base URL `server` (trailing slashes
/// of `server` are dropped).
pub fn sync_url(server: &str) -> (r: String)
    ensures
        r@ == sync_url_of(server@),
{
    let n = server.unicode_len();
    let mut k: usize = n;
    proof {
        assert(server@.subrange(0, n as int) =~= server@);
    }
    while k > 0 && server.get_char(k - 1) == '/'
        invariant
            k <= n == server@.len(),
            trim_trailing_slashes(server@.subrange(0, k as int)) == trim_trailing_slashes(server@),
        decreases k,
    {
        proof {
            assert(server@.subrange(0, k as int).drop_last() =~= server@.subrange(0, k - 1));
        }
        k -= 1;
    }
    let base = String::from_str(server.substring_char(0, k));
    proof {
        reveal_strlit("/api/v1/sync");
    }
    base.concat("/api/v1/sync")
}

/// The authorization header value for `token`.
pub fn bearer(token: &str) -> (r: String)
    ensures
        r@ == bearer_of(token@),
{
    String::from_str("Bearer ").concat(token)
}

/// Why a sync attempt failed.
#[derive(Debug, Clone, PartialEq, Eq)]
pub enum SyncError {
    /// Sync is switched off, or the server or token is missing; nothing was sent
    NotConfigured,
    /// The exchange itself failed (connection, timeout, status, malformed body)
    Transport(String),
}

/// The user-facing text of an error.
pub open spec fn error_text(e: SyncError) -> Seq<char> {
    match e {
        SyncError::NotConfigured => "Sync is not enabled or not configured"@,
        SyncError::Transport(m) => m@,
    }
}

impl SyncError {
    /// A message for the user (see `error_text`).
    pub fn message(&self) -> (r: String)
        ensures
            r@ == error_text(*self),
    {
        match self {
            SyncError::NotConfigured => String::from_str("Sync is not enabled or not configured"),
            SyncError::Transport(m) => m.clone(),
        }
    }
}

/// What to send for one sync exchange.
#[derive(Debug)]
pub struct Outgoing {
    /// Endpoint URL
    pub url: String,
    /// Authorization header value
    pub authorization: String,
    /// Request body
    pub request: SyncRequest,
}

/// Client for one sync server.
pub struct SyncClient {
    config: SyncConfig,
    device_id: u128,
    status: SyncStatus,
}

impl SyncClient {
    pub closed spec fn spec_config(&self) -> SyncConfig {
        self.config
    }

    pub closed spec fn spec_device_id(&self) -> u128 {
        self.device_id
    }

    pub closed spec fn spec_status(&self) -> SyncStatus {
        self.status
    }

    /// A client for `config` that identifies itself as `device_id`.
    pub fn new(config: SyncConfig, device_id: u128) -> (r: SyncClient)
        ensures
            r.spec_config() == config,
            r.spec_device_id() == device_id,
            !r.spec_status().syncing,
            r.spec_status().last_sync.is_none(),
            r.spec_status().last_error.is_none(),
            r.spec_status().pending_changes == 0,
    {
        SyncClient { config, device_id, status: SyncStatus::new() }
    }

    /// Whether sync is switched on and configured.
    pub fn is_enabled(&self) -> (r: bool)
        ensures
            r == config_ready(self.spec_config()),
    {
        self.config.enabled && self.config.server.is_some() && self.config.token.is_some()
    }

    /// The current status.
    pub fn status(&self) -> (r: &SyncStatus)
        ensures
            *r == self.spec_status(),
    {
        &self.status
    }

    /// Replace the configuration.
    pub fn update_config(&mut self, config: SyncConfig)
        ensures
            final(self).spec_config() == config,
            final(self).spec_device_id() == old(self).spec_device_id(),
            final(self).spec_status() == old(self).spec_status(),
    {
        self.config = config;
    }

    /// The device identifier sent with every request.
    pub fn device_id(&self) -> (r: u128)
        ensures
            r == self.spec_device_id(),
    {
        self.device_id
    }

    /// Starts an attempt: fails with `NotConfigured`, changing nothing, unless
    /// sync is switched on and configured; otherwise marks the client as
    /// syncing and returns what to send: the endpoint under the configured
    /// server, the bearer token, and a request carrying this device's
    /// identifier, `last_sync` and `changes`.
    pub fn begin_sync(&mut self, changes: Vec<SyncRecord>, last_sync: Option<Timestamp>) -> (r: Result<Outgoing, SyncError>)
        ensures
            final(self).spec_config() == old(self).spec_config(),
            final(self).spec_device_id() == old(self).spec_device_id(),
            !config_ready(old(self).spec_config()) ==> r == Err::<Outgoing, SyncError>(SyncError::NotConfigured)
                && final(self).spec_status() == old(self).spec_status(),
            config_ready(old(self).spec_config()) ==> r.is_ok() && final(self).spec_status() == (SyncStatus {
                syncing: true,
                ..old(self).spec_status()
            }),
            r matches Ok(o) ==> {
                &&& o.url@ == sync_url_of(old(self).spec_config().server.unwrap()@)
                &&& o.authorization@ == bearer_of(old(self).spec_config().token.unwrap()@)
                &&& o.request.device_id == old(self).spec_device_id()
                &&& o.request.last_sync == last_sync
                &&& o.request.changes@ == changes@
            },
    {
        if !self.is_enabled() {
            return Err(SyncError::NotConfigured);
        }
        let url = match &self.config.server {
            Some(s) => sync_url(s.as_str()),
            None => String::new(),
        };
        let authorization = match &self.config.token {
            Some(t) => bearer(t.as_str()),
            None => String::new(),
        };
        self.status.syncing = true;
        Ok(Outgoing {
            url,
            authorization,
            request: SyncRequest { device_id: self.device_id, last_sync, changes },
        })
    }

    /// Ends an attempt with its outcome: no longer syncing; on success the
    /// server time becomes the last sync time and the error is cleared; on
    /// failure the error's message is kept. The outcome is handed back.
    pub fn end_sync(&mut self, outcome: Result<SyncResponse, SyncError>) -> (r: Result<SyncResponse, SyncError>)
        ensures
            r == outcome,
            final(self).spec_config() == old(self).spec_config(),
            final(self).spec_device_id() == old(self).spec_device_id(),
            !final(self).spec_status().syncing,
            final(self).spec_status().pending_changes == old(self).spec_status().pending_changes,
            outcome matches Ok(resp) ==> final(self).spec_status().last_sync == Some(resp.server_time)
                && final(self).spec_status().last_error.is_none(),
            outcome matches Err(e) ==> final(self).spec_status().last_sync == old(self).spec_status().last_sync,
            outcome matches Err(e) ==> (final(self).spec_status().last_error matches Some(m) && m@ == error_text(e)),
    {
        self.status.syncing = false;
        match &outcome {
            Ok(resp) => {
                self.status.last_sync = Some(resp.server_time);
                self.status.last_error = None;
            },
            Err(e) => {
                self.status.last_error = Some(e.message());
            },
        }
        outcome
    }
}

} // verus!
