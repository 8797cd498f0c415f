//! Application configuration and its defaults.

use vstd::prelude::*;
use crate::client::SyncConfig;

verus! {

/// Whether completed tasks are shown by default.
pub fn default_show_completed() -> (r: bool)
    ensures
        r,
{
    true
}

/// The default date format.
pub fn default_date_format() -> (r: String)
    ensures
        r@ == "%Y-%m-%d"@,
{
    String::from_str("%Y-%m-%d")
}

/// Whether vim-like keys are on by default.
pub fn default_vim_mode() -> (r: bool)
    ensures
        r,
{
    true
}

/// Whether desktop notifications are on by default.
pub fn default_notifications() -> (r: bool)
    ensures
        r,
{
    true
}

/// Application configuration.
#[derive(Debug, Clone)]
pub struct Config {
    /// Show completed tasks
    pub show_completed: bool,
    /// Default list for new tasks (None = inbox)
    pub default_list_id: Option<String>,
    /// Date format string
    pub date_format: String,
    /// Vim-like keybindings
    pub vim_mode: bool,
    /// Desktop notifications for due tasks
    pub notifications: bool,
    /// Sync configuration
    pub sync: SyncConfig,
}

impl Default for Config {
    fn default() -> (r: Config)
        ensures
            r.show_completed,
            r.default_list_id.is_none(),
            r.date_format@ == "%Y-%m-%d"@,
            r.vim_mode,
            r.notifications,
            !r.sync.enabled,
            r.sync.server.is_none(),
            r.sync.token.is_none(),
            r.sync.interval_secs == 0,
    {
        Config {
            show_completed: default_show_completed(),
            default_list_id: None,
            date_format: default_date_format(),
            vim_mode: default_vim_mode(),
            notifications: default_notifications(),
            sync: SyncConfig::default(),
        }
    }
}

} // verus!
