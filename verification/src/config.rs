//! The persisted application configuration's shape and defaults; reading
//! and writing it is the surrounding application's business.

use vstd::prelude::*;

verus! {

/// The persisted configuration: the credential and the poll interval.
#[derive(Debug, Clone)]
pub struct AppConfig {
    pub github_pat: String,
    pub poll_interval_ms: u64,
}

/// The poll interval used until one is configured: one minute.
pub fn default_poll_interval() -> (r: u64)
    ensures
        r == 60000,
{
    60000
}

impl Default for AppConfig {
    /// An empty credential and the default poll interval.
    fn default() -> (c: AppConfig)
        ensures
            c.github_pat@.len() == 0,
            c.poll_interval_ms == 60000,
    {
        AppConfig { github_pat: String::new(), poll_interval_ms: default_poll_interval() }
    }
}

} // verus!
