//! Process-lifetime configuration, fixed at startup.

use vstd::prelude::*;

verus! {

/// Immutable-after-startup settings shared by every component.  The
/// channels and storage handles that sit beside these in the running
/// process are wired up outside the library.
pub struct Config {
    /// Address to listen on.
    pub ip: String,
    /// Port to listen on.
    pub port: u16,
    /// Page-cache memory limit in bytes.
    pub mem_limit: u64,
    /// Master role: not replicating another server.
    pub is_master: bool,
    /// Master base URL to replicate from; empty on the master itself.
    pub replicate_source: String,
    /// Credential echoed verbatim as a Cookie header on replication fetches.
    pub replicate_credentials: String,
}

impl Config {
    /// Settle the startup parameters: the role is master exactly when no
    /// replication source was given, and the cache limit is `mem_mb`
    /// megabytes.
    pub fn new(ip: String, port: u16, mem_mb: u64, rep: String, login: String) -> (c: Config)
        requires
            1 <= port,
            mem_mb <= u64::MAX / 1_000_000,
        ensures
            c.ip == ip,
            c.port == port,
            c.mem_limit == mem_mb * 1_000_000,
            c.is_master == (rep@.len() == 0),
            c.replicate_source == rep,
            c.replicate_credentials == login,
    {
        let is_master = rep.as_str().is_empty();
        Config {
            ip,
            port,
            mem_limit: mem_mb * 1_000_000,
            is_master,
            replicate_source: rep,
            replicate_credentials: login,
        }
    }
}

} // verus!
