//! What is kept of the caches, and for how long.
use vstd::prelude::*;

verus! {

/// What is kept of the cached notes. By default nearly everything is kept, so
/// that old notes are found at once without the network; only a hard cap on
/// each account's notes guards against runaway growth.
#[derive(Debug, Clone)]
pub struct EvictionConfig {
    /// The most notes that each account keeps; no cap where there is none.
    pub per_account_limit: Option<i64>,
    /// The days after which a note that was not cached again is removed; never
    /// where there is none.
    pub ttl_days: Option<i64>,
}

impl Default for EvictionConfig {
    fn default() -> (r: Self)
        ensures
            r.per_account_limit == Some(1_000_000i64),
            r.ttl_days is None,
    {
        EvictionConfig { per_account_limit: Some(1_000_000), ttl_days: None }
    }
}

/// What is kept of the cached chat messages, set apart from what is kept of the
/// notes, with the same defaults.
#[derive(Debug, Clone)]
pub struct ChatEvictionConfig {
    /// The most messages that each account keeps; no cap where there is none.
    pub per_account_limit: Option<i64>,
    /// The days after which a message that was not cached again is removed;
    /// never where there is none.
    pub ttl_days: Option<i64>,
}

impl Default for ChatEvictionConfig {
    fn default() -> (r: Self)
        ensures
            r.per_account_limit == Some(1_000_000i64),
            r.ttl_days is None,
    {
        ChatEvictionConfig { per_account_limit: Some(1_000_000), ttl_days: None }
    }
}

} // verus!
