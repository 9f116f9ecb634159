//! The administrative commands of the command line.
use vstd::prelude::*;

verus! {

/// Manage API keys in the pool.
#[derive(Debug)]
pub enum KeyAction {
    /// Add an API key to the pool: provider (firecrawl | tavily), the key value, and an
    /// optional account/team tag (firecrawl limits are per-team; same-team keys don't help
    /// rotation).
    Add { provider: String, key: String, account: Option<String> },
    /// List all keys and their status.
    List,
    /// Remove a key by id.
    Remove { id: i64 },
}

/// Manage user tokens (mode B).
#[derive(Debug)]
pub enum UserAction {
    /// Create a user token.
    Create { name: Option<String> },
    /// List users.
    List,
    /// Revoke a user token.
    Revoke { token: String },
}

} // verus!
