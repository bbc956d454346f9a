//! The records the shelf and book repositories hold.

use vstd::prelude::*;

verus! {

/// A shelf as stored: its internal id, the SHA-256 hash of its capability,
/// its lifecycle state (`active` or `expiring`), the revision of its visible
/// book collection, and its inactivity and hard expiry times in microseconds
/// since the Unix epoch.
#[derive(Debug, Clone)]
pub struct Shelf {
    pub id: String,
    pub token_hash: Vec<u8>,
    pub state: String,
    pub revision: i64,
    pub expires_at: i64,
    pub hard_expires_at: i64,
}

/// A shelf that the cleanup worker has to look at.
#[derive(Debug, Clone)]
pub struct CleanupShelf {
    pub id: String,
    pub state: String,
}

} // verus!
