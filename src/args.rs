//! The program's settings.

use vstd::prelude::*;

verus! {

/// Where to connect, what to load, and how the learning pipeline runs.
pub struct Args {
    pub homeserver: String,
    pub username: String,
    pub password: String,
    pub config: Vec<String>,
    pub rooms: Vec<String>,
    /// Time units between two drain cycles.
    pub delay: u64,
    /// Where accepted entries are logged, if anywhere.
    pub cache_file: Option<String>,
    /// Submitters who bypass the vote; `None` or empty trusts everyone.
    pub allow_users: Option<Vec<String>>,
    /// The conversation where ballots are announced.
    pub vote_room: Option<String>,
    /// Time units a ballot stays open.
    pub vote_delay: u64,
}

} // verus!
