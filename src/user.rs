use vstd::prelude::*;

verus! {

/// A user row, local or remote. Times are seconds since the Unix epoch; the
/// three counters are a cache of the follow and post tables.
pub struct Model {
    pub id: u128,
    pub created_at: u64,
    pub updated_at: Option<u128>,
    pub last_fetched_at: Option<u128>,
    pub handle: String,
    pub name: String,
    pub follower_count: u64,
    pub following_count: u64,
    pub post_count: u64,
    pub avatar_id: Option<String>,
    pub banner_id: Option<String>,
    pub is_bot: bool,
    pub host: String,
    pub inbox: String,
    pub shared_inbox: String,
    pub uri: String,
    /// The actor answered 410 Gone: nothing is delivered to it any more.
    pub tombstoned: bool,
}

/// The rows that a user row points to or is pointed to by.
#[derive(Clone, Copy, Debug, PartialEq, Eq, Structural)]
pub enum Relation {
    /// The avatar file.
    File2,
    /// The banner file.
    File1,
    /// The user's posts.
    Post,
}

} // verus!
