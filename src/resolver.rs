use vstd::prelude::*;

use crate::error::FederationError;
use crate::uri::Uri;

verus! {

/// How long a fetched user stays fresh, in seconds.
pub const USER_FRESHNESS_SECS: u64 = 3600;

/// How many redirects a fetch follows.
pub const MAX_REDIRECTS: u64 = 3;

/// How long a permanent fetch failure is remembered, in seconds.
pub const NEGATIVE_CACHE_SECS: u64 = 60;

/// How deep references are resolved transitively.
pub const MAX_RESOLVE_DEPTH: u64 = 4;

/// The kinds of object that the resolver stores.
#[derive(Clone, Copy, Debug, PartialEq, Eq, Structural)]
pub enum ObjectKind {
    User,
    Post,
    Follow,
    Like,
}

/// A stored row is served without a fetch while fresh: a user for an hour
/// after it was fetched, any other object forever once stored.
pub open spec fn is_fresh_spec(kind: ObjectKind, last_fetched_at: Option<u64>, now: u64) -> bool {
    match last_fetched_at {
        None => false,
        Some(t) => kind != ObjectKind::User || (t <= now && now - t < USER_FRESHNESS_SECS),
    }
}

pub fn is_fresh(kind: ObjectKind, last_fetched_at: Option<u64>, now: u64) -> (r: bool)
    ensures
        r == is_fresh_spec(kind, last_fetched_at, now),
{
    match last_fetched_at {
        None => false,
        Some(t) => match kind {
            ObjectKind::User => t <= now && now - t < USER_FRESHNESS_SECS,
            _ => true,
        },
    }
}

/// Whether a fetch that has followed `hops` redirects may follow one more,
/// from `from` to `to`: at most three, and never onto another domain.
pub fn redirect_allowed(hops: u64, from: &Uri, to: &Uri) -> (r: bool)
    ensures
        r == (hops < MAX_REDIRECTS && from@.1 == to@.1),
{
    hops < MAX_REDIRECTS && from.same_domain(to)
}

/// Origin authority on a fetched object: the payload's id must lie on the
/// requested URI's domain.
pub fn check_fetched_origin(requested: &Uri, payload_id: &Uri) -> (r: Result<(), FederationError>)
    ensures
        r is Ok <==> requested@.1 == payload_id@.1,
        r is Err ==> r == Err::<(), FederationError>(FederationError::BadRequest),
{
    if requested.same_domain(payload_id) {
        Ok(())
    } else {
        Err(FederationError::BadRequest)
    }
}

/// Whether an object found at transitive depth `depth` is expanded, rather
/// than stored by its URI alone.
pub fn expands_at(depth: u64) -> (r: bool)
    ensures
        r == (depth < MAX_RESOLVE_DEPTH),
{
    depth < MAX_RESOLVE_DEPTH
}

/// How a failed fetch is treated.
#[derive(Clone, Copy, Debug, PartialEq, Eq, Structural)]
pub enum FetchFailure {
    /// A network error or a server error: try again later.
    Transient,
    /// A 4xx answer: remembered for a short while.
    Permanent,
}

/// Classifies a failed fetch by the status that came back, `None` where the
/// network failed.
pub fn classify_fetch_failure(status: Option<u16>) -> (r: FetchFailure)
    ensures
        r == (match status {
            Some(s) => if 400 <= s < 500 {
                FetchFailure::Permanent
            } else {
                FetchFailure::Transient
            },
            None => FetchFailure::Transient,
        }),
{
    match status {
        Some(s) => if 400 <= s && s < 500 {
            FetchFailure::Permanent
        } else {
            FetchFailure::Transient
        },
        None => FetchFailure::Transient,
    }
}

/// Whether a permanent failure recorded at `cached_at` still answers for the
/// URI at `now`.
pub fn negative_entry_live(cached_at: u64, now: u64) -> (r: bool)
    ensures
        r == (cached_at <= now && now - cached_at < NEGATIVE_CACHE_SECS),
{
    cached_at <= now && now - cached_at < NEGATIVE_CACHE_SECS
}

/// What to do about a signature after a check against a key.
#[derive(Clone, Copy, Debug, PartialEq, Eq, Structural)]
pub enum SignatureStep {
    Accept,
    /// Fetch the key again and check once more.
    RefetchKey,
    Reject,
}

/// The signature check with one forced key refresh: a check against the
/// cached key that fails leads to one refetch, and a check against the
/// refreshed key is final.
pub fn signature_step(verified: bool, key_refreshed: bool) -> (r: SignatureStep)
    ensures
        verified ==> r == SignatureStep::Accept,
        !verified && !key_refreshed ==> r == SignatureStep::RefetchKey,
        !verified && key_refreshed ==> r == SignatureStep::Reject,
{
    if verified {
        SignatureStep::Accept
    } else if key_refreshed {
        SignatureStep::Reject
    } else {
        SignatureStep::RefetchKey
    }
}

} // verus!
