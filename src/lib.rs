//! Federation engine of a single-owner ActivityPub node: URI authority checks,
//! the local state projection of follows and reactions, the inbound pipeline's
//! decisions and the outbound delivery policy.

pub mod codec;
pub mod config;
pub mod delivery;
pub mod error;
pub mod inbox;
pub mod keys;
pub mod like;
pub mod resolver;
pub mod store;
pub mod user;
pub mod uri;
