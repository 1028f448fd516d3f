use vstd::prelude::*;

verus! {

/// The error kinds that the federation engine surfaces to the HTTP layer.
#[derive(Clone, Copy, Debug, PartialEq, Eq, Structural)]
pub enum FederationError {
    /// Malformed activity, domain mismatch or bad signature format.
    BadRequest,
    /// The signature did not verify against the claimed key.
    Unauthorized,
    /// A referenced local resource is absent.
    NotFound,
    /// An invariant would be broken by an upsert.
    Conflict,
    /// A peer answered with an unexpected status or was unreachable.
    Upstream,
    /// A database or I/O failure.
    Internal,
}

impl FederationError {
    /// The HTTP status code that the error maps to.
    pub fn status(&self) -> (r: u16)
        ensures
            r == self.status_spec(),
    {
        match self {
            FederationError::BadRequest => 400,
            FederationError::Unauthorized => 401,
            FederationError::NotFound => 404,
            FederationError::Conflict => 409,
            FederationError::Upstream => 502,
            FederationError::Internal => 500,
        }
    }

    pub open spec fn status_spec(&self) -> u16 {
        match self {
            FederationError::BadRequest => 400,
            FederationError::Unauthorized => 401,
            FederationError::NotFound => 404,
            FederationError::Conflict => 409,
            FederationError::Upstream => 502,
            FederationError::Internal => 500,
        }
    }
}

} // verus!
