//! How an attempt at the upstream ended.

use vstd::prelude::*;

verus! {

/// The status with which the upstream rejects a credential for good.
pub const UNAUTHORIZED: u16 = 401;

/// The status with which the upstream asks a credential to slow down.
pub const TOO_MANY_REQUESTS: u16 = 429;

/// How an attempt ended, as far as the pool and the retry policy are
/// concerned.
#[derive(Clone, Copy, Debug, PartialEq, Eq, Structural)]
pub enum Outcome {
    /// The upstream answered with this status code.
    Status(u16),
    /// The attempt failed before any response arrived.
    TransportError,
}

impl Outcome {
    /// A response whose status is one of 200 to 299.
    pub open spec fn spec_is_success(self) -> bool {
        self matches Outcome::Status(code) && 200 <= code < 300
    }

    /// Whether the attempt ended in a response with a success status.
    #[verifier::when_used_as_spec(spec_is_success)]
    pub fn is_success(self) -> (r: bool)
        ensures
            r == self.spec_is_success(),
    {
        match self {
            Outcome::Status(code) => 200 <= code && code < 300,
            Outcome::TransportError => false,
        }
    }
}

} // verus!
