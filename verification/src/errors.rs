use vstd::prelude::*;

verus! {

/// Why a pool operation was rejected. Every failure aborts the whole call
/// with no state change; none is retried internally.
#[derive(Clone, Copy, Debug, PartialEq, Eq, Structural)]
pub enum AmmError {
    /// The pool has no administrative authority recorded.
    NoAuthoritySet,
    /// The presented identity does not match the recorded authority.
    InvalidAuthority,
    /// A quantity was zero or otherwise malformed.
    InvalidAmount,
    /// Trading on this pool is disabled.
    PoolLocked,
    /// The quoted output fell below the caller's floor.
    SlippageExceeded,
    /// A reserve was empty, or a balance could not cover a withdrawal.
    InsufficientLiquidity,
    /// Settlement arithmetic would overflow a balance.
    MathOverflow,
}

} // verus!
