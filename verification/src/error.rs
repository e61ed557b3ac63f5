//! The failures the cache reports. Absence of a key is never one of them.

use vstd::prelude::*;

verus! {

/// Why a write was refused.
#[derive(Debug, Clone, Copy, PartialEq, Eq, Structural)]
pub enum InsertError {
    /// The store was full and yet held nothing to evict.
    InvariantViolation,
}

/// Why a compute-if-absent call returned no value.
#[derive(Debug, PartialEq, Eq)]
pub enum ComputeError<E> {
    /// The computed value could not be stored: the store was full and yet
    /// held nothing to evict.
    InvariantViolation,
    /// The caller's computation failed; its own error is carried unchanged.
    ComputationFailure(E),
}

} // verus!
