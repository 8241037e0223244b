//! Error taxonomy of the worker.
//!
//! A request can fail for three distinguishable reasons, and the
//! classification decides the response shape: a malformed query string
//! is the caller's fault, everything else is a generic server error.

use vstd::prelude::*;

verus! {

/// Failure of query-string normalization. A `Parse` error is caused by
/// malformed input and surfaces as a client error; `Other` is any other
/// normalization failure and surfaces as a generic server error.
#[derive(Clone, Copy, Debug, PartialEq, Eq, Structural)]
pub enum QueryError {
    Parse,
    Other,
}

/// Failure of a cache-store operation. `Connectivity` stands for a store
/// that cannot be reached; `FutureTimestamp` is a failed elapsed-time
/// computation, found when a stored row claims to be newer than the
/// current clock reading. Neither is ever conflated with "no entry".
#[derive(Clone, Copy, Debug, PartialEq, Eq, Structural)]
pub enum StoreError {
    Connectivity,
    FutureTimestamp,
}

/// Opaque failure of a feed generator: the plugin could not produce
/// content for the canonical key it was given.
#[derive(Clone, Copy, Debug, PartialEq, Eq, Structural)]
pub struct GenerationError;

} // verus!
