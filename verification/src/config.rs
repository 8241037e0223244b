//! Process-wide serving configuration, passed into the worker
//! explicitly so that every decision is a function of its arguments.

use vstd::prelude::*;

verus! {

/// How the process serves requests. In `Dev` mode every cache read is
/// skipped, so each request is a forced miss; cache writes still occur.
#[derive(Clone, Copy, Debug, PartialEq, Eq, Structural)]
pub enum ServeMode {
    Dev,
    Production,
}

} // verus!
