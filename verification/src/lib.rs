use vstd::prelude::*;

pub mod analysis;
pub mod job;
pub mod process;
pub mod rng;
pub mod simulator;
pub mod task;

verus! {

/// The error conditions this library reports instead of panicking.
#[derive(Clone, Copy, Debug, PartialEq, Eq, Structural)]
pub enum SchedError {
    /// Task timing parameters are rejected at construction.
    InvalidParameters,
    /// A job reached a release-time or deadline computation without an instance number.
    UninstancedJob,
    /// A job was asked to compute while it was not in progress.
    InvalidState,
    /// The simulator was started without a processor or without generated jobs.
    NotReady,
}

} // verus!
