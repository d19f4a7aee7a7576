//! Usage statistics of a state backend: counters of operations and bytes for
//! each kind of backend activity, and their fixed-layout byte encoding.

pub mod clock;
pub mod scale;
pub mod usage_info;

pub use crate::usage_info::{DecodeError, Field, InstantWithDefault, UsageInfo, UsageUnit};

use vstd::prelude::*;

verus! {

/// Counts that a state machine gathered while it ran on top of a backend.
#[derive(Clone, Debug)]
pub struct StateMachineStats {
    /// Number of reads of values that the overlay had modified.
    pub reads_modified: u64,
    /// Bytes handed out by those reads.
    pub bytes_read_modified: u64,
    /// Number of writes into the change overlay.
    pub writes_overlay: u64,
    /// Bytes taken by those writes.
    pub bytes_writes_overlay: u64,
}

} // verus!
