//! Error values surfaced by the allocation entry points.

use vstd::prelude::*;

verus! {

/// Failure of an allocation entry point.
///
/// The two variants that carry an `i32` hold the raw result code the device
/// reported for the failed call.
#[derive(Debug, Clone, Copy, PartialEq, Eq, Structural)]
pub enum DustError {
    /// No device memory type is both eligible for the resource and a
    /// superset of the required capabilities.  Fatal; never retried.
    NoMatchingMemoryType,
    /// The device refused to allocate a new memory block.  Fatal; never
    /// retried, since the device is presumed exhausted.
    DeviceMemoryAllocationFailed(i32),
    /// The newest block of the matched memory type lacks room.  Recovered
    /// locally exactly once by growing the pool; surfaced only when the
    /// retry also fails.
    NoValidHeapForAllocation,
    /// A shader module could not be created from its compiled code.
    CreateShaderModuleFailed(i32),
}

} // verus!
