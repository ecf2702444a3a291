//! Decisions of the transfer path: memory type matching for staging
//! resources and the access mask owed for an image layout.
//!
//! The transfer machinery itself, recording and submitting device copy
//! commands, belongs to the embedding program; the functions here are the
//! rules it consults.

use vstd::prelude::*;

use crate::dust_errors::DustError;
use crate::object_store::is_match_result;

verus! {

/// Raw value of the shader-read-only-optimal image layout.
pub const IMAGE_LAYOUT_SHADER_READ_ONLY_OPTIMAL: i32 = 5;

/// Input attachment read access.
pub const ACCESS2_INPUT_ATTACHMENT_READ: u64 = 0x10;

/// Shader read access.
pub const ACCESS2_SHADER_READ: u64 = 0x20;

/// Color attachment read access.
pub const ACCESS2_COLOR_ATTACHMENT_READ: u64 = 0x80;

/// Sampled-image shader read access.
pub const ACCESS2_SHADER_SAMPLED_READ: u64 = 0x1_0000_0000;

/// Storage-image shader read access.
pub const ACCESS2_SHADER_STORAGE_READ: u64 = 0x2_0000_0000;

/// The access mask owed for an image layout: every shader read access for
/// the shader-read-only-optimal layout, no access otherwise.
pub open spec fn spec_access_flags_for_layout(layout: i32) -> u64 {
    if layout == IMAGE_LAYOUT_SHADER_READ_ONLY_OPTIMAL {
        ACCESS2_INPUT_ATTACHMENT_READ | ACCESS2_SHADER_READ | ACCESS2_COLOR_ATTACHMENT_READ
            | ACCESS2_SHADER_SAMPLED_READ | ACCESS2_SHADER_STORAGE_READ
    } else {
        0
    }
}

/// The access mask a memory barrier owes for the given image layout.
pub fn map_access_flags(layout: i32) -> (r: u64)
    ensures
        r == spec_access_flags_for_layout(layout),
{
    if layout == IMAGE_LAYOUT_SHADER_READ_ONLY_OPTIMAL {
        ACCESS2_INPUT_ATTACHMENT_READ | ACCESS2_SHADER_READ | ACCESS2_COLOR_ATTACHMENT_READ
            | ACCESS2_SHADER_SAMPLED_READ | ACCESS2_SHADER_STORAGE_READ
    } else {
        0
    }
}

/// The least memory type index among `memory_types` (their capability
/// flag sets, as the device reports them, at most 32) that is eligible
/// under `filter` and whose flags include all of `matcher`.
pub fn match_memory_type(memory_types: &Vec<u32>, filter: u32, matcher: u32) -> (r: Result<
    u32,
    DustError,
>)
    requires
        memory_types@.len() <= 32,
    ensures
        match r {
            Ok(i) => is_match_result(memory_types@, filter, matcher, Ok(i as usize)),
            Err(e) => is_match_result(memory_types@, filter, matcher, Err(e)),
        },
{
    let n = memory_types.len();
    let mut index: usize = 0;
    while index < n
        invariant
            n == memory_types@.len(),
            n <= 32,
            index <= n,
            forall|j: int|
                0 <= j < index ==> !crate::object_store::type_eligible(
                    memory_types@,
                    filter,
                    matcher,
                    j,
                ),
        decreases n - index,
    {
        let bit: u32 = 1u32 << (index as u32);
        if (filter & bit) == bit && (memory_types[index] & matcher) == matcher {
            return Ok(index as u32);
        }
        index += 1;
    }
    Err(DustError::NoMatchingMemoryType)
}

} // verus!
