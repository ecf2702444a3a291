//! Device selection rules: which physical device to prefer and which of
//! its extensions to load.
//!
//! Of all the extensions a physical device reports, the engine loads only
//! the ones it actually uses; today that is the swapchain extension
//! alone.

use vstd::prelude::*;
use vstd::string::StrSliceExecFns;

verus! {

/// Raw value of the integrated GPU device type.
pub const DEVICE_TYPE_INTEGRATED_GPU: i32 = 1;

/// Raw value of the discrete GPU device type.
pub const DEVICE_TYPE_DISCRETE_GPU: i32 = 2;

/// Raw value of the CPU device type.
pub const DEVICE_TYPE_CPU: i32 = 4;

/// The preference score of a physical device: discrete GPUs beat
/// integrated ones, which beat plain CPUs; every other kind is out of
/// the running.  Known vendors add a small bonus on top.
pub open spec fn spec_device_score(device_type: i32, vendor_id: u32) -> int {
    let base: int = if device_type == DEVICE_TYPE_DISCRETE_GPU {
        10
    } else if device_type == DEVICE_TYPE_INTEGRATED_GPU {
        5
    } else if device_type == DEVICE_TYPE_CPU {
        1
    } else {
        0
    };
    let bonus: int = if vendor_id == 0x1002 || vendor_id == 0x1022 {
        5
    } else if vendor_id == 0x10de {
        3
    } else if vendor_id == 0x8086 {
        2
    } else {
        1
    };
    base + bonus
}

/// Score a physical device by its reported type and vendor id, higher
/// being preferred.
pub fn score_physical_device_properties(device_type: i32, vendor_id: u32) -> (score: usize)
    ensures
        score == spec_device_score(device_type, vendor_id),
{
    let base: usize = if device_type == DEVICE_TYPE_DISCRETE_GPU {
        10
    } else if device_type == DEVICE_TYPE_INTEGRATED_GPU {
        5
    } else if device_type == DEVICE_TYPE_CPU {
        1
    } else {
        0
    };
    let bonus: usize = if vendor_id == 0x1002 || vendor_id == 0x1022 {
        5
    } else if vendor_id == 0x10de {
        3
    } else if vendor_id == 0x8086 {
        2
    } else {
        1
    };
    base + bonus
}

/// Queue capability flag of graphics queues.
pub const QUEUE_GRAPHICS: u32 = 1;

/// Queue capability flag of compute queues.
pub const QUEUE_COMPUTE: u32 = 2;

/// Queue capability flag of transfer queues.
pub const QUEUE_TRANSFER: u32 = 4;

/// What the device reports of one queue family: its capability flags and
/// how many queues it offers.
#[derive(Debug, Clone, Copy, PartialEq, Eq, Structural)]
pub struct QueueFamily {
    /// Capability flags of the family's queues.
    pub queue_flags: u32,
    /// Number of queues the family offers.
    pub queue_count: u32,
}

/// Family `i` carries every included capability and none of the excluded
/// ones.
pub open spec fn family_selected(
    families: Seq<QueueFamily>,
    include_types: u32,
    exclude_types: u32,
    i: int,
) -> bool {
    &&& families[i].queue_flags & include_types == include_types
    &&& families[i].queue_flags & exclude_types == 0
}

/// The indices, in ascending order, of every queue family that carries
/// all of `include_types` and nothing of `exclude_types`.
pub fn select_queue_families(
    queue_families: &Vec<QueueFamily>,
    include_types: u32,
    exclude_types: u32,
) -> (r: Vec<u32>)
    requires
        queue_families@.len() <= u32::MAX,
    ensures
        forall|k: int|
            0 <= k < r@.len() ==> (#[trigger] r@[k]) < queue_families@.len() && family_selected(
                queue_families@,
                include_types,
                exclude_types,
                r@[k] as int,
            ),
        forall|k1: int, k2: int| 0 <= k1 < k2 < r@.len() ==> r@[k1] < r@[k2],
        forall|i: int|
            0 <= i < queue_families@.len() && family_selected(
                queue_families@,
                include_types,
                exclude_types,
                i,
            ) ==> r@.contains(i as u32),
{
    let mut selected: Vec<u32> = Vec::new();
    let n = queue_families.len();
    let mut index: usize = 0;
    while index < n
        invariant
            n == queue_families@.len(),
            n <= u32::MAX,
            index <= n,
            forall|k: int|
                0 <= k < selected@.len() ==> (#[trigger] selected@[k]) < index && family_selected(
                    queue_families@,
                    include_types,
                    exclude_types,
                    selected@[k] as int,
                ),
            forall|k1: int, k2: int| 0 <= k1 < k2 < selected@.len() ==> selected@[k1]
                < selected@[k2],
            forall|i: int|
                0 <= i < index && family_selected(
                    queue_families@,
                    include_types,
                    exclude_types,
                    i,
                ) ==> selected@.contains(i as u32),
        decreases n - index,
    {
        let flags = queue_families[index].queue_flags;
        if (flags & include_types) == include_types && (flags & exclude_types) == 0 {
            let ghost pre_selected = selected@;
            selected.push(index as u32);
            proof {
                assert forall|i: int|
                    0 <= i < index + 1 && family_selected(
                        queue_families@,
                        include_types,
                        exclude_types,
                        i,
                    ) implies selected@.contains(i as u32) by {
                    if i < index {
                        assert(pre_selected.contains(i as u32));
                        let w: int = choose|w: int|
                            0 <= w < pre_selected.len() && pre_selected[w] == i as u32;
                        assert(selected@[w] == i as u32);
                    } else {
                        assert(selected@[selected@.len() - 1] == i as u32);
                    }
                }
            }
        }
        index += 1;
    }
    selected
}

/// Indices of the families suited to pure transfer work: transfer-capable
/// families with no graphics capability.
pub fn select_transfer_queues(queue_families: &Vec<QueueFamily>) -> (r: Vec<u32>)
    requires
        queue_families@.len() <= u32::MAX,
    ensures
        forall|k: int|
            0 <= k < r@.len() ==> (#[trigger] r@[k]) < queue_families@.len() && family_selected(
                queue_families@,
                QUEUE_TRANSFER,
                QUEUE_GRAPHICS,
                r@[k] as int,
            ),
        forall|k1: int, k2: int| 0 <= k1 < k2 < r@.len() ==> r@[k1] < r@[k2],
        forall|i: int|
            0 <= i < queue_families@.len() && family_selected(
                queue_families@,
                QUEUE_TRANSFER,
                QUEUE_GRAPHICS,
                i,
            ) ==> r@.contains(i as u32),
{
    select_queue_families(queue_families, QUEUE_TRANSFER, QUEUE_GRAPHICS)
}

/// How many queues to create per chosen transfer family: up to five,
/// capped by what the family offers.
pub fn choose_transfer_queue_counts(
    queue_families: &Vec<QueueFamily>,
    transfer_indices: &Vec<u32>,
) -> (r: Vec<u32>)
    requires
        forall|k: int|
            0 <= k < transfer_indices@.len() ==> (#[trigger] transfer_indices@[k])
                < queue_families@.len(),
    ensures
        r@.len() == transfer_indices@.len(),
        forall|k: int|
            0 <= k < r@.len() ==> (#[trigger] r@[k]) == (if queue_families@[transfer_indices@[k]
                as int].queue_count < 5 {
                queue_families@[transfer_indices@[k] as int].queue_count
            } else {
                5u32
            }),
{
    let mut counts: Vec<u32> = Vec::new();
    let mut k: usize = 0;
    while k < transfer_indices.len()
        invariant
            forall|j: int|
                0 <= j < transfer_indices@.len() ==> (#[trigger] transfer_indices@[j])
                    < queue_families@.len(),
            k <= transfer_indices@.len(),
            counts@.len() == k,
            forall|j: int|
                0 <= j < k ==> (#[trigger] counts@[j]) == (if queue_families@[transfer_indices@[j]
                    as int].queue_count < 5 {
                    queue_families@[transfer_indices@[j] as int].queue_count
                } else {
                    5u32
                }),
        decreases transfer_indices@.len() - k,
    {
        let family = queue_families[transfer_indices[k] as usize];
        let count = if family.queue_count < 5 {
            family.queue_count
        } else {
            5
        };
        counts.push(count);
        k += 1;
    }
    counts
}

/// How many queues to create per chosen graphics family: one each.
pub fn choose_graphics_queue_counts(
    _queue_families: &Vec<QueueFamily>,
    queue_indices: &Vec<u32>,
) -> (r: Vec<u32>)
    ensures
        r@.len() == queue_indices@.len(),
        forall|k: int| 0 <= k < r@.len() ==> (#[trigger] r@[k]) == 1u32,
{
    let mut counts: Vec<u32> = Vec::new();
    let mut k: usize = 0;
    while k < queue_indices.len()
        invariant
            k <= queue_indices@.len(),
            counts@.len() == k,
            forall|j: int| 0 <= j < k ==> (#[trigger] counts@[j]) == 1u32,
        decreases queue_indices@.len() - k,
    {
        counts.push(1);
        k += 1;
    }
    counts
}

/// Whether a reported device extension is one the engine wants loaded.
pub fn is_wanted_extension(ext_name: &str) -> (r: bool)
    ensures
        r == (ext_name@ == "VK_KHR_swapchain"@),
{
    let expected: &str = "VK_KHR_swapchain";
    proof {
        reveal_strlit("VK_KHR_swapchain");
    }
    let n = ext_name.unicode_len();
    if n != 16 {
        return false;
    }
    let mut i: usize = 0;
    while i < 16
        invariant
            ext_name@.len() == 16,
            expected@ == "VK_KHR_swapchain"@,
            expected@.len() == 16,
            i <= 16,
            forall|j: int| 0 <= j < i ==> ext_name@[j] == expected@[j],
        decreases 16 - i,
    {
        let c = ext_name.get_char(i);
        let e = expected.get_char(i);
        if c != e {
            return false;
        }
        i += 1;
    }
    proof {
        assert(ext_name@ =~= "VK_KHR_swapchain"@);
    }
    true
}

} // verus!
