use dust::dust_errors::DustError;
use dust::object_store::{
    new, new_with_growth, AllocationStep, DustObjectStore, MemoryRequirements,
    MEMORY_DEVICE_LOCAL, MEMORY_HOST_CACHED, MEMORY_HOST_VISIBLE,
};

fn reqs(size: u64, alignment: u64, bits: u32) -> MemoryRequirements {
    MemoryRequirements { size, alignment, memory_type_bits: bits }
}

/// Scenario: initial growth 1024, repeated 600-byte requests at alignment
/// 256, eligible only for the single device-local type.
#[test]
fn scenario_grow_and_double() {
    let mut store = new_with_growth(vec![MEMORY_DEVICE_LOCAL], 1024);
    let r = reqs(600, 256, 0b1);

    // First request: the pool is empty, so one 1024-byte block is asked
    // for, and the retry binds at offset 0.
    let step = store.allocate_device_image(0x1111, &r);
    assert_eq!(step, AllocationStep::GrowHeap { type_index: 0, size: 1024 });
    let step = store.retry_image_allocation(0x1111, &r, 0, Ok(0xA0));
    assert_eq!(step, AllocationStep::Bind { id: 0, device_memory: 0xA0, offset: 0 });

    // Second identical request: padding 168 makes 600 + 168 + 600 = 1368
    // overflow the 1024-byte block, so a doubled 2048-byte block is asked
    // for; the retry binds at offset 0 of the new block.
    let step = store.allocate_device_image(0x2222, &r);
    assert_eq!(step, AllocationStep::GrowHeap { type_index: 0, size: 2048 });
    let step = store.retry_image_allocation(0x2222, &r, 0, Ok(0xB0));
    assert_eq!(step, AllocationStep::Bind { id: 1, device_memory: 0xB0, offset: 0 });

    // Both ids are live, and the growth counter has doubled again to
    // 4096, as the next grow request shows.
    assert_eq!(store.get_image(0), Some(0x1111));
    assert_eq!(store.get_image(1), Some(0x2222));
    let step = store.allocate_device_image(0x3333, &reqs(2048, 256, 0b1));
    assert_eq!(step, AllocationStep::GrowHeap { type_index: 0, size: 4096 });
}

/// Scenario: the eligibility bitmask excludes every type with the
/// required capabilities, so nothing is created and no id is issued.
#[test]
fn scenario_no_matching_type() {
    let mut store = new_with_growth(vec![MEMORY_HOST_VISIBLE, MEMORY_DEVICE_LOCAL], 1024);
    // Bit 0 is the only eligible type, but it is not device-local.
    let step = store.allocate_device_image(0x1111, &reqs(600, 256, 0b01));
    assert_eq!(step, AllocationStep::Fail { error: DustError::NoMatchingMemoryType });
    assert_eq!(store.get_image(0), None);
}

#[test]
fn matcher_picks_least_eligible_superset() {
    let store = new(vec![
        MEMORY_HOST_VISIBLE,
        MEMORY_DEVICE_LOCAL | MEMORY_HOST_VISIBLE,
        MEMORY_DEVICE_LOCAL,
    ]);
    // Type 0 lacks the device-local flag; type 1 is the least match.
    assert_eq!(store.match_memory_type(0b111, MEMORY_DEVICE_LOCAL), Ok(1));
    // With type 1 excluded from the filter, type 2 is picked.
    assert_eq!(store.match_memory_type(0b101, MEMORY_DEVICE_LOCAL), Ok(2));
    // Nothing carries the host-cached flag.
    assert_eq!(
        store.match_memory_type(0b111, MEMORY_HOST_CACHED),
        Err(DustError::NoMatchingMemoryType)
    );
}

#[test]
fn matcher_is_deterministic() {
    let store = new(vec![MEMORY_HOST_VISIBLE, MEMORY_DEVICE_LOCAL]);
    let first = store.match_memory_type(0b11, MEMORY_DEVICE_LOCAL);
    let second = store.match_memory_type(0b11, MEMORY_DEVICE_LOCAL);
    assert_eq!(first, second);
    assert_eq!(first, Ok(1));
}

/// Every successful bind offset is a multiple of the requested alignment,
/// and the bump offset advances by exactly padding plus size.
#[test]
fn bind_offsets_are_aligned() {
    let mut store = new_with_growth(vec![MEMORY_DEVICE_LOCAL], 1024);
    let step = store.allocate_device_buffer(0x10, &reqs(10, 1, 0b1));
    assert_eq!(step, AllocationStep::GrowHeap { type_index: 0, size: 1024 });
    let step = store.retry_buffer_allocation(0x10, &reqs(10, 1, 0b1), 0, Ok(0xC0));
    assert_eq!(step, AllocationStep::Bind { id: 0, device_memory: 0xC0, offset: 0 });

    // The bump offset is 10 now; alignment 64 pads it to 64.
    let step = store.allocate_device_buffer(0x11, &reqs(16, 64, 0b1));
    match step {
        AllocationStep::Bind { id, device_memory, offset } => {
            assert_eq!(id, 1);
            assert_eq!(device_memory, 0xC0);
            assert_eq!(offset, 64);
            assert_eq!(offset % 64, 0);
        }
        other => panic!("expected a bind, got {:?}", other),
    }

    // The bump offset is 80 now; an aligned request binds immediately
    // with no padding.
    let step = store.allocate_device_buffer(0x12, &reqs(8, 16, 0b1));
    assert_eq!(step, AllocationStep::Bind { id: 2, device_memory: 0xC0, offset: 80 });

    // After three placements the bump offset is the sum of every padding
    // and size placed so far: (0 + 10) + (54 + 16) + (0 + 8) = 88, which
    // the next unaligned request binds at directly.
    let step = store.allocate_device_buffer(0x13, &reqs(5, 1, 0b1));
    assert_eq!(step, AllocationStep::Bind { id: 3, device_memory: 0xC0, offset: 88 });
}

/// A request that cannot fit even a fresh block triggers exactly one grow
/// and one retry; the retry fails without asking to grow again.
#[test]
fn retry_happens_exactly_once() {
    let mut store = new_with_growth(vec![MEMORY_DEVICE_LOCAL], 1024);
    let r = reqs(2000, 1, 0b1);
    let step = store.allocate_device_image(0x77, &r);
    assert_eq!(step, AllocationStep::GrowHeap { type_index: 0, size: 1024 });
    let step = store.retry_image_allocation(0x77, &r, 0, Ok(0xD0));
    assert_eq!(step, AllocationStep::Fail { error: DustError::NoValidHeapForAllocation });
    assert_eq!(store.get_image(0), None);
}

#[test]
fn failed_device_allocation_is_fatal() {
    let mut store = new_with_growth(vec![MEMORY_DEVICE_LOCAL], 1024);
    let r = reqs(600, 256, 0b1);
    let step = store.allocate_device_image(0x55, &r);
    assert_eq!(step, AllocationStep::GrowHeap { type_index: 0, size: 1024 });
    let step = store.retry_image_allocation(0x55, &r, 0, Err(-2));
    assert_eq!(step, AllocationStep::Fail { error: DustError::DeviceMemoryAllocationFailed(-2) });
    assert_eq!(store.get_image(0), None);
}

fn store_with_two_buffers() -> DustObjectStore {
    let mut store = new_with_growth(vec![MEMORY_DEVICE_LOCAL], 1024);
    let r = reqs(100, 4, 0b1);
    let step = store.allocate_device_buffer(0xAB, &r);
    assert_eq!(step, AllocationStep::GrowHeap { type_index: 0, size: 1024 });
    let step = store.retry_buffer_allocation(0xAB, &r, 0, Ok(0xE0));
    assert_eq!(step, AllocationStep::Bind { id: 0, device_memory: 0xE0, offset: 0 });
    let step = store.allocate_device_buffer(0xCD, &r);
    assert_eq!(step, AllocationStep::Bind { id: 1, device_memory: 0xE0, offset: 100 });
    store
}

/// Ids are stable: a lookup answers the same handle until deallocation,
/// after which that id is empty and no other id changes meaning.
#[test]
fn ids_are_stable_across_deallocation() {
    let mut store = store_with_two_buffers();
    assert_eq!(store.get_buffer(0), Some(0xAB));
    assert_eq!(store.get_buffer(1), Some(0xCD));

    assert_eq!(store.deallocate_buffer(0), Some(0xAB));
    assert_eq!(store.get_buffer(0), None);
    assert_eq!(store.get_buffer(1), Some(0xCD));

    // Deallocating again, or out of range, changes nothing.
    assert_eq!(store.deallocate_buffer(0), None);
    assert_eq!(store.deallocate_buffer(99), None);
    assert_eq!(store.get_buffer(1), Some(0xCD));
}

/// Freed ids are never reused: the table keeps its cleared slot and new
/// allocations take fresh positions.
#[test]
fn cleared_ids_are_not_reused() {
    let mut store = store_with_two_buffers();
    assert_eq!(store.deallocate_buffer(0), Some(0xAB));
    let step = store.allocate_device_buffer(0xEF, &reqs(100, 4, 0b1));
    match step {
        AllocationStep::Bind { id, .. } => assert_eq!(id, 2),
        other => panic!("expected a bind, got {:?}", other),
    }
    assert_eq!(store.get_buffer(0), None);
    assert_eq!(store.get_buffer(2), Some(0xEF));
}

#[test]
fn deallocate_image_clears_slot() {
    let mut store = new_with_growth(vec![MEMORY_DEVICE_LOCAL], 4096);
    let r = reqs(64, 16, 0b1);
    let step = store.allocate_device_image(0x42, &r);
    assert_eq!(step, AllocationStep::GrowHeap { type_index: 0, size: 4096 });
    let step = store.retry_image_allocation(0x42, &r, 0, Ok(0xF0));
    assert_eq!(step, AllocationStep::Bind { id: 0, device_memory: 0xF0, offset: 0 });
    assert_eq!(store.get_image(0), Some(0x42));
    assert_eq!(store.deallocate_image(0), Some(0x42));
    assert_eq!(store.get_image(0), None);
    assert_eq!(store.deallocate_image(0), None);
}

/// The buffer presets differ only in the capability set they demand.
#[test]
fn buffer_presets_demand_their_capabilities() {
    let types = vec![
        MEMORY_DEVICE_LOCAL,
        MEMORY_DEVICE_LOCAL | MEMORY_HOST_VISIBLE,
        MEMORY_DEVICE_LOCAL | MEMORY_HOST_VISIBLE | MEMORY_HOST_CACHED,
    ];
    let mut store = new_with_growth(types.clone(), 1024);
    let r = reqs(10, 1, 0b111);

    // Device-local only: the first type wins.
    let step = store.allocate_device_buffer(0x1, &r);
    assert_eq!(step, AllocationStep::GrowHeap { type_index: 0, size: 1024 });

    // Host-visible as well: the second type is the least match.
    let step = store.allocate_local_visible_buffer(0x2, &r);
    assert_eq!(step, AllocationStep::GrowHeap { type_index: 1, size: 1024 });

    // Host-cached as well: only the third type qualifies.
    let step = store.allocate_local_cached_buffer(0x3, &r);
    assert_eq!(step, AllocationStep::GrowHeap { type_index: 2, size: 1024 });

    // Host-coherent is nowhere on offer.
    let step = store.allocate_local_coherent_buffer(0x4, &r);
    assert_eq!(step, AllocationStep::Fail { error: DustError::NoMatchingMemoryType });
}

/// Each memory type grows its own pool with its own doubling counter.
#[test]
fn growth_counters_are_per_type() {
    let mut store = new_with_growth(vec![MEMORY_DEVICE_LOCAL, MEMORY_DEVICE_LOCAL], 512);
    let r0 = reqs(100, 1, 0b01);
    let r1 = reqs(100, 1, 0b10);

    let step = store.allocate_device_buffer(0x1, &r0);
    assert_eq!(step, AllocationStep::GrowHeap { type_index: 0, size: 512 });
    let step = store.retry_buffer_allocation(0x1, &r0, 0, Ok(0xA1));
    assert_eq!(step, AllocationStep::Bind { id: 0, device_memory: 0xA1, offset: 0 });

    // Growing type 0 did not advance type 1's counter.
    let step = store.allocate_device_buffer(0x2, &r1);
    assert_eq!(step, AllocationStep::GrowHeap { type_index: 1, size: 512 });
}
