//! Typed multi-heap device memory allocator.
//!
//! A [`DustObjectStore`] keeps, per device memory type, an ordered list of
//! memory blocks ("heaps"), each filled front to back by a bump offset.  A
//! resource is placed in the newest block of the memory type that matches
//! its eligibility mask and the required capability flags; when the newest
//! block lacks room, the pool grows by exactly one block and the placement
//! is retried exactly once.  Successful placements are recorded in stable
//! tables whose positions serve as resource identifiers.
//!
//! The store never talks to the device itself.  Resource and memory handles
//! pass through as raw 64-bit values, and every operation that needs a
//! device call returns an [`AllocationStep`] telling the embedding program
//! which call to perform.

use vstd::arithmetic::div_mod::{lemma_fundamental_div_mod, lemma_mod_multiples_basic};
use vstd::arithmetic::power2::{lemma_pow2_unfold, pow2};
use vstd::prelude::*;

use crate::dust_errors::DustError;

verus! {

/// Capability flag of device-local memory.
pub const MEMORY_DEVICE_LOCAL: u32 = 1;

/// Capability flag of host-visible memory.
pub const MEMORY_HOST_VISIBLE: u32 = 2;

/// Capability flag of host-coherent memory.
pub const MEMORY_HOST_COHERENT: u32 = 4;

/// Capability flag of host-cached memory.
pub const MEMORY_HOST_CACHED: u32 = 8;

/// Stable position of an image record in the store's image table.
pub type ImageId = usize;

/// Stable position of a buffer record in the store's buffer table.
pub type BufferId = usize;

/// One device memory block owned by the pool of a single memory type.
///
/// `[0, first_free)` is possibly occupied, `[first_free, size)` is free.
/// Blocks are never resized and never removed before teardown.
#[derive(Debug, Clone, Copy, PartialEq, Eq, Structural)]
pub struct DeviceMemoryTombstone {
    /// Raw handle of the backing device memory allocation.
    pub device_memory: u64,
    /// Total size of the block in bytes.
    pub size: u64,
    /// Bump offset separating the occupied front from the free tail.
    pub first_free: u64,
}

/// Placement record of a bound image.  Immutable once created.
#[derive(Debug, Clone, Copy, PartialEq, Eq, Structural)]
pub struct ImageTombstone {
    /// Raw handle of the placed image.
    pub image: u64,
    /// Memory type index of the block the image was bound into.
    pub heap_type_index: usize,
    /// Position of that block within its type's pool.
    pub heap_index: usize,
    /// Offset inside the block at which the image was bound.
    pub allocated_offset: u64,
    /// Size in bytes the placement occupies, excluding alignment padding.
    pub allocation_size: u64,
}

/// Placement record of a bound buffer.  Immutable once created.
#[derive(Debug, Clone, Copy, PartialEq, Eq, Structural)]
pub struct BufferTombstone {
    /// Raw handle of the placed buffer.
    pub buffer: u64,
    /// Memory type index of the block the buffer was bound into.
    pub heap_type_index: usize,
    /// Position of that block within its type's pool.
    pub heap_index: usize,
    /// Offset inside the block at which the buffer was bound.
    pub allocated_offset: u64,
    /// Size in bytes the placement occupies, excluding alignment padding.
    pub allocation_size: u64,
}

/// Memory requirements of a resource, as reported by the device:
/// how many bytes it needs, at which alignment, and the bitmask of memory
/// type indices it may live in (bit `i` set means type `i` is eligible).
#[derive(Debug, Clone, Copy, PartialEq, Eq, Structural)]
pub struct MemoryRequirements {
    /// Required size of the placement in bytes.
    pub size: u64,
    /// Required alignment of the bind offset; at least one.
    pub alignment: u64,
    /// Eligibility bitmask over memory type indices.
    pub memory_type_bits: u32,
}

/// What the embedding program must do next to finish an allocation.
#[derive(Debug, Clone, Copy, PartialEq, Eq, Structural)]
pub enum AllocationStep {
    /// The placement is recorded; bind the resource to `device_memory` at
    /// `offset`.  `id` is the new resource identifier.
    Bind { id: usize, device_memory: u64, offset: u64 },
    /// The newest block of `type_index` lacks room.  Allocate `size` bytes
    /// of device memory at that type and hand the outcome to the matching
    /// retry entry point.
    GrowHeap { type_index: usize, size: u64 },
    /// The allocation failed; nothing was recorded and no device call is
    /// owed.
    Fail { error: DustError },
}

/// Size in bytes of the first block created for each memory type.
pub const INITIAL_HEAP_GROWTH: u64 = 10485760;

/// The allocator: per-type block pools, their growth counters, and the two
/// resource tables.
pub struct DustObjectStore {
    /// Size for the next block of each memory type; doubles on each growth.
    heap_growth: Vec<u64>,
    /// Block pool of each memory type, oldest block first.
    heaps: Vec<Vec<DeviceMemoryTombstone>>,
    /// Capability flag set of each device memory type.
    types: Vec<u32>,
    /// Image placement records; a position is an [`ImageId`] forever.
    images: Vec<Option<ImageTombstone>>,
    /// Buffer placement records; a position is a [`BufferId`] forever.
    buffers: Vec<Option<BufferTombstone>>,
}

/// True when the block's bump offset has not run past its end.
pub open spec fn block_wf(b: DeviceMemoryTombstone) -> bool {
    b.first_free <= b.size
}

/// The growth counter after a block of size `g` has been created: doubled,
/// except that it stops doubling where doubling would no longer fit in 64
/// bits.
pub open spec fn double_capped(g: u64) -> u64 {
    if g <= u64::MAX / 2 {
        (2 * g) as u64
    } else {
        g
    }
}

/// Bytes to skip so that a placement after `first_free` starts at a
/// multiple of `alignment`; zero when `first_free` is aligned already.
pub open spec fn alignment_padding(first_free: u64, alignment: u64) -> int
    recommends
        alignment >= 1,
{
    if first_free as int % alignment as int == 0 {
        0
    } else {
        alignment - first_free % alignment
    }
}

/// True when a placement of `size` bytes at alignment `alignment` fits into
/// the free tail of block `b`.
pub open spec fn block_fits(b: DeviceMemoryTombstone, size: u64, alignment: u64) -> bool {
    b.first_free + alignment_padding(b.first_free, alignment) + size <= b.size
}

/// True when the pool `hs` has a newest block and a placement of `size`
/// bytes at `alignment` fits into it.
pub open spec fn newest_block_fits(
    hs: Seq<DeviceMemoryTombstone>,
    size: u64,
    alignment: u64,
) -> bool {
    hs.len() > 0 && block_fits(hs[hs.len() - 1], size, alignment)
}

/// Type `i` is eligible for `filter` and its capability flags are a
/// superset of `required`.
pub open spec fn type_eligible(types: Seq<u32>, filter: u32, required: u32, i: int) -> bool {
    &&& filter & (1u32 << (i as u32)) == (1u32 << (i as u32))
    &&& types[i] & required == required
}

/// `r` is the outcome the memory type matcher owes for `(filter,
/// required)` over `types`: the least eligible index, or
/// [`DustError::NoMatchingMemoryType`] when no index is eligible.
pub open spec fn is_match_result(
    types: Seq<u32>,
    filter: u32,
    required: u32,
    r: Result<usize, DustError>,
) -> bool {
    match r {
        Ok(i) => {
            &&& 0 <= i < types.len()
            &&& type_eligible(types, filter, required, i as int)
            &&& forall|j: int| 0 <= j < i ==> !type_eligible(types, filter, required, j)
        },
        Err(e) => {
            &&& e == DustError::NoMatchingMemoryType
            &&& forall|j: int| 0 <= j < types.len() ==> !type_eligible(types, filter, required, j)
        },
    }
}

impl DustObjectStore {
    /// Capability flag set of each device memory type, by type index.
    pub closed spec fn types_seq(&self) -> Seq<u32> {
        self.types@
    }

    /// Growth counter of each memory type: the size of the next block.
    pub closed spec fn growth_seq(&self) -> Seq<u64> {
        self.heap_growth@
    }

    /// Block pool of each memory type, oldest block first.
    pub closed spec fn heaps_seq(&self) -> Seq<Seq<DeviceMemoryTombstone>> {
        self.heaps@.map_values(|h: Vec<DeviceMemoryTombstone>| h@)
    }

    /// The image table.
    pub closed spec fn images_seq(&self) -> Seq<Option<ImageTombstone>> {
        self.images@
    }

    /// The buffer table.
    pub closed spec fn buffers_seq(&self) -> Seq<Option<BufferTombstone>> {
        self.buffers@
    }

    /// A live placement record points at an existing block and lies wholly
    /// inside that block's occupied front.
    pub open spec fn placement_valid(
        &self,
        type_index: int,
        heap_index: int,
        offset: u64,
        size: u64,
    ) -> bool {
        &&& 0 <= type_index < self.heaps_seq().len()
        &&& 0 <= heap_index < self.heaps_seq()[type_index].len()
        &&& offset + size <= self.heaps_seq()[type_index][heap_index].first_free
    }

    /// Well-formedness of the pools: one pool and one growth counter per
    /// type, at most 32 types, every block sound, consecutive blocks of one
    /// type linked by the doubling rule, and the growth counter one
    /// doubling ahead of the newest block.
    pub open spec fn pools_wf(&self) -> bool {
        &&& self.types_seq().len() == self.heaps_seq().len()
        &&& self.growth_seq().len() == self.types_seq().len()
        &&& self.types_seq().len() <= 32
        &&& forall|i: int, k: int|
            0 <= i < self.heaps_seq().len() && 0 <= k < self.heaps_seq()[i].len() ==> block_wf(
                #[trigger] self.heaps_seq()[i][k],
            )
        &&& forall|i: int, k: int|
            0 <= i < self.heaps_seq().len() && 0 <= k < self.heaps_seq()[i].len() - 1 ==> (
            #[trigger] self.heaps_seq()[i][k + 1]).size == double_capped(
                self.heaps_seq()[i][k].size,
            )
        &&& forall|i: int|
            0 <= i < self.heaps_seq().len() && self.heaps_seq()[i].len() > 0 ==> (
            #[trigger] self.growth_seq()[i]) == double_capped(
                self.heaps_seq()[i][self.heaps_seq()[i].len() - 1].size,
            )
    }

    /// Every live image record points into the occupied part of an existing
    /// block.
    pub open spec fn images_wf(&self) -> bool {
        forall|j: int|
            0 <= j < self.images_seq().len() && self.images_seq()[j] is Some ==> {
                let t = (#[trigger] self.images_seq()[j])->Some_0;
                self.placement_valid(
                    t.heap_type_index as int,
                    t.heap_index as int,
                    t.allocated_offset,
                    t.allocation_size,
                )
            }
    }

    /// Every live buffer record points into the occupied part of an
    /// existing block.
    pub open spec fn buffers_wf(&self) -> bool {
        forall|j: int|
            0 <= j < self.buffers_seq().len() && self.buffers_seq()[j] is Some ==> {
                let t = (#[trigger] self.buffers_seq()[j])->Some_0;
                self.placement_valid(
                    t.heap_type_index as int,
                    t.heap_index as int,
                    t.allocated_offset,
                    t.allocation_size,
                )
            }
    }

    /// Well-formedness of the whole store.
    pub open spec fn wf(&self) -> bool {
        &&& self.pools_wf()
        &&& self.images_wf()
        &&& self.buffers_wf()
    }
}

/// A store over the given memory types with empty pools, the default
/// growth counter everywhere, and empty resource tables.
///
/// `memory_types` holds the capability flag set of each device memory type,
/// indexed as the device reports them; the device reports at most 32.
pub fn new(memory_types: Vec<u32>) -> (store: DustObjectStore)
    requires
        memory_types.len() <= 32,
    ensures
        store.wf(),
        store.types_seq() == memory_types@,
        store.growth_seq() == Seq::new(memory_types@.len(), |i: int| INITIAL_HEAP_GROWTH),
        store.heaps_seq() == Seq::new(
            memory_types@.len(),
            |i: int| Seq::<DeviceMemoryTombstone>::empty(),
        ),
        store.images_seq() == Seq::<Option<ImageTombstone>>::empty(),
        store.buffers_seq() == Seq::<Option<BufferTombstone>>::empty(),
{
    new_with_growth(memory_types, INITIAL_HEAP_GROWTH)
}

/// Like [`new`], but with a caller-chosen size for the first block of each
/// memory type.
pub fn new_with_growth(memory_types: Vec<u32>, initial_growth: u64) -> (store: DustObjectStore)
    requires
        memory_types.len() <= 32,
    ensures
        store.wf(),
        store.types_seq() == memory_types@,
        store.growth_seq() == Seq::new(memory_types@.len(), |i: int| initial_growth),
        store.heaps_seq() == Seq::new(
            memory_types@.len(),
            |i: int| Seq::<DeviceMemoryTombstone>::empty(),
        ),
        store.images_seq() == Seq::<Option<ImageTombstone>>::empty(),
        store.buffers_seq() == Seq::<Option<BufferTombstone>>::empty(),
{
    let n = memory_types.len();
    let mut heaps: Vec<Vec<DeviceMemoryTombstone>> = Vec::new();
    let mut heap_growth: Vec<u64> = Vec::new();
    let mut i: usize = 0;
    while i < n
        invariant
            i <= n,
            heaps@.len() == i,
            heap_growth@.len() == i,
            forall|k: int| 0 <= k < i ==> (#[trigger] heaps@[k])@ == Seq::<
                DeviceMemoryTombstone,
            >::empty(),
            forall|k: int| 0 <= k < i ==> heap_growth@[k] == initial_growth,
        decreases n - i,
    {
        heaps.push(Vec::new());
        heap_growth.push(initial_growth);
        i += 1;
    }
    let store = DustObjectStore {
        heap_growth,
        heaps,
        types: memory_types,
        images: Vec::new(),
        buffers: Vec::new(),
    };
    proof {
        assert(store.heaps_seq() =~= Seq::new(
            store.types_seq().len(),
            |i: int| Seq::<DeviceMemoryTombstone>::empty(),
        ));
        assert(store.growth_seq() =~= Seq::new(store.types_seq().len(), |i: int| initial_growth));
    }
    store
}

impl DustObjectStore {
    /// The least memory type index that is eligible under `filter` and
    /// whose capability flags include all of `matcher`, or
    /// [`DustError::NoMatchingMemoryType`] when there is none.
    pub fn match_memory_type(&self, filter: u32, matcher: u32) -> (r: Result<usize, DustError>)
        requires
            self.wf(),
        ensures
            is_match_result(self.types_seq(), filter, matcher, r),
    {
        let n = self.types.len();
        let mut index: usize = 0;
        while index < n
            invariant
                n == self.types@.len(),
                n <= 32,
                index <= n,
                forall|j: int| 0 <= j < index ==> !type_eligible(self.types@, filter, matcher, j),
            decreases n - index,
        {
            let bit: u32 = 1u32 << (index as u32);
            if (filter & bit) == bit && (self.types[index] & matcher) == matcher {
                return Ok(index);
            }
            index += 1;
        }
        Err(DustError::NoMatchingMemoryType)
    }
}

/// Every bind offset produced by the padding rule is a multiple of the
/// requested alignment.
pub proof fn lemma_alignment_padding_aligns(first_free: u64, alignment: u64)
    requires
        alignment >= 1,
    ensures
        (first_free + alignment_padding(first_free, alignment)) % (alignment as int) == 0,
{
    let a = alignment as int;
    let f = first_free as int;
    if f % a == 0 {
        assert(f + alignment_padding(first_free, alignment) == f);
    } else {
        lemma_fundamental_div_mod(f, a);
        let q = f / a;
        assert(f + alignment_padding(first_free, alignment) == a * q + a);
        assert(a * q + a == (q + 1) * a) by (nonlinear_arith);
        lemma_mod_multiples_basic(q + 1, a);
        assert(((q + 1) * a) % a == 0);
    }
}

impl DustObjectStore {
    /// Pure bookkeeping of one placement attempt against the newest block
    /// of `type_index`: on success the bump offset advances and the chosen
    /// block, memory handle and aligned offset are returned; on failure the
    /// store is untouched.
    fn place(&mut self, type_index: usize, size: u64, alignment: u64) -> (r: Result<
        (usize, u64, u64),
        DustError,
    >)
        requires
            old(self).wf(),
            type_index < old(self).heaps_seq().len(),
            alignment >= 1,
        ensures
            final(self).wf(),
            final(self).types_seq() == old(self).types_seq(),
            final(self).growth_seq() == old(self).growth_seq(),
            final(self).images_seq() == old(self).images_seq(),
            final(self).buffers_seq() == old(self).buffers_seq(),
            match r {
                Ok((heap_index, device_memory, offset)) => {
                    let hs = old(self).heaps_seq()[type_index as int];
                    let b = hs[hs.len() - 1];
                    let pad = alignment_padding(b.first_free, alignment);
                    &&& hs.len() > 0
                    &&& heap_index == hs.len() - 1
                    &&& block_fits(b, size, alignment)
                    &&& device_memory == b.device_memory
                    &&& offset == b.first_free + pad
                    &&& (offset as int) % (alignment as int) == 0
                    &&& final(self).heaps_seq() == old(self).heaps_seq().update(
                        type_index as int,
                        hs.update(
                            hs.len() - 1,
                            (DeviceMemoryTombstone {
                                device_memory: b.device_memory,
                                size: b.size,
                                first_free: (b.first_free + pad + size) as u64,
                            }),
                        ),
                    )
                },
                Err(e) => {
                    &&& e == DustError::NoValidHeapForAllocation
                    &&& !newest_block_fits(
                        old(self).heaps_seq()[type_index as int],
                        size,
                        alignment,
                    )
                    &&& final(self).heaps_seq() == old(self).heaps_seq()
                },
            },
    {
        let ghost pre = *self;
        let m = self.heaps[type_index].len();
        if m == 0 {
            return Err(DustError::NoValidHeapForAllocation);
        }
        let block = self.heaps[type_index][m - 1];
        proof {
            assert(self.heaps_seq()[type_index as int] == self.heaps@[type_index as int]@);
            assert(block_wf(block));
        }
        let rem: u64 = block.first_free % alignment;
        let padding: u64 = if rem == 0 {
            0
        } else {
            alignment - rem
        };
        assert(padding == alignment_padding(block.first_free, alignment));
        if padding > block.size - block.first_free {
            assert(!block_fits(block, size, alignment));
            return Err(DustError::NoValidHeapForAllocation);
        }
        let offset: u64 = block.first_free + padding;
        if size > block.size - offset {
            assert(!block_fits(block, size, alignment));
            return Err(DustError::NoValidHeapForAllocation);
        }
        let new_ff: u64 = offset + size;
        self.heaps[type_index][m - 1].first_free = new_ff;
        proof {
            let ti = type_index as int;
            let hs = pre.heaps_seq()[ti];
            let nb = DeviceMemoryTombstone {
                device_memory: block.device_memory,
                size: block.size,
                first_free: new_ff,
            };
            assert(self.heaps@[ti]@ =~= hs.update(hs.len() - 1, nb));
            assert(self.heaps_seq() =~= pre.heaps_seq().update(ti, hs.update(hs.len() - 1, nb)));
            lemma_alignment_padding_aligns(block.first_free, alignment);
            assert forall|i: int, k: int|
                0 <= i < self.heaps_seq().len() && 0 <= k < self.heaps_seq()[i].len() implies {
                &&& block_wf(#[trigger] self.heaps_seq()[i][k])
                &&& self.heaps_seq()[i][k].size == pre.heaps_seq()[i][k].size
                &&& self.heaps_seq()[i][k].first_free >= pre.heaps_seq()[i][k].first_free
            } by {
                assert(block_wf(pre.heaps_seq()[i][k]));
            }
            assert(self.pools_wf());
            assert forall|j: int|
                0 <= j < self.images_seq().len() && self.images_seq()[j] is Some implies {
                let t = (#[trigger] self.images_seq()[j])->Some_0;
                self.placement_valid(
                    t.heap_type_index as int,
                    t.heap_index as int,
                    t.allocated_offset,
                    t.allocation_size,
                )
            } by {
                let t = self.images_seq()[j]->Some_0;
                assert(pre.placement_valid(
                    t.heap_type_index as int,
                    t.heap_index as int,
                    t.allocated_offset,
                    t.allocation_size,
                ));
            }
            assert forall|j: int|
                0 <= j < self.buffers_seq().len() && self.buffers_seq()[j] is Some implies {
                let t = (#[trigger] self.buffers_seq()[j])->Some_0;
                self.placement_valid(
                    t.heap_type_index as int,
                    t.heap_index as int,
                    t.allocated_offset,
                    t.allocation_size,
                )
            } by {
                let t = self.buffers_seq()[j]->Some_0;
                assert(pre.placement_valid(
                    t.heap_type_index as int,
                    t.heap_index as int,
                    t.allocated_offset,
                    t.allocation_size,
                ));
            }
        }
        Ok((m - 1, block.device_memory, offset))
    }

    /// Record a freshly allocated device memory block for
    /// `memory_type_index`: append it, sized by the type's growth counter,
    /// and double the counter.  The device call that produced
    /// `device_memory` is the embedding program's; see
    /// [`AllocationStep::GrowHeap`].
    fn allocate_new_heap(&mut self, memory_type_index: usize, device_memory: u64)
        requires
            old(self).wf(),
            memory_type_index < old(self).heaps_seq().len(),
        ensures
            final(self).wf(),
            final(self).types_seq() == old(self).types_seq(),
            final(self).images_seq() == old(self).images_seq(),
            final(self).buffers_seq() == old(self).buffers_seq(),
            final(self).heaps_seq() == old(self).heaps_seq().update(
                memory_type_index as int,
                old(self).heaps_seq()[memory_type_index as int].push(
                    (DeviceMemoryTombstone {
                        device_memory,
                        size: old(self).growth_seq()[memory_type_index as int],
                        first_free: 0,
                    }),
                ),
            ),
            final(self).growth_seq() == old(self).growth_seq().update(
                memory_type_index as int,
                double_capped(old(self).growth_seq()[memory_type_index as int]),
            ),
    {
        let ghost pre = *self;
        let growth_amount = self.heap_growth[memory_type_index];
        let block = DeviceMemoryTombstone { device_memory, size: growth_amount, first_free: 0 };
        self.heaps[memory_type_index].push(block);
        let next: u64 = if growth_amount <= u64::MAX / 2 {
            2 * growth_amount
        } else {
            growth_amount
        };
        self.heap_growth[memory_type_index] = next;
        proof {
            let ti = memory_type_index as int;
            assert(self.heaps@[ti]@ =~= pre.heaps_seq()[ti].push(block));
            assert(self.heaps_seq() =~= pre.heaps_seq().update(
                ti,
                pre.heaps_seq()[ti].push(block),
            ));
            assert(self.growth_seq() =~= pre.growth_seq().update(
                ti,
                double_capped(growth_amount),
            ));
            assert forall|i: int, k: int|
                0 <= i < self.heaps_seq().len() && 0 <= k < self.heaps_seq()[i].len()
                    - 1 implies (#[trigger] self.heaps_seq()[i][k + 1]).size == double_capped(
                self.heaps_seq()[i][k].size,
            ) by {
                if i != ti || k + 1 < self.heaps_seq()[i].len() - 1 {
                    assert(pre.heaps_seq()[i][k + 1].size == double_capped(
                        pre.heaps_seq()[i][k].size,
                    ));
                }
            }
            assert(self.pools_wf());
            assert forall|j: int|
                0 <= j < self.images_seq().len() && self.images_seq()[j] is Some implies {
                let t = (#[trigger] self.images_seq()[j])->Some_0;
                self.placement_valid(
                    t.heap_type_index as int,
                    t.heap_index as int,
                    t.allocated_offset,
                    t.allocation_size,
                )
            } by {
                let t = self.images_seq()[j]->Some_0;
                assert(pre.placement_valid(
                    t.heap_type_index as int,
                    t.heap_index as int,
                    t.allocated_offset,
                    t.allocation_size,
                ));
            }
            assert forall|j: int|
                0 <= j < self.buffers_seq().len() && self.buffers_seq()[j] is Some implies {
                let t = (#[trigger] self.buffers_seq()[j])->Some_0;
                self.placement_valid(
                    t.heap_type_index as int,
                    t.heap_index as int,
                    t.allocated_offset,
                    t.allocation_size,
                )
            } by {
                let t = self.buffers_seq()[j]->Some_0;
                assert(pre.placement_valid(
                    t.heap_type_index as int,
                    t.heap_index as int,
                    t.allocated_offset,
                    t.allocation_size,
                ));
            }
        }
    }
}

/// The two stores hold the same types, growth counters, blocks and tables.
pub open spec fn same_state(pre: DustObjectStore, post: DustObjectStore) -> bool {
    &&& post.types_seq() == pre.types_seq()
    &&& post.growth_seq() == pre.growth_seq()
    &&& post.heaps_seq() == pre.heaps_seq()
    &&& post.images_seq() == pre.images_seq()
    &&& post.buffers_seq() == pre.buffers_seq()
}

/// `post` is `pre` after one successful image placement into the newest
/// block of `type_index`: the bump offset advanced by padding plus size,
/// the bind offset is aligned, and a record was appended to the image
/// table at position `id`.
pub open spec fn image_placed(
    pre: DustObjectStore,
    post: DustObjectStore,
    type_index: int,
    image: u64,
    requirements: MemoryRequirements,
    id: usize,
    device_memory: u64,
    offset: u64,
) -> bool {
    let hs = pre.heaps_seq()[type_index];
    let b = hs[hs.len() - 1];
    let pad = alignment_padding(b.first_free, requirements.alignment);
    &&& 0 <= type_index < pre.heaps_seq().len()
    &&& newest_block_fits(hs, requirements.size, requirements.alignment)
    &&& device_memory == b.device_memory
    &&& offset == b.first_free + pad
    &&& (offset as int) % (requirements.alignment as int) == 0
    &&& id == pre.images_seq().len()
    &&& post.types_seq() == pre.types_seq()
    &&& post.growth_seq() == pre.growth_seq()
    &&& post.buffers_seq() == pre.buffers_seq()
    &&& post.heaps_seq() == pre.heaps_seq().update(
        type_index,
        hs.update(
            hs.len() - 1,
            (DeviceMemoryTombstone {
                device_memory: b.device_memory,
                size: b.size,
                first_free: (b.first_free + pad + requirements.size) as u64,
            }),
        ),
    )
    &&& post.images_seq() == pre.images_seq().push(
        Some(
            (ImageTombstone {
                image,
                heap_type_index: type_index as usize,
                heap_index: (hs.len() - 1) as usize,
                allocated_offset: offset,
                allocation_size: requirements.size,
            }),
        ),
    )
}

/// Like [`image_placed`], for a buffer placement.
pub open spec fn buffer_placed(
    pre: DustObjectStore,
    post: DustObjectStore,
    type_index: int,
    buffer: u64,
    requirements: MemoryRequirements,
    id: usize,
    device_memory: u64,
    offset: u64,
) -> bool {
    let hs = pre.heaps_seq()[type_index];
    let b = hs[hs.len() - 1];
    let pad = alignment_padding(b.first_free, requirements.alignment);
    &&& 0 <= type_index < pre.heaps_seq().len()
    &&& newest_block_fits(hs, requirements.size, requirements.alignment)
    &&& device_memory == b.device_memory
    &&& offset == b.first_free + pad
    &&& (offset as int) % (requirements.alignment as int) == 0
    &&& id == pre.buffers_seq().len()
    &&& post.types_seq() == pre.types_seq()
    &&& post.growth_seq() == pre.growth_seq()
    &&& post.images_seq() == pre.images_seq()
    &&& post.heaps_seq() == pre.heaps_seq().update(
        type_index,
        hs.update(
            hs.len() - 1,
            (DeviceMemoryTombstone {
                device_memory: b.device_memory,
                size: b.size,
                first_free: (b.first_free + pad + requirements.size) as u64,
            }),
        ),
    )
    &&& post.buffers_seq() == pre.buffers_seq().push(
        Some(
            (BufferTombstone {
                buffer,
                heap_type_index: type_index as usize,
                heap_index: (hs.len() - 1) as usize,
                allocated_offset: offset,
                allocation_size: requirements.size,
            }),
        ),
    )
}

/// Outcome owed by a first image allocation attempt: a recorded placement
/// to bind, a grow request for the matched type whose newest block lacks
/// room, or failure because no memory type matches.
pub open spec fn image_allocation_step_ok(
    pre: DustObjectStore,
    post: DustObjectStore,
    image: u64,
    requirements: MemoryRequirements,
    required: u32,
    step: AllocationStep,
) -> bool {
    match step {
        AllocationStep::Bind { id, device_memory, offset } => exists|ti: usize|
            {
                &&& #[trigger] is_match_result(
                    pre.types_seq(),
                    requirements.memory_type_bits,
                    required,
                    Ok(ti),
                )
                &&& image_placed(
                    pre,
                    post,
                    ti as int,
                    image,
                    requirements,
                    id,
                    device_memory,
                    offset,
                )
            },
        AllocationStep::GrowHeap { type_index, size } => {
            &&& is_match_result(
                pre.types_seq(),
                requirements.memory_type_bits,
                required,
                Ok(type_index),
            )
            &&& !newest_block_fits(
                pre.heaps_seq()[type_index as int],
                requirements.size,
                requirements.alignment,
            )
            &&& size == pre.growth_seq()[type_index as int]
            &&& same_state(pre, post)
        },
        AllocationStep::Fail { error } => {
            &&& is_match_result(
                pre.types_seq(),
                requirements.memory_type_bits,
                required,
                Err(error),
            )
            &&& same_state(pre, post)
        },
    }
}

/// Like [`image_allocation_step_ok`], for a buffer allocation attempt.
pub open spec fn buffer_allocation_step_ok(
    pre: DustObjectStore,
    post: DustObjectStore,
    buffer: u64,
    requirements: MemoryRequirements,
    required: u32,
    step: AllocationStep,
) -> bool {
    match step {
        AllocationStep::Bind { id, device_memory, offset } => exists|ti: usize|
            {
                &&& #[trigger] is_match_result(
                    pre.types_seq(),
                    requirements.memory_type_bits,
                    required,
                    Ok(ti),
                )
                &&& buffer_placed(
                    pre,
                    post,
                    ti as int,
                    buffer,
                    requirements,
                    id,
                    device_memory,
                    offset,
                )
            },
        AllocationStep::GrowHeap { type_index, size } => {
            &&& is_match_result(
                pre.types_seq(),
                requirements.memory_type_bits,
                required,
                Ok(type_index),
            )
            &&& !newest_block_fits(
                pre.heaps_seq()[type_index as int],
                requirements.size,
                requirements.alignment,
            )
            &&& size == pre.growth_seq()[type_index as int]
            &&& same_state(pre, post)
        },
        AllocationStep::Fail { error } => {
            &&& is_match_result(
                pre.types_seq(),
                requirements.memory_type_bits,
                required,
                Err(error),
            )
            &&& same_state(pre, post)
        },
    }
}

/// Outcome owed by the single retry after a grow request for an image:
/// exactly one block was appended to `type_index` (sized by its old growth
/// counter) and the counter doubled; the retry bound at offset zero of the
/// fresh block when the request fits it, failed otherwise, and never asks
/// to grow again.  A failed device allocation changes nothing.
pub open spec fn image_retry_step_ok(
    pre: DustObjectStore,
    post: DustObjectStore,
    image: u64,
    requirements: MemoryRequirements,
    type_index: usize,
    device_memory: Result<u64, i32>,
    step: AllocationStep,
) -> bool {
    match device_memory {
        Err(code) => {
            &&& step == (AllocationStep::Fail {
                error: DustError::DeviceMemoryAllocationFailed(code),
            })
            &&& same_state(pre, post)
        },
        Ok(mem) => {
            let ti = type_index as int;
            let g = pre.growth_seq()[ti];
            &&& !(step is GrowHeap)
            &&& post.types_seq() == pre.types_seq()
            &&& post.growth_seq() == pre.growth_seq().update(ti, double_capped(g))
            &&& post.buffers_seq() == pre.buffers_seq()
            &&& if requirements.size <= g {
                &&& step == (AllocationStep::Bind {
                    id: pre.images_seq().len() as usize,
                    device_memory: mem,
                    offset: 0,
                })
                &&& post.heaps_seq() == pre.heaps_seq().update(
                    ti,
                    pre.heaps_seq()[ti].push(
                        (DeviceMemoryTombstone {
                            device_memory: mem,
                            size: g,
                            first_free: requirements.size,
                        }),
                    ),
                )
                &&& post.images_seq() == pre.images_seq().push(
                    Some(
                        (ImageTombstone {
                            image,
                            heap_type_index: type_index,
                            heap_index: pre.heaps_seq()[ti].len() as usize,
                            allocated_offset: 0,
                            allocation_size: requirements.size,
                        }),
                    ),
                )
            } else {
                &&& step == (AllocationStep::Fail {
                    error: DustError::NoValidHeapForAllocation,
                })
                &&& post.heaps_seq() == pre.heaps_seq().update(
                    ti,
                    pre.heaps_seq()[ti].push(
                        (DeviceMemoryTombstone { device_memory: mem, size: g, first_free: 0 }),
                    ),
                )
                &&& post.images_seq() == pre.images_seq()
            }
        },
    }
}

/// Like [`image_retry_step_ok`], for the single retry of a buffer
/// allocation.
pub open spec fn buffer_retry_step_ok(
    pre: DustObjectStore,
    post: DustObjectStore,
    buffer: u64,
    requirements: MemoryRequirements,
    type_index: usize,
    device_memory: Result<u64, i32>,
    step: AllocationStep,
) -> bool {
    match device_memory {
        Err(code) => {
            &&& step == (AllocationStep::Fail {
                error: DustError::DeviceMemoryAllocationFailed(code),
            })
            &&& same_state(pre, post)
        },
        Ok(mem) => {
            let ti = type_index as int;
            let g = pre.growth_seq()[ti];
            &&& !(step is GrowHeap)
            &&& post.types_seq() == pre.types_seq()
            &&& post.growth_seq() == pre.growth_seq().update(ti, double_capped(g))
            &&& post.images_seq() == pre.images_seq()
            &&& if requirements.size <= g {
                &&& step == (AllocationStep::Bind {
                    id: pre.buffers_seq().len() as usize,
                    device_memory: mem,
                    offset: 0,
                })
                &&& post.heaps_seq() == pre.heaps_seq().update(
                    ti,
                    pre.heaps_seq()[ti].push(
                        (DeviceMemoryTombstone {
                            device_memory: mem,
                            size: g,
                            first_free: requirements.size,
                        }),
                    ),
                )
                &&& post.buffers_seq() == pre.buffers_seq().push(
                    Some(
                        (BufferTombstone {
                            buffer,
                            heap_type_index: type_index,
                            heap_index: pre.heaps_seq()[ti].len() as usize,
                            allocated_offset: 0,
                            allocation_size: requirements.size,
                        }),
                    ),
                )
            } else {
                &&& step == (AllocationStep::Fail {
                    error: DustError::NoValidHeapForAllocation,
                })
                &&& post.heaps_seq() == pre.heaps_seq().update(
                    ti,
                    pre.heaps_seq()[ti].push(
                        (DeviceMemoryTombstone { device_memory: mem, size: g, first_free: 0 }),
                    ),
                )
                &&& post.buffers_seq() == pre.buffers_seq()
            }
        },
    }
}

/// The matcher is deterministic: any two outcomes it owes for the same
/// types, filter and requirement are the same outcome.  Together with
/// [`DustObjectStore::match_memory_type`] ensuring exactly such an outcome,
/// repeated calls on an unchanged store always return the same index.
pub proof fn lemma_match_memory_type_deterministic(
    types: Seq<u32>,
    filter: u32,
    required: u32,
    r1: Result<usize, DustError>,
    r2: Result<usize, DustError>,
)
    requires
        is_match_result(types, filter, required, r1),
        is_match_result(types, filter, required, r2),
    ensures
        r1 == r2,
{
    match (r1, r2) {
        (Ok(i1), Ok(i2)) => {
            if i1 < i2 {
                assert(!type_eligible(types, filter, required, i1 as int));
            } else if i2 < i1 {
                assert(!type_eligible(types, filter, required, i2 as int));
            }
        },
        (Ok(i1), Err(_)) => {
            assert(!type_eligible(types, filter, required, i1 as int));
        },
        (Err(_), Ok(i2)) => {
            assert(!type_eligible(types, filter, required, i2 as int));
        },
        (Err(_), Err(_)) => {},
    }
}

impl DustObjectStore {
    /// Append an image placement record; its position is the new id.
    fn commit_image(
        &mut self,
        image: u64,
        type_index: usize,
        heap_index: usize,
        offset: u64,
        size: u64,
    ) -> (id: usize)
        requires
            old(self).wf(),
            old(self).placement_valid(type_index as int, heap_index as int, offset, size),
        ensures
            final(self).wf(),
            final(self).types_seq() == old(self).types_seq(),
            final(self).growth_seq() == old(self).growth_seq(),
            final(self).heaps_seq() == old(self).heaps_seq(),
            final(self).buffers_seq() == old(self).buffers_seq(),
            final(self).images_seq() == old(self).images_seq().push(
                Some(
                    (ImageTombstone {
                        image,
                        heap_type_index: type_index,
                        heap_index,
                        allocated_offset: offset,
                        allocation_size: size,
                    }),
                ),
            ),
            id == old(self).images_seq().len(),
    {
        let ghost pre = *self;
        let tombstone = ImageTombstone {
            image,
            heap_type_index: type_index,
            heap_index,
            allocated_offset: offset,
            allocation_size: size,
        };
        let id = self.images.len();
        self.images.push(Some(tombstone));
        proof {
            assert forall|j: int|
                0 <= j < self.images_seq().len() && self.images_seq()[j] is Some implies {
                let t = (#[trigger] self.images_seq()[j])->Some_0;
                self.placement_valid(
                    t.heap_type_index as int,
                    t.heap_index as int,
                    t.allocated_offset,
                    t.allocation_size,
                )
            } by {
                if j < pre.images_seq().len() {
                    let t = pre.images_seq()[j]->Some_0;
                    assert(pre.placement_valid(
                        t.heap_type_index as int,
                        t.heap_index as int,
                        t.allocated_offset,
                        t.allocation_size,
                    ));
                }
            }
        }
        id
    }

    /// Append a buffer placement record; its position is the new id.
    fn commit_buffer(
        &mut self,
        buffer: u64,
        type_index: usize,
        heap_index: usize,
        offset: u64,
        size: u64,
    ) -> (id: usize)
        requires
            old(self).wf(),
            old(self).placement_valid(type_index as int, heap_index as int, offset, size),
        ensures
            final(self).wf(),
            final(self).types_seq() == old(self).types_seq(),
            final(self).growth_seq() == old(self).growth_seq(),
            final(self).heaps_seq() == old(self).heaps_seq(),
            final(self).images_seq() == old(self).images_seq(),
            final(self).buffers_seq() == old(self).buffers_seq().push(
                Some(
                    (BufferTombstone {
                        buffer,
                        heap_type_index: type_index,
                        heap_index,
                        allocated_offset: offset,
                        allocation_size: size,
                    }),
                ),
            ),
            id == old(self).buffers_seq().len(),
    {
        let ghost pre = *self;
        let tombstone = BufferTombstone {
            buffer,
            heap_type_index: type_index,
            heap_index,
            allocated_offset: offset,
            allocation_size: size,
        };
        let id = self.buffers.len();
        self.buffers.push(Some(tombstone));
        proof {
            assert forall|j: int|
                0 <= j < self.buffers_seq().len() && self.buffers_seq()[j] is Some implies {
                let t = (#[trigger] self.buffers_seq()[j])->Some_0;
                self.placement_valid(
                    t.heap_type_index as int,
                    t.heap_index as int,
                    t.allocated_offset,
                    t.allocation_size,
                )
            } by {
                if j < pre.buffers_seq().len() {
                    let t = pre.buffers_seq()[j]->Some_0;
                    assert(pre.placement_valid(
                        t.heap_type_index as int,
                        t.heap_index as int,
                        t.allocated_offset,
                        t.allocation_size,
                    ));
                }
            }
        }
        id
    }

    /// First attempt to place an image with the given requirements in
    /// device-local memory.
    ///
    /// Resolves the memory type, tries the newest block of that type, and
    /// either records the placement (bind it next), asks for one new block
    /// of the type's current growth size, or fails because no type
    /// matches.  A [`AllocationStep::GrowHeap`] answer is completed by
    /// [`Self::retry_image_allocation`].
    pub fn allocate_device_image(&mut self, image: u64, requirements: &MemoryRequirements) -> (step:
        AllocationStep)
        requires
            old(self).wf(),
            requirements.alignment >= 1,
        ensures
            final(self).wf(),
            image_allocation_step_ok(
                *old(self),
                *final(self),
                image,
                *requirements,
                MEMORY_DEVICE_LOCAL,
                step,
            ),
    {
        let ghost pre = *self;
        let type_index = match self.match_memory_type(
            requirements.memory_type_bits,
            MEMORY_DEVICE_LOCAL,
        ) {
            Ok(ti) => ti,
            Err(error) => {
                return AllocationStep::Fail { error };
            },
        };
        match self.place(type_index, requirements.size, requirements.alignment) {
            Ok((heap_index, device_memory, offset)) => {
                let id = self.commit_image(
                    image,
                    type_index,
                    heap_index,
                    offset,
                    requirements.size,
                );
                proof {
                    assert(image_placed(
                        pre,
                        *self,
                        type_index as int,
                        image,
                        *requirements,
                        id,
                        device_memory,
                        offset,
                    ));
                    assert(is_match_result(
                        pre.types_seq(),
                        requirements.memory_type_bits,
                        MEMORY_DEVICE_LOCAL,
                        Ok(type_index),
                    ));
                }
                AllocationStep::Bind { id, device_memory, offset }
            },
            Err(_) => {
                let size = self.heap_growth[type_index];
                AllocationStep::GrowHeap { type_index, size }
            },
        }
    }

    /// Complete an image allocation after the grow request it asked for:
    /// record the new block with the device's answer and retry the
    /// placement exactly once.  Never asks to grow again.
    pub fn retry_image_allocation(
        &mut self,
        image: u64,
        requirements: &MemoryRequirements,
        type_index: usize,
        device_memory: Result<u64, i32>,
    ) -> (step: AllocationStep)
        requires
            old(self).wf(),
            requirements.alignment >= 1,
            type_index < old(self).heaps_seq().len(),
        ensures
            final(self).wf(),
            image_retry_step_ok(
                *old(self),
                *final(self),
                image,
                *requirements,
                type_index,
                device_memory,
                step,
            ),
    {
        let ghost pre = *self;
        let mem = match device_memory {
            Ok(m) => m,
            Err(code) => {
                return AllocationStep::Fail {
                    error: DustError::DeviceMemoryAllocationFailed(code),
                };
            },
        };
        self.allocate_new_heap(type_index, mem);
        let ghost grown = *self;
        let ghost ti = type_index as int;
        let ghost g = pre.growth_seq()[ti];
        proof {
            assert(grown.heaps_seq()[ti] == pre.heaps_seq()[ti].push(
                (DeviceMemoryTombstone { device_memory: mem, size: g, first_free: 0 }),
            ));
            assert(alignment_padding(0, requirements.alignment) == 0);
        }
        match self.place(type_index, requirements.size, requirements.alignment) {
            Ok((heap_index, device_memory2, offset)) => {
                let id = self.commit_image(
                    image,
                    type_index,
                    heap_index,
                    offset,
                    requirements.size,
                );
                proof {
                    assert(requirements.size <= g);
                    assert(offset == 0);
                    assert(device_memory2 == mem);
                    assert(heap_index == pre.heaps_seq()[ti].len());
                    let nb = DeviceMemoryTombstone {
                        device_memory: mem,
                        size: g,
                        first_free: requirements.size,
                    };
                    assert(grown.heaps_seq()[ti].update(grown.heaps_seq()[ti].len() - 1, nb)
                        =~= pre.heaps_seq()[ti].push(nb));
                    assert(self.heaps_seq() =~= pre.heaps_seq().update(
                        ti,
                        pre.heaps_seq()[ti].push(nb),
                    ));
                }
                AllocationStep::Bind { id, device_memory: device_memory2, offset }
            },
            Err(_) => {
                proof {
                    assert(!block_fits(
                        grown.heaps_seq()[ti][grown.heaps_seq()[ti].len() - 1],
                        requirements.size,
                        requirements.alignment,
                    ));
                    assert(requirements.size > g);
                }
                AllocationStep::Fail { error: DustError::NoValidHeapForAllocation }
            },
        }
    }

    /// First attempt to place a buffer with the given requirements in
    /// memory whose capability flags include all of `required_flags`.
    fn allocate_buffer(
        &mut self,
        buffer: u64,
        requirements: &MemoryRequirements,
        required_flags: u32,
    ) -> (step: AllocationStep)
        requires
            old(self).wf(),
            requirements.alignment >= 1,
        ensures
            final(self).wf(),
            buffer_allocation_step_ok(
                *old(self),
                *final(self),
                buffer,
                *requirements,
                required_flags,
                step,
            ),
    {
        let ghost pre = *self;
        let type_index = match self.match_memory_type(
            requirements.memory_type_bits,
            required_flags,
        ) {
            Ok(ti) => ti,
            Err(error) => {
                return AllocationStep::Fail { error };
            },
        };
        match self.place(type_index, requirements.size, requirements.alignment) {
            Ok((heap_index, device_memory, offset)) => {
                let id = self.commit_buffer(
                    buffer,
                    type_index,
                    heap_index,
                    offset,
                    requirements.size,
                );
                proof {
                    assert(buffer_placed(
                        pre,
                        *self,
                        type_index as int,
                        buffer,
                        *requirements,
                        id,
                        device_memory,
                        offset,
                    ));
                    assert(is_match_result(
                        pre.types_seq(),
                        requirements.memory_type_bits,
                        required_flags,
                        Ok(type_index),
                    ));
                }
                AllocationStep::Bind { id, device_memory, offset }
            },
            Err(_) => {
                let size = self.heap_growth[type_index];
                AllocationStep::GrowHeap { type_index, size }
            },
        }
    }

    /// Place a buffer in device-local memory.
    pub fn allocate_device_buffer(
        &mut self,
        buffer: u64,
        requirements: &MemoryRequirements,
    ) -> (step: AllocationStep)
        requires
            old(self).wf(),
            requirements.alignment >= 1,
        ensures
            final(self).wf(),
            buffer_allocation_step_ok(
                *old(self),
                *final(self),
                buffer,
                *requirements,
                MEMORY_DEVICE_LOCAL,
                step,
            ),
    {
        self.allocate_buffer(buffer, requirements, MEMORY_DEVICE_LOCAL)
    }

    /// Place a buffer in device-local, host-visible and host-cached
    /// memory.
    pub fn allocate_local_cached_buffer(
        &mut self,
        buffer: u64,
        requirements: &MemoryRequirements,
    ) -> (step: AllocationStep)
        requires
            old(self).wf(),
            requirements.alignment >= 1,
        ensures
            final(self).wf(),
            buffer_allocation_step_ok(
                *old(self),
                *final(self),
                buffer,
                *requirements,
                MEMORY_DEVICE_LOCAL | MEMORY_HOST_VISIBLE | MEMORY_HOST_CACHED,
                step,
            ),
    {
        self.allocate_buffer(
            buffer,
            requirements,
            MEMORY_DEVICE_LOCAL | MEMORY_HOST_VISIBLE | MEMORY_HOST_CACHED,
        )
    }

    /// Place a buffer in device-local, host-visible and host-coherent
    /// memory.
    pub fn allocate_local_coherent_buffer(
        &mut self,
        buffer: u64,
        requirements: &MemoryRequirements,
    ) -> (step: AllocationStep)
        requires
            old(self).wf(),
            requirements.alignment >= 1,
        ensures
            final(self).wf(),
            buffer_allocation_step_ok(
                *old(self),
                *final(self),
                buffer,
                *requirements,
                MEMORY_DEVICE_LOCAL | MEMORY_HOST_VISIBLE | MEMORY_HOST_COHERENT,
                step,
            ),
    {
        self.allocate_buffer(
            buffer,
            requirements,
            MEMORY_DEVICE_LOCAL | MEMORY_HOST_VISIBLE | MEMORY_HOST_COHERENT,
        )
    }

    /// Place a buffer in device-local and host-visible memory.
    pub fn allocate_local_visible_buffer(
        &mut self,
        buffer: u64,
        requirements: &MemoryRequirements,
    ) -> (step: AllocationStep)
        requires
            old(self).wf(),
            requirements.alignment >= 1,
        ensures
            final(self).wf(),
            buffer_allocation_step_ok(
                *old(self),
                *final(self),
                buffer,
                *requirements,
                MEMORY_DEVICE_LOCAL | MEMORY_HOST_VISIBLE,
                step,
            ),
    {
        self.allocate_buffer(buffer, requirements, MEMORY_DEVICE_LOCAL | MEMORY_HOST_VISIBLE)
    }

    /// Complete a buffer allocation after the grow request it asked for:
    /// record the new block with the device's answer and retry the
    /// placement exactly once.  Never asks to grow again.
    pub fn retry_buffer_allocation(
        &mut self,
        buffer: u64,
        requirements: &MemoryRequirements,
        type_index: usize,
        device_memory: Result<u64, i32>,
    ) -> (step: AllocationStep)
        requires
            old(self).wf(),
            requirements.alignment >= 1,
            type_index < old(self).heaps_seq().len(),
        ensures
            final(self).wf(),
            buffer_retry_step_ok(
                *old(self),
                *final(self),
                buffer,
                *requirements,
                type_index,
                device_memory,
                step,
            ),
    {
        let ghost pre = *self;
        let mem = match device_memory {
            Ok(m) => m,
            Err(code) => {
                return AllocationStep::Fail {
                    error: DustError::DeviceMemoryAllocationFailed(code),
                };
            },
        };
        self.allocate_new_heap(type_index, mem);
        let ghost grown = *self;
        let ghost ti = type_index as int;
        let ghost g = pre.growth_seq()[ti];
        proof {
            assert(grown.heaps_seq()[ti] == pre.heaps_seq()[ti].push(
                (DeviceMemoryTombstone { device_memory: mem, size: g, first_free: 0 }),
            ));
            assert(alignment_padding(0, requirements.alignment) == 0);
        }
        match self.place(type_index, requirements.size, requirements.alignment) {
            Ok((heap_index, device_memory2, offset)) => {
                let id = self.commit_buffer(
                    buffer,
                    type_index,
                    heap_index,
                    offset,
                    requirements.size,
                );
                proof {
                    assert(requirements.size <= g);
                    assert(offset == 0);
                    assert(device_memory2 == mem);
                    assert(heap_index == pre.heaps_seq()[ti].len());
                    let nb = DeviceMemoryTombstone {
                        device_memory: mem,
                        size: g,
                        first_free: requirements.size,
                    };
                    assert(grown.heaps_seq()[ti].update(grown.heaps_seq()[ti].len() - 1, nb)
                        =~= pre.heaps_seq()[ti].push(nb));
                    assert(self.heaps_seq() =~= pre.heaps_seq().update(
                        ti,
                        pre.heaps_seq()[ti].push(nb),
                    ));
                }
                AllocationStep::Bind { id, device_memory: device_memory2, offset }
            },
            Err(_) => {
                proof {
                    assert(!block_fits(
                        grown.heaps_seq()[ti][grown.heaps_seq()[ti].len() - 1],
                        requirements.size,
                        requirements.alignment,
                    ));
                    assert(requirements.size > g);
                }
                AllocationStep::Fail { error: DustError::NoValidHeapForAllocation }
            },
        }
    }

    /// Handle of the live image record at `image_id`; none when the id is
    /// out of range or the record was cleared.
    pub fn get_image(&self, image_id: ImageId) -> (r: Option<u64>)
        ensures
            r == spec_get_image(*self, image_id as int),
    {
        if image_id >= self.images.len() {
            return None;
        }
        match self.images[image_id] {
            Some(tombstone) => Some(tombstone.image),
            None => None,
        }
    }

    /// Handle of the live buffer record at `buffer_id`; none when the id
    /// is out of range or the record was cleared.
    pub fn get_buffer(&self, buffer_id: BufferId) -> (r: Option<u64>)
        ensures
            r == spec_get_buffer(*self, buffer_id as int),
    {
        if buffer_id >= self.buffers.len() {
            return None;
        }
        match self.buffers[buffer_id] {
            Some(tombstone) => Some(tombstone.buffer),
            None => None,
        }
    }

    /// Clear the image record at `image_id` in place and hand back the
    /// handle the embedding program must destroy.  Out-of-range or
    /// already-cleared ids change nothing.  The byte range the record
    /// occupied stays counted as used in its block.
    pub fn deallocate_image(&mut self, image_id: ImageId) -> (destroyed: Option<u64>)
        requires
            old(self).wf(),
        ensures
            final(self).wf(),
            final(self).types_seq() == old(self).types_seq(),
            final(self).growth_seq() == old(self).growth_seq(),
            final(self).heaps_seq() == old(self).heaps_seq(),
            final(self).buffers_seq() == old(self).buffers_seq(),
            destroyed == spec_get_image(*old(self), image_id as int),
            match spec_get_image(*old(self), image_id as int) {
                Some(_) => final(self).images_seq() == old(self).images_seq().update(
                    image_id as int,
                    None::<ImageTombstone>,
                ),
                None => final(self).images_seq() == old(self).images_seq(),
            },
    {
        let ghost pre = *self;
        if image_id >= self.images.len() {
            return None;
        }
        match self.images[image_id] {
            Some(tombstone) => {
                self.images[image_id] = None;
                proof {
                    assert forall|j: int|
                        0 <= j < self.images_seq().len() && self.images_seq()[j] is Some implies {
                        let t = (#[trigger] self.images_seq()[j])->Some_0;
                        self.placement_valid(
                            t.heap_type_index as int,
                            t.heap_index as int,
                            t.allocated_offset,
                            t.allocation_size,
                        )
                    } by {
                        let t = pre.images_seq()[j]->Some_0;
                        assert(pre.placement_valid(
                            t.heap_type_index as int,
                            t.heap_index as int,
                            t.allocated_offset,
                            t.allocation_size,
                        ));
                    }
                }
                Some(tombstone.image)
            },
            None => None,
        }
    }

    /// Clear the buffer record at `buffer_id` in place and hand back the
    /// handle the embedding program must destroy.  Out-of-range or
    /// already-cleared ids change nothing.  The byte range the record
    /// occupied stays counted as used in its block.
    pub fn deallocate_buffer(&mut self, buffer_id: BufferId) -> (destroyed: Option<u64>)
        requires
            old(self).wf(),
        ensures
            final(self).wf(),
            final(self).types_seq() == old(self).types_seq(),
            final(self).growth_seq() == old(self).growth_seq(),
            final(self).heaps_seq() == old(self).heaps_seq(),
            final(self).images_seq() == old(self).images_seq(),
            destroyed == spec_get_buffer(*old(self), buffer_id as int),
            match spec_get_buffer(*old(self), buffer_id as int) {
                Some(_) => final(self).buffers_seq() == old(self).buffers_seq().update(
                    buffer_id as int,
                    None::<BufferTombstone>,
                ),
                None => final(self).buffers_seq() == old(self).buffers_seq(),
            },
    {
        let ghost pre = *self;
        if buffer_id >= self.buffers.len() {
            return None;
        }
        match self.buffers[buffer_id] {
            Some(tombstone) => {
                self.buffers[buffer_id] = None;
                proof {
                    assert forall|j: int|
                        0 <= j < self.buffers_seq().len() && self.buffers_seq()[j] is Some implies {
                        let t = (#[trigger] self.buffers_seq()[j])->Some_0;
                        self.placement_valid(
                            t.heap_type_index as int,
                            t.heap_index as int,
                            t.allocated_offset,
                            t.allocation_size,
                        )
                    } by {
                        let t = pre.buffers_seq()[j]->Some_0;
                        assert(pre.placement_valid(
                            t.heap_type_index as int,
                            t.heap_index as int,
                            t.allocated_offset,
                            t.allocation_size,
                        ));
                    }
                }
                Some(tombstone.buffer)
            },
            None => None,
        }
    }
}

/// Handle of the live image record at `id`, or none.
pub open spec fn spec_get_image(s: DustObjectStore, id: int) -> Option<u64> {
    if 0 <= id < s.images_seq().len() {
        match s.images_seq()[id] {
            Some(t) => Some(t.image),
            None => None,
        }
    } else {
        None
    }
}

/// Handle of the live buffer record at `id`, or none.
pub open spec fn spec_get_buffer(s: DustObjectStore, id: int) -> Option<u64> {
    if 0 <= id < s.buffers_seq().len() {
        match s.buffers_seq()[id] {
            Some(t) => Some(t.buffer),
            None => None,
        }
    } else {
        None
    }
}

/// Image ids are stable across deallocation: clearing the record at `id`
/// makes lookups of `id` come back empty and changes no other id's
/// meaning.
pub proof fn lemma_image_id_stability(pre: DustObjectStore, post: DustObjectStore, id: int)
    requires
        0 <= id < pre.images_seq().len(),
        post.images_seq() == pre.images_seq().update(id, None::<ImageTombstone>),
    ensures
        spec_get_image(post, id) == None::<u64>,
        post.images_seq().len() == pre.images_seq().len(),
        forall|j: int|
            0 <= j < pre.images_seq().len() && j != id ==> spec_get_image(post, j)
                == spec_get_image(pre, j),
{
}

/// Buffer ids are stable across deallocation: clearing the record at `id`
/// makes lookups of `id` come back empty and changes no other id's
/// meaning.
pub proof fn lemma_buffer_id_stability(pre: DustObjectStore, post: DustObjectStore, id: int)
    requires
        0 <= id < pre.buffers_seq().len(),
        post.buffers_seq() == pre.buffers_seq().update(id, None::<BufferTombstone>),
    ensures
        spec_get_buffer(post, id) == None::<u64>,
        post.buffers_seq().len() == pre.buffers_seq().len(),
        forall|j: int|
            0 <= j < pre.buffers_seq().len() && j != id ==> spec_get_buffer(post, j)
                == spec_get_buffer(pre, j),
{
}

/// Image ids are stable across allocation: appending a record leaves every
/// existing id's lookup unchanged, and the fresh id resolves to the new
/// record's handle.
pub proof fn lemma_image_id_stability_append(
    pre: DustObjectStore,
    post: DustObjectStore,
    t: ImageTombstone,
)
    requires
        post.images_seq() == pre.images_seq().push(Some(t)),
    ensures
        forall|j: int|
            0 <= j < pre.images_seq().len() ==> spec_get_image(post, j) == spec_get_image(pre, j),
        spec_get_image(post, pre.images_seq().len() as int) == Some(t.image),
{
}

/// Buffer ids are stable across allocation: appending a record leaves
/// every existing id's lookup unchanged, and the fresh id resolves to the
/// new record's handle.
pub proof fn lemma_buffer_id_stability_append(
    pre: DustObjectStore,
    post: DustObjectStore,
    t: BufferTombstone,
)
    requires
        post.buffers_seq() == pre.buffers_seq().push(Some(t)),
    ensures
        forall|j: int|
            0 <= j < pre.buffers_seq().len() ==> spec_get_buffer(post, j) == spec_get_buffer(
                pre,
                j,
            ),
        spec_get_buffer(post, pre.buffers_seq().len() as int) == Some(t.buffer),
{
}

/// Occupancy is monotonic across an image placement: no block's bump
/// offset decreases, and the newest block of the placed type advances by
/// exactly the alignment padding plus the placed size.
pub proof fn lemma_image_placement_occupancy(
    pre: DustObjectStore,
    post: DustObjectStore,
    type_index: int,
    image: u64,
    requirements: MemoryRequirements,
    id: usize,
    device_memory: u64,
    offset: u64,
)
    requires
        requirements.alignment >= 1,
        image_placed(pre, post, type_index, image, requirements, id, device_memory, offset),
    ensures
        post.heaps_seq().len() == pre.heaps_seq().len(),
        forall|i: int, k: int|
            0 <= i < pre.heaps_seq().len() && 0 <= k < pre.heaps_seq()[i].len() ==> (
            #[trigger] post.heaps_seq()[i][k]).first_free >= pre.heaps_seq()[i][k].first_free,
        ({
            let hs = pre.heaps_seq()[type_index];
            let b = hs[hs.len() - 1];
            post.heaps_seq()[type_index][hs.len() - 1].first_free == b.first_free
                + alignment_padding(b.first_free, requirements.alignment) + requirements.size
        }),
{
    let hs = pre.heaps_seq()[type_index];
    let b = hs[hs.len() - 1];
    assert(alignment_padding(b.first_free, requirements.alignment) >= 0);
    assert forall|i: int, k: int|
        0 <= i < pre.heaps_seq().len() && 0 <= k < pre.heaps_seq()[i].len() implies (
    #[trigger] post.heaps_seq()[i][k]).first_free >= pre.heaps_seq()[i][k].first_free by {
        if i == type_index && k == hs.len() - 1 {
            assert(post.heaps_seq()[i][k].first_free == b.first_free + alignment_padding(
                b.first_free,
                requirements.alignment,
            ) + requirements.size);
        } else {
            assert(post.heaps_seq()[i][k] == pre.heaps_seq()[i][k]);
        }
    }
}

/// Occupancy is monotonic across a buffer placement: no block's bump
/// offset decreases, and the newest block of the placed type advances by
/// exactly the alignment padding plus the placed size.
pub proof fn lemma_buffer_placement_occupancy(
    pre: DustObjectStore,
    post: DustObjectStore,
    type_index: int,
    buffer: u64,
    requirements: MemoryRequirements,
    id: usize,
    device_memory: u64,
    offset: u64,
)
    requires
        requirements.alignment >= 1,
        buffer_placed(pre, post, type_index, buffer, requirements, id, device_memory, offset),
    ensures
        post.heaps_seq().len() == pre.heaps_seq().len(),
        forall|i: int, k: int|
            0 <= i < pre.heaps_seq().len() && 0 <= k < pre.heaps_seq()[i].len() ==> (
            #[trigger] post.heaps_seq()[i][k]).first_free >= pre.heaps_seq()[i][k].first_free,
        ({
            let hs = pre.heaps_seq()[type_index];
            let b = hs[hs.len() - 1];
            post.heaps_seq()[type_index][hs.len() - 1].first_free == b.first_free
                + alignment_padding(b.first_free, requirements.alignment) + requirements.size
        }),
{
    let hs = pre.heaps_seq()[type_index];
    let b = hs[hs.len() - 1];
    assert(alignment_padding(b.first_free, requirements.alignment) >= 0);
    assert forall|i: int, k: int|
        0 <= i < pre.heaps_seq().len() && 0 <= k < pre.heaps_seq()[i].len() implies (
    #[trigger] post.heaps_seq()[i][k]).first_free >= pre.heaps_seq()[i][k].first_free by {
        if i == type_index && k == hs.len() - 1 {
            assert(post.heaps_seq()[i][k].first_free == b.first_free + alignment_padding(
                b.first_free,
                requirements.alignment,
            ) + requirements.size);
        } else {
            assert(post.heaps_seq()[i][k] == pre.heaps_seq()[i][k]);
        }
    }
}

/// Geometric growth: in a well-formed store whose pool for type `i`
/// started with a block of size `g0`, the `n`th block (counting from one)
/// has size `g0 * 2^(n-1)`, as long as that size still fits in 64 bits.
pub proof fn lemma_growth_doubling(s: DustObjectStore, i: int, n: int)
    requires
        s.wf(),
        0 <= i < s.heaps_seq().len(),
        0 < n <= s.heaps_seq()[i].len(),
        s.heaps_seq()[i][0].size * pow2((n - 1) as nat) <= u64::MAX,
    ensures
        s.heaps_seq()[i][n - 1].size == s.heaps_seq()[i][0].size * pow2((n - 1) as nat),
    decreases n,
{
    let g0 = s.heaps_seq()[i][0].size;
    if n == 1 {
        assert(pow2(0) == 1) by {
            vstd::arithmetic::power2::lemma2_to64();
        }
    } else {
        lemma_pow2_unfold((n - 1) as nat);
        assert(pow2((n - 2) as nat) <= pow2((n - 1) as nat)) by {
            vstd::arithmetic::power2::lemma_pow2_strictly_increases((n - 2) as nat, (n - 1) as nat);
        }
        assert(g0 * pow2((n - 2) as nat) <= g0 * pow2((n - 1) as nat)) by (nonlinear_arith)
            requires
                pow2((n - 2) as nat) <= pow2((n - 1) as nat),
                g0 >= 0,
        ;
        lemma_growth_doubling(s, i, n - 1);
        let prev = s.heaps_seq()[i][n - 2].size;
        let k = n - 2;
        assert(s.heaps_seq()[i][k + 1].size == double_capped(s.heaps_seq()[i][k].size));
        assert(s.heaps_seq()[i][n - 1].size == double_capped(prev));
        assert(g0 * pow2((n - 1) as nat) == 2 * (g0 * pow2((n - 2) as nat))) by (nonlinear_arith)
            requires
                pow2((n - 1) as nat) == 2 * pow2((n - 2) as nat),
        ;
        assert(prev <= u64::MAX / 2);
    }
}

} // verus!
