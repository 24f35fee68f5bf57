//! The first steps of the kernel's memory manager, in the order in which
//! they must be taken: first what the loader left in the low half of the
//! address space is unmapped, then the frame allocator is seeded from the
//! memory map of the handoff block.

use vstd::prelude::*;
use crate::handoff::KernelArgs;
use crate::mapping::{unmap_actions, unmap_error_of, unmap_range, PageTableAction};
use crate::memory::FrameMemory;
use crate::phys::{
    init_phys_alloc_from_mmap, map_error, map_verdict, usable_frames, LinkedListAllocator,
    PhysInitError,
};
use crate::virt::KERNEL_MAP_OFFSET;

verus! {

/// The range from address zero up to `KERNEL_MAP_OFFSET` is a range of whole
/// pages in ascending order.
proof fn lemma_loader_range()
    ensures
        unmap_error_of(0, KERNEL_MAP_OFFSET) is None,
{
    assert(0u64 & 0x0000_FFFF_FFFF_FFFFu64 == 0) by (bit_vector);
}

/// Token of the first step: whoever holds it has been told how to discard
/// the loader's mappings.
pub struct LoaderSpaceReclaimed {
    told: bool,
}

/// The first step. Says which page-table changes discard the loader's
/// mappings: the entries that translate the addresses below
/// `KERNEL_MAP_OFFSET`, and after them the flush of all cached translations.
/// The caller carries them out, in order, before it takes the second step
/// with the token returned.
pub fn reclaim_loader_space() -> (r: (Vec<PageTableAction>, LoaderSpaceReclaimed))
    ensures
        r.0@ == unmap_actions(0, KERNEL_MAP_OFFSET),
        r.0@.len() > 0,
        r.0@.last() == PageTableAction::FlushAll,
{
    proof {
        lemma_loader_range();
    }
    let actions = match unmap_range(0, KERNEL_MAP_OFFSET) {
        Ok(actions) => actions,
        Err(_) => Vec::new(),
    };
    (actions, LoaderSpaceReclaimed { told: true })
}

/// The second step, taken once the loader's mappings are gone: seeds the
/// frame allocator from the memory map of the handoff block. The direct-map
/// window must stand, since the free lists are written through it. A memory
/// map without usable memory, or with a usable region off a page boundary or
/// beyond the window, is refused and leaves the allocator as it was.
pub fn init<M: FrameMemory>(
    reclaimed: LoaderSpaceReclaimed,
    args: &KernelArgs,
    phys: &mut LinkedListAllocator,
    mem: &mut M,
) -> (r: Result<(), PhysInitError>)
    requires
        old(phys).wf(old(mem)),
        map_error(args.descriptors()) is None ==> usable_frames(
            args.descriptors(),
        ).no_duplicates() && forall|k: int|
            #![trigger usable_frames(args.descriptors())[k]]
            0 <= k < usable_frames(args.descriptors()).len() ==> old(mem).mapped(
                usable_frames(args.descriptors())[k],
            ) && !old(phys).is_free(usable_frames(args.descriptors())[k]),
    ensures
        r == map_verdict(args.descriptors()),
        final(phys).wf(final(mem)),
        final(phys).clean@ == old(phys).clean@,
        forall|f: u64| #[trigger] final(mem).mapped(f) == old(mem).mapped(f),
        r is Ok ==> final(phys).dirty@ == usable_frames(args.descriptors()).reverse() + old(phys).dirty@,
        r is Err ==> final(phys).dirty@ == old(phys).dirty@,
{
    let mmap = args.memory_map();
    init_phys_alloc_from_mmap(phys, mem, &mmap)
}

} // verus!
