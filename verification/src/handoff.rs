//! The handoff block that the loader passes to the kernel entry point, and the
//! merging of the firmware memory map with what the loader allocated.

use vstd::prelude::*;
use arrayvec::ArrayVec;
use crate::addr::{align_up_spec, pages_needed, PAGE_SIZE, PHYS_MAP_OFFSET, PHYS_WINDOW_SIZE};
use crate::descriptor::MemoryDescriptor;

verus! {

/// Number of descriptors that the handoff block can hold.
pub const KERNEL_ARGS_MDL_SIZE: usize = 512;

/// `arrayvec::ArrayVec`, a vector of fixed capacity stored inline.
#[verifier::external_type_specification]
#[verifier::external_body]
#[verifier::reject_recursive_types(T)]
pub struct ExArrayVec<T, const CAP: usize>(ArrayVec<T, CAP>);

/// The descriptors that a fixed-capacity list holds, in order.
pub uninterp spec fn mdl_contents(list: ArrayVec<MemoryDescriptor, 512>) -> Seq<MemoryDescriptor>;

/// `ArrayVec::new` returns an empty vector.
#[verifier::external_body]
fn mdl_new() -> (list: ArrayVec<MemoryDescriptor, 512>)
    ensures
        mdl_contents(list) == Seq::<MemoryDescriptor>::empty(),
{
    ArrayVec::new()
}

/// `ArrayVec::len` returns the number of elements held.
#[verifier::external_body]
fn mdl_len(list: &ArrayVec<MemoryDescriptor, 512>) -> (n: usize)
    ensures
        n == mdl_contents(*list).len(),
        n <= 512,
{
    list.len()
}

/// `ArrayVec::try_push` appends the element while fewer than the capacity are
/// held, and otherwise leaves the vector as it is and returns an error.
#[verifier::external_body]
fn mdl_try_push(list: &mut ArrayVec<MemoryDescriptor, 512>, d: MemoryDescriptor) -> (pushed: bool)
    ensures
        pushed == (mdl_contents(*old(list)).len() < 512),
        pushed ==> mdl_contents(*final(list)) == mdl_contents(*old(list)).push(d),
        !pushed ==> mdl_contents(*final(list)) == mdl_contents(*old(list)),
{
    list.try_push(d).is_ok()
}

/// `ArrayVec::as_slice` returns the elements held, in order; the element at
/// an index below their number is copied out.
#[verifier::external_body]
fn mdl_get(list: &ArrayVec<MemoryDescriptor, 512>, i: usize) -> (d: Option<MemoryDescriptor>)
    ensures
        d == (if i < mdl_contents(*list).len() {
            Some(mdl_contents(*list)[i as int])
        } else {
            None
        }),
{
    list.as_slice().get(i).copied()
}

/// Geometry of the framebuffer that the firmware set up.
#[derive(Clone, Copy, Debug, PartialEq, Eq, Structural)]
pub struct FramebufferMode {
    /// Visible pixels per line.
    pub width: u32,
    /// Number of lines.
    pub height: u32,
    /// Pixels from the start of one line to the start of the next.
    pub stride: u32,
    /// Firmware code of the pixel layout.
    pub pixel_format: u32,
}

/// The block that the loader hands to the kernel entry point.
pub struct KernelArgs {
    /// Merged memory map, at most `KERNEL_ARGS_MDL_SIZE` descriptors.
    pub mmap: ArrayVec<MemoryDescriptor, 512>,
    /// Handle (address) of the firmware runtime-services table.
    pub uefi_rst: u64,
    /// Direct-map address of the framebuffer.
    pub fb_addr: u64,
    /// Mode of the framebuffer.
    pub fb_info: FramebufferMode,
}

/// Why a handoff block could not be prepared.
#[derive(Clone, Copy, Debug, PartialEq, Eq, Structural)]
pub enum HandoffError {
    /// The merged memory map has more descriptors than the block can hold.
    CapacityExceeded,
    /// A region lies outside what the direct-map window can reach.
    OutsideWindow,
}

impl KernelArgs {
    /// The descriptors held, in order.
    pub open spec fn descriptors(&self) -> Seq<MemoryDescriptor> {
        mdl_contents(self.mmap)
    }

    /// Number of descriptors held.
    pub fn descriptor_count(&self) -> (n: usize)
        ensures
            n == self.descriptors().len(),
            n <= KERNEL_ARGS_MDL_SIZE,
    {
        mdl_len(&self.mmap)
    }

    /// The descriptor at index `i`, if there is one.
    pub fn descriptor(&self, i: usize) -> (d: Option<MemoryDescriptor>)
        ensures
            d == (if i < self.descriptors().len() {
                Some(self.descriptors()[i as int])
            } else {
                None
            }),
    {
        mdl_get(&self.mmap, i)
    }

    /// All descriptors held, in order.
    pub fn memory_map(&self) -> (v: Vec<MemoryDescriptor>)
        ensures
            v@ == self.descriptors(),
    {
        let n = mdl_len(&self.mmap);
        let mut v: Vec<MemoryDescriptor> = Vec::new();
        let mut i: usize = 0;
        while i < n
            invariant
                n == self.descriptors().len(),
                i <= n,
                v@ == self.descriptors().take(i as int),
            decreases n - i,
        {
            match mdl_get(&self.mmap, i) {
                Some(d) => {
                    v.push(d);
                },
                None => {},
            }
            assert(self.descriptors().take(i + 1) == self.descriptors().take(i as int).push(
                self.descriptors()[i as int],
            ));
            i += 1;
        }
        assert(self.descriptors().take(n as int) == self.descriptors());
        v
    }

    /// Stores the handle of the runtime services that survive the exit from
    /// boot services.
    pub fn set_runtime_services(&mut self, handle: u64)
        ensures
            final(self).uefi_rst == handle,
            final(self).mmap == old(self).mmap,
            final(self).fb_addr == old(self).fb_addr,
            final(self).fb_info == old(self).fb_info,
    {
        self.uefi_rst = handle;
    }
}

/// The first descriptor of `loaded`, from index `from` on, that names the same
/// allocation as `d`.
pub open spec fn first_match(loaded: Seq<MemoryDescriptor>, d: MemoryDescriptor, from: int)
    -> Option<MemoryDescriptor>
    decreases loaded.len() - from,
{
    if from < 0 || from >= loaded.len() {
        None
    } else if loaded[from].same_region(&d) {
        Some(loaded[from])
    } else {
        first_match(loaded, d, from + 1)
    }
}

/// What the merged map holds in place of the firmware descriptor `d`: the
/// loader's descriptor of the same allocation if it recorded one, else `d`.
pub open spec fn merged_entry(loaded: Seq<MemoryDescriptor>, d: MemoryDescriptor)
    -> MemoryDescriptor {
    match first_match(loaded, d, 0) {
        Some(l) => l,
        None => d,
    }
}

/// The firmware map with each descriptor replaced by `merged_entry`.
pub open spec fn merged_map(firmware: Seq<MemoryDescriptor>, loaded: Seq<MemoryDescriptor>)
    -> Seq<MemoryDescriptor> {
    Seq::new(firmware.len(), |i: int| merged_entry(loaded, firmware[i]))
}

/// A match found by `first_match` names the same allocation as `d`.
proof fn lemma_first_match_same_region(
    loaded: Seq<MemoryDescriptor>,
    d: MemoryDescriptor,
    from: int,
)
    requires
        0 <= from,
    ensures
        match first_match(loaded, d, from) {
            Some(l) => l.same_region(&d) && loaded.contains(l),
            None => forall|j: int| from <= j < loaded.len() ==> !loaded[j].same_region(&d),
        },
    decreases loaded.len() - from,
{
    if from < 0 || from >= loaded.len() {
    } else if loaded[from].same_region(&d) {
    } else {
        lemma_first_match_same_region(loaded, d, from + 1);
    }
}

/// Merging changes neither the number of regions nor where each begins or of
/// what type it is: every physical range is covered as often as the firmware
/// covered it.
pub proof fn lemma_merge_keeps_coverage(
    firmware: Seq<MemoryDescriptor>,
    loaded: Seq<MemoryDescriptor>,
)
    ensures
        merged_map(firmware, loaded).len() == firmware.len(),
        forall|i: int|
            0 <= i < firmware.len() ==> (#[trigger] merged_map(firmware, loaded)[i]).same_region(
                &firmware[i],
            ),
{
    assert forall|i: int| 0 <= i < firmware.len() implies (#[trigger] merged_map(
        firmware,
        loaded,
    )[i]).same_region(&firmware[i]) by {
        lemma_first_match_same_region(loaded, firmware[i], 0);
    }
}

/// The entry that takes the place of the firmware descriptor `d`.
pub fn merge_descriptor(loaded: &Vec<MemoryDescriptor>, d: MemoryDescriptor) -> (m:
    MemoryDescriptor)
    ensures
        m == merged_entry(loaded@, d),
{
    let mut j: usize = 0;
    while j < loaded.len()
        invariant
            j <= loaded.len(),
            first_match(loaded@, d, 0) == first_match(loaded@, d, j as int),
        decreases loaded.len() - j,
    {
        if loaded[j].ty == d.ty && loaded[j].phys_start == d.phys_start {
            return loaded[j];
        }
        j += 1;
    }
    d
}

/// Merges the firmware memory map with the descriptors recorded while the
/// image was loaded.
pub fn merge_memory_map(firmware: &Vec<MemoryDescriptor>, loaded: &Vec<MemoryDescriptor>) -> (m:
    Vec<MemoryDescriptor>)
    ensures
        m@ == merged_map(firmware@, loaded@),
{
    let mut m: Vec<MemoryDescriptor> = Vec::new();
    let mut i: usize = 0;
    while i < firmware.len()
        invariant
            i <= firmware.len(),
            m@.len() == i,
            forall|k: int| 0 <= k < i ==> m@[k] == merged_entry(loaded@, firmware@[k]),
        decreases firmware.len() - i,
    {
        m.push(merge_descriptor(loaded, firmware[i]));
        i += 1;
    }
    assert(m@ =~= merged_map(firmware@, loaded@));
    m
}

/// Builds the handoff block around a merged memory map. The handle of the
/// runtime services is stored later, once boot services have been left.
pub fn build_kernel_args(merged: &Vec<MemoryDescriptor>, fb_addr: u64, fb_info: FramebufferMode)
    -> (r: Result<KernelArgs, HandoffError>)
    ensures
        match r {
            Ok(args) => merged@.len() <= KERNEL_ARGS_MDL_SIZE && args.descriptors() == merged@
                && args.uefi_rst == 0 && args.fb_addr == fb_addr && args.fb_info == fb_info,
            Err(e) => merged@.len() > KERNEL_ARGS_MDL_SIZE && e == HandoffError::CapacityExceeded,
        },
{
    if merged.len() > KERNEL_ARGS_MDL_SIZE {
        return Err(HandoffError::CapacityExceeded);
    }
    let mut mmap = mdl_new();
    let mut i: usize = 0;
    while i < merged.len()
        invariant
            i <= merged.len() <= 512,
            mdl_contents(mmap) == merged@.take(i as int),
        decreases merged.len() - i,
    {
        let pushed = mdl_try_push(&mut mmap, merged[i]);
        assert(pushed);
        assert(merged@.take(i + 1) == merged@.take(i as int).push(merged@[i as int]));
        i += 1;
    }
    assert(merged@.take(merged.len() as int) == merged@);
    Ok(KernelArgs { mmap, uefi_rst: 0, fb_addr, fb_info })
}

/// `d` placed at its address in the direct-map window.
pub open spec fn relocated(d: MemoryDescriptor) -> MemoryDescriptor {
    MemoryDescriptor { virt_start: (d.phys_start + PHYS_MAP_OFFSET) as u64, ..d }
}

/// Gives every region its virtual address in the direct-map window, for the
/// firmware's virtual-address remap. Fails, changing nothing, where a region
/// starts beyond the window.
pub fn relocate_memory_map(mmap: &Vec<MemoryDescriptor>) -> (r: Result<
    Vec<MemoryDescriptor>,
    HandoffError,
>)
    ensures
        match r {
            Ok(v) => v@.len() == mmap@.len() && forall|i: int|
                #![trigger v@[i]]
                #![trigger mmap@[i]]
                0 <= i < mmap@.len() ==> mmap@[i].phys_start < PHYS_WINDOW_SIZE && v@[i]
                    == relocated(mmap@[i]),
            Err(e) => e == HandoffError::OutsideWindow && exists|i: int|
                0 <= i < mmap@.len() && #[trigger] mmap@[i].phys_start >= PHYS_WINDOW_SIZE,
        },
{
    let mut v: Vec<MemoryDescriptor> = Vec::new();
    let mut i: usize = 0;
    while i < mmap.len()
        invariant
            i <= mmap.len(),
            v@.len() == i,
            forall|k: int|
                #![trigger v@[k]]
                #![trigger mmap@[k]]
                0 <= k < i ==> mmap@[k].phys_start < PHYS_WINDOW_SIZE && v@[k] == relocated(
                    mmap@[k],
                ),
        decreases mmap.len() - i,
    {
        let d = mmap[i];
        if d.phys_start >= PHYS_WINDOW_SIZE {
            return Err(HandoffError::OutsideWindow);
        }
        v.push(
            MemoryDescriptor {
                ty: d.ty,
                phys_start: d.phys_start,
                virt_start: d.phys_start + PHYS_MAP_OFFSET,
                page_count: d.page_count,
                att: d.att,
            },
        );
        i += 1;
    }
    Ok(v)
}

/// Number of pages from physical address zero to the end of the last region
/// of the map: what the direct-map window has to cover.
pub open spec fn direct_map_span(mmap: Seq<MemoryDescriptor>) -> int {
    mmap.last().phys_start / 0x1000 + mmap.last().page_count
}

/// Number of pages that the direct-map window has to cover, or `None` for an
/// empty map or a span that does not fit in 64 bits.
pub fn direct_map_pages(mmap: &Vec<MemoryDescriptor>) -> (r: Option<u64>)
    ensures
        r == (if mmap@.len() > 0 && direct_map_span(mmap@) <= u64::MAX {
            Some(direct_map_span(mmap@) as u64)
        } else {
            None
        }),
{
    if mmap.len() == 0 {
        return None;
    }
    let d = mmap[mmap.len() - 1];
    (d.phys_start / PAGE_SIZE).checked_add(d.page_count)
}

/// Number of pages that `bytes` bytes take up, or `None` where rounding up
/// does not fit in 64 bits.
pub fn pages_for_bytes(bytes: u64) -> (r: Option<u64>)
    ensures
        r == (if align_up_spec(bytes, PAGE_SIZE) <= u64::MAX {
            Some(pages_needed(bytes) as u64)
        } else {
            None
        }),
{
    if bytes > 0xFFFF_FFFF_FFFF_F000 {
        return None;
    }
    assert(0x1000u64 & ((0x1000u64 - 1) as u64) == 0) by (bit_vector);
    Some(x86_64::addr::align_up(bytes, PAGE_SIZE) / PAGE_SIZE)
}

/// Number of pages of a framebuffer of `pixels` pixels of four bytes each.
pub fn framebuffer_pages(pixels: u64) -> (r: Option<u64>)
    ensures
        r == (if pixels * 4 <= u64::MAX && align_up_spec((pixels * 4) as u64, PAGE_SIZE)
            <= u64::MAX {
            Some(pages_needed((pixels * 4) as u64) as u64)
        } else {
            None
        }),
{
    match pixels.checked_mul(4) {
        Some(bytes) => pages_for_bytes(bytes),
        None => None,
    }
}

} // verus!
