//! The virtual address space allocator: a cursor that only moves up through
//! a reserved region, handing out page ranges that are left unmapped or are
//! backed with frames at once.

use vstd::prelude::*;
use crate::addr::{
    align_up_spec, is_power_of_two, is_pow2, PAGE_SIZE, PHYS_MAP_OFFSET, PHYS_WINDOW_SIZE,
};
use crate::mapping::PageMapping;
use crate::memory::{frame_zero, is_frame, tail_zero, FrameMemory};
use crate::phys::{lemma_frames_apart, return_frames, LinkedListAllocator};

verus! {

/// Alignment of virtual address descriptors.
pub const VAD_ALIGN: u64 = 0x10000;

/// First address of user space.
pub const USER_VIRT_SPACE_START: u64 = 0x0000_0000_0001_0000;

/// First address past user space.
pub const USER_VIRT_SPACE_END: u64 = 0x0000_7FFF_FFFF_0000;

/// First address of kernel space.
pub const KERNEL_VIRT_SPACE_START: u64 = 0xFFFF_8000_0000_0000;

/// First address past kernel space.
pub const KERNEL_VIRT_SPACE_END: u64 = 0xFFFF_FFFF_FFFF_F000;

/// Where the kernel image and the windows above it begin; the loader's own
/// mappings lie below.
pub const KERNEL_MAP_OFFSET: u64 = 0xFFFF_FFE0_0000_0000;

/// What an allocation of virtual addresses is to do.
#[derive(Clone, Copy, Debug, PartialEq, Eq, Structural)]
pub struct VAllocFlags {
    /// The flag bits.
    pub bits: u32,
}

/// Flag bit: claim the range and leave it unmapped.
pub const RESERVE: u32 = 1;

/// Flag bit: back every page of the range with a frame at once.
pub const COMMIT: u32 = 2;

impl VAllocFlags {
    /// The flags that only reserve.
    pub fn reserve() -> (f: VAllocFlags)
        ensures
            f.bits == RESERVE,
            !f.commits(),
    {
        assert(1u32 & 2u32 == 0) by (bit_vector);
        VAllocFlags { bits: RESERVE }
    }

    /// The flags that commit.
    pub fn commit() -> (f: VAllocFlags)
        ensures
            f.bits == COMMIT,
            f.commits(),
    {
        assert(2u32 & 2u32 == 2) by (bit_vector);
        VAllocFlags { bits: COMMIT }
    }

    /// Whether the commit bit is set.
    pub open spec fn commits(&self) -> bool {
        self.bits & COMMIT == COMMIT
    }

    /// Whether every bit of `other` is set in these flags.
    pub fn contains(&self, other: VAllocFlags) -> (r: bool)
        ensures
            r == (self.bits & other.bits == other.bits),
    {
        self.bits & other.bits == other.bits
    }
}

/// A range of pages, from the address `start` up to the address `end`.
#[derive(Clone, Copy, Debug, PartialEq, Eq, Structural)]
pub struct PageRange {
    /// Address of the first page.
    pub start: u64,
    /// Address past the last page.
    pub end: u64,
}

/// The bump allocator of kernel virtual addresses. The cursor and the bound
/// count pages.
pub struct SimpleVaSpace {
    start: u64,
    curr: u64,
    end: u64,
}

/// Where an allocation of `pages` pages aligned to `align` pages begins, for
/// a cursor at `curr` and a bound of `end`; `None` where the alignment is no
/// power of two or the range would pass the bound or the end of the address
/// space.
pub open spec fn bump_start(curr: u64, end: u64, pages: u64, align: u64) -> Option<u64> {
    if is_pow2(align) && align_up_spec(curr, align) + pages <= end && (align_up_spec(curr, align)
        + pages) * PAGE_SIZE <= u64::MAX {
        Some(align_up_spec(curr, align) as u64)
    } else {
        None
    }
}

/// Where the cursor stands after an attempt to allocate: past the range if
/// it was handed out, unmoved otherwise.
pub open spec fn bump_cursor(curr: u64, end: u64, pages: u64, align: u64) -> u64 {
    if bump_start(curr, end, pages, align) is Some {
        (align_up_spec(curr, align) + pages) as u64
    } else {
        curr
    }
}

impl SimpleVaSpace {
    /// First page of the region.
    pub closed spec fn region_start(&self) -> u64 {
        self.start
    }

    /// The cursor: first page not yet handed out.
    pub closed spec fn cursor(&self) -> u64 {
        self.curr
    }

    /// The bound: first page past the region.
    pub closed spec fn bound(&self) -> u64 {
        self.end
    }

    /// Whether the cursor lies between the start and the bound.
    pub open spec fn wf(&self) -> bool {
        self.region_start() <= self.cursor() <= self.bound()
    }

    /// An allocator for the pages from `curr` up to `end`.
    pub fn new(curr: u64, end: u64) -> (space: SimpleVaSpace)
        ensures
            space.region_start() == curr,
            space.cursor() == curr,
            space.bound() == end,
            curr <= end ==> space.wf(),
    {
        SimpleVaSpace { start: curr, curr, end }
    }

    /// The cursor: first page not yet handed out.
    pub fn current(&self) -> (c: u64)
        ensures
            c == self.cursor(),
    {
        self.curr
    }

    /// Claims `pages` pages at the cursor, aligned to `align_pages` pages,
    /// and leaves them unmapped.
    pub fn reserve_aligned(&mut self, pages: u64, align_pages: u64) -> (r: Option<PageRange>)
        ensures
            final(self).region_start() == old(self).region_start(),
            final(self).bound() == old(self).bound(),
            final(self).cursor() == bump_cursor(
                old(self).cursor(),
                old(self).bound(),
                pages,
                align_pages,
            ),
            final(self).cursor() >= old(self).cursor(),
            old(self).wf() ==> final(self).wf(),
            match r {
                Some(range) => bump_start(
                    old(self).cursor(),
                    old(self).bound(),
                    pages,
                    align_pages,
                ) == Some((range.start / PAGE_SIZE) as u64) && range.start % PAGE_SIZE == 0
                    && range.end == range.start + pages * PAGE_SIZE && range.start >= old(self).cursor() * PAGE_SIZE && range.end == final(self).cursor() * PAGE_SIZE,
                None => bump_start(old(self).cursor(), old(self).bound(), pages, align_pages)
                    is None,
            },
    {
        if !is_power_of_two(align_pages) {
            return None;
        }
        let rem = self.curr % align_pages;
        assert(rem <= self.curr) by (nonlinear_arith)
            requires
                rem == self.curr % align_pages,
                align_pages > 0,
        ;
        if rem != 0 && self.curr - rem > u64::MAX - align_pages {
            return None;
        }
        let aligned = x86_64::addr::align_up(self.curr, align_pages);
        let next = match aligned.checked_add(pages) {
            Some(n) => n,
            None => {
                return None;
            },
        };
        if next > self.end || next > u64::MAX / PAGE_SIZE {
            return None;
        }
        self.curr = next;
        Some(PageRange { start: aligned * PAGE_SIZE, end: next * PAGE_SIZE })
    }
}

/// Why virtual addresses could not be allocated.
#[derive(Clone, Copy, Debug, PartialEq, Eq, Structural)]
pub enum VAllocError {
    /// The region has no room for the range.
    NotEnoughSpace,
    /// There are not enough free frames to back the range.
    CannotCommit,
    /// An address is not on a page boundary, an alignment is no power of two,
    /// or the range passes the end of the address space.
    BadParameter,
}

/// Whether `frames` are frames that `before` held free and `after` no longer
/// does, while `after` holds every other frame that `before` held: each in
/// the direct-map window and filled with zeroes in `mem`, none twice.
#[verifier::opaque]
pub open spec fn taken_from<M: FrameMemory>(
    frames: Seq<u64>,
    before: &LinkedListAllocator,
    after: &LinkedListAllocator,
    mem: &M,
) -> bool {
    &&& frames.no_duplicates()
    &&& forall|k: int|
        #![trigger frames[k]]
        0 <= k < frames.len() ==> is_frame(frames[k]) && frames[k] >= PHYS_MAP_OFFSET
            && mem.mapped(frames[k]) && frame_zero(mem, frames[k]) && before.is_free(frames[k])
            && !after.is_free(frames[k])
    &&& forall|f: u64| #[trigger] before.is_free(f) == (after.is_free(f) || frames.contains(f))
    &&& after.free_count() == before.free_count() - frames.len()
}

/// One frame more is taken.
proof fn lemma_take_one<M: FrameMemory>(
    frames: Seq<u64>,
    frame: u64,
    origin: &LinkedListAllocator,
    prior: &LinkedListAllocator,
    later: &LinkedListAllocator,
    mem_prior: &M,
    mem_later: &M,
)
    requires
        taken_from(frames, origin, prior, mem_prior),
        prior.is_free(frame),
        is_frame(frame),
        frame >= PHYS_MAP_OFFSET,
        mem_later.mapped(frame),
        frame_zero(mem_later, frame),
        forall|f: u64| #[trigger] later.is_free(f) == (prior.is_free(f) && f != frame),
        later.free_count() == prior.free_count() - 1,
        forall|a: u64| !(frame <= a < frame + PAGE_SIZE) ==> #[trigger] mem_later.word(a) == mem_prior.word(a),
        forall|f: u64| #[trigger] mem_later.mapped(f) == mem_prior.mapped(f),
    ensures
        taken_from(frames.push(frame), origin, later, mem_later),
{
    reveal(taken_from);
    let more = frames.push(frame);
    assert forall|k: int| #![trigger more[k]] 0 <= k < more.len() implies is_frame(more[k])
        && more[k] >= PHYS_MAP_OFFSET && mem_later.mapped(more[k]) && frame_zero(mem_later, more[k])
        && origin.is_free(more[k]) && !later.is_free(more[k]) by {
        if k < frames.len() {
            let g = frames[k];
            assert(more[k] == g);
            assert(frame_zero(mem_prior, g));
            assert forall|a: u64| g <= a < g + PAGE_SIZE implies #[trigger] mem_later.word(a) == 0 by {
                lemma_frames_apart(g, a, frame);
            }
        } else {
            assert(more[k] == frame);
        }
    }
    assert forall|i: int, j: int|
        0 <= i < more.len() && 0 <= j < more.len() && i != j implies more[i] != more[j] by {
        if i < frames.len() {
            assert(more[i] == frames[i]);
        }
        if j < frames.len() {
            assert(more[j] == frames[j]);
        }
    }
    assert forall|f: u64| #[trigger] origin.is_free(f) == (later.is_free(f) || more.contains(f)) by {
        if frames.contains(f) {
            let k = choose|k: int| 0 <= k < frames.len() && frames[k] == f;
            assert(more[k] == f);
        }
        if f == frame {
            assert(more[frames.len() as int] == f);
        }
        if more.contains(f) {
            let k = choose|k: int| 0 <= k < more.len() && more[k] == f;
            if k < frames.len() {
                assert(frames[k] == f);
            }
        }
    }
}

/// The frame taken last is given back.
proof fn lemma_give_back<M: FrameMemory>(
    frames: Seq<u64>,
    origin: &LinkedListAllocator,
    prior: &LinkedListAllocator,
    later: &LinkedListAllocator,
    mem_prior: &M,
    mem_later: &M,
)
    requires
        taken_from(frames, origin, prior, mem_prior),
        frames.len() > 0,
        forall|f: u64| #[trigger] later.is_free(f) == (prior.is_free(f) || f == frames.last()),
        later.free_count() == prior.free_count() + 1,
        forall|a: u64| a != frames.last() ==> #[trigger] mem_later.word(a) == mem_prior.word(a),
        forall|f: u64| #[trigger] mem_later.mapped(f) == mem_prior.mapped(f),
    ensures
        taken_from(frames.drop_last(), origin, later, mem_later),
{
    reveal(taken_from);
    let rest = frames.drop_last();
    let last = frames.last();
    assert forall|k: int| #![trigger rest[k]] 0 <= k < rest.len() implies is_frame(rest[k])
        && rest[k] >= PHYS_MAP_OFFSET && mem_later.mapped(rest[k]) && frame_zero(mem_later, rest[k])
        && origin.is_free(rest[k]) && !later.is_free(rest[k]) by {
        let g = rest[k];
        assert(g == frames[k]);
        assert(g != last);
        assert(frame_zero(mem_prior, g));
        assert forall|a: u64| g <= a < g + PAGE_SIZE implies #[trigger] mem_later.word(a) == 0 by {
            lemma_frames_apart(g, a, last);
        }
    }
    assert forall|i: int, j: int|
        0 <= i < rest.len() && 0 <= j < rest.len() && i != j implies rest[i] != rest[j] by {
        assert(rest[i] == frames[i] && rest[j] == frames[j]);
    }
    assert forall|f: u64| #[trigger] origin.is_free(f) == (later.is_free(f) || rest.contains(f)) by {
        if frames.contains(f) {
            let k = choose|k: int| 0 <= k < frames.len() && frames[k] == f;
            if k < rest.len() {
                assert(rest[k] == f);
            }
        }
        if rest.contains(f) {
            let k = choose|k: int| 0 <= k < rest.len() && rest[k] == f;
            assert(frames[k] == f);
        }
        assert(frames[frames.len() - 1] == last);
    }
}

/// The frame taken last is a zero-filled frame that is not free.
proof fn lemma_taken_is_held<M: FrameMemory>(
    frames: Seq<u64>,
    origin: &LinkedListAllocator,
    prior: &LinkedListAllocator,
    mem_prior: &M,
)
    requires
        taken_from(frames, origin, prior, mem_prior),
        frames.len() > 0,
    ensures
        is_frame(frames.last()),
        mem_prior.mapped(frames.last()),
        !prior.is_free(frames.last()),
        frame_zero(mem_prior, frames.last()),
        tail_zero(mem_prior, frames.last()),
{
    reveal(taken_from);
    assert(frames.last() == frames[frames.len() - 1]);
}

/// Nothing is taken yet.
proof fn lemma_take_none<M: FrameMemory>(p: &LinkedListAllocator, mem: &M)
    ensures
        taken_from(Seq::<u64>::empty(), p, p, mem),
{
    reveal(taken_from);
}

/// Where the allocator has run dry, as many frames were free as are taken;
/// and what is taken stays taken while allocator and memory stay as they are.
proof fn lemma_take_stalled<M: FrameMemory>(
    frames: Seq<u64>,
    origin: &LinkedListAllocator,
    prior: &LinkedListAllocator,
    later: &LinkedListAllocator,
    mem_prior: &M,
    mem_later: &M,
)
    requires
        taken_from(frames, origin, prior, mem_prior),
        later.clean@ == prior.clean@,
        later.dirty@ == prior.dirty@,
        forall|a: u64| #[trigger] mem_later.word(a) == mem_prior.word(a),
        forall|f: u64| #[trigger] mem_later.mapped(f) == mem_prior.mapped(f),
    ensures
        taken_from(frames, origin, later, mem_later),
        origin.free_count() == prior.free_count() + frames.len(),
{
    reveal(taken_from);
}

/// A frame that is free after others were taken was free before, and lies in
/// the direct-map window if all free frames did.
proof fn lemma_taken_was_free<M: FrameMemory>(
    frames: Seq<u64>,
    origin: &LinkedListAllocator,
    prior: &LinkedListAllocator,
    mem_prior: &M,
    f: u64,
)
    requires
        taken_from(frames, origin, prior, mem_prior),
        prior.is_free(f),
        origin.in_window(),
    ensures
        origin.is_free(f),
        f >= PHYS_MAP_OFFSET,
{
    reveal(taken_from);
    assert(origin.is_free(f) == (prior.is_free(f) || frames.contains(f)));
}

/// Once every frame taken is given back, the allocator holds the frames that
/// it held before.
proof fn lemma_all_given_back<M: FrameMemory>(
    origin: &LinkedListAllocator,
    prior: &LinkedListAllocator,
    mem_prior: &M,
)
    requires
        taken_from(Seq::<u64>::empty(), origin, prior, mem_prior),
    ensures
        prior.free_count() == origin.free_count(),
        forall|f: u64| #[trigger] prior.is_free(f) == origin.is_free(f),
{
    reveal(taken_from);
    assert forall|f: u64| #[trigger] prior.is_free(f) == origin.is_free(f) by {
        assert(!Seq::<u64>::empty().contains(f));
        assert(origin.is_free(f) == (prior.is_free(f) || Seq::<u64>::empty().contains(f)));
    }
}

/// An allocator from which frames were taken holds no frame that it did not
/// hold before.
proof fn lemma_still_in_window<M: FrameMemory>(
    frames: Seq<u64>,
    before: &LinkedListAllocator,
    after: &LinkedListAllocator,
    mem: &M,
)
    requires
        taken_from(frames, before, after, mem),
        before.in_window(),
    ensures
        after.in_window(),
        forall|f: u64| #[trigger] after.is_free(f) ==> before.is_free(f),
{
    reveal(taken_from);
    assert forall|f: u64| #[trigger] after.is_free(f) implies before.is_free(f) && f
        >= PHYS_MAP_OFFSET by {
        assert(before.is_free(f) == (after.is_free(f) || frames.contains(f)));
    }
}

/// Takes one more zero-filled frame from the allocator, after `frames` were
/// taken from what was `phys0`.
fn take_one<M: FrameMemory>(
    phys: &mut LinkedListAllocator,
    mem: &mut M,
    Ghost(phys0): Ghost<LinkedListAllocator>,
    Ghost(frames): Ghost<Seq<u64>>,
) -> (r: Option<u64>)
    requires
        old(phys).wf(old(mem)),
        phys0.in_window(),
        taken_from(frames, &phys0, old(phys), old(mem)),
    ensures
        final(phys).wf(final(mem)),
        forall|f: u64| #[trigger] final(mem).mapped(f) == old(mem).mapped(f),
        match r {
            Some(frame) => taken_from(frames.push(frame), &phys0, final(phys), final(mem)),
            None => taken_from(frames, &phys0, final(phys), final(mem)) && phys0.free_count()
                == frames.len(),
        },
{
    let ghost mem1 = *mem;
    let ghost phys1 = *phys;
    let r = phys.get_clean(mem);
    proof {
        match r {
            None => {
                lemma_take_stalled(frames, &phys0, &phys1, &*phys, &mem1, &*mem);
            },
            Some(frame) => {
                lemma_taken_was_free(frames, &phys0, &phys1, &mem1, frame);
                lemma_take_one(frames, frame, &phys0, &phys1, &*phys, &mem1, &*mem);
            },
        }
    }
    r
}

/// Takes zero-filled frames from the allocator until `pages` are taken or
/// none is left. `phys0` is the allocator before anything was taken.
fn take_up_to<M: FrameMemory>(
    phys: &mut LinkedListAllocator,
    mem: &mut M,
    pages: u64,
    Ghost(phys0): Ghost<LinkedListAllocator>,
) -> (frames: Vec<u64>)
    requires
        old(phys).wf(old(mem)),
        phys0.in_window(),
        taken_from(Seq::<u64>::empty(), &phys0, old(phys), old(mem)),
    ensures
        final(phys).wf(final(mem)),
        forall|f: u64| #[trigger] final(mem).mapped(f) == old(mem).mapped(f),
        taken_from(frames@, &phys0, final(phys), final(mem)),
        frames@.len() <= pages,
        frames@.len() < pages ==> phys0.free_count() < pages,
{
    let mut frames: Vec<u64> = Vec::new();
    let mut i: u64 = 0;
    while i < pages
        invariant
            i <= pages,
            frames@.len() == i,
            phys.wf(&*mem),
            phys0.in_window(),
            forall|f: u64| #[trigger] mem.mapped(f) == old(mem).mapped(f),
            taken_from(frames@, &phys0, &*phys, &*mem),
        decreases pages - i,
    {
        match take_one(phys, mem, Ghost(phys0), Ghost(frames@)) {
            None => {
                return frames;
            },
            Some(frame) => {
                frames.push(frame);
                i += 1;
            },
        }
    }
    frames
}

/// Gives back to the allocator, as clean frames, all the frames taken from
/// it.
fn give_back<M: FrameMemory>(
    phys: &mut LinkedListAllocator,
    mem: &mut M,
    frames: Vec<u64>,
    Ghost(phys0): Ghost<LinkedListAllocator>,
)
    requires
        old(phys).wf(old(mem)),
        taken_from(frames@, &phys0, old(phys), old(mem)),
    ensures
        final(phys).wf(final(mem)),
        forall|f: u64| #[trigger] final(mem).mapped(f) == old(mem).mapped(f),
        final(phys).free_count() == phys0.free_count(),
        forall|f: u64| #[trigger] final(phys).is_free(f) == phys0.is_free(f),
{
    let ghost mem0 = *mem;
    let mut frames = frames;
    while frames.len() > 0
        invariant
            phys.wf(&*mem),
            forall|f: u64| #[trigger] mem.mapped(f) == mem0.mapped(f),
            taken_from(frames@, &phys0, &*phys, &*mem),
        decreases frames.len(),
    {
        let ghost mem1 = *mem;
        let ghost phys1 = *phys;
        let ghost before = frames@;
        let frame = frames[frames.len() - 1];
        proof {
            lemma_taken_is_held(before, &phys0, &phys1, &mem1);
        }
        phys.return_frame(mem, frame, false);
        frames.pop();
        proof {
            lemma_give_back(before, &phys0, &phys1, &*phys, &mem1, &*mem);
        }
    }
    proof {
        assert(frames@ =~= Seq::<u64>::empty());
        lemma_all_given_back(&phys0, &*phys, &*mem);
    }
}

/// Takes `pages` zero-filled frames from the allocator, or none at all where
/// it has fewer.
pub fn take_frames<M: FrameMemory>(phys: &mut LinkedListAllocator, mem: &mut M, pages: u64) -> (r:
    Option<Vec<u64>>)
    requires
        old(phys).wf(old(mem)),
        old(phys).in_window(),
    ensures
        final(phys).wf(final(mem)),
        final(phys).in_window(),
        forall|f: u64| #[trigger] final(mem).mapped(f) == old(mem).mapped(f),
        match r {
            Some(frames) => frames@.len() == pages && taken_from(
                frames@,
                old(phys),
                final(phys),
                final(mem),
            ),
            None => old(phys).free_count() < pages && final(phys).free_count() == old(phys).free_count() && forall|f: u64|
                #[trigger] final(phys).is_free(f) == old(phys).is_free(f),
        },
{
    let ghost phys0 = *phys;
    proof {
        lemma_take_none(&phys0, &*mem);
    }
    let frames = take_up_to(phys, mem, pages, Ghost(phys0));
    if frames.len() as u64 == pages {
        proof {
            lemma_still_in_window(frames@, &phys0, &*phys, &*mem);
        }
        Some(frames)
    } else {
        give_back(phys, mem, frames, Ghost(phys0));
        None
    }
}

/// What stands in the way of backing `pages` pages from `virt`, leaving the
/// number of free frames aside.
pub open spec fn commit_error(virt: u64, pages: u64) -> Option<VAllocError> {
    if virt % PAGE_SIZE != 0 || virt + pages * PAGE_SIZE > u64::MAX {
        Some(VAllocError::BadParameter)
    } else {
        None
    }
}

/// The direct-map addresses of the frames that `mappings` map onto.
pub open spec fn frames_of(mappings: Seq<PageMapping>) -> Seq<u64> {
    Seq::new(mappings.len(), |i: int| (mappings[i].phys + PHYS_MAP_OFFSET) as u64)
}

/// Whether `mappings` maps the `pages` pages from `virt`, one after the
/// other, each with the bits `flags` and onto a physical address inside the
/// direct-map window.
pub open spec fn maps_pages(mappings: Seq<PageMapping>, virt: u64, pages: u64, flags: u64)
    -> bool {
    &&& mappings.len() == pages
    &&& forall|i: int|
        #![trigger mappings[i]]
        0 <= i < mappings.len() ==> mappings[i].virt == virt + i * PAGE_SIZE && mappings[i].flags
            == flags && mappings[i].phys < PHYS_WINDOW_SIZE
}

/// Backs the `pages` pages from the address `virt` with zero-filled frames
/// of `phys` and returns the mappings to install, each with the page-table
/// bits `flags`. Where the free frames do not suffice, every frame taken is
/// given back and nothing is to be mapped.
pub fn alloc_and_map_at<M: FrameMemory>(
    phys: &mut LinkedListAllocator,
    mem: &mut M,
    virt: u64,
    pages: u64,
    flags: u64,
) -> (r: Result<Vec<PageMapping>, VAllocError>)
    requires
        old(phys).wf(old(mem)),
        old(phys).in_window(),
    ensures
        final(phys).wf(final(mem)),
        final(phys).in_window(),
        forall|f: u64| #[trigger] final(mem).mapped(f) == old(mem).mapped(f),
        match r {
            Ok(mappings) => commit_error(virt, pages) is None && maps_pages(
                mappings@,
                virt,
                pages,
                flags,
            ) && taken_from(frames_of(mappings@), old(phys), final(phys), final(mem)),
            Err(e) => (forall|f: u64| #[trigger] final(phys).is_free(f) == old(phys).is_free(f))
                && final(phys).free_count() == old(phys).free_count() && (match commit_error(
                virt,
                pages,
            ) {
                Some(bad) => e == bad && final(phys).clean@ == old(phys).clean@ && final(phys).dirty@ == old(phys).dirty@,
                None => e == VAllocError::CannotCommit && old(phys).free_count() < pages,
            }),
        },
{
    if virt % PAGE_SIZE != 0 {
        return Err(VAllocError::BadParameter);
    }
    let fits = match pages.checked_mul(PAGE_SIZE) {
        Some(bytes) => virt.checked_add(bytes).is_some(),
        None => false,
    };
    if !fits {
        return Err(VAllocError::BadParameter);
    }
    let ghost phys0 = *phys;
    let frames = match take_frames(phys, mem, pages) {
        Some(frames) => frames,
        None => {
            return Err(VAllocError::CannotCommit);
        },
    };
    proof {
        lemma_taken_in_window(frames@, &phys0, &*phys, &*mem);
    }
    let mut mappings: Vec<PageMapping> = Vec::new();
    let mut i: usize = 0;
    while i < frames.len()
        invariant
            i <= frames.len(),
            frames@.len() == pages,
            virt + pages * PAGE_SIZE <= u64::MAX,
            forall|k: int| 0 <= k < frames@.len() ==> #[trigger] frames@[k] >= PHYS_MAP_OFFSET,
            mappings@.len() == i,
            forall|k: int|
                #![trigger mappings@[k]]
                0 <= k < i ==> mappings@[k].virt == virt + k * PAGE_SIZE && mappings@[k].flags
                    == flags && mappings@[k].phys == frames@[k] - PHYS_MAP_OFFSET,
        decreases frames.len() - i,
    {
        mappings.push(
            PageMapping {
                virt: virt + (i as u64) * PAGE_SIZE,
                phys: frames[i] - PHYS_MAP_OFFSET,
                flags,
            },
        );
        i += 1;
    }
    assert(frames_of(mappings@) =~= frames@);
    Ok(mappings)
}

/// Frames that were taken lie in the direct-map window.
proof fn lemma_taken_in_window<M: FrameMemory>(
    frames: Seq<u64>,
    before: &LinkedListAllocator,
    after: &LinkedListAllocator,
    mem: &M,
)
    requires
        taken_from(frames, before, after, mem),
    ensures
        forall|k: int| 0 <= k < frames.len() ==> #[trigger] frames[k] >= PHYS_MAP_OFFSET,
{
    reveal(taken_from);
}

/// Backs every page of `range` with a zero-filled frame; see
/// `alloc_and_map_at`.
pub fn alloc_and_map_at_range<M: FrameMemory>(
    phys: &mut LinkedListAllocator,
    mem: &mut M,
    range: PageRange,
    flags: u64,
) -> (r: Result<Vec<PageMapping>, VAllocError>)
    requires
        old(phys).wf(old(mem)),
        old(phys).in_window(),
    ensures
        final(phys).wf(final(mem)),
        final(phys).in_window(),
        forall|f: u64| #[trigger] final(mem).mapped(f) == old(mem).mapped(f),
        match r {
            Ok(mappings) => range.start <= range.end && commit_error(
                range.start,
                range.page_count(),
            ) is None && maps_pages(mappings@, range.start, range.page_count(), flags)
                && taken_from(frames_of(mappings@), old(phys), final(phys), final(mem)),
            Err(e) => (forall|f: u64| #[trigger] final(phys).is_free(f) == old(phys).is_free(f))
                && final(phys).free_count() == old(phys).free_count() && (if range.start
                > range.end {
                e == VAllocError::BadParameter
            } else {
                match commit_error(range.start, range.page_count()) {
                    Some(bad) => e == bad,
                    None => e == VAllocError::CannotCommit && old(phys).free_count()
                        < range.page_count(),
                }
            }),
        },
{
    if range.start > range.end {
        return Err(VAllocError::BadParameter);
    }
    alloc_and_map_at(phys, mem, range.start, (range.end - range.start) / PAGE_SIZE, flags)
}

impl PageRange {
    /// Number of whole pages in the range.
    pub open spec fn page_count(&self) -> u64 {
        ((self.end - self.start) / (PAGE_SIZE as int)) as u64
    }
}

/// A range of virtual addresses that was handed out, and the mappings to
/// install for it: one per page if the range was committed, none if it was
/// only reserved.
pub struct Allocation {
    /// The pages handed out.
    pub range: PageRange,
    /// The mappings to install.
    pub mappings: Vec<PageMapping>,
}

impl SimpleVaSpace {
    /// Hands out `pages` pages at the cursor; see `alloc_aligned`.
    pub fn allocate<M: FrameMemory>(
        &mut self,
        phys: &mut LinkedListAllocator,
        mem: &mut M,
        pages: u64,
        flags: VAllocFlags,
        prot: u64,
    ) -> (r: Result<Allocation, VAllocError>)
        requires
            old(phys).wf(old(mem)),
            old(phys).in_window(),
        ensures
            final(phys).wf(final(mem)),
            final(phys).in_window(),
            forall|f: u64| #[trigger] final(mem).mapped(f) == old(mem).mapped(f),
            final(self).region_start() == old(self).region_start(),
            final(self).bound() == old(self).bound(),
            old(self).wf() ==> final(self).wf(),
            allocated(old(self), final(self), old(phys), final(phys), final(mem), pages, 1, flags,
                prot, r),
    {
        self.alloc_aligned(phys, mem, pages, 1, flags, prot)
    }

    /// Hands out `pages` pages at the cursor, aligned to `align_pages` pages.
    /// With the commit flag every page is backed by a zero-filled frame of
    /// `phys` and is to be mapped with the page-table bits `prot`; without
    /// it the range is claimed and nothing is to be mapped. On failure
    /// neither the cursor nor the set of free frames changes.
    pub fn alloc_aligned<M: FrameMemory>(
        &mut self,
        phys: &mut LinkedListAllocator,
        mem: &mut M,
        pages: u64,
        align_pages: u64,
        flags: VAllocFlags,
        prot: u64,
    ) -> (r: Result<Allocation, VAllocError>)
        requires
            old(phys).wf(old(mem)),
            old(phys).in_window(),
        ensures
            final(phys).wf(final(mem)),
            final(phys).in_window(),
            forall|f: u64| #[trigger] final(mem).mapped(f) == old(mem).mapped(f),
            final(self).region_start() == old(self).region_start(),
            final(self).bound() == old(self).bound(),
            old(self).wf() ==> final(self).wf(),
            allocated(
                old(self),
                final(self),
                old(phys),
                final(phys),
                final(mem),
                pages,
                align_pages,
                flags,
                prot,
                r,
            ),
    {
        if !is_power_of_two(align_pages) {
            return Err(VAllocError::BadParameter);
        }
        let saved = self.curr;
        let range = match self.reserve_aligned(pages, align_pages) {
            Some(range) => range,
            None => {
                return Err(VAllocError::NotEnoughSpace);
            },
        };
        if flags.contains(VAllocFlags { bits: COMMIT }) {
            match alloc_and_map_at(phys, mem, range.start, pages, prot) {
                Ok(mappings) => Ok(Allocation { range, mappings }),
                Err(e) => {
                    self.curr = saved;
                    Err(e)
                },
            }
        } else {
            Ok(Allocation { range, mappings: Vec::new() })
        }
    }
}

/// What an allocation of `pages` pages aligned to `align` pages does to the
/// address space and to the frame allocator, and what it returns.
pub open spec fn allocated<M: FrameMemory>(
    before: &SimpleVaSpace,
    after: &SimpleVaSpace,
    phys_before: &LinkedListAllocator,
    phys_after: &LinkedListAllocator,
    mem: &M,
    pages: u64,
    align: u64,
    flags: VAllocFlags,
    prot: u64,
    r: Result<Allocation, VAllocError>,
) -> bool {
    let start = bump_start(before.cursor(), before.bound(), pages, align);
    match r {
        Ok(a) => {
            &&& start == Some((a.range.start / PAGE_SIZE) as u64)
            &&& a.range.start % PAGE_SIZE == 0
            &&& a.range.end == a.range.start + pages * PAGE_SIZE
            &&& a.range.start >= before.cursor() * PAGE_SIZE
            &&& a.range.end == after.cursor() * PAGE_SIZE
            &&& a.range.end <= before.bound() * PAGE_SIZE
            &&& after.cursor() == bump_cursor(before.cursor(), before.bound(), pages, align)
            &&& if flags.commits() {
                maps_pages(a.mappings@, a.range.start, pages, prot) && taken_from(
                    frames_of(a.mappings@),
                    phys_before,
                    phys_after,
                    mem,
                )
            } else {
                a.mappings@.len() == 0 && phys_after.clean@ == phys_before.clean@
                    && phys_after.dirty@ == phys_before.dirty@
            }
        },
        Err(e) => {
            &&& after.cursor() == before.cursor()
            &&& forall|f: u64| #[trigger] phys_after.is_free(f) == phys_before.is_free(f)
            &&& phys_after.free_count() == phys_before.free_count()
            &&& if !is_pow2(align) {
                e == VAllocError::BadParameter
            } else if start is None {
                e == VAllocError::NotEnoughSpace
            } else {
                e == VAllocError::CannotCommit && flags.commits() && phys_before.free_count()
                    < pages
            }
        },
    }
}

/// Ranges come out in ascending order and apart from each other: whatever
/// is handed out after a range begins at or above the end of that range,
/// since the cursor never moves down.
pub proof fn lemma_bump_monotonic(
    curr: u64,
    end: u64,
    pages1: u64,
    align1: u64,
    later: u64,
    pages2: u64,
    align2: u64,
)
    requires
        bump_start(curr, end, pages1, align1) is Some,
        later >= bump_cursor(curr, end, pages1, align1),
        bump_start(later, end, pages2, align2) is Some,
    ensures
        bump_start(curr, end, pages1, align1)->0 >= curr,
        bump_cursor(curr, end, pages1, align1) == bump_start(curr, end, pages1, align1)->0
            + pages1,
        bump_start(later, end, pages2, align2)->0 >= bump_start(curr, end, pages1, align1)->0
            + pages1,
        bump_cursor(later, end, pages2, align2) >= later,
        bump_cursor(later, end, pages2, align2) <= end,
{
    assert(align_up_spec(curr, align1) >= curr) by (nonlinear_arith)
        requires
            align1 > 0,
    ;
    assert(align_up_spec(later, align2) >= later) by (nonlinear_arith)
        requires
            align2 > 0,
    ;
}

/// The cursor never moves down, whatever is asked for.
pub proof fn lemma_cursor_never_falls(curr: u64, end: u64, pages: u64, align: u64)
    ensures
        bump_cursor(curr, end, pages, align) >= curr,
        curr <= end ==> bump_cursor(curr, end, pages, align) <= end,
{
    if bump_start(curr, end, pages, align) is Some {
        assert(align_up_spec(curr, align) >= curr) by (nonlinear_arith)
            requires
                align > 0,
        ;
    }
}

/// Why a range could not be freed.
#[derive(Clone, Copy, Debug, PartialEq, Eq, Structural)]
pub enum FreeError {
    /// The range does not start on a page boundary, passes the end of the
    /// address space, or the number of translations is not that of its pages.
    BadRange,
    /// A page translates to an address that is no frame of the direct-map
    /// window.
    BadFrame,
}

/// Whether every page has a translation. To free a page that is not mapped
/// is a fault of the caller's bookkeeping, a double free most likely, and
/// nothing to recover from: the caller tests this and halts.
pub open spec fn all_mapped(backing: Seq<Option<u64>>) -> bool {
    forall|i: int| 0 <= i < backing.len() ==> (#[trigger] backing[i]) is Some
}

/// Whether the translation `entry` is an address that is no frame of the
/// direct-map window.
pub open spec fn bad_frame(entry: Option<u64>) -> bool {
    match entry {
        Some(p) => p % PAGE_SIZE != 0 || p >= PHYS_WINDOW_SIZE,
        None => false,
    }
}

/// Whether one of the translations is a bad frame.
pub open spec fn some_bad_frame(backing: Seq<Option<u64>>) -> bool {
    exists|i: int| 0 <= i < backing.len() && bad_frame(#[trigger] backing[i])
}

/// What is wrong with freeing `count` pages from `addr` whose translations
/// are `backing`, if anything.
pub open spec fn free_error(addr: u64, count: u64, backing: Seq<Option<u64>>) -> Option<
    FreeError,
> {
    if addr % PAGE_SIZE != 0 || addr + count * PAGE_SIZE > u64::MAX || backing.len() != count {
        Some(FreeError::BadRange)
    } else if some_bad_frame(backing) {
        Some(FreeError::BadFrame)
    } else {
        None
    }
}

/// The direct-map addresses of the frames that the pages translate to.
pub open spec fn backing_frames(backing: Seq<Option<u64>>) -> Seq<u64> {
    Seq::new(
        backing.len(),
        |i: int|
            match backing[i] {
                Some(p) => (p + PHYS_MAP_OFFSET) as u64,
                None => 0,
            },
    )
}

/// Whether every page has a translation.
pub fn is_backed(backing: &Vec<Option<u64>>) -> (r: bool)
    ensures
        r == all_mapped(backing@),
{
    let mut i: usize = 0;
    while i < backing.len()
        invariant
            i <= backing.len(),
            forall|k: int| 0 <= k < i ==> (#[trigger] backing@[k]) is Some,
        decreases backing.len() - i,
    {
        if backing[i].is_none() {
            return false;
        }
        i += 1;
    }
    true
}

/// The direct-map addresses of the frames that the pages translate to, or
/// an error where one of the translations is a bad frame.
pub fn direct_map_frames(backing: &Vec<Option<u64>>) -> (r: Result<Vec<u64>, FreeError>)
    requires
        all_mapped(backing@),
    ensures
        match r {
            Ok(frames) => !some_bad_frame(backing@) && frames@ == backing_frames(backing@)
                && forall|k: int|
                #![trigger frames@[k]]
                0 <= k < frames@.len() ==> is_frame(frames@[k]),
            Err(e) => e == FreeError::BadFrame && some_bad_frame(backing@),
        },
{
    let mut frames: Vec<u64> = Vec::new();
    let mut i: usize = 0;
    while i < backing.len()
        invariant
            i <= backing.len(),
            all_mapped(backing@),
            forall|k: int| 0 <= k < i ==> !bad_frame(#[trigger] backing@[k]),
            frames@.len() == i,
            forall|k: int|
                #![trigger frames@[k]]
                0 <= k < i ==> frames@[k] == backing_frames(backing@)[k] && is_frame(frames@[k]),
        decreases backing.len() - i,
    {
        match backing[i] {
            None => {},
            Some(p) => {
                if p % PAGE_SIZE != 0 || p >= PHYS_WINDOW_SIZE {
                    assert(bad_frame(backing@[i as int]));
                    return Err(FreeError::BadFrame);
                }
                frames.push(p + PHYS_MAP_OFFSET);
            },
        }
        i += 1;
    }
    assert(frames@ =~= backing_frames(backing@));
    Ok(frames)
}

impl SimpleVaSpace {
    /// Frees the `count` pages from the address `addr`; see `free_range`.
    pub fn free<M: FrameMemory>(
        &self,
        phys: &mut LinkedListAllocator,
        mem: &mut M,
        addr: u64,
        count: u64,
        backing: &Vec<Option<u64>>,
    ) -> (r: Result<(), FreeError>)
        requires
            old(phys).wf(old(mem)),
            all_mapped(backing@),
            free_error(addr, count, backing@) is None ==> backing_frames(backing@).no_duplicates()
                && forall|k: int|
                #![trigger backing_frames(backing@)[k]]
                0 <= k < backing@.len() ==> old(mem).mapped(backing_frames(backing@)[k]) && !old(phys).is_free(backing_frames(backing@)[k]),
        ensures
            final(phys).wf(final(mem)),
            forall|f: u64| #[trigger] final(mem).mapped(f) == old(mem).mapped(f),
            final(phys).clean@ == old(phys).clean@,
            match r {
                Ok(_) => free_error(addr, count, backing@) is None && final(phys).dirty@
                    == backing_frames(backing@).reverse() + old(phys).dirty@,
                Err(e) => free_error(addr, count, backing@) == Some(e) && final(phys).dirty@ == old(phys).dirty@,
            },
    {
        if addr % PAGE_SIZE != 0 {
            return Err(FreeError::BadRange);
        }
        let fits = match count.checked_mul(PAGE_SIZE) {
            Some(bytes) => addr.checked_add(bytes).is_some(),
            None => false,
        };
        if !fits || backing.len() as u64 != count {
            return Err(FreeError::BadRange);
        }
        let frames = match direct_map_frames(backing) {
            Ok(frames) => frames,
            Err(e) => {
                return Err(e);
            },
        };
        return_frames(phys, mem, &frames);
        Ok(())
    }

    /// Gives the frames behind the pages of `range` back to the frame
    /// allocator as dirty frames. `backing` holds, for each page of the range
    /// in order, the physical address that the page tables translate it to,
    /// or `None` where the page is not mapped. A range with an unmapped page
    /// must not be freed: the caller tests `is_backed` and halts. The cursor
    /// stays where it is: freed addresses are not handed out again. That no
    /// frame is freed twice is for the caller to see to.
    pub fn free_range<M: FrameMemory>(
        &self,
        phys: &mut LinkedListAllocator,
        mem: &mut M,
        range: PageRange,
        backing: &Vec<Option<u64>>,
    ) -> (r: Result<(), FreeError>)
        requires
            old(phys).wf(old(mem)),
            all_mapped(backing@),
            range.start <= range.end && free_error(range.start, range.page_count(), backing@)
                is None ==> backing_frames(backing@).no_duplicates() && forall|k: int|
                #![trigger backing_frames(backing@)[k]]
                0 <= k < backing@.len() ==> old(mem).mapped(backing_frames(backing@)[k]) && !old(phys).is_free(backing_frames(backing@)[k]),
        ensures
            final(phys).wf(final(mem)),
            forall|f: u64| #[trigger] final(mem).mapped(f) == old(mem).mapped(f),
            final(phys).clean@ == old(phys).clean@,
            match r {
                Ok(_) => range.start <= range.end && free_error(
                    range.start,
                    range.page_count(),
                    backing@,
                ) is None && final(phys).dirty@ == backing_frames(backing@).reverse() + old(phys).dirty@,
                Err(e) => final(phys).dirty@ == old(phys).dirty@ && (if range.start > range.end {
                    e == FreeError::BadRange
                } else {
                    free_error(range.start, range.page_count(), backing@) == Some(e)
                }),
            },
    {
        if range.start > range.end {
            return Err(FreeError::BadRange);
        }
        self.free(phys, mem, range.start, (range.end - range.start) / PAGE_SIZE, backing)
    }
}

/// Page-table bits of the kernel heap: present and writable.
pub const HEAP_PROTECTION: u64 = 3;

/// Hands the kernel heap `count` pages of committed memory, as the heap
/// asks for them; `None` for a negative count and where the allocation
/// fails.
pub fn heap_alloc_pages<M: FrameMemory>(
    space: &mut SimpleVaSpace,
    phys: &mut LinkedListAllocator,
    mem: &mut M,
    count: i32,
) -> (r: Option<Allocation>)
    requires
        old(phys).wf(old(mem)),
        old(phys).in_window(),
    ensures
        final(phys).wf(final(mem)),
        final(phys).in_window(),
        forall|f: u64| #[trigger] final(mem).mapped(f) == old(mem).mapped(f),
        final(space).region_start() == old(space).region_start(),
        final(space).bound() == old(space).bound(),
        old(space).wf() ==> final(space).wf(),
        match r {
            Some(a) => count >= 0 && allocated(
                old(space),
                final(space),
                old(phys),
                final(phys),
                final(mem),
                count as u64,
                1,
                VAllocFlags { bits: COMMIT },
                HEAP_PROTECTION,
                Ok(a),
            ),
            None => final(space).cursor() == old(space).cursor() && final(phys).free_count()
                == old(phys).free_count() && (forall|f: u64|
                #[trigger] final(phys).is_free(f) == old(phys).is_free(f)) && (count < 0
                || bump_start(old(space).cursor(), old(space).bound(), count as u64, 1) is None
                || old(phys).free_count() < count),
        },
{
    if count < 0 {
        return None;
    }
    assert(2u32 & 2u32 == 2) by (bit_vector);
    assert(1u64 & ((1u64 - 1) as u64) == 0) by (bit_vector);
    match space.alloc_aligned(phys, mem, count as u64, 1, VAllocFlags::commit(), HEAP_PROTECTION) {
        Ok(a) => Some(a),
        Err(_) => None,
    }
}

/// A range of virtual address descriptors: the pages from `min` to `max`,
/// both included, counted from the start of kernel space.
#[derive(Clone, Copy, Debug, PartialEq, Eq, Structural)]
pub struct VadRange {
    /// First page of the range.
    pub min: u64,
    /// Last page of the range.
    pub max: u64,
}

/// Number of pages of kernel space.
pub const KERNEL_VIRT_SPACE_PAGES: u64 = 0x7_FFFF_FFFF;

/// Number of pages to which the size of every range is rounded up: 64 KiB.
pub const VAD_PAGES: u64 = 16;

/// The allocator of kernel virtual addresses that gives freed ranges out
/// again: it looks for the first gap, from a hint on, between the ranges
/// that are taken. The ranges themselves are kept by the caller.
pub struct KernelVASpace {
    hint: u64,
}

/// First page of the first gap of `size` pages at or after `latest`, given
/// the taken ranges in ascending order; ranges that end before `hint` do not
/// count. `None` where no gap is found below `limit`.
pub open spec fn gap_search(latest: u64, hint: u64, taken: Seq<VadRange>, size: u64, limit: u64)
    -> Option<u64>
    decreases taken.len(),
{
    if taken.len() == 0 {
        if latest + size <= limit {
            Some(latest)
        } else {
            None
        }
    } else {
        let r = taken[0];
        if r.max < hint {
            gap_search(latest, hint, taken.drop_first(), size, limit)
        } else if r.min >= latest && r.min - latest >= size {
            Some(latest)
        } else if r.max == u64::MAX {
            None
        } else if r.max + 1 > latest {
            gap_search((r.max + 1) as u64, hint, taken.drop_first(), size, limit)
        } else {
            gap_search(latest, hint, taken.drop_first(), size, limit)
        }
    }
}

/// Where a range of `pages` pages is placed, for a hint of `hint` and the
/// taken ranges `taken`: at page zero while nothing is taken, else in the
/// first gap from the hint on. `None` for no pages, for a size that does not
/// fit in 64 bits, and where kernel space has no room.
pub open spec fn free_space(hint: u64, taken: Seq<VadRange>, pages: u64) -> Option<VadRange> {
    let size = align_up_spec(pages, VAD_PAGES);
    if pages == 0 || size > u64::MAX {
        None
    } else {
        let start = if taken.len() == 0 {
            gap_search(0, 0, taken, size as u64, KERNEL_VIRT_SPACE_PAGES)
        } else {
            gap_search(hint, hint, taken, size as u64, KERNEL_VIRT_SPACE_PAGES)
        };
        match start {
            Some(at) => Some(VadRange { min: at, max: (at + size - 1) as u64 }),
            None => None,
        }
    }
}

impl KernelVASpace {
    /// The page from which the next search starts.
    pub closed spec fn hint_spec(&self) -> u64 {
        self.hint
    }

    /// An allocator whose search starts at page zero.
    pub fn new() -> (space: KernelVASpace)
        ensures
            space.hint_spec() == 0,
    {
        KernelVASpace { hint: 0 }
    }

    /// Finds room for `pages` pages, rounded up to whole descriptors, among
    /// the ranges `taken`, which are in ascending order. The hint moves past
    /// the range found.
    pub fn find_free_space(&mut self, taken: &Vec<VadRange>, pages: u64) -> (r: Option<VadRange>)
        ensures
            r == free_space(old(self).hint_spec(), taken@, pages),
            match r {
                Some(range) => final(self).hint_spec() == range.max + 1,
                None => final(self).hint_spec() == old(self).hint_spec(),
            },
    {
        if pages == 0 || pages > 0xFFFF_FFFF_FFFF_FFF0 {
            return None;
        }
        assert(16u64 & ((16u64 - 1) as u64) == 0) by (bit_vector);
        let size = x86_64::addr::align_up(pages, VAD_PAGES);
        let hint = if taken.len() == 0 {
            0
        } else {
            self.hint
        };
        let mut latest = hint;
        let mut k: usize = 0;
        let mut found = false;
        let mut blocked = false;
        assert(taken@.skip(0) == taken@);
        while k < taken.len() && !found && !blocked
            invariant
                k <= taken.len(),
                size > 0,
                !found && !blocked ==> gap_search(
                    hint,
                    hint,
                    taken@,
                    size,
                    KERNEL_VIRT_SPACE_PAGES,
                ) == gap_search(latest, hint, taken@.skip(k as int), size, KERNEL_VIRT_SPACE_PAGES),
                found ==> gap_search(hint, hint, taken@, size, KERNEL_VIRT_SPACE_PAGES) == Some(
                    latest,
                ),
                found ==> latest + size <= u64::MAX,
                blocked ==> gap_search(hint, hint, taken@, size, KERNEL_VIRT_SPACE_PAGES) is None,
            decreases taken.len() - k + (if found || blocked { 0int } else { 1int }),
        {
            let r = taken[k];
            let ghost rest = taken@.skip(k as int);
            assert(rest[0] == r);
            assert(rest.drop_first() == taken@.skip(k + 1));
            if r.max < hint {
                k += 1;
            } else if r.min >= latest && r.min - latest >= size {
                found = true;
            } else if r.max == u64::MAX {
                blocked = true;
            } else {
                if r.max + 1 > latest {
                    latest = r.max + 1;
                }
                k += 1;
            }
        }
        if blocked {
            return None;
        }
        if !found {
            assert(taken@.skip(taken.len() as int) =~= Seq::<VadRange>::empty());
            if latest > KERNEL_VIRT_SPACE_PAGES || size > KERNEL_VIRT_SPACE_PAGES - latest {
                return None;
            }
        }
        self.hint = latest + size;
        Some(VadRange { min: latest, max: latest + size - 1 })
    }
}

impl VadRange {
    /// The pages of kernel space that the range stands for.
    pub open spec fn pages_spec(&self) -> PageRange {
        PageRange {
            start: (KERNEL_VIRT_SPACE_START + self.min * PAGE_SIZE) as u64,
            end: (KERNEL_VIRT_SPACE_START + (self.max + 1) * PAGE_SIZE) as u64,
        }
    }

    /// The pages of kernel space that the range stands for, or `None` where
    /// the range is no range or reaches beyond kernel space.
    pub fn pages(&self) -> (r: Option<PageRange>)
        ensures
            r == (if self.min <= self.max && self.max < KERNEL_VIRT_SPACE_PAGES {
                Some(self.pages_spec())
            } else {
                None
            }),
    {
        if self.min > self.max || self.max >= KERNEL_VIRT_SPACE_PAGES {
            None
        } else {
            Some(
                PageRange {
                    start: KERNEL_VIRT_SPACE_START + self.min * PAGE_SIZE,
                    end: KERNEL_VIRT_SPACE_START + (self.max + 1) * PAGE_SIZE,
                },
            )
        }
    }
}

impl KernelVASpace {
    /// Hands out room for `pages` pages among the ranges `taken`; with the
    /// commit flag every page of it is backed by a zero-filled frame and is
    /// to be mapped with the page-table bits `prot`. The caller records the
    /// range found as taken. On failure nothing changes.
    pub fn allocate<M: FrameMemory>(
        &mut self,
        taken: &Vec<VadRange>,
        phys: &mut LinkedListAllocator,
        mem: &mut M,
        pages: u64,
        flags: VAllocFlags,
        prot: u64,
    ) -> (r: Result<(VadRange, Allocation), VAllocError>)
        requires
            old(phys).wf(old(mem)),
            old(phys).in_window(),
        ensures
            final(phys).wf(final(mem)),
            final(phys).in_window(),
            forall|f: u64| #[trigger] final(mem).mapped(f) == old(mem).mapped(f),
            match r {
                Ok((vad, a)) => {
                    &&& free_space(old(self).hint_spec(), taken@, pages) == Some(vad)
                    &&& vad.min <= vad.max < KERNEL_VIRT_SPACE_PAGES
                    &&& a.range == vad.pages_spec()
                    &&& final(self).hint_spec() == vad.max + 1
                    &&& if flags.commits() {
                        maps_pages(
                            a.mappings@,
                            a.range.start,
                            (vad.max - vad.min + 1) as u64,
                            prot,
                        ) && taken_from(frames_of(a.mappings@), old(phys), final(phys), final(mem))
                    } else {
                        a.mappings@.len() == 0 && final(phys).clean@ == old(phys).clean@ && final(phys).dirty@ == old(phys).dirty@
                    }
                },
                Err(e) => {
                    &&& final(self).hint_spec() == old(self).hint_spec()
                    &&& forall|f: u64| #[trigger] final(phys).is_free(f) == old(phys).is_free(f)
                    &&& final(phys).free_count() == old(phys).free_count()
                    &&& match free_space(old(self).hint_spec(), taken@, pages) {
                        None => e == VAllocError::NotEnoughSpace,
                        Some(vad) => if vad.min <= vad.max < KERNEL_VIRT_SPACE_PAGES {
                            e == VAllocError::CannotCommit && flags.commits() && old(phys).free_count() < vad.max - vad.min + 1
                        } else {
                            e == VAllocError::NotEnoughSpace
                        },
                    }
                },
            },
    {
        let saved = self.hint;
        let vad = match self.find_free_space(taken, pages) {
            Some(vad) => vad,
            None => {
                return Err(VAllocError::NotEnoughSpace);
            },
        };
        let range = match vad.pages() {
            Some(range) => range,
            None => {
                self.hint = saved;
                return Err(VAllocError::NotEnoughSpace);
            },
        };
        if flags.contains(VAllocFlags { bits: COMMIT }) {
            match alloc_and_map_at(phys, mem, range.start, vad.max - vad.min + 1, prot) {
                Ok(mappings) => Ok((vad, Allocation { range, mappings })),
                Err(e) => {
                    self.hint = saved;
                    Err(e)
                },
            }
        } else {
            Ok((vad, Allocation { range, mappings: Vec::new() }))
        }
    }
}

} // verus!
