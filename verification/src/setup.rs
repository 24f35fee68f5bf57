//! The allocators that serve before the frame allocator does: a bump
//! allocator over a fixed range, a watermark allocator of whole pages, and
//! a stack of free frames built around the regions to keep out.

use vstd::prelude::*;
use crate::addr::{PhysicalAddress, PhysicalFrame, Pointable, PAGE_SIZE, PHYS_MAP_OFFSET};
use crate::addr::is_pow2;
use crate::list::{node_at, CDLListHead};
use crate::memory::{frame_of, FrameMemory, WORD_SIZE};
use crate::phys::LinkedListAllocator;
use crate::sync::Global;

verus! {

/// Size and alignment of a block of memory.
#[derive(Clone, Copy, Debug, PartialEq, Eq, Structural)]
pub struct Layout {
    size: u64,
    align: u64,
}

impl Layout {
    /// Number of bytes of the block.
    pub closed spec fn size_spec(&self) -> u64 {
        self.size
    }

    /// Alignment of the block; a power of two.
    pub closed spec fn align_spec(&self) -> u64 {
        self.align
    }

    /// Whether the alignment is a power of two.
    pub closed spec fn wf(&self) -> bool {
        is_pow2(self.align)
    }

    /// The layout of `size` bytes aligned to `align`, or `None` where `align`
    /// is no power of two.
    pub fn from_size_align(size: u64, align: u64) -> (r: Option<Layout>)
        ensures
            match r {
                Some(l) => is_pow2(align) && l.wf() && l.size_spec() == size && l.align_spec()
                    == align,
                None => !is_pow2(align),
            },
    {
        if crate::addr::is_power_of_two(align) {
            Some(Layout { size, align })
        } else {
            None
        }
    }

    /// Number of bytes of the block.
    pub fn size(&self) -> (s: u64)
        ensures
            s == self.size_spec(),
    {
        self.size
    }

    /// Alignment of the block.
    pub fn align(&self) -> (a: u64)
        ensures
            a == self.align_spec(),
    {
        self.align
    }
}

/// Number of bytes from `addr` up to the next multiple of `align`.
pub open spec fn align_offset(addr: u64, align: u64) -> int {
    if addr % align == 0 {
        0
    } else {
        align - addr % align
    }
}

/// Where a block of `size` bytes aligned to `align` begins for a cursor at
/// `cursor` and a range that ends at `end`: at the cursor rounded up to the
/// alignment; `None` where the block does not fit below the end of the range
/// or would begin at address zero.
pub open spec fn block_fit(cursor: u64, end: u64, size: u64, align: u64) -> Option<u64> {
    let at = cursor + align_offset(cursor, align);
    if at + size <= end && at != 0 {
        Some(at as u64)
    } else {
        None
    }
}

/// A very basic allocator for bootstrapping paging and the allocators proper:
/// a cursor that moves up through a range of addresses and never back.
pub struct BumpAlloc {
    curr: u64,
    start: u64,
    end: u64,
}

impl BumpAlloc {
    /// First address of the range.
    pub closed spec fn start(&self) -> u64 {
        self.start
    }

    /// First address not yet handed out.
    pub closed spec fn cursor(&self) -> u64 {
        self.curr
    }

    /// First address past the range.
    pub closed spec fn end(&self) -> u64 {
        self.end
    }

    /// Where a block of `layout` begins, or `None` where it does not fit
    /// below the end of the range or would begin at address zero.
    pub open spec fn block_start(&self, layout: Layout) -> Option<u64> {
        block_fit(self.cursor(), self.end(), layout.size_spec(), layout.align_spec())
    }

    /// An allocator for the addresses from `start` up to `end`.
    pub fn new(start: u64, end: u64) -> (a: BumpAlloc)
        ensures
            a.start() == start,
            a.cursor() == start,
            a.end() == end,
    {
        BumpAlloc { curr: start, start, end }
    }

    /// Hands out a block of `layout` at the cursor, or `None`, leaving the
    /// cursor where it is, where the block does not fit.
    pub fn alloc_fallible(&mut self, layout: Layout) -> (r: Option<u64>)
        requires
            layout.wf(),
        ensures
            r == old(self).block_start(layout),
            final(self).start() == old(self).start(),
            final(self).end() == old(self).end(),
            match r {
                Some(at) => at % layout.align_spec() == 0 && at >= old(self).cursor() && final(self).cursor() == at + layout.size_spec(),
                None => final(self).cursor() == old(self).cursor(),
            },
    {
        let align = layout.align;
        let rem = self.curr % align;
        assert(rem < align && rem <= self.curr) by (nonlinear_arith)
            requires
                rem == self.curr % align,
                align > 0,
        ;
        let offset = if rem == 0 {
            0
        } else {
            align - rem
        };
        let at = match self.curr.checked_add(offset) {
            Some(at) => at,
            None => {
                return None;
            },
        };
        assert(at % align == 0) by (nonlinear_arith)
            requires
                rem == self.curr % align,
                at == self.curr + (if rem == 0 { 0 } else { align - rem }),
                align > 0,
        ;
        match at.checked_add(layout.size) {
            None => None,
            Some(new) => {
                if new > self.end || at == 0 {
                    None
                } else {
                    self.curr = new;
                    Some(at)
                }
            },
        }
    }

    /// Hands out a block of `layout` that is known to fit.
    pub fn allocate(&mut self, layout: Layout) -> (at: u64)
        requires
            layout.wf(),
            old(self).block_start(layout) is Some,
        ensures
            Some(at) == old(self).block_start(layout),
            at % layout.align_spec() == 0,
            final(self).cursor() == at + layout.size_spec(),
            final(self).start() == old(self).start(),
            final(self).end() == old(self).end(),
    {
        match self.alloc_fallible(layout) {
            Some(at) => at,
            None => 0,
        }
    }
}

impl BumpAlloc {
    /// Whether the `size` bytes from `at` are whole words of frames that
    /// memory backs.
    pub open spec fn backed<M: FrameMemory>(mem: &M, at: u64, size: u64) -> bool {
        &&& at % WORD_SIZE == 0
        &&& size % WORD_SIZE == 0
        &&& at + size <= u64::MAX
        &&& forall|a: u64|
            at <= a < at + size && a % WORD_SIZE == 0 ==> #[trigger] mem.mapped(frame_of(a))
    }

    /// Hands out a block of `layout` that is known to fit and fills it with
    /// zeroes.
    pub fn alloc_zeroed<M: FrameMemory>(&mut self, mem: &mut M, layout: Layout) -> (at: u64)
        requires
            layout.wf(),
            old(self).block_start(layout) is Some,
            BumpAlloc::backed(old(mem), old(self).block_start(layout)->0, layout.size_spec()),
        ensures
            Some(at) == old(self).block_start(layout),
            final(self).cursor() == at + layout.size_spec(),
            final(self).start() == old(self).start(),
            final(self).end() == old(self).end(),
            forall|a: u64|
                at <= a < at + layout.size_spec() && a % WORD_SIZE == 0 ==> #[trigger] final(mem).word(a) == 0,
            forall|a: u64|
                !(at <= a < at + layout.size_spec()) ==> #[trigger] final(mem).word(a) == old(mem).word(a),
            forall|f: u64| #[trigger] final(mem).mapped(f) == old(mem).mapped(f),
    {
        let at = self.allocate(layout);
        let size = layout.size;
        let ghost mem0 = *mem;
        let mut off: u64 = 0;
        while off < size
            invariant
                off <= size,
                off % WORD_SIZE == 0,
                BumpAlloc::backed(&mem0, at, size),
                forall|f: u64| #[trigger] mem.mapped(f) == mem0.mapped(f),
                forall|a: u64|
                    at <= a < at + off && a % WORD_SIZE == 0 ==> #[trigger] mem.word(a) == 0,
                forall|a: u64|
                    !(at <= a < at + off) ==> #[trigger] mem.word(a) == mem0.word(a),
            decreases size - off,
        {
            assert(mem0.mapped(frame_of((at + off) as u64)));
            mem.write_word(at + off, 0);
            off += 8;
        }
        at
    }
}

/// A temporary allocator which cannot free.
pub trait BootMemAllocator {
    /// Whether a block of `layout` can be handed out.
    spec fn can_alloc(&self, layout: Layout) -> bool;

    /// Hands out a block of `layout`: its address, a multiple of the
    /// alignment and not zero.
    fn alloc_raw(&mut self, layout: Layout) -> (at: u64)
        requires
            layout.wf(),
            old(self).can_alloc(layout),
        ensures
            at != 0,
            at % layout.align_spec() == 0,
    ;
}

impl BootMemAllocator for BumpAlloc {
    open spec fn can_alloc(&self, layout: Layout) -> bool {
        self.block_start(layout) is Some
    }

    fn alloc_raw(&mut self, layout: Layout) -> (at: u64) {
        self.allocate(layout)
    }
}

/// Hands out room for `count` elements of `elem_size` bytes each, aligned to
/// `elem_align`; `None` where the sizes do not make a layout or the
/// allocator has no room.
pub fn alloc_slice(alloc: &mut BumpAlloc, count: u64, elem_size: u64, elem_align: u64) -> (r:
    Option<u64>)
    ensures
        final(alloc).start() == old(alloc).start(),
        final(alloc).end() == old(alloc).end(),
        r == (if is_pow2(elem_align) && count * elem_size <= u64::MAX {
            block_fit(
                old(alloc).cursor(),
                old(alloc).end(),
                (count * elem_size) as u64,
                elem_align,
            )
        } else {
            None
        }),
        match r {
            Some(at) => at % elem_align == 0 && at >= old(alloc).cursor() && final(alloc).cursor()
                == at + count * elem_size && final(alloc).cursor() <= old(alloc).end(),
            None => final(alloc).cursor() == old(alloc).cursor(),
        },
{
    let bytes = match count.checked_mul(elem_size) {
        Some(b) => b,
        None => {
            return None;
        },
    };
    match Layout::from_size_align(bytes, elem_align) {
        Some(layout) => alloc.alloc_fallible(layout),
        None => None,
    }
}

/// A very basic allocator of whole pages out of one range of physical
/// memory; needs identity paging to be of use.
pub struct WatermarkAlloc {
    curr: u64,
    start: u64,
    end: u64,
}

impl WatermarkAlloc {
    /// First address not yet handed out.
    pub closed spec fn watermark(&self) -> u64 {
        self.curr
    }

    /// First address past the range.
    pub closed spec fn limit(&self) -> u64 {
        self.end
    }

    /// An allocator for the addresses from `start` up to `end`.
    pub fn new(start: u64, end: u64) -> (a: WatermarkAlloc)
        ensures
            a.watermark() == start,
            a.limit() == end,
    {
        WatermarkAlloc { curr: start, start, end }
    }

    /// Hands out `pages` pages at the watermark, or `None`, changing
    /// nothing, where they would pass the end of the range.
    pub fn alloc_pages(&mut self, pages: u64) -> (r: Option<u64>)
        ensures
            final(self).limit() == old(self).limit(),
            match r {
                Some(at) => at == old(self).watermark() && final(self).watermark() == at + pages
                    * PAGE_SIZE && final(self).watermark() <= old(self).limit(),
                None => old(self).watermark() + pages * PAGE_SIZE > old(self).limit() && final(self).watermark() == old(self).watermark(),
            },
    {
        let new = match pages.checked_mul(PAGE_SIZE) {
            Some(bytes) => match self.curr.checked_add(bytes) {
                Some(n) => n,
                None => {
                    return None;
                },
            },
            None => {
                return None;
            },
        };
        if new > self.end {
            None
        } else {
            let curr = self.curr;
            self.curr = new;
            Some(curr)
        }
    }
}

/// Counters of what the kernel heap holds.
#[derive(Clone, Copy, Debug, PartialEq, Eq, Structural)]
pub struct AllocatorStats {
    /// Bytes under management.
    pub total: usize,
    /// Bytes handed out.
    pub allocated: usize,
    /// Bytes handed out to users.
    pub user: usize,
}

impl AllocatorStats {
    /// Counters at zero.
    pub fn new() -> (s: AllocatorStats)
        ensures
            s == (AllocatorStats { total: 0, allocated: 0, user: 0 }),
    {
        AllocatorStats { total: 0, allocated: 0, user: 0 }
    }
}

/// Where the kernel heap takes its memory from.
pub enum AllocState {
    /// The heap is not set up.
    Unset,
    /// From the boot-time bump allocator.
    BootMem(BumpAlloc),
    /// From the virtual address space allocator.
    Default,
}

/// The kernel heap's state.
pub struct GlobalAllocator(pub Global<AllocState>);

/// The frame allocator as the page-table code asks for frames: as physical
/// frames rather than pointers.
pub struct GlobalFrameAllocator;

impl GlobalFrameAllocator {
    /// A zero-filled frame for a page table, or `None` where no frame is
    /// free; see `LinkedListAllocator::get_clean`.
    pub fn allocate_frame<M: FrameMemory>(
        &mut self,
        phys: &mut LinkedListAllocator,
        mem: &mut M,
    ) -> (r: Option<PhysicalFrame>)
        requires
            old(phys).wf(old(mem)),
            old(phys).in_window(),
        ensures
            final(phys).wf(final(mem)),
            final(phys).in_window(),
            forall|f: u64| #[trigger] final(mem).mapped(f) == old(mem).mapped(f),
            match r {
                Some(frame) => frame.start() + PHYS_MAP_OFFSET <= u64::MAX && old(phys).is_free(
                    (frame.start() + PHYS_MAP_OFFSET) as u64,
                ) && !final(phys).is_free((frame.start() + PHYS_MAP_OFFSET) as u64)
                    && crate::memory::frame_zero(
                    final(mem),
                    (frame.start() + PHYS_MAP_OFFSET) as u64,
                ) && final(phys).free_count() == old(phys).free_count() - 1,
                None => old(phys).free_count() == 0 && final(phys).free_count() == 0,
            },
    {
        match phys.get_clean(mem) {
            Some(ptr) => {
                let frame = PhysicalFrame::from_pointer(ptr);
                proof {
                    crate::addr::lemma_target_frame(ptr);
                }
                Some(frame)
            },
            None => None,
        }
    }
}

/// A range of physical frames, from the address `start` up to the address
/// `end`.
#[derive(Clone, Copy, Debug, PartialEq, Eq, Structural)]
pub struct FrameRange {
    /// Address of the first frame.
    pub start: u64,
    /// Address past the last frame.
    pub end: u64,
}

/// The ranges of `ranges` in ascending order of their start, ranges of equal
/// start in the order in which they stood.
pub uninterp spec fn sorted_by_start(ranges: Seq<FrameRange>) -> Seq<FrameRange>;

/// `slice::sort_by_key` sorts in place by the key, here the start of the
/// range, and keeps the order of equal keys: the result holds what the
/// vector held, each range as often as before and none that was not there,
/// in ascending order of start.
#[verifier::external_body]
fn sort_by_start(ranges: &mut Vec<FrameRange>)
    ensures
        final(ranges)@ == sorted_by_start(old(ranges)@),
        final(ranges)@.len() == old(ranges)@.len(),
        final(ranges)@.to_multiset() == old(ranges)@.to_multiset(),
        forall|i: int, j: int|
            0 <= i <= j < final(ranges)@.len() ==> (#[trigger] final(ranges)@[i]).start <= (
            #[trigger] final(ranges)@[j]).start,
        forall|i: int|
            0 <= i < final(ranges)@.len() ==> old(ranges)@.contains(#[trigger] final(ranges)@[i]),
{
    ranges.sort_by_key(|r| r.start);
}

/// The gaps that the regions `exclude`, taken in order, leave from `curr`
/// on: before each region the frames from where the last one ended up to
/// where it begins, until a region ends beyond `limit`.
pub open spec fn gaps_of(curr: u64, limit: u64, exclude: Seq<FrameRange>) -> Seq<FrameRange>
    decreases exclude.len(),
{
    if exclude.len() == 0 {
        Seq::empty()
    } else {
        let region = exclude[0];
        let head = if curr <= region.start {
            seq![FrameRange { start: curr, end: region.start }]
        } else {
            Seq::empty()
        };
        if region.end > limit {
            head
        } else {
            head + gaps_of(
                if curr < region.end {
                    region.end
                } else {
                    curr
                },
                limit,
                exclude.drop_first(),
            )
        }
    }
}

/// The frames that are free for page tables, kept as a stack.
pub struct StackAllocator {
    head: CDLListHead,
}

impl StackAllocator {
    /// Pointer to the frame on top of the stack.
    pub closed spec fn top(&self) -> Option<u64> {
        self.head.current()
    }

    /// An empty stack.
    pub fn new() -> (s: StackAllocator)
        ensures
            s.top() is None,
    {
        StackAllocator { head: CDLListHead::new() }
    }

    /// Takes the frame on top of the stack, or `None` from an empty stack.
    pub fn alloc_frame<M: FrameMemory>(&mut self, mem: &mut M) -> (r: Option<PhysicalFrame>)
        requires
            match old(self).top() {
                Some(at) => at >= PHYS_MAP_OFFSET && node_at(old(mem), at) && node_at(
                    old(mem),
                    old(mem).word(at),
                ) && node_at(old(mem), old(mem).word(crate::list::prev_slot(at))),
                None => true,
            },
        ensures
            forall|f: u64| #[trigger] final(mem).mapped(f) == old(mem).mapped(f),
            match old(self).top() {
                None => r is None && final(self).top() is None,
                Some(at) => r == Some(PhysicalFrame::target_of(at)) && final(self).top() == (if old(mem).word(at) == at {
                    None
                } else {
                    Some(old(mem).word(at))
                }) && final(mem).word(at) == 0 && final(mem).word(crate::list::prev_slot(at)) == 0,
            },
    {
        match self.head.pop(mem) {
            Some(at) => Some(PhysicalFrame::from_pointer(at)),
            None => None,
        }
    }

    /// Puts the frame `frame` on top of the stack.
    pub fn free_page<M: FrameMemory>(&mut self, mem: &mut M, frame: PhysicalFrame)
        requires
            frame.reachable(),
            node_at(old(mem), frame.pointer_of()),
            match old(self).top() {
                Some(at) => node_at(old(mem), at) && at != frame.pointer_of(),
                None => true,
            },
        ensures
            final(self).top() == Some(frame.pointer_of()),
            forall|f: u64| #[trigger] final(mem).mapped(f) == old(mem).mapped(f),
            match old(self).top() {
                Some(at) => final(mem).word(frame.pointer_of()) == at && final(mem).word(
                    crate::list::prev_slot(frame.pointer_of()),
                ) == old(mem).word(crate::list::prev_slot(at)) && final(mem).word(
                    crate::list::prev_slot(at),
                ) == frame.pointer_of(),
                None => final(mem).word(frame.pointer_of()) == frame.pointer_of() && final(mem).word(crate::list::prev_slot(frame.pointer_of())) == frame.pointer_of(),
            },
    {
        let at = frame.pointer();
        self.head.push(mem, at);
    }

    /// Fills the stack with the frames of `range` that lie before the
    /// regions to keep out, and returns the gaps so filled. The regions are
    /// taken in ascending order of their start; before each, the frames from
    /// where the last region ended up to where it begins are put on the
    /// stack, lowest first, until a region ends beyond the range. A frame on
    /// which the stack already stands is not put on it again.
    pub fn init<M: FrameMemory>(
        &mut self,
        mem: &mut M,
        range: FrameRange,
        exclude: &Vec<FrameRange>,
    ) -> (gaps: Vec<FrameRange>)
        requires
            gaps_ready(old(mem), range.start, exclude@),
            match old(self).top() {
                Some(at) => node_at(old(mem), at),
                None => true,
            },
        ensures
            gaps@ == gaps_of(range.start, range.end, sorted_by_start(exclude@)),
            forall|f: u64| #[trigger] final(mem).mapped(f) == old(mem).mapped(f),
            match final(self).top() {
                Some(at) => node_at(final(mem), at),
                None => old(self).top() is None,
            },
            old(self).top() is Some ==> final(self).top() is Some,
    {
        let mut sorted = exclude.clone();
        assert(sorted@ == exclude@) by {
            assert(sorted@ =~= exclude@);
        }
        sort_by_start(&mut sorted);
        self.fill(mem, range, &sorted, Ghost(exclude@))
    }

    /// Puts the frames of one gap on the stack, lowest first.
    fn fill_gap<M: FrameMemory>(&mut self, mem: &mut M, from: u64, to: u64)
        requires
            from % PAGE_SIZE == 0,
            to <= crate::addr::PHYS_WINDOW_SIZE,
            forall|p: u64|
                p % PAGE_SIZE == 0 && from + PHYS_MAP_OFFSET <= p < to + PHYS_MAP_OFFSET
                    ==> #[trigger] old(mem).mapped(p),
            match old(self).top() {
                Some(at) => node_at(old(mem), at),
                None => true,
            },
        ensures
            forall|f: u64| #[trigger] final(mem).mapped(f) == old(mem).mapped(f),
            match final(self).top() {
                Some(at) => node_at(final(mem), at),
                None => old(self).top() is None,
            },
            old(self).top() is Some ==> final(self).top() is Some,
    {
        let mut f = from;
        while f < to
            invariant
                from <= f,
                f % PAGE_SIZE == 0,
                to <= crate::addr::PHYS_WINDOW_SIZE,
                forall|p: u64|
                    p % PAGE_SIZE == 0 && from + PHYS_MAP_OFFSET <= p < to + PHYS_MAP_OFFSET
                        ==> #[trigger] old(mem).mapped(p),
                forall|a: u64| #[trigger] mem.mapped(a) == old(mem).mapped(a),
                match self.top() {
                    Some(at) => node_at(&*mem, at),
                    None => old(self).top() is None,
                },
                old(self).top() is Some ==> self.top() is Some,
            decreases to + PAGE_SIZE - f,
        {
            let ptr: u64 = f + PHYS_MAP_OFFSET;
            proof {
                assert(old(mem).mapped(ptr));
                crate::list::lemma_frame_is_word(ptr);
            }
            let frame = PhysicalFrame::containing_address(PhysicalAddress(f));
            if self.head.peek() != Some(ptr) {
                self.free_page(mem, frame);
            }
            f += PAGE_SIZE;
        }
    }

    /// Fills the stack with the frames before the regions `sorted`, which
    /// hold what `exclude` held.
    fn fill<M: FrameMemory>(
        &mut self,
        mem: &mut M,
        range: FrameRange,
        sorted: &Vec<FrameRange>,
        Ghost(exclude): Ghost<Seq<FrameRange>>,
    ) -> (gaps: Vec<FrameRange>)
        requires
            gaps_ready(old(mem), range.start, exclude),
            forall|i: int| 0 <= i < sorted@.len() ==> exclude.contains(#[trigger] sorted@[i]),
            match old(self).top() {
                Some(at) => node_at(old(mem), at),
                None => true,
            },
        ensures
            gaps@ == gaps_of(range.start, range.end, sorted@),
            forall|f: u64| #[trigger] final(mem).mapped(f) == old(mem).mapped(f),
            match final(self).top() {
                Some(at) => node_at(final(mem), at),
                None => old(self).top() is None,
            },
            old(self).top() is Some ==> final(self).top() is Some,
    {
        let mut gaps: Vec<FrameRange> = Vec::new();
        let mut curr = range.start;
        let mut k: usize = 0;
        assert(sorted@.skip(0) == sorted@);
        while k < sorted.len()
            invariant
                k <= sorted.len(),
                gaps@ + gaps_of(curr, range.end, sorted@.skip(k as int)) == gaps_of(
                    range.start,
                    range.end,
                    sorted@,
                ),
                gaps_ready(old(mem), range.start, exclude),
                forall|i: int| 0 <= i < sorted@.len() ==> exclude.contains(#[trigger] sorted@[i]),
                curr % PAGE_SIZE == 0,
                range.start <= curr,
                forall|f: u64| #[trigger] mem.mapped(f) == old(mem).mapped(f),
                match self.top() {
                    Some(at) => node_at(&*mem, at),
                    None => old(self).top() is None,
                },
                old(self).top() is Some ==> self.top() is Some,
            decreases sorted.len() - k,
        {
            let region = sorted[k];
            let ghost rest = sorted@.skip(k as int);
            let ghost before = gaps@;
            assert(rest[0] == region);
            assert(rest.drop_first() == sorted@.skip(k + 1));
            assert(exclude.contains(sorted@[k as int]));
            let ghost j = choose|j: int| 0 <= j < exclude.len() && exclude[j] == region;
            assert(exclude[j].end % PAGE_SIZE == 0);
            if curr <= region.start {
                assert forall|p: u64|
                    p % PAGE_SIZE == 0 && curr + PHYS_MAP_OFFSET <= p < region.start
                        + PHYS_MAP_OFFSET implies #[trigger] mem.mapped(p) by {
                    assert(exclude[j] == region);
                    assert(old(mem).mapped(p));
                }
                self.fill_gap(mem, curr, region.start);
                gaps.push(FrameRange { start: curr, end: region.start });
            }
            if region.end > range.end {
                assert(gaps@ =~= before + gaps_of(curr, range.end, rest));
                return gaps;
            }
            let ghost tail = gaps_of(
                if curr < region.end {
                    region.end
                } else {
                    curr
                },
                range.end,
                rest.drop_first(),
            );
            assert(gaps@ + tail =~= before + gaps_of(curr, range.end, rest));
            if curr < region.end {
                curr = region.end;
            }
            k += 1;
        }
        assert(gaps@ + Seq::<FrameRange>::empty() =~= gaps@);
        gaps
    }
}

/// Whether a stack can be filled with the frames of a range that starts at
/// `start` and lie before the regions `exclude`: the range and the regions
/// keep to page boundaries and to the direct-map window, and the window
/// backs every frame from `start` up to the start of any region.
pub open spec fn gaps_ready<M: FrameMemory>(mem: &M, start: u64, exclude: Seq<FrameRange>) -> bool {
    &&& start % PAGE_SIZE == 0
    &&& forall|i: int|
        #![trigger exclude[i]]
        0 <= i < exclude.len() ==> exclude[i].end % PAGE_SIZE == 0 && exclude[i].start
            <= crate::addr::PHYS_WINDOW_SIZE
    &&& forall|i: int, p: u64|
        #![trigger exclude[i], mem.mapped(p)]
        0 <= i < exclude.len() && p % PAGE_SIZE == 0 && start + PHYS_MAP_OFFSET <= p
            < exclude[i].start + PHYS_MAP_OFFSET ==> mem.mapped(p)
}

} // verus!
