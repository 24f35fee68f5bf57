//! The physical frame allocator: every free frame is on one of two lists,
//! `clean` for frames filled with zeroes and `dirty` for frames that were
//! in use.

use vstd::prelude::*;
use crate::addr::{PAGE_SIZE, PHYS_MAP_OFFSET, PHYS_WINDOW_SIZE};
use crate::descriptor::{is_usable_type, MemoryDescriptor};
use crate::list::{is_chain, lemma_chain_untouched, lemma_frame_is_word, SLListNode};
use crate::memory::{frame_zero, is_frame, tail_zero, FrameMemory};

verus! {

/// The two free lists.
pub struct LinkedListAllocator {
    /// Frames that were in use and hold whatever their last user left.
    pub dirty: SLListNode,
    /// Frames filled with zeroes, but for the link word.
    pub clean: SLListNode,
}

/// A word inside a frame, past its first, is not the first word of any frame.
proof fn lemma_inner_word_is_no_frame(frame: u64, a: u64, other: u64)
    requires
        frame % PAGE_SIZE == 0,
        frame < a < frame + PAGE_SIZE,
        other % PAGE_SIZE == 0,
    ensures
        a != other,
{
}

/// Words of two different frames are different words.
pub(crate) proof fn lemma_frames_apart(frame: u64, a: u64, other: u64)
    requires
        frame % PAGE_SIZE == 0,
        frame <= a < frame + PAGE_SIZE,
        other % PAGE_SIZE == 0,
        other != frame,
    ensures
        !(other <= a < other + PAGE_SIZE),
{
}

/// Without its first element a sequence without duplicates holds what it held
/// before, but for that element.
proof fn lemma_contains_drop_first(s: Seq<u64>)
    requires
        s.len() > 0,
        s.no_duplicates(),
    ensures
        forall|f: u64| #[trigger] s.drop_first().contains(f) == (s.contains(f) && f != s[0]),
{
    let t = s.drop_first();
    assert forall|f: u64| #[trigger] t.contains(f) == (s.contains(f) && f != s[0]) by {
        if t.contains(f) {
            let i = choose|i: int| 0 <= i < t.len() && t[i] == f;
            assert(s[i + 1] == f);
        }
        if s.contains(f) && f != s[0] {
            let i = choose|i: int| 0 <= i < s.len() && s[i] == f;
            assert(t[i - 1] == f);
        }
    }
}

/// With one element more in front a sequence holds that element and what it
/// held before.
proof fn lemma_contains_push_front(s: Seq<u64>, x: u64)
    ensures
        forall|f: u64| #[trigger] (seq![x] + s).contains(f) == (s.contains(f) || f == x),
{
    let t = seq![x] + s;
    assert forall|f: u64| #[trigger] t.contains(f) == (s.contains(f) || f == x) by {
        if t.contains(f) {
            let i = choose|i: int| 0 <= i < t.len() && t[i] == f;
            if i > 0 {
                assert(s[i - 1] == f);
            }
        }
        if s.contains(f) {
            let i = choose|i: int| 0 <= i < s.len() && s[i] == f;
            assert(t[i + 1] == f);
        }
        if f == x {
            assert(t[0] == f);
        }
    }
}

impl LinkedListAllocator {
    /// Whether both lists are chains in `mem`, no frame is on both, and the
    /// clean frames are zero past their link word.
    pub open spec fn wf<M: FrameMemory>(&self, mem: &M) -> bool {
        &&& self.dirty.wf(mem)
        &&& self.clean.wf(mem)
        &&& forall|i: int, j: int|
            0 <= i < self.clean@.len() && 0 <= j < self.dirty@.len() ==> self.clean@[i]
                != self.dirty@[j]
        &&& forall|i: int|
            #![trigger self.clean@[i]]
            0 <= i < self.clean@.len() ==> tail_zero(mem, self.clean@[i])
    }

    /// Whether `frame` is on one of the free lists.
    pub open spec fn is_free(&self, frame: u64) -> bool {
        self.clean@.contains(frame) || self.dirty@.contains(frame)
    }

    /// Whether every free frame lies in the direct-map window.
    pub open spec fn in_window(&self) -> bool {
        forall|f: u64| #[trigger] self.is_free(f) ==> f >= PHYS_MAP_OFFSET
    }

    /// Number of free frames.
    pub open spec fn free_count(&self) -> int {
        (self.clean@.len() + self.dirty@.len()) as int
    }

    /// No frame is on both free lists, and none is twice on one.
    pub proof fn lemma_frame_exclusive<M: FrameMemory>(&self, mem: &M, frame: u64)
        requires
            self.wf(mem),
        ensures
            !(self.clean@.contains(frame) && self.dirty@.contains(frame)),
            self.clean@.no_duplicates(),
            self.dirty@.no_duplicates(),
    {
    }

    /// An allocator without frames.
    pub fn new() -> (alloc: LinkedListAllocator)
        ensures
            alloc.clean@ == Seq::<u64>::empty(),
            alloc.dirty@ == Seq::<u64>::empty(),
            alloc.clean.next is None,
            alloc.dirty.next is None,
    {
        LinkedListAllocator { dirty: SLListNode::new(), clean: SLListNode::new() }
    }

    /// Puts a frame back on a free list: the dirty list if `is_dirty`, else
    /// the clean list. Whether the frame is free already is not checked: the
    /// caller sees to it that it is not.
    pub fn return_frame<M: FrameMemory>(&mut self, mem: &mut M, frame: u64, is_dirty: bool)
        requires
            old(self).wf(old(mem)),
            is_frame(frame),
            old(mem).mapped(frame),
            !old(self).is_free(frame),
            !is_dirty ==> tail_zero(old(mem), frame),
        ensures
            final(self).wf(final(mem)),
            is_dirty ==> final(self).dirty@ == seq![frame] + old(self).dirty@ && final(self).clean@
                == old(self).clean@,
            !is_dirty ==> final(self).clean@ == seq![frame] + old(self).clean@ && final(self).dirty@ == old(self).dirty@,
            forall|a: u64| a != frame ==> #[trigger] final(mem).word(a) == old(mem).word(a),
            forall|f: u64| #[trigger] final(mem).mapped(f) == old(mem).mapped(f),
            forall|f: u64|
                #[trigger] final(self).is_free(f) == (old(self).is_free(f) || f == frame),
            final(self).free_count() == old(self).free_count() + 1,
    {
        let ghost mem0 = *mem;
        let ghost clean0 = self.clean@;
        let ghost dirty0 = self.dirty@;
        if is_dirty {
            self.dirty.push(mem, frame);
            proof {
                assert forall|i: int| #![trigger clean0[i]] 0 <= i < clean0.len() implies mem.word(
                    clean0[i],
                ) == mem0.word(clean0[i]) && mem.mapped(clean0[i]) by {
                    assert(clean0.contains(clean0[i]));
                }
                lemma_chain_untouched(&mem0, &*mem, self.clean.next, clean0);
            }
        } else {
            self.clean.push(mem, frame);
            proof {
                assert forall|i: int| #![trigger dirty0[i]] 0 <= i < dirty0.len() implies mem.word(
                    dirty0[i],
                ) == mem0.word(dirty0[i]) && mem.mapped(dirty0[i]) by {
                    assert(dirty0.contains(dirty0[i]));
                }
                lemma_chain_untouched(&mem0, &*mem, self.dirty.next, dirty0);
            }
        }
        proof {
            let clean1 = self.clean@;
            let dirty1 = self.dirty@;
            assert forall|i: int, j: int|
                0 <= i < clean1.len() && 0 <= j < dirty1.len() implies clean1[i] != dirty1[j] by {
                if is_dirty {
                    assert(clean0.contains(clean1[i]));
                    if j > 0 {
                        assert(dirty1[j] == dirty0[j - 1]);
                    }
                } else {
                    assert(dirty0.contains(dirty1[j]));
                    if i > 0 {
                        assert(clean1[i] == clean0[i - 1]);
                    }
                }
            }
            assert forall|i: int| #![trigger clean1[i]] 0 <= i < clean1.len() implies tail_zero(
                &*mem,
                clean1[i],
            ) by {
                let c = clean1[i];
                if !is_dirty && i > 0 {
                    assert(c == clean0[i - 1]);
                }
                assert(tail_zero(&mem0, c));
                assert forall|a: u64| c < a < c + PAGE_SIZE implies #[trigger] mem.word(a)
                    == 0 by {
                    lemma_inner_word_is_no_frame(c, a, frame);
                }
            }
            lemma_contains_push_front(clean0, frame);
            lemma_contains_push_front(dirty0, frame);
        }
    }

    /// Hands out a frame filled with zeroes: the first clean frame, or, where
    /// there is none, the first dirty frame after clearing it. `None` where
    /// both lists are empty.
    pub fn get_clean<M: FrameMemory>(&mut self, mem: &mut M) -> (r: Option<u64>)
        requires
            old(self).wf(old(mem)),
        ensures
            final(self).wf(final(mem)),
            forall|f: u64| #[trigger] final(mem).mapped(f) == old(mem).mapped(f),
            match r {
                None => old(self).clean@.len() == 0 && old(self).dirty@.len() == 0 && final(self).clean@ == old(self).clean@ && final(self).dirty@ == old(self).dirty@
                    && forall|a: u64| #[trigger] final(mem).word(a) == old(mem).word(a),
                Some(frame) => {
                    &&& is_frame(frame)
                    &&& final(mem).mapped(frame)
                    &&& frame_zero(final(mem), frame)
                    &&& !final(self).is_free(frame)
                    &&& old(self).clean@.len() > 0 ==> frame == old(self).clean@[0] && final(self).clean@ == old(self).clean@.drop_first() && final(self).dirty@ == old(self).dirty@
                    &&& old(self).clean@.len() == 0 ==> old(self).dirty@.len() > 0 && frame == old(self).dirty@[0] && final(self).dirty@ == old(self).dirty@.drop_first() && final(self).clean@ == old(self).clean@
                    &&& forall|a: u64|
                        !(frame <= a < frame + PAGE_SIZE) ==> #[trigger] final(mem).word(a) == old(
                            mem).word(a)
                    &&& old(self).is_free(frame)
                    &&& forall|f: u64|
                        #[trigger] final(self).is_free(f) == (old(self).is_free(f) && f != frame)
                    &&& final(self).free_count() == old(self).free_count() - 1
                },
            },
    {
        let ghost mem0 = *mem;
        let ghost clean0 = self.clean@;
        let ghost dirty0 = self.dirty@;
        match self.clean.pop(mem) {
            Some(frame) => {
                proof {
                    assert(clean0.contains(clean0[0]));
                    assert forall|i: int|
                        #![trigger dirty0[i]]
                        0 <= i < dirty0.len() implies mem.word(dirty0[i]) == mem0.word(dirty0[i])
                        && mem.mapped(dirty0[i]) by {}
                    lemma_chain_untouched(&mem0, &*mem, self.dirty.next, dirty0);
                    let clean1 = self.clean@;
                    assert forall|i: int| 0 <= i < clean1.len() implies clean1[i] != frame
                        && #[trigger] clean1[i] == clean0[i + 1] by {}
                    assert forall|i: int|
                        #![trigger clean1[i]]
                        0 <= i < clean1.len() implies tail_zero(&*mem, clean1[i]) by {
                        let c = clean1[i];
                        assert(c == clean0[i + 1]);
                        assert(tail_zero(&mem0, c));
                        assert forall|a: u64| c < a < c + PAGE_SIZE implies #[trigger] mem.word(a)
                            == 0 by {
                            lemma_inner_word_is_no_frame(c, a, frame);
                        }
                    }
                    assert(tail_zero(&mem0, frame));
                    assert(!self.clean@.contains(frame));
                    assert(!self.dirty@.contains(frame));
                    lemma_contains_drop_first(clean0);
                }
                return Some(frame);
            },
            None => {},
        }
        match self.dirty.pop(mem) {
            Some(frame) => {
                let ghost mem1 = *mem;
                proof {
                    lemma_frame_is_word(frame);
                }
                mem.zero_frame(frame);
                proof {
                    let dirty1 = self.dirty@;
                    assert forall|i: int| 0 <= i < dirty1.len() implies dirty1[i] != frame
                        && #[trigger] dirty1[i] == dirty0[i + 1] by {}
                    assert forall|i: int|
                        #![trigger dirty1[i]]
                        0 <= i < dirty1.len() implies mem.word(dirty1[i]) == mem1.word(dirty1[i])
                        && mem.mapped(dirty1[i]) by {
                        lemma_frames_apart(dirty1[i], dirty1[i], frame);
                    }
                    lemma_chain_untouched(&mem1, &*mem, self.dirty.next, dirty1);
                    assert(!self.dirty@.contains(frame));
                    assert(dirty0.contains(dirty0[0]));
                    lemma_contains_drop_first(dirty0);
                }
                Some(frame)
            },
            None => None,
        }
    }
}

/// Why the frame allocator could not be seeded from a memory map.
#[derive(Clone, Copy, Debug, PartialEq, Eq, Structural)]
pub enum PhysInitError {
    /// A usable region does not start on a page boundary.
    Misaligned,
    /// A usable region reaches beyond the direct-map window.
    OutsideWindow,
    /// The map names no usable page at all.
    NoUsableMemory,
}

/// Direct-map address of page `j` of the region `d`.
pub open spec fn region_frame(d: MemoryDescriptor, j: int) -> u64 {
    (PHYS_MAP_OFFSET + d.phys_start + j * PAGE_SIZE) as u64
}

/// The frames that the region `d` gives to the allocator: all its pages if it
/// is of a usable type, none otherwise.
pub open spec fn region_frames(d: MemoryDescriptor) -> Seq<u64> {
    if is_usable_type(d.ty) {
        Seq::new(d.page_count as nat, |j: int| region_frame(d, j))
    } else {
        Seq::empty()
    }
}

/// The frames that a memory map gives to the allocator, in map order.
pub open spec fn usable_frames(mmap: Seq<MemoryDescriptor>) -> Seq<u64>
    decreases mmap.len(),
{
    if mmap.len() == 0 {
        Seq::empty()
    } else {
        usable_frames(mmap.drop_last()) + region_frames(mmap.last())
    }
}

/// What is wrong with the region `d`, if anything.
pub open spec fn region_error(d: MemoryDescriptor) -> Option<PhysInitError> {
    if !is_usable_type(d.ty) {
        None
    } else if d.phys_start % PAGE_SIZE != 0 {
        Some(PhysInitError::Misaligned)
    } else if d.phys_start + d.page_count * PAGE_SIZE > PHYS_WINDOW_SIZE {
        Some(PhysInitError::OutsideWindow)
    } else {
        None
    }
}

/// What is wrong with the first offending region of a memory map, if any is.
pub open spec fn map_error(mmap: Seq<MemoryDescriptor>) -> Option<PhysInitError>
    decreases mmap.len(),
{
    if mmap.len() == 0 {
        None
    } else {
        match map_error(mmap.drop_last()) {
            Some(e) => Some(e),
            None => region_error(mmap.last()),
        }
    }
}

/// Whether a memory map can seed the allocator: no region is refused and at
/// least one page is usable.
pub open spec fn map_verdict(mmap: Seq<MemoryDescriptor>) -> Result<(), PhysInitError> {
    match map_error(mmap) {
        Some(e) => Err(e),
        None => if usable_frames(mmap).len() == 0 {
            Err(PhysInitError::NoUsableMemory)
        } else {
            Ok(())
        },
    }
}

/// The frames of the first `i + 1` regions are those of the first `i`
/// followed by those of region `i`, and likewise for the first error.
proof fn lemma_usable_step(mmap: Seq<MemoryDescriptor>, i: int)
    requires
        0 <= i < mmap.len(),
    ensures
        usable_frames(mmap.take(i + 1)) == usable_frames(mmap.take(i)) + region_frames(mmap[i]),
        map_error(mmap.take(i + 1)) == (match map_error(mmap.take(i)) {
            Some(e) => Some(e),
            None => region_error(mmap[i]),
        }),
{
    assert(mmap.take(i + 1).drop_last() == mmap.take(i));
    assert(mmap.take(i + 1).last() == mmap[i]);
}

/// The frames of the first `i` regions are the first frames of the whole
/// map, and an error among them is the error of the whole map.
proof fn lemma_usable_prefix(mmap: Seq<MemoryDescriptor>, i: int)
    requires
        0 <= i <= mmap.len(),
    ensures
        usable_frames(mmap.take(i)).len() <= usable_frames(mmap).len(),
        usable_frames(mmap).take(usable_frames(mmap.take(i)).len() as int) == usable_frames(
            mmap.take(i),
        ),
        map_error(mmap.take(i)) is Some ==> map_error(mmap) == map_error(mmap.take(i)),
    decreases mmap.len() - i,
{
    if i == mmap.len() {
        assert(mmap.take(i) == mmap);
    } else {
        lemma_usable_step(mmap, i);
        lemma_usable_prefix(mmap, i + 1);
        let a = usable_frames(mmap.take(i));
        let b = usable_frames(mmap.take(i + 1));
        let all = usable_frames(mmap);
        assert(all.take(b.len() as int) == b);
        assert(b.take(a.len() as int) == a);
        assert(all.take(a.len() as int) == all.take(b.len() as int).take(a.len() as int));
    }
}

/// Checks that a memory map can seed the allocator.
pub fn check_memory_map(mmap: &Vec<MemoryDescriptor>) -> (r: Result<(), PhysInitError>)
    ensures
        r == map_verdict(mmap@),
{
    let mut any: bool = false;
    let mut i: usize = 0;
    while i < mmap.len()
        invariant
            i <= mmap.len(),
            map_error(mmap@.take(i as int)) is None,
            any == (usable_frames(mmap@.take(i as int)).len() > 0),
        decreases mmap.len() - i,
    {
        let d = mmap[i];
        proof {
            lemma_usable_step(mmap@, i as int);
        }
        if d.is_usable() {
            if d.phys_start % PAGE_SIZE != 0 {
                proof {
                    lemma_usable_prefix(mmap@, i + 1);
                }
                return Err(PhysInitError::Misaligned);
            }
            let fits = match d.page_count.checked_mul(PAGE_SIZE) {
                Some(bytes) => bytes <= PHYS_WINDOW_SIZE && d.phys_start <= PHYS_WINDOW_SIZE
                    - bytes,
                None => false,
            };
            if !fits {
                proof {
                    lemma_usable_prefix(mmap@, i + 1);
                }
                return Err(PhysInitError::OutsideWindow);
            }
            if d.page_count > 0 {
                any = true;
            }
        }
        i += 1;
    }
    assert(mmap@.take(mmap.len() as int) == mmap@);
    if any {
        Ok(())
    } else {
        Err(PhysInitError::NoUsableMemory)
    }
}

/// Putting `f` in front of a stack of pushed frames is pushing one frame more.
proof fn lemma_reverse_push(pushed: Seq<u64>, f: u64, base: Seq<u64>)
    ensures
        seq![f] + (pushed.reverse() + base) == pushed.push(f).reverse() + base,
{
    let l = seq![f] + (pushed.reverse() + base);
    let r = pushed.push(f).reverse() + base;
    assert(l.len() == r.len());
    assert forall|k: int| 0 <= k < l.len() implies l[k] == r[k] by {
        if k == 0 {
        } else if k <= pushed.len() {
            assert(l[k] == pushed.reverse()[k - 1]);
            assert(r[k] == pushed.push(f).reverse()[k]);
        } else {
        }
    }
    assert(l =~= r);
}

/// Seeds the dirty list with every page of every usable region of the
/// memory map, in map order, so that the last page named comes out first.
/// The direct-map window must already back those pages, and none of them may
/// be named twice or be free already. A map that `check_memory_map` refuses
/// changes nothing.
pub fn init_phys_alloc_from_mmap<M: FrameMemory>(
    alloc: &mut LinkedListAllocator,
    mem: &mut M,
    mmap: &Vec<MemoryDescriptor>,
) -> (r: Result<(), PhysInitError>)
    requires
        old(alloc).wf(old(mem)),
        map_error(mmap@) is None ==> usable_frames(mmap@).no_duplicates() && forall|k: int|
            #![trigger usable_frames(mmap@)[k]]
            0 <= k < usable_frames(mmap@).len() ==> old(mem).mapped(usable_frames(mmap@)[k])
                && !old(alloc).is_free(usable_frames(mmap@)[k]),
    ensures
        r == map_verdict(mmap@),
        final(alloc).wf(final(mem)),
        final(alloc).clean@ == old(alloc).clean@,
        forall|f: u64| #[trigger] final(mem).mapped(f) == old(mem).mapped(f),
        r is Ok ==> final(alloc).dirty@ == usable_frames(mmap@).reverse() + old(alloc).dirty@,
        r is Err ==> final(alloc).dirty@ == old(alloc).dirty@ && forall|a: u64|
            #[trigger] final(mem).word(a) == old(mem).word(a),
{
    match check_memory_map(mmap) {
        Err(e) => {
            return Err(e);
        },
        Ok(_) => {},
    }
    let ghost all = usable_frames(mmap@);
    let ghost dirty0 = alloc.dirty@;
    let ghost clean0 = alloc.clean@;
    let ghost mem0 = *mem;
    let ghost mut pushed: Seq<u64> = Seq::empty();
    let mut i: usize = 0;
    assert(mmap@.take(0) =~= Seq::<MemoryDescriptor>::empty());
    assert(pushed.reverse() + dirty0 =~= dirty0);
    while i < mmap.len()
        invariant
            i <= mmap.len(),
            all == usable_frames(mmap@),
            map_error(mmap@) is None,
            all.no_duplicates(),
            forall|k: int|
                #![trigger all[k]]
                0 <= k < all.len() ==> mem0.mapped(all[k]) && !dirty0.contains(all[k])
                    && !clean0.contains(all[k]),
            forall|f: u64| #[trigger] mem.mapped(f) == mem0.mapped(f),
            alloc.wf(&*mem),
            alloc.clean@ == clean0,
            pushed == usable_frames(mmap@.take(i as int)),
            alloc.dirty@ == pushed.reverse() + dirty0,
        decreases mmap.len() - i,
    {
        let d = mmap[i];
        proof {
            lemma_usable_step(mmap@, i as int);
            lemma_usable_prefix(mmap@, i as int);
            lemma_usable_prefix(mmap@, i + 1);
        }
        if d.is_usable() {
            let ghost start = pushed;
            let mut j: u64 = 0;
            assert(region_frames(d).take(0) =~= Seq::<u64>::empty());
            assert(start + region_frames(d).take(0) =~= start);
            while j < d.page_count
                invariant
                    j <= d.page_count,
                    is_usable_type(d.ty),
                    region_error(d) is None,
                    all == usable_frames(mmap@),
                    all.no_duplicates(),
                    start.len() + d.page_count <= all.len(),
                    all.take(start.len() + d.page_count) == start + region_frames(d),
                    forall|k: int|
                        #![trigger all[k]]
                        0 <= k < all.len() ==> mem0.mapped(all[k]) && !dirty0.contains(all[k])
                            && !clean0.contains(all[k]),
                    forall|f: u64| #[trigger] mem.mapped(f) == mem0.mapped(f),
                    alloc.wf(&*mem),
                    alloc.clean@ == clean0,
                    pushed == start + region_frames(d).take(j as int),
                    alloc.dirty@ == pushed.reverse() + dirty0,
                decreases d.page_count - j,
            {
                let frame: u64 = PHYS_MAP_OFFSET + d.phys_start + j * PAGE_SIZE;
                proof {
                    let k = start.len() + j;
                    assert(all[k] == all.take(start.len() + d.page_count)[k]);
                    assert(all[k] == region_frames(d)[j as int]);
                    assert(all[k] == frame);
                    assert forall|q: int| 0 <= q < pushed.len() implies pushed[q] != frame by {
                        assert(pushed[q] == all.take(start.len() + d.page_count)[q]);
                        assert(pushed[q] == all[q]);
                    }
                    assert(!alloc.dirty@.contains(frame)) by {
                        if alloc.dirty@.contains(frame) {
                            let q = choose|q: int|
                                0 <= q < alloc.dirty@.len() && alloc.dirty@[q] == frame;
                            if q < pushed.len() {
                                assert(alloc.dirty@[q] == pushed.reverse()[q]);
                                assert(pushed.reverse()[q] == pushed[pushed.len() - 1 - q]);
                            } else {
                                assert(alloc.dirty@[q] == dirty0[q - pushed.len()]);
                                assert(dirty0.contains(frame));
                            }
                        }
                    }
                    lemma_reverse_push(pushed, frame, dirty0);
                    assert(region_frames(d).take(j + 1) =~= region_frames(d).take(j as int).push(
                        frame,
                    ));
                    assert(start + region_frames(d).take(j + 1) =~= pushed.push(frame));
                    pushed = pushed.push(frame);
                }
                alloc.return_frame(mem, frame, true);
                j += 1;
            }
            assert(region_frames(d).take(d.page_count as int) =~= region_frames(d));
        } else {
            assert(pushed + region_frames(d) =~= pushed);
        }
        i += 1;
    }
    assert(mmap@.take(mmap.len() as int) == mmap@);
    Ok(())
}

/// Fills the frame at `frame` with zeroes.
pub fn clear_page<M: FrameMemory>(mem: &mut M, frame: u64)
    requires
        is_frame(frame),
        old(mem).mapped(frame),
    ensures
        frame_zero(final(mem), frame),
        forall|a: u64|
            !(frame <= a < frame + PAGE_SIZE) ==> #[trigger] final(mem).word(a) == old(mem).word(a),
        forall|f: u64| #[trigger] final(mem).mapped(f) == old(mem).mapped(f),
{
    mem.zero_frame(frame);
}

/// Puts every frame of `frames` on the dirty list, first to last, so that
/// the last comes out first. None of them may be free already or be named
/// twice.
pub fn return_frames<M: FrameMemory>(
    alloc: &mut LinkedListAllocator,
    mem: &mut M,
    frames: &Vec<u64>,
)
    requires
        old(alloc).wf(old(mem)),
        frames@.no_duplicates(),
        forall|k: int|
            #![trigger frames@[k]]
            0 <= k < frames@.len() ==> is_frame(frames@[k]) && old(mem).mapped(frames@[k])
                && !old(alloc).is_free(frames@[k]),
    ensures
        final(alloc).wf(final(mem)),
        final(alloc).clean@ == old(alloc).clean@,
        final(alloc).dirty@ == frames@.reverse() + old(alloc).dirty@,
        forall|f: u64| #[trigger] final(mem).mapped(f) == old(mem).mapped(f),
        forall|f: u64|
            #[trigger] final(alloc).is_free(f) == (old(alloc).is_free(f) || frames@.contains(f)),
{
    let ghost dirty0 = alloc.dirty@;
    let ghost clean0 = alloc.clean@;
    let ghost alloc0 = *alloc;
    let ghost mem0 = *mem;
    let mut i: usize = 0;
    assert(frames@.take(0).reverse() + dirty0 =~= dirty0);
    while i < frames.len()
        invariant
            i <= frames.len(),
            frames@.no_duplicates(),
            forall|k: int|
                #![trigger frames@[k]]
                0 <= k < frames@.len() ==> is_frame(frames@[k]) && mem0.mapped(frames@[k])
                    && !alloc0.is_free(frames@[k]),
            forall|f: u64| #[trigger] mem.mapped(f) == mem0.mapped(f),
            alloc.wf(&*mem),
            alloc.clean@ == clean0,
            alloc.dirty@ == frames@.take(i as int).reverse() + dirty0,
            forall|f: u64|
                #[trigger] alloc.is_free(f) == (alloc0.is_free(f) || frames@.take(i as int).contains(
                    f,
                )),
        decreases frames.len() - i,
    {
        let frame = frames[i];
        let ghost pushed = frames@.take(i as int);
        let ghost alloc1 = *alloc;
        proof {
            assert(!pushed.contains(frame)) by {
                if pushed.contains(frame) {
                    let q = choose|q: int| 0 <= q < pushed.len() && pushed[q] == frame;
                    assert(frames@[q] == frames@[i as int]);
                }
            }
            lemma_reverse_push(pushed, frame, dirty0);
            assert(frames@.take(i + 1) =~= pushed.push(frame));
        }
        alloc.return_frame(mem, frame, true);
        proof {
            let more = frames@.take(i + 1);
            assert forall|f: u64|
                #[trigger] alloc.is_free(f) == (alloc0.is_free(f) || more.contains(f)) by {
                if pushed.contains(f) {
                    let q = choose|q: int| 0 <= q < pushed.len() && pushed[q] == f;
                    assert(more[q] == f);
                }
                if f == frame {
                    assert(more[i as int] == f);
                }
                if more.contains(f) {
                    let q = choose|q: int| 0 <= q < more.len() && more[q] == f;
                    if q < i {
                        assert(pushed[q] == f);
                    }
                }
            }
        }
        i += 1;
    }
    assert(frames@.take(frames.len() as int) == frames@);
}

} // verus!
