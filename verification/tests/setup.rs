use phobos_mm::addr::{PhysicalAddress, PhysicalFrame, PHYS_MAP_OFFSET};
use phobos_mm::bitmap::BitMapPtr;
use phobos_mm::list::{CDLListHead, CDLListNode, PointerList};
use phobos_mm::memory::{FrameArena, FrameMemory};
use phobos_mm::setup::{
    alloc_slice, AllocatorStats, BootMemAllocator, BumpAlloc, FrameRange, Layout,
    StackAllocator, WatermarkAlloc,
};
use phobos_mm::sync::{Global, IRQLocked, InterruptGuard, LateInit, Spinlock};

const BASE: u64 = PHYS_MAP_OFFSET + 0x80_0000;

fn arena() -> FrameArena {
    FrameArena::new(BASE, 8, 0x1111_1111_1111_1111).unwrap()
}

#[test]
fn bump_allocation() {
    let mut bump = BumpAlloc::new(0x1001, 0x2000);
    let l8 = Layout::from_size_align(24, 8).unwrap();
    assert_eq!((l8.size(), l8.align()), (24, 8));
    assert_eq!(bump.alloc_fallible(l8), Some(0x1008));
    assert_eq!(bump.alloc_fallible(l8), Some(0x1020));
    let page = Layout::from_size_align(0x800, 0x800).unwrap();
    assert_eq!(bump.alloc_fallible(page), Some(0x1800));
    assert_eq!(bump.alloc_fallible(Layout::from_size_align(1, 1).unwrap()), None);
    assert_eq!(bump.alloc_fallible(Layout::from_size_align(0, 1).unwrap()), Some(0x2000));
    assert!(Layout::from_size_align(8, 3).is_none());
    assert!(Layout::from_size_align(8, 0).is_none());

    let mut bump = BumpAlloc::new(0x1000, 0x1010);
    assert_eq!(bump.allocate(Layout::from_size_align(16, 16).unwrap()), 0x1000);
    assert_eq!(bump.alloc_fallible(Layout::from_size_align(1, 1).unwrap()), None);

    let mut zero = BumpAlloc::new(0, 0x100);
    assert_eq!(zero.alloc_fallible(l8), None);
    let mut top = BumpAlloc::new(u64::MAX - 3, u64::MAX);
    assert_eq!(top.alloc_fallible(l8), None);
    assert_eq!(top.alloc_fallible(Layout::from_size_align(3, 1).unwrap()), Some(u64::MAX - 3));
}

#[test]
fn raw_blocks_and_slices() {
    let mut bump = BumpAlloc::new(0x1004, 0x2000);
    assert_eq!(bump.alloc_raw(Layout::from_size_align(4, 16).unwrap()), 0x1010);
    assert_eq!(alloc_slice(&mut bump, 10, 8, 8), Some(0x1018));
    assert_eq!(alloc_slice(&mut bump, 1, 1, 1), Some(0x1068));
    assert_eq!(alloc_slice(&mut bump, 1, 8, 6), None);
    assert_eq!(alloc_slice(&mut bump, u64::MAX, 8, 8), None);
    assert_eq!(alloc_slice(&mut bump, 0x1000, 8, 8), None);
    assert_eq!(alloc_slice(&mut bump, 1, 2, 2), Some(0x106a));
}

#[test]
fn watermark_allocation() {
    let mut w = WatermarkAlloc::new(0x10_0000, 0x10_4000);
    assert_eq!(w.alloc_pages(1), Some(0x10_0000));
    assert_eq!(w.alloc_pages(0), Some(0x10_1000));
    assert_eq!(w.alloc_pages(4), None);
    assert_eq!(w.alloc_pages(3), Some(0x10_1000));
    assert_eq!(w.alloc_pages(1), None);
    assert_eq!(w.alloc_pages(u64::MAX), None);
    assert_eq!(w.alloc_pages(0), Some(0x10_4000));
}

#[test]
fn counters_start_at_zero() {
    let s = AllocatorStats::new();
    assert_eq!((s.total, s.allocated, s.user), (0, 0, 0));
}

fn range(start: u64, end: u64) -> FrameRange {
    FrameRange { start, end }
}

fn low_memory() -> FrameArena {
    FrameArena::new(PHYS_MAP_OFFSET, 17, 0x2222_2222_2222_2222).unwrap()
}

fn filled(range_of: FrameRange, exclude: &[FrameRange]) -> (Vec<FrameRange>, Vec<u64>) {
    let mut mem = low_memory();
    let mut stack = StackAllocator::new();
    let gaps = stack.init(&mut mem, range_of, &exclude.to_vec());
    let mut frames = Vec::new();
    while let Some(f) = stack.alloc_frame(&mut mem) {
        frames.push(f.start_address().as_u64());
    }
    (gaps, frames)
}

#[test]
fn gaps_between_exclusions() {
    let whole = range(0x1000, 0x10000);
    assert_eq!(filled(whole, &[]), (Vec::new(), Vec::new()));
    assert_eq!(
        filled(whole, &[range(0x3000, 0x5000), range(0x8000, 0x9000)]),
        (
            vec![range(0x1000, 0x3000), range(0x5000, 0x8000)],
            vec![0x7000, 0x6000, 0x5000, 0x2000, 0x1000]
        )
    );
    assert_eq!(
        filled(whole, &[range(0x1000, 0x2000), range(0x2000, 0x4000)]),
        (vec![range(0x1000, 0x1000), range(0x2000, 0x2000)], Vec::new())
    );
    assert_eq!(
        filled(whole, &[range(0x3000, 0x11000), range(0x8000, 0x9000)]),
        (vec![range(0x1000, 0x3000)], vec![0x2000, 0x1000])
    );
    assert_eq!(
        filled(whole, &[range(0x0, 0x4000), range(0x2000, 0x3000), range(0x6000, 0x7000)]),
        (vec![range(0x4000, 0x6000)], vec![0x5000, 0x4000])
    );
}

#[test]
fn stack_allocator_sorts_the_exclusions() {
    let whole = range(0x1000, 0x10000);
    let (gaps, frames) = filled(whole, &[range(0x8000, 0x9000), range(0x3000, 0x5000)]);
    assert_eq!(gaps, vec![range(0x1000, 0x3000), range(0x5000, 0x8000)]);
    assert_eq!(frames, vec![0x7000, 0x6000, 0x5000, 0x2000, 0x1000]);
    let (gaps, _) = filled(
        whole,
        &[range(0x8000, 0x9000), range(0x3000, 0x5000), range(0x3000, 0x4000)],
    );
    assert_eq!(gaps, vec![range(0x1000, 0x3000), range(0x5000, 0x8000)]);
}

#[test]
fn filling_a_stack_that_holds_frames() {
    let mut mem = low_memory();
    let mut stack = StackAllocator::new();
    let frame = |a: u64| PhysicalFrame::containing_address(PhysicalAddress(a));
    stack.free_page(&mut mem, frame(0xf000));
    let gaps = stack.init(&mut mem, range(0xd000, 0x10000), &vec![range(0xf000, 0x10000)]);
    assert_eq!(gaps, vec![range(0xd000, 0xf000)]);
    assert_eq!(stack.alloc_frame(&mut mem), Some(frame(0xe000)));
    assert_eq!(stack.alloc_frame(&mut mem), Some(frame(0xd000)));
    assert_eq!(stack.alloc_frame(&mut mem), Some(frame(0xf000)));
    assert!(stack.alloc_frame(&mut mem).is_none());
}

#[test]
fn stack_of_frames() {
    let mut mem = arena();
    let mut stack = StackAllocator::new();
    assert!(stack.alloc_frame(&mut mem).is_none());
    let frame = |i: u64| PhysicalFrame::containing_address(PhysicalAddress(0x80_0000 + i * 0x1000));
    stack.free_page(&mut mem, frame(0));
    stack.free_page(&mut mem, frame(1));
    stack.free_page(&mut mem, frame(2));
    assert_eq!(stack.alloc_frame(&mut mem), Some(frame(2)));
    assert_eq!(stack.alloc_frame(&mut mem), Some(frame(1)));
    stack.free_page(&mut mem, frame(5));
    assert_eq!(stack.alloc_frame(&mut mem), Some(frame(5)));
    assert_eq!(stack.alloc_frame(&mut mem), Some(frame(0)));
    assert!(stack.alloc_frame(&mut mem).is_none());
}

#[test]
fn circular_list_nodes() {
    let mut mem = arena();
    let (a, b, c) = (BASE, BASE + 0x1000, BASE + 0x2000);
    let node = CDLListNode::new(a);
    node.init(&mut mem);
    assert_eq!(node.peek(&mem), None);
    assert_eq!(node.peek_prev(&mem), None);
    assert_eq!(node.peek_unchecked(&mem), a);
    assert_eq!(node.peek_prev_unchecked(&mem), a);
    node.push_next(&mut mem, b);
    assert_eq!(node.peek(&mem), Some(b));
    assert_eq!(mem.read_word(b), a);
    assert_eq!(mem.read_word(b + 8), a);
    node.push_back(&mut mem, c);
    assert_eq!(node.peek_prev(&mem), Some(c));
    assert_eq!(mem.read_word(c), a);
    assert_eq!(mem.read_word(c + 8), a);
    mem.write_word(b, c);
    mem.write_word(c + 8, b);
    let second = CDLListNode::new(b);
    second.remove(&mut mem);
    assert_eq!(mem.read_word(b), 0);
    assert_eq!(mem.read_word(b + 8), 0);
    assert_eq!(node.peek(&mem), Some(c));
    assert_eq!(CDLListNode::new(c).peek_prev(&mem), Some(a));
    assert_eq!(mem.read_word(b + 16), 0x1111_1111_1111_1111);
}

#[test]
fn movable_head() {
    let mut mem = arena();
    let mut head = CDLListHead::new();
    assert_eq!(head.peek(), None);
    assert_eq!(head.pop(&mut mem), None);
    head.push(&mut mem, BASE);
    assert_eq!(head.peek(), Some(BASE));
    head.push(&mut mem, BASE + 0x100);
    assert_eq!(head.peek(), Some(BASE + 0x100));
    assert_eq!(head.pop(&mut mem), Some(BASE + 0x100));
    assert_eq!(head.peek(), Some(BASE));
    assert_eq!(head.pop(&mut mem), Some(BASE));
    assert_eq!(head.peek(), None);
}

#[test]
fn pointer_list() {
    let mut mem = arena();
    let mut list = PointerList::new();
    assert!(list.is_empty());
    assert_eq!(list.pop(&mem), None);
    list.push(&mut mem, BASE + 8);
    list.push(&mut mem, BASE + 24);
    assert!(!list.is_empty());
    assert_eq!(mem.read_word(BASE + 24), BASE + 8);
    assert_eq!(mem.read_word(BASE + 8), 0);
    assert_eq!(list.pop(&mem), Some(BASE + 24));
    assert_eq!(list.pop(&mem), Some(BASE + 8));
    assert_eq!(list.pop(&mem), None);
    assert!(list.is_empty());
}

#[test]
fn bitmap_bits() {
    let mut mem = arena();
    mem.zero_frame(BASE);
    let mut map = BitMapPtr::new(BASE, 256);
    assert!(!map.get_at(&mem, 70));
    map.set_at(&mut mem, 70);
    assert!(map.get_at(&mem, 70));
    assert_eq!(mem.read_word(BASE + 8), 1 << 6);
    map.set_at(&mut mem, 70);
    assert_eq!(mem.read_word(BASE + 8), 1 << 6);
    map.flip_at(&mut mem, 127);
    assert_eq!(mem.read_word(BASE + 8), (1 << 6) | (1 << 63));
    map.flip_at(&mut mem, 70);
    assert!(!map.get_at(&mem, 70));
    assert!(map.get_at(&mem, 127));
    map.set_at(&mut mem, 0);
    assert_eq!(mem.read_word(BASE), 1);
    assert_eq!(mem.read_word(BASE + 16), 0);
}

#[test]
fn interrupt_lock_restores_the_prior_state() {
    let mut lock = IRQLocked::new(5u32);
    assert!(!lock.is_locked());
    let guard = lock.lock(true).unwrap();
    assert!(lock.is_locked());
    assert!(lock.lock(true).is_none());
    assert!(lock.is_locked());
    assert_eq!(*lock.get(), 5);
    assert_eq!(lock.replace(6), 5);
    assert!(lock.unlock(guard));
    assert!(!lock.is_locked());
    let guard = lock.lock(false).unwrap();
    assert_eq!(*lock.get(), 6);
    assert!(!lock.unlock(guard));
    let guard = InterruptGuard::new(true);
    let mut other = IRQLocked::new(());
    let _ = other.lock(false);
    assert!(other.unlock(guard));
}

#[test]
fn spinlock_and_late_init() {
    let mut lock = Spinlock::new(3u8);
    let guard = lock.lock().unwrap();
    assert!(lock.lock().is_none());
    assert_eq!(*lock.get(), 3);
    lock.release(guard);
    assert!(lock.lock().is_some());

    let mut late: LateInit<u32> = LateInit::new();
    assert!(!late.is_init());
    assert!(late.init(7));
    assert!(late.is_init());
    assert!(!late.init(8));
    assert_eq!(*late.get(), 7);
    assert_eq!(*Global::new(9).get(), 9);
}
