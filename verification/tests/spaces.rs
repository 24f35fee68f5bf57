use phobos_mm::addr::PHYS_MAP_OFFSET;
use phobos_mm::list::CDLListNode;
use phobos_mm::memory::{FrameArena, FrameMemory};
use phobos_mm::paging::{init_linear_pt_array, init_page_table, PagingChainRef};
use phobos_mm::phys::LinkedListAllocator;
use phobos_mm::setup::{BumpAlloc, Layout};
use phobos_mm::virt::{
    heap_alloc_pages, KernelVASpace, PageRange, SimpleVaSpace, VAllocError, VAllocFlags, VadRange,
    HEAP_PROTECTION, KERNEL_VIRT_SPACE_PAGES, KERNEL_VIRT_SPACE_START,
};

const BASE: u64 = PHYS_MAP_OFFSET + 0xC0_0000;
const JUNK: u64 = 0x7777_7777_7777_7777;

fn arena() -> FrameArena {
    FrameArena::new(BASE, 8, JUNK).unwrap()
}

fn vad(min: u64, max: u64) -> VadRange {
    VadRange { min, max }
}

#[test]
fn first_gap_from_the_hint() {
    let mut space = KernelVASpace::new();
    assert_eq!(space.find_free_space(&Vec::new(), 1), Some(vad(0, 15)));
    assert_eq!(space.find_free_space(&vec![vad(0, 15)], 17), Some(vad(16, 47)));
    let taken = vec![vad(0, 15), vad(16, 47), vad(64, 79)];
    assert_eq!(space.find_free_space(&taken, 16), Some(vad(48, 63)));
    let taken = vec![vad(0, 15), vad(16, 47), vad(48, 63), vad(64, 79)];
    assert_eq!(space.find_free_space(&taken, 16), Some(vad(80, 95)));
    assert_eq!(space.find_free_space(&taken, 0), None);
    assert_eq!(space.find_free_space(&taken, u64::MAX), None);
    assert_eq!(space.find_free_space(&taken, KERNEL_VIRT_SPACE_PAGES), None);
}

#[test]
fn gaps_before_the_hint_are_passed_over() {
    let mut space = KernelVASpace::new();
    assert_eq!(space.find_free_space(&Vec::new(), 32), Some(vad(0, 31)));
    let taken = vec![vad(100, 131)];
    assert_eq!(space.find_free_space(&taken, 16), Some(vad(32, 47)));
    let taken = vec![vad(0, 15), vad(48, 63)];
    assert_eq!(space.find_free_space(&taken, 16), Some(vad(64, 79)));
    let mut fresh = KernelVASpace::new();
    let last = KERNEL_VIRT_SPACE_PAGES - 1;
    assert_eq!(fresh.find_free_space(&vec![vad(0, last - 8)], 16), None);
    assert_eq!(fresh.find_free_space(&vec![vad(0, last - 16)], 16), Some(vad(last - 15, last)));
    assert_eq!(fresh.find_free_space(&vec![vad(0, u64::MAX)], 16), None);
}

#[test]
fn ranges_of_kernel_space() {
    assert_eq!(
        vad(16, 31).pages(),
        Some(PageRange {
            start: KERNEL_VIRT_SPACE_START + 0x1_0000,
            end: KERNEL_VIRT_SPACE_START + 0x2_0000
        })
    );
    assert_eq!(vad(5, 4).pages(), None);
    assert_eq!(vad(0, KERNEL_VIRT_SPACE_PAGES).pages(), None);
    assert!(vad(0, KERNEL_VIRT_SPACE_PAGES - 1).pages().is_some());
}

#[test]
fn descriptor_allocation() {
    let mut mem = arena();
    let mut alloc = LinkedListAllocator::new();
    let mut space = KernelVASpace::new();
    let (range, a) = space
        .allocate(&Vec::new(), &mut alloc, &mut mem, 3, VAllocFlags::reserve(), 3)
        .ok()
        .unwrap();
    assert_eq!(range, vad(0, 15));
    assert_eq!(a.range.start, KERNEL_VIRT_SPACE_START);
    assert_eq!(a.range.end, KERNEL_VIRT_SPACE_START + 0x1_0000);
    assert!(a.mappings.is_empty());
    assert_eq!(
        space.allocate(&vec![range], &mut alloc, &mut mem, 1, VAllocFlags::commit(), 3).err(),
        Some(VAllocError::CannotCommit)
    );
    assert_eq!(
        space.allocate(&vec![range], &mut alloc, &mut mem, 0, VAllocFlags::reserve(), 3).err(),
        Some(VAllocError::NotEnoughSpace)
    );
    let (next, _) = space
        .allocate(&vec![range], &mut alloc, &mut mem, 1, VAllocFlags::reserve(), 3)
        .ok()
        .unwrap();
    assert_eq!(next, vad(16, 31));
}

#[test]
fn heap_pages() {
    let mut mem = arena();
    let mut alloc = LinkedListAllocator::new();
    for i in 0..3 {
        alloc.return_frame(&mut mem, BASE + i * 0x1000, true);
    }
    let mut space = SimpleVaSpace::new(0x10, 0x20);
    assert!(heap_alloc_pages(&mut space, &mut alloc, &mut mem, -1).is_none());
    let a = heap_alloc_pages(&mut space, &mut alloc, &mut mem, 2).unwrap();
    assert_eq!(a.range, PageRange { start: 0x1_0000, end: 0x1_2000 });
    assert_eq!(a.mappings.len(), 2);
    assert!(a.mappings.iter().all(|m| m.flags == HEAP_PROTECTION));
    assert!(heap_alloc_pages(&mut space, &mut alloc, &mut mem, 2).is_none());
    assert_eq!(space.current(), 0x12);
    assert!(heap_alloc_pages(&mut space, &mut alloc, &mut mem, 100).is_none());
    assert!(heap_alloc_pages(&mut space, &mut alloc, &mut mem, 1).is_some());
}

#[test]
fn fresh_tables() {
    let mut mem = arena();
    init_page_table(&mut mem, BASE + 0x5000);
    assert!((0..512).all(|w| mem.read_word(BASE + 0x5000 + 8 * w) == 0));
    assert_eq!(mem.read_word(BASE + 0x4ff8), JUNK);
    assert_eq!(mem.read_word(BASE + 0x6000), JUNK);

    assert_eq!(init_linear_pt_array(&mut mem, BASE, 0x3000), None);
    assert_eq!(init_linear_pt_array(&mut mem, BASE + 8, 0x4000), None);
    assert_eq!(mem.read_word(BASE), JUNK);
    let chain = init_linear_pt_array(&mut mem, BASE, 0x4000).unwrap();
    assert_eq!(
        chain,
        PagingChainRef { pml4: BASE, pdpt: BASE + 0x1000, pd: BASE + 0x2000, pt: BASE + 0x3000 }
    );
    assert!((0..2048).all(|w| mem.read_word(BASE + 8 * w) == 0));
    assert_eq!(mem.read_word(BASE + 0x4000), JUNK);
}

#[test]
fn zeroed_blocks() {
    let mut mem = arena();
    let mut bump = BumpAlloc::new(BASE + 4, BASE + 0x1000);
    let at = bump.alloc_zeroed(&mut mem, Layout::from_size_align(32, 16).unwrap());
    assert_eq!(at, BASE + 16);
    assert!((0..4).all(|w| mem.read_word(at + 8 * w) == 0));
    assert_eq!(mem.read_word(BASE + 8), JUNK);
    assert_eq!(mem.read_word(at + 32), JUNK);
    assert_eq!(bump.alloc_fallible(Layout::from_size_align(8, 8).unwrap()), Some(BASE + 48));
}

#[test]
fn unlinking_neighbours() {
    let mut mem = arena();
    let (a, b, c) = (BASE, BASE + 0x100, BASE + 0x200);
    for (node, next, prev) in [(a, b, c), (b, c, a), (c, a, b)] {
        mem.write_word(node, next);
        mem.write_word(node + 8, prev);
    }
    let head = CDLListNode::new(a);
    assert_eq!(head.pop_next(&mut mem), Some(b));
    assert_eq!(head.peek(&mem), Some(c));
    assert_eq!(head.pop_back(&mut mem), Some(c));
    assert_eq!(head.peek_prev(&mem), Some(b));
    assert_eq!(head.pop_next_unchecked(&mut mem), c);
    assert_eq!(head.peek(&mem), None);
    assert_eq!(head.pop_next(&mut mem), None);
    assert_eq!(head.pop_back_unchecked(&mut mem), b);
    assert_eq!(head.peek_prev(&mem), None);
    assert_eq!(head.pop_back(&mut mem), None);
    assert_eq!(mem.read_word(b), c);
    assert_eq!(mem.read_word(c + 8), b);
}
