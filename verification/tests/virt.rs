use phobos_mm::addr::PHYS_MAP_OFFSET;
use phobos_mm::mapping::PageMapping;
use phobos_mm::memory::{FrameArena, FrameMemory};
use phobos_mm::phys::LinkedListAllocator;
use phobos_mm::virt::{
    alloc_and_map_at, alloc_and_map_at_range, direct_map_frames, is_backed, take_frames,
    FreeError,
    PageRange, SimpleVaSpace, VAllocError, VAllocFlags, COMMIT, KERNEL_MAP_OFFSET, RESERVE,
};

const BASE: u64 = PHYS_MAP_OFFSET + 0x40_0000;
const JUNK: u64 = 0x5A5A_5A5A_5A5A_5A5A;
const PROT: u64 = 0x8000_0000_0000_0003;

fn setup(frames: u64) -> (LinkedListAllocator, FrameArena) {
    let mut mem = FrameArena::new(BASE, 16, JUNK).unwrap();
    let mut alloc = LinkedListAllocator::new();
    for i in 0..frames {
        alloc.return_frame(&mut mem, BASE + i * 0x1000, true);
    }
    (alloc, mem)
}

fn free_frames(alloc: &mut LinkedListAllocator, mem: &mut FrameArena) -> Vec<u64> {
    let mut got = Vec::new();
    while let Some(f) = alloc.get_clean(mem) {
        got.push(f);
    }
    got
}

#[test]
fn bump_monotonicity() {
    let (mut alloc, mut mem) = setup(0);
    let mut space = SimpleVaSpace::new(1, 100);
    let mut last_end = 0x1000;
    for (pages, align) in [(3u64, 1u64), (1, 1), (2, 4), (5, 1), (1, 16), (0, 1), (7, 2)] {
        let a = space
            .alloc_aligned(&mut alloc, &mut mem, pages, align, VAllocFlags::reserve(), PROT)
            .unwrap();
        assert!(a.range.start >= last_end);
        assert_eq!(a.range.start % (align * 0x1000), 0);
        assert_eq!(a.range.end, a.range.start + pages * 0x1000);
        assert_eq!(space.current() * 0x1000, a.range.end);
        assert!(a.mappings.is_empty());
        last_end = a.range.end;
    }
    assert_eq!(last_end, 25 * 0x1000);
}

#[test]
fn exact_ranges_of_a_reserve_sequence() {
    let (mut alloc, mut mem) = setup(0);
    let mut space = SimpleVaSpace::new(1, 100);
    let a = space.allocate(&mut alloc, &mut mem, 3, VAllocFlags::reserve(), PROT).unwrap();
    assert_eq!(a.range, PageRange { start: 0x1000, end: 0x4000 });
    let b = space
        .alloc_aligned(&mut alloc, &mut mem, 2, 8, VAllocFlags::reserve(), PROT)
        .unwrap();
    assert_eq!(b.range, PageRange { start: 0x8000, end: 0xa000 });
    let c = space.reserve_aligned(1, 1).unwrap();
    assert_eq!(c, PageRange { start: 0xa000, end: 0xb000 });
}

#[test]
fn the_bound_is_never_passed() {
    let (mut alloc, mut mem) = setup(0);
    let mut space = SimpleVaSpace::new(10, 20);
    assert_eq!(
        space.allocate(&mut alloc, &mut mem, 11, VAllocFlags::reserve(), PROT).err(),
        Some(VAllocError::NotEnoughSpace)
    );
    assert_eq!(space.current(), 10);
    let a = space.allocate(&mut alloc, &mut mem, 10, VAllocFlags::reserve(), PROT).unwrap();
    assert_eq!(a.range, PageRange { start: 0xa000, end: 0x14000 });
    assert_eq!(space.current(), 20);
    assert_eq!(
        space.allocate(&mut alloc, &mut mem, 1, VAllocFlags::reserve(), PROT).err(),
        Some(VAllocError::NotEnoughSpace)
    );
    assert!(space.allocate(&mut alloc, &mut mem, 0, VAllocFlags::reserve(), PROT).is_ok());
    let mut space = SimpleVaSpace::new(10, 20);
    assert_eq!(
        space
            .alloc_aligned(&mut alloc, &mut mem, 1, 32, VAllocFlags::reserve(), PROT)
            .err(),
        Some(VAllocError::NotEnoughSpace)
    );
    assert_eq!(space.current(), 10);
    assert_eq!(
        space
            .alloc_aligned(&mut alloc, &mut mem, 1, 3, VAllocFlags::reserve(), PROT)
            .err(),
        Some(VAllocError::BadParameter)
    );
    assert_eq!(
        space
            .alloc_aligned(&mut alloc, &mut mem, 1, 0, VAllocFlags::reserve(), PROT)
            .err(),
        Some(VAllocError::BadParameter)
    );
    let mut wide = SimpleVaSpace::new(1, u64::MAX);
    assert_eq!(
        wide.allocate(&mut alloc, &mut mem, u64::MAX / 0x1000, VAllocFlags::reserve(), PROT)
            .err(),
        Some(VAllocError::NotEnoughSpace)
    );
    let mut kernel = SimpleVaSpace::new(1, KERNEL_MAP_OFFSET / 0x1000);
    assert!(kernel.allocate(&mut alloc, &mut mem, 16, VAllocFlags::reserve(), PROT).is_ok());
}

#[test]
fn commit_backs_every_page() {
    let (mut alloc, mut mem) = setup(5);
    let mut space = SimpleVaSpace::new(0x100, 0x200);
    let a = space.allocate(&mut alloc, &mut mem, 3, VAllocFlags::commit(), PROT).unwrap();
    assert_eq!(a.range, PageRange { start: 0x10_0000, end: 0x10_3000 });
    assert_eq!(
        a.mappings,
        vec![
            PageMapping { virt: 0x10_0000, phys: 0x40_4000, flags: PROT },
            PageMapping { virt: 0x10_1000, phys: 0x40_3000, flags: PROT },
            PageMapping { virt: 0x10_2000, phys: 0x40_2000, flags: PROT },
        ]
    );
    for m in &a.mappings {
        for w in 0..512 {
            assert_eq!(mem.read_word(m.phys + PHYS_MAP_OFFSET + 8 * w), 0);
        }
    }
    assert_eq!(free_frames(&mut alloc, &mut mem), vec![BASE + 0x1000, BASE]);
}

#[test]
fn commit_without_enough_frames_changes_nothing() {
    let (mut alloc, mut mem) = setup(2);
    let mut space = SimpleVaSpace::new(0x100, 0x200);
    assert_eq!(
        space.allocate(&mut alloc, &mut mem, 3, VAllocFlags::commit(), PROT).err(),
        Some(VAllocError::CannotCommit)
    );
    assert_eq!(space.current(), 0x100);
    let mut left = free_frames(&mut alloc, &mut mem);
    left.sort();
    assert_eq!(left, vec![BASE, BASE + 0x1000]);
}

#[test]
fn flags() {
    assert_eq!(VAllocFlags::reserve().bits, RESERVE);
    assert_eq!(VAllocFlags::commit().bits, COMMIT);
    let both = VAllocFlags { bits: RESERVE | COMMIT };
    assert!(both.contains(VAllocFlags::commit()));
    assert!(both.contains(VAllocFlags::reserve()));
    assert!(!VAllocFlags::reserve().contains(VAllocFlags::commit()));
    let (mut alloc, mut mem) = setup(1);
    let mut space = SimpleVaSpace::new(1, 10);
    let a = space.allocate(&mut alloc, &mut mem, 1, both, PROT).unwrap();
    assert_eq!(a.mappings.len(), 1);
}

#[test]
fn backing_at_an_address() {
    let (mut alloc, mut mem) = setup(3);
    let maps = alloc_and_map_at(&mut alloc, &mut mem, 0x7000, 2, 3).unwrap();
    assert_eq!(
        maps,
        vec![
            PageMapping { virt: 0x7000, phys: 0x40_2000, flags: 3 },
            PageMapping { virt: 0x8000, phys: 0x40_1000, flags: 3 },
        ]
    );
    assert_eq!(
        alloc_and_map_at(&mut alloc, &mut mem, 0x7001, 1, 3),
        Err(VAllocError::BadParameter)
    );
    assert_eq!(
        alloc_and_map_at(&mut alloc, &mut mem, 0xFFFF_FFFF_FFFF_F000, 1, 3),
        Err(VAllocError::BadParameter)
    );
    assert_eq!(
        alloc_and_map_at(&mut alloc, &mut mem, 0x7000, 2, 3),
        Err(VAllocError::CannotCommit)
    );
    let range = PageRange { start: 0x9000, end: 0xa000 };
    let maps = alloc_and_map_at_range(&mut alloc, &mut mem, range, 1).unwrap();
    assert_eq!(maps, vec![PageMapping { virt: 0x9000, phys: 0x40_0000, flags: 1 }]);
    let inverted = PageRange { start: 0xa000, end: 0x9000 };
    assert_eq!(
        alloc_and_map_at_range(&mut alloc, &mut mem, inverted, 1),
        Err(VAllocError::BadParameter)
    );
    assert_eq!(alloc_and_map_at(&mut alloc, &mut mem, 0x7000, 0, 3), Ok(Vec::new()));
}

#[test]
fn taking_frames_is_all_or_nothing() {
    let (mut alloc, mut mem) = setup(3);
    assert_eq!(take_frames(&mut alloc, &mut mem, 4), None);
    let got = take_frames(&mut alloc, &mut mem, 3).unwrap();
    let mut sorted = got.clone();
    sorted.sort();
    assert_eq!(sorted, vec![BASE, BASE + 0x1000, BASE + 0x2000]);
    assert_eq!(take_frames(&mut alloc, &mut mem, 1), None);
    assert_eq!(take_frames(&mut alloc, &mut mem, 0), Some(Vec::new()));
}

#[test]
fn freeing_gives_the_frames_back_as_dirty() {
    let (mut alloc, mut mem) = setup(0);
    let space = SimpleVaSpace::new(1, 100);
    let backing = vec![Some(0x40_1000), Some(0x40_3000)];
    assert_eq!(space.free(&mut alloc, &mut mem, 0x5000, 2, &backing), Ok(()));
    assert_eq!(space.current(), 1);
    assert!(alloc.clean.is_empty());
    assert_eq!(alloc.dirty.next, Some(BASE + 0x3000));
    assert_eq!(free_frames(&mut alloc, &mut mem), vec![BASE + 0x3000, BASE + 0x1000]);

    let range = PageRange { start: 0x5000, end: 0x6000 };
    assert_eq!(space.free_range(&mut alloc, &mut mem, range, &vec![Some(0x40_0000)]), Ok(()));
    assert_eq!(free_frames(&mut alloc, &mut mem), vec![BASE]);
}

#[test]
fn unmapped_pages_are_found_before_freeing() {
    assert!(is_backed(&Vec::new()));
    assert!(is_backed(&vec![Some(0x40_1000), Some(0)]));
    assert!(!is_backed(&vec![Some(0x40_1000), None, Some(0x40_2000)]));
    assert!(!is_backed(&vec![None]));
}

#[test]
fn ranges_that_cannot_be_freed() {
    let (mut alloc, mut mem) = setup(0);
    let space = SimpleVaSpace::new(1, 100);
    let backing = vec![Some(0x40_1000), Some(0x40_2001), Some(0x40_3000)];
    assert_eq!(
        space.free(&mut alloc, &mut mem, 0x5000, 3, &backing),
        Err(FreeError::BadFrame)
    );
    assert!(alloc.dirty.is_empty());
    assert_eq!(
        space.free(&mut alloc, &mut mem, 0x5000, 1, &vec![Some(0x10_0000_0000)]),
        Err(FreeError::BadFrame)
    );
    assert_eq!(
        space.free(&mut alloc, &mut mem, 0x5000, 2, &vec![Some(0x40_1000)]),
        Err(FreeError::BadRange)
    );
    assert_eq!(
        space.free(&mut alloc, &mut mem, 0x5008, 1, &vec![Some(0x40_1000)]),
        Err(FreeError::BadRange)
    );
    assert_eq!(
        space.free(&mut alloc, &mut mem, 0xFFFF_FFFF_FFFF_F000, 1, &vec![Some(0x40_1000)]),
        Err(FreeError::BadRange)
    );
    let inverted = PageRange { start: 0x6000, end: 0x5000 };
    assert_eq!(
        space.free_range(&mut alloc, &mut mem, inverted, &Vec::new()),
        Err(FreeError::BadRange)
    );
    assert_eq!(
        direct_map_frames(&vec![Some(0), Some(0x1000)]),
        Ok(vec![PHYS_MAP_OFFSET, PHYS_MAP_OFFSET + 0x1000])
    );
    assert_eq!(direct_map_frames(&vec![Some(0), Some(0x1008)]), Err(FreeError::BadFrame));
    assert!(alloc.dirty.is_empty() && alloc.clean.is_empty());
}
