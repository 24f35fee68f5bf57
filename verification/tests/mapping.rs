use phobos_mm::addr::PHYS_MAP_OFFSET;
use phobos_mm::boot::direct_map_plan;
use phobos_mm::descriptor::{MemoryDescriptor, CONVENTIONAL};
use phobos_mm::mapping::{
    int_to_ptl, map_offset, map_sized, unmap_level, unmap_range, ClearOp, MapError,
    PageSize, PageTableAction, PageTableLevel, UnmapError,
};
use phobos_mm::virt::KERNEL_MAP_OFFSET;
use x86_64::VirtAddr;

#[test]
fn largest_pages_first() {
    let pages = 2 * 0x4_0000 + 3 * 512 + 5;
    let plan = map_offset(PHYS_MAP_OFFSET, 0, pages).unwrap();
    assert_eq!(plan.giant.size, PageSize::Size1GiB);
    assert_eq!((plan.giant.virt, plan.giant.phys, plan.giant.count), (PHYS_MAP_OFFSET, 0, 2));
    assert_eq!(plan.huge.size, PageSize::Size2MiB);
    assert_eq!(
        (plan.huge.virt, plan.huge.phys, plan.huge.count),
        (PHYS_MAP_OFFSET + 0x8000_0000, 0x8000_0000, 3)
    );
    assert_eq!(plan.small.size, PageSize::Size4KiB);
    assert_eq!(
        (plan.small.virt, plan.small.phys, plan.small.count),
        (PHYS_MAP_OFFSET + 0x8060_0000, 0x8060_0000, 5)
    );
    assert_eq!(plan.giant.page(1), Some((PHYS_MAP_OFFSET + 0x4000_0000, 0x4000_0000)));
    assert_eq!(plan.giant.page(2), None);
    assert_eq!(plan.huge.page(2), Some((PHYS_MAP_OFFSET + 0x8040_0000, 0x8040_0000)));
    assert_eq!(plan.small.page(4), Some((PHYS_MAP_OFFSET + 0x8060_4000, 0x8060_4000)));
    assert_eq!(plan.small.page(5), None);
}

#[test]
fn unaligned_start_uses_small_pages() {
    let plan = map_offset(0x1000, 0x1000, 0x4_0000 + 512).unwrap();
    assert_eq!(plan.giant.count, 0);
    assert_eq!(plan.huge.count, 0);
    assert_eq!(plan.small.count, 0x4_0000 + 512);
    assert_eq!((plan.small.virt, plan.small.phys), (0x1000, 0x1000));

    let plan = map_offset(0x20_0000, 0x40_0000, 1025).unwrap();
    assert_eq!(plan.giant.count, 0);
    assert_eq!((plan.huge.virt, plan.huge.phys, plan.huge.count), (0x20_0000, 0x40_0000, 2));
    assert_eq!((plan.small.virt, plan.small.phys, plan.small.count), (0x60_0000, 0x80_0000, 1));

    let plan = map_offset(0x4000_0000, 0x20_0000, 0x8_0000).unwrap();
    assert_eq!(plan.giant.count, 0);
    assert_eq!(plan.huge.count, 1024);
    assert_eq!(plan.small.count, 0);

    let plan = map_offset(0, 0, 0).unwrap();
    assert_eq!((plan.giant.count, plan.huge.count, plan.small.count), (0, 0, 0));
}

#[test]
fn ranges_that_cannot_be_mapped() {
    assert_eq!(map_offset(0x1001, 0, 1), Err(MapError::Misaligned));
    assert_eq!(map_offset(0x1000, 0x10, 1), Err(MapError::Misaligned));
    assert_eq!(map_offset(0xFFFF_FFFF_FFFF_F000, 0, 1), Err(MapError::Overflow));
    assert_eq!(map_offset(0, 0xFFFF_FFFF_FFFF_F000, 1), Err(MapError::Overflow));
    assert_eq!(map_offset(0, 0, u64::MAX), Err(MapError::Overflow));
    assert!(map_offset(0xFFFF_FFFF_FFFF_E000, 0, 1).is_ok());
}

#[test]
fn runs_of_one_size() {
    let run = map_sized(PageSize::Size2MiB, 0x20_0000, 0x60_0000, 1500);
    assert_eq!(run.count, 2);
    let run = map_sized(PageSize::Size2MiB, 0x20_1000, 0x60_0000, 1500);
    assert_eq!(run.count, 0);
    let run = map_sized(PageSize::Size1GiB, 0, 0, 0x4_0000 - 1);
    assert_eq!(run.count, 0);
    assert_eq!(PageSize::Size4KiB.bytes(), 0x1000);
    assert_eq!(PageSize::Size2MiB.bytes(), 0x20_0000);
    assert_eq!(PageSize::Size1GiB.bytes(), 0x4000_0000);
    assert_eq!(PageSize::Size1GiB.small_pages(), 0x4_0000);
}

#[test]
fn direct_map_of_all_physical_memory() {
    let map = vec![
        MemoryDescriptor::new(CONVENTIONAL, 0, 16),
        MemoryDescriptor::new(CONVENTIONAL, 0x7FF0_0000, 0x4_0100),
    ];
    let plan = direct_map_plan(&map).unwrap().unwrap();
    assert_eq!(plan.giant.count, 3);
    assert_eq!(plan.giant.virt, PHYS_MAP_OFFSET);
    assert_eq!(plan.huge.count, 0);
    assert_eq!(plan.small.count, 0);
    assert!(direct_map_plan(&Vec::new()).is_none());
}

fn clears(actions: &[PageTableAction], level: PageTableLevel) -> Vec<u64> {
    actions
        .iter()
        .filter_map(|a| match a {
            PageTableAction::Clear(op) if op.level == level => Some(op.addr),
            _ => None,
        })
        .collect()
}

#[test]
fn unmap_then_flush() {
    let actions = unmap_range(0x1000, 0x40_0000).unwrap();
    assert_eq!(clears(&actions, PageTableLevel::Four), Vec::<u64>::new());
    assert_eq!(clears(&actions, PageTableLevel::Three), Vec::<u64>::new());
    assert_eq!(clears(&actions, PageTableLevel::Two), vec![0x20_0000]);
    let small = clears(&actions, PageTableLevel::One);
    assert_eq!(small.len(), 511);
    assert_eq!(small, (1..512).map(|i| i * 0x1000).collect::<Vec<u64>>());
    assert_eq!(actions.len(), 513);
    assert_eq!(actions[512], PageTableAction::FlushAll);
    assert_eq!(
        actions.iter().filter(|a| matches!(a, PageTableAction::FlushAll)).count(),
        1
    );
}

#[test]
fn unmap_covers_each_page_once() {
    let (start, end) = (0x3F_F000u64, 0x8040_3000u64);
    let actions = unmap_range(start, end).unwrap();
    let mut covered = 0u64;
    let mut blocks: Vec<(u64, u64)> = Vec::new();
    for a in &actions {
        if let PageTableAction::Clear(op) = a {
            let size = op.level.entry_size();
            assert_eq!(op.addr % size, 0);
            assert!(start <= op.addr && op.addr + size <= end);
            blocks.push((op.addr, op.addr + size));
            covered += size;
        }
    }
    assert_eq!(covered, end - start);
    blocks.sort();
    for w in blocks.windows(2) {
        assert!(w[0].1 <= w[1].0);
    }
    assert_eq!(clears(&actions, PageTableLevel::Three), vec![0x4000_0000]);
    assert_eq!(clears(&actions, PageTableLevel::Two).len(), 510 + 2);
    assert_eq!(clears(&actions, PageTableLevel::One).len(), 1 + 3);
}

#[test]
fn unmap_of_the_loader_half() {
    let actions = unmap_range(0, KERNEL_MAP_OFFSET).unwrap();
    assert_eq!(clears(&actions, PageTableLevel::Four).len(), 511);
    assert_eq!(clears(&actions, PageTableLevel::Three).len(), 384);
    assert_eq!(clears(&actions, PageTableLevel::Three)[0], 0xFF80_0000_0000);
    assert_eq!(clears(&actions, PageTableLevel::Two).len(), 0);
    assert_eq!(clears(&actions, PageTableLevel::One).len(), 0);
    assert_eq!(actions[0], PageTableAction::Clear(ClearOp { level: PageTableLevel::Four, addr: 0 }));
    assert_eq!(actions.last(), Some(&PageTableAction::FlushAll));
}

#[test]
fn unmap_edge_cases() {
    assert_eq!(unmap_range(0x5000, 0x5000), Ok(vec![PageTableAction::FlushAll]));
    assert_eq!(
        unmap_range(0x5000, 0x6000),
        Ok(vec![
            PageTableAction::Clear(ClearOp { level: PageTableLevel::One, addr: 0x5000 }),
            PageTableAction::FlushAll
        ])
    );
    assert_eq!(unmap_range(0x5001, 0x6000), Err(UnmapError::Misaligned));
    assert_eq!(unmap_range(0x5000, 0x6008), Err(UnmapError::Misaligned));
    assert_eq!(unmap_range(0x6000, 0x5000), Err(UnmapError::Inverted));
    let mut ops = vec![ClearOp { level: PageTableLevel::Four, addr: 0 }];
    unmap_level(PageTableLevel::Two, 0x20_0000, 0x60_1000, &mut ops);
    assert_eq!(
        ops,
        vec![
            ClearOp { level: PageTableLevel::Four, addr: 0 },
            ClearOp { level: PageTableLevel::Two, addr: 0x20_0000 },
            ClearOp { level: PageTableLevel::Two, addr: 0x40_0000 },
            ClearOp { level: PageTableLevel::One, addr: 0x60_0000 },
        ]
    );
}

#[test]
fn levels_by_number() {
    assert_eq!(int_to_ptl(0), None);
    assert_eq!(int_to_ptl(1), Some(PageTableLevel::One));
    assert_eq!(int_to_ptl(2), Some(PageTableLevel::Two));
    assert_eq!(int_to_ptl(3), Some(PageTableLevel::Three));
    assert_eq!(int_to_ptl(4), Some(PageTableLevel::Four));
    assert_eq!(int_to_ptl(5), None);
    assert_eq!(PageTableLevel::Four.lower(), Some(PageTableLevel::Three));
    assert_eq!(PageTableLevel::One.lower(), None);
    assert_eq!(PageTableLevel::Four.entry_size(), 0x80_0000_0000);
}

#[test]
fn walk_to_an_entry() {
    let addr = 0x0000_7654_3210_F000u64;
    let v = VirtAddr::new(addr);
    let full: Vec<u16> = vec![
        u16::from(v.p4_index()),
        u16::from(v.p3_index()),
        u16::from(v.p2_index()),
        u16::from(v.p1_index()),
    ];
    assert_eq!(ClearOp { level: PageTableLevel::One, addr }.path(), full);
    assert_eq!(ClearOp { level: PageTableLevel::Two, addr }.path(), full[..3].to_vec());
    assert_eq!(ClearOp { level: PageTableLevel::Three, addr }.path(), full[..2].to_vec());
    assert_eq!(ClearOp { level: PageTableLevel::Four, addr }.path(), full[..1].to_vec());
    assert_eq!(
        ClearOp { level: PageTableLevel::One, addr: 0x0000_FFFF_FFFF_F000 }.path(),
        vec![511, 511, 511, 511]
    );
    assert_eq!(
        ClearOp { level: PageTableLevel::One, addr: 0x20_1000 }.path(),
        vec![0, 0, 1, 1]
    );
}
