use phobos_mm::addr::{
    count_pages_needed, is_power_of_two, page_to_pfn, pfn_to_page, PhysicalAddress, PhysicalFrame,
    Pointable, VirtualAddress, VirtualPage, PAGE_SIZE, PHYS_MAP_OFFSET, PHYS_WINDOW_SIZE,
};

#[test]
fn pages_needed_rounds_up() {
    assert_eq!(count_pages_needed(0), 0);
    assert_eq!(count_pages_needed(1), 1);
    assert_eq!(count_pages_needed(0xfff), 1);
    assert_eq!(count_pages_needed(0x1000), 1);
    assert_eq!(count_pages_needed(0x1001), 2);
    assert_eq!(count_pages_needed(0x2000), 2);
    assert_eq!(count_pages_needed(u64::MAX), 0x10_0000_0000_0000);
}

#[test]
fn frame_numbers() {
    assert_eq!(page_to_pfn(0), 0);
    assert_eq!(page_to_pfn(0x1fff), 1);
    assert_eq!(page_to_pfn(PHYS_MAP_OFFSET + 0x5000), 5);
    assert_eq!(page_to_pfn(PHYS_MAP_OFFSET - 1), 0xff_ffff);
    assert_eq!(pfn_to_page(0), PHYS_MAP_OFFSET);
    assert_eq!(pfn_to_page(5), PHYS_MAP_OFFSET + 0x5000);
    assert_eq!(pfn_to_page(0xff_ffff), 0xFFFF_FFFF_FFFF_F000);
    for pfn in [0u64, 1, 77, 0x1234, 0xff_ffff] {
        assert_eq!(page_to_pfn(pfn_to_page(pfn)), pfn);
    }
}

#[test]
fn powers_of_two() {
    assert!(is_power_of_two(1));
    assert!(is_power_of_two(2));
    assert!(is_power_of_two(0x8000_0000_0000_0000));
    assert!(!is_power_of_two(0));
    assert!(!is_power_of_two(3));
    assert!(!is_power_of_two(0x1001));
}

#[test]
fn pointer_round_trip() {
    for p in [0u64, 1, 0x1000, 0x1234_5678, PHYS_WINDOW_SIZE - 1] {
        let addr = PhysicalAddress(p);
        assert!(addr.in_window());
        let ptr = addr.pointer();
        assert_eq!(ptr, p + PHYS_MAP_OFFSET);
        assert_ne!(ptr, 0);
        assert_eq!(PhysicalAddress::from_pointer(ptr), addr);
    }
    assert!(!PhysicalAddress(PHYS_WINDOW_SIZE).in_window());
}

#[test]
fn frame_round_trip() {
    let frame = PhysicalFrame::containing_address(PhysicalAddress(0x5678));
    assert_eq!(frame.start_address(), PhysicalAddress(0x5000));
    let ptr = frame.pointer();
    assert_eq!(ptr, PHYS_MAP_OFFSET + 0x5000);
    assert_eq!(PhysicalFrame::from_pointer(ptr), frame);
    assert_eq!(PhysicalFrame::from_pointer(ptr + 0x123), frame);
}

#[test]
fn containing_address_aligns_down() {
    assert_eq!(
        PhysicalFrame::containing_address(PhysicalAddress(PAGE_SIZE - 1)).start_address().as_u64(),
        0
    );
    assert_eq!(
        PhysicalFrame::containing_address(PhysicalAddress(PAGE_SIZE)).start_address().as_u64(),
        PAGE_SIZE
    );
    let page = VirtualPage::containing_address(VirtualAddress(0xFFFF_8000_0000_1fff));
    assert_eq!(page.start_address().as_u64(), 0xFFFF_8000_0000_1000);
    assert_eq!(page.pointer(), 0xFFFF_8000_0000_1000);
    assert_eq!(VirtualPage::from_pointer(0xFFFF_8000_0000_1abc), page);
}

#[test]
fn virtual_addresses_are_canonical() {
    assert_eq!(VirtualAddress::new(0), Some(VirtualAddress(0)));
    assert_eq!(VirtualAddress::new(0x7fff_ffff_ffff), Some(VirtualAddress(0x7fff_ffff_ffff)));
    assert_eq!(VirtualAddress::new(0x8000_0000_0000), None);
    assert_eq!(VirtualAddress::new(0xFFFF_7FFF_FFFF_FFFF), None);
    assert_eq!(
        VirtualAddress::new(0xFFFF_8000_0000_0000),
        Some(VirtualAddress(0xFFFF_8000_0000_0000))
    );
    let v = VirtualAddress(0x1234);
    assert_eq!(v.pointer(), 0x1234);
    assert_eq!(VirtualAddress::from_pointer(0x1234), v);
}
