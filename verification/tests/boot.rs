use phobos_mm::boot::{
    find_mode, map_stack, mode_candidates, BootError, Handoff, HandoffAction, HandoffEvent,
    HandoffStage, KERNEL_STACK_BOTTOM, KERNEL_STACK_SIZE_PAGES, PIXEL_FORMAT_BGR,
};
use phobos_mm::descriptor::{MemoryDescriptor, CONVENTIONAL, KERNEL_RX_MEM_TYPE};
use phobos_mm::handoff::FramebufferMode;
use phobos_mm::mapping::PageMapping;

fn mode(width: u32, height: u32, pixel_format: u32) -> FramebufferMode {
    FramebufferMode { width, height, stride: width, pixel_format }
}

#[test]
fn framebuffer_modes_in_order_of_preference() {
    let modes = vec![
        mode(640, 480, PIXEL_FORMAT_BGR),
        mode(1920, 1080, 0),
        mode(1280, 720, PIXEL_FORMAT_BGR),
        mode(800, 600, PIXEL_FORMAT_BGR),
        mode(1920, 1080, PIXEL_FORMAT_BGR),
        mode(1920, 1080, PIXEL_FORMAT_BGR),
        mode(640, 480, PIXEL_FORMAT_BGR),
    ];
    assert_eq!(mode_candidates(&modes), vec![4, 2, 0]);
    assert_eq!(find_mode(&modes, 1920, 1080), Some(4));
    assert_eq!(find_mode(&modes, 1920, 1200), None);
    assert_eq!(find_mode(&modes, 800, 600), Some(3));
    assert_eq!(mode_candidates(&Vec::new()), Vec::<usize>::new());
    assert_eq!(mode_candidates(&vec![mode(1920, 1200, PIXEL_FORMAT_BGR)]), vec![0]);
}

#[test]
fn kernel_stack_mapping() {
    assert_eq!(KERNEL_STACK_BOTTOM, 0xFFFF_FFF0_0000_0000 - 0x1000);
    let top = map_stack(KERNEL_STACK_BOTTOM, KERNEL_STACK_SIZE_PAGES, 0x20_0000, 0).unwrap();
    assert_eq!(
        top,
        PageMapping {
            virt: KERNEL_STACK_BOTTOM,
            phys: 0x20_0000 + 255 * 0x1000,
            flags: 0x8000_0000_0000_0003
        }
    );
    let low = map_stack(KERNEL_STACK_BOTTOM, KERNEL_STACK_SIZE_PAGES, 0x20_0000, 255).unwrap();
    assert_eq!(low.virt, KERNEL_STACK_BOTTOM - 255 * 0x1000);
    assert_eq!(low.phys, 0x20_0000);
    assert!(map_stack(KERNEL_STACK_BOTTOM, KERNEL_STACK_SIZE_PAGES, 0x20_0000, 256).is_none());
    assert!(map_stack(KERNEL_STACK_BOTTOM + 1, 4, 0x20_0000, 0).is_none());
    assert!(map_stack(KERNEL_STACK_BOTTOM, 4, 0x20_0010, 0).is_none());
    assert!(map_stack(0x1000, 4, 0x20_0000, 2).is_none());
    assert!(map_stack(0x2000, 4, 0x20_0000, 2).is_some());
    assert!(map_stack(0x2000, 0, 0x20_0000, 0).is_none());
}

fn region(ty: u32, phys_start: u64, pages: u64) -> MemoryDescriptor {
    MemoryDescriptor::new(ty, phys_start, pages)
}

fn begin() -> Handoff {
    let mut image = region(KERNEL_RX_MEM_TYPE, 0x10_0000, 2);
    image.virt_start = 0xFFFF_FFFF_8000_0000;
    let (state, action) = Handoff::new(0xFFFF_FFFF_8000_0040, vec![image], 0xbeef, mode(640, 480, 1), 6);
    assert!(matches!(action, HandoffAction::QueryMemoryMap));
    assert_eq!(state.stage, HandoffStage::AwaitMemoryMap);
    state
}

fn firmware_map() -> Vec<MemoryDescriptor> {
    vec![region(CONVENTIONAL, 0, 0x100), region(KERNEL_RX_MEM_TYPE, 0x10_0000, 2)]
}

#[test]
fn handoff_with_one_retry() {
    let state = begin();
    let (state, action) =
        state.step(HandoffEvent::MemoryMap { descriptors: firmware_map(), key: 11 });
    assert!(matches!(action, HandoffAction::AllocateBlock { pages: 6 }));
    assert_eq!(state.stage, HandoffStage::AwaitBlock);

    let (state, action) = state.step(HandoffEvent::BlockAllocated);
    assert!(matches!(action, HandoffAction::QueryMemoryMap));

    let mut grown = firmware_map();
    grown.push(region(0x8000_0007, 0x20_0000, 6));
    let (state, action) =
        state.step(HandoffEvent::MemoryMap { descriptors: grown.clone(), key: 12 });
    assert!(matches!(action, HandoffAction::ExitBootServices { key: 12 }));
    assert_eq!(state.stage, HandoffStage::AwaitExit);

    let (state, action) = state.step(HandoffEvent::StaleKey);
    assert!(matches!(action, HandoffAction::QueryMemoryMap));
    assert_eq!(state.stage, HandoffStage::AwaitMemoryMap);

    let (state, action) = state.step(HandoffEvent::MemoryMap { descriptors: grown, key: 13 });
    assert!(matches!(action, HandoffAction::ExitBootServices { key: 13 }));

    let (state, action) = state.step(HandoffEvent::Exited { runtime_services: 0x7777 });
    assert_eq!(state.stage, HandoffStage::Done);
    match action {
        HandoffAction::Jump { entry, args } => {
            assert_eq!(entry, 0xFFFF_FFFF_8000_0040);
            assert_eq!(args.uefi_rst, 0x7777);
            assert_eq!(args.fb_addr, 0xbeef);
            assert_eq!(args.fb_info, mode(640, 480, 1));
            let map = args.memory_map();
            assert_eq!(map.len(), 3);
            assert_eq!(map[0], region(CONVENTIONAL, 0, 0x100));
            assert_eq!(map[1].virt_start, 0xFFFF_FFFF_8000_0000);
            assert_eq!(map[1].ty, KERNEL_RX_MEM_TYPE);
            assert_eq!(map[2], region(0x8000_0007, 0x20_0000, 6));
        },
        _ => panic!("the loader did not jump"),
    }
    let (state, action) = state.step(HandoffEvent::BlockAllocated);
    assert_eq!(state.stage, HandoffStage::Halted);
    assert!(matches!(action, HandoffAction::Halt { error: BootError::UnexpectedEvent }));
}

#[test]
fn handoff_halts_on_a_map_too_long() {
    let long: Vec<MemoryDescriptor> =
        (0..513).map(|i| region(CONVENTIONAL, i * 0x1000, 1)).collect();
    let (state, action) = begin().step(HandoffEvent::MemoryMap { descriptors: long, key: 1 });
    assert_eq!(state.stage, HandoffStage::Halted);
    assert!(matches!(action, HandoffAction::Halt { error: BootError::CapacityExceeded }));

    let full: Vec<MemoryDescriptor> =
        (0..512).map(|i| region(CONVENTIONAL, i * 0x1000, 1)).collect();
    let (state, action) = begin().step(HandoffEvent::MemoryMap { descriptors: full, key: 1 });
    assert_eq!(state.stage, HandoffStage::AwaitBlock);
    assert!(matches!(action, HandoffAction::AllocateBlock { pages: 6 }));
}

#[test]
fn handoff_halts_on_failure_and_on_surprise() {
    let (state, action) = begin().step(HandoffEvent::AllocationFailed);
    assert_eq!(state.stage, HandoffStage::Halted);
    assert!(matches!(action, HandoffAction::Halt { error: BootError::FirmwareAllocation }));

    let (state, action) = begin().step(HandoffEvent::StaleKey);
    assert_eq!(state.stage, HandoffStage::Halted);
    assert!(matches!(action, HandoffAction::Halt { error: BootError::UnexpectedEvent }));

    let (state, _) = begin().step(HandoffEvent::MemoryMap { descriptors: firmware_map(), key: 1 });
    let (state, action) = state.step(HandoffEvent::AllocationFailed);
    assert_eq!(state.stage, HandoffStage::Halted);
    assert!(matches!(action, HandoffAction::Halt { error: BootError::FirmwareAllocation }));

    let (state, _) = begin().step(HandoffEvent::MemoryMap { descriptors: firmware_map(), key: 1 });
    let (state, action) = state.step(HandoffEvent::Exited { runtime_services: 1 });
    assert_eq!(state.stage, HandoffStage::Halted);
    assert!(matches!(action, HandoffAction::Halt { error: BootError::UnexpectedEvent }));
}
