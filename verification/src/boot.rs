//! The decisions of the loader while firmware boot services are still
//! there: which framebuffer mode to ask for, where the kernel stack goes,
//! and in which order the firmware is asked for the memory map, the handoff
//! block and the exit from boot services.

use vstd::prelude::*;
use crate::addr::{PAGE_SIZE, PHYS_MAP_OFFSET};
use crate::descriptor::MemoryDescriptor;
use crate::handoff::{
    build_kernel_args, merge_memory_map, merged_map, FramebufferMode, KernelArgs,
    KERNEL_ARGS_MDL_SIZE,
};
use crate::loader::{PAGE_NO_EXECUTE, PAGE_PRESENT, PAGE_WRITABLE};
use crate::handoff::{direct_map_pages, direct_map_span};
use crate::mapping::{map_error_of, map_offset, map_plan_of, MapError, MapPlan, PageMapping};

verus! {

/// Number of pages of the kernel stack.
pub const KERNEL_STACK_SIZE_PAGES: u64 = 256;

/// Address of the highest page of the kernel stack.
pub const KERNEL_STACK_BOTTOM: u64 = 0xFFFF_FFEF_FFFF_F000;

/// Firmware code of the pixel layout blue, green, red, reserved.
pub const PIXEL_FORMAT_BGR: u32 = 1;

/// Whether the mode has the resolution `width` by `height` and the pixel
/// layout that the kernel draws in.
pub open spec fn mode_fits(mode: FramebufferMode, width: u32, height: u32) -> bool {
    mode.width == width && mode.height == height && mode.pixel_format == PIXEL_FORMAT_BGR
}

/// Index of the first mode, from `from` on, that fits the resolution.
pub open spec fn first_fit(modes: Seq<FramebufferMode>, width: u32, height: u32, from: int)
    -> Option<int>
    decreases modes.len() - from,
{
    if from < 0 || from >= modes.len() {
        None
    } else if mode_fits(modes[from], width, height) {
        Some(from)
    } else {
        first_fit(modes, width, height, from + 1)
    }
}

/// Index of the first mode that has the resolution `width` by `height` and
/// the pixel layout that the kernel draws in.
pub fn find_mode(modes: &Vec<FramebufferMode>, width: u32, height: u32) -> (r: Option<usize>)
    ensures
        match r {
            Some(i) => first_fit(modes@, width, height, 0) == Some(i as int),
            None => first_fit(modes@, width, height, 0) is None,
        },
{
    let mut i: usize = 0;
    while i < modes.len()
        invariant
            i <= modes.len(),
            first_fit(modes@, width, height, 0) == first_fit(modes@, width, height, i as int),
        decreases modes.len() - i,
    {
        let m = modes[i];
        if m.width == width && m.height == height && m.pixel_format == PIXEL_FORMAT_BGR {
            return Some(i);
        }
        i += 1;
    }
    None
}

/// With `found` the mode found for a resolution, the candidates so far and
/// that mode, if there is one.
pub open spec fn with_candidate(so_far: Seq<usize>, found: Option<int>) -> Seq<usize> {
    match found {
        Some(i) => so_far.push(i as usize),
        None => so_far,
    }
}

/// The modes to try, best first: for each of the resolutions 1920 by 1080,
/// 1920 by 1200, 1280 by 720 and 640 by 480, in this order, the first mode
/// that has it.
pub open spec fn candidates_of(modes: Seq<FramebufferMode>) -> Seq<usize> {
    with_candidate(
        with_candidate(
            with_candidate(
                with_candidate(Seq::empty(), first_fit(modes, 1920, 1080, 0)),
                first_fit(modes, 1920, 1200, 0),
            ),
            first_fit(modes, 1280, 720, 0),
        ),
        first_fit(modes, 640, 480, 0),
    )
}

/// The framebuffer modes to try, best first. The loader sets the first that
/// the firmware accepts and halts where there is none.
pub fn mode_candidates(modes: &Vec<FramebufferMode>) -> (r: Vec<usize>)
    ensures
        r@ == candidates_of(modes@),
{
    let mut r: Vec<usize> = Vec::new();
    match find_mode(modes, 1920, 1080) {
        Some(i) => {
            r.push(i);
        },
        None => {},
    }
    match find_mode(modes, 1920, 1200) {
        Some(i) => {
            r.push(i);
        },
        None => {},
    }
    match find_mode(modes, 1280, 720) {
        Some(i) => {
            r.push(i);
        },
        None => {},
    }
    match find_mode(modes, 640, 480) {
        Some(i) => {
            r.push(i);
        },
        None => {},
    }
    r
}

/// The mapping of page `i` of a stack of `size_pages` pages, counted
/// downwards from the page at `bottom`, onto frames allocated at `phys`: the
/// highest page onto the last frame. Writable, not executable.
pub open spec fn stack_page(bottom: u64, size_pages: u64, phys: u64, i: u64) -> Option<
    PageMapping,
> {
    if i < size_pages && bottom % PAGE_SIZE == 0 && phys % PAGE_SIZE == 0 && bottom >= i * PAGE_SIZE
        && phys + (size_pages - 1 - i) * PAGE_SIZE <= u64::MAX {
        Some(
            PageMapping {
                virt: (bottom - i * PAGE_SIZE) as u64,
                phys: (phys + (size_pages - 1 - i) * PAGE_SIZE) as u64,
                flags: 0x8000_0000_0000_0003,
            },
        )
    } else {
        None
    }
}

/// The mapping of page `i` of the kernel stack, or `None` past its last
/// page, for addresses off a page boundary, and for a page outside the
/// address space.
pub fn map_stack(bottom: u64, size_pages: u64, phys: u64, i: u64) -> (r: Option<PageMapping>)
    ensures
        r == stack_page(bottom, size_pages, phys, i),
        r is Some ==> r->0.flags == PAGE_PRESENT | PAGE_WRITABLE | PAGE_NO_EXECUTE,
{
    assert(1u64 | 2u64 | 0x8000_0000_0000_0000u64 == 0x8000_0000_0000_0003u64) by (bit_vector);
    if i >= size_pages || bottom % PAGE_SIZE != 0 || phys % PAGE_SIZE != 0 {
        return None;
    }
    let down = match i.checked_mul(PAGE_SIZE) {
        Some(d) => d,
        None => {
            return None;
        },
    };
    let up = match (size_pages - 1 - i).checked_mul(PAGE_SIZE) {
        Some(u) => u,
        None => {
            return None;
        },
    };
    if bottom < down {
        return None;
    }
    match phys.checked_add(up) {
        Some(frame) => Some(
            PageMapping { virt: bottom - down, phys: frame, flags: 0x8000_0000_0000_0003 },
        ),
        None => None,
    }
}

/// Plans the direct-map window: all physical memory from address zero to the
/// end of the last region of the memory map, mapped at `PHYS_MAP_OFFSET`
/// with the largest pages that fit. `None` for an empty map and for a span
/// that does not fit in 64 bits.
pub fn direct_map_plan(mmap: &Vec<MemoryDescriptor>) -> (r: Option<Result<MapPlan, MapError>>)
    ensures
        match r {
            None => !(mmap@.len() > 0 && direct_map_span(mmap@) <= u64::MAX),
            Some(plan) => mmap@.len() > 0 && direct_map_span(mmap@) <= u64::MAX && (match plan {
                Ok(p) => map_error_of(PHYS_MAP_OFFSET, 0, direct_map_span(mmap@) as u64) is None
                    && p == map_plan_of(PHYS_MAP_OFFSET, 0, direct_map_span(mmap@) as u64),
                Err(e) => map_error_of(PHYS_MAP_OFFSET, 0, direct_map_span(mmap@) as u64) == Some(
                    e,
                ),
            }),
        },
{
    match direct_map_pages(mmap) {
        Some(pages) => Some(map_offset(PHYS_MAP_OFFSET, 0, pages)),
        None => None,
    }
}

/// Why the loader halts.
#[derive(Clone, Copy, Debug, PartialEq, Eq, Structural)]
pub enum BootError {
    /// The firmware could not allocate what was asked of it.
    FirmwareAllocation,
    /// The merged memory map does not fit the handoff block.
    CapacityExceeded,
    /// The firmware answered what was not asked.
    UnexpectedEvent,
}

/// Where the handoff stands.
#[derive(Clone, Copy, Debug, PartialEq, Eq, Structural)]
pub enum HandoffStage {
    /// The memory map has been asked for.
    AwaitMemoryMap,
    /// The pages of the handoff block have been asked for.
    AwaitBlock,
    /// The exit from boot services has been asked for.
    AwaitExit,
    /// Control has gone to the kernel.
    Done,
    /// The loader has halted.
    Halted,
}

/// What the firmware answered.
pub enum HandoffEvent {
    /// The memory map, and the key that names this state of it.
    MemoryMap { descriptors: Vec<MemoryDescriptor>, key: u64 },
    /// The pages of the handoff block are allocated.
    BlockAllocated,
    /// Boot services are left; `runtime_services` is the handle that stays.
    Exited { runtime_services: u64 },
    /// The exit was refused: the memory map changed since the key was given.
    StaleKey,
    /// The firmware could not allocate.
    AllocationFailed,
}

/// What the loader does next.
pub enum HandoffAction {
    /// Ask the firmware for the memory map.
    QueryMemoryMap,
    /// Allocate and zero `pages` pages for the handoff block.
    AllocateBlock { pages: u64 },
    /// Leave boot services with the memory map that `key` names.
    ExitBootServices { key: u64 },
    /// Enter the kernel at `entry` with the handoff block `args`; this never
    /// returns.
    Jump { entry: u64, args: KernelArgs },
    /// Halt with a diagnostic.
    Halt { error: BootError },
}

/// The handoff from loader to kernel, one firmware call at a time.
pub struct Handoff {
    /// Where the handoff stands.
    pub stage: HandoffStage,
    /// Entry point of the kernel.
    pub entry: u64,
    /// What the loader allocated for the image.
    pub loaded: Vec<MemoryDescriptor>,
    /// Direct-map address of the framebuffer.
    pub fb_addr: u64,
    /// Mode of the framebuffer.
    pub fb_info: FramebufferMode,
    /// Number of pages of the handoff block.
    pub block_pages: u64,
    /// Whether the handoff block is allocated.
    pub block_allocated: bool,
    /// The merged memory map of the last query.
    pub merged: Vec<MemoryDescriptor>,
    /// The key of the last query.
    pub key: u64,
}

impl Handoff {
    /// Begins the handoff: the first thing to do is to ask for the memory
    /// map.
    pub fn new(
        entry: u64,
        loaded: Vec<MemoryDescriptor>,
        fb_addr: u64,
        fb_info: FramebufferMode,
        block_pages: u64,
    ) -> (r: (Handoff, HandoffAction))
        ensures
            r.0.stage == HandoffStage::AwaitMemoryMap,
            r.0.entry == entry,
            r.0.loaded@ == loaded@,
            r.0.fb_addr == fb_addr,
            r.0.fb_info == fb_info,
            r.0.block_pages == block_pages,
            !r.0.block_allocated,
            r.1 is QueryMemoryMap,
    {
        (
            Handoff {
                stage: HandoffStage::AwaitMemoryMap,
                entry,
                loaded,
                fb_addr,
                fb_info,
                block_pages,
                block_allocated: false,
                merged: Vec::new(),
                key: 0,
            },
            HandoffAction::QueryMemoryMap,
        )
    }

    /// What stays the same through every step.
    pub open spec fn same_job(&self, other: &Handoff) -> bool {
        self.entry == other.entry && self.loaded@ == other.loaded@ && self.fb_addr == other.fb_addr
            && self.fb_info == other.fb_info && self.block_pages == other.block_pages
    }

    /// Takes the firmware's answer and says what to do next.
    ///
    /// The memory map is merged with what the loader allocated; a map too
    /// long for the handoff block halts the loader. The block is allocated
    /// once. The exit is asked for with the key of the last map; a stale key
    /// leads back to asking for the map, and a granted exit to the jump into
    /// the kernel with the merged map of that last query. A failed
    /// allocation and an answer that was not asked for halt the loader.
    pub fn step(self, event: HandoffEvent) -> (r: (Handoff, HandoffAction))
        ensures
            r.0.same_job(&self),
            self.stage == HandoffStage::AwaitMemoryMap ==> (match event {
                HandoffEvent::MemoryMap { descriptors, key } => {
                    let merged = merged_map(descriptors@, self.loaded@);
                    if merged.len() > KERNEL_ARGS_MDL_SIZE {
                        r.0.stage == HandoffStage::Halted && r.1 == (HandoffAction::Halt {
                            error: BootError::CapacityExceeded,
                        })
                    } else if self.block_allocated {
                        r.0.stage == HandoffStage::AwaitExit && r.0.merged@ == merged && r.0.key
                            == key && r.0.block_allocated && r.1 == (
                        HandoffAction::ExitBootServices { key })
                    } else {
                        r.0.stage == HandoffStage::AwaitBlock && r.0.merged@ == merged && r.0.key
                            == key && !r.0.block_allocated && r.1 == (HandoffAction::AllocateBlock {
                            pages: self.block_pages,
                        })
                    }
                },
                HandoffEvent::AllocationFailed => r.0.stage == HandoffStage::Halted && r.1 == (
                HandoffAction::Halt { error: BootError::FirmwareAllocation }),
                _ => r.0.stage == HandoffStage::Halted && r.1 == (HandoffAction::Halt {
                    error: BootError::UnexpectedEvent,
                }),
            }),
            self.stage == HandoffStage::AwaitBlock ==> (match event {
                HandoffEvent::BlockAllocated => r.0.stage == HandoffStage::AwaitMemoryMap
                    && r.0.block_allocated && r.1 is QueryMemoryMap,
                HandoffEvent::AllocationFailed => r.0.stage == HandoffStage::Halted && r.1 == (
                HandoffAction::Halt { error: BootError::FirmwareAllocation }),
                _ => r.0.stage == HandoffStage::Halted && r.1 == (HandoffAction::Halt {
                    error: BootError::UnexpectedEvent,
                }),
            }),
            self.stage == HandoffStage::AwaitExit ==> (match event {
                HandoffEvent::Exited { runtime_services } => if self.merged@.len()
                    <= KERNEL_ARGS_MDL_SIZE {
                    r.0.stage == HandoffStage::Done && (match r.1 {
                        HandoffAction::Jump { entry, args } => entry == self.entry
                            && args.uefi_rst == runtime_services && args.fb_addr == self.fb_addr
                            && args.fb_info == self.fb_info && args.descriptors() == self.merged@,
                        _ => false,
                    })
                } else {
                    r.0.stage == HandoffStage::Halted && r.1 == (HandoffAction::Halt {
                        error: BootError::CapacityExceeded,
                    })
                },
                HandoffEvent::StaleKey => r.0.stage == HandoffStage::AwaitMemoryMap
                    && r.0.block_allocated == self.block_allocated && r.1 is QueryMemoryMap,
                HandoffEvent::AllocationFailed => r.0.stage == HandoffStage::Halted && r.1 == (
                HandoffAction::Halt { error: BootError::FirmwareAllocation }),
                _ => r.0.stage == HandoffStage::Halted && r.1 == (HandoffAction::Halt {
                    error: BootError::UnexpectedEvent,
                }),
            }),
            (self.stage == HandoffStage::Done || self.stage == HandoffStage::Halted) ==> r.0.stage
                == HandoffStage::Halted && r.1 == (HandoffAction::Halt {
                error: BootError::UnexpectedEvent,
            }),
    {
        let mut state = self;
        match (state.stage, event) {
            (HandoffStage::AwaitMemoryMap, HandoffEvent::MemoryMap { descriptors, key }) => {
                let merged = merge_memory_map(&descriptors, &state.loaded);
                if merged.len() > KERNEL_ARGS_MDL_SIZE {
                    state.stage = HandoffStage::Halted;
                    (state, HandoffAction::Halt { error: BootError::CapacityExceeded })
                } else {
                    state.merged = merged;
                    state.key = key;
                    if state.block_allocated {
                        state.stage = HandoffStage::AwaitExit;
                        (state, HandoffAction::ExitBootServices { key })
                    } else {
                        state.stage = HandoffStage::AwaitBlock;
                        let pages = state.block_pages;
                        (state, HandoffAction::AllocateBlock { pages })
                    }
                }
            },
            (HandoffStage::AwaitBlock, HandoffEvent::BlockAllocated) => {
                state.block_allocated = true;
                state.stage = HandoffStage::AwaitMemoryMap;
                (state, HandoffAction::QueryMemoryMap)
            },
            (HandoffStage::AwaitExit, HandoffEvent::Exited { runtime_services }) => {
                match build_kernel_args(&state.merged, state.fb_addr, state.fb_info) {
                    Ok(args) => {
                        let mut args = args;
                        args.set_runtime_services(runtime_services);
                        state.stage = HandoffStage::Done;
                        let entry = state.entry;
                        (state, HandoffAction::Jump { entry, args })
                    },
                    Err(_) => {
                        state.stage = HandoffStage::Halted;
                        (state, HandoffAction::Halt { error: BootError::CapacityExceeded })
                    },
                }
            },
            (HandoffStage::AwaitExit, HandoffEvent::StaleKey) => {
                state.stage = HandoffStage::AwaitMemoryMap;
                (state, HandoffAction::QueryMemoryMap)
            },
            (HandoffStage::AwaitMemoryMap, HandoffEvent::AllocationFailed) => {
                state.stage = HandoffStage::Halted;
                (state, HandoffAction::Halt { error: BootError::FirmwareAllocation })
            },
            (HandoffStage::AwaitBlock, HandoffEvent::AllocationFailed) => {
                state.stage = HandoffStage::Halted;
                (state, HandoffAction::Halt { error: BootError::FirmwareAllocation })
            },
            (HandoffStage::AwaitExit, HandoffEvent::AllocationFailed) => {
                state.stage = HandoffStage::Halted;
                (state, HandoffAction::Halt { error: BootError::FirmwareAllocation })
            },
            _ => {
                state.stage = HandoffStage::Halted;
                (state, HandoffAction::Halt { error: BootError::UnexpectedEvent })
            },
        }
    }
}

} // verus!
