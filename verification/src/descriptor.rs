//! Memory descriptors as the firmware reports them, and the private type
//! tags by which the loader tells the kernel what it allocated.

use vstd::prelude::*;

verus! {

/// Firmware memory type of the loader's own code.
pub const LOADER_CODE: u32 = 1;

/// Firmware memory type of the loader's own data.
pub const LOADER_DATA: u32 = 2;

/// Firmware memory type of boot-services code.
pub const BOOT_SERVICES_CODE: u32 = 3;

/// Firmware memory type of boot-services data.
pub const BOOT_SERVICES_DATA: u32 = 4;

/// Firmware memory type of free memory.
pub const CONVENTIONAL: u32 = 7;

/// Type tags from here upwards are never emitted by firmware.
pub const KERNEL_MEM_TYPE_RANGE_START: u32 = 0x8000_0000;

/// Tag of kernel image pages that are readable and executable.
pub const KERNEL_RX_MEM_TYPE: u32 = 0x8000_0001;

/// Tag of kernel image pages that are readable and writable.
pub const KERNEL_RW_MEM_TYPE: u32 = 0x8000_0002;

/// Tag of kernel image pages that are read-only.
pub const KERNEL_RO_MEM_TYPE: u32 = 0x8000_0003;

/// Tag of kernel image pages that are readable, writable and executable.
pub const KERNEL_RWX_MEM_TYPE: u32 = 0x8000_0004;

/// Tag of the pages of the kernel stack.
pub const KERNEL_STACK_MEM_TYPE: u32 = 0x8000_0005;

/// Tag of the pages that hold page tables built by the loader.
pub const PTE_MEM_TYPE: u32 = 0x8000_0006;

/// Tag of the pages that hold the handoff block.
pub const KERNEL_ARGS_MEM_TYPE: u32 = 0x8000_0007;

/// One region of physical memory.
#[derive(Clone, Copy, Debug, PartialEq, Eq, Structural)]
pub struct MemoryDescriptor {
    /// Memory type; values from `KERNEL_MEM_TYPE_RANGE_START` are private tags.
    pub ty: u32,
    /// Physical address of the first byte.
    pub phys_start: u64,
    /// Virtual address at which the region is to be found.
    pub virt_start: u64,
    /// Number of 4 KiB pages.
    pub page_count: u64,
    /// Firmware attribute bits.
    pub att: u64,
}

/// A type tag that firmware emits and whose memory the kernel may reuse.
pub open spec fn is_usable_type(ty: u32) -> bool {
    ty == CONVENTIONAL || ty == BOOT_SERVICES_CODE || ty == BOOT_SERVICES_DATA || ty == LOADER_CODE
        || ty == LOADER_DATA
}

/// A private tag of the loader.
pub open spec fn is_kernel_type(ty: u32) -> bool {
    ty >= KERNEL_MEM_TYPE_RANGE_START
}

impl MemoryDescriptor {
    /// A descriptor of `page_count` pages at `phys_start`, not yet placed in
    /// virtual memory and without attributes.
    pub fn new(ty: u32, phys_start: u64, page_count: u64) -> (d: MemoryDescriptor)
        ensures
            d == (MemoryDescriptor { ty, phys_start, virt_start: 0, page_count, att: 0 }),
    {
        MemoryDescriptor { ty, phys_start, virt_start: 0, page_count, att: 0 }
    }

    /// Whether the kernel may hand the pages of this region out as free frames.
    pub fn is_usable(&self) -> (r: bool)
        ensures
            r == is_usable_type(self.ty),
            r ==> !is_kernel_type(self.ty),
    {
        self.ty == CONVENTIONAL || self.ty == BOOT_SERVICES_CODE || self.ty == BOOT_SERVICES_DATA
            || self.ty == LOADER_CODE || self.ty == LOADER_DATA
    }

    /// Whether the loader allocated this region for the kernel.
    pub fn is_kernel_owned(&self) -> (r: bool)
        ensures
            r == is_kernel_type(self.ty),
    {
        self.ty >= KERNEL_MEM_TYPE_RANGE_START
    }

    /// First physical address past the region.
    pub open spec fn end_spec(&self) -> int {
        self.phys_start + self.page_count * 0x1000
    }

    /// First physical address past the region, or `None` where that does not
    /// fit in 64 bits.
    pub fn phys_end(&self) -> (r: Option<u64>)
        ensures
            match r {
                Some(e) => e == self.end_spec(),
                None => self.end_spec() > u64::MAX,
            },
    {
        match self.page_count.checked_mul(0x1000) {
            Some(len) => self.phys_start.checked_add(len),
            None => None,
        }
    }

    /// Whether this descriptor names the same allocation as `other`: the same
    /// type tag at the same physical start.
    pub open spec fn same_region(&self, other: &MemoryDescriptor) -> bool {
        self.ty == other.ty && self.phys_start == other.phys_start
    }
}

} // verus!
