//! Memory-management core of a freestanding x86-64 kernel: address
//! arithmetic, the physical frame allocator, the virtual address space
//! allocator, page-table range planning, the executable-image loader and the
//! loader-to-kernel handoff block.

pub mod addr;
pub mod bitmap;
pub mod boot;
pub mod bootstrap;
pub mod descriptor;
pub mod handoff;
pub mod list;
pub mod loader;
pub mod mapping;
pub mod memory;
pub mod paging;
pub mod phys;
pub mod setup;
pub mod sync;
pub mod virt;
