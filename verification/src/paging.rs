//! Fresh page tables: four tables in a row, one for each level, every entry
//! unused.

use vstd::prelude::*;
use crate::addr::PAGE_SIZE;
use crate::memory::{frame_zero, FrameMemory};

verus! {

/// Number of bytes of the four tables of a paging chain.
pub const PAGING_CHAIN_SIZE: u64 = 0x4000;

/// The four tables of a paging chain, by the address of each.
#[derive(Clone, Copy, Debug, PartialEq, Eq, Structural)]
pub struct PagingChainRef {
    /// The level-4 table.
    pub pml4: u64,
    /// The level-3 table.
    pub pdpt: u64,
    /// The level-2 table.
    pub pd: u64,
    /// The level-1 table.
    pub pt: u64,
}

/// Whether a paging chain can be laid out in the `len` bytes from `base`:
/// they are exactly four tables, and the first starts on a page boundary.
pub open spec fn chain_fits(base: u64, len: u64) -> bool {
    len == PAGING_CHAIN_SIZE && base % PAGE_SIZE == 0
}

/// Marks every entry of the table at `table` unused: the frame is filled
/// with zeroes.
pub fn init_page_table<M: FrameMemory>(mem: &mut M, table: u64)
    requires
        table % PAGE_SIZE == 0,
        old(mem).mapped(table),
    ensures
        frame_zero(final(mem), table),
        forall|a: u64|
            !(table <= a < table + PAGE_SIZE) ==> #[trigger] final(mem).word(a) == old(mem).word(a),
        forall|f: u64| #[trigger] final(mem).mapped(f) == old(mem).mapped(f),
{
    mem.zero_frame(table);
}

/// Lays out the four tables of a paging chain in the `len` bytes from
/// `base`, every entry unused. `None`, writing nothing, where the bytes are
/// not exactly four tables or do not start on a page boundary.
pub fn init_linear_pt_array<M: FrameMemory>(mem: &mut M, base: u64, len: u64) -> (r: Option<
    PagingChainRef,
>)
    requires
        chain_fits(base, len) ==> base + PAGING_CHAIN_SIZE <= u64::MAX && old(mem).mapped(base)
            && old(mem).mapped((base + 0x1000) as u64) && old(mem).mapped((base + 0x2000) as u64)
            && old(mem).mapped((base + 0x3000) as u64),
    ensures
        forall|f: u64| #[trigger] final(mem).mapped(f) == old(mem).mapped(f),
        match r {
            Some(chain) => chain_fits(base, len) && chain == (PagingChainRef {
                pml4: base,
                pdpt: (base + 0x1000) as u64,
                pd: (base + 0x2000) as u64,
                pt: (base + 0x3000) as u64,
            }) && (forall|a: u64|
                base <= a < base + PAGING_CHAIN_SIZE ==> #[trigger] final(mem).word(a) == 0)
                && forall|a: u64|
                !(base <= a < base + PAGING_CHAIN_SIZE) ==> #[trigger] final(mem).word(a) == old(mem).word(a),
            None => !chain_fits(base, len) && forall|a: u64|
                #[trigger] final(mem).word(a) == old(mem).word(a),
        },
{
    if len != PAGING_CHAIN_SIZE || base % PAGE_SIZE != 0 {
        return None;
    }
    init_page_table(mem, base);
    init_page_table(mem, base + 0x1000);
    init_page_table(mem, base + 0x2000);
    init_page_table(mem, base + 0x3000);
    Some(
        PagingChainRef { pml4: base, pdpt: base + 0x1000, pd: base + 0x2000, pt: base + 0x3000 },
    )
}

} // verus!
