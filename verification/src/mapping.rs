//! Planning of page-table changes: with which page sizes a range is mapped,
//! and which entries of which level are cleared to unmap one.

use vstd::prelude::*;
use crate::addr::{
    align_down_spec, align_up_spec, is_pow2, GIANT_PAGE_SIZE, HUGE_PAGE_SIZE, PAGE_SIZE,
};

verus! {

/// The three sizes of page that the hardware maps.
#[derive(Clone, Copy, Debug, PartialEq, Eq, Structural)]
pub enum PageSize {
    /// 4 KiB, mapped by a level-1 entry.
    Size4KiB,
    /// 2 MiB, mapped by a level-2 entry.
    Size2MiB,
    /// 1 GiB, mapped by a level-3 entry.
    Size1GiB,
}

impl PageSize {
    /// Size in bytes.
    pub open spec fn bytes_spec(self) -> u64 {
        match self {
            PageSize::Size4KiB => PAGE_SIZE,
            PageSize::Size2MiB => HUGE_PAGE_SIZE,
            PageSize::Size1GiB => GIANT_PAGE_SIZE,
        }
    }

    /// Size in 4 KiB pages.
    pub open spec fn small_pages_spec(self) -> u64 {
        match self {
            PageSize::Size4KiB => 1,
            PageSize::Size2MiB => 512,
            PageSize::Size1GiB => 0x4_0000,
        }
    }

    /// Size in bytes.
    #[verifier::when_used_as_spec(bytes_spec)]
    pub fn bytes(self) -> (b: u64)
        ensures
            b == self.bytes_spec(),
    {
        match self {
            PageSize::Size4KiB => PAGE_SIZE,
            PageSize::Size2MiB => HUGE_PAGE_SIZE,
            PageSize::Size1GiB => GIANT_PAGE_SIZE,
        }
    }

    /// Size in 4 KiB pages.
    #[verifier::when_used_as_spec(small_pages_spec)]
    pub fn small_pages(self) -> (n: u64)
        ensures
            n == self.small_pages_spec(),
            n * PAGE_SIZE == self.bytes_spec(),
    {
        match self {
            PageSize::Size4KiB => 1,
            PageSize::Size2MiB => 512,
            PageSize::Size1GiB => 0x4_0000,
        }
    }
}

/// One 4 KiB page to map: where, onto what, and with which page-table bits.
#[derive(Clone, Copy, Debug, PartialEq, Eq, Structural)]
pub struct PageMapping {
    /// Virtual address of the page.
    pub virt: u64,
    /// Physical address of the frame.
    pub phys: u64,
    /// Page-table bits of the mapping.
    pub flags: u64,
}

/// A run of `count` pages of one size, mapped one after the other from
/// `virt` onto the physical memory from `phys`.
#[derive(Clone, Copy, Debug, PartialEq, Eq, Structural)]
pub struct MapRun {
    /// Size of each page of the run.
    pub size: PageSize,
    /// Virtual address of the first page.
    pub virt: u64,
    /// Physical address of the first page.
    pub phys: u64,
    /// Number of pages.
    pub count: u64,
}

/// How a range is mapped: first with 1 GiB pages, then with 2 MiB pages,
/// then with 4 KiB pages.
#[derive(Clone, Copy, Debug, PartialEq, Eq, Structural)]
pub struct MapPlan {
    /// The run of 1 GiB pages, at the start of the range.
    pub giant: MapRun,
    /// The run of 2 MiB pages, after the 1 GiB pages.
    pub huge: MapRun,
    /// The run of 4 KiB pages, up to the end of the range.
    pub small: MapRun,
}

/// Why a range cannot be mapped.
#[derive(Clone, Copy, Debug, PartialEq, Eq, Structural)]
pub enum MapError {
    /// The virtual or the physical start is not on a page boundary.
    Misaligned,
    /// The range runs past the end of the virtual or physical address space.
    Overflow,
}

/// Number of pages of size `size` in a run that starts at `virt` and `phys`
/// and may take up to `left` 4 KiB pages: as many as fit if both addresses
/// are aligned to the size, none otherwise.
pub open spec fn run_count(size: PageSize, virt: int, phys: int, left: int) -> int {
    if virt % (size.bytes_spec() as int) == 0 && phys % (size.bytes_spec() as int) == 0 {
        left / (size.small_pages_spec() as int)
    } else {
        0
    }
}

/// The run of pages of size `size` at the start of a range.
pub open spec fn run_of(size: PageSize, virt: int, phys: int, left: int) -> MapRun {
    MapRun { size, virt: virt as u64, phys: phys as u64, count: run_count(size, virt, phys, left) as u64 }
}

impl MapRun {
    /// Number of 4 KiB pages that the run covers.
    pub open spec fn span(&self) -> int {
        self.count * self.size.small_pages_spec()
    }

    /// Number of bytes that the run covers.
    pub open spec fn len_bytes(&self) -> int {
        self.count * self.size.bytes_spec()
    }
}

/// The plan for mapping `pages` 4 KiB pages from `virt` onto `phys`.
pub open spec fn map_plan_of(virt: u64, phys: u64, pages: u64) -> MapPlan {
    let giant = run_of(PageSize::Size1GiB, virt as int, phys as int, pages as int);
    let huge = run_of(
        PageSize::Size2MiB,
        virt + giant.len_bytes(),
        phys + giant.len_bytes(),
        pages - giant.span(),
    );
    let small = run_of(
        PageSize::Size4KiB,
        virt + giant.len_bytes() + huge.len_bytes(),
        phys + giant.len_bytes() + huge.len_bytes(),
        pages - giant.span() - huge.span(),
    );
    MapPlan { giant, huge, small }
}

/// Whether `pages` pages can be mapped from `virt` onto `phys`, and if not,
/// why.
pub open spec fn map_error_of(virt: u64, phys: u64, pages: u64) -> Option<MapError> {
    if virt % PAGE_SIZE != 0 || phys % PAGE_SIZE != 0 {
        Some(MapError::Misaligned)
    } else if virt + pages * PAGE_SIZE > u64::MAX || phys + pages * PAGE_SIZE > u64::MAX {
        Some(MapError::Overflow)
    } else {
        None
    }
}

/// The run of pages of size `size` at the start of a range of `left` 4 KiB
/// pages from `virt` onto `phys`.
pub fn map_sized(size: PageSize, virt: u64, phys: u64, left: u64) -> (run: MapRun)
    ensures
        run == run_of(size, virt as int, phys as int, left as int),
        run.span() <= left,
        run.len_bytes() == run.span() * PAGE_SIZE,
{
    let bytes = size.bytes();
    let small = size.small_pages();
    let count = if virt % bytes == 0 && phys % bytes == 0 {
        left / small
    } else {
        0
    };
    assert(count * small <= left) by (nonlinear_arith)
        requires
            count <= left / small,
            small > 0,
    ;
    assert(count * bytes == count * small * PAGE_SIZE) by (nonlinear_arith)
        requires
            bytes == small * PAGE_SIZE,
    ;
    MapRun { size, virt, phys, count }
}

/// Plans the mapping of `pages` 4 KiB pages from `virt` onto the physical
/// memory from `phys`, with the largest pages whose alignment both starts
/// meet.
pub fn map_offset(virt: u64, phys: u64, pages: u64) -> (r: Result<MapPlan, MapError>)
    ensures
        match r {
            Ok(plan) => {
                &&& map_error_of(virt, phys, pages) is None
                &&& plan == map_plan_of(virt, phys, pages)
                &&& plan.giant.size == PageSize::Size1GiB && plan.huge.size == PageSize::Size2MiB
                    && plan.small.size == PageSize::Size4KiB
                &&& plan.giant.virt == virt && plan.giant.phys == phys
                &&& plan.giant.count == (if virt % GIANT_PAGE_SIZE == 0 && phys % GIANT_PAGE_SIZE
                    == 0 {
                    pages / 0x4_0000
                } else {
                    0
                })
                &&& plan.huge.virt == virt + plan.giant.count * GIANT_PAGE_SIZE
                &&& plan.huge.phys == phys + plan.giant.count * GIANT_PAGE_SIZE
                &&& plan.huge.count == (if plan.huge.virt % HUGE_PAGE_SIZE == 0 && plan.huge.phys
                    % HUGE_PAGE_SIZE == 0 {
                    (pages - plan.giant.count * 0x4_0000) / 512
                } else {
                    0
                })
                &&& plan.small.virt == plan.huge.virt + plan.huge.count * HUGE_PAGE_SIZE
                &&& plan.small.phys == plan.huge.phys + plan.huge.count * HUGE_PAGE_SIZE
                &&& plan.small.count == pages - plan.giant.count * 0x4_0000 - plan.huge.count * 512
            },
            Err(e) => map_error_of(virt, phys, pages) == Some(e),
        },
{
    if virt % PAGE_SIZE != 0 || phys % PAGE_SIZE != 0 {
        return Err(MapError::Misaligned);
    }
    let fits = match pages.checked_mul(PAGE_SIZE) {
        Some(bytes) => virt.checked_add(bytes).is_some() && phys.checked_add(bytes).is_some(),
        None => false,
    };
    if !fits {
        return Err(MapError::Overflow);
    }
    let giant = map_sized(PageSize::Size1GiB, virt, phys, pages);
    let done1: u64 = giant.count * 0x4_0000;
    let huge = map_sized(
        PageSize::Size2MiB,
        virt + done1 * PAGE_SIZE,
        phys + done1 * PAGE_SIZE,
        pages - done1,
    );
    let done2: u64 = done1 + huge.count * 512;
    let small = map_sized(
        PageSize::Size4KiB,
        virt + done2 * PAGE_SIZE,
        phys + done2 * PAGE_SIZE,
        pages - done2,
    );
    Ok(MapPlan { giant, huge, small })
}

/// A plan maps exactly the range asked for, run after run without gap, keeps
/// every page aligned to its size, and uses a smaller page only where no
/// larger one fits or the start is not aligned for it.
pub proof fn lemma_map_plan_exact(virt: u64, phys: u64, pages: u64)
    requires
        map_error_of(virt, phys, pages) is None,
    ensures
        ({
            let plan = map_plan_of(virt, phys, pages);
            &&& plan.giant.span() + plan.huge.span() + plan.small.span() == pages
            &&& plan.giant.virt == virt && plan.giant.phys == phys
            &&& plan.huge.virt == plan.giant.virt + plan.giant.len_bytes()
            &&& plan.huge.phys == plan.giant.phys + plan.giant.len_bytes()
            &&& plan.small.virt == plan.huge.virt + plan.huge.len_bytes()
            &&& plan.small.phys == plan.huge.phys + plan.huge.len_bytes()
            &&& plan.small.virt + plan.small.len_bytes() == virt + pages * PAGE_SIZE
            &&& plan.giant.count > 0 ==> plan.giant.virt % GIANT_PAGE_SIZE == 0 && plan.giant.phys
                % GIANT_PAGE_SIZE == 0
            &&& plan.huge.count > 0 ==> plan.huge.virt % HUGE_PAGE_SIZE == 0 && plan.huge.phys
                % HUGE_PAGE_SIZE == 0
            &&& plan.small.virt % PAGE_SIZE == 0 && plan.small.phys % PAGE_SIZE == 0
            &&& (virt % GIANT_PAGE_SIZE == 0 && phys % GIANT_PAGE_SIZE == 0) ==> pages
                - plan.giant.span() < 0x4_0000
            &&& (plan.huge.virt % HUGE_PAGE_SIZE == 0 && plan.huge.phys % HUGE_PAGE_SIZE == 0)
                ==> plan.small.count < 512
        }),
{
    let count1 = lemma_run(PageSize::Size1GiB, virt as int, phys as int, pages as int);
    let left1 = pages - count1 * 0x4_0000;
    let virt1 = virt + count1 * 0x4000_0000;
    let phys1 = phys + count1 * 0x4000_0000;
    let count2 = lemma_run(PageSize::Size2MiB, virt1, phys1, left1);
    let left2 = left1 - count2 * 512;
    let virt2 = virt1 + count2 * 0x20_0000;
    let phys2 = phys1 + count2 * 0x20_0000;
    let count3 = lemma_run(PageSize::Size4KiB, virt2, phys2, left2);
}

/// What holds of the run at the start of a range; returns its page count.
proof fn lemma_run(size: PageSize, virt: int, phys: int, left: int) -> (n: int)
    requires
        0 <= left,
        0 <= virt,
        0 <= phys,
        virt % 0x1000 == 0,
        phys % 0x1000 == 0,
    ensures
        n == run_count(size, virt, phys, left),
        0 <= n,
        0 <= n * size.small_pages_spec() <= left,
        n * size.bytes_spec() == n * size.small_pages_spec() * 0x1000,
        (virt + n * size.bytes_spec()) % 0x1000 == 0,
        (phys + n * size.bytes_spec()) % 0x1000 == 0,
        n > 0 ==> virt % (size.bytes_spec() as int) == 0 && phys % (size.bytes_spec() as int) == 0,
        (virt % (size.bytes_spec() as int) == 0 && phys % (size.bytes_spec() as int) == 0) ==> left
            - n * size.small_pages_spec() < size.small_pages_spec(),
        size == PageSize::Size4KiB ==> n == left,
{
    let n = run_count(size, virt, phys, left);
    let small = size.small_pages_spec() as int;
    let bytes = size.bytes_spec() as int;
    assert(bytes == small * 0x1000);
    if virt % bytes == 0 && phys % bytes == 0 {
        assert(n == left / small);
        assert(0 <= n * small <= left && left - n * small < small) by (nonlinear_arith)
            requires
                n == left / small,
                small > 0,
                left >= 0,
        ;
    }
    assert(n * bytes == n * small * 0x1000) by (nonlinear_arith)
        requires
            bytes == small * 0x1000,
    ;
    assert((virt + n * small * 0x1000) % 0x1000 == 0) by (nonlinear_arith)
        requires
            virt % 0x1000 == 0,
    ;
    assert((phys + n * small * 0x1000) % 0x1000 == 0) by (nonlinear_arith)
        requires
            phys % 0x1000 == 0,
    ;
    n
}

impl MapRun {
    /// The virtual and physical address of page `i` of the run.
    pub open spec fn page_of(&self, i: u64) -> Option<(u64, u64)> {
        if i < self.count && self.virt + i * self.size.bytes_spec() <= u64::MAX && self.phys + i
            * self.size.bytes_spec() <= u64::MAX {
            Some(
                (
                    (self.virt + i * self.size.bytes_spec()) as u64,
                    (self.phys + i * self.size.bytes_spec()) as u64,
                ),
            )
        } else {
            None
        }
    }

    /// The virtual and physical address of page `i` of the run, or `None`
    /// past its last page and past the end of the address space.
    pub fn page(&self, i: u64) -> (r: Option<(u64, u64)>)
        ensures
            r == self.page_of(i),
    {
        if i >= self.count {
            return None;
        }
        match i.checked_mul(self.size.bytes()) {
            None => None,
            Some(off) => match (self.virt.checked_add(off), self.phys.checked_add(off)) {
                (Some(virt), Some(phys)) => Some((virt, phys)),
                _ => None,
            },
        }
    }
}

/// Mask of the bits of a virtual address that the page tables translate.
pub const V_ADDR_MASK: u64 = 0x0000_FFFF_FFFF_FFFF;

/// Number of bytes that the page tables translate: the masked addresses lie
/// below it.
pub const V_ADDR_SPACE: u64 = 0x1_0000_0000_0000;

/// A level of the paging hierarchy.
#[derive(Clone, Copy, Debug, PartialEq, Eq, Structural)]
pub enum PageTableLevel {
    /// Page table: an entry covers 4 KiB.
    One,
    /// Page directory: an entry covers 2 MiB.
    Two,
    /// Page-directory pointer table: an entry covers 1 GiB.
    Three,
    /// Page-map level 4: an entry covers 512 GiB.
    Four,
}

impl PageTableLevel {
    /// The number of the level, 1 to 4.
    pub open spec fn number(self) -> int {
        match self {
            PageTableLevel::One => 1,
            PageTableLevel::Two => 2,
            PageTableLevel::Three => 3,
            PageTableLevel::Four => 4,
        }
    }

    /// Number of bytes that one entry of a table of this level covers.
    pub open spec fn entry_size_spec(self) -> u64 {
        match self {
            PageTableLevel::One => 0x1000,
            PageTableLevel::Two => 0x20_0000,
            PageTableLevel::Three => 0x4000_0000,
            PageTableLevel::Four => 0x80_0000_0000,
        }
    }

    /// The next finer level, none below level 1.
    pub open spec fn lower_spec(self) -> Option<PageTableLevel> {
        match self {
            PageTableLevel::One => None,
            PageTableLevel::Two => Some(PageTableLevel::One),
            PageTableLevel::Three => Some(PageTableLevel::Two),
            PageTableLevel::Four => Some(PageTableLevel::Three),
        }
    }

    /// Number of bytes that one entry of a table of this level covers.
    #[verifier::when_used_as_spec(entry_size_spec)]
    pub fn entry_size(self) -> (b: u64)
        ensures
            b == self.entry_size_spec(),
            is_pow2(b),
    {
        assert(0x1000u64 & ((0x1000u64 - 1) as u64) == 0) by (bit_vector);
        assert(0x20_0000u64 & ((0x20_0000u64 - 1) as u64) == 0) by (bit_vector);
        assert(0x4000_0000u64 & ((0x4000_0000u64 - 1) as u64) == 0) by (bit_vector);
        assert(0x80_0000_0000u64 & ((0x80_0000_0000u64 - 1) as u64) == 0) by (bit_vector);
        match self {
            PageTableLevel::One => 0x1000,
            PageTableLevel::Two => 0x20_0000,
            PageTableLevel::Three => 0x4000_0000,
            PageTableLevel::Four => 0x80_0000_0000,
        }
    }

    /// The next finer level, none below level 1.
    #[verifier::when_used_as_spec(lower_spec)]
    pub fn lower(self) -> (l: Option<PageTableLevel>)
        ensures
            l == self.lower_spec(),
            match l {
                Some(lower) => lower.number() == self.number() - 1,
                None => self.number() == 1,
            },
    {
        match self {
            PageTableLevel::One => None,
            PageTableLevel::Two => Some(PageTableLevel::One),
            PageTableLevel::Three => Some(PageTableLevel::Two),
            PageTableLevel::Four => Some(PageTableLevel::Three),
        }
    }
}

/// The level with number `i`, if `i` is 1 to 4.
pub fn int_to_ptl(i: u64) -> (l: Option<PageTableLevel>)
    ensures
        match l {
            Some(level) => level.number() == i,
            None => !(1 <= i <= 4),
        },
{
    match i {
        1 => Some(PageTableLevel::One),
        2 => Some(PageTableLevel::Two),
        3 => Some(PageTableLevel::Three),
        4 => Some(PageTableLevel::Four),
        _ => None,
    }
}

/// The entry of the table of level `level` that translates the masked
/// virtual address `addr`, to be marked unused.
#[derive(Clone, Copy, Debug, PartialEq, Eq, Structural)]
pub struct ClearOp {
    /// Level of the table that holds the entry.
    pub level: PageTableLevel,
    /// First masked virtual address that the entry translates.
    pub addr: u64,
}

/// One change to the translation of virtual addresses.
#[derive(Clone, Copy, Debug, PartialEq, Eq, Structural)]
pub enum PageTableAction {
    /// Mark one entry unused.
    Clear(ClearOp),
    /// Flush every cached translation.
    FlushAll,
}

/// Why a range cannot be unmapped.
#[derive(Clone, Copy, Debug, PartialEq, Eq, Structural)]
pub enum UnmapError {
    /// An end of the range is not on a page boundary.
    Misaligned,
    /// The range ends before it starts.
    Inverted,
}

/// `count` entries of level `level`, one after the other from `from`.
pub open spec fn run_ops(level: PageTableLevel, from: int, count: int) -> Seq<ClearOp> {
    Seq::new(
        count as nat,
        |k: int| ClearOp { level, addr: (from + k * level.entry_size_spec()) as u64 },
    )
}

/// The entries to clear so that nothing in `[s, e)` stays mapped, using
/// tables of level `level` and below: the entries of this level that lie
/// wholly inside the range, then what the levels below need for the part of
/// the range before them, then for the part after them.
pub open spec fn unmap_plan(level: PageTableLevel, s: u64, e: u64) -> Seq<ClearOp>
    decreases level.number(),
{
    let size = level.entry_size_spec();
    let sa = align_up_spec(s, size);
    let ea = align_down_spec(e, size);
    if s >= e {
        Seq::empty()
    } else {
        match level.lower_spec() {
            None => if sa <= ea {
                run_ops(level, sa, (ea - sa) / (size as int))
            } else {
                Seq::empty()
            },
            Some(lower) => if sa > ea {
                unmap_plan(lower, s, e)
            } else {
                run_ops(level, sa, (ea - sa) / (size as int)) + unmap_plan(lower, s, sa as u64)
                    + unmap_plan(lower, ea as u64, e)
            },
        }
    }
}

/// A multiple of `d` is `d` times its quotient by `d`; and `d` times `q`
/// is a multiple of `d` with quotient `q`.
proof fn lemma_multiples(x: int, q: int, d: int)
    requires
        d > 0,
    ensures
        x % d == 0 ==> x == d * (x / d),
        (d * q) % d == 0,
        (d * q) / d == q,
{
    vstd::arithmetic::div_mod::lemma_fundamental_div_mod(x, d);
    vstd::arithmetic::div_mod::lemma_mod_multiples_vanish(q, 0, d);
    vstd::arithmetic::div_mod::lemma_div_multiples_vanish(q, d);
    assert(0int % d == 0) by (nonlinear_arith)
        requires
            d > 0,
    ;
}

/// Entry `k` of a run of entries that begins on a boundary of the level and
/// has not reached the boundary `ea` ends at or before `ea`; and a run that
/// has reached `ea` after `k` entries has as many entries as fit between.
proof fn lemma_run_step(level: PageTableLevel, sa: int, k: int, ea: int)
    requires
        sa % (level.entry_size_spec() as int) == 0,
        ea % (level.entry_size_spec() as int) == 0,
        0 <= k,
        sa + k * level.entry_size_spec() <= ea,
    ensures
        (k + 1) * level.entry_size_spec() == k * level.entry_size_spec() + level.entry_size_spec(),
        sa + k * level.entry_size_spec() < ea ==> sa + (k + 1) * level.entry_size_spec() <= ea,
        sa + k * level.entry_size_spec() == ea ==> k == (ea - sa) / (level.entry_size_spec() as int),
{
    let d = level.entry_size_spec() as int;
    let q1 = sa / d;
    let q2 = ea / d;
    lemma_multiples(sa, k, d);
    lemma_multiples(ea, k, d);
    assert((k + 1) * d == k * d + d) by (nonlinear_arith);
    if sa + k * d < ea {
        assert(q1 + k + 1 <= q2 && d * (q1 + k + 1) <= d * q2) by (nonlinear_arith)
            requires
                sa == d * q1,
                ea == d * q2,
                sa + k * d < ea,
                d > 0,
        ;
        assert(sa + (k + 1) * d == d * (q1 + k + 1)) by (nonlinear_arith)
            requires
                sa == d * q1,
        ;
    }
    if sa + k * d == ea {
        assert(ea - sa == d * k) by (nonlinear_arith)
            requires
                sa + k * d == ea,
        ;
    }
}

/// Where the boundaries of a level lie about an address: the last at or
/// before it and the first at or after it, which lies inside the translated
/// addresses if the address does.
proof fn lemma_align_any(level: PageTableLevel, x: u64)
    requires
        x <= V_ADDR_SPACE,
    ensures
        ({
            let size = level.entry_size_spec();
            let up = align_up_spec(x, size);
            let down = align_down_spec(x, size);
            &&& up % (size as int) == 0 && down % (size as int) == 0
            &&& x <= up <= V_ADDR_SPACE && 0 <= down <= x
        }),
{
    match level {
        PageTableLevel::One => {
            assert(x <= 0x1_0000_0000_0000 ==> (x - x % 0x1000) % 0x1000 == 0 && (x % 0x1000 != 0
                ==> (x - x % 0x1000 + 0x1000) % 0x1000 == 0 && x - x % 0x1000 + 0x1000
                <= 0x1_0000_0000_0000)) by (bit_vector);
        },
        PageTableLevel::Two => {
            assert(x <= 0x1_0000_0000_0000 ==> (x - x % 0x20_0000) % 0x20_0000 == 0 && (x
                % 0x20_0000 != 0 ==> (x - x % 0x20_0000 + 0x20_0000) % 0x20_0000 == 0 && x - x
                % 0x20_0000 + 0x20_0000 <= 0x1_0000_0000_0000)) by (bit_vector);
        },
        PageTableLevel::Three => {
            assert(x <= 0x1_0000_0000_0000 ==> (x - x % 0x4000_0000) % 0x4000_0000 == 0 && (x
                % 0x4000_0000 != 0 ==> (x - x % 0x4000_0000 + 0x4000_0000) % 0x4000_0000 == 0 && x
                - x % 0x4000_0000 + 0x4000_0000 <= 0x1_0000_0000_0000)) by (bit_vector);
        },
        PageTableLevel::Four => {
            assert(x <= 0x1_0000_0000_0000 ==> (x - x % 0x80_0000_0000) % 0x80_0000_0000 == 0 && (x
                % 0x80_0000_0000 != 0 ==> (x - x % 0x80_0000_0000 + 0x80_0000_0000)
                % 0x80_0000_0000 == 0 && x - x % 0x80_0000_0000 + 0x80_0000_0000
                <= 0x1_0000_0000_0000)) by (bit_vector);
        },
    }
}

/// Appends to `ops` the entries of level `level` from the boundary `sa` up
/// to the boundary `ea`.
fn push_run(level: PageTableLevel, sa: u64, ea: u64, ops: &mut Vec<ClearOp>)
    requires
        sa <= ea <= V_ADDR_SPACE,
        sa % level.entry_size_spec() == 0,
        ea % level.entry_size_spec() == 0,
    ensures
        final(ops)@ == old(ops)@ + run_ops(
            level,
            sa as int,
            (ea - sa) / (level.entry_size_spec() as int),
        ),
{
    let size = level.entry_size();
    let ghost base = ops@;
    let mut addr: u64 = sa;
    let ghost mut k: int = 0;
    assert(base + run_ops(level, sa as int, 0) =~= base);
    while addr < ea
        invariant
            sa <= addr <= ea <= V_ADDR_SPACE,
            size == level.entry_size_spec(),
            sa % size == 0,
            ea % size == 0,
            0 <= k,
            addr == sa + k * size,
            ops@ == base + run_ops(level, sa as int, k),
        decreases ea - addr,
    {
        proof {
            lemma_run_step(level, sa as int, k, ea as int);
        }
        ops.push(ClearOp { level, addr });
        assert(base + run_ops(level, sa as int, k + 1) =~= (base + run_ops(level, sa as int, k)).push(
            ClearOp { level, addr },
        ));
        addr += size;
        proof {
            k = k + 1;
        }
    }
    proof {
        lemma_run_step(level, sa as int, k, ea as int);
    }
}

/// Appends to `ops` the entries to clear so that nothing in `[s, e)` stays
/// mapped, using tables of level `level` and below.
pub fn unmap_level(level: PageTableLevel, s: u64, e: u64, ops: &mut Vec<ClearOp>)
    requires
        s <= V_ADDR_SPACE,
        e <= V_ADDR_SPACE,
    ensures
        final(ops)@ == old(ops)@ + unmap_plan(level, s, e),
    decreases level.number(),
{
    let ghost base = ops@;
    if s >= e {
        assert(base + Seq::<ClearOp>::empty() =~= base);
        return ;
    }
    let size = level.entry_size();
    proof {
        lemma_align_any(level, s);
        lemma_align_any(level, e);
    }
    let sa = x86_64::addr::align_up(s, size);
    let ea = x86_64::addr::align_down(e, size);
    let lower = level.lower();
    if sa > ea {
        match lower {
            Some(lower) => {
                unmap_level(lower, s, e, ops);
            },
            None => {
                assert(base + Seq::<ClearOp>::empty() =~= base);
            },
        }
        return ;
    }
    push_run(level, sa, ea, ops);
    match lower {
        Some(lower) => {
            unmap_level(lower, s, sa, ops);
            unmap_level(lower, ea, e, ops);
            assert(ops@ =~= base + (run_ops(level, sa as int, (ea - sa) / (size as int))
                + unmap_plan(lower, s, sa) + unmap_plan(lower, ea, e)));
        },
        None => {},
    }
}

/// The page-table changes that unmap the virtual range from `start` up to
/// `end`: the entries to clear, coarsest level first, and after the last of
/// them the flush of all cached translations.
pub open spec fn unmap_actions(start: u64, end: u64) -> Seq<PageTableAction> {
    unmap_plan(PageTableLevel::Four, start & V_ADDR_MASK, end & V_ADDR_MASK).map_values(
        |op: ClearOp| PageTableAction::Clear(op),
    ).push(PageTableAction::FlushAll)
}

/// Whether the range from `start` up to `end` can be unmapped, and if not,
/// why.
pub open spec fn unmap_error_of(start: u64, end: u64) -> Option<UnmapError> {
    if start % PAGE_SIZE != 0 || end % PAGE_SIZE != 0 {
        Some(UnmapError::Misaligned)
    } else if start & V_ADDR_MASK > end & V_ADDR_MASK {
        Some(UnmapError::Inverted)
    } else {
        None
    }
}

/// Plans the unmapping of the virtual range from `start` up to `end`.
pub fn unmap_range(start: u64, end: u64) -> (r: Result<Vec<PageTableAction>, UnmapError>)
    ensures
        match r {
            Ok(actions) => unmap_error_of(start, end) is None && actions@ == unmap_actions(
                start,
                end,
            ),
            Err(e) => unmap_error_of(start, end) == Some(e),
        },
{
    if start % PAGE_SIZE != 0 || end % PAGE_SIZE != 0 {
        return Err(UnmapError::Misaligned);
    }
    let s = start & V_ADDR_MASK;
    let e = end & V_ADDR_MASK;
    assert(start & 0x0000_FFFF_FFFF_FFFFu64 < 0x1_0000_0000_0000u64) by (bit_vector);
    assert(end & 0x0000_FFFF_FFFF_FFFFu64 < 0x1_0000_0000_0000u64) by (bit_vector);
    if s > e {
        return Err(UnmapError::Inverted);
    }
    let mut ops: Vec<ClearOp> = Vec::new();
    unmap_level(PageTableLevel::Four, s, e, &mut ops);
    assert(ops@ =~= unmap_plan(PageTableLevel::Four, s, e));
    let mut actions: Vec<PageTableAction> = Vec::new();
    let mut i: usize = 0;
    while i < ops.len()
        invariant
            i <= ops.len(),
            actions@ == ops@.take(i as int).map_values(|op: ClearOp| PageTableAction::Clear(op)),
        decreases ops.len() - i,
    {
        actions.push(PageTableAction::Clear(ops[i]));
        assert(ops@.take(i + 1).map_values(|op: ClearOp| PageTableAction::Clear(op))
            =~= ops@.take(i as int).map_values(|op: ClearOp| PageTableAction::Clear(op)).push(
            PageTableAction::Clear(ops@[i as int]),
        ));
        i += 1;
    }
    assert(ops@.take(ops.len() as int) == ops@);
    actions.push(PageTableAction::FlushAll);
    Ok(actions)
}

impl ClearOp {
    /// First masked address past what the entry translates.
    pub open spec fn end(&self) -> int {
        self.addr + self.level.entry_size_spec()
    }

    /// Whether the entry translates the masked address `a`.
    pub open spec fn covers(&self, a: int) -> bool {
        self.addr <= a < self.end()
    }

    /// Whether the entry starts on a boundary of its level and translates
    /// nothing outside `[s, e)`.
    pub open spec fn inside(&self, s: int, e: int) -> bool {
        self.addr % self.level.entry_size_spec() == 0 && s <= self.addr && self.end() <= e
    }
}

/// Whether some entry of `plan` translates the masked address `a`.
pub open spec fn translated_by(plan: Seq<ClearOp>, a: int) -> bool {
    exists|i: int| 0 <= i < plan.len() && #[trigger] plan[i].covers(a)
}

/// Whether the entries of `plan` divide `[s, e)` among them: each lies on a
/// boundary of its level and inside the range, no two translate the same
/// address, and every address of the range is translated by one of them.
#[verifier::opaque]
pub open spec fn partitions(plan: Seq<ClearOp>, s: int, e: int) -> bool {
    &&& forall|i: int| 0 <= i < plan.len() ==> (#[trigger] plan[i]).inside(s, e)
    &&& forall|i: int, j: int|
        0 <= i < j < plan.len() ==> (#[trigger] plan[i]).end() <= (#[trigger] plan[j]).addr
            || plan[j].end() <= plan[i].addr
    &&& forall|a: int| s <= a < e ==> #[trigger] translated_by(plan, a)
}

/// An entry that is a whole number of entries away from a boundary of its
/// level starts on a boundary too.
proof fn lemma_entry_boundary(level: PageTableLevel, from: int, i: int)
    requires
        from % (level.entry_size_spec() as int) == 0,
    ensures
        (from + i * level.entry_size_spec()) % (level.entry_size_spec() as int) == 0,
{
    let d = level.entry_size_spec() as int;
    let q = from / d;
    lemma_multiples(from, q + i, d);
    assert(from + i * d == d * (q + i)) by (nonlinear_arith)
        requires
            from == d * q,
    ;
}

/// Between two boundaries of a level lies a whole number of entries.
proof fn lemma_entry_count(level: PageTableLevel, sa: int, ea: int)
    requires
        sa % (level.entry_size_spec() as int) == 0,
        ea % (level.entry_size_spec() as int) == 0,
        sa <= ea,
    ensures
        sa + ((ea - sa) / (level.entry_size_spec() as int)) * level.entry_size_spec() == ea,
        (ea - sa) / (level.entry_size_spec() as int) >= 0,
{
    let d = level.entry_size_spec() as int;
    let q1 = sa / d;
    let q2 = ea / d;
    lemma_multiples(sa, q2 - q1, d);
    lemma_multiples(ea, q2 - q1, d);
    assert(ea - sa == d * (q2 - q1) && q2 - q1 >= 0) by (nonlinear_arith)
        requires
            sa == d * q1,
            ea == d * q2,
            sa <= ea,
            d > 0,
    ;
    assert(sa + (q2 - q1) * d == ea) by (nonlinear_arith)
        requires
            sa == d * q1,
            ea == d * q2,
    ;
}

/// A run of entries divides the addresses from its first entry to the end of
/// its last.
proof fn lemma_run_partitions(level: PageTableLevel, from: int, count: int)
    requires
        0 <= from,
        0 <= count,
        from % (level.entry_size_spec() as int) == 0,
        from + count * level.entry_size_spec() <= V_ADDR_SPACE,
    ensures
        partitions(run_ops(level, from, count), from, from + count * level.entry_size_spec()),
{
    reveal(partitions);
    let size = level.entry_size_spec() as int;
    let plan = run_ops(level, from, count);
    assert forall|i: int| 0 <= i < plan.len() implies (#[trigger] plan[i]).inside(
        from,
        from + count * size,
    ) by {
        assert(0 <= i * size && (i + 1) * size <= count * size && (i + 1) * size == i * size
            + size) by (nonlinear_arith)
            requires
                0 <= i < count,
                size > 0,
        ;
        lemma_entry_boundary(level, from, i);
    }
    assert forall|i: int, j: int| 0 <= i < j < plan.len() implies (#[trigger] plan[i]).end() <= (
    #[trigger] plan[j]).addr || plan[j].end() <= plan[i].addr by {
        assert(0 <= i * size && i * size + size <= j * size && j * size + size <= count * size)
            by (nonlinear_arith)
            requires
                0 <= i < j < count,
                size > 0,
        ;
    }
    assert forall|a: int| from <= a < from + count * size implies #[trigger] translated_by(
        plan,
        a,
    ) by {
        let k = (a - from) / size;
        assert(0 <= k < count && from + k * size <= a < from + k * size + size) by (nonlinear_arith)
            requires
                k == (a - from) / size,
                from <= a < from + count * size,
                size > 0,
        ;
        assert(k * size + size <= count * size) by (nonlinear_arith)
            requires
                0 <= k < count,
                size > 0,
        ;
        assert(plan[k].covers(a));
    }
}

/// Two plans that divide two adjoining ranges divide, one after the other,
/// the two ranges together.
proof fn lemma_partitions_join(p: Seq<ClearOp>, q: Seq<ClearOp>, a: int, b: int, c: int, d: int)
    requires
        partitions(p, a, b),
        partitions(q, c, d),
        a <= b,
        c <= d,
        b == c || d == a,
    ensures
        partitions(p + q, if b == c { a } else { c }, if b == c { d } else { b }),
{
    reveal(partitions);
    let lo = if b == c { a } else { c };
    let hi = if b == c { d } else { b };
    let r = p + q;
    assert forall|i: int| 0 <= i < r.len() implies (#[trigger] r[i]).inside(lo, hi) by {
        if i < p.len() {
            assert(r[i] == p[i]);
        } else {
            assert(r[i] == q[i - p.len()]);
        }
    }
    assert forall|i: int, j: int| 0 <= i < j < r.len() implies (#[trigger] r[i]).end() <= (
    #[trigger] r[j]).addr || r[j].end() <= r[i].addr by {
        if j < p.len() {
            assert(r[i] == p[i] && r[j] == p[j]);
        } else if i >= p.len() {
            assert(r[i] == q[i - p.len()] && r[j] == q[j - p.len()]);
        } else {
            assert(r[i] == p[i] && r[j] == q[j - p.len()]);
            assert(p[i].inside(a, b));
            assert(q[j - p.len()].inside(c, d));
        }
    }
    assert forall|x: int| lo <= x < hi implies #[trigger] translated_by(r, x) by {
        if a <= x < b {
            assert(translated_by(p, x));
            let i = choose|i: int| 0 <= i < p.len() && #[trigger] p[i].covers(x);
            assert(r[i] == p[i]);
            assert(r[i].covers(x));
        } else {
            assert(translated_by(q, x));
            let i = choose|i: int| 0 <= i < q.len() && #[trigger] q[i].covers(x);
            assert(r[i + p.len()] == q[i]);
            assert(r[i + p.len()].covers(x));
        }
    }
}

/// The entries that `unmap_plan` names divide the range among them: every
/// address of the range loses its translation through exactly one entry, and
/// no entry reaches outside the range.
pub proof fn lemma_unmap_plan_exact(level: PageTableLevel, s: u64, e: u64)
    requires
        s <= e <= V_ADDR_SPACE,
        s % PAGE_SIZE == 0,
        e % PAGE_SIZE == 0,
    ensures
        partitions(unmap_plan(level, s, e), s as int, e as int),
    decreases level.number(),
{
    let size = level.entry_size_spec();
    let sa = align_up_spec(s, size);
    let ea = align_down_spec(e, size);
    if s >= e {
        reveal(partitions);
    } else {
        let count = (ea - sa) / (size as int);
        lemma_align_bounds(level, s);
        lemma_align_bounds(level, e);
        if sa <= ea {
            lemma_entry_count(level, sa, ea);
            lemma_run_partitions(level, sa, count);
        }
        match level.lower_spec() {
            None => {},
            Some(lower) => {
                if sa > ea {
                    lemma_unmap_plan_exact(lower, s, e);
                } else {
                    let mid = run_ops(level, sa, count);
                    let left = unmap_plan(lower, s, sa as u64);
                    let right = unmap_plan(lower, ea as u64, e);
                    lemma_unmap_plan_exact(lower, s, sa as u64);
                    lemma_unmap_plan_exact(lower, ea as u64, e);
                    lemma_partitions_join(mid, left, sa, ea, s as int, sa);
                    lemma_partitions_join(mid + left, right, s as int, ea, ea, e as int);
                }
            },
        }
    }
}

/// Where the boundaries of a level lie about the address `x` of a page: the
/// last at or before it and the first at or after it are addresses of pages
/// inside the translated addresses, and at level 1 both are `x` itself.
proof fn lemma_align_bounds(level: PageTableLevel, x: u64)
    requires
        x <= V_ADDR_SPACE,
        x % PAGE_SIZE == 0,
    ensures
        ({
            let size = level.entry_size_spec();
            let up = align_up_spec(x, size);
            let down = align_down_spec(x, size);
            &&& up % (size as int) == 0 && down % (size as int) == 0
            &&& x <= up <= V_ADDR_SPACE && 0 <= down <= x
            &&& up % 0x1000 == 0 && down % 0x1000 == 0
            &&& level == PageTableLevel::One ==> up == x && down == x
        }),
{
    match level {
        PageTableLevel::One => {},
        PageTableLevel::Two => {
            assert(x % 0x1000 == 0 && x <= 0x1_0000_0000_0000 ==> (x - x % 0x20_0000) % 0x20_0000 == 0 && (x - x
                % 0x20_0000) % 0x1000 == 0 && (x % 0x20_0000 != 0 ==> (x - x % 0x20_0000 + 0x20_0000) % 0x20_0000 == 0 && (x
                - x % 0x20_0000 + 0x20_0000) % 0x1000 == 0 && x - x % 0x20_0000 + 0x20_0000 <= 0x1_0000_0000_0000))
                by (bit_vector);
        },
        PageTableLevel::Three => {
            assert(x % 0x1000 == 0 && x <= 0x1_0000_0000_0000 ==> (x - x % 0x4000_0000) % 0x4000_0000 == 0 && (x - x
                % 0x4000_0000) % 0x1000 == 0 && (x % 0x4000_0000 != 0 ==> (x - x % 0x4000_0000 + 0x4000_0000) % 0x4000_0000 == 0 && (x
                - x % 0x4000_0000 + 0x4000_0000) % 0x1000 == 0 && x - x % 0x4000_0000 + 0x4000_0000 <= 0x1_0000_0000_0000))
                by (bit_vector);
        },
        PageTableLevel::Four => {
            assert(x % 0x1000 == 0 && x <= 0x1_0000_0000_0000 ==> (x - x % 0x80_0000_0000) % 0x80_0000_0000 == 0 && (x - x
                % 0x80_0000_0000) % 0x1000 == 0 && (x % 0x80_0000_0000 != 0 ==> (x - x % 0x80_0000_0000 + 0x80_0000_0000) % 0x80_0000_0000 == 0 && (x
                - x % 0x80_0000_0000 + 0x80_0000_0000) % 0x1000 == 0 && x - x % 0x80_0000_0000 + 0x80_0000_0000 <= 0x1_0000_0000_0000))
                by (bit_vector);
        },
    }
}

/// Index of the entry that translates `addr` in its table of level `level`.
pub open spec fn table_index_of(addr: u64, level: PageTableLevel) -> u16 {
    ((addr / level.entry_size_spec()) % 512) as u16
}

/// `x86_64::VirtAddr::page_table_index` returns the nine bits of the address
/// that select the entry in a table of the given level: bits 12 to 20 for
/// level 1, and nine bits further up for each level above.
#[verifier::external_body]
fn table_index(addr: u64, level: PageTableLevel) -> (index: u16)
    ensures
        index == table_index_of(addr, level),
        index < 512,
{
    let level = match level {
        PageTableLevel::One => x86_64::structures::paging::page_table::PageTableLevel::One,
        PageTableLevel::Two => x86_64::structures::paging::page_table::PageTableLevel::Two,
        PageTableLevel::Three => x86_64::structures::paging::page_table::PageTableLevel::Three,
        PageTableLevel::Four => x86_64::structures::paging::page_table::PageTableLevel::Four,
    };
    u16::from(x86_64::VirtAddr::new_truncate(addr).page_table_index(level))
}

impl PageTableLevel {
    /// The level `steps` levels below level 4; level 1 for three steps and
    /// more.
    pub open spec fn below_top(steps: int) -> PageTableLevel {
        if steps <= 0 {
            PageTableLevel::Four
        } else if steps == 1 {
            PageTableLevel::Three
        } else if steps == 2 {
            PageTableLevel::Two
        } else {
            PageTableLevel::One
        }
    }
}

impl ClearOp {
    /// The walk from the level-4 table down to the entry: the index to
    /// follow in the table of level 4, then in that of level 3, and so on;
    /// the last index is that of the entry itself.
    pub open spec fn path_of(&self) -> Seq<u16> {
        Seq::new(
            (5 - self.level.number()) as nat,
            |i: int| table_index_of(self.addr, PageTableLevel::below_top(i)),
        )
    }

    /// The walk from the level-4 table down to the entry.
    pub fn path(&self) -> (p: Vec<u16>)
        ensures
            p@ == self.path_of(),
    {
        let mut p: Vec<u16> = Vec::new();
        p.push(table_index(self.addr, PageTableLevel::Four));
        match self.level {
            PageTableLevel::Four => {},
            PageTableLevel::Three => {
                p.push(table_index(self.addr, PageTableLevel::Three));
            },
            PageTableLevel::Two => {
                p.push(table_index(self.addr, PageTableLevel::Three));
                p.push(table_index(self.addr, PageTableLevel::Two));
            },
            PageTableLevel::One => {
                p.push(table_index(self.addr, PageTableLevel::Three));
                p.push(table_index(self.addr, PageTableLevel::Two));
                p.push(table_index(self.addr, PageTableLevel::One));
            },
        }
        assert(p@ =~= self.path_of());
        p
    }
}

} // verus!
