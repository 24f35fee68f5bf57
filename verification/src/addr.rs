//! Addresses, page geometry and the direct-map window.

use vstd::prelude::*;

verus! {

/// log2 of the size of a page frame.
pub const PAGE_SHIFT: u64 = 12;

/// Size of a page frame in bytes.
pub const PAGE_SIZE: u64 = 0x1000;

/// Mask of the offset of an address inside its page.
pub const PAGE_OFFSET_MASK: u64 = 0xFFF;

/// Size of a level-2 (2 MiB) page in bytes.
pub const HUGE_PAGE_SIZE: u64 = 0x20_0000;

/// Size of a level-3 (1 GiB) page in bytes.
pub const GIANT_PAGE_SIZE: u64 = 0x4000_0000;

/// Virtual base of the direct-map window: `virtual = physical + PHYS_MAP_OFFSET`.
pub const PHYS_MAP_OFFSET: u64 = 0xFFFF_FFF0_0000_0000;

/// Mask of the physical addresses that the direct-map window can hold.
pub const PHYS_MASK: u64 = 0x0000_000F_FFFF_FFFF;

/// Number of bytes of physical memory that fit in the direct-map window.
pub const PHYS_WINDOW_SIZE: u64 = 0x10_0000_0000;

/// `a` is a power of two.
pub open spec fn is_pow2(a: u64) -> bool {
    a != 0 && a & ((a - 1) as u64) == 0
}

/// The greatest multiple of `align` that is at most `addr`.
pub open spec fn align_down_spec(addr: u64, align: u64) -> int {
    addr - addr % align
}

/// The smallest multiple of `align` that is at least `addr`.
pub open spec fn align_up_spec(addr: u64, align: u64) -> int {
    if addr % align == 0 {
        addr as int
    } else {
        addr - addr % align + align
    }
}

/// `x86_64::align_down` returns the greatest address with alignment `align`
/// that is not above `addr`; it panics unless `align` is a power of two.
pub assume_specification[ x86_64::addr::align_down ](addr: u64, align: u64) -> (r: u64)
    requires
        is_pow2(align),
    ensures
        r == align_down_spec(addr, align),
;

/// `x86_64::align_up` returns the smallest address with alignment `align`
/// that is not below `addr`; it panics unless `align` is a power of two, and
/// when that address does not fit in 64 bits.
pub assume_specification[ x86_64::addr::align_up ](addr: u64, align: u64) -> (r: u64)
    requires
        is_pow2(align),
        align_up_spec(addr, align) <= u64::MAX,
    ensures
        r == align_up_spec(addr, align),
;

/// Whether `align` is a power of two.
pub fn is_power_of_two(align: u64) -> (r: bool)
    ensures
        r == is_pow2(align),
{
    align != 0 && align & (align - 1) == 0
}

/// Number of pages needed to hold `size` bytes.
pub open spec fn pages_needed(size: u64) -> int {
    (size + PAGE_SIZE - 1) / (PAGE_SIZE as int)
}

/// Number of pages needed to hold `size` bytes: `ceil(size / PAGE_SIZE)`.
pub fn count_pages_needed(size: u64) -> (pages: u64)
    ensures
        pages == pages_needed(size),
        pages * PAGE_SIZE >= size,
        pages * PAGE_SIZE < size + PAGE_SIZE,
{
    let rem: u64 = size % PAGE_SIZE;
    if rem == 0 {
        size / PAGE_SIZE
    } else {
        ((size - rem) / PAGE_SIZE) + 1
    }
}

/// Page frame number of a direct-map or physical address.
pub open spec fn pfn_of(addr: u64) -> int {
    ((addr % PHYS_WINDOW_SIZE) as int) / (PAGE_SIZE as int)
}

/// Page frame number of `addr`, which may be physical or inside the
/// direct-map window.
pub fn page_to_pfn(addr: u64) -> (pfn: u64)
    ensures
        pfn == pfn_of(addr),
        pfn < 0x100_0000,
{
    assert((addr & 0x0000_000F_FFFF_FFFFu64) >> 12u64 == (addr % 0x10_0000_0000u64) / 0x1000u64)
        by (bit_vector);
    (addr & PHYS_MASK) >> PAGE_SHIFT
}

/// Direct-map address of the page with frame number `pfn`.
pub fn pfn_to_page(pfn: u64) -> (addr: u64)
    requires
        pfn < 0x100_0000,
    ensures
        addr == PHYS_MAP_OFFSET + pfn * PAGE_SIZE,
        pfn_of(addr) == pfn,
{
    assert(pfn < 0x100_0000u64 ==> (0xFFFF_FFF0_0000_0000u64 | (pfn << 12u64))
        == 0xFFFF_FFF0_0000_0000u64 + pfn * 0x1000u64
        && pfn * 0x1000u64 < 0x10_0000_0000u64) by (bit_vector);
    PHYS_MAP_OFFSET | (pfn << PAGE_SHIFT)
}

/// A physical address.
#[derive(Clone, Copy, Debug, PartialEq, Eq, Structural)]
pub struct PhysicalAddress(pub u64);

/// A virtual address.
#[derive(Clone, Copy, Debug, PartialEq, Eq, Structural)]
pub struct VirtualAddress(pub u64);

/// A physical page frame, named by the address of its first byte.
#[derive(Clone, Copy, Debug, PartialEq, Eq, Structural)]
pub struct PhysicalFrame {
    start: u64,
}

/// A virtual page, named by the address of its first byte.
#[derive(Clone, Copy, Debug, PartialEq, Eq, Structural)]
pub struct VirtualPage {
    start: u64,
}

/// Whether bits 47 to 63 of `addr` are all equal, as the hardware demands of
/// a virtual address.
pub open spec fn is_canonical(addr: u64) -> bool {
    addr < 0x8000_0000_0000 || addr >= 0xFFFF_8000_0000_0000
}

/// `x86_64::VirtAddr::try_new` accepts an address exactly if bits 48 to 63
/// are copies of bit 47.
#[verifier::external_body]
fn check_canonical(addr: u64) -> (ok: bool)
    ensures
        ok == is_canonical(addr),
{
    x86_64::VirtAddr::try_new(addr).is_ok()
}

/// What can be reached through a pointer: physical memory through the
/// direct-map window, virtual memory at its own address.
pub trait Pointable: Sized {
    /// Whether there is a pointer to this.
    spec fn reachable(&self) -> bool;

    /// The pointer to this.
    spec fn pointer_of(&self) -> u64;

    /// Whether `ptr` points to something of this kind.
    spec fn pointed(ptr: u64) -> bool;

    /// What `ptr` points to.
    spec fn target_of(ptr: u64) -> Self;

    /// The pointer through which this is reached; never null.
    fn pointer(&self) -> (ptr: u64)
        requires
            self.reachable(),
        ensures
            ptr == self.pointer_of(),
            ptr != 0,
            Self::pointed(ptr),
    ;

    /// What the pointer `ptr` reaches.
    fn from_pointer(ptr: u64) -> (target: Self)
        requires
            Self::pointed(ptr),
        ensures
            target == Self::target_of(ptr),
    ;
}

impl PhysicalAddress {
    /// The address as a number.
    pub fn as_u64(self) -> (a: u64)
        ensures
            a == self.0,
    {
        self.0
    }

    /// Whether the direct-map window holds this address.
    pub fn in_window(self) -> (r: bool)
        ensures
            r == self.reachable(),
    {
        self.0 < PHYS_WINDOW_SIZE
    }
}

impl Pointable for PhysicalAddress {
    open spec fn reachable(&self) -> bool {
        self.0 < PHYS_WINDOW_SIZE
    }

    open spec fn pointer_of(&self) -> u64 {
        (self.0 + PHYS_MAP_OFFSET) as u64
    }

    open spec fn pointed(ptr: u64) -> bool {
        ptr >= PHYS_MAP_OFFSET
    }

    open spec fn target_of(ptr: u64) -> PhysicalAddress {
        PhysicalAddress((ptr - PHYS_MAP_OFFSET) as u64)
    }

    fn pointer(&self) -> (ptr: u64) {
        self.0 + PHYS_MAP_OFFSET
    }

    fn from_pointer(ptr: u64) -> (target: PhysicalAddress) {
        PhysicalAddress(ptr - PHYS_MAP_OFFSET)
    }
}

impl PhysicalFrame {
    /// A frame starts on a page boundary.
    #[verifier::type_invariant]
    spec fn on_page_boundary(&self) -> bool {
        self.start % PAGE_SIZE == 0
    }

    /// Address of the first byte of the frame.
    pub closed spec fn start(&self) -> u64 {
        self.start
    }

    /// The frame that holds the physical address `addr`.
    pub closed spec fn holding(addr: u64) -> PhysicalFrame {
        PhysicalFrame { start: align_down_spec(addr, PAGE_SIZE) as u64 }
    }

    /// The frame that holds an address starts at that address rounded down
    /// to a page boundary, and a frame is known by where it starts.
    pub proof fn lemma_holding(addr: u64, other: PhysicalFrame)
        ensures
            PhysicalFrame::holding(addr).start() == align_down_spec(addr, PAGE_SIZE),
            PhysicalFrame::holding(addr).start() % PAGE_SIZE == 0,
            other.start() == PhysicalFrame::holding(addr).start() ==> other
                == PhysicalFrame::holding(addr),
    {
    }

    /// The frame that holds the address `addr`.
    pub fn containing_address(addr: PhysicalAddress) -> (frame: PhysicalFrame)
        ensures
            frame == PhysicalFrame::holding(addr.0),
            frame.start() == align_down_spec(addr.0, PAGE_SIZE),
            frame.start() % PAGE_SIZE == 0,
            frame.start() <= addr.0,
    {
        assert(0x1000u64 & ((0x1000u64 - 1) as u64) == 0) by (bit_vector);
        PhysicalFrame { start: x86_64::addr::align_down(addr.0, PAGE_SIZE) }
    }

    /// Address of the first byte of the frame; always on a page boundary.
    pub fn start_address(&self) -> (a: PhysicalAddress)
        ensures
            a.0 == self.start(),
            a.0 % PAGE_SIZE == 0,
    {
        proof {
            use_type_invariant(self);
        }
        PhysicalAddress(self.start)
    }

    /// Whether the direct-map window holds this frame.
    pub fn in_window(&self) -> (r: bool)
        ensures
            r == self.reachable(),
    {
        self.start < PHYS_WINDOW_SIZE
    }
}

impl Pointable for PhysicalFrame {
    open spec fn reachable(&self) -> bool {
        self.start() < PHYS_WINDOW_SIZE
    }

    open spec fn pointer_of(&self) -> u64 {
        (self.start() + PHYS_MAP_OFFSET) as u64
    }

    open spec fn pointed(ptr: u64) -> bool {
        ptr >= PHYS_MAP_OFFSET
    }

    open spec fn target_of(ptr: u64) -> PhysicalFrame {
        PhysicalFrame::holding((ptr - PHYS_MAP_OFFSET) as u64)
    }

    fn pointer(&self) -> (ptr: u64)
        ensures
            ptr == self.start() + PHYS_MAP_OFFSET,
            ptr % PAGE_SIZE == 0,
    {
        proof {
            use_type_invariant(self);
        }
        self.start + PHYS_MAP_OFFSET
    }

    fn from_pointer(ptr: u64) -> (target: PhysicalFrame)
        ensures
            target.start() == align_down_spec((ptr - PHYS_MAP_OFFSET) as u64, PAGE_SIZE),
            target.start() % PAGE_SIZE == 0,
    {
        PhysicalFrame::containing_address(PhysicalAddress::from_pointer(ptr))
    }
}

impl VirtualAddress {
    /// The virtual address `addr`, or `None` where bits 47 to 63 of it are
    /// not all equal.
    pub fn new(addr: u64) -> (r: Option<VirtualAddress>)
        ensures
            r == (if is_canonical(addr) {
                Some(VirtualAddress(addr))
            } else {
                None
            }),
    {
        if check_canonical(addr) {
            Some(VirtualAddress(addr))
        } else {
            None
        }
    }

    /// The address as a number.
    pub fn as_u64(self) -> (a: u64)
        ensures
            a == self.0,
    {
        self.0
    }
}

impl Pointable for VirtualAddress {
    open spec fn reachable(&self) -> bool {
        self.0 != 0
    }

    open spec fn pointer_of(&self) -> u64 {
        self.0
    }

    open spec fn pointed(ptr: u64) -> bool {
        ptr != 0
    }

    open spec fn target_of(ptr: u64) -> VirtualAddress {
        VirtualAddress(ptr)
    }

    fn pointer(&self) -> (ptr: u64) {
        self.0
    }

    fn from_pointer(ptr: u64) -> (target: VirtualAddress) {
        VirtualAddress(ptr)
    }
}

impl VirtualPage {
    /// A page starts on a page boundary.
    #[verifier::type_invariant]
    spec fn on_page_boundary(&self) -> bool {
        self.start % PAGE_SIZE == 0
    }

    /// Address of the first byte of the page.
    pub closed spec fn start(&self) -> u64 {
        self.start
    }

    /// The page that holds the virtual address `addr`.
    pub closed spec fn holding(addr: u64) -> VirtualPage {
        VirtualPage { start: align_down_spec(addr, PAGE_SIZE) as u64 }
    }

    /// The page that holds an address starts at that address rounded down to
    /// a page boundary, and a page is known by where it starts.
    pub proof fn lemma_holding(addr: u64, other: VirtualPage)
        ensures
            VirtualPage::holding(addr).start() == align_down_spec(addr, PAGE_SIZE),
            VirtualPage::holding(addr).start() % PAGE_SIZE == 0,
            other.start() == VirtualPage::holding(addr).start() ==> other == VirtualPage::holding(
                addr,
            ),
    {
    }

    /// The page that holds the address `addr`.
    pub fn containing_address(addr: VirtualAddress) -> (page: VirtualPage)
        ensures
            page == VirtualPage::holding(addr.0),
            page.start() == align_down_spec(addr.0, PAGE_SIZE),
            page.start() % PAGE_SIZE == 0,
            page.start() <= addr.0,
    {
        assert(0x1000u64 & ((0x1000u64 - 1) as u64) == 0) by (bit_vector);
        VirtualPage { start: x86_64::addr::align_down(addr.0, PAGE_SIZE) }
    }

    /// Address of the first byte of the page; always on a page boundary.
    pub fn start_address(&self) -> (a: VirtualAddress)
        ensures
            a.0 == self.start(),
            a.0 % PAGE_SIZE == 0,
    {
        proof {
            use_type_invariant(self);
        }
        VirtualAddress(self.start)
    }

    /// Whether the page has a pointer: every page has but the one at
    /// address zero.
    pub fn has_pointer(&self) -> (r: bool)
        ensures
            r == self.reachable(),
    {
        self.start != 0
    }
}

impl Pointable for VirtualPage {
    open spec fn reachable(&self) -> bool {
        self.start() != 0
    }

    open spec fn pointer_of(&self) -> u64 {
        self.start()
    }

    open spec fn pointed(ptr: u64) -> bool {
        ptr != 0
    }

    open spec fn target_of(ptr: u64) -> VirtualPage {
        VirtualPage::holding(ptr)
    }

    fn pointer(&self) -> (ptr: u64)
        ensures
            ptr == self.start(),
            ptr % PAGE_SIZE == 0,
    {
        proof {
            use_type_invariant(self);
        }
        self.start
    }

    fn from_pointer(ptr: u64) -> (target: VirtualPage)
        ensures
            target.start() == align_down_spec(ptr, PAGE_SIZE),
            target.start() % PAGE_SIZE == 0,
    {
        VirtualPage::containing_address(VirtualAddress(ptr))
    }
}

/// Going to the pointer of a physical address in the direct-map window and
/// back gives the address again.
pub proof fn lemma_pointer_round_trip(p: PhysicalAddress)
    requires
        p.reachable(),
    ensures
        PhysicalAddress::pointed(p.pointer_of()),
        PhysicalAddress::target_of(p.pointer_of()) == p,
{
}

/// The frame that a page-aligned pointer into the direct-map window reaches
/// starts at the physical address of that pointer.
pub(crate) proof fn lemma_target_frame(ptr: u64)
    requires
        ptr >= PHYS_MAP_OFFSET,
        ptr % PAGE_SIZE == 0,
    ensures
        PhysicalFrame::target_of(ptr).start() == ptr - PHYS_MAP_OFFSET,
{
}

/// Going to the pointer of a frame in the direct-map window and back gives
/// the frame again, and the pointer lies on a page boundary.
pub proof fn lemma_frame_round_trip(f: PhysicalFrame)
    requires
        f.reachable(),
        f.start() % PAGE_SIZE == 0,
    ensures
        PhysicalFrame::pointed(f.pointer_of()),
        PhysicalFrame::target_of(f.pointer_of()) == f,
        f.pointer_of() % PAGE_SIZE == 0,
        f.pointer_of() != 0,
{
}

/// Going to the pointer of a page and back gives the page again.
pub proof fn lemma_page_round_trip(page: VirtualPage)
    requires
        page.reachable(),
        page.start() % PAGE_SIZE == 0,
    ensures
        VirtualPage::pointed(page.pointer_of()),
        VirtualPage::target_of(page.pointer_of()) == page,
{
}

} // verus!
