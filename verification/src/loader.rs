//! Loading of the kernel executable image: which pages each loadable segment
//! needs, how they are tagged and protected, what they hold, and where the
//! image is entered.

use vstd::prelude::*;
use crate::addr::{count_pages_needed, pages_needed, PAGE_SIZE};
use crate::mapping::PageMapping;
use crate::descriptor::{
    MemoryDescriptor, KERNEL_RO_MEM_TYPE, KERNEL_RWX_MEM_TYPE, KERNEL_RW_MEM_TYPE,
    KERNEL_RX_MEM_TYPE,
};

verus! {

/// Segment permission bit: the segment may be executed.
pub const SEGMENT_EXECUTE: u32 = 1;

/// Segment permission bit: the segment may be written.
pub const SEGMENT_WRITE: u32 = 2;

/// Segment permission bit: the segment may be read.
pub const SEGMENT_READ: u32 = 4;

/// Page-table bit: the entry maps something.
pub const PAGE_PRESENT: u64 = 1;

/// Page-table bit: writes are allowed.
pub const PAGE_WRITABLE: u64 = 2;

/// Page-table bit: instruction fetches are forbidden.
pub const PAGE_NO_EXECUTE: u64 = 0x8000_0000_0000_0000;

/// What may be done with the pages of a segment.
#[derive(Clone, Copy, Debug, PartialEq, Eq, Structural)]
pub enum PermissionClass {
    /// Read only.
    ReadOnly,
    /// Read and execute.
    ReadExecute,
    /// Read and write.
    ReadWrite,
    /// Read, write and execute.
    ReadWriteExecute,
}

/// One entry of the program header table, as far as loading reads it.
#[derive(Clone, Copy, Debug, PartialEq, Eq, Structural)]
pub struct ProgramHeader {
    /// Whether the segment is to be loaded.
    pub load: bool,
    /// Permission bits of the segment.
    pub flags: u32,
    /// Offset of the segment's bytes in the image file.
    pub offset: u64,
    /// Virtual address at which the segment is to stand.
    pub vaddr: u64,
    /// Number of bytes that the file holds of the segment.
    pub filesz: u64,
    /// Number of bytes that the segment takes up in memory.
    pub memsz: u64,
}

/// Why an image was refused.
#[derive(Clone, Copy, Debug, PartialEq, Eq, Structural)]
pub enum LoadError {
    /// The file does not start with the ELF magic number.
    InvalidMagic,
    /// The file ends inside its header.
    BufferTooShort,
    /// The file is not a 64-bit image.
    InvalidClass,
    /// A loadable segment does not start on a page boundary.
    SegmentMisaligned,
    /// A loadable segment holds more bytes in the file than in memory.
    SegmentOversized,
    /// The bytes of a loadable segment lie outside the file.
    SegmentTruncated,
    /// A loadable segment runs past the end of the address space.
    SegmentOverflow,
    /// No loadable segment holds the entry point.
    EntryUnmapped,
    /// The entry point lies in a segment that may not be executed.
    EntryNotExecutable,
}

/// What is to be done for one loadable segment.
#[derive(Clone, Copy, Debug, PartialEq, Eq, Structural)]
pub struct SegmentPlan {
    /// Virtual address of the first page.
    pub vaddr: u64,
    /// Number of pages to allocate and map.
    pub pages: u64,
    /// Permission class of the segment.
    pub class: PermissionClass,
    /// Type tag under which the pages are allocated.
    pub mem_type: u32,
    /// Page-table bits of each mapping.
    pub page_flags: u64,
    /// Offset of the segment's bytes in the image file.
    pub file_offset: u64,
    /// Number of bytes to copy from the file.
    pub file_size: u64,
    /// Number of bytes of the segment in memory; what follows the copied
    /// bytes is zero.
    pub mem_size: u64,
}

/// The whole image: where it is entered and what each segment needs.
pub struct LoadPlan {
    /// Virtual address of the entry point.
    pub entry: u64,
    /// One plan per loadable segment, in file order.
    pub segments: Vec<SegmentPlan>,
}

/// Permission class of a segment with permission bits `flags`: read-only
/// unless broadened by the execute and write bits.
pub open spec fn class_of(flags: u32) -> PermissionClass {
    let x = flags & SEGMENT_EXECUTE != 0;
    let w = flags & SEGMENT_WRITE != 0;
    if w && x {
        PermissionClass::ReadWriteExecute
    } else if w {
        PermissionClass::ReadWrite
    } else if x {
        PermissionClass::ReadExecute
    } else {
        PermissionClass::ReadOnly
    }
}

/// Type tag that carries a permission class through the firmware memory map.
pub open spec fn mem_type_of(class: PermissionClass) -> u32 {
    match class {
        PermissionClass::ReadOnly => KERNEL_RO_MEM_TYPE,
        PermissionClass::ReadExecute => KERNEL_RX_MEM_TYPE,
        PermissionClass::ReadWrite => KERNEL_RW_MEM_TYPE,
        PermissionClass::ReadWriteExecute => KERNEL_RWX_MEM_TYPE,
    }
}

/// Page-table bits of a permission class.
pub open spec fn page_flags_of(class: PermissionClass) -> u64 {
    match class {
        PermissionClass::ReadOnly => 0x8000_0000_0000_0001,
        PermissionClass::ReadExecute => 0x1,
        PermissionClass::ReadWrite => 0x8000_0000_0000_0003,
        PermissionClass::ReadWriteExecute => 0x3,
    }
}

impl PermissionClass {
    /// Whether pages of this class may be written.
    pub open spec fn writable(self) -> bool {
        self == PermissionClass::ReadWrite || self == PermissionClass::ReadWriteExecute
    }

    /// Whether pages of this class may be executed.
    pub open spec fn executable(self) -> bool {
        self == PermissionClass::ReadExecute || self == PermissionClass::ReadWriteExecute
    }

    /// Classifies the permission bits of a segment.
    pub fn from_segment_flags(flags: u32) -> (class: PermissionClass)
        ensures
            class == class_of(flags),
    {
        let x = flags & SEGMENT_EXECUTE != 0;
        let w = flags & SEGMENT_WRITE != 0;
        if w && x {
            PermissionClass::ReadWriteExecute
        } else if w {
            PermissionClass::ReadWrite
        } else if x {
            PermissionClass::ReadExecute
        } else {
            PermissionClass::ReadOnly
        }
    }

    /// The type tag under which pages of this class are allocated.
    pub fn mem_type(self) -> (ty: u32)
        ensures
            ty == mem_type_of(self),
    {
        match self {
            PermissionClass::ReadOnly => KERNEL_RO_MEM_TYPE,
            PermissionClass::ReadExecute => KERNEL_RX_MEM_TYPE,
            PermissionClass::ReadWrite => KERNEL_RW_MEM_TYPE,
            PermissionClass::ReadWriteExecute => KERNEL_RWX_MEM_TYPE,
        }
    }

    /// The page-table bits with which pages of this class are mapped:
    /// present, writable if the class allows writes, no-execute unless it
    /// allows execution.
    pub fn page_flags(self) -> (bits: u64)
        ensures
            bits == page_flags_of(self),
            bits & PAGE_PRESENT != 0,
            (bits & PAGE_WRITABLE != 0) == self.writable(),
            (bits & PAGE_NO_EXECUTE == 0) == self.executable(),
    {
        assert(0x8000_0000_0000_0001u64 & 1 != 0 && 0x8000_0000_0000_0001u64 & 2 == 0
            && 0x8000_0000_0000_0001u64 & 0x8000_0000_0000_0000 != 0) by (bit_vector);
        assert(0x1u64 & 1 != 0 && 0x1u64 & 2 == 0 && 0x1u64 & 0x8000_0000_0000_0000 == 0)
            by (bit_vector);
        assert(0x8000_0000_0000_0003u64 & 1 != 0 && 0x8000_0000_0000_0003u64 & 2 != 0
            && 0x8000_0000_0000_0003u64 & 0x8000_0000_0000_0000 != 0) by (bit_vector);
        assert(0x3u64 & 1 != 0 && 0x3u64 & 2 != 0 && 0x3u64 & 0x8000_0000_0000_0000 == 0)
            by (bit_vector);
        match self {
            PermissionClass::ReadOnly => 0x8000_0000_0000_0001,
            PermissionClass::ReadExecute => 0x1,
            PermissionClass::ReadWrite => 0x8000_0000_0000_0003,
            PermissionClass::ReadWriteExecute => 0x3,
        }
    }
}

/// The classification of segment permissions is exhaustive and exact: for
/// every combination of the write and execute bits the tag and the page bits
/// are those of exactly one class, whatever the other bits say.
pub proof fn lemma_permission_classification(flags: u32)
    ensures
        (flags & SEGMENT_WRITE == 0 && flags & SEGMENT_EXECUTE == 0) ==> class_of(flags)
            == PermissionClass::ReadOnly && mem_type_of(class_of(flags)) == KERNEL_RO_MEM_TYPE
            && page_flags_of(class_of(flags)) == PAGE_PRESENT | PAGE_NO_EXECUTE,
        (flags & SEGMENT_WRITE == 0 && flags & SEGMENT_EXECUTE != 0) ==> class_of(flags)
            == PermissionClass::ReadExecute && mem_type_of(class_of(flags)) == KERNEL_RX_MEM_TYPE
            && page_flags_of(class_of(flags)) == PAGE_PRESENT,
        (flags & SEGMENT_WRITE != 0 && flags & SEGMENT_EXECUTE != 0) ==> class_of(flags)
            == PermissionClass::ReadWriteExecute && mem_type_of(class_of(flags))
            == KERNEL_RWX_MEM_TYPE && page_flags_of(class_of(flags)) == PAGE_PRESENT
            | PAGE_WRITABLE,
        (flags & SEGMENT_WRITE != 0 && flags & SEGMENT_EXECUTE == 0) ==> class_of(flags)
            == PermissionClass::ReadWrite && mem_type_of(class_of(flags)) == KERNEL_RW_MEM_TYPE
            && page_flags_of(class_of(flags)) == PAGE_PRESENT | PAGE_WRITABLE | PAGE_NO_EXECUTE,
{
    assert(1u64 | 0x8000_0000_0000_0000u64 == 0x8000_0000_0000_0001u64) by (bit_vector);
    assert(1u64 | 2u64 == 3u64) by (bit_vector);
    assert(1u64 | 2u64 | 0x8000_0000_0000_0000u64 == 0x8000_0000_0000_0003u64) by (bit_vector);
}

/// What the header checks say of a file: the first of the failures below, or
/// `None` for a 64-bit image whose header is complete.
pub open spec fn header_error(raw: Seq<u8>) -> Option<LoadError> {
    if !(raw.len() >= 4 && raw[0] == 0x7f && raw[1] == 0x45 && raw[2] == 0x4c && raw[3] == 0x46) {
        Some(LoadError::InvalidMagic)
    } else if raw.len() < 64 {
        Some(LoadError::BufferTooShort)
    } else if raw.len() < raw[52] + 256 * raw[53] {
        Some(LoadError::BufferTooShort)
    } else if raw[4] != 2 {
        Some(LoadError::InvalidClass)
    } else {
        None
    }
}

/// The little-endian 64-bit number in the eight bytes of `raw` from `at` on.
pub open spec fn le_u64(raw: Seq<u8>, at: int) -> int {
    raw[at] + 0x100 * raw[at + 1] + 0x1_0000 * raw[at + 2] + 0x100_0000 * raw[at + 3]
        + 0x1_0000_0000 * raw[at + 4] + 0x100_0000_0000 * raw[at + 5] + 0x1_0000_0000_0000 * raw[at
        + 6] + 0x100_0000_0000_0000 * raw[at + 7]
}

/// The little-endian 16-bit number in the two bytes of `raw` from `at` on.
pub open spec fn le_u16(raw: Seq<u8>, at: int) -> int {
    raw[at] + 0x100 * raw[at + 1]
}

/// The little-endian 32-bit number in the four bytes of `raw` from `at` on.
pub open spec fn le_u32(raw: Seq<u8>, at: int) -> int {
    raw[at] + 0x100 * raw[at + 1] + 0x1_0000 * raw[at + 2] + 0x100_0000 * raw[at + 3]
}

/// Size of the header of a 64-bit image in bytes.
pub const HEADER_SIZE: usize = 64;

/// Size of one entry of the program header table in bytes.
pub const PROGRAM_HEADER_SIZE: u64 = 56;

/// Value of the type field of a segment that is to be loaded.
pub const SEGMENT_LOAD: u32 = 1;

/// The entry of the program header table that starts at byte `at`.
pub open spec fn program_header_at(raw: Seq<u8>, at: int) -> ProgramHeader {
    ProgramHeader {
        load: le_u32(raw, at) == SEGMENT_LOAD,
        flags: le_u32(raw, at + 4) as u32,
        offset: le_u64(raw, at + 8) as u64,
        vaddr: le_u64(raw, at + 16) as u64,
        filesz: le_u64(raw, at + 32) as u64,
        memsz: le_u64(raw, at + 40) as u64,
    }
}

/// Whether the file holds the whole program header table that its header
/// names: as many entries as the number at offset 56 says, from the offset
/// that the number at offset 32 gives.
pub open spec fn table_in_file(raw: Seq<u8>) -> bool {
    le_u64(raw, 32) + le_u16(raw, 56) * PROGRAM_HEADER_SIZE <= raw.len()
}

/// The program header table of the 64-bit image in `raw`, in file order;
/// empty where the file does not hold the whole table.
pub open spec fn program_headers_of(raw: Seq<u8>) -> Seq<ProgramHeader> {
    if table_in_file(raw) {
        Seq::new(
            le_u16(raw, 56) as nat,
            |i: int| program_header_at(raw, le_u64(raw, 32) + i * PROGRAM_HEADER_SIZE),
        )
    } else {
        Seq::empty()
    }
}

/// Reads the little-endian 16-bit number at byte `at`.
pub fn read_u16(raw: &[u8], at: usize) -> (v: u16)
    requires
        at + 2 <= raw@.len(),
    ensures
        v == le_u16(raw@, at as int),
{
    raw[at] as u16 + 0x100 * (raw[at + 1] as u16)
}

/// Reads the little-endian 32-bit number at byte `at`.
pub fn read_u32(raw: &[u8], at: usize) -> (v: u32)
    requires
        at + 4 <= raw@.len(),
    ensures
        v == le_u32(raw@, at as int),
{
    raw[at] as u32 + 0x100 * (raw[at + 1] as u32) + 0x1_0000 * (raw[at + 2] as u32) + 0x100_0000
        * (raw[at + 3] as u32)
}

/// Reads the little-endian 64-bit number at byte `at`.
pub fn read_u64(raw: &[u8], at: usize) -> (v: u64)
    requires
        at + 8 <= raw@.len(),
    ensures
        v == le_u64(raw@, at as int),
{
    let len = raw.len();
    assert(at + 8 <= len);
    let low: u64 = read_u32(raw, at) as u64;
    let high: u64 = read_u32(raw, at + 4) as u64;
    low + 0x1_0000_0000 * high
}

/// Checks the header of an image: the magic number, that the file holds the
/// 64-bit header and as many bytes as the header says it has, and that the
/// class byte is that of 64-bit images, in this order.
pub fn check_header(raw: &[u8]) -> (e: Option<LoadError>)
    ensures
        e == header_error(raw@),
{
    let len = raw.len();
    if !(len >= 4 && raw[0] == 0x7f && raw[1] == 0x45 && raw[2] == 0x4c && raw[3] == 0x46) {
        return Some(LoadError::InvalidMagic);
    }
    if len < HEADER_SIZE {
        return Some(LoadError::BufferTooShort);
    }
    if len < read_u16(raw, 52) as usize {
        return Some(LoadError::BufferTooShort);
    }
    if raw[4] != 2 {
        return Some(LoadError::InvalidClass);
    }
    None
}

/// The entry point that the header names: the number at offset 24.
pub fn entry_point(raw: &[u8]) -> (entry: u64)
    requires
        header_error(raw@) is None,
    ensures
        entry == le_u64(raw@, 24),
{
    read_u64(raw, 24)
}

/// Reads the entry of the program header table that starts at byte `at`.
pub fn read_program_header(raw: &[u8], at: usize) -> (ph: ProgramHeader)
    requires
        at + PROGRAM_HEADER_SIZE <= raw@.len(),
    ensures
        ph == program_header_at(raw@, at as int),
{
    let len = raw.len();
    assert(at + PROGRAM_HEADER_SIZE <= len);
    ProgramHeader {
        load: read_u32(raw, at) == SEGMENT_LOAD,
        flags: read_u32(raw, at + 4),
        offset: read_u64(raw, at + 8),
        vaddr: read_u64(raw, at + 16),
        filesz: read_u64(raw, at + 32),
        memsz: read_u64(raw, at + 40),
    }
}

/// Reads the program header table of an image whose header was accepted.
pub fn program_headers(raw: &[u8]) -> (headers: Vec<ProgramHeader>)
    requires
        header_error(raw@) is None,
    ensures
        headers@ == program_headers_of(raw@),
{
    let len = raw.len();
    let offset = read_u64(raw, 32);
    let count = read_u16(raw, 56);
    let mut headers: Vec<ProgramHeader> = Vec::new();
    let fits = match offset.checked_add(count as u64 * PROGRAM_HEADER_SIZE) {
        Some(end) => end <= len as u64,
        None => false,
    };
    if !fits {
        return headers;
    }
    let first: usize = offset as usize;
    let mut i: u16 = 0;
    while i < count
        invariant
            i <= count,
            first == offset,
            len == raw@.len(),
            offset + count * PROGRAM_HEADER_SIZE <= len,
            headers@.len() == i,
            forall|k: int|
                0 <= k < i ==> #[trigger] headers@[k] == program_header_at(
                    raw@,
                    offset + k * PROGRAM_HEADER_SIZE,
                ),
        decreases count - i,
    {
        let at: usize = first + (i as usize) * 56;
        headers.push(read_program_header(raw, at));
        i += 1;
    }
    assert(headers@ =~= program_headers_of(raw@));
    headers
}

/// The plan for the loadable segment `ph` of a file of `raw_len` bytes, or
/// why the segment is refused.
pub open spec fn segment_plan_of(raw_len: int, ph: ProgramHeader) -> Result<
    SegmentPlan,
    LoadError,
> {
    if ph.vaddr % PAGE_SIZE != 0 {
        Err(LoadError::SegmentMisaligned)
    } else if ph.filesz > ph.memsz {
        Err(LoadError::SegmentOversized)
    } else if ph.offset + ph.filesz > raw_len {
        Err(LoadError::SegmentTruncated)
    } else if ph.vaddr + pages_needed(ph.memsz) * PAGE_SIZE > u64::MAX {
        Err(LoadError::SegmentOverflow)
    } else {
        Ok(
            SegmentPlan {
                vaddr: ph.vaddr,
                pages: pages_needed(ph.memsz) as u64,
                class: class_of(ph.flags),
                mem_type: mem_type_of(class_of(ph.flags)),
                page_flags: page_flags_of(class_of(ph.flags)),
                file_offset: ph.offset,
                file_size: ph.filesz,
                mem_size: ph.memsz,
            },
        )
    }
}

/// The plans of the loadable segments among `headers`, in order, or the
/// reason for which the first offending segment is refused.
pub open spec fn segment_plans_of(raw_len: int, headers: Seq<ProgramHeader>) -> Result<
    Seq<SegmentPlan>,
    LoadError,
>
    decreases headers.len(),
{
    if headers.len() == 0 {
        Ok(Seq::empty())
    } else {
        match segment_plans_of(raw_len, headers.drop_last()) {
            Err(e) => Err(e),
            Ok(plans) => if !headers.last().load {
                Ok(plans)
            } else {
                match segment_plan_of(raw_len, headers.last()) {
                    Ok(plan) => Ok(plans.push(plan)),
                    Err(e) => Err(e),
                }
            },
        }
    }
}

impl SegmentPlan {
    /// Whether the pages of this segment hold the virtual address `addr`.
    pub open spec fn holds(&self, addr: u64) -> bool {
        self.vaddr <= addr < self.vaddr + self.pages * PAGE_SIZE
    }
}

/// The first plan, from index `from` on, whose pages hold `addr`.
pub open spec fn segment_holding(plans: Seq<SegmentPlan>, addr: u64, from: int) -> Option<
    SegmentPlan,
>
    decreases plans.len() - from,
{
    if from < 0 || from >= plans.len() {
        None
    } else if plans[from].holds(addr) {
        Some(plans[from])
    } else {
        segment_holding(plans, addr, from + 1)
    }
}

/// Whether an image with these segment plans may be entered at `entry`.
pub open spec fn entry_check(plans: Seq<SegmentPlan>, entry: u64) -> Result<(), LoadError> {
    match segment_holding(plans, entry, 0) {
        None => Err(LoadError::EntryUnmapped),
        Some(plan) => if plan.class.executable() {
            Ok(())
        } else {
            Err(LoadError::EntryNotExecutable)
        },
    }
}

/// The entry point and segment plans of an image of `raw_len` bytes with the
/// given entry point and program headers, or why the image is refused.
pub open spec fn image_plan(raw_len: int, entry: u64, headers: Seq<ProgramHeader>) -> Result<
    (u64, Seq<SegmentPlan>),
    LoadError,
> {
    match segment_plans_of(raw_len, headers) {
        Err(e) => Err(e),
        Ok(plans) => match entry_check(plans, entry) {
            Err(e) => Err(e),
            Ok(_) => Ok((entry, plans)),
        },
    }
}

/// Plans one loadable segment of a file of `raw_len` bytes.
pub fn plan_segment(raw_len: usize, ph: &ProgramHeader) -> (r: Result<SegmentPlan, LoadError>)
    ensures
        r == segment_plan_of(raw_len as int, *ph),
{
    if ph.vaddr % PAGE_SIZE != 0 {
        return Err(LoadError::SegmentMisaligned);
    }
    if ph.filesz > ph.memsz {
        return Err(LoadError::SegmentOversized);
    }
    match ph.offset.checked_add(ph.filesz) {
        None => {
            return Err(LoadError::SegmentTruncated);
        },
        Some(end) => {
            if end > raw_len as u64 {
                return Err(LoadError::SegmentTruncated);
            }
        },
    }
    let pages = count_pages_needed(ph.memsz);
    let fits = match pages.checked_mul(PAGE_SIZE) {
        Some(bytes) => ph.vaddr.checked_add(bytes).is_some(),
        None => false,
    };
    if !fits {
        return Err(LoadError::SegmentOverflow);
    }
    let class = PermissionClass::from_segment_flags(ph.flags);
    Ok(
        SegmentPlan {
            vaddr: ph.vaddr,
            pages,
            class,
            mem_type: class.mem_type(),
            page_flags: class.page_flags(),
            file_offset: ph.offset,
            file_size: ph.filesz,
            mem_size: ph.memsz,
        },
    )
}

/// Checks that the image may be entered at `entry`: some loadable segment
/// holds the address, and the first that does may be executed.
pub fn check_entry(plans: &Vec<SegmentPlan>, entry: u64) -> (r: Result<(), LoadError>)
    ensures
        r == entry_check(plans@, entry),
{
    let mut j: usize = 0;
    while j < plans.len()
        invariant
            j <= plans.len(),
            segment_holding(plans@, entry, 0) == segment_holding(plans@, entry, j as int),
        decreases plans.len() - j,
    {
        let p = &plans[j];
        let inside = p.vaddr <= entry && match p.pages.checked_mul(PAGE_SIZE) {
            Some(bytes) => entry - p.vaddr < bytes,
            None => true,
        };
        if inside {
            return match p.class {
                PermissionClass::ReadExecute => Ok(()),
                PermissionClass::ReadWriteExecute => Ok(()),
                _ => Err(LoadError::EntryNotExecutable),
            };
        }
        j += 1;
    }
    Err(LoadError::EntryUnmapped)
}

/// Plans the loading of an image of `raw_len` bytes from its entry point and
/// program headers.
pub fn plan_image(raw_len: usize, entry: u64, headers: &Vec<ProgramHeader>) -> (r: Result<
    LoadPlan,
    LoadError,
>)
    ensures
        match r {
            Ok(plan) => image_plan(raw_len as int, entry, headers@) == Ok::<
                (u64, Seq<SegmentPlan>),
                LoadError,
            >((plan.entry, plan.segments@)),
            Err(e) => image_plan(raw_len as int, entry, headers@) == Err::<
                (u64, Seq<SegmentPlan>),
                LoadError,
            >(e),
        },
{
    let mut segments: Vec<SegmentPlan> = Vec::new();
    let mut i: usize = 0;
    while i < headers.len()
        invariant
            i <= headers.len(),
            segment_plans_of(raw_len as int, headers@.take(i as int)) == Ok::<
                Seq<SegmentPlan>,
                LoadError,
            >(segments@),
        decreases headers.len() - i,
    {
        proof {
            assert(headers@.take(i + 1).drop_last() == headers@.take(i as int));
            assert(headers@.take(i + 1).last() == headers@[i as int]);
        }
        if headers[i].load {
            match plan_segment(raw_len, &headers[i]) {
                Ok(plan) => {
                    segments.push(plan);
                },
                Err(e) => {
                    proof {
                        lemma_plans_error_stays(raw_len as int, headers@, i + 1, e);
                    }
                    return Err(e);
                },
            }
        }
        i += 1;
    }
    assert(headers@.take(headers.len() as int) == headers@);
    match check_entry(&segments, entry) {
        Ok(_) => Ok(LoadPlan { entry, segments }),
        Err(e) => Err(e),
    }
}

/// Once a prefix of the headers is refused, the whole table is refused for
/// the same reason.
proof fn lemma_plans_error_stays(raw_len: int, headers: Seq<ProgramHeader>, n: int, e: LoadError)
    requires
        0 <= n <= headers.len(),
        segment_plans_of(raw_len, headers.take(n)) == Err::<Seq<SegmentPlan>, LoadError>(e),
    ensures
        segment_plans_of(raw_len, headers) == Err::<Seq<SegmentPlan>, LoadError>(e),
    decreases headers.len() - n,
{
    if n == headers.len() {
        assert(headers.take(n) == headers);
    } else {
        assert(headers.take(n + 1).drop_last() == headers.take(n));
        lemma_plans_error_stays(raw_len, headers, n + 1, e);
    }
}

/// Reads the executable image in `raw` and plans its loading: the validated
/// entry point and, for every loadable segment, the pages to allocate, their
/// type tag, their page-table bits and the bytes to copy.
pub fn map_elf(raw: &[u8]) -> (r: Result<LoadPlan, LoadError>)
    ensures
        match r {
            Ok(plan) => header_error(raw@) is None && image_plan(
                raw@.len() as int,
                le_u64(raw@, 24) as u64,
                program_headers_of(raw@),
            ) == Ok::<(u64, Seq<SegmentPlan>), LoadError>((plan.entry, plan.segments@)),
            Err(e) => header_error(raw@) == Some(e) || (header_error(raw@) is None && image_plan(
                raw@.len() as int,
                le_u64(raw@, 24) as u64,
                program_headers_of(raw@),
            ) == Err::<(u64, Seq<SegmentPlan>), LoadError>(e)),
        },
{
    match check_header(raw) {
        Some(e) => {
            return Err(e);
        },
        None => {},
    }
    let entry = entry_point(raw);
    let headers = program_headers(raw);
    plan_image(raw.len(), entry, &headers)
}

impl SegmentPlan {
    /// The descriptor that records this segment in the memory map, once its
    /// pages have been allocated at physical address `phys`.
    pub fn descriptor(&self, phys: u64) -> (d: MemoryDescriptor)
        ensures
            d == (MemoryDescriptor {
                ty: self.mem_type,
                phys_start: phys,
                virt_start: self.vaddr,
                page_count: self.pages,
                att: 0,
            }),
    {
        MemoryDescriptor {
            ty: self.mem_type,
            phys_start: phys,
            virt_start: self.vaddr,
            page_count: self.pages,
            att: 0,
        }
    }

    /// The mapping of page `i` of a segment whose pages were allocated at
    /// physical address `phys`.
    pub open spec fn mapping_of(&self, phys: u64, i: u64) -> Option<PageMapping> {
        if i < self.pages && phys % PAGE_SIZE == 0 && self.vaddr + i * PAGE_SIZE <= u64::MAX && phys
            + i * PAGE_SIZE <= u64::MAX {
            Some(
                PageMapping {
                    virt: (self.vaddr + i * PAGE_SIZE) as u64,
                    phys: (phys + i * PAGE_SIZE) as u64,
                    flags: self.page_flags,
                },
            )
        } else {
            None
        }
    }

    /// The mapping of page `i` of the segment, or `None` past the last page,
    /// for an allocation that does not start on a page boundary, and for a
    /// page beyond the end of the address space.
    pub fn page_mapping(&self, phys: u64, i: u64) -> (m: Option<PageMapping>)
        ensures
            m == self.mapping_of(phys, i),
    {
        if i >= self.pages || phys % PAGE_SIZE != 0 {
            return None;
        }
        match i.checked_mul(PAGE_SIZE) {
            None => None,
            Some(off) => match (self.vaddr.checked_add(off), phys.checked_add(off)) {
                (Some(virt), Some(phys)) => Some(PageMapping { virt, phys, flags: self.page_flags }),
                _ => None,
            },
        }
    }

    /// Whether the segment's bytes lie in a file with content `raw` and fit
    /// in the pages planned for it.
    pub open spec fn image_defined(&self, raw: Seq<u8>) -> bool {
        self.file_offset + self.file_size <= raw.len() && self.file_size <= self.pages * PAGE_SIZE
            && self.pages * PAGE_SIZE <= usize::MAX
    }

    /// Byte `i` of the segment's pages: a byte of the file while the file
    /// holds the segment, zero after that.
    pub open spec fn image_byte(&self, raw: Seq<u8>, i: int) -> u8 {
        if i < self.file_size {
            raw[self.file_offset + i]
        } else {
            0
        }
    }

    /// What the pages of the segment hold once it is loaded: the bytes that
    /// the file has of it, and zeroes up to the end of the last page.
    pub fn image(&self, raw: &[u8]) -> (r: Option<Vec<u8>>)
        ensures
            match r {
                Some(v) => self.image_defined(raw@) && v@.len() == self.pages * PAGE_SIZE
                    && forall|i: int| 0 <= i < v@.len() ==> v@[i] == self.image_byte(raw@, i),
                None => !self.image_defined(raw@),
            },
    {
        let total = match self.pages.checked_mul(PAGE_SIZE) {
            Some(t) => t,
            None => {
                return None;
            },
        };
        if total > usize::MAX as u64 || self.file_size > total {
            return None;
        }
        let raw_len: usize = raw.len();
        match self.file_offset.checked_add(self.file_size) {
            None => {
                return None;
            },
            Some(end) => {
                if end > raw_len as u64 {
                    return None;
                }
            },
        }
        let total: usize = total as usize;
        let file_size: usize = self.file_size as usize;
        let offset: usize = self.file_offset as usize;
        let mut v: Vec<u8> = Vec::new();
        let mut i: usize = 0;
        while i < total
            invariant
                i <= total,
                file_size == self.file_size,
                offset == self.file_offset,
                offset + file_size <= raw@.len() <= usize::MAX,
                v@.len() == i,
                forall|k: int| 0 <= k < i ==> v@[k] == self.image_byte(raw@, k),
            decreases total - i,
        {
            if i < file_size {
                v.push(raw[offset + i]);
            } else {
                v.push(0);
            }
            i += 1;
        }
        Some(v)
    }
}

} // verus!
