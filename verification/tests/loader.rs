use x86_64::structures::paging::PageTableFlags;
use phobos_mm::descriptor::{
    KERNEL_RO_MEM_TYPE, KERNEL_RWX_MEM_TYPE, KERNEL_RW_MEM_TYPE, KERNEL_RX_MEM_TYPE,
};
use elf_rs::{Elf64, ElfFile, ProgramType};
use phobos_mm::loader::{
    check_entry, check_header, entry_point, map_elf, plan_image, plan_segment, program_headers,
    read_u16, read_u32, read_u64, LoadError, PermissionClass, ProgramHeader, PAGE_NO_EXECUTE,
    PAGE_PRESENT, PAGE_WRITABLE,
};

fn put_u16(buf: &mut Vec<u8>, at: usize, v: u16) {
    buf[at..at + 2].copy_from_slice(&v.to_le_bytes());
}

fn put_u32(buf: &mut Vec<u8>, at: usize, v: u32) {
    buf[at..at + 4].copy_from_slice(&v.to_le_bytes());
}

fn put_u64(buf: &mut Vec<u8>, at: usize, v: u64) {
    buf[at..at + 8].copy_from_slice(&v.to_le_bytes());
}

/// (type, flags, offset, vaddr, filesz, memsz)
type Segment = (u32, u32, u64, u64, u64, u64);

fn image(len: usize, entry: u64, segments: &[Segment]) -> Vec<u8> {
    let mut buf = vec![0u8; len];
    buf[0..4].copy_from_slice(&[0x7f, b'E', b'L', b'F']);
    buf[4] = 2;
    buf[5] = 1;
    buf[6] = 1;
    put_u16(&mut buf, 16, 2);
    put_u16(&mut buf, 18, 0x3e);
    put_u32(&mut buf, 20, 1);
    put_u64(&mut buf, 24, entry);
    put_u64(&mut buf, 32, 64);
    put_u16(&mut buf, 52, 64);
    put_u16(&mut buf, 54, 56);
    put_u16(&mut buf, 56, segments.len() as u16);
    for (i, s) in segments.iter().enumerate() {
        let at = 64 + 56 * i;
        put_u32(&mut buf, at, s.0);
        put_u32(&mut buf, at + 4, s.1);
        put_u64(&mut buf, at + 8, s.2);
        put_u64(&mut buf, at + 16, s.3);
        put_u64(&mut buf, at + 24, s.3);
        put_u64(&mut buf, at + 32, s.4);
        put_u64(&mut buf, at + 40, s.5);
        put_u64(&mut buf, at + 48, 0x1000);
    }
    buf
}

const BASE: u64 = 0xFFFF_FFFF_8000_0000;

fn two_segment_image() -> Vec<u8> {
    let mut buf = image(
        0x4000,
        BASE + 0x40,
        &[
            (1, 5, 0x1000, BASE, 0x1800, 0x2000),
            (1, 6, 0x3000, BASE + 0x2000, 0x1000, 0x1000),
        ],
    );
    for i in 0x1000..0x4000 {
        buf[i] = (i % 251) as u8 + 1;
    }
    buf
}

#[test]
fn image_load_two_segments() {
    let raw = two_segment_image();
    let plan = map_elf(&raw).unwrap();
    assert_eq!(plan.entry, BASE + 0x40);
    assert_eq!(plan.segments.len(), 2);

    let a = plan.segments[0];
    assert_eq!(a.pages, 2);
    assert_eq!(a.vaddr, BASE);
    assert_eq!(a.class, PermissionClass::ReadExecute);
    assert_eq!(a.mem_type, KERNEL_RX_MEM_TYPE);
    assert_eq!(a.page_flags, PAGE_PRESENT);
    let bytes = a.image(&raw).unwrap();
    assert_eq!(bytes.len(), 0x2000);
    assert_eq!(&bytes[..0x1800], &raw[0x1000..0x2800]);
    assert!(bytes[0x1800..0x2000].iter().all(|b| *b == 0));

    let b = plan.segments[1];
    assert_eq!(b.pages, 1);
    assert_eq!(b.vaddr, BASE + 0x2000);
    assert_eq!(b.class, PermissionClass::ReadWrite);
    assert_eq!(b.mem_type, KERNEL_RW_MEM_TYPE);
    assert_eq!(b.page_flags, PAGE_PRESENT | PAGE_WRITABLE | PAGE_NO_EXECUTE);
    let bytes = b.image(&raw).unwrap();
    assert_eq!(bytes.len(), 0x1000);
    assert_eq!(&bytes[..], &raw[0x3000..0x4000]);
}

#[test]
fn image_load_page_mappings() {
    let raw = two_segment_image();
    let plan = map_elf(&raw).unwrap();
    let a = plan.segments[0];
    let m0 = a.page_mapping(0x20_0000, 0).unwrap();
    let m1 = a.page_mapping(0x20_0000, 1).unwrap();
    assert_eq!((m0.virt, m0.phys, m0.flags), (BASE, 0x20_0000, PAGE_PRESENT));
    assert_eq!((m1.virt, m1.phys, m1.flags), (BASE + 0x1000, 0x20_1000, PAGE_PRESENT));
    assert!(a.page_mapping(0x20_0000, 2).is_none());
    assert!(a.page_mapping(0x20_0800, 0).is_none());
    let d = a.descriptor(0x20_0000);
    assert_eq!(d.ty, KERNEL_RX_MEM_TYPE);
    assert_eq!(d.phys_start, 0x20_0000);
    assert_eq!(d.virt_start, BASE);
    assert_eq!(d.page_count, 2);
}

#[test]
fn non_load_segments_are_skipped() {
    let raw = image(
        0x2000,
        BASE,
        &[(4, 4, 0x200, 0x1234, 0x10, 0x10), (1, 5, 0x1000, BASE, 0x1000, 0x1000)],
    );
    let plan = map_elf(&raw).unwrap();
    assert_eq!(plan.segments.len(), 1);
    assert_eq!(plan.segments[0].vaddr, BASE);
}

#[test]
fn header_errors() {
    assert_eq!(map_elf(&[]).err(), Some(LoadError::InvalidMagic));
    assert_eq!(map_elf(b"\x7fELF").err(), Some(LoadError::BufferTooShort));
    let mut raw = two_segment_image();
    raw[4] = 1;
    assert_eq!(map_elf(&raw).err(), Some(LoadError::InvalidClass));
    raw[4] = 2;
    raw[0] = 0;
    assert_eq!(map_elf(&raw).err(), Some(LoadError::InvalidMagic));
    let mut short = image(64, 0, &[]);
    put_u16(&mut short, 52, 65);
    assert_eq!(map_elf(&short).err(), Some(LoadError::BufferTooShort));
}

#[test]
fn segment_errors() {
    let ph = |vaddr, offset, filesz, memsz| ProgramHeader {
        load: true,
        flags: 5,
        offset,
        vaddr,
        filesz,
        memsz,
    };
    assert_eq!(plan_segment(0x4000, &ph(0x1001, 0, 1, 1)), Err(LoadError::SegmentMisaligned));
    assert_eq!(plan_segment(0x4000, &ph(0x1000, 0, 2, 1)), Err(LoadError::SegmentOversized));
    assert_eq!(
        plan_segment(0x4000, &ph(0x1000, 0x3000, 0x1001, 0x2000)),
        Err(LoadError::SegmentTruncated)
    );
    assert_eq!(
        plan_segment(0x4000, &ph(0x1000, u64::MAX, 1, 1)),
        Err(LoadError::SegmentTruncated)
    );
    assert_eq!(
        plan_segment(0x4000, &ph(0xFFFF_FFFF_FFFF_F000, 0, 1, 1)),
        Err(LoadError::SegmentOverflow)
    );
    assert_eq!(
        plan_segment(0x4000, &ph(0x1000, 0, 0, u64::MAX)),
        Err(LoadError::SegmentOverflow)
    );
    let ok = plan_segment(0x4000, &ph(0x1000, 0x3000, 0x1000, 0x1001)).unwrap();
    assert_eq!(ok.pages, 2);
}

#[test]
fn first_offending_segment_decides() {
    let headers = vec![
        ProgramHeader { load: true, flags: 5, offset: 0, vaddr: 0x1000, filesz: 2, memsz: 1 },
        ProgramHeader { load: true, flags: 5, offset: 0, vaddr: 0x1001, filesz: 1, memsz: 1 },
    ];
    assert_eq!(plan_image(0x1000, 0x1000, &headers).err(), Some(LoadError::SegmentOversized));
}

#[test]
fn entry_point_must_be_executable() {
    let raw = image(0x2000, BASE + 8, &[(1, 6, 0x1000, BASE, 0x1000, 0x1000)]);
    assert_eq!(map_elf(&raw).err(), Some(LoadError::EntryNotExecutable));
    let raw = image(0x2000, BASE + 0x1000, &[(1, 5, 0x1000, BASE, 0x1000, 0x1000)]);
    assert_eq!(map_elf(&raw).err(), Some(LoadError::EntryUnmapped));
    let raw = image(0x2000, BASE + 0xfff, &[(1, 5, 0x1000, BASE, 0x1000, 0x1000)]);
    assert!(map_elf(&raw).is_ok());
    assert_eq!(check_entry(&Vec::new(), 0), Err(LoadError::EntryUnmapped));
}

#[test]
fn permission_classification_is_exhaustive() {
    for flags in 0u32..8 {
        let class = PermissionClass::from_segment_flags(flags);
        let bits = class.page_flags();
        let (w, x) = (flags & 2 != 0, flags & 1 != 0);
        assert_eq!(bits & PAGE_PRESENT, PAGE_PRESENT);
        assert_eq!(bits & PAGE_WRITABLE != 0, w);
        assert_eq!(bits & PAGE_NO_EXECUTE == 0, x);
        let tag = match (w, x) {
            (false, false) => KERNEL_RO_MEM_TYPE,
            (false, true) => KERNEL_RX_MEM_TYPE,
            (true, false) => KERNEL_RW_MEM_TYPE,
            (true, true) => KERNEL_RWX_MEM_TYPE,
        };
        assert_eq!(class.mem_type(), tag);
    }
    assert_eq!(PermissionClass::from_segment_flags(4), PermissionClass::ReadOnly);
    assert_eq!(PermissionClass::from_segment_flags(1), PermissionClass::ReadExecute);
    assert_eq!(PermissionClass::from_segment_flags(3), PermissionClass::ReadWriteExecute);
    assert_eq!(PermissionClass::from_segment_flags(2), PermissionClass::ReadWrite);
}

#[test]
fn page_flag_bits_are_those_of_the_page_table() {
    assert_eq!(PAGE_PRESENT, PageTableFlags::PRESENT.bits());
    assert_eq!(PAGE_WRITABLE, PageTableFlags::WRITABLE.bits());
    assert_eq!(PAGE_NO_EXECUTE, PageTableFlags::NO_EXECUTE.bits());
}

#[test]
fn numbers_are_read_little_endian() {
    let raw = [0x01u8, 0x02, 0x03, 0x04, 0x05, 0x06, 0x07, 0x08, 0xff];
    assert_eq!(read_u16(&raw, 0), 0x0201);
    assert_eq!(read_u16(&raw, 7), 0xff08);
    assert_eq!(read_u32(&raw, 0), 0x0403_0201);
    assert_eq!(read_u32(&raw, 5), 0xff08_0706);
    assert_eq!(read_u64(&raw, 0), 0x0807_0605_0403_0201);
    assert_eq!(read_u64(&raw, 1), 0xff08_0706_0504_0302);
    assert_eq!(read_u64(&[0xff; 8], 0), u64::MAX);
}

#[test]
fn header_table_and_entry_as_the_reference_reader_sees_them() {
    let image = two_segment_image();
    let mut room = vec![0u8; image.len() + 8];
    let skip = (8 - room.as_ptr() as usize % 8) % 8;
    room[skip..skip + image.len()].copy_from_slice(&image);
    let raw = &room[skip..skip + image.len()];

    let elf = Elf64::from_bytes(raw).unwrap();
    assert_eq!(check_header(raw), None);
    assert_eq!(entry_point(raw), elf.entry_point());
    let theirs: Vec<ProgramHeader> = elf
        .program_header_iter()
        .map(|ph| ProgramHeader {
            load: matches!(ph.ph_type(), ProgramType::LOAD),
            flags: ph.flags().bits(),
            offset: ph.offset(),
            vaddr: ph.vaddr(),
            filesz: ph.filesz(),
            memsz: ph.memsz(),
        })
        .collect();
    assert_eq!(theirs.len(), 2);
    assert_eq!(program_headers(raw), theirs);
}

#[test]
fn images_at_any_address_and_tables_at_any_offset() {
    let whole = two_segment_image();
    let mut shifted = vec![0u8; whole.len() + 1];
    shifted[1..].copy_from_slice(&whole);
    let plan = map_elf(&shifted[1..]).unwrap();
    assert_eq!(plan.segments.len(), 2);

    let mut odd = image(0x2000, BASE, &[]);
    put_u64(&mut odd, 32, 1);
    assert_eq!(check_header(&odd), None);
    assert_eq!(program_headers(&odd), Vec::new());
    assert_eq!(map_elf(&odd).err(), Some(LoadError::EntryUnmapped));

    let mut moved = image(0x2000, BASE, &[]);
    put_u64(&mut moved, 32, 0x101);
    put_u16(&mut moved, 56, 1);
    put_u32(&mut moved, 0x101, 1);
    put_u32(&mut moved, 0x105, 5);
    put_u64(&mut moved, 0x109, 0x1000);
    put_u64(&mut moved, 0x111, BASE);
    put_u64(&mut moved, 0x121, 0x800);
    put_u64(&mut moved, 0x129, 0x1000);
    let headers = program_headers(&moved);
    assert_eq!(
        headers,
        vec![ProgramHeader {
            load: true,
            flags: 5,
            offset: 0x1000,
            vaddr: BASE,
            filesz: 0x800,
            memsz: 0x1000
        }]
    );
    assert!(map_elf(&moved).is_ok());
}

#[test]
fn a_table_outside_the_file_counts_as_empty() {
    let mut raw = image(0x100, BASE, &[(1, 5, 0, BASE, 0x10, 0x1000)]);
    assert_eq!(program_headers(&raw).len(), 1);
    put_u16(&mut raw, 56, 4);
    assert_eq!(program_headers(&raw), Vec::new());
    put_u16(&mut raw, 56, 1);
    put_u64(&mut raw, 32, 0x100 - 55);
    assert_eq!(program_headers(&raw), Vec::new());
    put_u64(&mut raw, 32, u64::MAX);
    assert_eq!(program_headers(&raw), Vec::new());
    put_u64(&mut raw, 32, 0x100 - 56);
    assert_eq!(program_headers(&raw).len(), 1);
    put_u32(&mut raw, 0x100 - 56, 2);
    assert!(!program_headers(&raw)[0].load);
}
