use starry_task::arch::Arch;
use starry_task::auxv::AuxEntry;
use starry_task::elf::{
    aux_vector, find_segment, image_base, image_entry, interp_base, interp_header, is_describable,
    is_mappable, is_relocated, is_table_readable, map_elf, mapping_flags, read_header, table_source, ElfHeader,
    ElfHeaders, ElfImage, HeaderError, ProgramHeader, SegmentKind, SegmentMapping, TableSource,
};
use starry_task::elf_cache::{clear_elf_cache, ElfCacheEntry, ElfLoader};
use starry_task::loader::load_result;
use starry_task::paging::MappingFlags;

/// The program header with the given type, flags, offset, address, size in the
/// file and size in memory.
type Row = (u32, u32, u64, u64, u64, u64);

const PROGRAM: [Row; 4] = [
    (3, 4, 0x300, 0x300, 20, 20),
    (1, 5, 0, 0, 0x1234, 0x1234),
    (7, 4, 0x3010, 0x3010, 0x40, 0x80),
    (1, 6, 0x2f10, 0x3f10, 0x100, 0x5000),
];

fn table(rows: &[Row]) -> Vec<u8> {
    let mut out = Vec::new();
    for (kind, flags, offset, vaddr, filesz, memsz) in rows {
        out.extend_from_slice(&kind.to_le_bytes());
        out.extend_from_slice(&flags.to_le_bytes());
        for word in [*offset, *vaddr, *vaddr, *filesz, *memsz, 0x1000] {
            out.extend_from_slice(&word.to_le_bytes());
        }
    }
    out
}

/// The beginning of a file of the given type, with its program headers at
/// offset 64.
fn file(kind: u16, rows: &[Row]) -> Vec<u8> {
    let mut out = b"\x7fELF\x02\x01\x01\0\0\0\0\0\0\0\0\0".to_vec();
    out.extend_from_slice(&kind.to_le_bytes());
    out.extend_from_slice(&0xb7u16.to_le_bytes());
    out.extend_from_slice(&1u32.to_le_bytes());
    for word in [0x1100u64, 64, 0] {
        out.extend_from_slice(&word.to_le_bytes());
    }
    out.extend_from_slice(&0u32.to_le_bytes());
    for half in [64u16, 56, rows.len() as u16, 0, 0, 0] {
        out.extend_from_slice(&half.to_le_bytes());
    }
    assert_eq!(out.len(), 64);
    out.extend_from_slice(&table(rows));
    out
}

fn image(kind: u16, rows: &[Row]) -> ElfImage {
    ElfImage::read(&file(kind, rows), &table(rows)).unwrap()
}

fn header(kind: u16, count: u16) -> ElfHeader {
    ElfHeader {
        is_64: true,
        kind,
        entry_point: 0x1100,
        ph_offset: 64,
        ph_entry_size: 56,
        ph_count: count,
    }
}

fn part(kind: SegmentKind, flags: u32, offset: u64, vaddr: u64, filesz: u64, memsz: u64) -> ProgramHeader {
    ProgramHeader {
        kind,
        flags,
        offset,
        virtual_addr: vaddr,
        file_size: filesz,
        mem_size: memsz,
    }
}

#[test]
fn headers_are_read() {
    assert_eq!(read_header(&file(3, &PROGRAM)), Some(header(3, 4)));
    assert_eq!(read_header(b"#!/bin/sh\n"), None);
    assert_eq!(read_header(&file(3, &PROGRAM)[..40]), None);
    // The bytes may stand anywhere.
    let mut moved = vec![0u8];
    moved.extend_from_slice(&file(2, &PROGRAM));
    assert_eq!(read_header(&moved[1..]), Some(header(2, 4)));
}

#[test]
fn program_headers_are_read() {
    let image = image(3, &PROGRAM);
    assert_eq!(image.headers().header, header(3, 4));
    assert_eq!(
        image.headers().ph,
        vec![
            part(SegmentKind::Interp, 4, 0x300, 0x300, 20, 20),
            part(SegmentKind::Load, 5, 0, 0, 0x1234, 0x1234),
            part(SegmentKind::Tls, 4, 0x3010, 0x3010, 0x40, 0x80),
            part(SegmentKind::Load, 6, 0x2f10, 0x3f10, 0x100, 0x5000),
        ]
    );
    assert_eq!(interp_header(image.headers()), Some(image.headers().ph[0]));
    let note = ElfImage::read(&file(2, &[]), &table(&[(4, 4, 0, 0, 0, 0)])).unwrap();
    assert_eq!(note.headers().ph[0].kind, SegmentKind::Other);
    assert_eq!(interp_header(note.headers()), None);
}

#[test]
fn unreadable_files_are_rejected() {
    assert_eq!(
        ElfImage::read(b"not an image", &[]).unwrap_err(),
        HeaderError::NotElf
    );
    let mut odd = file(2, &PROGRAM);
    odd[54] = 0;
    assert_eq!(
        ElfImage::read(&odd, &table(&PROGRAM)).unwrap_err(),
        HeaderError::BadTable
    );
    odd[54] = 55;
    assert_eq!(
        ElfImage::read(&odd, &table(&PROGRAM)).unwrap_err(),
        HeaderError::BadTable
    );
    let mut h = header(2, 4);
    assert!(is_table_readable(&h, 224));
    h.ph_entry_size = 57;
    assert!(is_table_readable(&h, 57));
    assert!(!is_table_readable(&h, 114));
    h.is_64 = false;
    h.ph_entry_size = 32;
    assert!(is_table_readable(&h, 64));
    h.ph_entry_size = 28;
    assert!(is_table_readable(&h, 20));
    assert!(!is_table_readable(&h, 28));
}

#[test]
fn the_table_is_in_the_head_or_elsewhere() {
    assert_eq!(
        table_source(&header(3, 4), 4096),
        Some(TableSource::InHead { start: 64, end: 288 })
    );
    assert_eq!(
        table_source(&header(3, 4), 287),
        Some(TableSource::InFile { offset: 64, len: 224 })
    );
    let mut far = header(3, 4);
    far.ph_offset = u64::MAX - 100;
    assert_eq!(table_source(&far, 4096), None);
}

#[test]
fn permissions_follow_the_flags() {
    let flags = |read, write, execute| MappingFlags { read, write, execute, user: true };
    assert_eq!(mapping_flags(0), flags(false, false, false));
    assert_eq!(mapping_flags(4), flags(true, false, false));
    assert_eq!(mapping_flags(2), flags(true, true, false));
    assert_eq!(mapping_flags(1), flags(false, false, true));
    assert_eq!(mapping_flags(7), flags(true, true, true));
}

#[test]
fn segments_are_mapped_with_whole_pages() {
    let image = image(3, &PROGRAM);
    let bias = 0x10_0000;
    assert!(is_mappable(image.headers(), bias));
    let mappings = map_elf(image.headers(), bias);
    assert_eq!(
        mappings,
        vec![
            SegmentMapping {
                start: 0x10_0000,
                size: 0x2000,
                flags: mapping_flags(5),
                vaddr: 0x10_0000,
                file_offset: 0,
                file_end: 0x1234,
            },
            // The thread-local data reaches beyond the last part.
            SegmentMapping {
                start: 0x10_3000,
                size: 0x6000,
                flags: mapping_flags(6),
                vaddr: 0x10_3f10,
                file_offset: 0x2f10,
                file_end: 0x3050,
            },
        ]
    );
    // An image with fixed addresses is not moved.
    let fixed = map_elf(self::image(2, &PROGRAM).headers(), bias);
    assert_eq!(fixed[1].vaddr, 0x3f10);
}

#[test]
fn segments_that_cannot_be_mapped_are_noticed() {
    let one = |p| ElfHeaders { header: header(2, 1), ph: vec![p] };
    let load = SegmentKind::Load;
    assert!(is_mappable(&one(part(load, 4, 0x10, 0x1010, 1, 1)), 0));
    assert!(!is_mappable(&one(part(load, 4, 0x20, 0x1010, 1, 1)), 0));
    assert!(!is_mappable(&one(part(load, 4, u64::MAX, 0xfff, 1, 1)), 0));
    assert!(!is_mappable(&one(part(load, 4, 0, 0, 1, u64::MAX)), 0));
    assert!(is_mappable(&one(part(SegmentKind::Other, 4, u64::MAX, 0, 1, 1)), 0));
    assert!(!is_mappable(&one(part(SegmentKind::Tls, 4, u64::MAX, 0, 1, 1)), 0));
}

#[test]
fn the_auxiliary_vector_describes_the_image() {
    let image = image(3, &PROGRAM);
    let bias = 0x10_0000;
    assert!(is_describable(image.headers(), bias));
    let entry = |kind, value| AuxEntry { kind, value };
    let fixed = vec![
        entry(3, 0x10_0040),
        entry(4, 56),
        entry(5, 4),
        entry(6, 4096),
        entry(9, 0x10_1100),
    ];
    assert_eq!(aux_vector(&image, bias, 4096, None), fixed);
    let with_linker = aux_vector(&image, bias, 4096, Some(0x20_0000));
    assert_eq!(with_linker[..5], fixed[..]);
    assert_eq!(with_linker[5..], [entry(7, 0x20_0000)]);
    assert_eq!(image_base(&header(3, 0), 5), 5);
    assert_eq!(image_base(&header(2, 0), 5), 0);
    assert_eq!(image_entry(&header(3, 0), 5), 0x1105);
}

#[test]
fn an_image_without_its_table_cannot_be_described() {
    let rows = [(1u32, 5u32, 0x1000u64, 0x1000u64, 16u64, 16u64)];
    assert!(!is_describable(image(3, &rows).headers(), 0));
    let ph = image(3, &PROGRAM).headers().ph.clone();
    assert_eq!(find_segment(&ph, 64), Some(ph[1]));
    assert_eq!(find_segment(&ph, 0x300), Some(ph[0]));
    assert_eq!(find_segment(&ph, 0x10_0000), None);
}

#[test]
fn a_program_with_a_linker_begins_in_the_linker() {
    let program = image(3, &PROGRAM);
    let linker = image(3, &PROGRAM[1..2]);
    let kinds = |auxv: &Vec<AuxEntry>| auxv.iter().map(|e| e.kind).collect::<Vec<_>>();
    let (entry, auxv) = load_result(Arch::Aarch64, &program, 0x1000, None);
    assert_eq!(entry, 0x2100);
    assert_eq!(kinds(&auxv), vec![3, 4, 5, 6, 9, 16, 11, 12, 13, 14, 23]);
    let (entry, auxv) = load_result(Arch::X86_64, &program, 0x1000, Some((&linker, 0x50_0000)));
    assert_eq!(entry, 0x50_1100);
    assert_eq!(kinds(&auxv), vec![3, 4, 5, 6, 9, 7, 16, 11, 12, 13, 14, 23]);
    assert_eq!(auxv[5].value, 0x50_0000);
    assert!(auxv[6..].iter().all(|e| e.value == 0));
    for (arch, hwcap) in [(Arch::Loongarch64, 0x3f), (Arch::Riscv64, 0x112d)] {
        let (_, auxv) = load_result(arch, &program, 0x1000, None);
        assert_eq!(auxv[5], AuxEntry { kind: 16, value: hwcap });
        assert!(auxv[6..].iter().all(|e| e.value == 0));
    }
}

#[test]
fn only_some_images_are_relocated() {
    assert!(is_relocated(Arch::Riscv64, &header(3, 4)));
    assert!(!is_relocated(Arch::Riscv64, &header(2, 4)));
    assert!(!is_relocated(Arch::Riscv64, &ElfHeader { is_64: false, ..header(3, 4) }));
    for arch in [Arch::X86_64, Arch::Aarch64, Arch::Loongarch64] {
        assert!(!is_relocated(arch, &header(3, 4)));
    }
}

#[test]
fn headers_of_32_bit_files_are_read() {
    let mut data = b"\x7fELF\x01\x01\x01\0\0\0\0\0\0\0\0\0".to_vec();
    data.extend_from_slice(&[2, 0, 3, 0, 1, 0, 0, 0]);
    for half in [0x0804_8100u32, 52, 0, 0] {
        data.extend_from_slice(&half.to_le_bytes());
    }
    for quarter in [52u16, 32, 2, 0, 0, 0] {
        data.extend_from_slice(&quarter.to_le_bytes());
    }
    let expected = ElfHeader {
        is_64: false,
        kind: 2,
        entry_point: 0x0804_8100,
        ph_offset: 52,
        ph_entry_size: 32,
        ph_count: 2,
    };
    assert_eq!(read_header(&data), Some(expected));
    assert_eq!(read_header(&data[..51]), None);
    let mut rows = Vec::new();
    for half in [7u32, 0x40, 0x50, 0x60, 0x70, 0x80, 4, 4, 1, 1, 2, 3, 4, 5, 6, 7, 9] {
        rows.extend_from_slice(&half.to_le_bytes());
    }
    let image = ElfImage::read(&data, &rows).unwrap();
    assert_eq!(
        image.headers().ph,
        vec![
            part(SegmentKind::Tls, 4, 0x40, 0x50, 0x70, 0x80),
            part(SegmentKind::Load, 6, 1, 2, 4, 5),
        ]
    );
    data[4] = 3;
    assert_eq!(read_header(&data), None);
    data[4] = 1;
    data[3] = b'G';
    assert_eq!(read_header(&data), None);
}

#[test]
fn the_linker_is_loaded_behind_the_program() {
    assert_eq!(interp_base(&vec![0x1000, 0x30_0001, 0x2000], 0x5000), 0x40_0000);
    assert_eq!(interp_base(&vec![0x30_0000], 0x5000), 0x30_0000);
    assert_eq!(interp_base(&vec![], 0x5000), 0x10_0000);
}

fn remember(loader: &mut ElfLoader, location: u64) {
    let rows = [(1u32, 5u32, 0u64, location << 12, 0x1000u64, 0x1000u64)];
    loader.insert(ElfCacheEntry { location, image: image(2, &rows) });
}

fn front_addr(loader: &ElfLoader) -> Option<u64> {
    loader.front().map(|i| i.headers().ph[0].virtual_addr >> 12)
}

#[test]
fn the_cache_remembers_the_images_used_last() {
    let mut loader = ElfLoader::new();
    assert!(loader.front().is_none());
    assert!(!loader.touch(1));
    for location in 1..=32 {
        remember(&mut loader, location);
        assert_eq!(front_addr(&loader), Some(location));
    }
    assert!(loader.touch(1));
    assert_eq!(front_addr(&loader), Some(1));
    // There is no room any more, and 2 was not used for the longest time.
    remember(&mut loader, 33);
    assert!(!loader.touch(2));
    assert!(loader.touch(1));
    assert!(loader.touch(3));
    clear_elf_cache(&mut loader);
    assert!(loader.front().is_none());
    assert!(!loader.touch(3));
}

#[test]
fn the_program_is_second_after_its_linker() {
    let mut loader = ElfLoader::new();
    remember(&mut loader, 10);
    assert!(loader.second().is_none());
    remember(&mut loader, 11);
    assert!(loader.touch(10));
    assert!(loader.touch(11));
    assert_eq!(front_addr(&loader), Some(11));
    let second = loader.second().map(|i| i.headers().ph[0].virtual_addr >> 12);
    assert_eq!(second, Some(10));
}
