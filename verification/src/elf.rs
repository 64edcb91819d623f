//! ELF images: reading their headers and working out how they are mapped.

use ax_memory_addr::{align_down_4k, align_offset_4k, align_up_4k};
use bytemuck::cast_slice;
use kernel_elf_parser::{ELFHeadersBuilder, ELFParser};
use vstd::prelude::*;
use xmas_elf::header::Class;
use xmas_elf::program::{ProgramHeader64, Type};
use crate::arch::Arch;
use crate::auxv::{
    AuxEntry, AT_BASE, AT_ENTRY, AT_PAGESZ, AT_PHDR, AT_PHENT, AT_PHNUM,
};
use crate::paging::MappingFlags;
use crate::words::{lemma_number_bound, number_at, AlignedBytes};

verus! {

/// The type of an image that can be loaded anywhere.
pub const ET_DYN: u16 = 3;

/// The segment may be executed.
pub const PF_X: u32 = 1;

/// The segment may be written.
pub const PF_W: u32 = 2;

/// The segment may be read.
pub const PF_R: u32 = 4;

/// What the loader needs of the header of an image.
#[derive(Debug, Clone, Copy, PartialEq, Eq, Structural)]
pub struct ElfHeader {
    /// Whether the image is a 64-bit one, else it is a 32-bit one.
    pub is_64: bool,
    /// The type.
    pub kind: u16,
    /// The address of the first instruction.
    pub entry_point: u64,
    /// Where in the file the program headers are.
    pub ph_offset: u64,
    /// The size of a program header.
    pub ph_entry_size: u16,
    /// The number of program headers.
    pub ph_count: u16,
}

/// What a program header is about, as far as the loader cares.
#[derive(Debug, Clone, Copy, PartialEq, Eq, Structural)]
pub enum SegmentKind {
    /// A part of the image.
    Load,
    /// The path of the dynamic linker.
    Interp,
    /// The initial thread-local data.
    Tls,
    /// Something else.
    Other,
}

/// A program header.
#[derive(Debug, Clone, Copy, PartialEq, Eq, Structural)]
pub struct ProgramHeader {
    /// What it is about.
    pub kind: SegmentKind,
    /// The `PF_` permissions.
    pub flags: u32,
    /// Where in the file the segment is.
    pub offset: u64,
    /// Its address.
    pub virtual_addr: u64,
    /// Its size in the file.
    pub file_size: u64,
    /// Its size in memory.
    pub mem_size: u64,
}

/// The headers of an image.
#[derive(Debug)]
pub struct ElfHeaders {
    /// The header.
    pub header: ElfHeader,
    /// The program headers.
    pub ph: Vec<ProgramHeader>,
}

/// The first four bytes of every image.
pub open spec fn elf_magic() -> Seq<u8> {
    seq![0x7fu8, 0x45, 0x4c, 0x46]
}

/// The size of the header of an image.
pub open spec fn header_size(is_64: bool) -> int {
    if is_64 {
        64
    } else {
        52
    }
}

/// The header that the file which begins with `data` has. None unless the file
/// has the magic number, is a 32-bit or a 64-bit one, and is long enough.
pub open spec fn elf_header(data: Seq<u8>) -> Option<ElfHeader> {
    let is_64 = data[4] == 2;
    if data.len() < 16 || data.take(4) != elf_magic() || (data[4] != 1 && !is_64) || data.len()
        < header_size(is_64) {
        None
    } else if is_64 {
        Some(
            ElfHeader {
                is_64,
                kind: number_at(data, 16, 2) as u16,
                entry_point: number_at(data, 24, 8) as u64,
                ph_offset: number_at(data, 32, 8) as u64,
                ph_entry_size: number_at(data, 54, 2) as u16,
                ph_count: number_at(data, 56, 2) as u16,
            },
        )
    } else {
        Some(
            ElfHeader {
                is_64,
                kind: number_at(data, 16, 2) as u16,
                entry_point: number_at(data, 24, 4) as u64,
                ph_offset: number_at(data, 28, 4) as u64,
                ph_entry_size: number_at(data, 42, 2) as u16,
                ph_count: number_at(data, 44, 2) as u16,
            },
        )
    }
}

/// What a program header of the type `number` is about.
pub open spec fn segment_kind(number: int) -> SegmentKind {
    if number == 1 {
        SegmentKind::Load
    } else if number == 3 {
        SegmentKind::Interp
    } else if number == 7 {
        SegmentKind::Tls
    } else {
        SegmentKind::Other
    }
}

/// The program header at `at` in `table`.
pub open spec fn segment_at(is_64: bool, table: Seq<u8>, at: int) -> ProgramHeader {
    if is_64 {
        ProgramHeader {
            kind: segment_kind(number_at(table, at, 4)),
            flags: number_at(table, at + 4, 4) as u32,
            offset: number_at(table, at + 8, 8) as u64,
            virtual_addr: number_at(table, at + 16, 8) as u64,
            file_size: number_at(table, at + 32, 8) as u64,
            mem_size: number_at(table, at + 40, 8) as u64,
        }
    } else {
        ProgramHeader {
            kind: segment_kind(number_at(table, at, 4)),
            flags: number_at(table, at + 24, 4) as u32,
            offset: number_at(table, at + 4, 4) as u64,
            virtual_addr: number_at(table, at + 8, 4) as u64,
            file_size: number_at(table, at + 16, 4) as u64,
            mem_size: number_at(table, at + 20, 4) as u64,
        }
    }
}

/// The program headers in `table`, one for each whole entry.
pub open spec fn elf_segments(header: ElfHeader, table: Seq<u8>) -> Seq<ProgramHeader> {
    Seq::new(
        table.len() / header.ph_entry_size as nat,
        |i: int| segment_at(header.is_64, table, i * header.ph_entry_size),
    )
}

/// The header at the beginning of a file.
///
/// `xmas_elf::header::parse_header`, which is what
/// `kernel_elf_parser::ELFHeadersBuilder::new` calls, is given the bytes at an
/// address that it accepts. It reads fields of fixed size at fixed places, in
/// the byte order of the machine, which is a little-endian one.
#[verifier::external_body]
fn parse_header(data: &AlignedBytes) -> (r: Option<ElfHeader>)
    requires
        data.wf(),
    ensures
        r == elf_header(data@),
{
    let bytes: &[u8] = cast_slice(&data.words);
    let h = xmas_elf::header::parse_header(&bytes[..data.len]).ok()?;
    Some(ElfHeader {
        is_64: matches!(h.pt1.class(), Class::SixtyFour),
        kind: h.pt2.type_().0,
        entry_point: h.pt2.entry_point(),
        ph_offset: h.pt2.ph_offset(),
        ph_entry_size: h.pt2.ph_entry_size(),
        ph_count: h.pt2.ph_count(),
    })
}

/// The size that a program header must have at least.
pub open spec fn min_entry_size(is_64: bool) -> int {
    if is_64 {
        56
    } else {
        32
    }
}

/// The alignment that program headers must have.
pub open spec fn entry_align(is_64: bool) -> int {
    if is_64 {
        8
    } else {
        4
    }
}

/// A table of `len` bytes can be read with the header: entries are not empty,
/// each is large enough, and all are aligned.
pub open spec fn table_readable(header: ElfHeader, len: nat) -> bool {
    let size = header.ph_entry_size as int;
    &&& size > 0
    &&& len >= size ==> size >= min_entry_size(header.is_64)
    &&& len >= 2 * size ==> size % entry_align(header.is_64) == 0
}

/// The program headers in `table`, for the file that begins with `data`.
///
/// `kernel_elf_parser::ELFHeadersBuilder::build` cuts the table in entries and
/// reads each of them, in the byte order of the machine, which is a
/// little-endian one; what is left over at the end is ignored. It panics on a
/// table that cannot be read. It is given the bytes at addresses that it
/// accepts.
#[verifier::external_body]
fn build_segments(data: &AlignedBytes, table: &AlignedBytes) -> (r: Vec<ProgramHeader>)
    requires
        data.wf(),
        table.wf(),
        elf_header(data@) matches Some(h) && table_readable(h, table@.len()),
    ensures
        r@ == elf_segments(elf_header(data@)->0, table@),
{
    let built = ELFHeadersBuilder::new(&cast_slice(&data.words)[..data.len]);
    let built = built.and_then(|b| b.build(&cast_slice(&table.words)[..table.len]));
    let read = |p: &ProgramHeader64| ProgramHeader {
        kind: match p.get_type() {
            Ok(Type::Load) => SegmentKind::Load,
            Ok(Type::Interp) => SegmentKind::Interp,
            Ok(Type::Tls) => SegmentKind::Tls,
            _ => SegmentKind::Other,
        },
        flags: p.flags.0,
        offset: p.offset,
        virtual_addr: p.virtual_addr,
        file_size: p.file_size, mem_size: p.mem_size,
    };
    built.map_or(vec![], |h| h.ph.iter().map(read).collect())
}

/// Why headers could not be read.
#[derive(Debug, Clone, Copy, PartialEq, Eq, Structural)]
pub enum HeaderError {
    /// The file is not an ELF image.
    NotElf,
    /// The table of program headers cannot be read.
    BadTable,
}

/// The header at the beginning of a file, if it is an ELF image.
pub fn read_header(data: &[u8]) -> (r: Option<ElfHeader>)
    ensures
        r == elf_header(data@),
{
    parse_header(&AlignedBytes::new(data))
}

/// Whether a table of `len` bytes can be read with the header.
pub fn is_table_readable(header: &ElfHeader, len: usize) -> (r: bool)
    ensures
        r == table_readable(*header, len as nat),
{
    let size: usize = header.ph_entry_size as usize;
    let min: usize = if header.is_64 {
        56
    } else {
        32
    };
    let align: usize = if header.is_64 {
        8
    } else {
        4
    };
    size > 0 && (len < size || size >= min) && (len / 2 < size || size % align == 0)
}

/// The beginning of the file of an image and its program headers, as they are
/// in the file and as they were read.
#[derive(Debug)]
pub struct ElfImage {
    data: AlignedBytes,
    table: AlignedBytes,
    headers: ElfHeaders,
}

impl ElfImage {
    /// The headers are those in the bytes.
    #[verifier::type_invariant]
    closed spec fn wf(&self) -> bool {
        &&& self.data.wf()
        &&& self.table.wf()
        &&& elf_header(self.data@) == Some(self.headers.header)
        &&& table_readable(self.headers.header, self.table@.len())
        &&& self.headers.ph@ == elf_segments(self.headers.header, self.table@)
    }

    /// The headers of the image, as a specification value.
    pub closed spec fn spec_headers(&self) -> ElfHeaders {
        self.headers
    }

    /// The headers of the image.
    pub fn headers(&self) -> (r: &ElfHeaders)
        ensures
            *r == self.spec_headers(),
    {
        &self.headers
    }

    /// Reads the headers of the file that begins with `data` and whose table of
    /// program headers is `table`.
    pub fn read(data: &[u8], table: &[u8]) -> (r: Result<ElfImage, HeaderError>)
        ensures
            match elf_header(data@) {
                None => r == Err::<ElfImage, HeaderError>(HeaderError::NotElf),
                Some(h) => if table_readable(h, table@.len()) {
                    r matches Ok(image) && {
                        &&& image.spec_headers().header == h
                        &&& image.spec_headers().ph@ == elf_segments(h, table@)
                    }
                } else {
                    r == Err::<ElfImage, HeaderError>(HeaderError::BadTable)
                },
            },
    {
        let head = AlignedBytes::new(data);
        let header = match parse_header(&head) {
            Some(header) => header,
            None => {
                return Err(HeaderError::NotElf);
            },
        };
        if !is_table_readable(&header, table.len()) {
            return Err(HeaderError::BadTable);
        }
        let rows = AlignedBytes::new(table);
        let ph = build_segments(&head, &rows);
        Ok(ElfImage { data: head, table: rows, headers: ElfHeaders { header, ph } })
    }
}

/// Where the table of program headers is.
#[derive(Debug, Clone, Copy, PartialEq, Eq, Structural)]
pub enum TableSource {
    /// Among the bytes that have been read already.
    InHead { start: usize, end: usize },
    /// Elsewhere in the file.
    InFile { offset: u64, len: u64 },
}

/// The end of the table of program headers.
pub open spec fn table_end(header: ElfHeader) -> int {
    header.ph_offset + header.ph_entry_size * header.ph_count
}

/// Where the table of program headers of a file is of which the first
/// `head_len` bytes have been read. `None` if it would end beyond all files.
pub fn table_source(header: &ElfHeader, head_len: usize) -> (r: Option<TableSource>)
    ensures
        r == (if table_end(*header) > u64::MAX {
            None
        } else if (table_end(*header) as u64) as usize <= head_len && header.ph_offset as usize
            <= (table_end(*header) as u64) as usize {
            Some(
                TableSource::InHead {
                    start: header.ph_offset as usize,
                    end: (table_end(*header) as u64) as usize,
                },
            )
        } else {
            Some(
                TableSource::InFile {
                    offset: header.ph_offset,
                    len: (table_end(*header) - header.ph_offset) as u64,
                },
            )
        }),
{
    let entry_size: u64 = header.ph_entry_size as u64;
    let count: u64 = header.ph_count as u64;
    assert(0 <= entry_size * count <= 0xffff * 0xffff) by (nonlinear_arith)
        requires
            entry_size <= 0xffff,
            count <= 0xffff,
    ;
    let size: u64 = entry_size * count;
    let end: u64 = match header.ph_offset.checked_add(size) {
        Some(end) => end,
        None => {
            return None;
        },
    };
    if end as usize <= head_len && header.ph_offset as usize <= end as usize {
        Some(TableSource::InHead { start: header.ph_offset as usize, end: end as usize })
    } else {
        Some(TableSource::InFile { offset: header.ph_offset, len: size })
    }
}

/// The permissions that the flags of a segment ask for. What can be written
/// can be read.
pub fn mapping_flags(flags: u32) -> (r: MappingFlags)
    ensures
        r == permissions(flags),
{
    let mut mapping = MappingFlags { read: false, write: false, execute: false, user: true };
    if flags & PF_R == PF_R {
        mapping.read = true;
    }
    if flags & PF_W == PF_W {
        mapping.write = true;
        mapping.read = true;
    }
    if flags & PF_X == PF_X {
        mapping.execute = true;
    }
    mapping
}

/// The permissions that the flags of a segment ask for.
pub open spec fn permissions(flags: u32) -> MappingFlags {
    MappingFlags {
        read: flags & PF_R == PF_R || flags & PF_W == PF_W,
        write: flags & PF_W == PF_W,
        execute: flags & PF_X == PF_X,
        user: true,
    }
}

/// What is added to the addresses of an image that is loaded with `bias`.
pub open spec fn base_of(header: ElfHeader, bias: usize) -> usize {
    if header.kind == ET_DYN {
        bias
    } else {
        0
    }
}

/// What is added to the addresses of an image: `bias` if it can be loaded
/// anywhere, else nothing.
pub fn image_base(header: &ElfHeader, bias: usize) -> (r: usize)
    ensures
        r == base_of(*header, bias),
{
    if header.kind == ET_DYN {
        bias
    } else {
        0
    }
}

/// The address of the first instruction of an image.
pub fn image_entry(header: &ElfHeader, bias: usize) -> (r: usize)
    requires
        header.entry_point as usize + base_of(*header, bias) <= usize::MAX,
    ensures
        r == header.entry_point as usize + base_of(*header, bias),
{
    header.entry_point as usize + image_base(header, bias)
}

/// The first segment that holds the byte `pos` of the file. `None` also if the
/// end of a segment before it lies beyond all files.
pub open spec fn segment_with(ph: Seq<ProgramHeader>, pos: u64) -> Option<ProgramHeader>
    decreases ph.len(),
{
    if ph.len() == 0 || ph[0].offset + ph[0].file_size > u64::MAX {
        None
    } else if ph[0].offset <= pos < ph[0].offset + ph[0].file_size {
        Some(ph[0])
    } else {
        segment_with(ph.skip(1), pos)
    }
}

/// The first segment that holds the byte `pos` of the file. `None` also if the
/// end of a segment before it lies beyond all files.
pub fn find_segment(ph: &Vec<ProgramHeader>, pos: u64) -> (r: Option<ProgramHeader>)
    ensures
        r == segment_with(ph@, pos),
{
    let mut i: usize = 0;
    assert(ph@.skip(0) =~= ph@);
    while i < ph.len()
        invariant
            i <= ph@.len(),
            segment_with(ph@, pos) == segment_with(ph@.skip(i as int), pos),
        decreases ph@.len() - i,
    {
        let p = ph[i];
        assert(ph@.skip(i as int).skip(1) =~= ph@.skip(i + 1));
        let end: u64 = match p.offset.checked_add(p.file_size) {
            Some(end) => end,
            None => {
                return None;
            },
        };
        if p.offset <= pos && pos < end {
            return Some(p);
        }
        i = i + 1;
    }
    None
}

/// Where in the file the program headers of an image are, as an address.
pub open spec fn table_pos(header: ElfHeader) -> u64 {
    (header.ph_offset as usize) as u64
}

/// The address of the program headers of an image in memory.
pub open spec fn table_addr(header: ElfHeader, ph: Seq<ProgramHeader>, bias: usize) -> int {
    match segment_with(ph, table_pos(header)) {
        Some(p) => header.ph_offset as usize - p.offset as usize + p.virtual_addr as usize
            + base_of(header, bias),
        None => 0,
    }
}

/// Some segment holds the program headers, and addresses do not overflow.
pub open spec fn has_aux(header: ElfHeader, ph: Seq<ProgramHeader>, bias: usize) -> bool {
    &&& header.entry_point as usize + base_of(header, bias) <= usize::MAX
    &&& segment_with(ph, table_pos(header)) matches Some(p)
    &&& header.ph_offset as usize >= p.offset as usize
    &&& table_addr(header, ph, bias) <= usize::MAX
}

/// The entries of the auxiliary vector that describe an image.
pub open spec fn image_aux(
    header: ElfHeader,
    ph: Seq<ProgramHeader>,
    bias: usize,
    pagesz: usize,
    ldso_base: Option<usize>,
) -> Seq<AuxEntry> {
    let entry = (header.entry_point as usize + base_of(header, bias)) as usize;
    let fixed = seq![
        AuxEntry { kind: AT_PHDR, value: table_addr(header, ph, bias) as usize },
        AuxEntry { kind: AT_PHENT, value: header.ph_entry_size as usize },
        AuxEntry { kind: AT_PHNUM, value: header.ph_count as usize },
        AuxEntry { kind: AT_PAGESZ, value: pagesz },
        AuxEntry { kind: AT_ENTRY, value: entry },
    ];
    match ldso_base {
        Some(base) => fixed.push(AuxEntry { kind: AT_BASE, value: base }),
        None => fixed,
    }
}

/// The entries of the auxiliary vector that describe the image whose file
/// begins with `data` and has the program headers `table`.
///
/// `kernel_elf_parser::ELFParser::aux_vector` gives the address, the size and
/// the number of the program headers, the page size and the entry point, and
/// the place of the dynamic linker if there is one. It looks for the first
/// segment that holds the program headers and panics if there is none.
#[verifier::external_body]
fn parser_aux_vector(
    data: &AlignedBytes,
    table: &AlignedBytes,
    bias: usize,
    pagesz: usize,
    ldso_base: Option<usize>,
) -> (r: Vec<AuxEntry>)
    requires
        data.wf(),
        table.wf(),
        elf_header(data@) matches Some(h) && table_readable(h, table@.len()) && has_aux(
            h,
            elf_segments(elf_header(data@)->0, table@),
            bias,
        ),
    ensures
        r@ == image_aux(
            elf_header(data@)->0,
            elf_segments(elf_header(data@)->0, table@),
            bias,
            pagesz,
            ldso_base,
        ),
{
    let built = ELFHeadersBuilder::new(&cast_slice(&data.words)[..data.len]);
    let built = built.and_then(|b| b.build(&cast_slice(&table.words)[..table.len]));
    let headers = built.expect("the headers were read before");
    let parser = ELFParser::new(&headers, bias).expect("this does not fail");
    let entry = |e: kernel_elf_parser::AuxEntry| AuxEntry {
        kind: e.get_type() as usize,
        value: e.value(),
    };
    parser.aux_vector(pagesz, ldso_base).map(entry).collect()
}

/// The entries of the auxiliary vector that describe an image that is loaded
/// with `bias`, and the place of its dynamic linker, if it has one.
pub fn aux_vector(
    image: &ElfImage,
    bias: usize,
    pagesz: usize,
    ldso_base: Option<usize>,
) -> (r: Vec<AuxEntry>)
    requires
        has_aux(image.spec_headers().header, image.spec_headers().ph@, bias),
    ensures
        r@ == image_aux(
            image.spec_headers().header,
            image.spec_headers().ph@,
            bias,
            pagesz,
            ldso_base,
        ),
{
    proof {
        use_type_invariant(image);
    }
    parser_aux_vector(&image.data, &image.table, bias, pagesz, ldso_base)
}

/// A segment of an image as it is mapped.
#[derive(Debug, Clone, Copy, PartialEq, Eq, Structural)]
pub struct SegmentMapping {
    /// The first page.
    pub start: usize,
    /// The size of the mapping, whole pages.
    pub size: usize,
    /// The permissions.
    pub flags: MappingFlags,
    /// The address of the first byte of the segment.
    pub vaddr: usize,
    /// Where in the file that byte is.
    pub file_offset: u64,
    /// Where in the file the data ends; behind it the memory is zero.
    pub file_end: u64,
}

/// The segments of `ph` that are parts of the image, in order.
pub open spec fn loads(ph: Seq<ProgramHeader>) -> Seq<ProgramHeader>
    decreases ph.len(),
{
    if ph.len() == 0 {
        Seq::empty()
    } else if ph.last().kind == SegmentKind::Load {
        loads(ph.drop_last()).push(ph.last())
    } else {
        loads(ph.drop_last())
    }
}

/// The end in the file of the thread-local data that reaches farthest; zero if
/// there is none.
pub open spec fn tls_end(ph: Seq<ProgramHeader>) -> int
    decreases ph.len(),
{
    if ph.len() == 0 {
        0
    } else {
        let before = tls_end(ph.drop_last());
        let end = ph.last().offset + ph.last().file_size;
        if ph.last().kind == SegmentKind::Tls && end > before {
            end
        } else {
            before
        }
    }
}

/// The address of a segment of an image that is loaded at `base`.
pub open spec fn segment_addr(p: ProgramHeader, base: usize) -> int {
    p.virtual_addr as usize + base
}

/// The segment can be mapped: it lies in its pages as it does in the file, and
/// no address overflows.
pub open spec fn segment_mappable(p: ProgramHeader, base: usize) -> bool {
    &&& p.offset + p.file_size <= u64::MAX
    &&& p.kind == SegmentKind::Load ==> {
        &&& segment_addr(p, base) <= usize::MAX
        &&& segment_addr(p, base) % 4096 == p.offset as usize % 4096
        &&& p.mem_size as usize + segment_addr(p, base) % 4096 + 4096 <= usize::MAX
    }
}

/// All segments that the mapping of an image depends on can be mapped.
pub open spec fn mappable(headers: ElfHeaders, bias: usize) -> bool {
    forall|i: int|
        0 <= i < headers.ph@.len() ==> ((#[trigger] headers.ph@[i]).kind == SegmentKind::Load
            || headers.ph@[i].kind == SegmentKind::Tls ==> segment_mappable(
            headers.ph@[i],
            base_of(headers.header, bias),
        ))
}

/// How the segment `p` is mapped when its data ends at `file_end`.
pub open spec fn segment_mapping(p: ProgramHeader, base: usize, file_end: int) -> SegmentMapping {
    let vaddr = segment_addr(p, base);
    let span = p.mem_size as usize + vaddr % 4096 + 4095;
    SegmentMapping {
        start: (vaddr - vaddr % 4096) as usize,
        size: (span - span % 4096) as usize,
        flags: permissions(p.flags),
        vaddr: vaddr as usize,
        file_offset: p.offset,
        file_end: file_end as u64,
    }
}

/// Where the data of part `i` of an image ends in the file. Thread-local data
/// follows the last part, which is made to reach to its end.
pub open spec fn data_end(ph: Seq<ProgramHeader>, i: int) -> int {
    let p = loads(ph)[i];
    let end = p.offset + p.file_size;
    if i == loads(ph).len() - 1 && tls_end(ph) > end {
        tls_end(ph)
    } else {
        end
    }
}

/// How an image is mapped that is loaded with `bias`.
pub open spec fn image_mappings(headers: ElfHeaders, bias: usize) -> Seq<SegmentMapping> {
    Seq::new(
        loads(headers.ph@).len(),
        |i: int|
            segment_mapping(
                loads(headers.ph@)[i],
                base_of(headers.header, bias),
                data_end(headers.ph@, i),
            ),
    )
}

/// The segments of `ph` that are parts of the image.
fn load_segments(ph: &Vec<ProgramHeader>) -> (r: Vec<ProgramHeader>)
    ensures
        r@ == loads(ph@),
{
    let mut r: Vec<ProgramHeader> = Vec::new();
    let mut i: usize = 0;
    assert(ph@.take(0) =~= Seq::<ProgramHeader>::empty());
    while i < ph.len()
        invariant
            i <= ph@.len(),
            r@ == loads(ph@.take(i as int)),
        decreases ph@.len() - i,
    {
        let p = ph[i];
        assert(ph@.take(i + 1).drop_last() =~= ph@.take(i as int));
        if p.kind == SegmentKind::Load {
            r.push(p);
        }
        i = i + 1;
    }
    assert(ph@.take(i as int) =~= ph@);
    r
}

/// The end in the file of the thread-local data that reaches farthest.
fn tls_max_offset(headers: &ElfHeaders, Ghost(bias): Ghost<usize>) -> (r: u64)
    requires
        mappable(*headers, bias),
    ensures
        r == tls_end(headers.ph@),
{
    let ph = &headers.ph;
    let mut max: u64 = 0;
    let mut i: usize = 0;
    assert(ph@.take(0) =~= Seq::<ProgramHeader>::empty());
    while i < ph.len()
        invariant
            ph@ == headers.ph@,
            mappable(*headers, bias),
            i <= ph@.len(),
            max == tls_end(ph@.take(i as int)),
        decreases ph@.len() - i,
    {
        let p = ph[i];
        assert(ph@.take(i + 1).drop_last() =~= ph@.take(i as int));
        assert(headers.ph@[i as int] == p);
        if p.kind == SegmentKind::Tls {
            let end: u64 = p.offset + p.file_size;
            if end > max {
                max = end;
            }
        }
        i = i + 1;
    }
    assert(ph@.take(i as int) =~= ph@);
    max
}

/// Every part of an image is one of its segments.
proof fn lemma_loads_from(ph: Seq<ProgramHeader>, i: int) -> (j: int)
    requires
        0 <= i < loads(ph).len(),
    ensures
        0 <= j < ph.len(),
        ph[j] == loads(ph)[i],
        ph[j].kind == SegmentKind::Load,
    decreases ph.len(),
{
    let init = ph.drop_last();
    if ph.last().kind == SegmentKind::Load && i == loads(ph).len() - 1 {
        ph.len() - 1
    } else {
        lemma_loads_from(init, i)
    }
}

/// How an image is mapped that is loaded with `bias`: each of its parts, in
/// order.
pub fn map_elf(headers: &ElfHeaders, bias: usize) -> (r: Vec<SegmentMapping>)
    requires
        mappable(*headers, bias),
    ensures
        r@ == image_mappings(*headers, bias),
{
    let base: usize = image_base(&headers.header, bias);
    let tls_max: u64 = tls_max_offset(headers, Ghost(bias));
    let parts = load_segments(&headers.ph);
    let mut mappings: Vec<SegmentMapping> = Vec::new();
    let mut i: usize = 0;
    while i < parts.len()
        invariant
            mappable(*headers, bias),
            base == base_of(headers.header, bias),
            tls_max == tls_end(headers.ph@),
            parts@ == loads(headers.ph@),
            i <= parts@.len(),
            mappings@ == image_mappings(*headers, bias).take(i as int),
        decreases parts@.len() - i,
    {
        let p = parts[i];
        proof {
            let j = lemma_loads_from(headers.ph@, i as int);
            assert(segment_mappable(headers.ph@[j], base));
        }
        let vaddr: usize = p.virtual_addr as usize + base;
        let seg_pad: usize = align_offset_4k(vaddr);
        let size: usize = align_up_4k(p.mem_size as usize + seg_pad);
        let end: u64 = p.offset + p.file_size;
        let file_end: u64 = if i == parts.len() - 1 && tls_max > end {
            tls_max
        } else {
            end
        };
        mappings.push(
            SegmentMapping {
                start: align_down_4k(vaddr),
                size,
                flags: mapping_flags(p.flags),
                vaddr,
                file_offset: p.offset,
                file_end,
            },
        );
        i = i + 1;
        assert(mappings@ =~= image_mappings(*headers, bias).take(i as int));
    }
    assert(image_mappings(*headers, bias).take(i as int) =~= image_mappings(*headers, bias));
    mappings
}

/// Whether the addresses in a mapped image are adjusted to where it is: on
/// `Riscv64`, those of a 64-bit image that can be loaded anywhere. Elsewhere
/// programs see to that themselves.
pub fn is_relocated(arch: Arch, header: &ElfHeader) -> (r: bool)
    ensures
        r == (arch == Arch::Riscv64 && header.is_64 && header.kind == ET_DYN),
{
    header.is_64 && header.kind == ET_DYN && arch == Arch::Riscv64
}

/// Whether the segment can be mapped.
fn is_segment_mappable(p: &ProgramHeader, base: usize) -> (r: bool)
    ensures
        r == segment_mappable(*p, base),
{
    if p.offset.checked_add(p.file_size).is_none() {
        return false;
    }
    if p.kind != SegmentKind::Load {
        return true;
    }
    let vaddr: usize = match (p.virtual_addr as usize).checked_add(base) {
        Some(vaddr) => vaddr,
        None => {
            return false;
        },
    };
    let seg_pad: usize = align_offset_4k(vaddr);
    if seg_pad != p.offset as usize % 4096 {
        return false;
    }
    p.mem_size as usize <= usize::MAX - 4096 - seg_pad
}

/// Whether an image can be mapped with `bias`.
pub fn is_mappable(headers: &ElfHeaders, bias: usize) -> (r: bool)
    ensures
        r == mappable(*headers, bias),
{
    let base: usize = image_base(&headers.header, bias);
    let mut i: usize = 0;
    while i < headers.ph.len()
        invariant
            base == base_of(headers.header, bias),
            i <= headers.ph@.len(),
            forall|k: int|
                0 <= k < i ==> ((#[trigger] headers.ph@[k]).kind == SegmentKind::Load
                    || headers.ph@[k].kind == SegmentKind::Tls ==> segment_mappable(
                    headers.ph@[k],
                    base,
                )),
        decreases headers.ph@.len() - i,
    {
        let p = headers.ph[i];
        if p.kind == SegmentKind::Load || p.kind == SegmentKind::Tls {
            if !is_segment_mappable(&p, base) {
                assert(!segment_mappable(headers.ph@[i as int], base));
                return false;
            }
        }
        i = i + 1;
    }
    true
}

/// Whether the auxiliary vector of an image that is loaded with `bias` can be
/// made.
pub fn is_describable(headers: &ElfHeaders, bias: usize) -> (r: bool)
    ensures
        r == has_aux(headers.header, headers.ph@, bias),
{
    let header = headers.header;
    let base: usize = image_base(&header, bias);
    if (header.entry_point as usize).checked_add(base).is_none() {
        return false;
    }
    let p = match find_segment(&headers.ph, (header.ph_offset as usize) as u64) {
        Some(p) => p,
        None => {
            return false;
        },
    };
    let ph_offset: usize = header.ph_offset as usize;
    if ph_offset < p.offset as usize {
        return false;
    }
    match (ph_offset - p.offset as usize).checked_add(p.virtual_addr as usize) {
        Some(addr) => addr.checked_add(base).is_some(),
        None => false,
    }
}

/// The program header that names the dynamic linker, if there is one: the
/// first of its kind.
pub open spec fn interp_of(ph: Seq<ProgramHeader>) -> Option<ProgramHeader>
    decreases ph.len(),
{
    if ph.len() == 0 {
        None
    } else if ph[0].kind == SegmentKind::Interp {
        Some(ph[0])
    } else {
        interp_of(ph.skip(1))
    }
}

/// The program header that names the dynamic linker, if there is one.
pub fn interp_header(headers: &ElfHeaders) -> (r: Option<ProgramHeader>)
    ensures
        r == interp_of(headers.ph@),
{
    let ph = &headers.ph;
    let mut i: usize = 0;
    assert(ph@.skip(0) =~= ph@);
    while i < ph.len()
        invariant
            ph@ == headers.ph@,
            i <= ph@.len(),
            interp_of(ph@) == interp_of(ph@.skip(i as int)),
        decreases ph@.len() - i,
    {
        let p = ph[i];
        assert(ph@.skip(i as int).skip(1) =~= ph@.skip(i + 1));
        if p.kind == SegmentKind::Interp {
            return Some(p);
        }
        i = i + 1;
    }
    None
}

/// The distance that dynamic linkers are loaded at multiples of.
pub const INTERP_ALIGN: usize = 0x10_0000;

/// The highest of `ends`; `low` if there is none.
pub open spec fn max_end(ends: Seq<usize>, low: usize) -> usize
    decreases ends.len(),
{
    if ends.len() == 0 {
        low
    } else if ends.len() == 1 {
        ends[0]
    } else {
        let before = max_end(ends.drop_last(), low);
        if ends.last() > before {
            ends.last()
        } else {
            before
        }
    }
}

/// Where the dynamic linker is loaded when the mappings of the program end at
/// `ends`: behind all of them or, if there is none, from `low` on.
pub fn interp_base(ends: &Vec<usize>, low: usize) -> (r: usize)
    requires
        max_end(ends@, low) + (INTERP_ALIGN - 1) <= usize::MAX,
    ensures
        r as int == {
            let top = max_end(ends@, low) + (INTERP_ALIGN - 1);
            top - top % (INTERP_ALIGN as int)
        },
{
    let mut max: usize = low;
    let mut i: usize = 0;
    assert(ends@.take(0) =~= Seq::<usize>::empty());
    while i < ends.len()
        invariant
            i <= ends@.len(),
            max == max_end(ends@.take(i as int), low),
        decreases ends@.len() - i,
    {
        let end: usize = ends[i];
        assert(ends@.take(i + 1).drop_last() =~= ends@.take(i as int));
        if i == 0 || end > max {
            max = end;
        }
        i = i + 1;
    }
    assert(ends@.take(i as int) =~= ends@);
    let top: usize = max + (INTERP_ALIGN - 1);
    top - top % INTERP_ALIGN
}

/// The dynamic linker is loaded behind every mapping of the program.
pub proof fn law_interp_is_behind_the_program(ends: Seq<usize>, low: usize, i: int, base: int)
    requires
        0 <= i < ends.len(),
        base == {
            let top = max_end(ends, low) + (INTERP_ALIGN - 1);
            top - top % (INTERP_ALIGN as int)
        },
    ensures
        ends[i] <= base,
        base % (INTERP_ALIGN as int) == 0,
    decreases ends.len(),
{
    lemma_max_end(ends, low, i);
}

/// No end is above the highest.
proof fn lemma_max_end(ends: Seq<usize>, low: usize, i: int)
    requires
        0 <= i < ends.len(),
    ensures
        ends[i] <= max_end(ends, low),
    decreases ends.len(),
{
    if i < ends.len() - 1 {
        lemma_max_end(ends.drop_last(), low, i);
    }
}

/// The mapping of a segment consists of whole pages, holds all of the segment,
/// and its data begins in the file as it does in the page.
pub proof fn law_mapping_holds_the_segment(p: ProgramHeader, base: usize, file_end: int)
    requires
        p.kind == SegmentKind::Load,
        segment_mappable(p, base),
    ensures
        ({
            let m = segment_mapping(p, base, file_end);
            &&& m.start % 4096 == 0
            &&& m.size % 4096 == 0
            &&& m.start <= m.vaddr
            &&& m.vaddr == segment_addr(p, base)
            &&& m.vaddr + p.mem_size as usize <= m.start + m.size
            &&& m.vaddr - m.start == p.offset as usize % 4096
        }),
{
}

/// What can be written can be read, and all of an image is for user code.
pub proof fn law_writable_is_readable(flags: u32)
    ensures
        permissions(flags).write ==> permissions(flags).read,
        permissions(flags).user,
{
}

/// The data of each part of an image reaches to the end of its segment in the
/// file, and that of the last one to the end of the thread-local data.
pub proof fn law_data_reaches_the_thread_local_part(ph: Seq<ProgramHeader>, i: int)
    requires
        0 <= i < loads(ph).len(),
    ensures
        data_end(ph, i) >= loads(ph)[i].offset + loads(ph)[i].file_size,
        i < loads(ph).len() - 1 ==> data_end(ph, i) == loads(ph)[i].offset
            + loads(ph)[i].file_size,
        i == loads(ph).len() - 1 ==> data_end(ph, i) >= tls_end(ph),
{
}

/// The thread-local data ends where its segment that reaches farthest does.
pub proof fn law_tls_end_is_the_farthest(ph: Seq<ProgramHeader>, i: int)
    requires
        0 <= i < ph.len(),
        ph[i].kind == SegmentKind::Tls,
    ensures
        ph[i].offset + ph[i].file_size <= tls_end(ph),
    decreases ph.len(),
{
    if i < ph.len() - 1 {
        law_tls_end_is_the_farthest(ph.drop_last(), i);
    }
}

/// Each permission of a mapping is that of the segment, whatever the others are:
/// it can be executed when bit 0 of the flags is set, written when bit 1 is, and
/// read when bit 2 is or when it can be written.
pub proof fn law_permissions_follow_the_flags(flags: u32, r: MappingFlags)
    requires
        call_ensures(mapping_flags, (flags,), r),
    ensures
        r.execute <==> flags % 2 == 1,
        r.write <==> flags / 2 % 2 == 1,
        r.read <==> flags / 4 % 2 == 1 || flags / 2 % 2 == 1,
        r.user,
{
    lemma_permission_bits(flags);
}

/// The bits of the flags, as digits.
proof fn lemma_permission_bits(flags: u32)
    ensures
        flags & PF_X == PF_X <==> flags % 2 == 1,
        flags & PF_W == PF_W <==> flags / 2 % 2 == 1,
        flags & PF_R == PF_R <==> flags / 4 % 2 == 1,
{
    assert({
        &&& (flags & 1 == 1 <==> flags % 2 == 1)
        &&& (flags & 2 == 2 <==> flags / 2 % 2 == 1)
        &&& (flags & 4 == 4 <==> flags / 4 % 2 == 1)
    }) by (bit_vector);
}

/// The parts of an image are the segments of that kind.
pub open spec fn parts(ph: Seq<ProgramHeader>) -> Seq<ProgramHeader> {
    ph.filter(|p: ProgramHeader| p.kind == SegmentKind::Load)
}

/// Picking the parts one by one picks them all.
proof fn lemma_parts(ph: Seq<ProgramHeader>)
    ensures
        loads(ph) == parts(ph),
    decreases ph.len(),
{
    reveal(Seq::filter);
    if ph.len() > 0 {
        lemma_parts(ph.drop_last());
    }
}

/// Thread-local data that ends anywhere ends with one of its segments.
proof fn lemma_tls_end_is_reached(ph: Seq<ProgramHeader>)
    requires
        tls_end(ph) > 0,
    ensures
        exists|i: int|
            0 <= i < ph.len() && (#[trigger] ph[i]).kind == SegmentKind::Tls && ph[i].offset
                + ph[i].file_size == tls_end(ph),
    decreases ph.len(),
{
    let init = ph.drop_last();
    let n = ph.len() as int;
    if tls_end(ph) == tls_end(init) {
        lemma_tls_end_is_reached(init);
        let i = choose|i: int|
            0 <= i < init.len() && (#[trigger] init[i]).kind == SegmentKind::Tls && init[i].offset
                + init[i].file_size == tls_end(init);
        assert(ph[i] == init[i]);
    } else {
        assert(ph[n - 1] == ph.last());
    }
}

/// An image is mapped part by part, each once and in the order of its headers.
/// A part is at its address, moved by the bias if the image can be loaded
/// anywhere, in the fewest whole pages that hold it, with its own permissions,
/// and shows its own piece of the file; behind that the memory is zero, except
/// that the last part also shows the thread-local data, as far as that reaches.
pub proof fn law_image_is_mapped_part_by_part(
    headers: &ElfHeaders,
    bias: usize,
    r: Vec<SegmentMapping>,
    k: int,
)
    requires
        mappable(*headers, bias),
        call_ensures(map_elf, (headers, bias), r),
    ensures
        r@.len() == parts(headers.ph@).len(),
        0 <= k < r@.len() ==> ({
            let p = parts(headers.ph@)[k];
            let m = r@[k];
            let base: int = if headers.header.kind == 3 {
                bias as int
            } else {
                0
            };
            let end = p.offset + p.file_size;
            &&& p.kind == SegmentKind::Load && headers.ph@.contains(p)
            &&& m.vaddr == p.virtual_addr as usize + base
            &&& m.start % 4096 == 0 && m.start <= m.vaddr < m.start + 4096
            &&& m.size % 4096 == 0
            &&& m.vaddr + p.mem_size as usize <= m.start + m.size < m.vaddr + p.mem_size as usize
                + 4096
            &&& m.file_offset == p.offset
            &&& m.file_offset as usize % 4096 == m.vaddr % 4096
            &&& (m.flags.execute <==> p.flags % 2 == 1)
            &&& (m.flags.write <==> p.flags / 2 % 2 == 1)
            &&& (m.flags.read <==> p.flags / 4 % 2 == 1 || p.flags / 2 % 2 == 1)
            &&& m.flags.user
            &&& k < r@.len() - 1 ==> m.file_end == end
            &&& k == r@.len() - 1 ==> {
                &&& m.file_end >= end
                &&& forall|i: int|
                    0 <= i < headers.ph@.len() && (#[trigger] headers.ph@[i]).kind
                        == SegmentKind::Tls ==> m.file_end >= headers.ph@[i].offset
                        + headers.ph@[i].file_size
                &&& m.file_end == end || exists|i: int|
                    0 <= i < headers.ph@.len() && (#[trigger] headers.ph@[i]).kind
                        == SegmentKind::Tls && m.file_end == headers.ph@[i].offset
                        + headers.ph@[i].file_size
            }
        }),
{
    let ph = headers.ph@;
    lemma_parts(ph);
    if 0 <= k < r@.len() {
        let j = lemma_loads_from(ph, k);
        let p = loads(ph)[k];
        assert(ph[j] == p);
        assert(segment_mappable(ph[j], base_of(headers.header, bias)));
        law_mapping_holds_the_segment(p, base_of(headers.header, bias), data_end(ph, k));
        lemma_permission_bits(p.flags);
        assert forall|i: int|
            0 <= i < ph.len() && (#[trigger] ph[i]).kind == SegmentKind::Tls implies tls_end(ph)
            >= ph[i].offset + ph[i].file_size by {
            law_tls_end_is_the_farthest(ph, i);
        }
        if tls_end(ph) > 0 {
            lemma_tls_end_is_reached(ph);
            let i = choose|i: int|
                0 <= i < ph.len() && (#[trigger] ph[i]).kind == SegmentKind::Tls && ph[i].offset
                    + ph[i].file_size == tls_end(ph);
            assert(segment_mappable(ph[i], base_of(headers.header, bias)));
        }
    }
}

/// An image that can be loaded anywhere begins as far from its bias as it says,
/// and any other where it says.
pub proof fn law_only_some_images_are_moved(
    header: &ElfHeader,
    bias: usize,
    base: usize,
    entry: usize,
)
    requires
        header.entry_point as usize + bias <= usize::MAX,
        call_ensures(image_base, (header, bias), base),
        call_ensures(image_entry, (header, bias), entry),
    ensures
        header.kind == 3 ==> base == bias && entry - bias == header.entry_point as usize,
        header.kind != 3 ==> base == 0 && entry == header.entry_point as usize,
{
}

/// A segment found for a byte of the file holds that byte, and no segment before
/// it does.
pub proof fn law_found_segment_is_the_first(
    ph: &Vec<ProgramHeader>,
    pos: u64,
    r: Option<ProgramHeader>,
)
    requires
        call_ensures(find_segment, (ph, pos), r),
        forall|i: int|
            0 <= i < ph@.len() ==> (#[trigger] ph@[i]).offset + ph@[i].file_size <= u64::MAX,
    ensures
        r matches Some(p) ==> exists|i: int|
            {
                &&& 0 <= i < ph@.len() && #[trigger] ph@[i] == p
                &&& p.offset <= pos < p.offset + p.file_size
                &&& forall|j: int|
                    0 <= j < i ==> !((#[trigger] ph@[j]).offset <= pos < ph@[j].offset
                        + ph@[j].file_size)
            },
        r is None ==> forall|j: int|
            0 <= j < ph@.len() ==> !((#[trigger] ph@[j]).offset <= pos < ph@[j].offset
                + ph@[j].file_size),
{
    lemma_first_holding(ph@, pos);
}

/// The first segment that holds a byte, if any does.
proof fn lemma_first_holding(ph: Seq<ProgramHeader>, pos: u64)
    requires
        forall|i: int|
            0 <= i < ph.len() ==> (#[trigger] ph[i]).offset + ph[i].file_size <= u64::MAX,
    ensures
        segment_with(ph, pos) matches Some(p) ==> exists|i: int|
            {
                &&& 0 <= i < ph.len() && #[trigger] ph[i] == p
                &&& p.offset <= pos < p.offset + p.file_size
                &&& forall|j: int|
                    0 <= j < i ==> !((#[trigger] ph[j]).offset <= pos < ph[j].offset
                        + ph[j].file_size)
            },
        segment_with(ph, pos) is None ==> forall|j: int|
            0 <= j < ph.len() ==> !((#[trigger] ph[j]).offset <= pos < ph[j].offset
                + ph[j].file_size),
    decreases ph.len(),
{
    if ph.len() > 0 {
        let rest = ph.skip(1);
        if ph[0].offset <= pos < ph[0].offset + ph[0].file_size {
            assert(ph[0] == segment_with(ph, pos)->0);
        } else {
            assert forall|i: int| 0 <= i < rest.len() implies (#[trigger] rest[i]).offset
                + rest[i].file_size <= u64::MAX by {
                assert(rest[i] == ph[i + 1]);
            }
            lemma_first_holding(rest, pos);
            if let Some(p) = segment_with(rest, pos) {
                let i = choose|i: int|
                    {
                        &&& 0 <= i < rest.len() && #[trigger] rest[i] == p
                        &&& p.offset <= pos < p.offset + p.file_size
                        &&& forall|j: int|
                            0 <= j < i ==> !((#[trigger] rest[j]).offset <= pos < rest[j].offset
                                + rest[j].file_size)
                    };
                assert(ph[i + 1] == p);
                assert forall|j: int| 0 <= j < i + 1 implies !((#[trigger] ph[j]).offset <= pos
                    < ph[j].offset + ph[j].file_size) by {
                    if j > 0 {
                        assert(rest[j - 1] == ph[j]);
                    }
                }
            } else {
                assert forall|j: int| 0 <= j < ph.len() implies !((#[trigger] ph[j]).offset <= pos
                    < ph[j].offset + ph[j].file_size) by {
                    if j > 0 {
                        assert(rest[j - 1] == ph[j]);
                    }
                }
            }
        }
    }
}

/// The value of the entry of the auxiliary vector with a kind that occurs once.
pub open spec fn says(auxv: Seq<AuxEntry>, kind: usize, value: int) -> bool {
    &&& exists|i: int| 0 <= i < auxv.len() && (#[trigger] auxv[i]).kind == kind
    &&& forall|i: int|
        0 <= i < auxv.len() && (#[trigger] auxv[i]).kind == kind ==> auxv[i].value == value
}

/// A program is told where its program headers are in memory, how large and how
/// many they are, the size of a page, where it begins, and where its dynamic
/// linker is if it has one; and nothing else of its image. Its program headers
/// are in the segment that holds them, as far from its beginning as in the file.
pub proof fn law_image_is_described(
    image: &ElfImage,
    bias: usize,
    pagesz: usize,
    ldso_base: Option<usize>,
    r: Vec<AuxEntry>,
)
    requires
        has_aux(image.spec_headers().header, image.spec_headers().ph@, bias),
        call_ensures(aux_vector, (image, bias, pagesz, ldso_base), r),
    ensures
        ({
            let header = image.spec_headers().header;
            let base: int = if header.kind == 3 {
                bias as int
            } else {
                0
            };
            let p = segment_with(image.spec_headers().ph@, (header.ph_offset as usize) as u64)->0;
            &&& says(
                r@,
                3,
                base + p.virtual_addr as usize + (header.ph_offset as usize - p.offset as usize),
            )
            &&& says(r@, 4, header.ph_entry_size as int)
            &&& says(r@, 5, header.ph_count as int)
            &&& says(r@, 6, pagesz as int)
            &&& says(r@, 9, base + header.entry_point as usize)
            &&& ldso_base matches Some(b) ==> says(r@, 7, b as int)
            &&& ldso_base is None ==> forall|i: int| 0 <= i < r@.len() ==> (#[trigger] r@[i]).kind
                != 7
            &&& r@.len() == if ldso_base is Some {
                6int
            } else {
                5
            }
        }),
{
    assert(r@[0].kind == 3 && r@[1].kind == 4 && r@[2].kind == 5 && r@[3].kind == 6 && r@[4].kind
        == 9);
    if ldso_base is Some {
        assert(r@[5].kind == 7);
    }
}

/// The table of program headers is where the header says, as long as it says:
/// it is taken from the beginning of the file if it ends there, and else read,
/// on machines whose addresses reach over all files.
pub proof fn law_table_is_where_the_header_says(
    header: &ElfHeader,
    head_len: usize,
    r: Option<TableSource>,
)
    requires
        usize::BITS == 64,
        call_ensures(table_source, (header, head_len), r),
    ensures
        ({
            let size = header.ph_entry_size * header.ph_count;
            let end = header.ph_offset + size;
            &&& r is None <==> end > u64::MAX
            &&& (r matches Some(TableSource::InHead { .. })) <==> end <= head_len
            &&& r matches Some(TableSource::InHead { start, end }) ==> start == header.ph_offset
                && end - start == size
            &&& r matches Some(TableSource::InFile { offset, len }) ==> offset == header.ph_offset
                && len == size
        }),
{
    assert(header.ph_entry_size * header.ph_count >= 0) by (nonlinear_arith);
}

/// An image is read when the file has a header and its table can be read with
/// it; the header is that of the file, and there is one program header for each
/// whole entry of the table.
pub proof fn law_image_is_what_is_read(
    data: &[u8],
    table: &[u8],
    h: Option<ElfHeader>,
    readable: bool,
    r: Result<ElfImage, HeaderError>,
)
    requires
        call_ensures(read_header, (data,), h),
        h matches Some(header) ==> call_ensures(
            is_table_readable,
            (&header, table@.len() as usize),
            readable,
        ),
        table@.len() <= usize::MAX,
        call_ensures(ElfImage::read, (data, table), r),
    ensures
        r == Err::<ElfImage, HeaderError>(HeaderError::NotElf) <==> h is None,
        r is Ok <==> h is Some && readable,
        r matches Ok(image) ==> {
            &&& image.spec_headers().header == h->0
            &&& image.spec_headers().ph@.len() == table@.len() as int
                / h->0.ph_entry_size as int
        },
{
}

/// The parts of an image can be mapped when each lies in its page as in the
/// file, and no end of one is beyond all addresses or all files; of the other
/// segments only the thread-local data matters, by its end in the file.
pub proof fn law_mappable_parts_lie_as_in_the_file(headers: &ElfHeaders, bias: usize, r: bool)
    requires
        call_ensures(is_mappable, (headers, bias), r),
    ensures
        r <==> forall|i: int|
            0 <= i < headers.ph@.len() ==> {
                let p = #[trigger] headers.ph@[i];
                let at = p.virtual_addr as usize + if headers.header.kind == 3 {
                    bias as int
                } else {
                    0
                };
                &&& p.kind is Load || p.kind is Tls ==> p.offset + p.file_size <= u64::MAX
                &&& p.kind is Load ==> at <= usize::MAX && at % 4096 == p.offset as usize % 4096
                    && p.mem_size as usize + at % 4096 + 4096 <= usize::MAX
            },
{
    let ph = headers.ph@;
    let base = base_of(headers.header, bias);
    if r {
        assert forall|i: int| 0 <= i < ph.len() implies ({
            let p = #[trigger] ph[i];
            let at = p.virtual_addr as usize + if headers.header.kind == 3 {
                bias as int
            } else {
                0
            };
            &&& p.kind is Load || p.kind is Tls ==> p.offset + p.file_size <= u64::MAX
            &&& p.kind is Load ==> at <= usize::MAX && at % 4096 == p.offset as usize % 4096
                && p.mem_size as usize + at % 4096 + 4096 <= usize::MAX
        }) by {
            assert(ph[i].kind is Load || ph[i].kind is Tls ==> segment_mappable(ph[i], base));
        }
    } else {
        let i = choose|i: int|
            0 <= i < ph.len() && ((#[trigger] ph[i]).kind is Load || ph[i].kind is Tls)
                && !segment_mappable(ph[i], base);
        assert(!segment_mappable(ph[i], base));
    }
}

/// Only images that can be loaded anywhere are adjusted, only 64-bit ones, and
/// only on the one architecture on which programs do not do so themselves.
pub proof fn law_adjusted_images_can_be_moved(arch: Arch, header: &ElfHeader, r: bool)
    requires
        call_ensures(is_relocated, (arch, header), r),
    ensures
        r ==> header.is_64 && header.kind == 3,
        r ==> !(arch is X86_64) && !(arch is Aarch64) && !(arch is Loongarch64),
        header.is_64 && header.kind == 3 && arch is Riscv64 ==> r,
{
}

/// The header that names the linker is the first one of that kind.
pub proof fn law_linker_is_the_first_that_is_named(headers: &ElfHeaders, r: Option<ProgramHeader>)
    requires
        call_ensures(interp_header, (headers,), r),
    ensures
        r matches Some(p) ==> exists|i: int|
            0 <= i < headers.ph@.len() && #[trigger] headers.ph@[i] == p && p.kind is Interp && (
            forall|j: int| 0 <= j < i ==> !((#[trigger] headers.ph@[j]).kind is Interp)),
        r is None ==> forall|j: int|
            0 <= j < headers.ph@.len() ==> !((#[trigger] headers.ph@[j]).kind is Interp),
{
    lemma_first_interp(headers.ph@);
}

/// The first header that names a linker, if any does.
proof fn lemma_first_interp(ph: Seq<ProgramHeader>)
    ensures
        interp_of(ph) matches Some(p) ==> exists|i: int|
            0 <= i < ph.len() && #[trigger] ph[i] == p && p.kind is Interp && (forall|j: int|
                0 <= j < i ==> !((#[trigger] ph[j]).kind is Interp)),
        interp_of(ph) is None ==> forall|j: int|
            0 <= j < ph.len() ==> !((#[trigger] ph[j]).kind is Interp),
    decreases ph.len(),
{
    if ph.len() > 0 {
        let rest = ph.skip(1);
        if ph[0].kind is Interp {
            assert(ph[0] == interp_of(ph)->0);
        } else {
            lemma_first_interp(rest);
            if let Some(p) = interp_of(rest) {
                let i = choose|i: int|
                    0 <= i < rest.len() && #[trigger] rest[i] == p && p.kind is Interp && (forall|
                        j: int,
                    |
                        0 <= j < i ==> !((#[trigger] rest[j]).kind is Interp));
                assert(ph[i + 1] == p);
                assert forall|j: int| 0 <= j < i + 1 implies !((#[trigger] ph[j]).kind is Interp) by {
                    if j > 0 {
                        assert(rest[j - 1] == ph[j]);
                    }
                }
            } else {
                assert forall|j: int| 0 <= j < ph.len() implies !((
                #[trigger] ph[j]).kind is Interp) by {
                    if j > 0 {
                        assert(rest[j - 1] == ph[j]);
                    }
                }
            }
        }
    }
}

/// The highest end is one of the ends.
proof fn lemma_max_end_is_reached(ends: Seq<usize>, low: usize)
    requires
        ends.len() > 0,
    ensures
        ends.contains(max_end(ends, low)),
    decreases ends.len(),
{
    let n = ends.len() as int;
    if n == 1 {
        assert(ends[0] == max_end(ends, low));
    } else {
        let init = ends.drop_last();
        lemma_max_end_is_reached(init, low);
        let i = choose|i: int| 0 <= i < init.len() && init[i] == max_end(init, low);
        assert(ends[i] == init[i]);
        assert(ends[n - 1] == ends.last());
    }
}

/// The dynamic linker is loaded at the lowest place behind the program that is a
/// multiple of its distance; if nothing is mapped, so from the bottom on.
pub proof fn law_linker_is_loaded_next_to_the_program(ends: &Vec<usize>, low: usize, r: usize)
    requires
        max_end(ends@, low) + (INTERP_ALIGN - 1) <= usize::MAX,
        call_ensures(interp_base, (ends, low), r),
    ensures
        r % 0x10_0000 == 0,
        forall|i: int| 0 <= i < ends@.len() ==> #[trigger] ends@[i] <= r,
        ends@.len() > 0 ==> exists|i: int|
            0 <= i < ends@.len() && r < #[trigger] ends@[i] + 0x10_0000,
        ends@.len() == 0 ==> low <= r < low + 0x10_0000,
{
    assert forall|i: int| 0 <= i < ends@.len() implies #[trigger] ends@[i] <= r by {
        law_interp_is_behind_the_program(ends@, low, i, r as int);
    }
    if ends@.len() > 0 {
        lemma_max_end_is_reached(ends@, low);
        let i = choose|i: int| 0 <= i < ends@.len() && ends@[i] == max_end(ends@, low);
        assert(r < ends@[i] + 0x10_0000);
    }
}

/// An image can be described exactly if its entry point and its program headers
/// have addresses where it is loaded: some segment holds the headers, and does not
/// begin behind them.
pub proof fn law_describable_images_have_addresses(
    headers: &ElfHeaders,
    bias: usize,
    holder: Option<ProgramHeader>,
    r: bool,
)
    requires
        usize::BITS == 64,
        call_ensures(find_segment, (&headers.ph, headers.header.ph_offset), holder),
        call_ensures(is_describable, (headers, bias), r),
    ensures
        ({
            let header = headers.header;
            let base: int = if header.kind == 3 {
                bias as int
            } else {
                0
            };
            r <==> header.entry_point + base <= usize::MAX && holder is Some
                && holder->0.offset <= header.ph_offset && holder->0.virtual_addr + (
            header.ph_offset - holder->0.offset) + base <= usize::MAX
        }),
{
}

/// The headers of an image are those that it was read with.
pub proof fn law_headers_are_those_read(image: &ElfImage, r: &ElfHeaders)
    requires
        call_ensures(ElfImage::headers, (image,), r),
    ensures
        *r == image.spec_headers(),
{
}

/// A file is an image when it begins with the magic number, is of one of the two
/// classes, and has room for the header of its class; and the header is what
/// stands at the places of its class, lowest byte first.
pub proof fn law_header_is_as_in_the_file(data: &[u8], h: Option<ElfHeader>)
    requires
        call_ensures(read_header, (data,), h),
    ensures
        h is Some <==> {
            &&& data@.len() >= 52
            &&& data@[0] == 127 && data@[1] == 69 && data@[2] == 76 && data@[3] == 70
            &&& data@[4] == 1 || (data@[4] == 2 && data@.len() >= 64)
        },
        h matches Some(header) ==> {
            let d = data@;
            &&& header.is_64 <==> d[4] == 2
            &&& header.kind == number_at(d, 16, 2)
            &&& header.is_64 ==> {
                &&& header.entry_point == number_at(d, 24, 8)
                &&& header.ph_offset == number_at(d, 32, 8)
                &&& header.ph_entry_size == number_at(d, 54, 2)
                &&& header.ph_count == number_at(d, 56, 2)
            }
            &&& !header.is_64 ==> {
                &&& header.entry_point == number_at(d, 24, 4)
                &&& header.ph_offset == number_at(d, 28, 4)
                &&& header.ph_entry_size == number_at(d, 42, 2)
                &&& header.ph_count == number_at(d, 44, 2)
            }
        },
{
    let d = data@;
    lemma_number_bound(d, 16);
    lemma_number_bound(d, 24);
    lemma_number_bound(d, 28);
    lemma_number_bound(d, 32);
    lemma_number_bound(d, 42);
    lemma_number_bound(d, 44);
    lemma_number_bound(d, 54);
    lemma_number_bound(d, 56);
    let m = elf_magic();
    assert(m[0] == 127 && m[1] == 69 && m[2] == 76 && m[3] == 70 && m.len() == 4);
    if d.len() >= 4 {
        let t = d.take(4);
        assert(t[0] == d[0] && t[1] == d[1] && t[2] == d[2] && t[3] == d[3]);
        if d[0] == 127 && d[1] == 69 && d[2] == 76 && d[3] == 70 {
            assert(t =~= m);
        }
    }
}

/// Program header `i` of an image is what stands in entry `i` of the table, at
/// the places of the class of the image, lowest byte first. The numbers 1, 3 and
/// 7 are those of parts of the image, of the name of the linker and of
/// thread-local data.
pub proof fn law_segments_are_as_in_the_file(
    data: &[u8],
    table: &[u8],
    image: ElfImage,
    i: int,
)
    requires
        call_ensures(ElfImage::read, (data, table), Ok(image)),
    ensures
        ({
            let header = image.spec_headers().header;
            let ph = image.spec_headers().ph@;
            let size = header.ph_entry_size as int;
            let at = i * size;
            let t = table@;
            &&& size > 0 && ph.len() == t.len() as int / size
            &&& 0 <= i < ph.len() ==> {
                let p = ph[i];
                let number = number_at(t, at, 4);
                &&& p.kind == SegmentKind::Load <==> number == 1
                &&& p.kind == SegmentKind::Interp <==> number == 3
                &&& p.kind == SegmentKind::Tls <==> number == 7
                &&& header.is_64 ==> {
                    &&& p.flags == number_at(t, at + 4, 4)
                    &&& p.offset == number_at(t, at + 8, 8)
                    &&& p.virtual_addr == number_at(t, at + 16, 8)
                    &&& p.file_size == number_at(t, at + 32, 8)
                    &&& p.mem_size == number_at(t, at + 40, 8)
                }
                &&& !header.is_64 ==> {
                    &&& p.offset == number_at(t, at + 4, 4)
                    &&& p.virtual_addr == number_at(t, at + 8, 4)
                    &&& p.file_size == number_at(t, at + 16, 4)
                    &&& p.mem_size == number_at(t, at + 20, 4)
                    &&& p.flags == number_at(t, at + 24, 4)
                }
            }
        }),
{
    let at = i * image.spec_headers().header.ph_entry_size;
    lemma_number_bound(table@, at);
    lemma_number_bound(table@, at + 4);
    lemma_number_bound(table@, at + 8);
    lemma_number_bound(table@, at + 16);
    lemma_number_bound(table@, at + 20);
    lemma_number_bound(table@, at + 24);
    lemma_number_bound(table@, at + 32);
    lemma_number_bound(table@, at + 40);
}

/// A table can be read when its entries have a size, which has room for a program
/// header if there is an entry, and keeps the entries aligned if there are more.
pub proof fn law_table_entries_have_room(header: &ElfHeader, len: usize, r: bool)
    requires
        call_ensures(is_table_readable, (header, len), r),
    ensures
        ({
            let size = header.ph_entry_size as int;
            let (least, align) = if header.is_64 {
                (56int, 8int)
            } else {
                (32int, 4int)
            };
            r <==> size != 0 && (size <= len ==> size >= least) && (2 * size <= len ==> size % align
                == 0)
        }),
{
}

} // verus!
