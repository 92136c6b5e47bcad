//! ELF64 little-endian binary parser and symbol resolver.
//!
//! The parser validates the format markers and table bounds of a raw byte
//! buffer and exposes a structured view: entry point, program headers and
//! section headers. The resolver walks the symbol-table sections of a parsed
//! image and returns the value of a named symbol.

use vstd::prelude::*;
use vstd::bytes::{spec_u16_from_le_bytes, spec_u32_from_le_bytes, spec_u64_from_le_bytes};
use vstd::bytes::{u16_from_le_bytes, u32_from_le_bytes, u64_from_le_bytes};
use vstd::slice::slice_subrange;

use crate::error::BootError;

verus! {

/// Program header type of a segment whose bytes must be placed in memory.
pub const PT_LOAD: u32 = 1;

/// Section header type of a symbol table.
pub const SHT_SYMTAB: u32 = 2;

/// Section header type of a string table.
pub const SHT_STRTAB: u32 = 3;

/// One program header: the placement-relevant fields of a segment.
#[derive(Clone, Copy, Debug, PartialEq, Eq, Structural)]
pub struct ProgramSegment {
    pub segment_type: u32,
    pub physical_address: u64,
    pub virtual_address: u64,
    pub file_offset: u64,
    pub file_size: u64,
    pub mem_size: u64,
}

/// One section header: its type, the index of its associated section
/// (for a symbol table, its string table), and where its data lies.
#[derive(Clone, Copy, Debug, PartialEq, Eq, Structural)]
pub struct SectionHeader {
    pub section_type: u32,
    pub link: u32,
    pub offset: u64,
    pub size: u64,
}

/// Structured view over an ELF64 buffer: entry virtual address and the two
/// header tables. The raw buffer stays with the caller; section and symbol
/// data are read from it on demand.
#[derive(Debug, PartialEq, Eq)]
pub struct Image {
    pub entry_point: u64,
    pub segments: Vec<ProgramSegment>,
    pub sections: Vec<SectionHeader>,
}

/// The 16-bit little-endian value at `off`.
pub open spec fn spec_le16(s: Seq<u8>, off: int) -> u16 {
    spec_u16_from_le_bytes(s.subrange(off, off + 2))
}

/// The 32-bit little-endian value at `off`.
pub open spec fn spec_le32(s: Seq<u8>, off: int) -> u32 {
    spec_u32_from_le_bytes(s.subrange(off, off + 4))
}

/// The 64-bit little-endian value at `off`.
pub open spec fn spec_le64(s: Seq<u8>, off: int) -> u64 {
    spec_u64_from_le_bytes(s.subrange(off, off + 8))
}

fn read_u16_le(bytes: &[u8], off: usize) -> (r: u16)
    requires
        off + 2 <= bytes.len(),
    ensures
        r == spec_le16(bytes@, off as int),
{
    u16_from_le_bytes(slice_subrange(bytes, off, off + 2))
}

fn read_u32_le(bytes: &[u8], off: usize) -> (r: u32)
    requires
        off + 4 <= bytes.len(),
    ensures
        r == spec_le32(bytes@, off as int),
{
    u32_from_le_bytes(slice_subrange(bytes, off, off + 4))
}

fn read_u64_le(bytes: &[u8], off: usize) -> (r: u64)
    requires
        off + 8 <= bytes.len(),
    ensures
        r == spec_le64(bytes@, off as int),
{
    u64_from_le_bytes(slice_subrange(bytes, off, off + 8))
}

/// Size of the ELF64 file header.
pub const ELF_HEADER_SIZE: usize = 64;

/// Size of one ELF64 program header table entry.
pub const PROGRAM_HEADER_SIZE: usize = 56;

/// Size of one ELF64 section header table entry.
pub const SECTION_HEADER_SIZE: usize = 64;

/// The buffer is long enough for a file header and carries the expected
/// format markers: ELF magic, 64-bit class, little-endian encoding.
pub open spec fn spec_marker_ok(s: Seq<u8>) -> bool {
    &&& s.len() >= ELF_HEADER_SIZE
    &&& s[0] == 0x7f
    &&& s[1] == 0x45
    &&& s[2] == 0x4c
    &&& s[3] == 0x46
    &&& s[4] == 2
    &&& s[5] == 1
}

pub open spec fn spec_entry_point(s: Seq<u8>) -> u64 {
    spec_le64(s, 24)
}

pub open spec fn spec_ph_offset(s: Seq<u8>) -> u64 {
    spec_le64(s, 32)
}

pub open spec fn spec_sh_offset(s: Seq<u8>) -> u64 {
    spec_le64(s, 40)
}

pub open spec fn spec_ph_entry_size(s: Seq<u8>) -> u16 {
    spec_le16(s, 54)
}

pub open spec fn spec_ph_count(s: Seq<u8>) -> u16 {
    spec_le16(s, 56)
}

pub open spec fn spec_sh_entry_size(s: Seq<u8>) -> u16 {
    spec_le16(s, 58)
}

pub open spec fn spec_sh_count(s: Seq<u8>) -> u16 {
    spec_le16(s, 60)
}

/// A nonempty program header table lies inside the buffer, with the entry
/// size the ELF64 layout fixes.
pub open spec fn spec_ph_table_ok(s: Seq<u8>) -> bool {
    spec_ph_count(s) == 0 || {
        &&& spec_ph_entry_size(s) == PROGRAM_HEADER_SIZE
        &&& spec_ph_offset(s) + spec_ph_count(s) * PROGRAM_HEADER_SIZE <= s.len()
    }
}

/// A nonempty section header table lies inside the buffer, with the entry
/// size the ELF64 layout fixes.
pub open spec fn spec_sh_table_ok(s: Seq<u8>) -> bool {
    spec_sh_count(s) == 0 || {
        &&& spec_sh_entry_size(s) == SECTION_HEADER_SIZE
        &&& spec_sh_offset(s) + spec_sh_count(s) * SECTION_HEADER_SIZE <= s.len()
    }
}

/// A buffer parses exactly when its markers and both header tables are good.
pub open spec fn spec_parse_ok(s: Seq<u8>) -> bool {
    spec_marker_ok(s) && spec_ph_table_ok(s) && spec_sh_table_ok(s)
}

/// A buffer shorter than a file header, or one whose format markers are
/// wrong, never parses.
pub proof fn lemma_malformed_never_parses(s: Seq<u8>)
    ensures
        s.len() < ELF_HEADER_SIZE ==> !spec_parse_ok(s),
        !spec_marker_ok(s) ==> !spec_parse_ok(s),
{
}

/// The `i`-th program header of the buffer.
pub open spec fn spec_segment(s: Seq<u8>, i: int) -> ProgramSegment {
    let base = spec_ph_offset(s) + i * PROGRAM_HEADER_SIZE;
    ProgramSegment {
        segment_type: spec_le32(s, base),
        physical_address: spec_le64(s, base + 24),
        virtual_address: spec_le64(s, base + 16),
        file_offset: spec_le64(s, base + 8),
        file_size: spec_le64(s, base + 32),
        mem_size: spec_le64(s, base + 40),
    }
}

/// The `i`-th section header of the buffer.
pub open spec fn spec_section(s: Seq<u8>, i: int) -> SectionHeader {
    let base = spec_sh_offset(s) + i * SECTION_HEADER_SIZE;
    SectionHeader {
        section_type: spec_le32(s, base + 4),
        link: spec_le32(s, base + 40),
        offset: spec_le64(s, base + 24),
        size: spec_le64(s, base + 32),
    }
}

/// The program header table of the buffer, as a sequence.
pub open spec fn spec_segments_of(s: Seq<u8>) -> Seq<ProgramSegment> {
    Seq::new(spec_ph_count(s) as nat, |i: int| spec_segment(s, i))
}

/// The section header table of the buffer, as a sequence.
pub open spec fn spec_sections_of(s: Seq<u8>) -> Seq<SectionHeader> {
    Seq::new(spec_sh_count(s) as nat, |i: int| spec_section(s, i))
}

/// The image `img` is the structured view of the buffer `s`.
pub open spec fn spec_is_image_of(img: Image, s: Seq<u8>) -> bool {
    &&& img.entry_point == spec_entry_point(s)
    &&& img.segments@ == spec_segments_of(s)
    &&& img.sections@ == spec_sections_of(s)
}

/// Validates the buffer and exposes its structured view. Fails with
/// `ParseError` exactly when the buffer is shorter than a file header,
/// carries wrong format markers, or declares a header table that does not
/// fit the buffer.
#[verifier::loop_isolation(false)]
pub fn parse_elf(bytes: &[u8]) -> (r: Result<Image, BootError>)
    ensures
        r is Ok <==> spec_parse_ok(bytes@),
        r matches Ok(img) ==> spec_is_image_of(img, bytes@),
        r matches Err(e) ==> e == BootError::ParseError,
{
    let len = bytes.len();
    if len < ELF_HEADER_SIZE {
        return Err(BootError::ParseError);
    }
    if !(bytes[0] == 0x7f && bytes[1] == 0x45 && bytes[2] == 0x4c && bytes[3] == 0x46) {
        return Err(BootError::ParseError);
    }
    if !(bytes[4] == 2 && bytes[5] == 1) {
        return Err(BootError::ParseError);
    }

    let entry_point = read_u64_le(bytes, 24);
    let ph_offset = read_u64_le(bytes, 32);
    let sh_offset = read_u64_le(bytes, 40);
    let ph_entry_size = read_u16_le(bytes, 54);
    let ph_count = read_u16_le(bytes, 56);
    let sh_entry_size = read_u16_le(bytes, 58);
    let sh_count = read_u16_le(bytes, 60);

    if ph_count > 0 {
        if ph_entry_size as usize != PROGRAM_HEADER_SIZE {
            return Err(BootError::ParseError);
        }
        let table_len = (ph_count as u64) * (PROGRAM_HEADER_SIZE as u64);
        if ph_offset > len as u64 || table_len > len as u64 - ph_offset {
            return Err(BootError::ParseError);
        }
    }
    if sh_count > 0 {
        if sh_entry_size as usize != SECTION_HEADER_SIZE {
            return Err(BootError::ParseError);
        }
        let table_len = (sh_count as u64) * (SECTION_HEADER_SIZE as u64);
        if sh_offset > len as u64 || table_len > len as u64 - sh_offset {
            return Err(BootError::ParseError);
        }
    }

    let mut segments: Vec<ProgramSegment> = Vec::new();
    let mut i: usize = 0;
    while i < ph_count as usize
        invariant
            spec_parse_ok(bytes@),
            ph_count == spec_ph_count(bytes@),
            ph_offset == spec_ph_offset(bytes@),
            ph_count > 0 ==> ph_offset + ph_count * PROGRAM_HEADER_SIZE <= bytes@.len(),
            i <= ph_count,
            segments@.len() == i,
            forall|j: int| 0 <= j < i ==> segments@[j] == spec_segment(bytes@, j),
        decreases ph_count - i,
    {
        let base = (ph_offset as usize) + i * PROGRAM_HEADER_SIZE;
        let seg = ProgramSegment {
            segment_type: read_u32_le(bytes, base),
            physical_address: read_u64_le(bytes, base + 24),
            virtual_address: read_u64_le(bytes, base + 16),
            file_offset: read_u64_le(bytes, base + 8),
            file_size: read_u64_le(bytes, base + 32),
            mem_size: read_u64_le(bytes, base + 40),
        };
        segments.push(seg);
        i = i + 1;
    }

    let mut sections: Vec<SectionHeader> = Vec::new();
    let mut k: usize = 0;
    while k < sh_count as usize
        invariant
            spec_parse_ok(bytes@),
            sh_count == spec_sh_count(bytes@),
            sh_offset == spec_sh_offset(bytes@),
            sh_count > 0 ==> sh_offset + sh_count * SECTION_HEADER_SIZE <= bytes@.len(),
            k <= sh_count,
            sections@.len() == k,
            forall|j: int| 0 <= j < k ==> sections@[j] == spec_section(bytes@, j),
        decreases sh_count - k,
    {
        let base = (sh_offset as usize) + k * SECTION_HEADER_SIZE;
        let sec = SectionHeader {
            section_type: read_u32_le(bytes, base + 4),
            link: read_u32_le(bytes, base + 40),
            offset: read_u64_le(bytes, base + 24),
            size: read_u64_le(bytes, base + 32),
        };
        sections.push(sec);
        k = k + 1;
    }

    let image = Image { entry_point, segments, sections };
    proof {
        assert(image.segments@ =~= spec_segments_of(bytes@));
        assert(image.sections@ =~= spec_sections_of(bytes@));
    }
    Ok(image)
}

/// Size of one 64-bit symbol table entry.
pub const SYMBOL_ENTRY_SIZE: usize = 24;

/// The raw data of section `sec` lies inside the buffer.
pub open spec fn spec_section_in_bounds(s: Seq<u8>, sec: SectionHeader) -> bool {
    sec.offset + sec.size <= s.len()
}

/// The raw data of section `sec`.
pub open spec fn spec_section_data(s: Seq<u8>, sec: SectionHeader) -> Seq<u8> {
    s.subrange(sec.offset as int, sec.offset + sec.size)
}

/// The string table linked by symbol-table section `sec`: present exactly
/// when the link names a string-table section whose data lies inside the
/// buffer; a broken link yields nothing.
pub open spec fn spec_linked_strtab(
    s: Seq<u8>,
    sections: Seq<SectionHeader>,
    sec: SectionHeader,
) -> Option<Seq<u8>> {
    if sec.link < sections.len() && sections[sec.link as int].section_type == SHT_STRTAB
        && spec_section_in_bounds(s, sections[sec.link as int]) {
        Some(spec_section_data(s, sections[sec.link as int]))
    } else {
        None
    }
}

/// The requested name equals the `name.len()` bytes of the string table
/// starting at `index`; an out-of-bounds offset or length is no match.
pub open spec fn spec_name_matches(strtab: Seq<u8>, index: int, name: Seq<u8>) -> bool {
    &&& index + name.len() <= strtab.len()
    &&& strtab.subrange(index, index + name.len()) == name
}

/// Name offset of the `j`-th symbol entry of a symbol table's data.
pub open spec fn spec_symbol_name_offset(data: Seq<u8>, j: int) -> u32 {
    spec_le32(data, j * SYMBOL_ENTRY_SIZE)
}

/// Value of the `j`-th symbol entry of a symbol table's data.
pub open spec fn spec_symbol_value(data: Seq<u8>, j: int) -> u64 {
    spec_le64(data, j * SYMBOL_ENTRY_SIZE + 8)
}

/// Value of the first symbol entry at index `j` or later whose name matches.
pub open spec fn spec_match_from(data: Seq<u8>, strtab: Seq<u8>, name: Seq<u8>, j: int) -> Option<
    u64,
>
    decreases data.len() as int / SYMBOL_ENTRY_SIZE as int - j,
{
    if j < 0 || j >= data.len() as int / SYMBOL_ENTRY_SIZE as int {
        None
    } else if spec_name_matches(strtab, spec_symbol_name_offset(data, j) as int, name) {
        Some(spec_symbol_value(data, j))
    } else {
        spec_match_from(data, strtab, name, j + 1)
    }
}

/// What searching section `i` alone yields: a value only for a symbol-table
/// section whose data and linked string table are sound and which holds a
/// matching entry.
pub open spec fn spec_section_result(
    s: Seq<u8>,
    sections: Seq<SectionHeader>,
    name: Seq<u8>,
    i: int,
) -> Option<u64> {
    let sec = sections[i];
    if sec.section_type == SHT_SYMTAB && spec_section_in_bounds(s, sec) {
        match spec_linked_strtab(s, sections, sec) {
            Some(strtab) => spec_match_from(spec_section_data(s, sec), strtab, name, 0),
            None => None,
        }
    } else {
        None
    }
}

/// What the first section at index `i` or later yielding a match returns.
pub open spec fn spec_find_from(
    s: Seq<u8>,
    sections: Seq<SectionHeader>,
    name: Seq<u8>,
    i: int,
) -> Option<u64>
    decreases sections.len() - i,
{
    if i < 0 || i >= sections.len() {
        None
    } else if spec_section_result(s, sections, name, i) is Some {
        spec_section_result(s, sections, name, i)
    } else {
        spec_find_from(s, sections, name, i + 1)
    }
}

/// The address the symbol resolver returns for `name`: the first
/// symbol-table section in document order wins, and within it the first
/// matching entry.
pub open spec fn spec_find_symbol(s: Seq<u8>, sections: Seq<SectionHeader>, name: Seq<u8>) -> Option<
    u64,
> {
    spec_find_from(s, sections, name, 0)
}

/// The `name.len()` string-table bytes at `index` equal `name`, compared
/// byte for byte; out-of-bounds reads count as a mismatch, not an error.
#[verifier::loop_isolation(false)]
pub fn compare_from_index(string_table: &[u8], index: usize, symbol_name: &[u8]) -> (r: bool)
    ensures
        r == spec_name_matches(string_table@, index as int, symbol_name@),
{
    let n = string_table.len();
    let target_length = symbol_name.len();
    if index > n || n - index < target_length {
        return false;
    }
    let mut i: usize = 0;
    while i < target_length
        invariant
            index + target_length <= string_table.len(),
            target_length == symbol_name.len(),
            i <= target_length,
            forall|t: int|
                0 <= t < i ==> string_table@[index + t] == symbol_name@[t],
        decreases target_length - i,
    {
        if string_table[index + i] != symbol_name[i] {
            return false;
        }
        i = i + 1;
    }
    proof {
        assert(string_table@.subrange(index as int, index + symbol_name@.len()) =~= symbol_name@);
    }
    true
}

/// Resolves the string table linked by symbol-table section `sec`.
fn lookup_string_table<'a>(bytes: &'a [u8], image: &Image, sec: &SectionHeader) -> (r: Option<
    &'a [u8],
>)
    ensures
        match spec_linked_strtab(bytes@, image.sections@, *sec) {
            Some(t) => r matches Some(rt) && rt@ == t,
            None => r is None,
        },
{
    let link = sec.link as usize;
    if link >= image.sections.len() {
        return None;
    }
    let target = image.sections[link];
    if target.section_type != SHT_STRTAB {
        return None;
    }
    let n = bytes.len();
    if target.offset > n as u64 || target.size > n as u64 - target.offset {
        return None;
    }
    Some(slice_subrange(bytes, target.offset as usize, (target.offset + target.size) as usize))
}

/// Scans the 64-bit entries of symbol-table section `sec` for the first one
/// whose name matches; yields nothing when the section data lies outside the
/// buffer.
#[verifier::loop_isolation(false)]
fn lookup_address_in_symbol_table(
    bytes: &[u8],
    sec: &SectionHeader,
    string_table: &[u8],
    symbol_name: &[u8],
) -> (r: Option<u64>)
    ensures
        r == if spec_section_in_bounds(bytes@, *sec) {
            spec_match_from(
                spec_section_data(bytes@, *sec),
                string_table@,
                symbol_name@,
                0,
            )
        } else {
            None::<u64>
        },
{
    let n = bytes.len();
    if sec.offset > n as u64 || sec.size > n as u64 - sec.offset {
        return None;
    }
    let data = slice_subrange(bytes, sec.offset as usize, (sec.offset + sec.size) as usize);
    let count = data.len() / SYMBOL_ENTRY_SIZE;
    let ghost dataview = spec_section_data(bytes@, *sec);
    let mut j: usize = 0;
    while j < count
        invariant
            data@ == dataview,
            count == data@.len() as int / SYMBOL_ENTRY_SIZE as int,
            count * SYMBOL_ENTRY_SIZE <= data@.len(),
            j <= count,
            spec_match_from(dataview, string_table@, symbol_name@, 0) == spec_match_from(
                dataview,
                string_table@,
                symbol_name@,
                j as int,
            ),
        decreases count - j,
    {
        let name_offset = read_u32_le(data, j * SYMBOL_ENTRY_SIZE);
        if compare_from_index(string_table, name_offset as usize, symbol_name) {
            let value = read_u64_le(data, j * SYMBOL_ENTRY_SIZE + 8);
            return Some(value);
        }
        j = j + 1;
    }
    None
}

/// Finds the value of the symbol named `symbol_name` in the parsed image:
/// the first matching entry of the first symbol-table section that yields
/// one, searching sections in document order. Fails with `SymbolNotFound`
/// exactly when no section yields a match.
#[verifier::loop_isolation(false)]
pub fn find_address_from_symbol_name(bytes: &[u8], image: &Image, symbol_name: &[u8]) -> (r: Result<
    u64,
    BootError,
>)
    ensures
        spec_find_symbol(bytes@, image.sections@, symbol_name@) matches Some(v) ==> (r matches Ok(
            a,
        ) && a == v),
        spec_find_symbol(bytes@, image.sections@, symbol_name@) is None ==> (r matches Err(e) && e
            == BootError::SymbolNotFound),
{
    let n_sections = image.sections.len();
    let mut i: usize = 0;
    while i < n_sections
        invariant
            n_sections == image.sections@.len(),
            i <= n_sections,
            spec_find_from(bytes@, image.sections@, symbol_name@, 0) == spec_find_from(
                bytes@,
                image.sections@,
                symbol_name@,
                i as int,
            ),
        decreases n_sections - i,
    {
        let sec = image.sections[i];
        if sec.section_type == SHT_SYMTAB {
            if let Some(string_table) = lookup_string_table(bytes, image, &sec) {
                if let Some(address) = lookup_address_in_symbol_table(
                    bytes,
                    &sec,
                    string_table,
                    symbol_name,
                ) {
                    return Ok(address);
                }
            }
        }
        proof {
            assert(spec_section_result(bytes@, image.sections@, symbol_name@, i as int) is None);
        }
        i = i + 1;
    }
    Err(BootError::SymbolNotFound)
}

} // verus!
