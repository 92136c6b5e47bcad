use a9nloader::bmp::get_bmp_dimensions;
use a9nloader::elf::{
    compare_from_index, find_address_from_symbol_name, parse_elf, ProgramSegment, SectionHeader,
    PT_LOAD, SHT_STRTAB, SHT_SYMTAB,
};
use a9nloader::error::BootError;
use a9nloader::util::{bytes_to_pages, bytes_to_pages_rounded};

fn put_u16(buf: &mut [u8], off: usize, v: u16) {
    buf[off..off + 2].copy_from_slice(&v.to_le_bytes());
}

fn put_u32(buf: &mut [u8], off: usize, v: u32) {
    buf[off..off + 4].copy_from_slice(&v.to_le_bytes());
}

fn put_u64(buf: &mut [u8], off: usize, v: u64) {
    buf[off..off + 8].copy_from_slice(&v.to_le_bytes());
}

fn elf_header(entry: u64, ph_count: u16, sh_count: u16, sh_off: u64) -> Vec<u8> {
    let mut h = vec![0u8; 64];
    h[0] = 0x7f;
    h[1] = 0x45;
    h[2] = 0x4c;
    h[3] = 0x46;
    h[4] = 2;
    h[5] = 1;
    put_u64(&mut h, 24, entry);
    if ph_count > 0 {
        put_u64(&mut h, 32, 64);
        put_u16(&mut h, 54, 56);
    }
    put_u16(&mut h, 56, ph_count);
    if sh_count > 0 {
        put_u64(&mut h, 40, sh_off);
        put_u16(&mut h, 58, 64);
    }
    put_u16(&mut h, 60, sh_count);
    h
}

fn program_header(p_type: u32, offset: u64, vaddr: u64, paddr: u64, filesz: u64, memsz: u64) -> Vec<u8> {
    let mut ph = vec![0u8; 56];
    put_u32(&mut ph, 0, p_type);
    put_u64(&mut ph, 8, offset);
    put_u64(&mut ph, 16, vaddr);
    put_u64(&mut ph, 24, paddr);
    put_u64(&mut ph, 32, filesz);
    put_u64(&mut ph, 40, memsz);
    ph
}

fn section_header(sh_type: u32, link: u32, offset: u64, size: u64) -> Vec<u8> {
    let mut sh = vec![0u8; 64];
    put_u32(&mut sh, 4, sh_type);
    put_u64(&mut sh, 24, offset);
    put_u64(&mut sh, 32, size);
    put_u32(&mut sh, 40, link);
    sh
}

fn symbol_entry(name_offset: u32, value: u64) -> Vec<u8> {
    let mut e = vec![0u8; 24];
    put_u32(&mut e, 0, name_offset);
    put_u64(&mut e, 8, value);
    e
}

/// Two sections: a symbol table holding "alpha" -> 0x1000 and
/// "beta" -> 0x2000, and its string table.
fn elf_with_symbols() -> Vec<u8> {
    let mut bytes = elf_header(0xBEEF, 0, 2, 64);
    bytes.extend(section_header(SHT_SYMTAB, 1, 192, 48));
    bytes.extend(section_header(SHT_STRTAB, 0, 240, 12));
    bytes.extend(symbol_entry(1, 0x1000));
    bytes.extend(symbol_entry(7, 0x2000));
    bytes.extend(b"\0alpha\0beta\0");
    assert_eq!(bytes.len(), 252);
    bytes
}

#[test]
fn parse_empty_buffer_is_parse_error() {
    assert_eq!(parse_elf(&[]).unwrap_err(), BootError::ParseError);
}

#[test]
fn parse_short_buffer_is_parse_error() {
    assert_eq!(parse_elf(&[0x7f, 0x45, 0x4c, 0x46, 2, 1]).unwrap_err(), BootError::ParseError);
}

#[test]
fn parse_wrong_magic_is_parse_error() {
    let mut bytes = elf_header(0, 0, 0, 0);
    bytes[0] = 0x7e;
    assert_eq!(parse_elf(&bytes).unwrap_err(), BootError::ParseError);
}

#[test]
fn parse_wrong_class_is_parse_error() {
    let mut bytes = elf_header(0, 0, 0, 0);
    bytes[4] = 1;
    assert_eq!(parse_elf(&bytes).unwrap_err(), BootError::ParseError);
}

#[test]
fn parse_wrong_encoding_is_parse_error() {
    let mut bytes = elf_header(0, 0, 0, 0);
    bytes[5] = 2;
    assert_eq!(parse_elf(&bytes).unwrap_err(), BootError::ParseError);
}

#[test]
fn parse_truncated_program_table_is_parse_error() {
    // the header declares one program header but the buffer ends at 64
    let bytes = elf_header(0, 1, 0, 0);
    assert_eq!(parse_elf(&bytes).unwrap_err(), BootError::ParseError);
}

#[test]
fn parse_truncated_section_table_is_parse_error() {
    // the header declares two section headers but only one fits the buffer
    let mut bytes = elf_header(0, 0, 2, 64);
    bytes.extend(section_header(SHT_STRTAB, 0, 0, 0));
    assert_eq!(parse_elf(&bytes).unwrap_err(), BootError::ParseError);
}

#[test]
fn parse_minimal_wellformed_buffer() {
    let bytes = elf_header(0xFFFF_8000_0010_0000, 0, 0, 0);
    let image = parse_elf(&bytes).unwrap();
    assert_eq!(image.entry_point, 0xFFFF_8000_0010_0000);
    assert_eq!(image.segments.len(), 0);
    assert_eq!(image.sections.len(), 0);
}

#[test]
fn parse_reads_program_and_section_headers() {
    let mut bytes = elf_header(0x1234, 2, 1, 64 + 2 * 56);
    bytes.extend(program_header(PT_LOAD, 0x200, 0xFFFF_8000_0000_0000, 0x10_0000, 0x80, 0x100));
    bytes.extend(program_header(4, 0, 0, 0, 0, 0));
    bytes.extend(section_header(SHT_STRTAB, 7, 0x300, 0x10));
    let image = parse_elf(&bytes).unwrap();
    assert_eq!(image.entry_point, 0x1234);
    assert_eq!(
        image.segments[0],
        ProgramSegment {
            segment_type: PT_LOAD,
            physical_address: 0x10_0000,
            virtual_address: 0xFFFF_8000_0000_0000,
            file_offset: 0x200,
            file_size: 0x80,
            mem_size: 0x100,
        }
    );
    assert_eq!(image.segments[1].segment_type, 4);
    assert_eq!(
        image.sections[0],
        SectionHeader { section_type: SHT_STRTAB, link: 7, offset: 0x300, size: 0x10 }
    );
}

#[test]
fn symbol_lookup_finds_beta() {
    let bytes = elf_with_symbols();
    let image = parse_elf(&bytes).unwrap();
    assert_eq!(find_address_from_symbol_name(&bytes, &image, b"beta").unwrap(), 0x2000);
    assert_eq!(find_address_from_symbol_name(&bytes, &image, b"alpha").unwrap(), 0x1000);
}

#[test]
fn symbol_lookup_gamma_is_not_found() {
    let bytes = elf_with_symbols();
    let image = parse_elf(&bytes).unwrap();
    assert_eq!(
        find_address_from_symbol_name(&bytes, &image, b"gamma").unwrap_err(),
        BootError::SymbolNotFound
    );
}

#[test]
fn symbol_lookup_without_sections_is_not_found() {
    let bytes = elf_header(0, 0, 0, 0);
    let image = parse_elf(&bytes).unwrap();
    assert_eq!(
        find_address_from_symbol_name(&bytes, &image, b"alpha").unwrap_err(),
        BootError::SymbolNotFound
    );
}

#[test]
fn symbol_lookup_skips_broken_string_table_link() {
    let mut bytes = elf_header(0, 0, 2, 64);
    // symbol table linked to a section index that does not exist
    bytes.extend(section_header(SHT_SYMTAB, 9, 192, 48));
    bytes.extend(section_header(SHT_STRTAB, 0, 240, 12));
    bytes.extend(symbol_entry(1, 0x1000));
    bytes.extend(symbol_entry(7, 0x2000));
    bytes.extend(b"\0alpha\0beta\0");
    let image = parse_elf(&bytes).unwrap();
    assert_eq!(
        find_address_from_symbol_name(&bytes, &image, b"beta").unwrap_err(),
        BootError::SymbolNotFound
    );
}

#[test]
fn symbol_lookup_out_of_bounds_name_offset_is_no_match() {
    let mut bytes = elf_with_symbols();
    // overwrite the second entry's name offset to point past the string table
    put_u32(&mut bytes, 192 + 24, 100);
    let image = parse_elf(&bytes).unwrap();
    assert_eq!(
        find_address_from_symbol_name(&bytes, &image, b"beta").unwrap_err(),
        BootError::SymbolNotFound
    );
}

#[test]
fn compare_from_index_matches_exactly() {
    let table = b"\0alpha\0beta\0";
    assert!(compare_from_index(table, 7, b"beta"));
    assert!(!compare_from_index(table, 1, b"beta"));
    assert!(!compare_from_index(table, 9, b"beta"));
    // an offset running past the table is no match, not an error
    assert!(!compare_from_index(table, 100, b"beta"));
    assert!(!compare_from_index(table, usize::MAX, b"beta"));
}

#[test]
fn bytes_to_pages_rounds_up() {
    assert_eq!(bytes_to_pages(0), 0);
    assert_eq!(bytes_to_pages(1), 1);
    assert_eq!(bytes_to_pages(4096), 1);
    assert_eq!(bytes_to_pages(4097), 2);
    assert_eq!(bytes_to_pages(30), 1);
}

#[test]
fn bytes_to_pages_rounded_has_floor_of_one() {
    assert_eq!(bytes_to_pages_rounded(0), 1);
    assert_eq!(bytes_to_pages_rounded(1), 1);
    assert_eq!(bytes_to_pages_rounded(8192), 2);
}

#[test]
fn bmp_dimensions_read_width_and_height() {
    let mut header = vec![0u8; 54];
    put_u32(&mut header, 18, 100);
    put_u32(&mut header, 22, (-50i32) as u32);
    assert_eq!(get_bmp_dimensions(&header), Some((100, 50)));
    put_u32(&mut header, 22, 50);
    assert_eq!(get_bmp_dimensions(&header), Some((100, 50)));
}

#[test]
fn bmp_dimensions_of_short_header_are_none() {
    assert_eq!(get_bmp_dimensions(&[0u8; 18]), None);
    assert_eq!(get_bmp_dimensions(&[]), None);
}
