use usdt_records::decode::NoSymbols;
use usdt_records::error::Error;
use usdt_records::locate::{
    elf_probe_range, extract_probe_records, locate_probe_records, macho_probe_records, EntryName,
    TableEntry,
};

fn named(name: &str, start: u64, size: u64) -> TableEntry {
    TableEntry { name: EntryName::Found(name.as_bytes().to_vec()), start, size, data: Vec::new() }
}

fn corrupt() -> TableEntry {
    TableEntry { name: EntryName::Corrupt, start: 0, size: 0, data: Vec::new() }
}

fn missing() -> TableEntry {
    TableEntry { name: EntryName::Missing, start: 7, size: 7, data: Vec::new() }
}

fn probe_record() -> Vec<u8> {
    let mut rec = vec![0u8; 4];
    rec.push(1);
    rec.push(0);
    rec.extend(0u16.to_le_bytes());
    rec.extend(0x4000u64.to_le_bytes());
    rec.extend(b"elfprov\0");
    rec.extend(b"elfprobe\0");
    let len = rec.len() as u32;
    rec[0..4].copy_from_slice(&len.to_le_bytes());
    rec
}

fn section_header(name: u32, kind: u32, flags: u64, offset: u64, size: u64) -> Vec<u8> {
    let mut h = Vec::new();
    h.extend(name.to_le_bytes());
    h.extend(kind.to_le_bytes());
    h.extend(flags.to_le_bytes());
    h.extend(0u64.to_le_bytes());
    h.extend(offset.to_le_bytes());
    h.extend(size.to_le_bytes());
    h.extend(0u32.to_le_bytes());
    h.extend(0u32.to_le_bytes());
    h.extend(1u64.to_le_bytes());
    h.extend(0u64.to_le_bytes());
    h
}

/// A small relocatable ELF64 image holding a `set_dtrace_probes` section with one record.
fn tiny_elf() -> (Vec<u8>, usize, usize) {
    let rec = probe_record();
    let strtab = b"\0set_dtrace_probes\0.shstrtab\0";
    let mut img = Vec::new();
    img.extend([0x7f, b'E', b'L', b'F', 2, 1, 1, 0, 0, 0, 0, 0, 0, 0, 0, 0]);
    img.extend(1u16.to_le_bytes());
    img.extend(62u16.to_le_bytes());
    img.extend(1u32.to_le_bytes());
    img.extend(0u64.to_le_bytes());
    img.extend(0u64.to_le_bytes());
    img.extend(256u64.to_le_bytes());
    img.extend(0u32.to_le_bytes());
    img.extend(64u16.to_le_bytes());
    img.extend(56u16.to_le_bytes());
    img.extend(0u16.to_le_bytes());
    img.extend(64u16.to_le_bytes());
    img.extend(3u16.to_le_bytes());
    img.extend(2u16.to_le_bytes());
    assert_eq!(img.len(), 64);
    img.extend(strtab);
    img.resize(96, 0);
    img.extend(&rec);
    img.resize(256, 0);
    img.extend(section_header(0, 0, 0, 0, 0));
    img.extend(section_header(1, 1, 2, 96, rec.len() as u64));
    img.extend(section_header(19, 3, 0, 64, strtab.len() as u64));
    (img, 96, 96 + rec.len())
}

#[test]
fn elf_section_found_by_name() {
    let (img, start, end) = tiny_elf();
    let slice = locate_probe_records(&img).unwrap().unwrap();
    assert_eq!(slice.as_slice(), &img[start..end]);
    let section = extract_probe_records(&img, &NoSymbols).unwrap().unwrap();
    let probe = section.provider(b"elfprov").unwrap().probe(b"elfprobe").unwrap();
    assert_eq!(probe.address, 0x4000);
}

#[test]
fn elf_named_section_wins() {
    let sections = vec![missing(), named(".text", 1, 2), named("set_dtrace_probes", 100, 40)];
    let symbols = vec![named("__start_set_dtrace_probes", 5, 0), named("__stop_set_dtrace_probes", 9, 0)];
    assert_eq!(elf_probe_range(&sections, &symbols), Ok(Some((100, 140))));
}

#[test]
fn elf_falls_back_to_boundary_symbols() {
    let sections = vec![named(".text", 1, 2)];
    let symbols = vec![
        named("main", 1, 0),
        named("__start_set_dtrace_probes", 0x200, 0),
        missing(),
        named("__stop_set_dtrace_probes", 0x280, 0),
    ];
    assert_eq!(elf_probe_range(&sections, &symbols), Ok(Some((0x200, 0x280))));
}

#[test]
fn elf_without_section_or_symbols_has_no_records() {
    let sections = vec![named(".text", 1, 2)];
    let symbols = vec![named("__start_set_dtrace_probes", 0x200, 0)];
    assert_eq!(elf_probe_range(&sections, &symbols), Ok(None));
    assert_eq!(elf_probe_range(&vec![], &vec![]), Ok(None));
}

#[test]
fn elf_corrupt_names_are_invalid() {
    let sections = vec![named(".text", 1, 2), corrupt(), named("set_dtrace_probes", 100, 40)];
    assert_eq!(elf_probe_range(&sections, &vec![]), Err(Error::InvalidFile));
    let symbols = vec![named("__start_set_dtrace_probes", 0x200, 0), corrupt()];
    assert_eq!(elf_probe_range(&vec![], &symbols), Err(Error::InvalidFile));
    let symbols = vec![corrupt(), named("__start_set_dtrace_probes", 0x200, 0)];
    assert_eq!(elf_probe_range(&vec![], &symbols), Err(Error::InvalidFile));
}

#[test]
fn elf_section_range_overflow_is_invalid() {
    let sections = vec![named("set_dtrace_probes", u64::MAX, 2)];
    assert_eq!(elf_probe_range(&sections, &vec![]), Err(Error::InvalidFile));
}

#[test]
fn elf_boundary_symbols_go_by_name() {
    let symbols = vec![
        named("__stop_set_dtrace_probes", 0x280, 0),
        named("__start_set_dtrace_probes", 0x200, 0),
    ];
    assert_eq!(elf_probe_range(&vec![], &symbols), Ok(Some((0x200, 0x280))));
}

#[test]
fn elf_needs_both_boundary_symbols() {
    let symbols = vec![
        named("__start_set_dtrace_probes", 0x200, 0),
        named("__start_set_dtrace_probes", 0x280, 0),
    ];
    assert_eq!(elf_probe_range(&vec![], &symbols), Ok(None));
    let symbols = vec![named("__stop_set_dtrace_probes", 0x280, 0)];
    assert_eq!(elf_probe_range(&vec![], &symbols), Ok(None));
}

#[test]
fn macho_section_data_is_the_records() {
    let mut name = b"__dtrace_probes".to_vec();
    name.push(0);
    let sections = vec![
        named("__text\0\0\0\0\0\0\0\0\0\0", 1, 2),
        TableEntry { name: EntryName::Found(name), start: 0x40, size: 0x20, data: vec![1, 2, 3] },
    ];
    assert_eq!(macho_probe_records(&sections, &None, &[0u8; 0x100]), Ok(Some(vec![1, 2, 3])));
}

#[test]
fn macho_needs_exactly_two_symbols() {
    let file: Vec<u8> = (0u8..64).collect();
    let two = vec![named("___dtrace_probes_start", 0x10, 0), named("_x", 1, 0), named("___dtrace_probes_stop", 0x13, 0)];
    assert_eq!(macho_probe_records(&vec![], &Some(two), &file), Ok(Some(vec![0x10, 0x11, 0x12])));
    let three = vec![
        named("a__dtrace_probes", 1, 0),
        named("b__dtrace_probes", 2, 0),
        named("c__dtrace_probes", 3, 0),
    ];
    assert_eq!(macho_probe_records(&vec![], &Some(three), &file), Ok(None));
    assert_eq!(macho_probe_records(&vec![], &None, &file), Ok(None));
    let outside = vec![named("x__dtrace_probes", 0x10, 0), named("y__dtrace_probes", 0x80, 0)];
    assert_eq!(macho_probe_records(&vec![], &Some(outside), &file), Err(Error::InvalidFile));
}

#[test]
fn macho_corrupt_symbol_is_invalid() {
    let symbols = vec![corrupt(), named("__dtrace_probes", 2, 0)];
    assert_eq!(macho_probe_records(&vec![], &Some(symbols), &[]), Err(Error::InvalidFile));
}

fn elf_header(shoff: u64, shnum: u16, shstrndx: u16) -> Vec<u8> {
    let mut img = Vec::new();
    img.extend([0x7f, b'E', b'L', b'F', 2, 1, 1, 0, 0, 0, 0, 0, 0, 0, 0, 0]);
    img.extend(1u16.to_le_bytes());
    img.extend(62u16.to_le_bytes());
    img.extend(1u32.to_le_bytes());
    img.extend(0u64.to_le_bytes());
    img.extend(0u64.to_le_bytes());
    img.extend(shoff.to_le_bytes());
    img.extend(0u32.to_le_bytes());
    img.extend(64u16.to_le_bytes());
    img.extend(56u16.to_le_bytes());
    img.extend(0u16.to_le_bytes());
    img.extend(64u16.to_le_bytes());
    img.extend(shnum.to_le_bytes());
    img.extend(shstrndx.to_le_bytes());
    img
}

fn symbol(name: u32, value: u64) -> Vec<u8> {
    let mut s = Vec::new();
    s.extend(name.to_le_bytes());
    s.push(0);
    s.push(0);
    s.extend(0u16.to_le_bytes());
    s.extend(value.to_le_bytes());
    s.extend(0u64.to_le_bytes());
    s
}

/// An ELF64 image without a `set_dtrace_probes` section header, whose records lie between the
/// two boundary symbols.
fn elf_with_boundary_symbols() -> (Vec<u8>, usize, usize) {
    let rec = probe_record();
    let shstrtab = b"\0.shstrtab\0.symtab\0.strtab\0";
    let strtab = b"\0__start_set_dtrace_probes\0__stop_set_dtrace_probes\0";
    let mut img = elf_header(288, 4, 1);
    img.extend(shstrtab);
    img.resize(96, 0);
    img.extend(&rec);
    img.resize(160, 0);
    img.extend(strtab);
    img.resize(216, 0);
    img.extend(symbol(0, 0));
    img.extend(symbol(1, 96));
    img.extend(symbol(27, 96 + rec.len() as u64));
    assert_eq!(img.len(), 288);
    img.extend(section_header(0, 0, 0, 0, 0));
    img.extend(section_header(1, 3, 0, 64, shstrtab.len() as u64));
    let mut symtab = section_header(11, 2, 0, 216, 72);
    symtab[40..44].copy_from_slice(&3u32.to_le_bytes());
    symtab[44..48].copy_from_slice(&1u32.to_le_bytes());
    symtab[56..64].copy_from_slice(&24u64.to_le_bytes());
    img.extend(symtab);
    img.extend(section_header(19, 3, 0, 160, strtab.len() as u64));
    (img, 96, 96 + rec.len())
}

/// A 64-bit Mach-O object with one `__dtrace_probes` section holding one record.
fn tiny_macho() -> (Vec<u8>, usize, usize) {
    let rec = probe_record();
    let len = rec.len() as u64;
    let mut img = Vec::new();
    img.extend(0xfeedfacfu32.to_le_bytes());
    img.extend(0x0100_0007u32.to_le_bytes());
    img.extend(3u32.to_le_bytes());
    img.extend(1u32.to_le_bytes());
    img.extend(1u32.to_le_bytes());
    img.extend(152u32.to_le_bytes());
    img.extend(0u32.to_le_bytes());
    img.extend(0u32.to_le_bytes());
    img.extend(0x19u32.to_le_bytes());
    img.extend(152u32.to_le_bytes());
    img.extend([0u8; 16]);
    img.extend(0u64.to_le_bytes());
    img.extend(len.to_le_bytes());
    img.extend(184u64.to_le_bytes());
    img.extend(len.to_le_bytes());
    img.extend(7u32.to_le_bytes());
    img.extend(7u32.to_le_bytes());
    img.extend(1u32.to_le_bytes());
    img.extend(0u32.to_le_bytes());
    img.extend(b"__dtrace_probes\0");
    let mut seg = b"__DATA".to_vec();
    seg.resize(16, 0);
    img.extend(seg);
    img.extend(0u64.to_le_bytes());
    img.extend(len.to_le_bytes());
    img.extend(184u32.to_le_bytes());
    img.extend([0u8; 28]);
    assert_eq!(img.len(), 184);
    img.extend(&rec);
    (img, 184, 184 + rec.len())
}

#[test]
fn elf_boundary_symbols_found_in_image() {
    let (img, start, end) = elf_with_boundary_symbols();
    let slice = locate_probe_records(&img).unwrap().unwrap();
    assert_eq!(slice.as_slice(), &img[start..end]);
    let section = extract_probe_records(&img, &NoSymbols).unwrap().unwrap();
    assert!(section.provider(b"elfprov").unwrap().probe(b"elfprobe").is_some());
}

#[test]
fn macho_section_found_in_image() {
    let (img, start, end) = tiny_macho();
    let slice = locate_probe_records(&img).unwrap().unwrap();
    assert_eq!(slice.as_slice(), &img[start..end]);
    let section = extract_probe_records(&img, &NoSymbols).unwrap().unwrap();
    let probe = section.provider(b"elfprov").unwrap().probe(b"elfprobe").unwrap();
    assert_eq!(probe.address, 0x4000);
}

#[test]
fn elf_without_probes_has_no_records() {
    let shstrtab = b"\0.shstrtab\0";
    let mut img = elf_header(128, 2, 1);
    img.extend(shstrtab);
    img.resize(128, 0);
    img.extend(section_header(0, 0, 0, 0, 0));
    img.extend(section_header(1, 3, 0, 64, shstrtab.len() as u64));
    assert!(matches!(locate_probe_records(&img), Ok(None)));
    assert!(matches!(extract_probe_records(&img, &NoSymbols), Ok(None)));
}
