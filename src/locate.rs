//! Finding the probe-record section in an ELF or Mach-O image.
use vstd::prelude::*;

use crate::decode::{process_section, section_outcome, SymbolResolver};
use crate::error::Error;
use crate::model::{bytes_eq, Section};
use crate::record::copy_bytes;
use vstd::slice::slice_subrange;

verus! {

/// The container format of an artifact, as far as locating probe records goes.
#[derive(Debug, Clone, Copy, PartialEq, Eq, Structural)]
pub enum ObjectKind {
    Elf,
    MachO,
    /// Anything else, a fat Mach-O archive included, or bytes that do not parse.
    Unsupported,
}

/// What looking up an entry's name in its string table gave.
pub enum EntryName {
    /// The name's offset lies outside the string table.
    Missing,
    /// The table holds no valid name at that offset.
    Corrupt,
    Found(Vec<u8>),
}

/// A section header or a symbol, reduced to what locating the records needs.
pub struct TableEntry {
    pub name: EntryName,
    /// A section's file offset, or a symbol's value.
    pub start: u64,
    /// A section's size; zero for a symbol.
    pub size: u64,
    /// A Mach-O section's bytes as goblin hands them out (none for a zero-fill section or one
    /// that lies past the end of the file); empty for other entries.
    pub data: Vec<u8>,
}

/// What an entry's name lookup gave, as a mathematical value.
pub enum EntryNameView {
    Missing,
    Corrupt,
    Found(Seq<u8>),
}

/// A table entry as a mathematical value.
pub struct EntryView {
    pub name: EntryNameView,
    pub start: u64,
    pub size: u64,
    pub data: Seq<u8>,
}

impl View for TableEntry {
    type V = EntryView;

    open spec fn view(&self) -> EntryView {
        EntryView {
            name: match &self.name {
                EntryName::Missing => EntryNameView::Missing,
                EntryName::Corrupt => EntryNameView::Corrupt,
                EntryName::Found(n) => EntryNameView::Found(n@),
            },
            start: self.start,
            size: self.size,
            data: self.data@,
        }
    }
}

pub open spec fn entries_view(v: Seq<TableEntry>) -> Seq<EntryView> {
    v.map_values(|e: TableEntry| e@)
}

/// The data starts with the ELF magic number `7f 45 4c 46`.
pub open spec fn has_elf_magic(d: Seq<u8>) -> bool {
    d.len() >= 4 && d[0] == 0x7f && d[1] == 0x45 && d[2] == 0x4c && d[3] == 0x46
}

/// The data starts with a 32- or 64-bit Mach-O magic number, in either byte order.
pub open spec fn has_macho_magic(d: Seq<u8>) -> bool {
    d.len() >= 4 && (d.take(4) == seq![0xfeu8, 0xed, 0xfa, 0xce] || d.take(4) == seq![
        0xceu8,
        0xfa,
        0xed,
        0xfe,
    ] || d.take(4) == seq![0xfeu8, 0xed, 0xfa, 0xcf] || d.take(4) == seq![0xcfu8, 0xfa, 0xed, 0xfe])
}

pub uninterp spec fn object_kind_of(data: Seq<u8>) -> ObjectKind;

pub uninterp spec fn elf_sections_of(data: Seq<u8>) -> Seq<EntryView>;

pub uninterp spec fn elf_symbols_of(data: Seq<u8>) -> Seq<EntryView>;

pub uninterp spec fn macho_sections_of(data: Seq<u8>) -> Seq<EntryView>;

pub uninterp spec fn macho_symbols_of(data: Seq<u8>) -> Option<Seq<EntryView>>;

/// Relies on goblin::Object::parse to tell an ELF image and a single-architecture Mach-O
/// image from anything else; it refuses input shorter than its sixteen hint bytes.
#[verifier::external_body]
fn object_kind(data: &[u8]) -> (r: ObjectKind)
    ensures
        r == object_kind_of(data@),
        data@.len() < 16 ==> r == ObjectKind::Unsupported,
        r == ObjectKind::Elf ==> has_elf_magic(data@),
        r == ObjectKind::MachO ==> has_macho_magic(data@),
{
    match goblin::Object::parse(data) {
        Ok(goblin::Object::Elf(_)) => ObjectKind::Elf,
        Ok(goblin::Object::Mach(goblin::mach::Mach::Binary(_))) => ObjectKind::MachO,
        _ => ObjectKind::Unsupported,
    }
}

/// Relies on goblin::elf::Elf::parse for the section headers, in order, and on
/// goblin::strtab::Strtab::get for their names.
#[verifier::external_body]
#[allow(deprecated)]
fn elf_sections(data: &[u8]) -> (r: Vec<TableEntry>)
    ensures
        entries_view(r@) == elf_sections_of(data@),
{
    match goblin::elf::Elf::parse(data) {
        Ok(elf) => elf.section_headers.iter().map(|h| TableEntry {
            name: match elf.shdr_strtab.get(h.sh_name) {
                None => EntryName::Missing,
                Some(Err(_)) => EntryName::Corrupt,
                Some(Ok(n)) => EntryName::Found(n.as_bytes().to_vec()),
            },
            start: h.sh_offset,
            size: h.sh_size,
            data: Vec::new(),
        }).collect(),
        Err(_) => Vec::new(),
    }
}

/// Relies on goblin::elf::Elf::parse for the symbol table, in order, and on
/// goblin::strtab::Strtab::get for the symbols' names.
#[verifier::external_body]
#[allow(deprecated)]
fn elf_symbols(data: &[u8]) -> (r: Vec<TableEntry>)
    ensures
        entries_view(r@) == elf_symbols_of(data@),
{
    match goblin::elf::Elf::parse(data) {
        Ok(elf) => elf.syms.iter().map(|s| TableEntry {
            name: match elf.strtab.get(s.st_name) {
                None => EntryName::Missing,
                Some(Err(_)) => EntryName::Corrupt,
                Some(Ok(n)) => EntryName::Found(n.as_bytes().to_vec()),
            },
            start: s.st_value,
            size: 0,
            data: Vec::new(),
        }).collect(),
        Err(_) => Vec::new(),
    }
}

/// Relies on goblin::mach::MachO::parse and its segments' section iterators for the sections,
/// in order, each with its raw sixteen-byte name, file offset, size and data.
#[verifier::external_body]
fn macho_sections(data: &[u8]) -> (r: Vec<TableEntry>)
    ensures
        entries_view(r@) == macho_sections_of(data@),
{
    match goblin::mach::MachO::parse(data, 0) {
        Ok(m) => m.segments.sections().flatten().map(|s| match s {
            Ok((s, d)) => TableEntry {
                name: EntryName::Found(s.sectname.to_vec()),
                start: s.offset as u64,
                size: s.size,
                data: d.to_vec(),
            },
            Err(_) => TableEntry { name: EntryName::Corrupt, start: 0, size: 0, data: Vec::new() },
        }).collect(),
        Err(_) => Vec::new(),
    }
}

/// Relies on goblin::mach::MachO::parse for the symbol table, if the image has one, and on
/// its iterator for each symbol's name and value, in order.
#[verifier::external_body]
fn macho_symbols(data: &[u8]) -> (r: Option<Vec<TableEntry>>)
    ensures
        match r {
            Some(v) => macho_symbols_of(data@) == Some(entries_view(v@)),
            None => macho_symbols_of(data@) is None,
        },
{
    match goblin::mach::MachO::parse(data, 0) {
        Ok(m) => m.symbols.map(|syms| syms.iter().map(|s| match s {
            Ok((n, nl)) => TableEntry { name: EntryName::Found(n.as_bytes().to_vec()), start: nl.n_value, size: 0, data: Vec::new() },
            Err(_) => TableEntry { name: EntryName::Corrupt, start: 0, size: 0, data: Vec::new() },
        }).collect()),
        Err(_) => None,
    }
}

/// The bytes of `set_dtrace_probes`.
pub open spec fn elf_section_name() -> Seq<u8> {
    seq![115u8, 101u8, 116u8, 95u8, 100u8, 116u8, 114u8, 97u8, 99u8, 101u8, 95u8, 112u8, 114u8, 111u8, 98u8, 101u8, 115u8]
}
/// The bytes of `__start_set_dtrace_probes`.
pub open spec fn elf_start_symbol() -> Seq<u8> {
    seq![95u8, 95u8, 115u8, 116u8, 97u8, 114u8, 116u8, 95u8, 115u8, 101u8, 116u8, 95u8, 100u8, 116u8, 114u8, 97u8, 99u8, 101u8, 95u8, 112u8, 114u8, 111u8, 98u8, 101u8, 115u8]
}
/// The bytes of `__stop_set_dtrace_probes`.
pub open spec fn elf_stop_symbol() -> Seq<u8> {
    seq![95u8, 95u8, 115u8, 116u8, 111u8, 112u8, 95u8, 115u8, 101u8, 116u8, 95u8, 100u8, 116u8, 114u8, 97u8, 99u8, 101u8, 95u8, 112u8, 114u8, 111u8, 98u8, 101u8, 115u8]
}
/// The bytes of `__dtrace_probes`.
pub open spec fn macho_probe_name() -> Seq<u8> {
    seq![95u8, 95u8, 100u8, 116u8, 114u8, 97u8, 99u8, 101u8, 95u8, 112u8, 114u8, 111u8, 98u8, 101u8, 115u8]
}
fn elf_section_name_bytes() -> (r: Vec<u8>)
    ensures
        r@ == elf_section_name(),
{
    let mut v: Vec<u8> = Vec::new();
    v.push(115u8);
    v.push(101u8);
    v.push(116u8);
    v.push(95u8);
    v.push(100u8);
    v.push(116u8);
    v.push(114u8);
    v.push(97u8);
    v.push(99u8);
    v.push(101u8);
    v.push(95u8);
    v.push(112u8);
    v.push(114u8);
    v.push(111u8);
    v.push(98u8);
    v.push(101u8);
    v.push(115u8);
    assert(v@ =~= elf_section_name());
    v
}
fn elf_start_symbol_bytes() -> (r: Vec<u8>)
    ensures
        r@ == elf_start_symbol(),
{
    let mut v: Vec<u8> = Vec::new();
    v.push(95u8);
    v.push(95u8);
    v.push(115u8);
    v.push(116u8);
    v.push(97u8);
    v.push(114u8);
    v.push(116u8);
    v.push(95u8);
    v.push(115u8);
    v.push(101u8);
    v.push(116u8);
    v.push(95u8);
    v.push(100u8);
    v.push(116u8);
    v.push(114u8);
    v.push(97u8);
    v.push(99u8);
    v.push(101u8);
    v.push(95u8);
    v.push(112u8);
    v.push(114u8);
    v.push(111u8);
    v.push(98u8);
    v.push(101u8);
    v.push(115u8);
    assert(v@ =~= elf_start_symbol());
    v
}
fn elf_stop_symbol_bytes() -> (r: Vec<u8>)
    ensures
        r@ == elf_stop_symbol(),
{
    let mut v: Vec<u8> = Vec::new();
    v.push(95u8);
    v.push(95u8);
    v.push(115u8);
    v.push(116u8);
    v.push(111u8);
    v.push(112u8);
    v.push(95u8);
    v.push(115u8);
    v.push(101u8);
    v.push(116u8);
    v.push(95u8);
    v.push(100u8);
    v.push(116u8);
    v.push(114u8);
    v.push(97u8);
    v.push(99u8);
    v.push(101u8);
    v.push(95u8);
    v.push(112u8);
    v.push(114u8);
    v.push(111u8);
    v.push(98u8);
    v.push(101u8);
    v.push(115u8);
    assert(v@ =~= elf_stop_symbol());
    v
}
fn macho_probe_name_bytes() -> (r: Vec<u8>)
    ensures
        r@ == macho_probe_name(),
{
    let mut v: Vec<u8> = Vec::new();
    v.push(95u8);
    v.push(95u8);
    v.push(100u8);
    v.push(116u8);
    v.push(114u8);
    v.push(97u8);
    v.push(99u8);
    v.push(101u8);
    v.push(95u8);
    v.push(112u8);
    v.push(114u8);
    v.push(111u8);
    v.push(98u8);
    v.push(101u8);
    v.push(115u8);
    assert(v@ =~= macho_probe_name());
    v
}

/// The four kinds of table scan that locating the records may make.
#[derive(Debug, Clone, Copy, PartialEq, Eq, Structural)]
pub enum Scan {
    ElfSection,
    ElfStartSymbol,
    ElfStopSymbol,
    MachOSection,
    MachOSymbol,
}

pub open spec fn has_prefix(n: Seq<u8>, p: Seq<u8>) -> bool {
    p.len() <= n.len() && n.take(p.len() as int) == p
}

pub open spec fn has_infix(n: Seq<u8>, p: Seq<u8>) -> bool {
    exists|i: int| 0 <= i && i + p.len() <= n.len() && #[trigger] n.subrange(i, i + p.len()) == p
}

/// Whether a name is one that scan `kind` looks for.
pub open spec fn name_matches(kind: Scan, n: Seq<u8>) -> bool {
    match kind {
        Scan::ElfSection => n == elf_section_name(),
        Scan::ElfStartSymbol => n == elf_start_symbol(),
        Scan::ElfStopSymbol => n == elf_stop_symbol(),
        Scan::MachOSection => has_prefix(n, macho_probe_name()),
        Scan::MachOSymbol => has_infix(n, macho_probe_name()),
    }
}

/// An entry that stops a scan: one with the name looked for, or one whose name is corrupt.
pub open spec fn is_hit(kind: Scan, e: EntryView) -> bool {
    match e.name {
        EntryNameView::Missing => false,
        EntryNameView::Corrupt => true,
        EntryNameView::Found(n) => name_matches(kind, n),
    }
}

/// The entries that scan `kind` stops at, in table order.
pub open spec fn hits(kind: Scan, es: Seq<EntryView>) -> Seq<EntryView>
    decreases es.len(),
{
    if es.len() == 0 {
        Seq::empty()
    } else if is_hit(kind, es.last()) {
        hits(kind, es.drop_last()).push(es.last())
    } else {
        hits(kind, es.drop_last())
    }
}

/// The file range of a section found by name.
pub open spec fn section_range(e: EntryView) -> Result<Option<(u64, u64)>, Error> {
    if e.name is Corrupt || e.start + e.size > u64::MAX {
        Err(Error::InvalidFile)
    } else {
        Ok(Some((e.start, (e.start + e.size) as u64)))
    }
}

/// Whether one of the first two symbol hits has a corrupt name.
pub open spec fn corrupt_in_first_two(h: Seq<EntryView>) -> bool {
    (h.len() >= 1 && h[0].name is Corrupt) || (h.len() >= 2 && h[1].name is Corrupt)
}

/// The range an ELF image's records occupy: the `set_dtrace_probes` section, else from the
/// value of the first `__start_set_dtrace_probes` symbol to that of the first
/// `__stop_set_dtrace_probes` symbol, where both exist. A corrupt name met before the entry
/// looked for makes the file invalid.
pub open spec fn elf_range_spec(sections: Seq<EntryView>, symbols: Seq<EntryView>) -> Result<
    Option<(u64, u64)>,
    Error,
> {
    let sh = hits(Scan::ElfSection, sections);
    let hs = hits(Scan::ElfStartSymbol, symbols);
    let ht = hits(Scan::ElfStopSymbol, symbols);
    if sh.len() > 0 {
        section_range(sh[0])
    } else if (hs.len() > 0 && hs[0].name is Corrupt) || (ht.len() > 0 && ht[0].name is Corrupt) {
        Err(Error::InvalidFile)
    } else if hs.len() > 0 && ht.len() > 0 {
        Ok(Some((hs[0].start, ht[0].start)))
    } else {
        Ok(None)
    }
}

/// `file[a..b]`, where that range lies inside the file.
pub open spec fn within(file: Seq<u8>, a: u64, b: u64) -> Result<Option<Seq<u8>>, Error> {
    if a <= b && b <= file.len() {
        Ok(Some(file.subrange(a as int, b as int)))
    } else {
        Err(Error::InvalidFile)
    }
}

/// The records of a Mach-O image: the data of the first `__dtrace_probes` section, else the
/// bytes between the values of the only two symbols whose names hold `__dtrace_probes`.
pub open spec fn macho_records_spec(
    sections: Seq<EntryView>,
    symbols: Option<Seq<EntryView>>,
    file: Seq<u8>,
) -> Result<Option<Seq<u8>>, Error> {
    let sh = hits(Scan::MachOSection, sections);
    if sh.len() > 0 {
        if sh[0].name is Corrupt {
            Err(Error::InvalidFile)
        } else {
            Ok(Some(sh[0].data))
        }
    } else {
        match symbols {
            None => Ok(None),
            Some(ys) => {
                let yh = hits(Scan::MachOSymbol, ys);
                if corrupt_in_first_two(yh) {
                    Err(Error::InvalidFile)
                } else if yh.len() == 2 {
                    within(file, yh[0].start, yh[1].start)
                } else {
                    Ok(None)
                }
            },
        }
    }
}

/// The bytes of `data` that hold probe records, if it has any.
pub open spec fn records_slice_spec(data: Seq<u8>) -> Result<Option<Seq<u8>>, Error> {
    match object_kind_of(data) {
        ObjectKind::Elf => match elf_range_spec(elf_sections_of(data), elf_symbols_of(data)) {
            Err(e) => Err(e),
            Ok(None) => Ok(None),
            Ok(Some((a, b))) => within(data, a, b),
        },
        ObjectKind::MachO => macho_records_spec(macho_sections_of(data), macho_symbols_of(data), data),
        ObjectKind::Unsupported => Err(Error::InvalidFile),
    }
}

fn starts_with(n: &[u8], p: &[u8]) -> (r: bool)
    ensures
        r == has_prefix(n@, p@),
{
    if p.len() > n.len() {
        return false;
    }
    let head = slice_subrange(n, 0, p.len());
    assert(head@ =~= n@.take(p@.len() as int));
    bytes_eq(head, p)
}

fn contains_bytes(n: &[u8], p: &[u8]) -> (r: bool)
    ensures
        r == has_infix(n@, p@),
{
    if p.len() > n.len() {
        return false;
    }
    if p.len() == 0 {
        assert(n@.subrange(0int, 0int + p@.len()) =~= p@);
        return true;
    }
    let last = n.len() - p.len();
    let mut i: usize = 0;
    while i <= last
        invariant
            0 < p@.len() <= n@.len() <= usize::MAX,
            last == n@.len() - p@.len(),
            i <= last + 1,
            forall|k: int| 0 <= k < i ==> #[trigger] n@.subrange(k, k + p@.len()) != p@,
        decreases last + 1 - i,
    {
        let part = slice_subrange(n, i, i + p.len());
        if bytes_eq(part, p) {
            return true;
        }
        i = i + 1;
    }
    false
}

fn name_matches_exec(kind: Scan, n: &[u8]) -> (r: bool)
    ensures
        r == name_matches(kind, n@),
{
    match kind {
        Scan::ElfSection => bytes_eq(n, elf_section_name_bytes().as_slice()),
        Scan::ElfStartSymbol => bytes_eq(n, elf_start_symbol_bytes().as_slice()),
        Scan::ElfStopSymbol => bytes_eq(n, elf_stop_symbol_bytes().as_slice()),
        Scan::MachOSection => starts_with(n, macho_probe_name_bytes().as_slice()),
        Scan::MachOSymbol => contains_bytes(n, macho_probe_name_bytes().as_slice()),
    }
}

fn is_hit_exec(kind: Scan, e: &TableEntry) -> (r: bool)
    ensures
        r == is_hit(kind, e@),
{
    match &e.name {
        EntryName::Missing => false,
        EntryName::Corrupt => true,
        EntryName::Found(n) => name_matches_exec(kind, n.as_slice()),
    }
}

/// The positions in `es` of the entries that scan `kind` stops at.
fn hit_positions(kind: Scan, es: &Vec<TableEntry>) -> (r: Vec<usize>)
    ensures
        forall|k: int| 0 <= k < r@.len() ==> r@[k] < es@.len(),
        r@.map_values(|k: usize| es@[k as int]@) == hits(kind, entries_view(es@)),
{
    let ghost ev = entries_view(es@);
    let mut r: Vec<usize> = Vec::new();
    let mut i: usize = 0;
    assert(ev.take(0) =~= Seq::<EntryView>::empty());
    while i < es.len()
        invariant
            i <= es@.len(),
            ev == entries_view(es@),
            forall|k: int| 0 <= k < r@.len() ==> r@[k] < i,
            r@.map_values(|k: usize| es@[k as int]@) == hits(kind, ev.take(i as int)),
        decreases es@.len() - i,
    {
        let ghost r0 = r@;
        assert(ev.take(i + 1).drop_last() =~= ev.take(i as int));
        assert(ev.take(i + 1).last() == es@[i as int]@);
        if is_hit_exec(kind, &es[i]) {
            r.push(i);
            assert(r@.map_values(|k: usize| es@[k as int]@) =~= r0.map_values(
                |k: usize| es@[k as int]@,
            ).push(es@[i as int]@));
        }
        i = i + 1;
    }
    assert(ev.take(i as int) =~= ev);
    r
}

fn section_range_exec(e: &TableEntry) -> (r: Result<Option<(u64, u64)>, Error>)
    ensures
        r == section_range(e@),
{
    if matches!(e.name, EntryName::Corrupt) || e.start > u64::MAX - e.size {
        Err(Error::InvalidFile)
    } else {
        Ok(Some((e.start, e.start + e.size)))
    }
}

/// Where an ELF image's probe records lie, given its section headers and its symbols.
pub fn elf_probe_range(sections: &Vec<TableEntry>, symbols: &Vec<TableEntry>) -> (r: Result<
    Option<(u64, u64)>,
    Error,
>)
    ensures
        r == elf_range_spec(entries_view(sections@), entries_view(symbols@)),
{
    let sh = hit_positions(Scan::ElfSection, sections);
    if sh.len() > 0 {
        return section_range_exec(&sections[sh[0]]);
    }
    let hs = hit_positions(Scan::ElfStartSymbol, symbols);
    let ht = hit_positions(Scan::ElfStopSymbol, symbols);
    if (hs.len() > 0 && matches!(symbols[hs[0]].name, EntryName::Corrupt)) || (ht.len() > 0
        && matches!(symbols[ht[0]].name, EntryName::Corrupt)) {
        return Err(Error::InvalidFile);
    }
    if hs.len() > 0 && ht.len() > 0 {
        Ok(Some((symbols[hs[0]].start, symbols[ht[0]].start)))
    } else {
        Ok(None)
    }
}

fn within_exec(file: &[u8], a: u64, b: u64) -> (r: Result<Option<Vec<u8>>, Error>)
    ensures
        match within(file@, a, b) {
            Ok(Some(x)) => r matches Ok(Some(v)) && v@ == x,
            Ok(None) => r matches Ok(None),
            Err(e) => r matches Err(x) && x == e,
        },
{
    if a <= b && b <= file.len() as u64 {
        Ok(Some(copy_bytes(file, a as usize, b as usize)))
    } else {
        Err(Error::InvalidFile)
    }
}

/// The probe records of a Mach-O image, given its sections, its symbols, if any, and the file.
pub fn macho_probe_records(
    sections: &Vec<TableEntry>,
    symbols: &Option<Vec<TableEntry>>,
    file: &[u8],
) -> (r: Result<Option<Vec<u8>>, Error>)
    ensures
        match macho_records_spec(
            entries_view(sections@),
            match symbols {
                Some(v) => Some(entries_view(v@)),
                None => None,
            },
            file@,
        ) {
            Ok(Some(x)) => r matches Ok(Some(v)) && v@ == x,
            Ok(None) => r matches Ok(None),
            Err(e) => r matches Err(x) && x == e,
        },
{
    let sh = hit_positions(Scan::MachOSection, sections);
    if sh.len() > 0 {
        let e = &sections[sh[0]];
        if matches!(e.name, EntryName::Corrupt) {
            return Err(Error::InvalidFile);
        }
        return Ok(Some(copy_bytes(e.data.as_slice(), 0, e.data.len())));
    }
    match symbols {
        None => Ok(None),
        Some(symbols) => {
            let yh = hit_positions(Scan::MachOSymbol, symbols);
            if (yh.len() >= 1 && matches!(symbols[yh[0]].name, EntryName::Corrupt)) || (yh.len() >= 2
                && matches!(symbols[yh[1]].name, EntryName::Corrupt)) {
                return Err(Error::InvalidFile);
            }
            if yh.len() == 2 {
                within_exec(file, symbols[yh[0]].start, symbols[yh[1]].start)
            } else {
                Ok(None)
            }
        },
    }
}

/// The bytes of a compiled artifact that hold its probe records: `Ok(None)` where it is a
/// valid image without any, `InvalidFile` where it is no ELF or Mach-O image, where its tables
/// are corrupt, or where the range they give lies outside the file.
pub fn locate_probe_records(data: &[u8]) -> (r: Result<Option<Vec<u8>>, Error>)
    ensures
        match records_slice_spec(data@) {
            Ok(Some(s)) => r matches Ok(Some(x)) && x@ == s,
            Ok(None) => r matches Ok(None),
            Err(e) => r matches Err(x) && x == e,
        },
        !has_elf_magic(data@) && !has_macho_magic(data@) ==> r matches Err(Error::InvalidFile),
{
    match object_kind(data) {
        ObjectKind::Elf => match elf_probe_range(&elf_sections(data), &elf_symbols(data)) {
            Err(e) => Err(e),
            Ok(None) => Ok(None),
            Ok(Some((a, b))) => within_exec(data, a, b),
        },
        ObjectKind::MachO => macho_probe_records(&macho_sections(data), &macho_symbols(data), data),
        ObjectKind::Unsupported => Err(Error::InvalidFile),
    }
}

/// Decodes the probe records of a compiled artifact: `Ok(None)` where it has none.
pub fn extract_probe_records<R: SymbolResolver>(data: &[u8], resolver: &R) -> (r: Result<
    Option<Section>,
    Error,
>)
    ensures
        match records_slice_spec(data@) {
            Ok(Some(s)) => section_outcome(s, r),
            Ok(None) => r matches Ok(None),
            Err(e) => r matches Err(x) && x == e,
        },
        !has_elf_magic(data@) && !has_macho_magic(data@) ==> r matches Err(Error::InvalidFile),
{
    match locate_probe_records(data) {
        Err(e) => Err(e),
        Ok(None) => Ok(None),
        Ok(Some(s)) => process_section(s.as_slice(), resolver),
    }
}

} // verus!
