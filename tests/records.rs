use byteorder::{LittleEndian, WriteBytesExt};
use usdt_records::decode::{
    limit_string_length, process_rec, process_section, unresolved_function_name, NoSymbols,
    SymbolResolver, MAX_PROBE_NAME_LEN, MAX_PROVIDER_NAME_LEN,
};
use usdt_records::error::Error;
use usdt_records::locate::extract_probe_records;
use usdt_records::model::{Provider, Section};
use usdt_records::record::{decode_rec, decode_records, PROBE_REC_VERSION};

trait WriteCstrExt {
    fn write_cstr(&mut self, s: &str);
}

impl WriteCstrExt for Vec<u8> {
    fn write_cstr(&mut self, s: &str) {
        self.extend_from_slice(s.as_bytes());
        self.push(0);
    }
}

fn record(version: u8, flags: u16, address: u64, provider: &str, probe: &str, args: &[&str]) -> Vec<u8> {
    let mut rec = Vec::<u8>::new();
    rec.write_u32::<LittleEndian>(0).unwrap();
    rec.write_u8(version).unwrap();
    rec.write_u8(args.len() as u8).unwrap();
    rec.write_u16::<LittleEndian>(flags).unwrap();
    rec.write_u64::<LittleEndian>(address).unwrap();
    rec.write_cstr(provider);
    rec.write_cstr(probe);
    for a in args {
        rec.write_cstr(a);
    }
    let len = rec.len();
    (&mut rec[0..]).write_u32::<LittleEndian>(len as u32).unwrap();
    rec
}

struct FixedName(String);

impl SymbolResolver for FixedName {
    fn function_name(&self, _address: u64) -> Option<Vec<u8>> {
        Some(self.0.as_bytes().to_vec())
    }
}

#[test]
fn test_process_rec() {
    let mut rec = Vec::<u8>::new();

    // write a dummy length
    rec.write_u32::<LittleEndian>(0).unwrap();
    rec.write_u8(PROBE_REC_VERSION).unwrap();
    rec.write_u8(0).unwrap();
    rec.write_u16::<LittleEndian>(0).unwrap();
    rec.write_u64::<LittleEndian>(0x1234).unwrap();
    rec.write_cstr("provider");
    rec.write_cstr("probe");
    // fix the length field
    let len = rec.len();
    (&mut rec[0..]).write_u32::<LittleEndian>(len as u32).unwrap();

    let mut providers: Vec<Provider> = Vec::new();
    process_rec(&mut providers, rec.as_slice(), &NoSymbols).unwrap();

    let section = Section { providers };
    let probe = section.provider(b"provider").unwrap().probe(b"probe").unwrap();

    assert_eq!(probe.name, b"probe".to_vec());
    assert_eq!(probe.address, 0x1234);
}

#[test]
fn test_process_rec_long_names() {
    let mut rec = Vec::<u8>::new();

    // write a dummy length
    let long_name: String = std::iter::repeat("p").take(130).collect();
    rec.write_u32::<LittleEndian>(0).unwrap();
    rec.write_u8(PROBE_REC_VERSION).unwrap();
    rec.write_u8(0).unwrap();
    rec.write_u16::<LittleEndian>(0).unwrap();
    rec.write_u64::<LittleEndian>(0x1234).unwrap();
    rec.write_cstr(&long_name);
    rec.write_cstr(&long_name);
    // fix the length field
    let len = rec.len();
    (&mut rec[0..]).write_u32::<LittleEndian>(len as u32).unwrap();

    let mut providers: Vec<Provider> = Vec::new();
    process_rec(&mut providers, rec.as_slice(), &NoSymbols).unwrap();

    let expected_provider_name = &long_name.as_bytes()[..MAX_PROVIDER_NAME_LEN - 1];
    let expected_probe_name = &long_name.as_bytes()[..MAX_PROBE_NAME_LEN - 1];

    let section = Section { providers };
    assert!(section.provider(long_name.as_bytes()).is_none());
    let probe = section
        .provider(expected_provider_name)
        .unwrap()
        .probe(expected_probe_name)
        .unwrap();

    assert_eq!(probe.name, expected_probe_name.to_vec());
    assert_eq!(probe.address, 0x1234);
}

#[test]
fn test_process_section() {
    let mut data = Vec::<u8>::new();

    // write a dummy length for the first record
    data.write_u32::<LittleEndian>(0).unwrap();
    data.write_u8(PROBE_REC_VERSION).unwrap();
    data.write_u8(0).unwrap();
    data.write_u16::<LittleEndian>(0).unwrap();
    data.write_u64::<LittleEndian>(0x1234).unwrap();
    data.write_cstr("provider");
    data.write_cstr("probe");
    let len = data.len();
    (&mut data[0..]).write_u32::<LittleEndian>(len as u32).unwrap();

    data.write_u32::<LittleEndian>(0).unwrap();
    data.write_u8(PROBE_REC_VERSION).unwrap();
    data.write_u8(0).unwrap();
    data.write_u16::<LittleEndian>(0).unwrap();
    data.write_u64::<LittleEndian>(0x12ab).unwrap();
    data.write_cstr("provider");
    data.write_cstr("probe");
    let len2 = data.len() - len;
    (&mut data[len..]).write_u32::<LittleEndian>(len2 as u32).unwrap();

    let section = process_section(data.as_slice(), &NoSymbols).unwrap().unwrap();

    let probe = section.provider(b"provider").unwrap().probe(b"probe").unwrap();

    assert_eq!(probe.name, b"probe".to_vec());
    assert_eq!(probe.address, 0x1234);
    assert_eq!(probe.offsets, vec![0, 0x12ab - 0x1234]);
}

#[test]
fn single_record_keeps_names_and_address() {
    let data = record(1, 0, 0xdead_beef, "prov", "start", &["int", "char *"]);
    let section = process_section(&data, &NoSymbols).unwrap().unwrap();
    assert_eq!(section.providers.len(), 1);
    let provider = &section.providers[0];
    assert_eq!(provider.name, b"prov".to_vec());
    assert_eq!(provider.probes.len(), 1);
    let probe = &provider.probes[0];
    assert_eq!(probe.name, b"start".to_vec());
    assert_eq!(probe.address, 0xdead_beef);
    assert_eq!(probe.arguments, vec![b"int".to_vec(), b"char *".to_vec()]);
    assert_eq!(probe.offsets, vec![0]);
    assert!(probe.enabled_offsets.is_empty());
}

#[test]
fn long_name_is_cut_to_sixty_three_bytes() {
    let long_name: String = std::iter::repeat("p").take(130).collect();
    let data = record(1, 0, 0x1234, &long_name, &long_name, &[]);
    let section = process_section(&data, &NoSymbols).unwrap().unwrap();
    assert_eq!(section.providers[0].name.len(), 63);
    assert_eq!(section.providers[0].probes[0].name.len(), 63);
    assert!(section.provider(long_name.as_bytes()).is_none());
}

#[test]
fn newer_version_record_is_skipped() {
    let mut data = record(PROBE_REC_VERSION + 1, 0, 0x10, "future", "thing", &[]);
    data.extend(record(1, 0, 0x20, "provider", "probe", &[]));
    let section = process_section(&data, &NoSymbols).unwrap().unwrap();
    assert_eq!(section.providers.len(), 1);
    assert!(section.provider(b"future").is_none());
    let probe = section.provider(b"provider").unwrap().probe(b"probe").unwrap();
    assert_eq!(probe.address, 0x20);
}

#[test]
fn empty_section_has_no_providers() {
    let section = process_section(&[], &NoSymbols).unwrap().unwrap();
    assert_eq!(section.providers.len(), 0);
}

#[test]
fn text_is_not_an_object_file() {
    let text = b"this is plainly some text and not an object file at all";
    assert!(matches!(extract_probe_records(text, &NoSymbols), Err(Error::InvalidFile)));
}

#[test]
fn empty_file_is_not_an_object_file() {
    assert!(matches!(extract_probe_records(&[], &NoSymbols), Err(Error::InvalidFile)));
}

#[test]
fn address_below_anchor_is_rejected() {
    let mut data = record(1, 0, 0x2000, "provider", "probe", &[]);
    data.extend(record(1, 0, 0x1fff, "provider", "probe", &[]));
    assert!(matches!(
        process_section(&data, &NoSymbols),
        Err(Error::AddressOrderingViolation)
    ));
}

#[test]
fn is_enabled_records_fill_enabled_offsets() {
    let mut data = record(1, 0, 0x100, "p", "q", &[]);
    data.extend(record(1, 1, 0x108, "p", "q", &[]));
    data.extend(record(1, 0, 0x110, "p", "q", &[]));
    let section = process_section(&data, &NoSymbols).unwrap().unwrap();
    let probe = section.provider(b"p").unwrap().probe(b"q").unwrap();
    assert_eq!(probe.offsets, vec![0, 0x10]);
    assert_eq!(probe.enabled_offsets, vec![8]);
}

#[test]
fn latest_arguments_win() {
    let mut data = record(1, 0, 0x100, "p", "q", &["int"]);
    data.extend(record(1, 0, 0x104, "p", "q", &["long", "long"]));
    let section = process_section(&data, &NoSymbols).unwrap().unwrap();
    let probe = section.provider(b"p").unwrap().probe(b"q").unwrap();
    assert_eq!(probe.arguments, vec![b"long".to_vec(), b"long".to_vec()]);
}

#[test]
fn probes_and_providers_keep_their_order() {
    let mut data = record(1, 0, 0x100, "b", "y", &[]);
    data.extend(record(1, 0, 0x200, "a", "x", &[]));
    data.extend(record(1, 0, 0x300, "b", "x", &[]));
    let section = process_section(&data, &NoSymbols).unwrap().unwrap();
    assert_eq!(section.providers.len(), 2);
    assert_eq!(section.providers[0].name, b"b".to_vec());
    assert_eq!(section.providers[1].name, b"a".to_vec());
    assert_eq!(section.providers[0].probes.len(), 2);
    assert_eq!(section.providers[0].probes[1].name, b"x".to_vec());
}

#[test]
fn unresolved_function_gets_placeholder() {
    let data = record(1, 0, 0x1234, "p", "q", &[]);
    let section = process_section(&data, &NoSymbols).unwrap().unwrap();
    assert_eq!(section.providers[0].probes[0].function, b"?0x1234".to_vec());
    assert_eq!(unresolved_function_name(0), b"?0x0".to_vec());
    assert_eq!(unresolved_function_name(0xabcdef), b"?0xabcdef".to_vec());
    assert_eq!(unresolved_function_name(u64::MAX), b"?0xffffffffffffffff".to_vec());
}

#[test]
fn resolved_function_name_is_cut() {
    let data = record(1, 0, 0x1234, "p", "q", &[]);
    let long: String = std::iter::repeat("f").take(200).collect();
    let section = process_section(&data, &FixedName(long)).unwrap().unwrap();
    assert_eq!(section.providers[0].probes[0].function.len(), 127);
    let section = process_section(&data, &FixedName("main".to_string())).unwrap().unwrap();
    assert_eq!(section.providers[0].probes[0].function, b"main".to_vec());
}

#[test]
fn argument_descriptions_are_cut() {
    let long: String = std::iter::repeat("a").take(300).collect();
    let data = record(1, 0, 0x1234, "p", "q", &[&long]);
    let section = process_section(&data, &NoSymbols).unwrap().unwrap();
    assert_eq!(section.providers[0].probes[0].arguments[0].len(), 127);
}

#[test]
fn limit_string_length_cuts_and_keeps() {
    assert_eq!(limit_string_length(b"abcdef", 4), b"abc".to_vec());
    assert_eq!(limit_string_length(b"abc", 4), b"abc".to_vec());
    assert_eq!(limit_string_length(b"abcd", 4), b"abc".to_vec());
    assert_eq!(limit_string_length(b"", 1), Vec::<u8>::new());
}

#[test]
fn short_header_is_truncated() {
    let data = vec![3u8, 0, 0];
    assert!(matches!(process_section(&data, &NoSymbols), Err(Error::TruncatedRecord)));
    let mut rec = record(1, 0, 0x10, "p", "q", &[]);
    rec.truncate(12);
    (&mut rec[0..]).write_u32::<LittleEndian>(12).unwrap();
    assert!(matches!(decode_rec(&rec), Err(Error::TruncatedRecord)));
}

#[test]
fn length_past_end_is_truncated() {
    let mut rec = record(1, 0, 0x10, "p", "q", &[]);
    let len = rec.len() as u32 + 5;
    (&mut rec[0..]).write_u32::<LittleEndian>(len).unwrap();
    assert!(matches!(decode_records(&rec), Err(Error::TruncatedRecord)));
}

#[test]
fn missing_terminator_is_truncated() {
    let mut rec = record(1, 0, 0x10, "p", "q", &[]);
    rec.pop();
    let len = rec.len() as u32;
    (&mut rec[0..]).write_u32::<LittleEndian>(len).unwrap();
    assert!(matches!(decode_rec(&rec), Err(Error::TruncatedRecord)));
}

#[test]
fn padding_after_strings_is_ignored() {
    let mut rec = record(1, 0, 0x10, "p", "q", &[]);
    rec.extend([0u8; 4]);
    let len = rec.len() as u32;
    (&mut rec[0..]).write_u32::<LittleEndian>(len).unwrap();
    let r = decode_rec(&rec).unwrap().unwrap();
    assert_eq!(r.provider, b"p".to_vec());
    assert_eq!(r.probe, b"q".to_vec());
    assert_eq!(r.address, 0x10);
}

#[test]
fn failed_record_leaves_providers_unchanged() {
    let mut providers: Vec<Provider> = Vec::new();
    process_rec(&mut providers, &record(1, 0, 0x50, "p", "q", &["int"]), &NoSymbols).unwrap();
    let r = process_rec(&mut providers, &record(1, 0, 0x40, "p", "q", &["long"]), &NoSymbols);
    assert!(matches!(r, Err(Error::AddressOrderingViolation)));
    assert_eq!(providers[0].probes[0].arguments, vec![b"int".to_vec()]);
    assert_eq!(providers[0].probes[0].offsets, vec![0]);
}

#[test]
fn name_that_is_not_utf8_is_rejected() {
    let mut rec = record(1, 0, 0x10, "p", "q", &[]);
    rec[16] = 0xff;
    let mut providers: Vec<Provider> = Vec::new();
    assert!(matches!(process_rec(&mut providers, &rec, &NoSymbols), Err(Error::InvalidUtf8)));
    assert!(providers.is_empty());
    let mut rec = record(1, 0, 0x10, "p", "q", &["in\u{e9}t"]);
    let n = rec.len();
    rec[n - 3] = 0xc3;
    rec[n - 2] = 0x28;
    assert!(matches!(decode_rec(&rec), Err(Error::InvalidUtf8)));
    let ok = record(1, 0, 0x10, "pr\u{f6}v", "q", &[]);
    assert_eq!(decode_rec(&ok).unwrap().unwrap().provider, "pr\u{f6}v".as_bytes().to_vec());
}

#[test]
fn short_newer_version_record_is_skipped() {
    let mut data = vec![6u8, 0, 0, 0, PROBE_REC_VERSION + 1, 0];
    data.extend(record(1, 0, 0x20, "provider", "probe", &[]));
    let section = process_section(&data, &NoSymbols).unwrap().unwrap();
    assert_eq!(section.providers.len(), 1);
}
