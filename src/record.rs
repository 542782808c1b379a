//! The probe-record wire format, and its decoding into providers and probes.
use vstd::prelude::*;

use crate::error::Error;
use crate::model::texts_view;
use vstd::slice::slice_subrange;
use vstd::utf8::valid_utf8;

verus! {

/// Largest record format version this decoder understands.
pub const PROBE_REC_VERSION: u8 = 1;

/// Bytes before a record's strings: length, version, argument count, flags, address.
pub const RECORD_HEADER_LEN: usize = 16;

pub open spec fn le_u16(s: Seq<u8>, i: int) -> int {
    s[i] + 256 * s[i + 1]
}

pub open spec fn le_u32(s: Seq<u8>, i: int) -> int {
    le_u16(s, i) + 65536 * le_u16(s, i + 2)
}

pub open spec fn le_u64(s: Seq<u8>, i: int) -> int {
    le_u32(s, i) + 4294967296 * le_u32(s, i + 4)
}

/// Number of bytes before the first zero byte at or after `start`, or before the end.
pub open spec fn text_len(s: Seq<u8>, start: nat) -> nat
    decreases s.len() - start,
{
    if start >= s.len() || s[start as int] == 0 {
        0
    } else {
        1 + text_len(s, start + 1)
    }
}

/// The `n` zero-terminated strings that follow each other from `start`, if all are terminated.
pub open spec fn texts(s: Seq<u8>, start: nat, n: nat) -> Option<Seq<Seq<u8>>>
    decreases n,
{
    if n == 0 {
        Some(Seq::empty())
    } else {
        let end = start + text_len(s, start);
        if end < s.len() {
            match texts(s, (end + 1) as nat, (n - 1) as nat) {
                Some(rest) => Some(seq![s.subrange(start as int, end as int)] + rest),
                None => None,
            }
        } else {
            None
        }
    }
}

proof fn lemma_texts_len(s: Seq<u8>, start: nat, n: nat)
    ensures
        texts(s, start, n) matches Some(t) ==> t.len() == n,
    decreases n,
{
    if n > 0 {
        let end = start + text_len(s, start);
        lemma_texts_len(s, (end + 1) as nat, (n - 1) as nat);
    }
}

/// Every string is valid UTF-8.
pub open spec fn all_utf8(t: Seq<Seq<u8>>) -> bool {
    forall|k: int| 0 <= k < t.len() ==> valid_utf8(#[trigger] t[k])
}

/// Relies on std::str::from_utf8: it succeeds exactly when the bytes are valid UTF-8.
#[verifier::external_body]
fn is_utf8(b: &[u8]) -> (r: bool)
    ensures
        r == valid_utf8(b@),
{
    std::str::from_utf8(b).is_ok()
}

fn all_utf8_exec(t: &Vec<Vec<u8>>) -> (r: bool)
    ensures
        r == all_utf8(texts_view(t@)),
{
    let mut k: usize = 0;
    while k < t.len()
        invariant
            k <= t@.len(),
            forall|j: int| 0 <= j < k ==> valid_utf8(#[trigger] texts_view(t@)[j]),
        decreases t@.len() - k,
    {
        assert(texts_view(t@)[k as int] == t@[k as int]@);
        if !is_utf8(t[k].as_slice()) {
            return false;
        }
        k = k + 1;
    }
    true
}

/// A record of a supported version, as a mathematical value.
pub struct RecordView {
    pub flags: u16,
    pub address: u64,
    pub provider: Seq<u8>,
    pub probe: Seq<u8>,
    pub arguments: Seq<Seq<u8>>,
}

/// What one record decodes to: `Ok(None)` for a record of a newer version, which is skipped.
pub open spec fn record_spec(rec: Seq<u8>) -> Result<Option<RecordView>, Error> {
    if rec.len() < 5 {
        Err(Error::TruncatedRecord)
    } else if rec[4] > PROBE_REC_VERSION {
        Ok(None)
    } else if rec.len() < RECORD_HEADER_LEN {
        Err(Error::TruncatedRecord)
    } else {
        match texts(rec, RECORD_HEADER_LEN as nat, (rec[5] + 2) as nat) {
            None => Err(Error::TruncatedRecord),
            Some(t) => if !all_utf8(t) {
                Err(Error::InvalidUtf8)
            } else {
                Ok(
                Some(
                    RecordView {
                        flags: le_u16(rec, 6) as u16,
                        address: le_u64(rec, 8) as u64,
                        provider: t[0],
                        probe: t[1],
                        arguments: t.subrange(2, t.len() as int),
                    },
                ),
            )
            },
        }
    }
}

/// The supported records of a section, in order, or the first fault met in scanning it.
pub open spec fn section_spec(s: Seq<u8>) -> Result<Seq<RecordView>, Error>
    decreases s.len(),
{
    if s.len() == 0 {
        Ok(Seq::empty())
    } else if s.len() < 4 || le_u32(s, 0) < 5 || le_u32(s, 0) > s.len() {
        Err(Error::TruncatedRecord)
    } else {
        let n = le_u32(s, 0);
        match record_spec(s.subrange(0, n)) {
            Err(e) => Err(e),
            Ok(r) => match section_spec(s.subrange(n, s.len() as int)) {
                Err(e) => Err(e),
                Ok(rest) => Ok(
                    match r {
                        Some(x) => seq![x] + rest,
                        None => rest,
                    },
                ),
            },
        }
    }
}

fn read_u16(s: &[u8], i: usize) -> (r: u16)
    requires
        i + 2 <= s@.len(),
    ensures
        r == le_u16(s@, i as int),
{
    s[i] as u16 + 256 * (s[i + 1] as u16)
}

fn read_u32(s: &[u8], i: usize) -> (r: u32)
    requires
        i + 4 <= s@.len(),
    ensures
        r == le_u32(s@, i as int),
{
    // The slice's length is a usize, so the offsets below cannot overflow.
    let _len = s.len();
    read_u16(s, i) as u32 + 65536 * (read_u16(s, i + 2) as u32)
}

fn read_u64(s: &[u8], i: usize) -> (r: u64)
    requires
        i + 8 <= s@.len(),
    ensures
        r == le_u64(s@, i as int),
{
    // The slice's length is a usize, so the offsets below cannot overflow.
    let _len = s.len();
    read_u32(s, i) as u64 + 4294967296 * (read_u32(s, i + 4) as u64)
}

/// Copies `s[start..end]`.
pub(crate) fn copy_bytes(s: &[u8], start: usize, end: usize) -> (r: Vec<u8>)
    requires
        start <= end <= s@.len(),
    ensures
        r@ == s@.subrange(start as int, end as int),
{
    let mut r: Vec<u8> = Vec::new();
    let mut i: usize = start;
    while i < end
        invariant
            start <= i <= end <= s@.len(),
            r@ == s@.subrange(start as int, i as int),
        decreases end - i,
    {
        r.push(s[i]);
        i = i + 1;
        assert(r@ =~= s@.subrange(start as int, i as int));
    }
    r
}

proof fn lemma_text_len_bound(s: Seq<u8>, start: nat)
    ensures
        start + text_len(s, start) <= s.len() || text_len(s, start) == 0,
    decreases s.len() - start,
{
    if start < s.len() && s[start as int] != 0 {
        lemma_text_len_bound(s, start + 1);
    }
}

/// Reads the zero-terminated string at `start`: its bytes and the position after its terminator.
fn read_cstr(s: &[u8], start: usize) -> (r: Option<(Vec<u8>, usize)>)
    requires
        start <= s@.len(),
    ensures
        start + text_len(s@, start as nat) < s@.len() ==> (r matches Some((t, next)) && t@
            == s@.subrange(start as int, start + text_len(s@, start as nat)) && next == start
            + text_len(s@, start as nat) + 1),
        start + text_len(s@, start as nat) >= s@.len() ==> r is None,
{
    let mut i: usize = start;
    while i < s.len() && s[i] != 0
        invariant
            start <= i <= s@.len(),
            text_len(s@, start as nat) == (i - start) + text_len(s@, i as nat),
        decreases s@.len() - i,
    {
        i = i + 1;
    }
    if i < s.len() {
        Some((copy_bytes(s, start, i), i + 1))
    } else {
        None
    }
}

/// One record of a supported version, as read from the section.
pub struct ProbeRecord {
    pub flags: u16,
    pub address: u64,
    pub provider: Vec<u8>,
    pub probe: Vec<u8>,
    pub arguments: Vec<Vec<u8>>,
}

impl View for ProbeRecord {
    type V = RecordView;

    open spec fn view(&self) -> RecordView {
        RecordView {
            flags: self.flags,
            address: self.address,
            provider: self.provider@,
            probe: self.probe@,
            arguments: texts_view(self.arguments@),
        }
    }
}

/// Reads `n` zero-terminated strings one after the other from `start`.
fn read_cstrs(s: &[u8], start: usize, n: usize) -> (r: Option<Vec<Vec<u8>>>)
    requires
        start <= s@.len(),
    ensures
        texts(s@, start as nat, n as nat) matches Some(t) ==> (r matches Some(v) && texts_view(
            v@,
        ) == t),
        texts(s@, start as nat, n as nat) is None ==> r is None,
{
    let mut out: Vec<Vec<u8>> = Vec::new();
    let mut pos: usize = start;
    let mut k: usize = 0;
    while k < n
        invariant
            k <= n,
            pos <= s@.len(),
            texts(s@, start as nat, n as nat) == match texts(s@, pos as nat, (n - k) as nat) {
                Some(rest) => Some(texts_view(out@) + rest),
                None => None::<Seq<Seq<u8>>>,
            },
        decreases n - k,
    {
        match read_cstr(s, pos) {
            Some((t, next)) => {
                proof {
                    let rest = texts(s@, next as nat, (n - k - 1) as nat);
                    if let Some(r) = rest {
                        assert(texts_view(out@.push(t)) =~= texts_view(out@) + seq![t@]);
                        assert(texts_view(out@) + (seq![t@] + r) =~= texts_view(out@) + seq![t@]
                            + r);
                    }
                }
                out.push(t);
                pos = next;
                k = k + 1;
            },
            None => {
                return None;
            },
        }
    }
    assert(texts_view(out@) + Seq::<Seq<u8>>::empty() =~= texts_view(out@));
    Some(out)
}

/// Decodes one record; `Ok(None)` for a record of a newer version, which is to be skipped.
pub fn decode_rec(rec: &[u8]) -> (r: Result<Option<ProbeRecord>, Error>)
    ensures
        match record_spec(rec@) {
            Ok(Some(v)) => r matches Ok(Some(x)) && x@ == v,
            Ok(None) => r matches Ok(None),
            Err(e) => r == Err::<Option<ProbeRecord>, Error>(e),
        },
{
    if rec.len() < 5 {
        return Err(Error::TruncatedRecord);
    }
    if rec[4] > PROBE_REC_VERSION {
        return Ok(None);
    }
    if rec.len() < RECORD_HEADER_LEN {
        return Err(Error::TruncatedRecord);
    }
    let n_args = rec[5] as usize;
    let flags = read_u16(rec, 6);
    let address = read_u64(rec, 8);
    match read_cstrs(rec, RECORD_HEADER_LEN, n_args + 2) {
        None => Err(Error::TruncatedRecord),
        Some(mut t) => {
            if !all_utf8_exec(&t) {
                return Err(Error::InvalidUtf8);
            }
            let ghost tv = texts_view(t@);
            proof {
                lemma_texts_len(rec@, RECORD_HEADER_LEN as nat, (n_args + 2) as nat);
            }
            let arguments = t.split_off(2);
            let probe = t.pop().unwrap();
            let provider = t.pop().unwrap();
            proof {
                assert(texts_view(arguments@) =~= tv.subrange(2, tv.len() as int));
            }
            Ok(Some(ProbeRecord { flags, address, provider, probe, arguments }))
        },
    }
}

pub open spec fn records_view(v: Seq<ProbeRecord>) -> Seq<RecordView> {
    v.map_values(|r: ProbeRecord| r@)
}

/// Splits a section into its length-prefixed records and decodes each, skipping newer versions.
pub fn decode_records(data: &[u8]) -> (r: Result<Vec<ProbeRecord>, Error>)
    ensures
        match section_spec(data@) {
            Ok(v) => r matches Ok(x) && records_view(x@) == v,
            Err(e) => r == Err::<Vec<ProbeRecord>, Error>(e),
        },
{
    let mut out: Vec<ProbeRecord> = Vec::new();
    let mut pos: usize = 0;
    assert(data@.subrange(0, data@.len() as int) =~= data@);
    proof {
        if let Ok(v) = section_spec(data@) {
            assert(records_view(out@) + v =~= v);
        }
    }
    while pos < data.len()
        invariant
            pos <= data@.len(),
            section_spec(data@) == match section_spec(data@.subrange(pos as int, data@.len() as int)) {
                Ok(rest) => Ok(records_view(out@) + rest),
                Err(e) => Err(e),
            },
        decreases data@.len() - pos,
    {
        let ghost rest = data@.subrange(pos as int, data@.len() as int);
        if data.len() - pos < 4 {
            return Err(Error::TruncatedRecord);
        }
        let len = read_u32(data, pos) as usize;
        assert(le_u32(rest, 0) == le_u32(data@, pos as int));
        if len < 5 || len > data.len() - pos {
            return Err(Error::TruncatedRecord);
        }
        let rec = slice_subrange(data, pos, pos + len);
        assert(rec@ =~= rest.subrange(0, len as int));
        assert(data@.subrange((pos + len) as int, data@.len() as int) =~= rest.subrange(
            len as int,
            rest.len() as int,
        ));
        match decode_rec(rec) {
            Err(e) => {
                return Err(e);
            },
            Ok(None) => {},
            Ok(Some(x)) => {
                proof {
                    let tail = section_spec(data@.subrange((pos + len) as int, data@.len() as int));
                    if let Ok(t) = tail {
                        assert(records_view(out@.push(x)) =~= records_view(out@) + seq![x@]);
                        assert(records_view(out@) + (seq![x@] + t) =~= records_view(out@)
                            + seq![x@] + t);
                    }
                }
                out.push(x);
            },
        }
        pos = pos + len;
    }
    assert(records_view(out@) + Seq::<RecordView>::empty() =~= records_view(out@));
    Ok(out)
}

} // verus!
