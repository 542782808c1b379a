//! Accumulating decoded records into providers and probes.
use vstd::prelude::*;

use crate::error::Error;
use crate::model::{
    bytes_eq, probes_view, providers_view, texts_view, well_formed, Probe, ProbeView, Provider,
    ProviderView, Section,
};
use crate::record::{decode_records, record_spec, records_view, section_spec, ProbeRecord, RecordView};

verus! {

pub const MAX_PROVIDER_NAME_LEN: usize = 64;

pub const MAX_PROBE_NAME_LEN: usize = 64;

pub const MAX_FUNC_NAME_LEN: usize = 128;

pub const MAX_ARG_TYPE_LEN: usize = 128;

/// `s` cut to fit, with its terminator, in a buffer of `limit` bytes.
pub open spec fn limited(s: Seq<u8>, limit: nat) -> Seq<u8> {
    if s.len() + 1 <= limit {
        s
    } else {
        s.take(limit - 1)
    }
}

pub open spec fn limited_all(v: Seq<Seq<u8>>, limit: nat) -> Seq<Seq<u8>> {
    v.map_values(|s: Seq<u8>| limited(s, limit))
}

/// The lower-case hexadecimal digit for `d`.
pub open spec fn hex_digit(d: nat) -> u8 {
    if d < 10 {
        (48 + d) as u8
    } else {
        (87 + d) as u8
    }
}

/// `n` in lower-case hexadecimal, without leading zeros.
pub open spec fn hex_text(n: nat) -> Seq<u8>
    decreases n,
{
    if n < 16 {
        seq![hex_digit(n)]
    } else {
        hex_text(n / 16) + seq![hex_digit(n % 16)]
    }
}

/// The name given to a function that could not be resolved: `?0x` and the address in hex.
pub open spec fn unresolved_name(address: u64) -> Seq<u8> {
    seq![63u8, 48u8, 120u8] + hex_text(address as nat)
}

/// The function name a new probe gets, from what the resolver returned for its address.
pub open spec fn function_name(resolved: Option<Seq<u8>>, address: u64) -> Seq<u8> {
    match resolved {
        Some(f) => limited(f, MAX_FUNC_NAME_LEN as nat),
        None => unresolved_name(address),
    }
}

pub open spec fn new_probe(r: RecordView, name: Seq<u8>, function: Seq<u8>) -> ProbeView {
    ProbeView {
        name,
        function,
        address: r.address,
        offsets: if r.flags == 0 { seq![0u64] } else { Seq::empty() },
        enabled_offsets: if r.flags == 0 { Seq::empty() } else { seq![0u64] },
        arguments: limited_all(r.arguments, MAX_ARG_TYPE_LEN as nat),
    }
}

/// A later record of probe `q`, whose address is not below the anchor.
pub open spec fn extend_probe(q: ProbeView, r: RecordView) -> ProbeView {
    let off = (r.address - q.address) as u64;
    ProbeView {
        offsets: if r.flags == 0 { q.offsets.push(off) } else { q.offsets },
        enabled_offsets: if r.flags == 0 { q.enabled_offsets } else { q.enabled_offsets.push(off) },
        arguments: limited_all(r.arguments, MAX_ARG_TYPE_LEN as nat),
        ..q
    }
}

pub open spec fn has_probe(qs: Seq<ProbeView>, name: Seq<u8>) -> bool {
    exists|j: int| 0 <= j < qs.len() && qs[j].name == name
}

pub open spec fn probe_index(qs: Seq<ProbeView>, name: Seq<u8>) -> int {
    choose|j: int| 0 <= j < qs.len() && qs[j].name == name
}

pub open spec fn has_provider(ps: Seq<ProviderView>, name: Seq<u8>) -> bool {
    exists|i: int| 0 <= i < ps.len() && ps[i].name == name
}

pub open spec fn provider_index(ps: Seq<ProviderView>, name: Seq<u8>) -> int {
    choose|i: int| 0 <= i < ps.len() && ps[i].name == name
}

/// The probes of a provider once record `r` is added to the probe named `name`.
pub open spec fn probes_step(qs: Seq<ProbeView>, r: RecordView, name: Seq<u8>, function: Seq<u8>) -> Result<
    Seq<ProbeView>,
    Error,
> {
    if has_probe(qs, name) {
        let j = probe_index(qs, name);
        if r.address < qs[j].address {
            Err(Error::AddressOrderingViolation)
        } else {
            Ok(qs.update(j, extend_probe(qs[j], r)))
        }
    } else {
        Ok(qs.push(new_probe(r, name, function)))
    }
}

/// The providers once record `r` is added; `resolved` is what the resolver said of its address.
pub open spec fn record_step(ps: Seq<ProviderView>, r: RecordView, resolved: Option<Seq<u8>>) -> Result<
    Seq<ProviderView>,
    Error,
> {
    let pname = limited(r.provider, MAX_PROVIDER_NAME_LEN as nat);
    let qname = limited(r.probe, MAX_PROBE_NAME_LEN as nat);
    let fname = function_name(resolved, r.address);
    if has_provider(ps, pname) {
        let i = provider_index(ps, pname);
        match probes_step(ps[i].probes, r, qname, fname) {
            Ok(qs) => Ok(ps.update(i, ProviderView { name: pname, probes: qs })),
            Err(e) => Err(e),
        }
    } else {
        Ok(ps.push(ProviderView { name: pname, probes: seq![new_probe(r, qname, fname)] }))
    }
}

/// The providers that the records give, in order; `resolved[k]` is the resolver's answer for record `k`.
pub open spec fn build_spec(recs: Seq<RecordView>, resolved: Seq<Option<Seq<u8>>>) -> Result<
    Seq<ProviderView>,
    Error,
>
    decreases recs.len(),
{
    if recs.len() == 0 {
        Ok(Seq::empty())
    } else {
        match build_spec(recs.drop_last(), resolved) {
            Ok(ps) => record_step(ps, recs.last(), resolved[recs.len() - 1]),
            Err(e) => Err(e),
        }
    }
}

pub open spec fn opt_view(o: Option<Vec<u8>>) -> Option<Seq<u8>> {
    match o {
        Some(v) => Some(v@),
        None => None,
    }
}

pub open spec fn resolved_view(v: Seq<Option<Vec<u8>>>) -> Seq<Option<Seq<u8>>> {
    v.map_values(|o: Option<Vec<u8>>| opt_view(o))
}

/// Truncates `s` so that it fits, with a terminator, in `limit` bytes.
pub fn limit_string_length(s: &[u8], limit: usize) -> (r: Vec<u8>)
    requires
        limit >= 1,
    ensures
        r@ == limited(s@, limit as nat),
{
    let n = if s.len() < limit { s.len() } else { limit - 1 };
    let mut r: Vec<u8> = Vec::new();
    let mut i: usize = 0;
    while i < n
        invariant
            n <= s@.len(),
            i <= n,
            r@ == s@.take(i as int),
        decreases n - i,
    {
        r.push(s[i]);
        i = i + 1;
        assert(r@ =~= s@.take(i as int));
    }
    assert(s@.take(n as int) =~= limited(s@, limit as nat));
    r
}

fn limit_all(v: &Vec<Vec<u8>>, limit: usize) -> (r: Vec<Vec<u8>>)
    requires
        limit >= 1,
    ensures
        texts_view(r@) == limited_all(texts_view(v@), limit as nat),
{
    let mut r: Vec<Vec<u8>> = Vec::new();
    let mut i: usize = 0;
    while i < v.len()
        invariant
            limit >= 1,
            i <= v@.len(),
            texts_view(r@) =~= limited_all(texts_view(v@), limit as nat).take(i as int),
        decreases v@.len() - i,
    {
        let t = limit_string_length(v[i].as_slice(), limit);
        let ghost r0 = r@;
        r.push(t);
        proof {
            assert(texts_view(v@)[i as int] == v@[i as int]@);
            assert(texts_view(r@) =~= texts_view(r0).push(t@));
        }
        i = i + 1;
        assert(texts_view(r@) =~= limited_all(texts_view(v@), limit as nat).take(i as int));
    }
    assert(limited_all(texts_view(v@), limit as nat).take(i as int) =~= limited_all(
        texts_view(v@),
        limit as nat,
    ));
    r
}

fn push_hex(out: &mut Vec<u8>, n: u64)
    ensures
        final(out)@ == old(out)@ + hex_text(n as nat),
    decreases n,
{
    if n >= 16 {
        push_hex(out, n / 16);
    }
    let d = (n % 16) as u8;
    let c = if d < 10 { 48 + d } else { 87 + d };
    out.push(c);
    proof {
        if n >= 16 {
            assert(old(out)@ + hex_text(n as nat) =~= old(out)@ + hex_text((n / 16) as nat) + seq![c]);
        } else {
            assert(old(out)@ + hex_text(n as nat) =~= old(out)@ + seq![c]);
        }
    }
}

/// The placeholder name `?0x<hex address>` for an address that no symbol covers.
pub fn unresolved_function_name(address: u64) -> (r: Vec<u8>)
    ensures
        r@ == unresolved_name(address),
{
    let mut out: Vec<u8> = Vec::new();
    out.push(63u8);
    out.push(48u8);
    out.push(120u8);
    push_hex(&mut out, address);
    assert(out@ =~= unresolved_name(address));
    out
}

fn find_provider(ps: &Vec<Provider>, name: &[u8]) -> (r: Option<usize>)
    ensures
        match r {
            Some(i) => i < ps@.len() && ps@[i as int].name@ == name@,
            None => !has_provider(providers_view(ps@), name@),
        },
{
    let mut i: usize = 0;
    while i < ps.len()
        invariant
            i <= ps@.len(),
            forall|k: int| 0 <= k < i ==> ps@[k].name@ != name@,
        decreases ps@.len() - i,
    {
        if bytes_eq(ps[i].name.as_slice(), name) {
            return Some(i);
        }
        i = i + 1;
    }
    assert forall|k: int| 0 <= k < ps@.len() implies providers_view(ps@)[k].name != name@ by {
        assert(providers_view(ps@)[k] == ps@[k]@);
    }
    None
}

fn find_probe(qs: &Vec<Probe>, name: &[u8]) -> (r: Option<usize>)
    ensures
        match r {
            Some(j) => j < qs@.len() && qs@[j as int].name@ == name@,
            None => !has_probe(probes_view(qs@), name@),
        },
{
    let mut j: usize = 0;
    while j < qs.len()
        invariant
            j <= qs@.len(),
            forall|k: int| 0 <= k < j ==> qs@[k].name@ != name@,
        decreases qs@.len() - j,
    {
        if bytes_eq(qs[j].name.as_slice(), name) {
            return Some(j);
        }
        j = j + 1;
    }
    assert forall|k: int| 0 <= k < qs@.len() implies probes_view(qs@)[k].name != name@ by {
        assert(probes_view(qs@)[k] == qs@[k]@);
    }
    None
}

fn make_probe(r: &ProbeRecord, name: Vec<u8>, function: Vec<u8>) -> (q: Probe)
    ensures
        q@ == new_probe(r@, name@, function@),
{
    let mut offsets: Vec<u64> = Vec::new();
    let mut enabled_offsets: Vec<u64> = Vec::new();
    if r.flags == 0 {
        offsets.push(0);
    } else {
        enabled_offsets.push(0);
    }
    let arguments = limit_all(&r.arguments, MAX_ARG_TYPE_LEN);
    let q = Probe { name, function, address: r.address, offsets, enabled_offsets, arguments };
    assert(q@.offsets =~= new_probe(r@, name@, function@).offsets);
    assert(q@.enabled_offsets =~= new_probe(r@, name@, function@).enabled_offsets);
    q
}

/// Adds one decoded record to `providers`, creating its provider and probe if need be.
///
/// `resolved` is the name of the function at the record's address, if one was found; it names
/// the probe's function only when this record creates the probe. On an error nothing changes.
pub fn insert_record(providers: &mut Vec<Provider>, r: &ProbeRecord, resolved: Option<Vec<u8>>) -> (res:
    Result<(), Error>)
    requires
        well_formed(providers_view(old(providers)@)),
    ensures
        well_formed(providers_view(final(providers)@)),
        match record_step(providers_view(old(providers)@), r@, opt_view(resolved)) {
            Ok(ps) => res is Ok && providers_view(final(providers)@) == ps,
            Err(e) => res == Err::<(), Error>(e) && final(providers)@ == old(providers)@,
        },
{
    let ghost ps0 = providers_view(providers@);
    let pname = limit_string_length(r.provider.as_slice(), MAX_PROVIDER_NAME_LEN);
    let qname = limit_string_length(r.probe.as_slice(), MAX_PROBE_NAME_LEN);
    match find_provider(providers, pname.as_slice()) {
        Some(i) => {
            proof {
                assert(ps0[i as int] == providers@[i as int]@);
                assert(provider_index(ps0, pname@) == i);
            }
            let ghost qs0 = ps0[i as int].probes;
            match find_probe(&providers[i].probes, qname.as_slice()) {
                Some(j) => {
                    let anchor = providers[i].probes[j].address;
                    proof {
                        assert(qs0[j as int] == providers@[i as int].probes@[j as int]@);
                        assert(probe_index(qs0, qname@) == j);
                    }
                    if r.address < anchor {
                        return Err(Error::AddressOrderingViolation);
                    }
                    let arguments = limit_all(&r.arguments, MAX_ARG_TYPE_LEN);
                    let mut prov = providers.remove(i);
                    let mut q = prov.probes.remove(j);
                    let ghost q0 = q@;
                    q.arguments = arguments;
                    if r.flags == 0 {
                        q.offsets.push(r.address - anchor);
                    } else {
                        q.enabled_offsets.push(r.address - anchor);
                    }
                    assert(q@ =~= extend_probe(q0, r@));
                    prov.probes.insert(j, q);
                    assert(probes_view(prov.probes@) =~= qs0.update(j as int, extend_probe(q0, r@)));
                    providers.insert(i, prov);
                    assert(providers_view(providers@) =~= ps0.update(
                        i as int,
                        ProviderView { name: pname@, probes: qs0.update(j as int, extend_probe(q0, r@)) },
                    ));
                },
                None => {
                    let function = match resolved {
                        Some(f) => limit_string_length(f.as_slice(), MAX_FUNC_NAME_LEN),
                        None => unresolved_function_name(r.address),
                    };
                    let q = make_probe(r, qname, function);
                    let mut prov = providers.remove(i);
                    prov.probes.push(q);
                    assert(probes_view(prov.probes@) =~= qs0.push(q@));
                    providers.insert(i, prov);
                    assert(providers_view(providers@) =~= ps0.update(
                        i as int,
                        ProviderView { name: pname@, probes: qs0.push(q@) },
                    ));
                },
            }
        },
        None => {
            let function = match resolved {
                Some(f) => limit_string_length(f.as_slice(), MAX_FUNC_NAME_LEN),
                None => unresolved_function_name(r.address),
            };
            let q = make_probe(r, qname, function);
            let mut probes: Vec<Probe> = Vec::new();
            probes.push(q);
            providers.push(Provider { name: pname, probes });
            assert(probes_view(probes@) =~= seq![q@]);
            assert(providers_view(providers@) =~= ps0.push(
                ProviderView { name: pname@, probes: seq![q@] },
            ));
        },
    }
    Ok(())
}

proof fn lemma_build_err(recs: Seq<RecordView>, resolved: Seq<Option<Seq<u8>>>, k: int, e: Error)
    requires
        0 <= k <= recs.len(),
        build_spec(recs.take(k), resolved) == Err::<Seq<ProviderView>, Error>(e),
    ensures
        build_spec(recs, resolved) == Err::<Seq<ProviderView>, Error>(e),
    decreases recs.len() - k,
{
    if k < recs.len() {
        assert(recs.take(k + 1).drop_last() =~= recs.take(k));
        lemma_build_err(recs, resolved, k + 1, e);
    } else {
        assert(recs.take(k) =~= recs);
    }
}

/// Builds the providers from decoded records; `resolved[k]` names the function at record `k`'s
/// address, if one was found.
pub fn build_section(records: &Vec<ProbeRecord>, resolved: &Vec<Option<Vec<u8>>>) -> (r: Result<
    Section,
    Error,
>)
    requires
        resolved@.len() == records@.len(),
    ensures
        match build_spec(records_view(records@), resolved_view(resolved@)) {
            Ok(ps) => r matches Ok(sec) && sec@ == ps,
            Err(e) => r == Err::<Section, Error>(e),
        },
        r matches Ok(sec) ==> well_formed(sec@),
{
    let ghost recs = records_view(records@);
    let ghost fns = resolved_view(resolved@);
    let mut providers: Vec<Provider> = Vec::new();
    let mut k: usize = 0;
    assert(recs.take(0) =~= Seq::<RecordView>::empty());
    assert(providers_view(providers@) =~= Seq::<ProviderView>::empty());
    while k < records.len()
        invariant
            k <= records@.len(),
            resolved@.len() == records@.len(),
            recs == records_view(records@),
            fns == resolved_view(resolved@),
            well_formed(providers_view(providers@)),
            build_spec(recs.take(k as int), fns) == Ok::<Seq<ProviderView>, Error>(
                providers_view(providers@),
            ),
        decreases records@.len() - k,
    {
        let f = match &resolved[k] {
            Some(v) => Some(v.clone()),
            None => None,
        };
        proof {
            assert(recs.take(k + 1).drop_last() =~= recs.take(k as int));
            assert(opt_view(f) == fns[k as int]) by {
                if let Some(v) = f {
                    assert(v@ =~= resolved@[k as int]->Some_0@);
                }
            }
        }
        match insert_record(&mut providers, &records[k], f) {
            Ok(()) => {},
            Err(e) => {
                proof {
                    lemma_build_err(recs, fns, k + 1, e);
                }
                return Err(e);
            },
        }
        k = k + 1;
    }
    assert(recs.take(k as int) =~= recs);
    Ok(Section { providers })
}

/// Finds the function that holds an address, for naming the probes found there.
pub trait SymbolResolver {
    /// The name of the function whose code covers `address`, if one is known.
    fn function_name(&self, address: u64) -> Option<Vec<u8>>;
}

/// A resolver that knows no symbols, so every probe gets the `?0x<address>` name.
pub struct NoSymbols;

impl SymbolResolver for NoSymbols {
    fn function_name(&self, _address: u64) -> Option<Vec<u8>> {
        None
    }
}

/// Asks `resolver` for the function at each record's address.
pub fn resolve_all<R: SymbolResolver>(records: &Vec<ProbeRecord>, resolver: &R) -> (r: Vec<
    Option<Vec<u8>>,
>)
    ensures
        r@.len() == records@.len(),
{
    let mut out: Vec<Option<Vec<u8>>> = Vec::new();
    let mut k: usize = 0;
    while k < records.len()
        invariant
            k <= records@.len(),
            out@.len() == k,
        decreases records@.len() - k,
    {
        out.push(resolver.function_name(records[k].address));
        k = k + 1;
    }
    out
}

/// `r` is what decoding the section `data` gives for some answers of the resolver: the error
/// met in scanning it, or the providers that its records give.
pub open spec fn section_outcome(data: Seq<u8>, r: Result<Option<Section>, Error>) -> bool {
    match section_spec(data) {
        Err(e) => r == Err::<Option<Section>, Error>(e),
        Ok(recs) => exists|fns: Seq<Option<Seq<u8>>>|
            #![trigger build_spec(recs, fns)]
            fns.len() == recs.len() && match build_spec(recs, fns) {
                Ok(ps) => r matches Ok(Some(sec)) && sec@ == ps && well_formed(ps),
                Err(e) => r == Err::<Option<Section>, Error>(e),
            },
    }
}

/// Decodes a whole probe-record section.
///
/// Whatever the resolver answers, the providers are those that the section's records give
/// with some answer for each record; the answers only name the probes' functions.
pub fn process_section<R: SymbolResolver>(data: &[u8], resolver: &R) -> (r: Result<
    Option<Section>,
    Error,
>)
    ensures
        section_outcome(data@, r),
        data@.len() == 0 ==> (r matches Ok(Some(sec)) && sec.providers@.len() == 0),
{
    let records = match decode_records(data) {
        Ok(v) => v,
        Err(e) => {
            return Err(e);
        },
    };
    let resolved = resolve_all(&records, resolver);
    let ghost fns = resolved_view(resolved@);
    let r = build_section(&records, &resolved);
    proof {
        assert(fns.len() == records_view(records@).len());
        if data@.len() == 0 {
            assert(records_view(records@) =~= Seq::<RecordView>::empty());
            assert(build_spec(records_view(records@), fns) == Ok::<Seq<ProviderView>, Error>(
                Seq::empty(),
            ));
        }
    }
    match r {
        Ok(sec) => {
            assert(sec.providers@.len() == sec@.len());
            Ok(Some(sec))
        },
        Err(e) => Err(e),
    }
}

/// Decodes one record and adds it to `providers`; a record of a newer version changes nothing.
pub fn process_rec<R: SymbolResolver>(providers: &mut Vec<Provider>, rec: &[u8], resolver: &R) -> (res:
    Result<(), Error>)
    requires
        well_formed(providers_view(old(providers)@)),
    ensures
        well_formed(providers_view(final(providers)@)),
        match record_spec(rec@) {
            Err(e) => res == Err::<(), Error>(e) && final(providers)@ == old(providers)@,
            Ok(None) => res is Ok && final(providers)@ == old(providers)@,
            Ok(Some(v)) => exists|f: Option<Seq<u8>>|
                #![trigger record_step(providers_view(old(providers)@), v, f)]
                match record_step(providers_view(old(providers)@), v, f) {
                    Ok(ps) => res is Ok && providers_view(final(providers)@) == ps,
                    Err(e) => res == Err::<(), Error>(e) && final(providers)@ == old(providers)@,
                },
        },
{
    match crate::record::decode_rec(rec) {
        Err(e) => Err(e),
        Ok(None) => Ok(()),
        Ok(Some(r)) => {
            let f = resolver.function_name(r.address);
            let ghost fv = opt_view(f);
            let res = insert_record(providers, &r, f);
            assert(match record_step(providers_view(old(providers)@), r@, fv) {
                Ok(ps) => res is Ok && providers_view(providers@) == ps,
                Err(e) => res == Err::<(), Error>(e) && providers@ == old(providers)@,
            });
            res
        },
    }
}

} // verus!
