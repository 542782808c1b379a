//! Properties of decoding that relate several records or several calls.
use vstd::prelude::*;

use crate::decode::{
    build_spec, section_outcome, has_probe, has_provider, limited, probe_index, provider_index, record_step,
    MAX_PROBE_NAME_LEN, MAX_PROVIDER_NAME_LEN,
};
use crate::error::Error;
use crate::model::{well_formed, ProviderView, Section};
use crate::record::{le_u32, section_spec, RecordView, PROBE_REC_VERSION};

verus! {

/// A section holding one record whose names fit their limits decodes to exactly one provider
/// and one probe, carrying the record's provider name, probe name and address, whatever the
/// resolver answers.
pub proof fn lemma_single_record_decodes_exactly(
    data: Seq<u8>,
    r: RecordView,
    res: Result<Option<Section>, Error>,
)
    requires
        section_spec(data) == Ok::<Seq<RecordView>, Error>(seq![r]),
        r.provider.len() < MAX_PROVIDER_NAME_LEN,
        r.probe.len() < MAX_PROBE_NAME_LEN,
        section_outcome(data, res),
    ensures
        res matches Ok(Some(sec)) && sec@.len() == 1 && sec@[0].name == r.provider
            && sec@[0].probes.len() == 1 && sec@[0].probes[0].name == r.probe
            && sec@[0].probes[0].address == r.address,
{
    let recs = seq![r];
    let fns = choose|fns: Seq<Option<Seq<u8>>>|
        #![trigger build_spec(recs, fns)]
        fns.len() == recs.len() && match build_spec(recs, fns) {
            Ok(ps) => res matches Ok(Some(sec)) && sec@ == ps && well_formed(ps),
            Err(e) => res == Err::<Option<Section>, Error>(e),
        };
    assert(recs.drop_last() =~= Seq::<RecordView>::empty());
    assert(limited(r.provider, MAX_PROVIDER_NAME_LEN as nat) == r.provider);
    assert(limited(r.probe, MAX_PROBE_NAME_LEN as nat) == r.probe);
    assert(!has_provider(Seq::<ProviderView>::empty(), r.provider));
    assert(build_spec(recs.drop_last(), fns) == Ok::<Seq<ProviderView>, Error>(Seq::empty()));
    assert(recs.last() == r);
    assert(build_spec(recs, fns) == record_step(Seq::empty(), r, fns[0]));
}

/// A record of a newer format version is skipped: the section decodes as the rest does.
pub proof fn lemma_newer_version_skipped(rec: Seq<u8>, rest: Seq<u8>)
    requires
        rec.len() >= 5,
        le_u32(rec, 0) == rec.len(),
        rec[4] > PROBE_REC_VERSION,
    ensures
        section_spec(rec + rest) == section_spec(rest),
{
    let s = rec + rest;
    assert(s.subrange(0, rec.len() as int) =~= rec);
    assert(s.subrange(rec.len() as int, s.len() as int) =~= rest);
    assert(le_u32(s, 0) == le_u32(rec, 0));
}

/// A record whose address lies below the anchor of the probe it belongs to is rejected.
pub proof fn lemma_address_regression_rejected(
    ps: Seq<ProviderView>,
    r: RecordView,
    resolved: Option<Seq<u8>>,
)
    requires
        well_formed(ps),
        has_provider(ps, limited(r.provider, MAX_PROVIDER_NAME_LEN as nat)),
        has_probe(
            ps[provider_index(ps, limited(r.provider, MAX_PROVIDER_NAME_LEN as nat))].probes,
            limited(r.probe, MAX_PROBE_NAME_LEN as nat),
        ),
        r.address < ({
            let qs = ps[provider_index(ps, limited(r.provider, MAX_PROVIDER_NAME_LEN as nat))].probes;
            qs[probe_index(qs, limited(r.probe, MAX_PROBE_NAME_LEN as nat))].address
        }),
    ensures
        record_step(ps, r, resolved) == Err::<Seq<ProviderView>, Error>(
            Error::AddressOrderingViolation,
        ),
{
}

/// Two regular records of the same provider and probe, the second not below the first, give
/// one probe anchored at the first address, with offsets zero and the distance between them.
pub proof fn lemma_two_records_give_offsets(
    r1: RecordView,
    r2: RecordView,
    resolved: Seq<Option<Seq<u8>>>,
)
    requires
        r1.provider == r2.provider,
        r1.probe == r2.probe,
        r1.flags == 0,
        r2.flags == 0,
        r1.address <= r2.address,
        resolved.len() == 2,
    ensures
        build_spec(seq![r1, r2], resolved) matches Ok(ps) && ps.len() == 1 && ps[0].probes.len()
            == 1 && ps[0].probes[0].address == r1.address && ps[0].probes[0].offsets == seq![
            0u64,
            (r2.address - r1.address) as u64,
        ],
{
    let recs = seq![r1, r2];
    let pname = limited(r1.provider, MAX_PROVIDER_NAME_LEN as nat);
    let qname = limited(r1.probe, MAX_PROBE_NAME_LEN as nat);
    let one = seq![r1];
    assert(recs.drop_last() =~= one);
    assert(one.drop_last() =~= Seq::<RecordView>::empty());
    assert(!has_provider(Seq::<ProviderView>::empty(), pname));
    assert(build_spec(one.drop_last(), resolved) == Ok::<Seq<ProviderView>, Error>(Seq::empty()));
    let ps1 = record_step(Seq::empty(), r1, resolved[0])->Ok_0;
    assert(build_spec(one, resolved) == Ok::<Seq<ProviderView>, Error>(ps1));
    assert(ps1.len() == 1 && ps1[0].name == pname);
    assert(has_provider(ps1, pname));
    assert(provider_index(ps1, pname) == 0);
    let qs = ps1[0].probes;
    assert(qs.len() == 1 && qs[0].name == qname);
    assert(has_probe(qs, qname));
    assert(probe_index(qs, qname) == 0);
    assert(recs.last() == r2);
    let ps2 = record_step(ps1, r2, resolved[1])->Ok_0;
    assert(build_spec(recs, resolved) == Ok::<Seq<ProviderView>, Error>(ps2));
    assert(ps2[0].probes[0].offsets =~= seq![0u64, (r2.address - r1.address) as u64]);
}

} // verus!
