use vstd::prelude::*;

verus! {

/// What a decoded probe is, as a mathematical value.
pub struct ProbeView {
    pub name: Seq<u8>,
    pub function: Seq<u8>,
    pub address: u64,
    pub offsets: Seq<u64>,
    pub enabled_offsets: Seq<u64>,
    pub arguments: Seq<Seq<u8>>,
}

/// What a decoded provider is, as a mathematical value.
pub struct ProviderView {
    pub name: Seq<u8>,
    pub probes: Seq<ProbeView>,
}

/// One probe found in a probe-record section.
pub struct Probe {
    /// The probe's name, at most 63 bytes.
    pub name: Vec<u8>,
    /// The function that holds the probe's first record, at most 127 bytes.
    pub function: Vec<u8>,
    /// The anchor address: the address of the probe's first record.
    pub address: u64,
    /// Offsets from the anchor of the regular probe points, in record order.
    pub offsets: Vec<u64>,
    /// Offsets from the anchor of the is-enabled probe points, in record order.
    pub enabled_offsets: Vec<u64>,
    /// Argument type descriptions of the latest record, each at most 127 bytes.
    pub arguments: Vec<Vec<u8>>,
}

/// One provider found in a probe-record section, with its probes in order of appearance.
pub struct Provider {
    pub name: Vec<u8>,
    pub probes: Vec<Probe>,
}

/// Everything decoded from one probe-record section.
pub struct Section {
    pub providers: Vec<Provider>,
}

/// The byte strings held in a vector of vectors.
pub open spec fn texts_view(v: Seq<Vec<u8>>) -> Seq<Seq<u8>> {
    v.map_values(|t: Vec<u8>| t@)
}

impl View for Probe {
    type V = ProbeView;

    open spec fn view(&self) -> ProbeView {
        ProbeView {
            name: self.name@,
            function: self.function@,
            address: self.address,
            offsets: self.offsets@,
            enabled_offsets: self.enabled_offsets@,
            arguments: texts_view(self.arguments@),
        }
    }
}

/// The values of a vector of probes.
pub open spec fn probes_view(v: Seq<Probe>) -> Seq<ProbeView> {
    v.map_values(|p: Probe| p@)
}

impl View for Provider {
    type V = ProviderView;

    open spec fn view(&self) -> ProviderView {
        ProviderView { name: self.name@, probes: probes_view(self.probes@) }
    }
}

/// The values of a vector of providers.
pub open spec fn providers_view(v: Seq<Provider>) -> Seq<ProviderView> {
    v.map_values(|p: Provider| p@)
}

impl View for Section {
    type V = Seq<ProviderView>;

    open spec fn view(&self) -> Seq<ProviderView> {
        providers_view(self.providers@)
    }
}

/// No two probes of a provider share a name.
pub open spec fn probe_names_unique(qs: Seq<ProbeView>) -> bool {
    forall|i: int, j: int| 0 <= i < j < qs.len() ==> qs[i].name != qs[j].name
}

/// No two providers share a name, and no provider repeats a probe name.
pub open spec fn well_formed(ps: Seq<ProviderView>) -> bool {
    &&& forall|i: int, j: int| 0 <= i < j < ps.len() ==> ps[i].name != ps[j].name
    &&& forall|i: int| 0 <= i < ps.len() ==> probe_names_unique(#[trigger] ps[i].probes)
}

pub(crate) fn bytes_eq(a: &[u8], b: &[u8]) -> (r: bool)
    ensures
        r == (a@ == b@),
{
    if a.len() != b.len() {
        return false;
    }
    let mut i: usize = 0;
    while i < a.len()
        invariant
            a@.len() == b@.len(),
            i <= a@.len(),
            a@.take(i as int) == b@.take(i as int),
        decreases a@.len() - i,
    {
        if a[i] != b[i] {
            return false;
        }
        i = i + 1;
        assert(a@.take(i as int) =~= a@.take((i - 1) as int).push(a@[i - 1]));
        assert(b@.take(i as int) =~= b@.take((i - 1) as int).push(b@[i - 1]));
    }
    assert(a@ =~= a@.take(i as int));
    assert(b@ =~= b@.take(i as int));
    true
}

impl Section {
    /// The provider named `name`, if the section has one.
    pub fn provider(&self, name: &[u8]) -> (r: Option<&Provider>)
        ensures
            match r {
                Some(p) => p.name@ == name@ && exists|i: int|
                    0 <= i < self.providers@.len() && self.providers@[i] == *p,
                None => forall|i: int|
                    0 <= i < self.providers@.len() ==> self.providers@[i].name@ != name@,
            },
    {
        let mut i: usize = 0;
        while i < self.providers.len()
            invariant
                i <= self.providers@.len(),
                forall|k: int| 0 <= k < i ==> self.providers@[k].name@ != name@,
            decreases self.providers@.len() - i,
        {
            if bytes_eq(self.providers[i].name.as_slice(), name) {
                return Some(&self.providers[i]);
            }
            i = i + 1;
        }
        None
    }
}

impl Provider {
    /// The probe named `name`, if the provider has one.
    pub fn probe(&self, name: &[u8]) -> (r: Option<&Probe>)
        ensures
            match r {
                Some(q) => q.name@ == name@ && exists|j: int|
                    0 <= j < self.probes@.len() && self.probes@[j] == *q,
                None => forall|j: int|
                    0 <= j < self.probes@.len() ==> self.probes@[j].name@ != name@,
            },
    {
        let mut j: usize = 0;
        while j < self.probes.len()
            invariant
                j <= self.probes@.len(),
                forall|k: int| 0 <= k < j ==> self.probes@[k].name@ != name@,
            decreases self.probes@.len() - j,
        {
            if bytes_eq(self.probes[j].name.as_slice(), name) {
                return Some(&self.probes[j]);
            }
            j = j + 1;
        }
        None
    }
}

} // verus!
