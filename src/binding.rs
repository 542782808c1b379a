//! The parameter types that generated probe stubs take.
use vstd::prelude::*;

use crate::provider_def::{ArgumentType, ProbeDef, ProviderDef, ProviderDefView};
use crate::record::copy_bytes;

verus! {

/// A native parameter type of a generated probe stub.
#[derive(Debug, Clone, Copy, PartialEq, Eq, Structural)]
pub enum NativeType {
    U8,
    U16,
    U32,
    U64,
    I8,
    I16,
    I32,
    I64,
    /// An owned, heap-allocated string.
    OwnedString,
    F32,
    F64,
}

/// An integer argument whose bit width has no native type.
#[derive(Debug, Clone, Copy, PartialEq, Eq, Structural)]
pub struct ConfigurationError {
    pub width: u32,
}

/// The native type of an argument type, if its width is one of 8, 16, 32 and 64.
pub open spec fn native_type_of(t: ArgumentType) -> Option<NativeType> {
    match t {
        ArgumentType::UnsignedInt(8) => Some(NativeType::U8),
        ArgumentType::UnsignedInt(16) => Some(NativeType::U16),
        ArgumentType::UnsignedInt(32) => Some(NativeType::U32),
        ArgumentType::UnsignedInt(64) => Some(NativeType::U64),
        ArgumentType::SignedInt(8) => Some(NativeType::I8),
        ArgumentType::SignedInt(16) => Some(NativeType::I16),
        ArgumentType::SignedInt(32) => Some(NativeType::I32),
        ArgumentType::SignedInt(64) => Some(NativeType::I64),
        ArgumentType::String => Some(NativeType::OwnedString),
        ArgumentType::Float => Some(NativeType::F32),
        ArgumentType::Double => Some(NativeType::F64),
        _ => None,
    }
}

pub open spec fn width_of_type(t: ArgumentType) -> u32 {
    match t {
        ArgumentType::UnsignedInt(w) => w,
        ArgumentType::SignedInt(w) => w,
        _ => 0,
    }
}

/// Maps an argument type to the native parameter type of its stub.
pub fn native_type(t: ArgumentType) -> (r: Result<NativeType, ConfigurationError>)
    ensures
        match native_type_of(t) {
            Some(n) => r == Ok::<NativeType, ConfigurationError>(n),
            None => r == Err::<NativeType, ConfigurationError>(
                ConfigurationError { width: width_of_type(t) },
            ),
        },
{
    match t {
        ArgumentType::UnsignedInt(8) => Ok(NativeType::U8),
        ArgumentType::UnsignedInt(16) => Ok(NativeType::U16),
        ArgumentType::UnsignedInt(32) => Ok(NativeType::U32),
        ArgumentType::UnsignedInt(64) => Ok(NativeType::U64),
        ArgumentType::SignedInt(8) => Ok(NativeType::I8),
        ArgumentType::SignedInt(16) => Ok(NativeType::I16),
        ArgumentType::SignedInt(32) => Ok(NativeType::I32),
        ArgumentType::SignedInt(64) => Ok(NativeType::I64),
        ArgumentType::String => Ok(NativeType::OwnedString),
        ArgumentType::Float => Ok(NativeType::F32),
        ArgumentType::Double => Ok(NativeType::F64),
        ArgumentType::UnsignedInt(w) => Err(ConfigurationError { width: w }),
        ArgumentType::SignedInt(w) => Err(ConfigurationError { width: w }),
    }
}

/// The stub generated for one probe: its name and its parameter types, `arg0`, `arg1`, ...
pub struct ProbeBinding {
    pub name: Vec<u8>,
    pub parameters: Vec<NativeType>,
}

/// The stubs generated for a provider, grouped under its name.
pub struct ProviderBinding {
    pub name: Vec<u8>,
    pub probes: Vec<ProbeBinding>,
}

pub open spec fn all_native(ts: Seq<ArgumentType>) -> bool {
    forall|m: int| 0 <= m < ts.len() ==> native_type_of(#[trigger] ts[m]) is Some
}

pub open spec fn params_of(ts: Seq<ArgumentType>) -> Seq<NativeType> {
    ts.map_values(|t: ArgumentType| native_type_of(t)->Some_0)
}

/// Every argument of every probe has a native type.
pub open spec fn bindable(d: ProviderDefView) -> bool {
    forall|k: int| 0 <= k < d.probes.len() ==> all_native(#[trigger] d.probes[k].arguments)
}

fn probe_binding(p: &ProbeDef) -> (r: Result<ProbeBinding, ConfigurationError>)
    ensures
        all_native(p.arguments@) ==> (r matches Ok(b) && b.name@ == p.name@ && b.parameters@
            == params_of(p.arguments@)),
        !all_native(p.arguments@) ==> (r matches Err(e) && exists|m: int|
            0 <= m < p.arguments@.len() && native_type_of(#[trigger] p.arguments@[m]) is None
                && width_of_type(p.arguments@[m]) == e.width),
{
    let mut parameters: Vec<NativeType> = Vec::new();
    let mut m: usize = 0;
    while m < p.arguments.len()
        invariant
            m <= p.arguments@.len(),
            all_native(p.arguments@.take(m as int)),
            parameters@ == params_of(p.arguments@.take(m as int)),
        decreases p.arguments@.len() - m,
    {
        match native_type(p.arguments[m]) {
            Ok(n) => {
                parameters.push(n);
            },
            Err(e) => {
                return Err(e);
            },
        }
        m = m + 1;
        assert(p.arguments@.take(m as int) =~= p.arguments@.take(m - 1).push(p.arguments@[m - 1]));
        assert(parameters@ =~= params_of(p.arguments@.take(m as int)));
    }
    assert(p.arguments@.take(m as int) =~= p.arguments@);
    Ok(ProbeBinding { name: copy_bytes(p.name.as_slice(), 0, p.name.len()), parameters })
}

pub open spec fn binding_matches(b: ProbeBinding, p: crate::provider_def::ProbeDefView) -> bool {
    b.name@ == p.name && b.parameters@ == params_of(p.arguments)
}

/// The stubs for a provider definition, one per probe in declaration order; fails on the first
/// argument whose bit width has no native type.
pub fn provider_bindings(def: &ProviderDef) -> (r: Result<ProviderBinding, ConfigurationError>)
    ensures
        bindable(def@) ==> (r matches Ok(b) && b.name@ == def@.name && b.probes@.len()
            == def@.probes.len() && forall|k: int|
            0 <= k < b.probes@.len() ==> binding_matches(#[trigger] b.probes@[k], def@.probes[k])),
        !bindable(def@) ==> (r matches Err(e) && exists|k: int, m: int|
            0 <= k < def@.probes.len() && 0 <= m < def@.probes[k].arguments.len()
                && native_type_of(#[trigger] def@.probes[k].arguments[m]) is None
                && width_of_type(def@.probes[k].arguments[m]) == e.width),
{
    let mut probes: Vec<ProbeBinding> = Vec::new();
    let mut k: usize = 0;
    while k < def.probes.len()
        invariant
            k <= def.probes@.len(),
            probes@.len() == k,
            forall|j: int| 0 <= j < k ==> all_native(#[trigger] def@.probes[j].arguments),
            forall|j: int| 0 <= j < k ==> binding_matches(#[trigger] probes@[j], def@.probes[j]),
        decreases def.probes@.len() - k,
    {
        assert(def@.probes[k as int] == def.probes@[k as int]@);
        match probe_binding(&def.probes[k]) {
            Ok(b) => {
                probes.push(b);
            },
            Err(e) => {
                proof {
                    let args = def@.probes[k as int].arguments;
                    assert(!all_native(args));
                    let m = choose|m: int|
                        0 <= m < args.len() && native_type_of(#[trigger] args[m]) is None
                            && width_of_type(args[m]) == e.width;
                    assert(native_type_of(def@.probes[k as int].arguments[m]) is None);
                }
                return Err(e);
            },
        }
        k = k + 1;
    }
    Ok(ProviderBinding { name: copy_bytes(def.name.as_slice(), 0, def.name.len()), probes })
}

} // verus!
