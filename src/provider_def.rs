//! The provider definition language: its grammar, the model it parses into, and the table
//! that maps argument types to native parameter types.
use vstd::prelude::*;

use crate::model::bytes_eq;
use crate::record::copy_bytes;
use vstd::slice::slice_subrange;
use vstd::string::StringSliceAdditionalSpecFns;

verus! {

/// The type of one probe argument, as written in a provider definition.
#[derive(Debug, Clone, Copy, PartialEq, Eq, Structural)]
pub enum ArgumentType {
    /// `uintN_t`, with the bit width `N` as written.
    UnsignedInt(u32),
    /// `intN_t`, with the bit width `N` as written.
    SignedInt(u32),
    String,
    Float,
    Double,
}

/// One probe of a provider definition.
pub struct ProbeDef {
    pub name: Vec<u8>,
    pub arguments: Vec<ArgumentType>,
}

/// A provider definition: its name and its probes in declaration order.
pub struct ProviderDef {
    pub name: Vec<u8>,
    pub probes: Vec<ProbeDef>,
}

/// A probe definition as a mathematical value.
pub struct ProbeDefView {
    pub name: Seq<u8>,
    pub arguments: Seq<ArgumentType>,
}

/// A provider definition as a mathematical value.
pub struct ProviderDefView {
    pub name: Seq<u8>,
    pub probes: Seq<ProbeDefView>,
}

impl View for ProbeDef {
    type V = ProbeDefView;

    open spec fn view(&self) -> ProbeDefView {
        ProbeDefView { name: self.name@, arguments: self.arguments@ }
    }
}

pub open spec fn probe_defs_view(v: Seq<ProbeDef>) -> Seq<ProbeDefView> {
    v.map_values(|p: ProbeDef| p@)
}

impl View for ProviderDef {
    type V = ProviderDefView;

    open spec fn view(&self) -> ProviderDefView {
        ProviderDefView { name: self.name@, probes: probe_defs_view(self.probes@) }
    }
}

/// Where a provider definition stops following the grammar.
#[derive(Debug, Clone, Copy, PartialEq, Eq, Structural)]
pub struct SyntaxError {
    /// Byte offset at which the parser gave up.
    pub position: usize,
}

pub open spec fn kw_provider() -> Seq<u8> {
    seq![112u8, 114u8, 111u8, 118u8, 105u8, 100u8, 101u8, 114u8]
}

pub open spec fn kw_probe() -> Seq<u8> {
    seq![112u8, 114u8, 111u8, 98u8, 101u8]
}

pub open spec fn kw_string() -> Seq<u8> {
    seq![115u8, 116u8, 114u8, 105u8, 110u8, 103u8]
}

pub open spec fn kw_float() -> Seq<u8> {
    seq![102u8, 108u8, 111u8, 97u8, 116u8]
}

pub open spec fn kw_double() -> Seq<u8> {
    seq![100u8, 111u8, 117u8, 98u8, 108u8, 101u8]
}

pub open spec fn kw_uint() -> Seq<u8> {
    seq![117u8, 105u8, 110u8, 116u8]
}

pub open spec fn kw_int() -> Seq<u8> {
    seq![105u8, 110u8, 116u8]
}

pub open spec fn kw_suffix() -> Seq<u8> {
    seq![95u8, 116u8]
}

pub open spec fn is_space(c: u8) -> bool {
    c == 32 || c == 9 || c == 10 || c == 13
}

pub open spec fn is_digit(c: u8) -> bool {
    48 <= c <= 57
}

pub open spec fn is_word_byte(c: u8) -> bool {
    is_digit(c) || (65 <= c <= 90) || (97 <= c <= 122) || c == 95
}

/// The first position at or after `i` that holds no whitespace.
pub open spec fn skip_space(s: Seq<u8>, i: nat) -> nat
    decreases s.len() - i,
{
    if i < s.len() && is_space(s[i as int]) {
        skip_space(s, i + 1)
    } else {
        i
    }
}

/// The end of the run of letters, digits and underscores that starts at `i`.
pub open spec fn word_end(s: Seq<u8>, i: nat) -> nat
    decreases s.len() - i,
{
    if i < s.len() && is_word_byte(s[i as int]) {
        word_end(s, i + 1)
    } else {
        i
    }
}

/// The punctuation byte `c` after optional whitespace: the position after it, or else the
/// position where it was sought.
pub open spec fn punct(s: Seq<u8>, i: nat, c: u8) -> Result<nat, nat> {
    let j = skip_space(s, i);
    if j < s.len() && s[j as int] == c {
        Ok(j + 1)
    } else {
        Err(j)
    }
}

/// The word after optional whitespace, and the position after it.
pub open spec fn word(s: Seq<u8>, i: nat) -> Result<(Seq<u8>, nat), nat> {
    let j = skip_space(s, i);
    let e = word_end(s, j);
    if e > j {
        Ok((s.subrange(j as int, e as int), e))
    } else {
        Err(j)
    }
}

/// An identifier: a word that does not start with a digit.
pub open spec fn ident(s: Seq<u8>, i: nat) -> Result<(Seq<u8>, nat), nat> {
    match word(s, i) {
        Ok((w, e)) => if is_digit(w[0]) {
            Err(skip_space(s, i))
        } else {
            Ok((w, e))
        },
        Err(p) => Err(p),
    }
}

/// The keyword `kw`: the position after it.
pub open spec fn keyword(s: Seq<u8>, i: nat, kw: Seq<u8>) -> Result<nat, nat> {
    match word(s, i) {
        Ok((w, e)) => if w == kw {
            Ok(e)
        } else {
            Err(skip_space(s, i))
        },
        Err(p) => Err(p),
    }
}

pub open spec fn all_digits(d: Seq<u8>) -> bool {
    forall|k: int| 0 <= k < d.len() ==> is_digit(#[trigger] d[k])
}

/// The number that decimal digits `d` write.
pub open spec fn digits_value(d: Seq<u8>) -> nat
    decreases d.len(),
{
    if d.len() == 0 {
        0
    } else {
        digits_value(d.drop_last()) * 10 + (d.last() - 48) as nat
    }
}

/// The bit width in a word `<prefix>N_t`, if it has that shape and `N` fits in 32 bits.
pub open spec fn width_of(w: Seq<u8>, prefix: Seq<u8>) -> Option<u32> {
    if w.len() >= prefix.len() + kw_suffix().len() + 1 && w.take(prefix.len() as int) == prefix
        && w.subrange(w.len() - 2, w.len() as int) == kw_suffix() {
        let d = w.subrange(prefix.len() as int, w.len() - 2);
        if all_digits(d) && digits_value(d) <= u32::MAX {
            Some(digits_value(d) as u32)
        } else {
            None
        }
    } else {
        None
    }
}

/// The argument type that a word names.
pub open spec fn arg_type_of(w: Seq<u8>) -> Option<ArgumentType> {
    if w == kw_string() {
        Some(ArgumentType::String)
    } else if w == kw_float() {
        Some(ArgumentType::Float)
    } else if w == kw_double() {
        Some(ArgumentType::Double)
    } else if width_of(w, kw_uint()) is Some {
        Some(ArgumentType::UnsignedInt(width_of(w, kw_uint())->Some_0))
    } else if width_of(w, kw_int()) is Some {
        Some(ArgumentType::SignedInt(width_of(w, kw_int())->Some_0))
    } else {
        None
    }
}

/// An argument type after optional whitespace.
pub open spec fn arg_type(s: Seq<u8>, i: nat) -> Result<(ArgumentType, nat), nat> {
    match word(s, i) {
        Ok((w, e)) => match arg_type_of(w) {
            Some(t) => Ok((t, e)),
            None => Err(skip_space(s, i)),
        },
        Err(p) => Err(p),
    }
}

/// The rest of an argument list after its first type: `("," ARGTYPE)* ")"`.
pub open spec fn more_args(s: Seq<u8>, i: nat) -> Result<(Seq<ArgumentType>, nat), nat>
    decreases s.len() - i,
{
    match punct(s, i, 41) {
        Ok(j) => Ok((Seq::empty(), j)),
        Err(_) => match punct(s, i, 44) {
            Ok(j) => match arg_type(s, j) {
                Ok((t, k)) => if k <= i || k > s.len() {
                    Err(k)
                } else {
                    match more_args(s, k) {
                        Ok((ts, m)) => Ok((seq![t] + ts, m)),
                        Err(p) => Err(p),
                    }
                },
                Err(p) => Err(p),
            },
            Err(p) => Err(p),
        },
    }
}

/// An argument list after its `(`: `")"` or `ARGTYPE ("," ARGTYPE)* ")"`.
pub open spec fn args(s: Seq<u8>, i: nat) -> Result<(Seq<ArgumentType>, nat), nat> {
    match punct(s, i, 41) {
        Ok(j) => Ok((Seq::empty(), j)),
        Err(_) => match arg_type(s, i) {
            Ok((t, k)) => match more_args(s, k) {
                Ok((ts, m)) => Ok((seq![t] + ts, m)),
                Err(p) => Err(p),
            },
            Err(p) => Err(p),
        },
    }
}

/// `"probe" IDENT "(" ARGLIST? ")" ";"`
pub open spec fn probe_def(s: Seq<u8>, i: nat) -> Result<(ProbeDefView, nat), nat> {
    match keyword(s, i, kw_probe()) {
        Ok(a) => match ident(s, a) {
            Ok((name, b)) => match punct(s, b, 40) {
                Ok(c) => match args(s, c) {
                    Ok((ts, d)) => match punct(s, d, 59) {
                        Ok(e) => Ok((ProbeDefView { name, arguments: ts }, e)),
                        Err(p) => Err(p),
                    },
                    Err(p) => Err(p),
                },
                Err(p) => Err(p),
            },
            Err(p) => Err(p),
        },
        Err(p) => Err(p),
    }
}

/// `PROBE* "}"`
pub open spec fn probe_defs(s: Seq<u8>, i: nat) -> Result<(Seq<ProbeDefView>, nat), nat>
    decreases s.len() - i,
{
    match punct(s, i, 125) {
        Ok(j) => Ok((Seq::empty(), j)),
        Err(_) => match probe_def(s, i) {
            Ok((p, j)) => if j <= i || j > s.len() {
                Err(j)
            } else {
                match probe_defs(s, j) {
                    Ok((ps, k)) => Ok((seq![p] + ps, k)),
                    Err(q) => Err(q),
                }
            },
            Err(q) => Err(q),
        },
    }
}

/// `"provider" IDENT "{" PROBE* "}" ";"`, with nothing but whitespace after it; on failure,
/// the position of the first byte that does not fit the grammar.
pub open spec fn provider_def(s: Seq<u8>) -> Result<ProviderDefView, nat> {
    match keyword(s, 0, kw_provider()) {
        Ok(a) => match ident(s, a) {
            Ok((name, b)) => match punct(s, b, 123) {
                Ok(c) => match probe_defs(s, c) {
                    Ok((ps, d)) => match punct(s, d, 59) {
                        Ok(e) => if skip_space(s, e) == s.len() {
                            Ok(ProviderDefView { name, probes: ps })
                        } else {
                            Err(skip_space(s, e))
                        },
                        Err(p) => Err(p),
                    },
                    Err(p) => Err(p),
                },
                Err(p) => Err(p),
            },
            Err(p) => Err(p),
        },
        Err(p) => Err(p),
    }
}

fn kw_provider_bytes() -> (r: Vec<u8>)
    ensures
        r@ == kw_provider(),
{
    let mut v: Vec<u8> = Vec::new();
    v.push(112u8);
    v.push(114u8);
    v.push(111u8);
    v.push(118u8);
    v.push(105u8);
    v.push(100u8);
    v.push(101u8);
    v.push(114u8);
    assert(v@ =~= kw_provider());
    v
}

fn kw_probe_bytes() -> (r: Vec<u8>)
    ensures
        r@ == kw_probe(),
{
    let mut v: Vec<u8> = Vec::new();
    v.push(112u8);
    v.push(114u8);
    v.push(111u8);
    v.push(98u8);
    v.push(101u8);
    assert(v@ =~= kw_probe());
    v
}

fn kw_string_bytes() -> (r: Vec<u8>)
    ensures
        r@ == kw_string(),
{
    let mut v: Vec<u8> = Vec::new();
    v.push(115u8);
    v.push(116u8);
    v.push(114u8);
    v.push(105u8);
    v.push(110u8);
    v.push(103u8);
    assert(v@ =~= kw_string());
    v
}

fn kw_float_bytes() -> (r: Vec<u8>)
    ensures
        r@ == kw_float(),
{
    let mut v: Vec<u8> = Vec::new();
    v.push(102u8);
    v.push(108u8);
    v.push(111u8);
    v.push(97u8);
    v.push(116u8);
    assert(v@ =~= kw_float());
    v
}

fn kw_double_bytes() -> (r: Vec<u8>)
    ensures
        r@ == kw_double(),
{
    let mut v: Vec<u8> = Vec::new();
    v.push(100u8);
    v.push(111u8);
    v.push(117u8);
    v.push(98u8);
    v.push(108u8);
    v.push(101u8);
    assert(v@ =~= kw_double());
    v
}

fn kw_uint_bytes() -> (r: Vec<u8>)
    ensures
        r@ == kw_uint(),
{
    let mut v: Vec<u8> = Vec::new();
    v.push(117u8);
    v.push(105u8);
    v.push(110u8);
    v.push(116u8);
    assert(v@ =~= kw_uint());
    v
}

fn kw_int_bytes() -> (r: Vec<u8>)
    ensures
        r@ == kw_int(),
{
    let mut v: Vec<u8> = Vec::new();
    v.push(105u8);
    v.push(110u8);
    v.push(116u8);
    assert(v@ =~= kw_int());
    v
}

fn kw_suffix_bytes() -> (r: Vec<u8>)
    ensures
        r@ == kw_suffix(),
{
    let mut v: Vec<u8> = Vec::new();
    v.push(95u8);
    v.push(116u8);
    assert(v@ =~= kw_suffix());
    v
}

fn skip_space_exec(s: &[u8], i: usize) -> (r: usize)
    requires
        i <= s@.len(),
    ensures
        r == skip_space(s@, i as nat),
        i <= r <= s@.len(),
{
    let mut k: usize = i;
    while k < s.len() && (s[k] == 32 || s[k] == 9 || s[k] == 10 || s[k] == 13)
        invariant
            i <= k <= s@.len(),
            skip_space(s@, i as nat) == skip_space(s@, k as nat),
        decreases s@.len() - k,
    {
        k = k + 1;
    }
    k
}

fn word_end_exec(s: &[u8], i: usize) -> (r: usize)
    requires
        i <= s@.len(),
    ensures
        r == word_end(s@, i as nat),
        i <= r <= s@.len(),
{
    let mut k: usize = i;
    while k < s.len() && ((48 <= s[k] && s[k] <= 57) || (65 <= s[k] && s[k] <= 90) || (97 <= s[k]
        && s[k] <= 122) || s[k] == 95)
        invariant
            i <= k <= s@.len(),
            word_end(s@, i as nat) == word_end(s@, k as nat),
        decreases s@.len() - k,
    {
        k = k + 1;
    }
    k
}

/// Expects the byte `c` after optional whitespace; on failure, the position where it was sought.
fn punct_exec(s: &[u8], i: usize, c: u8) -> (r: Result<usize, usize>)
    requires
        i <= s@.len(),
    ensures
        match punct(s@, i as nat, c) {
            Ok(j) => r matches Ok(j2) && j2 == j && i < j2 <= s@.len(),
            Err(p) => r matches Err(p2) && p2 == p && p2 <= s@.len(),
        },
{
    let j = skip_space_exec(s, i);
    if j < s.len() && s[j] == c {
        Ok(j + 1)
    } else {
        Err(j)
    }
}

/// The word after optional whitespace, as its start and end.
fn word_exec(s: &[u8], i: usize) -> (r: Result<(usize, usize), usize>)
    requires
        i <= s@.len(),
    ensures
        match word(s@, i as nat) {
            Ok((w, e)) => r matches Ok((j, e2)) && e2 == e && j == skip_space(s@, i as nat) && i <= j < e2 <= s@.len() && s@.subrange(
                j as int,
                e2 as int,
            ) == w,
            Err(p) => r matches Err(p2) && p2 == p && p2 <= s@.len(),
        },
{
    let j = skip_space_exec(s, i);
    let e = word_end_exec(s, j);
    if e > j {
        Ok((j, e))
    } else {
        Err(j)
    }
}

fn ident_exec(s: &[u8], i: usize) -> (r: Result<(Vec<u8>, usize), usize>)
    requires
        i <= s@.len(),
    ensures
        match ident(s@, i as nat) {
            Ok((w, e)) => r matches Ok((v, e2)) && e2 == e && v@ == w && i < e2 <= s@.len(),
            Err(p) => r matches Err(p2) && p2 == p && p2 <= s@.len(),
        },
{
    match word_exec(s, i) {
        Err(p) => Err(p),
        Ok((j, e)) => {
            if 48 <= s[j] && s[j] <= 57 {
                Err(j)
            } else {
                Ok((copy_bytes(s, j, e), e))
            }
        },
    }
}

fn keyword_exec(s: &[u8], i: usize, kw: &[u8]) -> (r: Result<usize, usize>)
    requires
        i <= s@.len(),
    ensures
        match keyword(s@, i as nat, kw@) {
            Ok(e) => r matches Ok(e2) && e2 == e && i < e2 <= s@.len(),
            Err(p) => r matches Err(p2) && p2 == p && p2 <= s@.len(),
        },
{
    match word_exec(s, i) {
        Err(p) => Err(p),
        Ok((j, e)) => {
            if bytes_eq(slice_subrange(s, j, e), kw) {
                Ok(e)
            } else {
                Err(j)
            }
        },
    }
}

/// The value of the decimal digits `d`, if all are digits and the value fits in 32 bits.
fn digits_value_exec(d: &[u8]) -> (r: Option<u32>)
    ensures
        all_digits(d@) && digits_value(d@) <= u32::MAX ==> r == Some(digits_value(d@) as u32),
        !(all_digits(d@) && digits_value(d@) <= u32::MAX) ==> r is None,
{
    let mut v: u32 = 0;
    let mut k: usize = 0;
    while k < d.len()
        invariant
            k <= d@.len(),
            all_digits(d@.take(k as int)),
            v == digits_value(d@.take(k as int)),
        decreases d@.len() - k,
    {
        assert(d@.take(k + 1).drop_last() =~= d@.take(k as int));
        if d[k] < 48 || d[k] > 57 {
            assert(!is_digit(d@[k as int]));
            return None;
        }
        let dig = (d[k] - 48) as u32;
        if v > (u32::MAX - dig) / 10 {
            proof {
                lemma_digits_value_grows(d@, (k + 1) as nat);
            }
            return None;
        }
        v = v * 10 + dig;
        k = k + 1;
        assert(all_digits(d@.take(k as int)));
    }
    assert(d@.take(k as int) =~= d@);
    Some(v)
}

proof fn lemma_digits_value_grows(d: Seq<u8>, k: nat)
    requires
        k <= d.len(),
    ensures
        all_digits(d) ==> digits_value(d.take(k as int)) <= digits_value(d),
    decreases d.len() - k,
{
    if k < d.len() {
        lemma_digits_value_grows(d, k + 1);
        assert(d.take(k + 1int).drop_last() =~= d.take(k as int));
        if all_digits(d) {
            assert(is_digit(d[k as int]));
        }
    } else {
        assert(d.take(k as int) =~= d);
    }
}

fn width_exec(w: &[u8], prefix: &[u8]) -> (r: Option<u32>)
    ensures
        r == width_of(w@, prefix@),
{
    if w.len() < 3 || w.len() - 3 < prefix.len() {
        return None;
    }
    let suffix = kw_suffix_bytes();
    let head = slice_subrange(w, 0, prefix.len());
    assert(head@ =~= w@.take(prefix@.len() as int));
    if !bytes_eq(head, prefix) {
        return None;
    }
    if !bytes_eq(slice_subrange(w, w.len() - 2, w.len()), suffix.as_slice()) {
        return None;
    }
    digits_value_exec(slice_subrange(w, prefix.len(), w.len() - 2))
}

fn arg_type_of_exec(w: &[u8]) -> (r: Option<ArgumentType>)
    ensures
        r == arg_type_of(w@),
{
    if bytes_eq(w, kw_string_bytes().as_slice()) {
        Some(ArgumentType::String)
    } else if bytes_eq(w, kw_float_bytes().as_slice()) {
        Some(ArgumentType::Float)
    } else if bytes_eq(w, kw_double_bytes().as_slice()) {
        Some(ArgumentType::Double)
    } else {
        match width_exec(w, kw_uint_bytes().as_slice()) {
            Some(n) => Some(ArgumentType::UnsignedInt(n)),
            None => match width_exec(w, kw_int_bytes().as_slice()) {
                Some(n) => Some(ArgumentType::SignedInt(n)),
                None => None,
            },
        }
    }
}

fn arg_type_exec(s: &[u8], i: usize) -> (r: Result<(ArgumentType, usize), usize>)
    requires
        i <= s@.len(),
    ensures
        match arg_type(s@, i as nat) {
            Ok((t, e)) => r matches Ok((t2, e2)) && t2 == t && e2 == e && i < e2 <= s@.len(),
            Err(p) => r matches Err(p2) && p2 == p && p2 <= s@.len(),
        },
{
    match word_exec(s, i) {
        Err(p) => Err(p),
        Ok((j, e)) => match arg_type_of_exec(slice_subrange(s, j, e)) {
            Some(t) => Ok((t, e)),
            None => Err(j),
        },
    }
}

fn more_args_exec(s: &[u8], i: usize) -> (r: Result<(Vec<ArgumentType>, usize), usize>)
    requires
        i <= s@.len(),
    ensures
        match more_args(s@, i as nat) {
            Ok((ts, e)) => r matches Ok((v, e2)) && v@ == ts && e2 == e && i < e2 <= s@.len(),
            Err(p) => r matches Err(p2) && p2 == p && p2 <= s@.len(),
        },
{
    let mut ts: Vec<ArgumentType> = Vec::new();
    let mut pos: usize = i;
    assert(ts@ + Seq::<ArgumentType>::empty() =~= Seq::<ArgumentType>::empty());
    proof {
        if let Ok((t, m)) = more_args(s@, i as nat) {
            assert(ts@ + t =~= t);
        }
    }
    loop
        invariant
            i <= pos <= s@.len(),
            more_args(s@, i as nat) == match more_args(s@, pos as nat) {
                Ok((t, m)) => Ok((ts@ + t, m)),
                Err(p) => Err(p),
            },
        decreases s@.len() - pos,
    {
        match punct_exec(s, pos, 41) {
            Ok(j) => {
                assert(ts@ + Seq::<ArgumentType>::empty() =~= ts@);
                return Ok((ts, j));
            },
            Err(_) => {},
        }
        let j = match punct_exec(s, pos, 44) {
            Ok(j) => j,
            Err(p) => {
                return Err(p);
            },
        };
        let (t, k) = match arg_type_exec(s, j) {
            Ok(x) => x,
            Err(p) => {
                return Err(p);
            },
        };
        proof {
            if let Ok((rest, m)) = more_args(s@, k as nat) {
                assert(ts@.push(t) + rest =~= ts@ + (seq![t] + rest));
            }
        }
        ts.push(t);
        pos = k;
    }
}

fn args_exec(s: &[u8], i: usize) -> (r: Result<(Vec<ArgumentType>, usize), usize>)
    requires
        i <= s@.len(),
    ensures
        match args(s@, i as nat) {
            Ok((ts, e)) => r matches Ok((v, e2)) && v@ == ts && e2 == e && i < e2 <= s@.len(),
            Err(p) => r matches Err(p2) && p2 == p && p2 <= s@.len(),
        },
{
    match punct_exec(s, i, 41) {
        Ok(j) => {
            return Ok((Vec::new(), j));
        },
        Err(_) => {},
    }
    let (t, k) = match arg_type_exec(s, i) {
        Ok(x) => x,
        Err(p) => {
            return Err(p);
        },
    };
    match more_args_exec(s, k) {
        Ok((rest, m)) => {
            let mut ts: Vec<ArgumentType> = Vec::new();
            ts.push(t);
            let mut rest = rest;
            ts.append(&mut rest);
            assert(ts@ =~= seq![t] + args(s@, i as nat)->Ok_0.0.subrange(1, ts@.len() as int));
            Ok((ts, m))
        },
        Err(p) => Err(p),
    }
}

fn probe_def_exec(s: &[u8], i: usize) -> (r: Result<(ProbeDef, usize), usize>)
    requires
        i <= s@.len(),
    ensures
        match probe_def(s@, i as nat) {
            Ok((p, e)) => r matches Ok((v, e2)) && v@ == p && e2 == e && i < e2 <= s@.len(),
            Err(p) => r matches Err(p2) && p2 == p && p2 <= s@.len(),
        },
{
    let a = match keyword_exec(s, i, kw_probe_bytes().as_slice()) {
        Ok(a) => a,
        Err(p) => {
            return Err(p);
        },
    };
    let (name, b) = match ident_exec(s, a) {
        Ok(x) => x,
        Err(p) => {
            return Err(p);
        },
    };
    let c = match punct_exec(s, b, 40) {
        Ok(c) => c,
        Err(p) => {
            return Err(p);
        },
    };
    let (arguments, d) = match args_exec(s, c) {
        Ok(x) => x,
        Err(p) => {
            return Err(p);
        },
    };
    match punct_exec(s, d, 59) {
        Ok(e) => Ok((ProbeDef { name, arguments }, e)),
        Err(p) => Err(p),
    }
}

fn probe_defs_exec(s: &[u8], i: usize) -> (r: Result<(Vec<ProbeDef>, usize), usize>)
    requires
        i <= s@.len(),
    ensures
        match probe_defs(s@, i as nat) {
            Ok((ps, e)) => r matches Ok((v, e2)) && probe_defs_view(v@) == ps && e2 == e && e2
                <= s@.len(),
            Err(p) => r matches Err(p2) && p2 == p && p2 <= s@.len(),
        },
{
    let mut ps: Vec<ProbeDef> = Vec::new();
    let mut pos: usize = i;
    proof {
        if let Ok((t, m)) = probe_defs(s@, i as nat) {
            assert(probe_defs_view(ps@) + t =~= t);
        }
    }
    loop
        invariant
            pos <= s@.len(),
            probe_defs(s@, i as nat) == match probe_defs(s@, pos as nat) {
                Ok((t, m)) => Ok((probe_defs_view(ps@) + t, m)),
                Err(p) => Err(p),
            },
        decreases s@.len() - pos,
    {
        match punct_exec(s, pos, 125) {
            Ok(j) => {
                assert(probe_defs_view(ps@) + Seq::<ProbeDefView>::empty() =~= probe_defs_view(ps@));
                return Ok((ps, j));
            },
            Err(_) => {},
        }
        let (p, j) = match probe_def_exec(s, pos) {
            Ok(x) => x,
            Err(e) => {
                return Err(e);
            },
        };
        proof {
            assert(probe_defs_view(ps@.push(p)) =~= probe_defs_view(ps@).push(p@));
            if let Ok((rest, m)) = probe_defs(s@, j as nat) {
                assert(probe_defs_view(ps@).push(p@) + rest =~= probe_defs_view(ps@) + (seq![p@]
                    + rest));
            }
        }
        ps.push(p);
        pos = j;
    }
}

/// Parses a provider definition; on failure, the byte offset where the text left the grammar.
pub fn parse_provider(src: &str) -> (r: Result<ProviderDef, SyntaxError>)
    ensures
        match provider_def(src.spec_bytes()) {
            Ok(d) => r matches Ok(v) && v@ == d,
            Err(p) => r matches Err(e) && e.position == p && e.position <= src.spec_bytes().len(),
        },
{
    let s = src.as_bytes();
    let a = match keyword_exec(s, 0, kw_provider_bytes().as_slice()) {
        Ok(a) => a,
        Err(p) => {
            return Err(SyntaxError { position: p });
        },
    };
    let (name, b) = match ident_exec(s, a) {
        Ok(x) => x,
        Err(p) => {
            return Err(SyntaxError { position: p });
        },
    };
    let c = match punct_exec(s, b, 123) {
        Ok(c) => c,
        Err(p) => {
            return Err(SyntaxError { position: p });
        },
    };
    let (probes, d) = match probe_defs_exec(s, c) {
        Ok(x) => x,
        Err(p) => {
            return Err(SyntaxError { position: p });
        },
    };
    let e = match punct_exec(s, d, 59) {
        Ok(e) => e,
        Err(p) => {
            return Err(SyntaxError { position: p });
        },
    };
    let end = skip_space_exec(s, e);
    if end == s.len() {
        Ok(ProviderDef { name, probes })
    } else {
        Err(SyntaxError { position: end })
    }
}

} // verus!
