//! Binary decoder for the compact, self-describing object notation that both
//! the signed envelope and the attestation payload use.
//!
//! `decode` turns a byte sequence into a `CborValue` tree, rejecting truncated
//! input, lengths that exceed the remaining buffer, indefinite-length items,
//! and nesting deeper than `MAX_DEPTH`.  The mathematical model is
//! `spec_decode`, a recursive specification over the raw byte sequence;
//! `decode` is proved to return exactly what the model says, for every input.

use vstd::prelude::*;

verus! {

broadcast use vstd::std_specs::vec::axiom_vec_index_decreases;

/// Greatest allowed nesting depth of arrays and maps.
pub const MAX_DEPTH: u32 = 8;

/// Failure of the binary decoder.
#[derive(Clone, Copy, PartialEq, Eq, Structural, Debug)]
pub enum DecodeError {
    /// Nesting exceeds `MAX_DEPTH`.
    TooDeep,
    /// The input ends in the middle of an item header.
    Truncated,
    /// A declared length exceeds the remaining buffer, the item is
    /// indefinite-length, or decoded items do not span the whole input.
    InvalidLength,
    /// A major type or simple value outside the supported set.
    UnexpectedType,
}

/// A decoded value: the tagged union the two input formats are built from.
pub enum CborValue {
    /// Unsigned integer.
    Uint(u64),
    /// Negative integer; `Nint(n)` stands for `-1 - n`.
    Nint(u64),
    /// Byte string, exactly as it appeared in the input.
    Bytes(Vec<u8>),
    /// Text string, kept as its raw bytes.
    Text(Vec<u8>),
    /// Ordered sequence of values.
    Array(Vec<CborValue>),
    /// Ordered sequence of key-value entries.
    Table(Vec<(CborValue, CborValue)>),
    /// Boolean.
    Bool(bool),
    /// Null.
    Null,
}

/// Mathematical abstraction of a decoded value.
pub enum CborData {
    Uint(u64),
    Nint(u64),
    Bytes(Seq<u8>),
    Text(Seq<u8>),
    Array(Seq<CborData>),
    Table(Seq<(CborData, CborData)>),
    Bool(bool),
    Null,
}

/// The abstraction of a `CborValue`.
pub open spec fn cbor_view(v: CborValue) -> CborData
    decreases v, 0int, 0int,
{
    match v {
        CborValue::Uint(n) => CborData::Uint(n),
        CborValue::Nint(n) => CborData::Nint(n),
        CborValue::Bytes(b) => CborData::Bytes(b@),
        CborValue::Text(t) => CborData::Text(t@),
        CborValue::Array(vs) => CborData::Array(elems_view(vs, 0)),
        CborValue::Table(ps) => CborData::Table(pairs_view(ps, 0)),
        CborValue::Bool(b) => CborData::Bool(b),
        CborValue::Null => CborData::Null,
    }
}

/// Abstractions of the elements of `vs` from position `i` on.
pub open spec fn elems_view(vs: Vec<CborValue>, i: int) -> Seq<CborData>
    decreases vs, 1int, vs.len() - i,
{
    if i < 0 || i >= vs.len() {
        Seq::empty()
    } else {
        seq![cbor_view(vs[i])] + elems_view(vs, i + 1)
    }
}

/// Abstractions of the entries of `ps` from position `i` on.
pub open spec fn pairs_view(ps: Vec<(CborValue, CborValue)>, i: int) -> Seq<(CborData, CborData)>
    decreases ps, 1int, ps.len() - i,
{
    if i < 0 || i >= ps.len() {
        Seq::empty()
    } else {
        seq![(cbor_view(ps[i].0), cbor_view(ps[i].1))] + pairs_view(ps, i + 1)
    }
}

pub proof fn lemma_elems_view(vs: Vec<CborValue>, i: int)
    requires
        0 <= i <= vs.len(),
    ensures
        elems_view(vs, i).len() == vs.len() - i,
        forall|j: int| 0 <= j < vs.len() - i ==> elems_view(vs, i)[j] == cbor_view(vs[i + j]),
    decreases vs.len() - i,
{
    if i < vs.len() {
        lemma_elems_view(vs, i + 1);
        assert forall|j: int| 0 <= j < vs.len() - i implies elems_view(vs, i)[j] == cbor_view(
            vs[i + j],
        ) by {
            if j > 0 {
                assert(elems_view(vs, i)[j] == elems_view(vs, i + 1)[j - 1]);
            }
        }
    }
}

pub proof fn lemma_pairs_view(ps: Vec<(CborValue, CborValue)>, i: int)
    requires
        0 <= i <= ps.len(),
    ensures
        pairs_view(ps, i).len() == ps.len() - i,
        forall|j: int| 0 <= j < ps.len() - i ==> pairs_view(ps, i)[j] == (
            cbor_view(ps[i + j].0),
            cbor_view(ps[i + j].1),
        ),
    decreases ps.len() - i,
{
    if i < ps.len() {
        lemma_pairs_view(ps, i + 1);
        assert forall|j: int| 0 <= j < ps.len() - i implies pairs_view(ps, i)[j] == (
            cbor_view(ps[i + j].0),
            cbor_view(ps[i + j].1),
        ) by {
            if j > 0 {
                assert(pairs_view(ps, i)[j] == pairs_view(ps, i + 1)[j - 1]);
            }
        }
    }
}

/// Header of an item: major type, argument, header length in bytes.
/// The argument is an immediate value (< 24) or a big-endian integer of
/// 1, 2, 4 or 8 following bytes; indefinite lengths and the reserved
/// additional-information values are rejected.
pub open spec fn spec_head(b: Seq<u8>) -> Result<(u8, u64, nat), DecodeError> {
    if b.len() == 0 {
        Err(DecodeError::Truncated)
    } else {
        let major = b[0] / 32;
        let ai = b[0] % 32;
        if ai < 24 {
            Ok((major, ai as u64, 1))
        } else if ai == 24 {
            if b.len() < 2 {
                Err(DecodeError::Truncated)
            } else {
                Ok((major, b[1] as u64, 2))
            }
        } else if ai == 25 {
            if b.len() < 3 {
                Err(DecodeError::Truncated)
            } else {
                Ok((major, ((b[1] as u64) * 0x100 + (b[2] as u64)) as u64, 3))
            }
        } else if ai == 26 {
            if b.len() < 5 {
                Err(DecodeError::Truncated)
            } else {
                Ok(
                    (
                        major,
                        ((b[1] as u64) * 0x1000000 + (b[2] as u64) * 0x10000 + (b[3] as u64) * 0x100
                            + (b[4] as u64)) as u64,
                        5,
                    ),
                )
            }
        } else if ai == 27 {
            if b.len() < 9 {
                Err(DecodeError::Truncated)
            } else {
                Ok(
                    (
                        major,
                        ((b[1] as u64) * 0x100000000000000 + (b[2] as u64) * 0x1000000000000 + (
                        b[3] as u64) * 0x10000000000 + (b[4] as u64) * 0x100000000 + (b[5] as u64)
                            * 0x1000000 + (b[6] as u64) * 0x10000 + (b[7] as u64) * 0x100 + (
                        b[8] as u64)) as u64,
                        9,
                    ),
                )
            }
        } else {
            Err(DecodeError::InvalidLength)
        }
    }
}

/// Decodes one item at the front of `b`, with `depth` nesting levels left.
/// Returns the item and the number of bytes it spans.
pub open spec fn spec_dec_item(b: Seq<u8>, depth: nat) -> Result<(CborData, nat), DecodeError>
    decreases b.len(), 0int, 0int,
{
    if depth == 0 {
        Err(DecodeError::TooDeep)
    } else {
        match spec_head(b) {
            Err(e) => Err(e),
            Ok((major, arg, hl)) => {
                if major == 0 {
                    Ok((CborData::Uint(arg), hl))
                } else if major == 1 {
                    Ok((CborData::Nint(arg), hl))
                } else if major == 2 || major == 3 {
                    if arg > b.len() - hl {
                        Err(DecodeError::InvalidLength)
                    } else {
                        let s = b.subrange(hl as int, hl + arg);
                        if major == 2 {
                            Ok((CborData::Bytes(s), (hl + arg) as nat))
                        } else {
                            Ok((CborData::Text(s), (hl + arg) as nat))
                        }
                    }
                } else if major == 4 {
                    if arg > b.len() - hl {
                        Err(DecodeError::InvalidLength)
                    } else {
                        match spec_dec_list(
                            b.skip(hl as int),
                            arg as nat,
                            (depth - 1) as nat,
                            Seq::empty(),
                        ) {
                            Err(e) => Err(e),
                            Ok((items, c)) => Ok((CborData::Array(items), (hl + c) as nat)),
                        }
                    }
                } else if major == 5 {
                    if arg > b.len() - hl {
                        Err(DecodeError::InvalidLength)
                    } else {
                        match spec_dec_pairs(
                            b.skip(hl as int),
                            arg as nat,
                            (depth - 1) as nat,
                            Seq::empty(),
                        ) {
                            Err(e) => Err(e),
                            Ok((entries, c)) => Ok((CborData::Table(entries), (hl + c) as nat)),
                        }
                    }
                } else if major == 7 {
                    if hl == 1 && arg == 20 {
                        Ok((CborData::Bool(false), 1))
                    } else if hl == 1 && arg == 21 {
                        Ok((CborData::Bool(true), 1))
                    } else if hl == 1 && arg == 22 {
                        Ok((CborData::Null, 1))
                    } else {
                        Err(DecodeError::UnexpectedType)
                    }
                } else {
                    Err(DecodeError::UnexpectedType)
                }
            },
        }
    }
}

/// Decodes `n` items at the front of `b`, appending them to `acc`.
/// Returns the extended sequence and the number of bytes the items span.
pub open spec fn spec_dec_list(b: Seq<u8>, n: nat, depth: nat, acc: Seq<CborData>) -> Result<
    (Seq<CborData>, nat),
    DecodeError,
>
    decreases b.len(), 1int, n,
{
    if n == 0 {
        Ok((acc, 0))
    } else {
        match spec_dec_item(b, depth) {
            Err(e) => Err(e),
            Ok((v, c)) => {
                if c > b.len() {
                    Err(DecodeError::Truncated)
                } else {
                    match spec_dec_list(b.skip(c as int), (n - 1) as nat, depth, acc.push(v)) {
                        Err(e) => Err(e),
                        Ok((items, c2)) => Ok((items, (c + c2) as nat)),
                    }
                }
            },
        }
    }
}

/// Decodes `n` key-value entries at the front of `b`, appending them to `acc`.
pub open spec fn spec_dec_pairs(
    b: Seq<u8>,
    n: nat,
    depth: nat,
    acc: Seq<(CborData, CborData)>,
) -> Result<(Seq<(CborData, CborData)>, nat), DecodeError>
    decreases b.len(), 1int, n,
{
    if n == 0 {
        Ok((acc, 0))
    } else {
        match spec_dec_item(b, depth) {
            Err(e) => Err(e),
            Ok((k, ck)) => {
                if ck > b.len() {
                    Err(DecodeError::Truncated)
                } else {
                    match spec_dec_item(b.skip(ck as int), depth) {
                        Err(e) => Err(e),
                        Ok((v, cv)) => {
                            if cv > b.len() - ck {
                                Err(DecodeError::Truncated)
                            } else {
                                match spec_dec_pairs(
                                    b.skip(ck + cv as int),
                                    (n - 1) as nat,
                                    depth,
                                    acc.push((k, v)),
                                ) {
                                    Err(e) => Err(e),
                                    Ok((entries, c2)) => Ok((entries, (ck + cv + c2) as nat)),
                                }
                            }
                        },
                    }
                }
            },
        }
    }
}

/// What `decode` returns on `b`: the single item that spans the whole input,
/// or the first error the model meets.
pub open spec fn spec_decode(b: Seq<u8>) -> Result<CborData, DecodeError> {
    match spec_dec_item(b, MAX_DEPTH as nat) {
        Err(e) => Err(e),
        Ok((v, c)) => if c == b.len() {
            Ok(v)
        } else {
            Err(DecodeError::InvalidLength)
        },
    }
}

proof fn lemma_skip_skip(s: Seq<u8>, a: int, c: int)
    requires
        0 <= a,
        0 <= c,
        a + c <= s.len(),
    ensures
        s.skip(a).skip(c) == s.skip(a + c),
{
    assert(s.skip(a).skip(c) =~= s.skip(a + c));
}

fn decode_head(b: &[u8], pos: usize) -> (r: Result<(u8, u64, usize), DecodeError>)
    requires
        pos <= b@.len(),
    ensures
        match r {
            Ok((m, a, hl)) => {
                &&& 1 <= hl
                &&& pos + hl <= b@.len()
                &&& spec_head(b@.skip(pos as int)) matches Ok(h) && h.0 == m && h.1 == a && h.2
                    == hl as nat
            },
            Err(e) => spec_head(b@.skip(pos as int)) matches Err(e2) && e2 == e,
        },
{
    let ghost s = b@.skip(pos as int);
    if pos >= b.len() {
        return Err(DecodeError::Truncated);
    }
    let first = b[pos];
    assert(s[0] == b@[pos as int]);
    let major = first / 32;
    let ai = first % 32;
    if ai < 24 {
        Ok((major, ai as u64, 1))
    } else if ai == 24 {
        if b.len() - pos < 2 {
            return Err(DecodeError::Truncated);
        }
        assert(s[1] == b@[pos + 1]);
        Ok((major, b[pos + 1] as u64, 2))
    } else if ai == 25 {
        if b.len() - pos < 3 {
            return Err(DecodeError::Truncated);
        }
        assert(s[1] == b@[pos + 1] && s[2] == b@[pos + 2]);
        let a = (b[pos + 1] as u64) * 0x100 + (b[pos + 2] as u64);
        Ok((major, a, 3))
    } else if ai == 26 {
        if b.len() - pos < 5 {
            return Err(DecodeError::Truncated);
        }
        assert(s[1] == b@[pos + 1] && s[2] == b@[pos + 2] && s[3] == b@[pos + 3] && s[4] == b@[pos
            + 4]);
        let a = (b[pos + 1] as u64) * 0x1000000 + (b[pos + 2] as u64) * 0x10000 + (b[pos
            + 3] as u64) * 0x100 + (b[pos + 4] as u64);
        Ok((major, a, 5))
    } else if ai == 27 {
        if b.len() - pos < 9 {
            return Err(DecodeError::Truncated);
        }
        assert(s[1] == b@[pos + 1] && s[2] == b@[pos + 2] && s[3] == b@[pos + 3] && s[4] == b@[pos
            + 4] && s[5] == b@[pos + 5] && s[6] == b@[pos + 6] && s[7] == b@[pos + 7] && s[8]
            == b@[pos + 8]);
        let a = (b[pos + 1] as u64) * 0x100000000000000 + (b[pos + 2] as u64) * 0x1000000000000 + (
        b[pos + 3] as u64) * 0x10000000000 + (b[pos + 4] as u64) * 0x100000000 + (b[pos
            + 5] as u64) * 0x1000000 + (b[pos + 6] as u64) * 0x10000 + (b[pos + 7] as u64) * 0x100
            + (b[pos + 8] as u64);
        Ok((major, a, 9))
    } else {
        Err(DecodeError::InvalidLength)
    }
}

#[verifier::loop_isolation(false)]
fn decode_elems(b: &[u8], start: usize, n: u64, depth: u32) -> (r: Result<
    (Vec<CborValue>, usize),
    DecodeError,
>)
    requires
        start <= b@.len(),
    ensures
        match r {
            Ok((vs, np)) => {
                &&& start <= np <= b@.len()
                &&& spec_dec_list(b@.skip(start as int), n as nat, depth as nat, Seq::empty())
                    matches Ok(p) && p.0 == elems_view(vs, 0) && p.1 == np - start
            },
            Err(e) => spec_dec_list(b@.skip(start as int), n as nat, depth as nat, Seq::empty())
                matches Err(e2) && e2 == e,
        },
    decreases b@.len() - start, 1int,
{
    let mut elems: Vec<CborValue> = Vec::new();
    let mut cur: usize = start;
    let mut k: u64 = 0;
    proof {
        lemma_elems_view(elems, 0);
    }
    while k < n
        invariant
            start <= cur <= b@.len(),
            k <= n,
            elems_view(elems, 0).len() == k,
            spec_dec_list(b@.skip(start as int), n as nat, depth as nat, Seq::empty()) == (
            match spec_dec_list(
                b@.skip(cur as int),
                (n - k) as nat,
                depth as nat,
                elems_view(elems, 0),
            ) {
                Ok(p) => Ok::<_, DecodeError>((p.0, (p.1 + cur - start) as nat)),
                Err(e) => Err(e),
            }),
        decreases n - k,
    {
        match decode_item(b, cur, depth) {
            Err(e) => {
                return Err(e);
            },
            Ok((v, np)) => {
                let ghost old_elems = elems;
                elems.push(v);
                proof {
                    lemma_elems_view(old_elems, 0);
                    lemma_elems_view(elems, 0);
                    assert(elems_view(elems, 0) =~= elems_view(old_elems, 0).push(cbor_view(v)));
                    lemma_skip_skip(b@, cur as int, np - cur);
                }
                cur = np;
                k = k + 1;
            },
        }
    }
    Ok((elems, cur))
}

#[verifier::loop_isolation(false)]
fn decode_entries(b: &[u8], start: usize, n: u64, depth: u32) -> (r: Result<
    (Vec<(CborValue, CborValue)>, usize),
    DecodeError,
>)
    requires
        start <= b@.len(),
    ensures
        match r {
            Ok((ps, np)) => {
                &&& start <= np <= b@.len()
                &&& spec_dec_pairs(b@.skip(start as int), n as nat, depth as nat, Seq::empty())
                    matches Ok(p) && p.0 == pairs_view(ps, 0) && p.1 == np - start
            },
            Err(e) => spec_dec_pairs(b@.skip(start as int), n as nat, depth as nat, Seq::empty())
                matches Err(e2) && e2 == e,
        },
    decreases b@.len() - start, 1int,
{
    let mut entries: Vec<(CborValue, CborValue)> = Vec::new();
    let mut cur: usize = start;
    let mut k: u64 = 0;
    proof {
        lemma_pairs_view(entries, 0);
    }
    while k < n
        invariant
            start <= cur <= b@.len(),
            k <= n,
            pairs_view(entries, 0).len() == k,
            spec_dec_pairs(b@.skip(start as int), n as nat, depth as nat, Seq::empty()) == (
            match spec_dec_pairs(
                b@.skip(cur as int),
                (n - k) as nat,
                depth as nat,
                pairs_view(entries, 0),
            ) {
                Ok(p) => Ok::<_, DecodeError>((p.0, (p.1 + cur - start) as nat)),
                Err(e) => Err(e),
            }),
        decreases n - k,
    {
        let ghost pre = b@.skip(cur as int);
        let (kv, knp) = match decode_item(b, cur, depth) {
            Err(e) => {
                return Err(e);
            },
            Ok(p) => p,
        };
        proof {
            lemma_skip_skip(b@, cur as int, knp - cur);
            assert(pre.skip((knp - cur) as int) == b@.skip(knp as int));
        }
        let (vv, vnp) = match decode_item(b, knp, depth) {
            Err(e) => {
                return Err(e);
            },
            Ok(p) => p,
        };
        let ghost old_entries = entries;
        entries.push((kv, vv));
        proof {
            lemma_pairs_view(old_entries, 0);
            lemma_pairs_view(entries, 0);
            assert(pairs_view(entries, 0) =~= pairs_view(old_entries, 0).push(
                (cbor_view(kv), cbor_view(vv)),
            ));
            lemma_skip_skip(b@, cur as int, vnp - cur);
            assert(pre.skip((knp - cur) + (vnp - knp)) == b@.skip(vnp as int));
        }
        cur = vnp;
        k = k + 1;
    }
    Ok((entries, cur))
}

#[verifier::loop_isolation(false)]
#[verifier::rlimit(50)]
fn decode_item(b: &[u8], pos: usize, depth: u32) -> (r: Result<(CborValue, usize), DecodeError>)
    requires
        pos <= b@.len(),
    ensures
        match r {
            Ok((v, np)) => {
                &&& pos < np <= b@.len()
                &&& spec_dec_item(b@.skip(pos as int), depth as nat) matches Ok(p) && p.0
                    == cbor_view(v) && p.1 == np - pos
            },
            Err(e) => spec_dec_item(b@.skip(pos as int), depth as nat) matches Err(e2) && e2 == e,
        },
    decreases b@.len() - pos, 0int,
{
    let ghost s = b@.skip(pos as int);
    let blen = b.len();
    if depth == 0 {
        return Err(DecodeError::TooDeep);
    }
    let (major, arg, hl) = match decode_head(b, pos) {
        Ok(h) => h,
        Err(e) => {
            return Err(e);
        },
    };
    if major == 0 {
        Ok((CborValue::Uint(arg), pos + hl))
    } else if major == 1 {
        Ok((CborValue::Nint(arg), pos + hl))
    } else if major == 2 || major == 3 {
        let rem = blen - pos - hl;
        if arg > rem as u64 {
            return Err(DecodeError::InvalidLength);
        }
        let n = arg as usize;
        let body = vstd::slice::slice_subrange(b, pos + hl, pos + hl + n);
        let bytes = vstd::slice::slice_to_vec(body);
        assert(bytes@ =~= s.subrange(hl as int, hl + arg));
        if major == 2 {
            Ok((CborValue::Bytes(bytes), pos + hl + n))
        } else {
            Ok((CborValue::Text(bytes), pos + hl + n))
        }
    } else if major == 4 {
        let rem = blen - pos - hl;
        if arg > rem as u64 {
            return Err(DecodeError::InvalidLength);
        }
        proof {
            lemma_skip_skip(b@, pos as int, hl as int);
        }
        match decode_elems(b, pos + hl, arg, depth - 1) {
            Err(e) => Err(e),
            Ok((vs, np)) => Ok((CborValue::Array(vs), np)),
        }
    } else if major == 5 {
        let rem = blen - pos - hl;
        if arg > rem as u64 {
            return Err(DecodeError::InvalidLength);
        }
        proof {
            lemma_skip_skip(b@, pos as int, hl as int);
        }
        match decode_entries(b, pos + hl, arg, depth - 1) {
            Err(e) => Err(e),
            Ok((ps, np)) => Ok((CborValue::Table(ps), np)),
        }
    } else if major == 7 {
        if hl == 1 && arg == 20 {
            Ok((CborValue::Bool(false), pos + 1))
        } else if hl == 1 && arg == 21 {
            Ok((CborValue::Bool(true), pos + 1))
        } else if hl == 1 && arg == 22 {
            Ok((CborValue::Null, pos + 1))
        } else {
            Err(DecodeError::UnexpectedType)
        }
    } else {
        Err(DecodeError::UnexpectedType)
    }
}


/// Decodes `b` as a single item spanning the whole input.
///
/// Returns exactly what the model `spec_decode` says: the decoded value on
/// success, and the model's error otherwise.  Decoding is pure: no partial
/// result is exposed on failure.
pub fn decode(b: &[u8]) -> (r: Result<CborValue, DecodeError>)
    ensures
        match r {
            Ok(v) => spec_decode(b@) matches Ok(d) && d == cbor_view(v),
            Err(e) => spec_decode(b@) matches Err(e2) && e2 == e,
        },
{
    assert(b@.skip(0) =~= b@);
    match decode_item(b, 0, MAX_DEPTH) {
        Err(e) => Err(e),
        Ok((v, np)) => {
            if np == b.len() {
                Ok(v)
            } else {
                Err(DecodeError::InvalidLength)
            }
        },
    }
}

/// Depth bound: input whose first `depth + 1` bytes each open a one-element
/// nested sequence nests past every budget of `depth` levels, and is
/// rejected as too deep — however much input follows.
pub proof fn lemma_depth_bound(b: Seq<u8>, depth: nat)
    requires
        b.len() > depth,
        forall|j: int| 0 <= j <= depth ==> #[trigger] b[j] == 0x81,
    ensures
        spec_dec_item(b, depth) == Err::<(CborData, nat), DecodeError>(DecodeError::TooDeep),
    decreases depth,
{
    if depth > 0 {
        assert(b[0] == 0x81);
        let rest = b.skip(1);
        assert(rest.len() > depth - 1);
        assert(forall|j: int| 0 <= j <= depth - 1 ==> #[trigger] rest[j] == b[j + 1]);
        lemma_depth_bound(rest, (depth - 1) as nat);
    }
}

/// Depth bound at the entry point: a buffer opening more than `MAX_DEPTH`
/// nested one-element sequences is rejected as too deep.
pub proof fn lemma_decode_too_deep(b: Seq<u8>)
    requires
        b.len() > MAX_DEPTH,
        forall|j: int| 0 <= j <= MAX_DEPTH ==> #[trigger] b[j] == 0x81,
    ensures
        spec_decode(b) == Err::<CborData, DecodeError>(DecodeError::TooDeep),
{
    lemma_depth_bound(b, MAX_DEPTH as nat);
}

} // verus!
