//! Signature envelope parser: interprets a decoded byte sequence as a
//! single-signer signed envelope (protected header, unprotected header,
//! payload, signature) and builds the canonical to-be-signed byte string.
//!
//! The protected header and the payload are kept as the exact bytes that were
//! embedded in the input; the to-be-signed string is built from those raw
//! bytes, never from a re-encoding.

use vstd::prelude::*;
use crate::cbor::{
    decode, spec_decode, cbor_view, pairs_view, lemma_elems_view, lemma_pairs_view, CborData,
    CborValue, DecodeError,
};

verus! {

/// The algorithm identifier the envelope must declare: the only signature
/// algorithm the hardware module uses (ECDSA over P-384 with SHA-384,
/// written as the negative integer -35, that is `Nint(34)`).
pub const ALG_ES384_NINT: u64 = 34;

/// Failure of the envelope parser.
#[derive(Clone, Copy, PartialEq, Eq, Structural, Debug)]
pub enum EnvelopeError {
    /// The input is not a well-formed binary item.
    Decode(DecodeError),
    /// The input decodes, but not to a four-element sequence of
    /// {byte string, mapping, byte string, byte string}.
    MalformedStructure,
    /// The protected header has no algorithm entry, or declares an
    /// algorithm other than the supported one.
    UnsupportedAlgorithm,
}

/// A parsed signed envelope.  `protected` and `payload` are byte-identical
/// to the strings embedded in the input.
pub struct SignedEnvelope {
    pub protected: Vec<u8>,
    pub unprotected: Vec<(CborValue, CborValue)>,
    pub payload: Vec<u8>,
    pub signature: Vec<u8>,
}

/// Mathematical abstraction of a parsed envelope.
pub struct EnvData {
    pub protected: Seq<u8>,
    pub unprotected: Seq<(CborData, CborData)>,
    pub payload: Seq<u8>,
    pub signature: Seq<u8>,
}

impl View for SignedEnvelope {
    type V = EnvData;

    open spec fn view(&self) -> EnvData {
        EnvData {
            protected: self.protected@,
            unprotected: pairs_view(self.unprotected, 0),
            payload: self.payload@,
            signature: self.signature@,
        }
    }
}

/// The algorithm entry of a decoded protected header: the value of the
/// first entry whose key is the integer 1.
pub open spec fn spec_alg_entry(entries: Seq<(CborData, CborData)>) -> Option<CborData>
    decreases entries.len(),
{
    if entries.len() == 0 {
        None
    } else if entries[0].0 == CborData::Uint(1) {
        Some(entries[0].1)
    } else {
        spec_alg_entry(entries.drop_first())
    }
}

/// Whether the protected header bytes decode to a mapping whose algorithm
/// entry names the supported algorithm.
pub open spec fn spec_protected_ok(p: Seq<u8>) -> bool {
    &&& spec_decode(p) matches Ok(v)
    &&& v matches CborData::Table(entries)
    &&& spec_alg_entry(entries) == Some(CborData::Nint(ALG_ES384_NINT))
}

/// What `parse_envelope` returns on `b`.
pub open spec fn spec_parse_envelope(b: Seq<u8>) -> Result<EnvData, EnvelopeError> {
    match spec_decode(b) {
        Err(e) => Err(EnvelopeError::Decode(e)),
        Ok(v) => match v {
            CborData::Array(items) => {
                if items.len() != 4 {
                    Err(EnvelopeError::MalformedStructure)
                } else {
                    match (items[0], items[1], items[2], items[3]) {
                        (
                            CborData::Bytes(p),
                            CborData::Table(u),
                            CborData::Bytes(pl),
                            CborData::Bytes(sig),
                        ) => {
                            if spec_protected_ok(p) {
                                Ok(EnvData { protected: p, unprotected: u, payload: pl, signature: sig })
                            } else {
                                Err(EnvelopeError::UnsupportedAlgorithm)
                            }
                        },
                        _ => Err(EnvelopeError::MalformedStructure),
                    }
                }
            },
            _ => Err(EnvelopeError::MalformedStructure),
        },
    }
}

fn alg_is_es384(entries: &Vec<(CborValue, CborValue)>) -> (r: bool)
    ensures
        r == (spec_alg_entry(pairs_view(*entries, 0)) == Some(
            CborData::Nint(ALG_ES384_NINT),
        )),
{
    proof {
        lemma_pairs_view(*entries, 0);
        assert(pairs_view(*entries, 0).skip(0) =~= pairs_view(*entries, 0));
    }
    let mut i: usize = 0;
    while i < entries.len()
        invariant
            0 <= i <= entries@.len(),
            spec_alg_entry(pairs_view(*entries, 0)) == spec_alg_entry(
                pairs_view(*entries, 0).skip(i as int),
            ),
            pairs_view(*entries, 0).len() == entries@.len(),
            forall|j: int| 0 <= j < entries@.len() ==> pairs_view(*entries, 0)[j] == (
                cbor_view(entries@[j].0),
                cbor_view(entries@[j].1),
            ),
        decreases entries@.len() - i,
    {
        let ghost pv = pairs_view(*entries, 0);
        proof {
            assert(pv.skip(i as int).len() > 0);
            assert(pv.skip(i as int)[0] == pv[i as int]);
            assert(pv.skip(i as int).drop_first() =~= pv.skip(i as int + 1));
        }
        let is_key_one = match &entries[i].0 {
            CborValue::Uint(x) => *x == 1,
            _ => false,
        };
        if is_key_one {
            return match &entries[i].1 {
                CborValue::Nint(a) => *a == ALG_ES384_NINT,
                _ => false,
            };
        }
        i += 1;
    }
    proof {
        assert(pairs_view(*entries, 0).skip(i as int) =~= Seq::<(CborData, CborData)>::empty());
    }
    false
}

/// Parses `b` as a signed envelope.
///
/// Succeeds exactly when `b` decodes to a four-element sequence of
/// {byte string, mapping, byte string, byte string} whose protected header
/// itself decodes to a mapping declaring the supported algorithm; the
/// result's fields are the exact embedded byte strings.
pub fn parse_envelope(b: &[u8]) -> (r: Result<SignedEnvelope, EnvelopeError>)
    ensures
        match r {
            Ok(env) => spec_parse_envelope(b@) matches Ok(e) && e == env@,
            Err(e) => spec_parse_envelope(b@) matches Err(e2) && e2 == e,
        },
{
    let v = match decode(b) {
        Ok(v) => v,
        Err(e) => {
            return Err(EnvelopeError::Decode(e));
        },
    };
    match v {
        CborValue::Array(mut items) => {
            proof {
                lemma_elems_view(items, 0);
            }
            if items.len() != 4 {
                return Err(EnvelopeError::MalformedStructure);
            }
            let sig_v = items.pop().unwrap();
            let pl_v = items.pop().unwrap();
            let u_v = items.pop().unwrap();
            let p_v = items.pop().unwrap();
            match (p_v, u_v, pl_v, sig_v) {
                (
                    CborValue::Bytes(p),
                    CborValue::Table(u),
                    CborValue::Bytes(pl),
                    CborValue::Bytes(sig),
                ) => {
                    let pr = match decode(p.as_slice()) {
                        Ok(CborValue::Table(pr_entries)) => {
                            if alg_is_es384(&pr_entries) {
                                Ok(())
                            } else {
                                Err(())
                            }
                        },
                        _ => Err(()),
                    };
                    match pr {
                        Ok(()) => Ok(
                            SignedEnvelope {
                                protected: p,
                                unprotected: u,
                                payload: pl,
                                signature: sig,
                            },
                        ),
                        Err(()) => Err(EnvelopeError::UnsupportedAlgorithm),
                    }
                },
                _ => Err(EnvelopeError::MalformedStructure),
            }
        },
        _ => Err(EnvelopeError::MalformedStructure),
    }
}

/// Canonical header for an item of major type `major` whose argument
/// (value or length) is `n`: the shortest form the notation allows.
pub open spec fn spec_len_header(major: u8, n: nat) -> Seq<u8> {
    if n < 24 {
        seq![(major * 32 + n) as u8]
    } else if n < 0x100 {
        seq![(major * 32 + 24) as u8, n as u8]
    } else if n < 0x10000 {
        seq![(major * 32 + 25) as u8, (n / 0x100) as u8, (n % 0x100) as u8]
    } else if n < 0x100000000 {
        seq![
            (major * 32 + 26) as u8,
            (n / 0x1000000) as u8,
            ((n / 0x10000) % 0x100) as u8,
            ((n / 0x100) % 0x100) as u8,
            (n % 0x100) as u8,
        ]
    } else {
        seq![
            (major * 32 + 27) as u8,
            (n / 0x100000000000000) as u8,
            ((n / 0x1000000000000) % 0x100) as u8,
            ((n / 0x10000000000) % 0x100) as u8,
            ((n / 0x100000000) % 0x100) as u8,
            ((n / 0x1000000) % 0x100) as u8,
            ((n / 0x10000) % 0x100) as u8,
            ((n / 0x100) % 0x100) as u8,
            (n % 0x100) as u8,
        ]
    }
}

/// The canonical to-be-signed byte string for a single-signer envelope:
/// a four-element sequence of the fixed context label, the raw protected
/// header bytes, an empty external-data string, and the raw payload bytes.
pub open spec fn spec_sig_structure(protected: Seq<u8>, payload: Seq<u8>) -> Seq<u8> {
    seq![0x84u8, 0x6Au8, 0x53u8, 0x69u8, 0x67u8, 0x6Eu8, 0x61u8, 0x74u8, 0x75u8, 0x72u8, 0x65u8, 0x31u8]
        + spec_len_header(2, protected.len()) + protected + seq![0x40u8] + spec_len_header(
        2,
        payload.len(),
    ) + payload
}

fn push_len_header(out: &mut Vec<u8>, n: usize)
    ensures
        final(out)@ == old(out)@ + spec_len_header(2, n as nat),
{
    let m = n as u64;
    if m < 24 {
        out.push(64 + m as u8);
    } else if m < 0x100 {
        out.push(64 + 24);
        out.push(m as u8);
    } else if m < 0x10000 {
        out.push(64 + 25);
        out.push((m / 0x100) as u8);
        out.push((m % 0x100) as u8);
    } else if m <= 0xFFFFFFFF {
        out.push(64 + 26);
        out.push((m / 0x1000000) as u8);
        out.push(((m / 0x10000) % 0x100) as u8);
        out.push(((m / 0x100) % 0x100) as u8);
        out.push((m % 0x100) as u8);
    } else {
        out.push(64 + 27);
        out.push((m / 0x100000000000000) as u8);
        out.push(((m / 0x1000000000000) % 0x100) as u8);
        out.push(((m / 0x10000000000) % 0x100) as u8);
        out.push(((m / 0x100000000) % 0x100) as u8);
        out.push(((m / 0x1000000) % 0x100) as u8);
        out.push(((m / 0x10000) % 0x100) as u8);
        out.push(((m / 0x100) % 0x100) as u8);
        out.push((m % 0x100) as u8);
    }
    assert(final(out)@ =~= old(out)@ + spec_len_header(2, n as nat));
}

fn append_bytes(out: &mut Vec<u8>, b: &[u8])
    ensures
        final(out)@ == old(out)@ + b@,
{
    let mut i: usize = 0;
    while i < b.len()
        invariant
            0 <= i <= b@.len(),
            out@ == old(out)@ + b@.subrange(0, i as int),
        decreases b@.len() - i,
    {
        out.push(b[i]);
        assert(out@ =~= old(out)@ + b@.subrange(0, i + 1));
        i += 1;
    }
    assert(out@ =~= old(out)@ + b@);
}

/// Builds the canonical to-be-signed byte string from the raw protected
/// header bytes and the raw payload bytes, exactly as received.
pub fn sig_structure(protected: &[u8], payload: &[u8]) -> (r: Vec<u8>)
    ensures
        r@ == spec_sig_structure(protected@, payload@),
{
    let mut out: Vec<u8> = Vec::new();
    out.push(0x84);
    out.push(0x6A);
    out.push(0x53);
    out.push(0x69);
    out.push(0x67);
    out.push(0x6E);
    out.push(0x61);
    out.push(0x74);
    out.push(0x75);
    out.push(0x72);
    out.push(0x65);
    out.push(0x31);
    push_len_header(&mut out, protected.len());
    append_bytes(&mut out, protected);
    out.push(0x40);
    push_len_header(&mut out, payload.len());
    append_bytes(&mut out, payload);
    assert(out@ =~= spec_sig_structure(protected@, payload@));
    out
}

} // verus!
