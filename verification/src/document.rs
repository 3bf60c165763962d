//! Attestation document model: decodes the envelope payload into a typed
//! document and enforces the structural invariants — recognized digest
//! algorithm, register values of exactly the digest's length, register
//! indices in range, well-formed DER certificates, required fields present.

use vstd::prelude::*;
use crate::cbor::{
    decode, spec_decode, cbor_view, pairs_view, elems_view, lemma_pairs_view, lemma_elems_view,
    CborData, CborValue, DecodeError,
};
use crate::cert::{cert_well_formed, parse_certificate};
use crate::bytes_eq;

verus! {

/// Key of the module identity field.
pub const KEY_MODULE_ID: [u8; 9] = [0x6d, 0x6f, 0x64, 0x75, 0x6c, 0x65, 0x5f, 0x69, 0x64];

/// Key of the digest algorithm field.
pub const KEY_DIGEST: [u8; 6] = [0x64, 0x69, 0x67, 0x65, 0x73, 0x74];

/// Key of the issuance timestamp field.
pub const KEY_TIMESTAMP: [u8; 9] = [0x74, 0x69, 0x6d, 0x65, 0x73, 0x74, 0x61, 0x6d, 0x70];

/// Key of the register mapping.
pub const KEY_PCRS: [u8; 4] = [0x70, 0x63, 0x72, 0x73];

/// Key of the leaf certificate field.
pub const KEY_CERTIFICATE: [u8; 11] = [0x63, 0x65, 0x72, 0x74, 0x69, 0x66, 0x69, 0x63, 0x61, 0x74, 0x65];

/// Key of the intermediate-chain field.
pub const KEY_CABUNDLE: [u8; 8] = [0x63, 0x61, 0x62, 0x75, 0x6e, 0x64, 0x6c, 0x65];

/// Key of the attested public key field.
pub const KEY_PUBLIC_KEY: [u8; 10] = [0x70, 0x75, 0x62, 0x6c, 0x69, 0x63, 0x5f, 0x6b, 0x65, 0x79];

/// Key of the attested user data field.
pub const KEY_USER_DATA: [u8; 9] = [0x75, 0x73, 0x65, 0x72, 0x5f, 0x64, 0x61, 0x74, 0x61];

/// Key of the attested nonce field.
pub const KEY_NONCE: [u8; 5] = [0x6e, 0x6f, 0x6e, 0x63, 0x65];

/// Name of the 256-bit digest.
pub const NAME_SHA256: [u8; 6] = [0x53, 0x48, 0x41, 0x32, 0x35, 0x36];

/// Name of the 384-bit digest.
pub const NAME_SHA384: [u8; 6] = [0x53, 0x48, 0x41, 0x33, 0x38, 0x34];

/// Name of the 512-bit digest.
pub const NAME_SHA512: [u8; 6] = [0x53, 0x48, 0x41, 0x35, 0x31, 0x32];

/// Greatest allowed register index.
pub const MAX_PCR_INDEX: u64 = 31;

/// The recognized digest algorithms.
#[derive(Clone, Copy, PartialEq, Eq, Structural, Debug)]
pub enum Digest {
    Sha256,
    Sha384,
    Sha512,
}

/// The output length of a digest algorithm, in bytes.
pub open spec fn digest_len(d: Digest) -> nat {
    match d {
        Digest::Sha256 => 32,
        Digest::Sha384 => 48,
        Digest::Sha512 => 64,
    }
}

/// The output length of a digest algorithm, in bytes.
pub fn digest_len_bytes(d: Digest) -> (r: usize)
    ensures
        r == digest_len(d),
{
    match d {
        Digest::Sha256 => 32,
        Digest::Sha384 => 48,
        Digest::Sha512 => 64,
    }
}

/// Failure of document decoding.
#[derive(Clone, Copy, PartialEq, Eq, Structural, Debug)]
pub enum DocumentError {
    /// The payload is not a well-formed binary item.
    Decode(DecodeError),
    /// A required field is absent or of the wrong shape, or the payload is
    /// not a mapping.
    MissingField,
    /// The digest algorithm name is not recognized.
    UnknownDigest,
    /// A register index is not an integer in range.
    PcrIndexOutOfRange,
    /// The register at the named index has a value whose length is not the
    /// digest's output length.
    PcrLengthMismatch(u64),
    /// The leaf certificate or a chain entry is not well-formed DER.
    MalformedCertificate,
}

/// The typed attestation document.
pub struct AttestationDoc {
    /// Opaque hardware module identifier (text bytes).
    pub module_id: Vec<u8>,
    /// The digest algorithm the registers use.
    pub digest: Digest,
    /// Issuance time claimed by the module, milliseconds since the epoch.
    pub timestamp: u64,
    /// Register measurements: index and value, in payload order.
    pub pcrs: Vec<(u64, Vec<u8>)>,
    /// DER bytes of the leaf certificate.
    pub certificate: Vec<u8>,
    /// DER bytes of the intermediate chain, leaf's issuer first.
    pub cabundle: Vec<Vec<u8>>,
    /// Attested public key, when bound.
    pub public_key: Option<Vec<u8>>,
    /// Attested user data, when bound.
    pub user_data: Option<Vec<u8>>,
    /// Attested freshness nonce, when bound.
    pub nonce: Option<Vec<u8>>,
}

/// Mathematical abstraction of an attestation document.
pub struct DocData {
    pub module_id: Seq<u8>,
    pub digest: Digest,
    pub timestamp: u64,
    pub pcrs: Seq<(u64, Seq<u8>)>,
    pub certificate: Seq<u8>,
    pub cabundle: Seq<Seq<u8>>,
    pub public_key: Option<Seq<u8>>,
    pub user_data: Option<Seq<u8>>,
    pub nonce: Option<Seq<u8>>,
}

/// The abstractions of a register vector.
pub open spec fn pcrs_seq(pcrs: Seq<(u64, Vec<u8>)>) -> Seq<(u64, Seq<u8>)> {
    pcrs.map_values(|p: (u64, Vec<u8>)| (p.0, p.1@))
}

/// The abstractions of a vector of byte strings.
pub open spec fn bytes_seq(v: Seq<Vec<u8>>) -> Seq<Seq<u8>> {
    v.map_values(|b: Vec<u8>| b@)
}

/// The abstraction of an optional byte string.
pub open spec fn opt_bytes_view(o: Option<Vec<u8>>) -> Option<Seq<u8>> {
    match o {
        Some(b) => Some(b@),
        None => None,
    }
}

impl View for AttestationDoc {
    type V = DocData;

    open spec fn view(&self) -> DocData {
        DocData {
            module_id: self.module_id@,
            digest: self.digest,
            timestamp: self.timestamp,
            pcrs: pcrs_seq(self.pcrs@),
            certificate: self.certificate@,
            cabundle: bytes_seq(self.cabundle@),
            public_key: opt_bytes_view(self.public_key),
            user_data: opt_bytes_view(self.user_data),
            nonce: opt_bytes_view(self.nonce),
        }
    }
}

/// The value of the first entry of `entries` whose key is the text `key`.
pub open spec fn find_text(entries: Seq<(CborData, CborData)>, key: Seq<u8>) -> Option<CborData>
    decreases entries.len(),
{
    if entries.len() == 0 {
        None
    } else if entries[0].0 == CborData::Text(key) {
        Some(entries[0].1)
    } else {
        find_text(entries.drop_first(), key)
    }
}

/// The digest a recognized algorithm name stands for.
pub open spec fn spec_digest_of(name: Seq<u8>) -> Option<Digest> {
    if name == NAME_SHA256@ {
        Some(Digest::Sha256)
    } else if name == NAME_SHA384@ {
        Some(Digest::Sha384)
    } else if name == NAME_SHA512@ {
        Some(Digest::Sha512)
    } else {
        None
    }
}

/// Checks the register entries in order: every key an integer index in
/// `0 ..= MAX_PCR_INDEX`, every value a byte string of exactly `dlen` bytes.
pub open spec fn spec_check_pcrs(
    entries: Seq<(CborData, CborData)>,
    dlen: nat,
    acc: Seq<(u64, Seq<u8>)>,
) -> Result<Seq<(u64, Seq<u8>)>, DocumentError>
    decreases entries.len(),
{
    if entries.len() == 0 {
        Ok(acc)
    } else {
        match entries[0] {
            (CborData::Uint(idx), CborData::Bytes(val)) => {
                if idx > MAX_PCR_INDEX {
                    Err(DocumentError::PcrIndexOutOfRange)
                } else if val.len() != dlen {
                    Err(DocumentError::PcrLengthMismatch(idx))
                } else {
                    spec_check_pcrs(entries.drop_first(), dlen, acc.push((idx, val)))
                }
            },
            _ => Err(DocumentError::PcrIndexOutOfRange),
        }
    }
}

/// Checks the chain entries in order: every element a byte string holding a
/// well-formed DER certificate.
pub open spec fn spec_check_bundle(items: Seq<CborData>, acc: Seq<Seq<u8>>) -> Result<
    Seq<Seq<u8>>,
    DocumentError,
>
    decreases items.len(),
{
    if items.len() == 0 {
        Ok(acc)
    } else {
        match items[0] {
            CborData::Bytes(d) => {
                if cert_well_formed(d) {
                    spec_check_bundle(items.drop_first(), acc.push(d))
                } else {
                    Err(DocumentError::MalformedCertificate)
                }
            },
            _ => Err(DocumentError::MalformedCertificate),
        }
    }
}

/// An optional byte-string field: absent or null is `None`; a byte string is
/// its bytes; anything else is malformed.
pub open spec fn spec_opt_bytes(o: Option<CborData>) -> Result<Option<Seq<u8>>, DocumentError> {
    match o {
        None => Ok(None),
        Some(CborData::Null) => Ok(None),
        Some(CborData::Bytes(b)) => Ok(Some(b)),
        Some(_) => Err(DocumentError::MissingField),
    }
}

/// The chain field: absent or null is the empty chain; a sequence is checked
/// element-wise; anything else is malformed.
pub open spec fn spec_bundle_field(o: Option<CborData>) -> Result<Seq<Seq<u8>>, DocumentError> {
    match o {
        None => Ok(Seq::empty()),
        Some(CborData::Null) => Ok(Seq::empty()),
        Some(CborData::Array(items)) => spec_check_bundle(items, Seq::empty()),
        Some(_) => Err(DocumentError::MissingField),
    }
}

/// The document the entries of a decoded payload mapping describe, checked
/// field by field in a fixed order.
pub open spec fn spec_doc_fields(entries: Seq<(CborData, CborData)>) -> Result<
    DocData,
    DocumentError,
> {
    match find_text(entries, KEY_MODULE_ID@) {
        Some(CborData::Text(mid)) => match find_text(entries, KEY_DIGEST@) {
            Some(CborData::Text(dg)) => match spec_digest_of(dg) {
                None => Err(DocumentError::UnknownDigest),
                Some(digest) => match find_text(entries, KEY_TIMESTAMP@) {
                    Some(CborData::Uint(ts)) => match find_text(entries, KEY_PCRS@) {
                        Some(CborData::Table(pes)) => match spec_check_pcrs(
                            pes,
                            digest_len(digest),
                            Seq::empty(),
                        ) {
                            Err(e) => Err(e),
                            Ok(pcrs) => match find_text(entries, KEY_CERTIFICATE@) {
                                Some(CborData::Bytes(cert)) => {
                                    if !cert_well_formed(cert) {
                                        Err(DocumentError::MalformedCertificate)
                                    } else {
                                        match spec_bundle_field(
                                            find_text(entries, KEY_CABUNDLE@),
                                        ) {
                                            Err(e) => Err(e),
                                            Ok(bundle) => match spec_opt_bytes(
                                                find_text(entries, KEY_PUBLIC_KEY@),
                                            ) {
                                                Err(e) => Err(e),
                                                Ok(pk) => match spec_opt_bytes(
                                                    find_text(entries, KEY_USER_DATA@),
                                                ) {
                                                    Err(e) => Err(e),
                                                    Ok(ud) => match spec_opt_bytes(
                                                        find_text(entries, KEY_NONCE@),
                                                    ) {
                                                        Err(e) => Err(e),
                                                        Ok(nc) => Ok(
                                                            DocData {
                                                                module_id: mid,
                                                                digest,
                                                                timestamp: ts,
                                                                pcrs,
                                                                certificate: cert,
                                                                cabundle: bundle,
                                                                public_key: pk,
                                                                user_data: ud,
                                                                nonce: nc,
                                                            },
                                                        ),
                                                    },
                                                },
                                            },
                                        }
                                    }
                                },
                                _ => Err(DocumentError::MissingField),
                            },
                        },
                        _ => Err(DocumentError::MissingField),
                    },
                    _ => Err(DocumentError::MissingField),
                },
            },
            _ => Err(DocumentError::MissingField),
        },
        _ => Err(DocumentError::MissingField),
    }
}

/// What `decode_document` returns on `payload`.
pub open spec fn spec_decode_document(payload: Seq<u8>) -> Result<DocData, DocumentError> {
    match spec_decode(payload) {
        Err(e) => Err(DocumentError::Decode(e)),
        Ok(CborData::Table(entries)) => spec_doc_fields(entries),
        Ok(_) => Err(DocumentError::MissingField),
    }
}

/// Whether a register entry is acceptable for digest length `dlen`.
pub open spec fn pcr_entry_ok(e: (CborData, CborData), dlen: nat) -> bool {
    &&& e.0 matches CborData::Uint(idx) && idx <= MAX_PCR_INDEX
    &&& e.1 matches CborData::Bytes(val) && val.len() == dlen
}

/// Register length invariant: whatever its index, a register whose value's
/// length differs from the digest's output length is rejected, naming that
/// index — provided the entries before it are acceptable.
pub proof fn lemma_pcr_length_rejected(
    entries: Seq<(CborData, CborData)>,
    dlen: nat,
    acc: Seq<(u64, Seq<u8>)>,
    i: int,
)
    requires
        0 <= i < entries.len(),
        forall|j: int| 0 <= j < i ==> pcr_entry_ok(#[trigger] entries[j], dlen),
        entries[i].0 matches CborData::Uint(idx) && idx <= MAX_PCR_INDEX,
        entries[i].1 matches CborData::Bytes(val) && val.len() != dlen,
    ensures
        spec_check_pcrs(entries, dlen, acc) == Err::<Seq<(u64, Seq<u8>)>, DocumentError>(
            DocumentError::PcrLengthMismatch(entries[i].0->Uint_0),
        ),
    decreases i,
{
    if i > 0 {
        match entries[0] {
            (CborData::Uint(idx), CborData::Bytes(val)) => {
                assert(pcr_entry_ok(entries[0], dlen));
                let rest = entries.drop_first();
                assert(forall|j: int| 0 <= j < i - 1 ==> #[trigger] rest[j] == entries[j + 1]);
                lemma_pcr_length_rejected(rest, dlen, acc.push((idx, val)), i - 1);
                assert(rest[i - 1] == entries[i]);
            },
            _ => {
                assert(pcr_entry_ok(entries[0], dlen));
            },
        }
    }
}

proof fn lemma_check_bundle_wf(items: Seq<CborData>, acc: Seq<Seq<u8>>)
    requires
        spec_check_bundle(items, acc) is Ok,
        forall|i: int| 0 <= i < acc.len() ==> cert_well_formed(#[trigger] acc[i]),
    ensures
        forall|i: int|
            0 <= i < spec_check_bundle(items, acc)->Ok_0.len() ==> cert_well_formed(
                #[trigger] spec_check_bundle(items, acc)->Ok_0[i],
            ),
    decreases items.len(),
{
    if items.len() > 0 {
        match items[0] {
            CborData::Bytes(d) => {
                assert(forall|i: int|
                    0 <= i < acc.push(d).len() ==> cert_well_formed(#[trigger] acc.push(d)[i]));
                lemma_check_bundle_wf(items.drop_first(), acc.push(d));
            },
            _ => {},
        }
    }
}

/// Every certificate of a successfully decoded document — the leaf and each
/// chain entry — is well-formed DER.
pub proof fn cert_well_formed_bundle(payload: Seq<u8>)
    requires
        spec_decode_document(payload) is Ok,
    ensures
        cert_well_formed(spec_decode_document(payload)->Ok_0.certificate),
        forall|i: int|
            0 <= i < spec_decode_document(payload)->Ok_0.cabundle.len() ==> cert_well_formed(
                #[trigger] spec_decode_document(payload)->Ok_0.cabundle[i],
            ),
{
    let entries = spec_decode(payload)->Ok_0->Table_0;
    let o = find_text(entries, KEY_CABUNDLE@);
    match o {
        Some(CborData::Array(items)) => {
            lemma_check_bundle_wf(items, Seq::empty());
        },
        _ => {},
    }
}

fn find_text_value<'a>(entries: &'a Vec<(CborValue, CborValue)>, key: &[u8]) -> (r: Option<
    &'a CborValue,
>)
    ensures
        match r {
            Some(v) => find_text(pairs_view(*entries, 0), key@) == Some(cbor_view(*v)),
            None => find_text(pairs_view(*entries, 0), key@) is None,
        },
{
    proof {
        lemma_pairs_view(*entries, 0);
        assert(pairs_view(*entries, 0).skip(0) =~= pairs_view(*entries, 0));
    }
    let mut i: usize = 0;
    while i < entries.len()
        invariant
            0 <= i <= entries@.len(),
            find_text(pairs_view(*entries, 0), key@) == find_text(
                pairs_view(*entries, 0).skip(i as int),
                key@,
            ),
            pairs_view(*entries, 0).len() == entries@.len(),
            forall|j: int| 0 <= j < entries@.len() ==> pairs_view(*entries, 0)[j] == (
                cbor_view(entries@[j].0),
                cbor_view(entries@[j].1),
            ),
        decreases entries@.len() - i,
    {
        let ghost pv = pairs_view(*entries, 0);
        proof {
            assert(pv.skip(i as int).len() > 0);
            assert(pv.skip(i as int)[0] == pv[i as int]);
            assert(pv.skip(i as int).drop_first() =~= pv.skip(i as int + 1));
        }
        let matches_key = match &entries[i].0 {
            CborValue::Text(t) => bytes_eq(t.as_slice(), key),
            _ => false,
        };
        if matches_key {
            return Some(&entries[i].1);
        }
        i += 1;
    }
    proof {
        assert(pairs_view(*entries, 0).skip(i as int) =~= Seq::<(CborData, CborData)>::empty());
    }
    None
}

fn digest_of(name: &Vec<u8>) -> (r: Option<Digest>)
    ensures
        r == spec_digest_of(name@),
{
    let sha256: [u8; 6] = NAME_SHA256;
    let sha384: [u8; 6] = NAME_SHA384;
    let sha512: [u8; 6] = NAME_SHA512;
    if bytes_eq(name.as_slice(), sha256.as_slice()) {
        Some(Digest::Sha256)
    } else if bytes_eq(name.as_slice(), sha384.as_slice()) {
        Some(Digest::Sha384)
    } else if bytes_eq(name.as_slice(), sha512.as_slice()) {
        Some(Digest::Sha512)
    } else {
        None
    }
}

#[verifier::loop_isolation(false)]
fn check_pcrs(pes: &Vec<(CborValue, CborValue)>, dlen: usize) -> (r: Result<
    Vec<(u64, Vec<u8>)>,
    DocumentError,
>)
    ensures
        match r {
            Ok(pcrs) => spec_check_pcrs(pairs_view(*pes, 0), dlen as nat, Seq::empty()) matches Ok(
                s,
            ) && s == pcrs_seq(pcrs@),
            Err(e) => spec_check_pcrs(pairs_view(*pes, 0), dlen as nat, Seq::empty()) matches Err(
                e2,
            ) && e2 == e,
        },
{
    proof {
        lemma_pairs_view(*pes, 0);
        assert(pairs_view(*pes, 0).skip(0) =~= pairs_view(*pes, 0));
    }
    let mut acc: Vec<(u64, Vec<u8>)> = Vec::new();
    proof {
        assert(pcrs_seq(acc@) =~= Seq::<(u64, Seq<u8>)>::empty());
    }
    let mut i: usize = 0;
    while i < pes.len()
        invariant
            0 <= i <= pes@.len(),
            pcrs_seq(acc@).len() == i,
            spec_check_pcrs(pairs_view(*pes, 0), dlen as nat, Seq::empty()) == spec_check_pcrs(
                pairs_view(*pes, 0).skip(i as int),
                dlen as nat,
                pcrs_seq(acc@),
            ),
        decreases pes@.len() - i,
    {
        let ghost pv = pairs_view(*pes, 0);
        proof {
            assert(pv.skip(i as int).len() > 0);
            assert(pv.skip(i as int)[0] == pv[i as int]);
            assert(pv.skip(i as int).drop_first() =~= pv.skip(i as int + 1));
        }
        let idx: u64 = match &pes[i].0 {
            CborValue::Uint(x) => *x,
            _ => {
                return Err(DocumentError::PcrIndexOutOfRange);
            },
        };
        let val = match &pes[i].1 {
            CborValue::Bytes(v) => v,
            _ => {
                return Err(DocumentError::PcrIndexOutOfRange);
            },
        };
        if idx > MAX_PCR_INDEX {
            return Err(DocumentError::PcrIndexOutOfRange);
        }
        if val.len() != dlen {
            return Err(DocumentError::PcrLengthMismatch(idx));
        }
        let ghost old_acc = acc;
        acc.push((idx, vstd::slice::slice_to_vec(val.as_slice())));
        proof {
            assert(pcrs_seq(acc@) =~= pcrs_seq(old_acc@).push((idx, val@)));
        }
        i += 1;
    }
    proof {
        assert(pairs_view(*pes, 0).skip(i as int) =~= Seq::<(CborData, CborData)>::empty());
    }
    Ok(acc)
}

#[verifier::loop_isolation(false)]
fn check_bundle(items: &Vec<CborValue>) -> (r: Result<Vec<Vec<u8>>, DocumentError>)
    ensures
        match r {
            Ok(bundle) => spec_check_bundle(elems_view(*items, 0), Seq::empty()) matches Ok(s) && s
                == bytes_seq(bundle@),
            Err(e) => spec_check_bundle(elems_view(*items, 0), Seq::empty()) matches Err(e2) && e2
                == e,
        },
{
    proof {
        lemma_elems_view(*items, 0);
        assert(elems_view(*items, 0).skip(0) =~= elems_view(*items, 0));
    }
    let mut acc: Vec<Vec<u8>> = Vec::new();
    proof {
        assert(bytes_seq(acc@) =~= Seq::<Seq<u8>>::empty());
    }
    let mut i: usize = 0;
    while i < items.len()
        invariant
            0 <= i <= items@.len(),
            bytes_seq(acc@).len() == i,
            spec_check_bundle(elems_view(*items, 0), Seq::empty()) == spec_check_bundle(
                elems_view(*items, 0).skip(i as int),
                bytes_seq(acc@),
            ),
        decreases items@.len() - i,
    {
        let ghost ev = elems_view(*items, 0);
        proof {
            assert(ev.skip(i as int).len() > 0);
            assert(ev.skip(i as int)[0] == ev[i as int]);
            assert(ev.skip(i as int).drop_first() =~= ev.skip(i as int + 1));
        }
        let d = match &items[i] {
            CborValue::Bytes(v) => v,
            _ => {
                return Err(DocumentError::MalformedCertificate);
            },
        };
        match parse_certificate(d.as_slice()) {
            Some(_) => {},
            None => {
                return Err(DocumentError::MalformedCertificate);
            },
        }
        let ghost old_acc = acc;
        acc.push(vstd::slice::slice_to_vec(d.as_slice()));
        proof {
            assert(bytes_seq(acc@) =~= bytes_seq(old_acc@).push(d@));
        }
        i += 1;
    }
    proof {
        assert(elems_view(*items, 0).skip(i as int) =~= Seq::<CborData>::empty());
    }
    Ok(acc)
}

fn opt_bytes_field(o: Option<&CborValue>) -> (r: Result<Option<Vec<u8>>, DocumentError>)
    ensures
        match r {
            Ok(v) => spec_opt_bytes(
                match o {
                    Some(c) => Some(cbor_view(*c)),
                    None => None,
                },
            ) matches Ok(s) && s == opt_bytes_view(v),
            Err(e) => spec_opt_bytes(
                match o {
                    Some(c) => Some(cbor_view(*c)),
                    None => None,
                },
            ) matches Err(e2) && e2 == e,
        },
{
    match o {
        None => Ok(None),
        Some(CborValue::Null) => Ok(None),
        Some(CborValue::Bytes(b)) => Ok(Some(vstd::slice::slice_to_vec(b.as_slice()))),
        Some(_) => Err(DocumentError::MissingField),
    }
}

/// Decodes `payload` into the typed document, enforcing every structural
/// invariant.  Returns exactly what the model `spec_decode_document` says.
#[verifier::rlimit(60)]
pub fn decode_document(payload: &[u8]) -> (r: Result<AttestationDoc, DocumentError>)
    ensures
        match r {
            Ok(doc) => spec_decode_document(payload@) matches Ok(d) && d == doc@,
            Err(e) => spec_decode_document(payload@) matches Err(e2) && e2 == e,
        },
{
    let v = match decode(payload) {
        Ok(v) => v,
        Err(e) => {
            return Err(DocumentError::Decode(e));
        },
    };
    let entries = match v {
        CborValue::Table(entries) => entries,
        _ => {
            return Err(DocumentError::MissingField);
        },
    };
    let key_module_id: [u8; 9] = KEY_MODULE_ID;
    let key_digest: [u8; 6] = KEY_DIGEST;
    let key_timestamp: [u8; 9] = KEY_TIMESTAMP;
    let key_pcrs: [u8; 4] = KEY_PCRS;
    let key_certificate: [u8; 11] = KEY_CERTIFICATE;
    let key_cabundle: [u8; 8] = KEY_CABUNDLE;
    let key_public_key: [u8; 10] = KEY_PUBLIC_KEY;
    let key_user_data: [u8; 9] = KEY_USER_DATA;
    let key_nonce: [u8; 5] = KEY_NONCE;
    let mid = match find_text_value(&entries, key_module_id.as_slice()) {
        Some(CborValue::Text(t)) => vstd::slice::slice_to_vec(t.as_slice()),
        _ => {
            return Err(DocumentError::MissingField);
        },
    };
    let digest = match find_text_value(&entries, key_digest.as_slice()) {
        Some(CborValue::Text(t)) => match digest_of(t) {
            Some(d) => d,
            None => {
                return Err(DocumentError::UnknownDigest);
            },
        },
        _ => {
            return Err(DocumentError::MissingField);
        },
    };
    let ts = match find_text_value(&entries, key_timestamp.as_slice()) {
        Some(CborValue::Uint(t)) => *t,
        _ => {
            return Err(DocumentError::MissingField);
        },
    };
    let pcrs = match find_text_value(&entries, key_pcrs.as_slice()) {
        Some(CborValue::Table(pes)) => match check_pcrs(pes, digest_len_bytes(digest)) {
            Ok(p) => p,
            Err(e) => {
                return Err(e);
            },
        },
        _ => {
            return Err(DocumentError::MissingField);
        },
    };
    let cert = match find_text_value(&entries, key_certificate.as_slice()) {
        Some(CborValue::Bytes(c)) => {
            match parse_certificate(c.as_slice()) {
                Some(_) => vstd::slice::slice_to_vec(c.as_slice()),
                None => {
                    return Err(DocumentError::MalformedCertificate);
                },
            }
        },
        _ => {
            return Err(DocumentError::MissingField);
        },
    };
    let empty_bundle: Vec<Vec<u8>> = Vec::new();
    proof {
        assert(bytes_seq(empty_bundle@) =~= Seq::<Seq<u8>>::empty());
    }
    let bundle = match find_text_value(&entries, key_cabundle.as_slice()) {
        None => empty_bundle,
        Some(CborValue::Null) => empty_bundle,
        Some(CborValue::Array(items)) => match check_bundle(items) {
            Ok(b) => b,
            Err(e) => {
                return Err(e);
            },
        },
        Some(_) => {
            return Err(DocumentError::MissingField);
        },
    };
    let pk = match opt_bytes_field(find_text_value(&entries, key_public_key.as_slice())) {
        Ok(v) => v,
        Err(e) => {
            return Err(e);
        },
    };
    let ud = match opt_bytes_field(find_text_value(&entries, key_user_data.as_slice())) {
        Ok(v) => v,
        Err(e) => {
            return Err(e);
        },
    };
    let nc = match opt_bytes_field(find_text_value(&entries, key_nonce.as_slice())) {
        Ok(v) => v,
        Err(e) => {
            return Err(e);
        },
    };
    let doc = AttestationDoc {
        module_id: mid,
        digest,
        timestamp: ts,
        pcrs,
        certificate: cert,
        cabundle: bundle,
        public_key: pk,
        user_data: ud,
        nonce: nc,
    };
    Ok(doc)
}

} // verus!
