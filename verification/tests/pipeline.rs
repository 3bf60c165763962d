//! End-to-end tests of the verification pipeline, against a small test PKI
//! built on the spot: hand-assembled DER certificates signed with real
//! P-384 keys.

use nsm_attest::cbor::{decode, CborValue, DecodeError};
use nsm_attest::cert::parse_certificate;
use nsm_attest::chain::{validate_chain, ChainError};
use nsm_attest::document::{decode_document, Digest, DocumentError};
use nsm_attest::envelope::{parse_envelope, sig_structure, EnvelopeError};
use nsm_attest::verify::{verify, VerificationError};
use p384::ecdsa::signature::SignatureEncoding;
use p384::ecdsa::signature::Signer;
use p384::ecdsa::{Signature, SigningKey};

// ---- minimal DER builder -------------------------------------------------

fn der_len(n: usize) -> Vec<u8> {
    if n < 0x80 {
        vec![n as u8]
    } else if n < 0x100 {
        vec![0x81, n as u8]
    } else {
        vec![0x82, (n / 0x100) as u8, (n % 0x100) as u8]
    }
}

fn tlv(tag: u8, content: &[u8]) -> Vec<u8> {
    let mut out = vec![tag];
    out.extend(der_len(content.len()));
    out.extend(content);
    out
}

fn der_name(cn: &str) -> Vec<u8> {
    let oid_cn = tlv(0x06, &[0x55, 0x04, 0x03]);
    let val = tlv(0x0C, cn.as_bytes());
    let atv = tlv(0x30, &[oid_cn, val].concat());
    let rdn = tlv(0x31, &atv);
    tlv(0x30, &rdn)
}

fn alg_ecdsa_sha384() -> Vec<u8> {
    tlv(0x30, &tlv(0x06, &[0x2A, 0x86, 0x48, 0xCE, 0x3D, 0x04, 0x03, 0x03]))
}

fn spki(point: &[u8]) -> Vec<u8> {
    let oid_ec = tlv(0x06, &[0x2A, 0x86, 0x48, 0xCE, 0x3D, 0x02, 0x01]);
    let oid_p384 = tlv(0x06, &[0x2B, 0x81, 0x04, 0x00, 0x22]);
    let alg = tlv(0x30, &[oid_ec, oid_p384].concat());
    let mut bs = vec![0x00];
    bs.extend(point);
    let key = tlv(0x03, &bs);
    tlv(0x30, &[alg, key].concat())
}

fn utc_time(s: &str) -> Vec<u8> {
    tlv(0x17, s.as_bytes())
}

fn ca_extensions() -> Vec<u8> {
    // basicConstraints: critical, CA = true
    let bc_oid = tlv(0x06, &[0x55, 0x1D, 0x13]);
    let bc_val = tlv(0x04, &tlv(0x30, &[0x01, 0x01, 0xFF]));
    let bc = tlv(0x30, &[bc_oid, vec![0x01, 0x01, 0xFF], bc_val].concat());
    // keyUsage: keyCertSign
    let ku_oid = tlv(0x06, &[0x55, 0x1D, 0x0F]);
    let ku_val = tlv(0x04, &[0x03, 0x02, 0x02, 0x04]);
    let ku = tlv(0x30, &[ku_oid, ku_val].concat());
    tlv(0xA3, &tlv(0x30, &[bc, ku].concat()))
}

struct CertSpec<'a> {
    serial: u8,
    issuer_cn: &'a str,
    subject_cn: &'a str,
    not_before: &'a str,
    not_after: &'a str,
    is_ca: bool,
}

fn make_cert(spec: &CertSpec, subject_key: &SigningKey, signer: &SigningKey) -> Vec<u8> {
    let point = subject_key.verifying_key().to_sec1_bytes();
    make_cert_with_point(spec, &point, signer)
}

fn make_cert_with_point(spec: &CertSpec, point: &[u8], signer: &SigningKey) -> Vec<u8> {
    let version = tlv(0xA0, &tlv(0x02, &[0x02]));
    let serial = tlv(0x02, &[spec.serial]);
    let validity = tlv(
        0x30,
        &[utc_time(spec.not_before), utc_time(spec.not_after)].concat(),
    );
    let mut tbs_content = [
        version,
        serial,
        alg_ecdsa_sha384(),
        der_name(spec.issuer_cn),
        validity,
        der_name(spec.subject_cn),
        spki(point),
    ]
    .concat();
    if spec.is_ca {
        tbs_content.extend(ca_extensions());
    }
    let tbs = tlv(0x30, &tbs_content);
    let sig: Signature = signer.sign(&tbs);
    let sig_der = sig.to_der().to_vec();
    let mut sig_bits = vec![0x00];
    sig_bits.extend(&sig_der);
    let sig_bs = tlv(0x03, &sig_bits);
    tlv(0x30, &[tbs, alg_ecdsa_sha384(), sig_bs].concat())
}

fn root_key() -> SigningKey {
    SigningKey::from_slice(&[0x11u8; 48]).unwrap()
}

fn inter_key() -> SigningKey {
    SigningKey::from_slice(&[0x22u8; 48]).unwrap()
}

fn leaf_key() -> SigningKey {
    SigningKey::from_slice(&[0x33u8; 48]).unwrap()
}

fn other_key() -> SigningKey {
    SigningKey::from_slice(&[0x44u8; 48]).unwrap()
}

// not_after 2030-01-01T00:00:00Z in epoch seconds
const NOT_AFTER_SEC: i64 = 1893456000;
// a time inside every test certificate's validity window, in ms
const GOOD_TIME_MS: u64 = 1_700_000_000_000;

fn root_cert() -> Vec<u8> {
    make_cert(
        &CertSpec {
            serial: 1,
            issuer_cn: "test root",
            subject_cn: "test root",
            not_before: "200101000000Z",
            not_after: "300101000000Z",
            is_ca: true,
        },
        &root_key(),
        &root_key(),
    )
}

fn leaf_cert() -> Vec<u8> {
    make_cert(
        &CertSpec {
            serial: 2,
            issuer_cn: "test root",
            subject_cn: "test leaf",
            not_before: "200101000000Z",
            not_after: "300101000000Z",
            is_ca: false,
        },
        &leaf_key(),
        &root_key(),
    )
}

// ---- minimal CBOR builder ------------------------------------------------

fn cb_head(major: u8, n: u64) -> Vec<u8> {
    if n < 24 {
        vec![major * 32 + n as u8]
    } else if n < 0x100 {
        vec![major * 32 + 24, n as u8]
    } else if n < 0x10000 {
        vec![major * 32 + 25, (n / 0x100) as u8, (n % 0x100) as u8]
    } else if n < 0x100000000 {
        let mut v = vec![major * 32 + 26];
        v.extend(&[(n >> 24) as u8, (n >> 16) as u8, (n >> 8) as u8, n as u8]);
        v
    } else {
        let mut v = vec![major * 32 + 27];
        v.extend(&[
            (n >> 56) as u8,
            (n >> 48) as u8,
            (n >> 40) as u8,
            (n >> 32) as u8,
            (n >> 24) as u8,
            (n >> 16) as u8,
            (n >> 8) as u8,
            n as u8,
        ]);
        v
    }
}

fn cb_uint(n: u64) -> Vec<u8> {
    cb_head(0, n)
}

fn cb_bytes(b: &[u8]) -> Vec<u8> {
    let mut v = cb_head(2, b.len() as u64);
    v.extend(b);
    v
}

fn cb_text(s: &str) -> Vec<u8> {
    let mut v = cb_head(3, s.len() as u64);
    v.extend(s.as_bytes());
    v
}

fn cb_null() -> Vec<u8> {
    vec![0xF6]
}

const MODULE_ID: &str = "i-09eb1f8c065b7f2e8-enc017c9014e72f9d78";

fn payload_with(pcr_len: usize, pcr_index: u64, nonce: Option<&[u8]>) -> Vec<u8> {
    let mut map = cb_head(5, 8);
    map.extend(cb_text("module_id"));
    map.extend(cb_text(MODULE_ID));
    map.extend(cb_text("digest"));
    map.extend(cb_text("SHA384"));
    map.extend(cb_text("timestamp"));
    map.extend(cb_uint(1_699_999_000_000));
    map.extend(cb_text("pcrs"));
    map.extend(cb_head(5, 2));
    map.extend(cb_uint(0));
    map.extend(cb_bytes(&vec![0xAA; 48]));
    map.extend(cb_uint(pcr_index));
    map.extend(cb_bytes(&vec![0xBB; pcr_len]));
    map.extend(cb_text("certificate"));
    map.extend(cb_bytes(&leaf_cert()));
    map.extend(cb_text("cabundle"));
    map.extend(cb_head(4, 0));
    map.extend(cb_text("user_data"));
    map.extend(cb_null());
    map.extend(cb_text("nonce"));
    match nonce {
        Some(n) => map.extend(cb_bytes(n)),
        None => map.extend(cb_null()),
    }
    map
}

fn protected_es384() -> Vec<u8> {
    // {1: -35}
    vec![0xA1, 0x01, 0x38, 0x22]
}

fn envelope_with(payload: &[u8]) -> Vec<u8> {
    let protected = protected_es384();
    let tbs = sig_structure(&protected, payload);
    let sig: Signature = leaf_key().sign(&tbs);
    let sig_raw = sig.to_bytes().to_vec();
    let mut env = cb_head(4, 4);
    env.extend(cb_bytes(&protected));
    env.extend(cb_head(5, 0));
    env.extend(cb_bytes(payload));
    env.extend(cb_bytes(&sig_raw));
    env
}

fn good_envelope() -> Vec<u8> {
    envelope_with(&payload_with(48, 1, Some(&[0x01, 0x02, 0x03])))
}

fn anchors() -> Vec<Vec<u8>> {
    vec![root_cert()]
}

// ---- tests ---------------------------------------------------------------

#[test]
fn scenario_verify_good_envelope() {
    let raw = good_envelope();
    let r = verify(&raw, &anchors(), GOOD_TIME_MS, None);
    let vd = r.unwrap();
    assert_eq!(vd.document.module_id, MODULE_ID.as_bytes().to_vec());
    assert_eq!(vd.document.digest, Digest::Sha384);
    assert_eq!(vd.document.timestamp, 1_699_999_000_000);
    assert_eq!(vd.document.pcrs.len(), 2);
    assert_eq!(vd.document.pcrs[0], (0u64, vec![0xAA; 48]));
    assert_eq!(vd.document.certificate, leaf_cert());
    assert_eq!(vd.document.nonce, Some(vec![0x01, 0x02, 0x03]));
    assert_eq!(vd.anchor_index, 0);
}

#[test]
fn scenario_corrupted_byte_fails() {
    let mut raw = good_envelope();
    let mid = raw.len() / 2;
    raw[mid] ^= 0x01;
    assert!(verify(&raw, &anchors(), GOOD_TIME_MS, None).is_err());
}

#[test]
fn tamper_payload_bit_is_rejected() {
    let payload = payload_with(48, 1, None);
    let protected = protected_es384();
    let tbs = sig_structure(&protected, &payload);
    let sig: Signature = leaf_key().sign(&tbs);
    let sig_raw = sig.to_bytes().to_vec();
    // flip one bit inside the module identity text, after signing
    let mut tampered = payload.clone();
    let pos = tampered
        .windows(9)
        .position(|w| w == b"module_id")
        .unwrap()
        + 12;
    tampered[pos] ^= 0x01;
    let mut env = cb_head(4, 4);
    env.extend(cb_bytes(&protected));
    env.extend(cb_head(5, 0));
    env.extend(cb_bytes(&tampered));
    env.extend(cb_bytes(&sig_raw));
    let r = verify(&env, &anchors(), GOOD_TIME_MS, None);
    assert_eq!(
        r.err().unwrap(),
        VerificationError::Signature(nsm_attest::cert::SignatureError::Invalid)
    );
}

#[test]
fn tamper_signature_bit_is_rejected() {
    let mut raw = good_envelope();
    let n = raw.len();
    raw[n - 1] ^= 0x80;
    let r = verify(&raw, &anchors(), GOOD_TIME_MS, None);
    assert_eq!(
        r.err().unwrap(),
        VerificationError::Signature(nsm_attest::cert::SignatureError::Invalid)
    );
}

#[test]
fn untrusted_root_is_rejected() {
    let raw = good_envelope();
    let other_root = make_cert(
        &CertSpec {
            serial: 9,
            issuer_cn: "other root",
            subject_cn: "other root",
            not_before: "200101000000Z",
            not_after: "300101000000Z",
            is_ca: true,
        },
        &other_key(),
        &other_key(),
    );
    let r = verify(&raw, &vec![other_root], GOOD_TIME_MS, None);
    assert_eq!(
        r.err().unwrap(),
        VerificationError::Chain(ChainError::UntrustedRoot)
    );
}

#[test]
fn expiry_boundary_is_exact() {
    let leaf = parse_certificate(&leaf_cert()).unwrap();
    assert_eq!(leaf.not_after, NOT_AFTER_SEC);
    let chain = vec![parse_certificate(&leaf_cert()).unwrap()];
    let boundary = (NOT_AFTER_SEC as u64) * 1000;
    assert!(validate_chain(&chain, &anchors(), boundary).is_ok());
    let chain = vec![parse_certificate(&leaf_cert()).unwrap()];
    assert!(validate_chain(&chain, &anchors(), boundary - 1).is_ok());
    let chain = vec![parse_certificate(&leaf_cert()).unwrap()];
    let r = validate_chain(&chain, &anchors(), boundary + 1);
    assert_eq!(r.err().unwrap(), ChainError::Expired(0));
}

#[test]
fn not_yet_valid_is_rejected() {
    let chain = vec![parse_certificate(&leaf_cert()).unwrap()];
    // well before the 2020 start of validity
    let r = validate_chain(&chain, &anchors(), 1_000_000_000_000);
    assert_eq!(r.err().unwrap(), ChainError::NotYetValid(0));
}

#[test]
fn chain_through_intermediate_validates() {
    let inter = make_cert(
        &CertSpec {
            serial: 3,
            issuer_cn: "test root",
            subject_cn: "test inter",
            not_before: "200101000000Z",
            not_after: "300101000000Z",
            is_ca: true,
        },
        &inter_key(),
        &root_key(),
    );
    let leaf2 = make_cert(
        &CertSpec {
            serial: 4,
            issuer_cn: "test inter",
            subject_cn: "test leaf two",
            not_before: "200101000000Z",
            not_after: "300101000000Z",
            is_ca: false,
        },
        &leaf_key(),
        &inter_key(),
    );
    let chain = vec![
        parse_certificate(&leaf2).unwrap(),
        parse_certificate(&inter).unwrap(),
    ];
    assert!(validate_chain(&chain, &anchors(), GOOD_TIME_MS).is_ok());
}

#[test]
fn broken_link_is_rejected() {
    let inter = make_cert(
        &CertSpec {
            serial: 5,
            issuer_cn: "test root",
            subject_cn: "unrelated name",
            not_before: "200101000000Z",
            not_after: "300101000000Z",
            is_ca: true,
        },
        &inter_key(),
        &root_key(),
    );
    // leaf's issuer is "test root", not the intermediate's subject
    let chain = vec![
        parse_certificate(&leaf_cert()).unwrap(),
        parse_certificate(&inter).unwrap(),
    ];
    let r = validate_chain(&chain, &anchors(), GOOD_TIME_MS);
    assert_eq!(r.err().unwrap(), ChainError::BrokenLink(0));
}

#[test]
fn chain_too_long_is_rejected() {
    let mut chain = Vec::new();
    for _ in 0..9 {
        chain.push(parse_certificate(&leaf_cert()).unwrap());
    }
    let r = validate_chain(&chain, &anchors(), GOOD_TIME_MS);
    assert_eq!(r.err().unwrap(), ChainError::ChainTooLong);
}

#[test]
fn pcr_length_mismatch_is_rejected() {
    let payload = payload_with(47, 5, None);
    let r = decode_document(&payload);
    assert_eq!(r.err().unwrap(), DocumentError::PcrLengthMismatch(5));
}

#[test]
fn pcr_index_out_of_range_is_rejected() {
    let payload = payload_with(48, 32, None);
    let r = decode_document(&payload);
    assert_eq!(r.err().unwrap(), DocumentError::PcrIndexOutOfRange);
}

#[test]
fn nonce_mismatch_is_rejected() {
    let raw = good_envelope();
    let wrong = vec![0x01, 0x02, 0x04];
    let r = verify(&raw, &anchors(), GOOD_TIME_MS, Some(&wrong));
    assert_eq!(r.err().unwrap(), VerificationError::NonceMismatch);
}

#[test]
fn nonce_match_is_accepted() {
    let raw = good_envelope();
    let right = vec![0x01, 0x02, 0x03];
    assert!(verify(&raw, &anchors(), GOOD_TIME_MS, Some(&right)).is_ok());
}

#[test]
fn nonce_expected_but_absent_is_rejected() {
    let raw = envelope_with(&payload_with(48, 1, None));
    let expected = vec![0x01];
    let r = verify(&raw, &anchors(), GOOD_TIME_MS, Some(&expected));
    assert_eq!(r.err().unwrap(), VerificationError::NonceMismatch);
}

#[test]
fn depth_bound_is_enforced() {
    // eight nested one-element sequences push the innermost item past the
    // depth budget
    let mut deep = vec![0x81u8; 8];
    deep.push(0x00);
    assert_eq!(decode(&deep).err().unwrap(), DecodeError::TooDeep);
    let mut ok = vec![0x81u8; 7];
    ok.push(0x00);
    assert!(decode(&ok).is_ok());
}

#[test]
fn decoder_rejects_malformed_input() {
    // truncated header argument
    assert_eq!(decode(&[0x18]).err().unwrap(), DecodeError::Truncated);
    // declared length exceeding the remaining buffer
    assert_eq!(
        decode(&[0x58, 0xFF, 0x00]).err().unwrap(),
        DecodeError::InvalidLength
    );
    // indefinite length
    assert_eq!(decode(&[0x5F]).err().unwrap(), DecodeError::InvalidLength);
    // tag: unsupported major type
    assert_eq!(decode(&[0xC0, 0x00]).err().unwrap(), DecodeError::UnexpectedType);
    // trailing bytes after the single item
    assert_eq!(decode(&[0x00, 0x00]).err().unwrap(), DecodeError::InvalidLength);
}

#[test]
fn decoder_reads_scalars() {
    assert!(matches!(decode(&[0x17]).unwrap(), CborValue::Uint(23)));
    assert!(matches!(decode(&[0x18, 0xFF]).unwrap(), CborValue::Uint(255)));
    assert!(matches!(decode(&[0x38, 0x22]).unwrap(), CborValue::Nint(34)));
    assert!(matches!(decode(&[0xF5]).unwrap(), CborValue::Bool(true)));
    assert!(matches!(decode(&[0xF6]).unwrap(), CborValue::Null));
}

#[test]
fn envelope_shape_is_enforced() {
    // not a sequence
    assert_eq!(
        parse_envelope(&[0x00]).err().unwrap(),
        EnvelopeError::MalformedStructure
    );
    // a three-element sequence
    let mut env = cb_head(4, 3);
    env.extend(cb_bytes(&[0x01]));
    env.extend(cb_head(5, 0));
    env.extend(cb_bytes(&[0x02]));
    assert_eq!(
        parse_envelope(&env).err().unwrap(),
        EnvelopeError::MalformedStructure
    );
}

#[test]
fn envelope_algorithm_is_enforced() {
    // protected header declares -7 instead of the supported -35
    let payload = payload_with(48, 1, None);
    let protected = vec![0xA1u8, 0x01, 0x26];
    let mut env = cb_head(4, 4);
    env.extend(cb_bytes(&protected));
    env.extend(cb_head(5, 0));
    env.extend(cb_bytes(&payload));
    env.extend(cb_bytes(&[0x00; 96]));
    assert_eq!(
        parse_envelope(&env).err().unwrap(),
        EnvelopeError::UnsupportedAlgorithm
    );
}

#[test]
fn document_missing_field_is_rejected() {
    // a map lacking every required key
    let mut map = cb_head(5, 1);
    map.extend(cb_text("other"));
    map.extend(cb_uint(1));
    assert_eq!(
        decode_document(&map).err().unwrap(),
        DocumentError::MissingField
    );
}

#[test]
fn document_unknown_digest_is_rejected() {
    let mut map = cb_head(5, 2);
    map.extend(cb_text("module_id"));
    map.extend(cb_text("m"));
    map.extend(cb_text("digest"));
    map.extend(cb_text("SHA1"));
    assert_eq!(
        decode_document(&map).err().unwrap(),
        DocumentError::UnknownDigest
    );
}

#[test]
fn document_malformed_certificate_is_rejected() {
    let mut map = cb_head(5, 5);
    map.extend(cb_text("module_id"));
    map.extend(cb_text("m"));
    map.extend(cb_text("digest"));
    map.extend(cb_text("SHA384"));
    map.extend(cb_text("timestamp"));
    map.extend(cb_uint(5));
    map.extend(cb_text("pcrs"));
    map.extend(cb_head(5, 0));
    map.extend(cb_text("certificate"));
    map.extend(cb_bytes(&[0x30, 0x03, 0x01, 0x01, 0xFF]));
    assert_eq!(
        decode_document(&map).err().unwrap(),
        DocumentError::MalformedCertificate
    );
}

#[test]
fn sig_structure_is_canonical() {
    let tbs = sig_structure(&[0xA1, 0x01, 0x38, 0x22], &[0x01, 0x02]);
    let mut expected = vec![0x84u8];
    expected.extend(b"\x6aSignature1");
    expected.extend(&[0x44, 0xA1, 0x01, 0x38, 0x22]);
    expected.push(0x40);
    expected.extend(&[0x42, 0x01, 0x02]);
    assert_eq!(tbs, expected);
}

#[test]
fn leaf_key_off_curve_is_algorithm_mismatch() {
    // a leaf whose subject key bytes are not a valid P-384 point: the chain
    // still validates (the root's signature over the leaf is real), but the
    // envelope signature cannot be checked against such a key
    let bogus_point = vec![0x04u8; 97];
    let bad_leaf = make_cert_with_point(
        &CertSpec {
            serial: 6,
            issuer_cn: "test root",
            subject_cn: "test leaf",
            not_before: "200101000000Z",
            not_after: "300101000000Z",
            is_ca: false,
        },
        &bogus_point,
        &root_key(),
    );
    let payload = {
        let mut map = cb_head(5, 5);
        map.extend(cb_text("module_id"));
        map.extend(cb_text("m"));
        map.extend(cb_text("digest"));
        map.extend(cb_text("SHA384"));
        map.extend(cb_text("timestamp"));
        map.extend(cb_uint(1));
        map.extend(cb_text("pcrs"));
        map.extend(cb_head(5, 0));
        map.extend(cb_text("certificate"));
        map.extend(cb_bytes(&bad_leaf));
        map
    };
    let protected = protected_es384();
    let mut env = cb_head(4, 4);
    env.extend(cb_bytes(&protected));
    env.extend(cb_head(5, 0));
    env.extend(cb_bytes(&payload));
    env.extend(cb_bytes(&[0x00; 96]));
    let r = verify(&env, &anchors(), GOOD_TIME_MS, None);
    assert_eq!(
        r.err().unwrap(),
        VerificationError::Signature(nsm_attest::cert::SignatureError::AlgorithmMismatch)
    );
}
