//! Certificate handling: a typed model of what chain validation reads from a
//! DER-encoded X.509 certificate, the trusted parser that fills it, and the
//! trusted signature-verification primitives.
//!
//! Parsing a certificate and checking an ECDSA signature are the work of
//! outside libraries; everything this library states about them is collected
//! here, and the chain logic is verified against these contracts.

use vstd::prelude::*;
use x509_parser::certificate::X509Certificate;
use x509_parser::prelude::FromDer;

verus! {

/// What the certificate parser extracts from `der`: `None` when the bytes are
/// not a well-formed DER X.509 certificate.  The result is a function of the
/// bytes alone.
pub uninterp spec fn cert_parse(der: Seq<u8>) -> Option<CertData>;

/// Whether `key` is a valid SEC1-encoded public point on the P-384 curve.
/// The result is a function of the bytes alone.
pub uninterp spec fn p384_key_ok(key: Seq<u8>) -> bool;

/// Whether `sig`, a DER-encoded ECDSA signature, is a valid P-384/SHA-384
/// signature by `key` over `msg`.  The result is a function of the bytes alone.
pub uninterp spec fn ecdsa_der_sig_ok(key: Seq<u8>, msg: Seq<u8>, sig: Seq<u8>) -> bool;

/// Whether `sig`, a fixed-width (r || s) ECDSA signature, is a valid
/// P-384/SHA-384 signature by `key` over `msg`.  The result is a function of
/// the bytes alone.
pub uninterp spec fn ecdsa_raw_sig_ok(key: Seq<u8>, msg: Seq<u8>, sig: Seq<u8>) -> bool;

/// What chain validation reads from one certificate, as plain values.
pub struct Certificate {
    /// The DER bytes the certificate was parsed from.
    pub der: Vec<u8>,
    /// Raw DER bytes of the issuer name.
    pub issuer: Vec<u8>,
    /// Raw DER bytes of the subject name.
    pub subject: Vec<u8>,
    /// Start of validity, seconds since the epoch.
    pub not_before: i64,
    /// End of validity, seconds since the epoch.
    pub not_after: i64,
    /// SEC1 bytes of the subject public key.
    pub public_key: Vec<u8>,
    /// Raw DER bytes of the to-be-signed portion.
    pub tbs: Vec<u8>,
    /// DER bytes of the signature over `tbs`.
    pub signature: Vec<u8>,
    /// Whether the basic-constraints extension marks the certificate a CA.
    pub is_ca: bool,
    /// Whether the key-usage extension allows certificate signing.
    pub key_cert_sign: bool,
    /// Bytes left over after the certificate structure ended.
    pub trailing: usize,
}

/// Mathematical abstraction of a parsed certificate.
pub struct CertData {
    pub der: Seq<u8>,
    pub issuer: Seq<u8>,
    pub subject: Seq<u8>,
    pub not_before: i64,
    pub not_after: i64,
    pub public_key: Seq<u8>,
    pub tbs: Seq<u8>,
    pub signature: Seq<u8>,
    pub is_ca: bool,
    pub key_cert_sign: bool,
    pub trailing: nat,
}

impl View for Certificate {
    type V = CertData;

    open spec fn view(&self) -> CertData {
        CertData {
            der: self.der@,
            issuer: self.issuer@,
            subject: self.subject@,
            not_before: self.not_before,
            not_after: self.not_after,
            public_key: self.public_key@,
            tbs: self.tbs@,
            signature: self.signature@,
            is_ca: self.is_ca,
            key_cert_sign: self.key_cert_sign,
            trailing: self.trailing as nat,
        }
    }
}

/// Whether `der` is a well-formed DER X.509 certificate with nothing after it.
pub open spec fn cert_well_formed(der: Seq<u8>) -> bool {
    cert_parse(der) matches Some(c) && c.trailing == 0
}

/// Relies on x509-parser's `X509Certificate::from_der`: structural parse of a
/// DER X.509 certificate.  The returned fields are copies of what the parsed
/// certificate holds: names and to-be-signed portion as raw DER bytes, the
/// validity bounds as epoch seconds, the CA and certificate-signing flags
/// from the basic-constraints and key-usage extensions.
#[verifier::external_body]
fn parse_certificate_raw(der: &[u8]) -> (r: Option<Certificate>)
    ensures
        match r {
            Some(c) => cert_parse(der@) == Some(c@) && c@.der == der@,
            None => cert_parse(der@) is None,
        },
{
    match X509Certificate::from_der(der) {
        Err(_) => None,
        Ok((rem, c)) => Some(Certificate {
            der: der.to_vec(), issuer: c.issuer.as_raw().to_vec(), subject: c.subject.as_raw().to_vec(),
            not_before: c.validity.not_before.timestamp(), not_after: c.validity.not_after.timestamp(),
            public_key: c.subject_pki.subject_public_key.data.to_vec(), tbs: c.tbs_certificate.as_ref().to_vec(),
            signature: c.signature_value.data.to_vec(), trailing: rem.len(),
            is_ca: match c.basic_constraints() { Ok(Some(b)) => b.value.ca, _ => false },
            key_cert_sign: match c.key_usage() { Ok(Some(k)) => k.value.key_cert_sign(), _ => false },
        }),
    }
}

/// Parses `der` as a certificate, accepting it only when the whole input is
/// the certificate structure.
pub fn parse_certificate(der: &[u8]) -> (r: Option<Certificate>)
    ensures
        match r {
            Some(c) => cert_well_formed(der@) && cert_parse(der@) == Some(c@) && c@.der == der@,
            None => !cert_well_formed(der@),
        },
{
    match parse_certificate_raw(der) {
        Some(c) => {
            if c.trailing == 0 {
                Some(c)
            } else {
                None
            }
        },
        None => None,
    }
}

/// Relies on p384's `VerifyingKey::from_sec1_bytes`: whether the bytes are a
/// valid SEC1-encoded P-384 public key.
#[verifier::external_body]
pub fn p384_key_parses(key: &[u8]) -> (r: bool)
    ensures
        r == p384_key_ok(key@),
{
    p384::ecdsa::VerifyingKey::from_sec1_bytes(key).is_ok()
}

/// Relies on p384's ECDSA implementation (`signature::Verifier::verify` with
/// a DER-encoded signature): verification is deterministic in the key, the
/// message and the signature; a key or signature that does not parse verifies
/// nothing.
#[verifier::external_body]
pub fn ecdsa_verify_der(key: &[u8], msg: &[u8], sig: &[u8]) -> (r: bool)
    ensures
        r == ecdsa_der_sig_ok(key@, msg@, sig@),
{
    match (
        p384::ecdsa::VerifyingKey::from_sec1_bytes(key),
        p384::ecdsa::DerSignature::try_from(sig),
    ) {
        (Ok(k), Ok(s)) => p384::ecdsa::signature::Verifier::verify(&k, msg, &s).is_ok(),
        _ => false,
    }
}

/// Relies on p384's ECDSA implementation (`signature::Verifier::verify` with
/// a fixed-width r || s signature): verification is deterministic in the key,
/// the message and the signature; a key or signature that does not parse
/// verifies nothing.
#[verifier::external_body]
pub fn ecdsa_verify_raw(key: &[u8], msg: &[u8], sig: &[u8]) -> (r: bool)
    ensures
        r == ecdsa_raw_sig_ok(key@, msg@, sig@),
{
    match (
        p384::ecdsa::VerifyingKey::from_sec1_bytes(key),
        p384::ecdsa::Signature::from_slice(sig),
    ) {
        (Ok(k), Ok(s)) => p384::ecdsa::signature::Verifier::verify(&k, msg, &s).is_ok(),
        _ => false,
    }
}

/// Failure of signature verification.
#[derive(Clone, Copy, PartialEq, Eq, Structural, Debug)]
pub enum SignatureError {
    /// The leaf key is not a key of the supported algorithm and curve.
    AlgorithmMismatch,
    /// The signature is cryptographically wrong for the key and message.
    Invalid,
}

/// What `verify_signature` returns for a leaf public key, a to-be-signed
/// byte string and a fixed-width signature.
pub open spec fn spec_verify_signature(key: Seq<u8>, msg: Seq<u8>, sig: Seq<u8>) -> Result<
    (),
    SignatureError,
> {
    if !p384_key_ok(key) {
        Err(SignatureError::AlgorithmMismatch)
    } else if !ecdsa_raw_sig_ok(key, msg, sig) {
        Err(SignatureError::Invalid)
    } else {
        Ok(())
    }
}

/// Verifies the envelope signature using the leaf certificate's public key
/// over the canonical to-be-signed bytes.  Fails closed: a key that is not a
/// supported-curve key is an `AlgorithmMismatch`; a syntactically acceptable
/// but cryptographically wrong signature is `Invalid`.
pub fn verify_signature(leaf: &Certificate, msg: &[u8], sig: &[u8]) -> (r: Result<
    (),
    SignatureError,
>)
    ensures
        r == spec_verify_signature(leaf@.public_key, msg@, sig@),
{
    if !p384_key_parses(leaf.public_key.as_slice()) {
        Err(SignatureError::AlgorithmMismatch)
    } else if !ecdsa_verify_raw(leaf.public_key.as_slice(), msg, sig) {
        Err(SignatureError::Invalid)
    } else {
        Ok(())
    }
}

} // verus!
