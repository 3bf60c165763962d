//! Verification orchestrator: composes the envelope parser, the document
//! decoder, the chain validator and the signature verifier into a single
//! entry point, short-circuiting on the first failure and tagging each
//! failure with the step that produced it.
//!
//! The signature is verified with the public key of a certificate that has
//! already passed chain validation, never with an untrusted key.

use vstd::prelude::*;
use crate::cert::{
    cert_parse, parse_certificate, spec_verify_signature, verify_signature, CertData, Certificate,
    SignatureError, ecdsa_raw_sig_ok,
};
use crate::chain::{certs_seq, ders_seq, spec_validate_chain, validate_chain, ChainError};
use crate::document::{
    cert_well_formed_bundle, decode_document, spec_decode_document, AttestationDoc, DocData,
    DocumentError,
};
use crate::envelope::{
    parse_envelope, sig_structure, spec_parse_envelope, spec_sig_structure, EnvelopeError,
};
use crate::ct_bytes_eq;

verus! {

/// Failure of a verification call, tagged with the step that produced it.
#[derive(Clone, Copy, PartialEq, Eq, Structural, Debug)]
pub enum VerificationError {
    /// The envelope did not parse.
    Envelope(EnvelopeError),
    /// The payload did not decode to a valid document.
    Document(DocumentError),
    /// The certificate chain did not validate.
    Chain(ChainError),
    /// The envelope signature did not verify.
    Signature(SignatureError),
    /// An expected nonce was supplied and the document does not carry
    /// exactly that nonce.
    NonceMismatch,
}

/// A fully verified document: the decoded document together with the proof
/// token of chain validation.  Constructed only when every step succeeded.
pub struct VerifiedDocument {
    /// The decoded attestation document.
    pub document: AttestationDoc,
    /// The index of the trust anchor the chain was validated up to.
    pub anchor_index: usize,
}

/// The candidate chain of a decoded document: the leaf certificate followed
/// by the intermediates, each as parsed certificate data.
pub open spec fn spec_chain_of(doc: DocData) -> Seq<CertData> {
    seq![cert_parse(doc.certificate)->Some_0] + doc.cabundle.map_values(
        |d: Seq<u8>| cert_parse(d)->Some_0,
    )
}

/// Whether the document's nonce satisfies the caller's expectation: no
/// expectation always passes; an expected nonce requires the document to
/// carry exactly it.
pub open spec fn spec_nonce_check(doc_nonce: Option<Seq<u8>>, expected: Option<Seq<u8>>) -> bool {
    match expected {
        None => true,
        Some(n) => doc_nonce matches Some(dn) && dn == n,
    }
}

/// The abstraction of an optional borrowed byte string.
pub open spec fn opt_ref_view(o: Option<&Vec<u8>>) -> Option<Seq<u8>> {
    match o {
        Some(n) => Some(n@),
        None => None,
    }
}

/// What `verify` returns: the steps in their fixed order — envelope parse,
/// document decode, chain validation, signature verification over the
/// canonical to-be-signed bytes with the chain-validated leaf key, then the
/// nonce check.
pub open spec fn spec_verify(
    raw: Seq<u8>,
    anchors: Seq<Seq<u8>>,
    at_ms: u64,
    expected_nonce: Option<Seq<u8>>,
) -> Result<(DocData, int), VerificationError> {
    match spec_parse_envelope(raw) {
        Err(e) => Err(VerificationError::Envelope(e)),
        Ok(env) => match spec_decode_document(env.payload) {
            Err(e) => Err(VerificationError::Document(e)),
            Ok(doc) => match spec_validate_chain(spec_chain_of(doc), anchors, at_ms) {
                Err(e) => Err(VerificationError::Chain(e)),
                Ok(ai) => match spec_verify_signature(
                    spec_chain_of(doc)[0].public_key,
                    spec_sig_structure(env.protected, env.payload),
                    env.signature,
                ) {
                    Err(e) => Err(VerificationError::Signature(e)),
                    Ok(u) => if spec_nonce_check(doc.nonce, expected_nonce) {
                        Ok((doc, ai))
                    } else {
                        Err(VerificationError::NonceMismatch)
                    },
                },
            },
        },
    }
}

/// Verifies a raw attestation envelope against the caller's trust anchors at
/// the caller-supplied time, with an optional expected nonce.  Returns
/// exactly what the model `spec_verify` says: the verified document and the
/// matched anchor on success, the first failing step's error otherwise.
#[verifier::loop_isolation(false)]
#[verifier::rlimit(60)]
pub fn verify(
    raw: &[u8],
    anchors: &Vec<Vec<u8>>,
    at_ms: u64,
    expected_nonce: Option<&Vec<u8>>,
) -> (r: Result<VerifiedDocument, VerificationError>)
    ensures
        match r {
            Ok(vd) => spec_verify(raw@, ders_seq(anchors@), at_ms, opt_ref_view(expected_nonce))
                matches Ok(p) && p.0 == vd.document@ && p.1 == vd.anchor_index as int,
            Err(e) => spec_verify(raw@, ders_seq(anchors@), at_ms, opt_ref_view(expected_nonce))
                matches Err(e2) && e2 == e,
        },
{
    let env = match parse_envelope(raw) {
        Ok(e) => e,
        Err(e) => {
            return Err(VerificationError::Envelope(e));
        },
    };
    let doc = match decode_document(env.payload.as_slice()) {
        Ok(d) => d,
        Err(e) => {
            return Err(VerificationError::Document(e));
        },
    };
    proof {
        cert_well_formed_bundle(env.payload@);
    }
    let mut chain: Vec<Certificate> = Vec::new();
    let leaf = match parse_certificate(doc.certificate.as_slice()) {
        Some(c) => c,
        None => {
            return Err(VerificationError::Document(DocumentError::MalformedCertificate));
        },
    };
    chain.push(leaf);
    let ghost target = spec_chain_of(doc@);
    proof {
        assert(certs_seq(chain@) =~= target.subrange(0, 1));
    }
    let mut i: usize = 0;
    while i < doc.cabundle.len()
        invariant
            0 <= i <= doc.cabundle@.len(),
            chain@.len() == i + 1,
            certs_seq(chain@) == target.subrange(0, i + 1),
        decreases doc.cabundle@.len() - i,
    {
        let inter = match parse_certificate(doc.cabundle[i].as_slice()) {
            Some(c) => c,
            None => {
                return Err(VerificationError::Document(DocumentError::MalformedCertificate));
            },
        };
        chain.push(inter);
        proof {
            assert(target[i + 1] == cert_parse(doc@.cabundle[i as int])->Some_0);
            assert(certs_seq(chain@) =~= target.subrange(0, i + 2));
        }
        i += 1;
    }
    proof {
        assert(certs_seq(chain@) =~= target);
    }
    let pr = match validate_chain(&chain, anchors, at_ms) {
        Ok(pr) => pr,
        Err(e) => {
            return Err(VerificationError::Chain(e));
        },
    };
    let tbs = sig_structure(env.protected.as_slice(), env.payload.as_slice());
    let leaf_ref = &chain[0];
    match verify_signature(leaf_ref, tbs.as_slice(), env.signature.as_slice()) {
        Ok(_) => {},
        Err(e) => {
            return Err(VerificationError::Signature(e));
        },
    }
    match expected_nonce {
        None => {},
        Some(n) => {
            match &doc.nonce {
                Some(dn) => {
                    if !ct_bytes_eq(dn.as_slice(), n.as_slice()) {
                        return Err(VerificationError::NonceMismatch);
                    }
                },
                None => {
                    return Err(VerificationError::NonceMismatch);
                },
            }
        },
    }
    Ok(VerifiedDocument { document: doc, anchor_index: pr.anchor_index })
}

/// Round trip: an envelope that parses, whose payload decodes to a valid
/// document, whose chain validates to an anchor, whose signature verifies
/// over the canonical to-be-signed bytes with the leaf key, and whose nonce
/// meets the expectation, is accepted — and the document returned is exactly
/// the decoded one, field for field.
pub proof fn lemma_verify_round_trip(
    raw: Seq<u8>,
    anchors: Seq<Seq<u8>>,
    at_ms: u64,
    expected_nonce: Option<Seq<u8>>,
)
    requires
        spec_parse_envelope(raw) is Ok,
        spec_decode_document(spec_parse_envelope(raw)->Ok_0.payload) is Ok,
        spec_validate_chain(
            spec_chain_of(spec_decode_document(spec_parse_envelope(raw)->Ok_0.payload)->Ok_0),
            anchors,
            at_ms,
        ) is Ok,
        spec_verify_signature(
            spec_chain_of(
                spec_decode_document(spec_parse_envelope(raw)->Ok_0.payload)->Ok_0,
            )[0].public_key,
            spec_sig_structure(
                spec_parse_envelope(raw)->Ok_0.protected,
                spec_parse_envelope(raw)->Ok_0.payload,
            ),
            spec_parse_envelope(raw)->Ok_0.signature,
        ) is Ok,
        spec_nonce_check(
            spec_decode_document(spec_parse_envelope(raw)->Ok_0.payload)->Ok_0.nonce,
            expected_nonce,
        ),
    ensures
        spec_verify(raw, anchors, at_ms, expected_nonce) is Ok,
        spec_verify(raw, anchors, at_ms, expected_nonce)->Ok_0.0 == spec_decode_document(
            spec_parse_envelope(raw)->Ok_0.payload,
        )->Ok_0,
{
}

/// What success binds: when verification succeeds, the envelope signature is
/// cryptographically valid, by the chain's leaf key, over the canonical
/// to-be-signed bytes built from the exact protected-header and payload
/// bytes received — so any change to those bytes is only accepted if it
/// carries a signature valid for the changed bytes.
pub proof fn lemma_success_binds_signature(
    raw: Seq<u8>,
    anchors: Seq<Seq<u8>>,
    at_ms: u64,
    expected_nonce: Option<Seq<u8>>,
)
    requires
        spec_verify(raw, anchors, at_ms, expected_nonce) is Ok,
    ensures
        ({
            let env = spec_parse_envelope(raw)->Ok_0;
            let doc = spec_decode_document(env.payload)->Ok_0;
            ecdsa_raw_sig_ok(
                spec_chain_of(doc)[0].public_key,
                spec_sig_structure(env.protected, env.payload),
                env.signature,
            )
        }),
{
}

/// Nonce binding: when an expected nonce is supplied and the document does
/// not carry exactly that nonce, verification fails with a nonce mismatch,
/// even though every other step passed.
pub proof fn lemma_nonce_binding(raw: Seq<u8>, anchors: Seq<Seq<u8>>, at_ms: u64, n: Seq<u8>)
    requires
        spec_parse_envelope(raw) is Ok,
        spec_decode_document(spec_parse_envelope(raw)->Ok_0.payload) is Ok,
        spec_validate_chain(
            spec_chain_of(spec_decode_document(spec_parse_envelope(raw)->Ok_0.payload)->Ok_0),
            anchors,
            at_ms,
        ) is Ok,
        spec_verify_signature(
            spec_chain_of(
                spec_decode_document(spec_parse_envelope(raw)->Ok_0.payload)->Ok_0,
            )[0].public_key,
            spec_sig_structure(
                spec_parse_envelope(raw)->Ok_0.protected,
                spec_parse_envelope(raw)->Ok_0.payload,
            ),
            spec_parse_envelope(raw)->Ok_0.signature,
        ) is Ok,
        !spec_nonce_check(
            spec_decode_document(spec_parse_envelope(raw)->Ok_0.payload)->Ok_0.nonce,
            Some(n),
        ),
    ensures
        spec_verify(raw, anchors, at_ms, Some(n)) == Err::<(DocData, int), VerificationError>(
            VerificationError::NonceMismatch,
        ),
{
}

} // verus!
