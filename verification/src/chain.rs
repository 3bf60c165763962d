//! Certificate chain validation: the candidate chain `[leaf] + cabundle` is
//! checked pairwise (issuer name, CA and key-usage flags, issuer signature
//! over the child), every certificate must be inside its validity window at
//! the caller-supplied time, and the last element must be anchored in the
//! caller's trust set: byte-identical to an anchor, or signed by one that is
//! itself a valid CA at that time.  No partial success is ever reported.

use vstd::prelude::*;
use crate::cert::{cert_parse, ecdsa_der_sig_ok, Certificate, CertData};
use crate::bytes_eq;

verus! {

/// Greatest allowed chain length (leaf plus intermediates): a bound on the
/// validation cost of attacker-supplied data.
pub const MAX_CHAIN_LEN: usize = 8;

/// Failure of chain validation.  Positions count from the leaf at 0.
#[derive(Clone, Copy, PartialEq, Eq, Structural, Debug)]
pub enum ChainError {
    /// The certificate at the position is not yet valid at the given time.
    NotYetValid(usize),
    /// The certificate at the position is expired at the given time.
    Expired(usize),
    /// The certificate at the position is not properly vouched for by its
    /// successor (name, constraints or signature).
    BrokenLink(usize),
    /// The last element of the chain is not anchored in the trust set.
    UntrustedRoot,
    /// The chain is longer than `MAX_CHAIN_LEN`.
    ChainTooLong,
}

/// Proof token of a successful validation: which trust anchor the chain
/// ended at.
pub struct ChainProof {
    pub anchor_index: usize,
}

/// The abstractions of a vector of certificates.
pub open spec fn certs_seq(chain: Seq<Certificate>) -> Seq<CertData> {
    chain.map_values(|c: Certificate| c@)
}

/// The abstractions of a vector of anchor byte strings.
pub open spec fn ders_seq(anchors: Seq<Vec<u8>>) -> Seq<Seq<u8>> {
    anchors.map_values(|a: Vec<u8>| a@)
}

/// Whether `c` is inside its validity window at `at_ms` (milliseconds since
/// the epoch; the certificate bounds are in seconds).
pub open spec fn time_ok(c: CertData, at_ms: u64) -> bool {
    c.not_before * 1000 <= at_ms as int && at_ms as int <= c.not_after * 1000
}

/// Whether `issuer` properly vouches for `child`: matching names, CA
/// basic-constraint, certificate-signing key usage, and a valid signature
/// by the issuer's key over the child's to-be-signed bytes.
pub open spec fn link_ok(child: CertData, issuer: CertData) -> bool {
    &&& issuer.subject == child.issuer
    &&& issuer.is_ca
    &&& issuer.key_cert_sign
    &&& ecdsa_der_sig_ok(issuer.public_key, child.tbs, child.signature)
}

/// Whether the chain's last certificate is anchored by `anchor`: either the
/// exact anchor bytes, or signed by the anchor, which must itself parse, be
/// inside its validity window and carry the CA constraints.
pub open spec fn anchor_match(last: CertData, anchor: Seq<u8>, at_ms: u64) -> bool {
    ||| anchor == last.der
    ||| {
        &&& cert_parse(anchor) matches Some(a)
        &&& a.trailing == 0
        &&& time_ok(a, at_ms)
        &&& link_ok(last, a)
    }
}

/// The first position at or after `i` whose certificate violates its
/// validity window at `at_ms`, as the error naming it.
pub open spec fn first_time_err(chain: Seq<CertData>, at_ms: u64, i: int) -> Option<ChainError>
    decreases chain.len() - i,
{
    if i < 0 || i >= chain.len() {
        None
    } else if chain[i].not_before * 1000 > at_ms as int {
        Some(ChainError::NotYetValid(i as usize))
    } else if at_ms as int > chain[i].not_after * 1000 {
        Some(ChainError::Expired(i as usize))
    } else {
        first_time_err(chain, at_ms, i + 1)
    }
}

/// The first position at or after `i` whose certificate is not properly
/// vouched for by its successor, as the error naming it.
pub open spec fn first_link_err(chain: Seq<CertData>, i: int) -> Option<ChainError>
    decreases chain.len() - i,
{
    if i < 0 || i + 1 >= chain.len() {
        None
    } else if !link_ok(chain[i], chain[i + 1]) {
        Some(ChainError::BrokenLink(i as usize))
    } else {
        first_link_err(chain, i + 1)
    }
}

/// The first anchor index at or after `i` that anchors `last`.
pub open spec fn find_anchor(last: CertData, anchors: Seq<Seq<u8>>, at_ms: u64, i: int) -> Option<
    int,
>
    decreases anchors.len() - i,
{
    if i < 0 || i >= anchors.len() {
        None
    } else if anchor_match(last, anchors[i], at_ms) {
        Some(i)
    } else {
        find_anchor(last, anchors, at_ms, i + 1)
    }
}

/// What `validate_chain` returns: the checks in their fixed order — length
/// bound, validity windows from the leaf up, links from the leaf up, then
/// the anchor search.
pub open spec fn spec_validate_chain(
    chain: Seq<CertData>,
    anchors: Seq<Seq<u8>>,
    at_ms: u64,
) -> Result<int, ChainError> {
    if chain.len() > MAX_CHAIN_LEN {
        Err(ChainError::ChainTooLong)
    } else {
        match first_time_err(chain, at_ms, 0) {
            Some(e) => Err(e),
            None => match first_link_err(chain, 0) {
                Some(e) => Err(e),
                None => match find_anchor(chain[chain.len() - 1], anchors, at_ms, 0) {
                    Some(i) => Ok(i),
                    None => Err(ChainError::UntrustedRoot),
                },
            },
        }
    }
}

/// Validates the chain `chain` (leaf first) against the trust anchors at the
/// caller-supplied time.  Returns exactly what `spec_validate_chain` says of
/// the abstractions of its arguments.
#[verifier::loop_isolation(false)]
pub fn validate_chain(chain: &Vec<Certificate>, anchors: &Vec<Vec<u8>>, at_ms: u64) -> (r: Result<
    ChainProof,
    ChainError,
>)
    requires
        chain@.len() >= 1,
    ensures
        match r {
            Ok(pr) => spec_validate_chain(certs_seq(chain@), ders_seq(anchors@), at_ms) == Ok::<
                int,
                ChainError,
            >(pr.anchor_index as int),
            Err(e) => spec_validate_chain(certs_seq(chain@), ders_seq(anchors@), at_ms) == Err::<
                int,
                ChainError,
            >(e),
        },
{
    let ghost cs = certs_seq(chain@);
    let ghost ds = ders_seq(anchors@);
    if chain.len() > MAX_CHAIN_LEN {
        return Err(ChainError::ChainTooLong);
    }
    let at128 = at_ms as i128;
    let mut i: usize = 0;
    while i < chain.len()
        invariant
            0 <= i <= chain@.len(),
            first_time_err(cs, at_ms, 0) == first_time_err(cs, at_ms, i as int),
        decreases chain@.len() - i,
    {
        let c = &chain[i];
        if (c.not_before as i128) * 1000 > at128 {
            return Err(ChainError::NotYetValid(i));
        }
        if at128 > (c.not_after as i128) * 1000 {
            return Err(ChainError::Expired(i));
        }
        i += 1;
    }
    let mut j: usize = 0;
    while j + 1 < chain.len()
        invariant
            0 <= j <= chain@.len(),
            first_link_err(cs, 0) == first_link_err(cs, j as int),
        decreases chain@.len() - j,
    {
        let child = &chain[j];
        let issuer = &chain[j + 1];
        let ok = issuer.is_ca && issuer.key_cert_sign && bytes_eq(
            issuer.subject.as_slice(),
            child.issuer.as_slice(),
        ) && crate::cert::ecdsa_verify_der(
            issuer.public_key.as_slice(),
            child.tbs.as_slice(),
            child.signature.as_slice(),
        );
        if !ok {
            return Err(ChainError::BrokenLink(j));
        }
        j += 1;
    }
    let last = &chain[chain.len() - 1];
    let mut k: usize = 0;
    while k < anchors.len()
        invariant
            0 <= k <= anchors@.len(),
            find_anchor(cs[cs.len() - 1], ds, at_ms, 0) == find_anchor(
                cs[cs.len() - 1],
                ds,
                at_ms,
                k as int,
            ),
        decreases anchors@.len() - k,
    {
        let anchor = &anchors[k];
        if bytes_eq(anchor.as_slice(), last.der.as_slice()) {
            return Ok(ChainProof { anchor_index: k });
        }
        match crate::cert::parse_certificate(anchor.as_slice()) {
            Some(a) => {
                let t_ok = (a.not_before as i128) * 1000 <= at128 && at128 <= (a.not_after as i128)
                    * 1000;
                let l_ok = a.is_ca && a.key_cert_sign && bytes_eq(
                    a.subject.as_slice(),
                    last.issuer.as_slice(),
                ) && crate::cert::ecdsa_verify_der(
                    a.public_key.as_slice(),
                    last.tbs.as_slice(),
                    last.signature.as_slice(),
                );
                if t_ok && l_ok {
                    return Ok(ChainProof { anchor_index: k });
                }
            },
            None => {},
        }
        k += 1;
    }
    Err(ChainError::UntrustedRoot)
}

proof fn lemma_find_anchor_none(last: CertData, anchors: Seq<Seq<u8>>, at_ms: u64, i: int)
    requires
        0 <= i,
        forall|j: int| i <= j < anchors.len() ==> !anchor_match(last, #[trigger] anchors[j], at_ms),
    ensures
        find_anchor(last, anchors, at_ms, i) is None,
    decreases anchors.len() - i,
{
    if i < anchors.len() {
        lemma_find_anchor_none(last, anchors, at_ms, i + 1);
    }
}

/// Chain enforcement: when the chain's last certificate is anchored by no
/// configured trust anchor — neither byte-identical to one nor signed by a
/// valid one — validation fails with `UntrustedRoot`, provided the length
/// bound, the validity windows and the links all pass.
pub proof fn lemma_untrusted_root(chain: Seq<CertData>, anchors: Seq<Seq<u8>>, at_ms: u64)
    requires
        1 <= chain.len() <= MAX_CHAIN_LEN,
        first_time_err(chain, at_ms, 0) is None,
        first_link_err(chain, 0) is None,
        forall|j: int|
            0 <= j < anchors.len() ==> !anchor_match(chain[chain.len() - 1], #[trigger] anchors[j], at_ms),
    ensures
        spec_validate_chain(chain, anchors, at_ms) == Err::<int, ChainError>(
            ChainError::UntrustedRoot,
        ),
{
    lemma_find_anchor_none(chain[chain.len() - 1], anchors, at_ms, 0);
}

/// Expiry boundary for one certificate: at exactly the last millisecond of
/// its validity window the certificate is in time; one millisecond later it
/// is not.
pub proof fn lemma_expiry_boundary(c: CertData)
    requires
        0 <= c.not_before <= c.not_after,
        c.not_after * 1000 + 1 <= u64::MAX,
    ensures
        time_ok(c, (c.not_after * 1000) as u64),
        !time_ok(c, (c.not_after * 1000 + 1) as u64),
{
}

proof fn lemma_first_time_err_at(chain: Seq<CertData>, at_ms: u64, k: int, i: int)
    requires
        0 <= k <= i < chain.len(),
        forall|j: int| k <= j < i ==> time_ok(#[trigger] chain[j], at_ms),
        chain[i].not_before * 1000 <= at_ms as int,
        at_ms as int > chain[i].not_after * 1000,
    ensures
        first_time_err(chain, at_ms, k) == Some(ChainError::Expired(i as usize)),
    decreases i - k,
{
    if k < i {
        lemma_first_time_err_at(chain, at_ms, k + 1, i);
    }
}

/// Expiry boundary for a chain: when every certificate before position `i`
/// is inside its window but the one at `i` is past its end of validity,
/// validation fails with `Expired` naming exactly that position.
pub proof fn lemma_chain_expired(chain: Seq<CertData>, anchors: Seq<Seq<u8>>, at_ms: u64, i: int)
    requires
        0 <= i < chain.len() <= MAX_CHAIN_LEN,
        forall|j: int| 0 <= j < i ==> time_ok(#[trigger] chain[j], at_ms),
        chain[i].not_before * 1000 <= at_ms as int,
        at_ms as int > chain[i].not_after * 1000,
    ensures
        spec_validate_chain(chain, anchors, at_ms) == Err::<int, ChainError>(
            ChainError::Expired(i as usize),
        ),
{
    lemma_first_time_err_at(chain, at_ms, 0, i);
}

/// Length bound: a chain longer than `MAX_CHAIN_LEN` is rejected outright,
/// whatever its certificates hold.
pub proof fn lemma_chain_too_long(chain: Seq<CertData>, anchors: Seq<Seq<u8>>, at_ms: u64)
    requires
        chain.len() > MAX_CHAIN_LEN,
    ensures
        spec_validate_chain(chain, anchors, at_ms) == Err::<int, ChainError>(
            ChainError::ChainTooLong,
        ),
{
}

} // verus!
