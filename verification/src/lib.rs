//! Verification of remote-attestation documents from a hardware secure
//! module: a signed, binary-encoded statement of an isolated environment's
//! identity and measurements, received as an untrusted byte blob.
//!
//! The pipeline decodes the signed envelope (`cbor`, `envelope`), decodes
//! the attested payload into a typed document (`document`), validates the
//! embedded certificate chain up to a caller-configured trust anchor
//! (`cert`, `chain`), verifies the envelope signature with the
//! chain-validated leaf key, and enforces the cross-field invariants
//! (`verify`).  Every step is pure and deterministic: the caller supplies
//! the bytes, the anchors, the reference time and an optional expected
//! nonce, and gets a fully verified document or the first step's typed
//! error — never a partial result.

pub mod cbor;
pub mod cert;
pub mod chain;
pub mod document;
pub mod envelope;
pub mod verify;

use vstd::prelude::*;

verus! {

/// Compares two byte slices for equality.
pub fn bytes_eq(a: &[u8], b: &[u8]) -> (r: bool)
    ensures
        r == (a@ == b@),
{
    if a.len() != b.len() {
        assert(a@.len() != b@.len());
        return false;
    }
    let mut i: usize = 0;
    while i < a.len()
        invariant
            0 <= i <= a@.len(),
            a@.len() == b@.len(),
            forall|k: int| 0 <= k < i ==> a@[k] == b@[k],
        decreases a@.len() - i,
    {
        if a[i] != b[i] {
            assert(a@[i as int] != b@[i as int]);
            return false;
        }
        i += 1;
    }
    assert(a@ =~= b@);
    true
}

/// Compares two byte slices for equality in constant time: both inputs of
/// equal length are always scanned whole, accumulating differences bitwise,
/// so the time taken does not depend on where they first differ.
pub fn ct_bytes_eq(a: &[u8], b: &[u8]) -> (r: bool)
    ensures
        r == (a@ == b@),
{
    if a.len() != b.len() {
        assert(a@.len() != b@.len());
        return false;
    }
    let mut acc: u8 = 0;
    let mut i: usize = 0;
    while i < a.len()
        invariant
            0 <= i <= a@.len(),
            a@.len() == b@.len(),
            (acc == 0) <==> (forall|k: int| 0 <= k < i ==> a@[k] == b@[k]),
        decreases a@.len() - i,
    {
        let x = a[i];
        let y = b[i];
        let d = x ^ y;
        assert((d == 0) == (x == y)) by (bit_vector)
            requires
                d == x ^ y,
        ;
        let ghost old_acc = acc;
        acc = acc | d;
        assert((acc == 0) == (old_acc == 0 && d == 0)) by (bit_vector)
            requires
                acc == old_acc | d,
        ;
        i += 1;
    }
    if acc == 0 {
        assert(a@ =~= b@);
        true
    } else {
        assert(a@ != b@);
        false
    }
}

} // verus!
