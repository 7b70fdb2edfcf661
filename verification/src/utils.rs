//! The hash points of the protocol, and the comparison of proofs.

use crate::bigint::{pad, U4096};
use crate::group::{generator, group_g, group_n, modulus};
use crate::hash::ProtocolDigest;
use subtle::ConstantTimeEq;
use vstd::prelude::*;

verus! {

/// The scrambling parameter `u = H(pad(A) | pad(B))`.
pub open spec fn spec_u<D: ProtocolDigest>(a_pub: nat, b_pub: nat) -> Seq<u8> {
    D::digest_spec(pad(a_pub) + pad(b_pub))
}

/// The multiplier `k = H(N | pad(g))`.
pub open spec fn spec_k<D: ProtocolDigest>() -> Seq<u8> {
    D::digest_spec(pad(group_n()) + pad(group_g()))
}

/// The client's proof `M1 = H(A | B | K)`.
pub open spec fn spec_m1<D: ProtocolDigest>(a_pub: Seq<u8>, b_pub: Seq<u8>, key: Seq<u8>) -> Seq<
    u8,
> {
    D::digest_spec(a_pub + b_pub + key)
}

/// The server's proof `M2 = H(A | M1 | K)`.
pub open spec fn spec_m2<D: ProtocolDigest>(a_pub: Seq<u8>, m1: Seq<u8>, key: Seq<u8>) -> Seq<
    u8,
> {
    D::digest_spec(a_pub + m1 + key)
}

/// Calls `ConstantTimeEq::ct_eq` of subtle on two byte slices: true when they
/// have one length and the same bytes. The time taken depends on the lengths
/// alone.
#[verifier::external_body]
pub(crate) fn ct_eq_bytes(a: &[u8], b: &[u8]) -> (r: bool)
    ensures
        r == (a@ == b@),
{
    a.ct_eq(b).into()
}

/// The bytes of `a`, then of `b`, then of `c`.
fn concat3(a: &[u8], b: &[u8], c: &[u8]) -> (out: Vec<u8>)
    ensures
        out@ == a@ + b@ + c@,
{
    let mut out: Vec<u8> = Vec::new();
    out.extend_from_slice(a);
    out.extend_from_slice(b);
    out.extend_from_slice(c);
    assert(out@ =~= a@ + b@ + c@);
    out
}

/// `u = H(pad(A) | pad(B))`.
pub fn compute_u<D: ProtocolDigest>(a_pub: &U4096, b_pub: &U4096) -> (out: [u8; 64])
    ensures
        out@ == spec_u::<D>(a_pub@, b_pub@),
{
    let a = a_pub.to_be_bytes();
    let b = b_pub.to_be_bytes();
    let empty: [u8; 0] = [];
    let data = concat3(a.as_slice(), b.as_slice(), empty.as_slice());
    assert(data@ =~= pad(a_pub@) + pad(b_pub@));
    D::digest(data.as_slice())
}

/// `k = H(N | pad(g))`.
pub fn compute_k<D: ProtocolDigest>() -> (out: [u8; 64])
    ensures
        out@ == spec_k::<D>(),
{
    let n = modulus().to_be_bytes();
    let g = generator().to_be_bytes();
    let empty: [u8; 0] = [];
    let data = concat3(n.as_slice(), g.as_slice(), empty.as_slice());
    assert(data@ =~= pad(group_n()) + pad(group_g()));
    D::digest(data.as_slice())
}

/// `M1 = H(A | B | K)`. This is the protocol's own, shorter formula, kept as
/// deployed peers compute it.
pub fn compute_m1<D: ProtocolDigest>(a_pub: &[u8], b_pub: &[u8], key: &[u8]) -> (out: [u8; 64])
    ensures
        out@ == spec_m1::<D>(a_pub@, b_pub@, key@),
{
    let data = concat3(a_pub, b_pub, key);
    D::digest(data.as_slice())
}

/// `M2 = H(A | M1 | K)`.
pub fn compute_m2<D: ProtocolDigest>(a_pub: &[u8], m1: &[u8], key: &[u8]) -> (out: [u8; 64])
    ensures
        out@ == spec_m2::<D>(a_pub@, m1@, key@),
{
    let data = concat3(a_pub, m1, key);
    D::digest(data.as_slice())
}

} // verus!
