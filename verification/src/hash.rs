//! The two hash roles of the protocol: a memory-hard derivation of the
//! password scalar, and a fast digest for the protocol's hash points. Each is
//! a trait, so that another algorithm can take its place.

use crate::bigint::{be_nat, U4096};
use core::marker::PhantomData;
use digest::Digest;
use vstd::prelude::*;

verus! {

/// The Blake2b digest of 64 bytes that `data` has.
pub uninterp spec fn blake2b512(data: Seq<u8>) -> Seq<u8>;

/// The 32 bytes that Argon2d, version 0x13, derives from a password, a salt
/// and a secret key at the given memory, time and parallelism costs.
pub uninterp spec fn argon2d(
    secret: Seq<u8>,
    password: Seq<u8>,
    salt: Seq<u8>,
    m_cost: u32,
    t_cost: u32,
    p_cost: u32,
) -> Seq<u8>;

/// Calls `Digest::digest` of the digest crate for `blake2::Blake2b512`. The
/// digest is a function of the bytes alone; nothing else is claimed of it.
#[verifier::external_body]
fn blake2b512_digest(data: &[u8]) -> (out: [u8; 64])
    ensures
        out@ == blake2b512(data@),
{
    blake2::Blake2b512::digest(data).into()
}

/// Calls `Argon2::hash_password_into` of the argon2 crate, on a context made
/// by `Argon2::new_with_secret` for Argon2d, version 0x13, with an output of
/// 32 bytes. The inputs that the crate rejects are left out: a cost out of
/// range, a salt under 8 bytes, an input of 4 GiB or more. The result is a
/// function of the arguments alone; nothing else is claimed of it.
#[verifier::external_body]
fn argon2d_derive(
    secret: &[u8],
    password: &[u8],
    salt: &[u8],
    m_cost: u32,
    t_cost: u32,
    p_cost: u32,
) -> (out: [u8; 32])
    requires
        secret@.len() <= 0xFFFF_FFFF,
        password@.len() <= 0xFFFF_FFFF,
        8 <= salt@.len() <= 0xFFFF_FFFF,
        1 <= p_cost <= 0xFF_FFFF,
        8 * p_cost <= m_cost,
        1 <= t_cost,
    ensures
        out@ == argon2d(secret@, password@, salt@, m_cost, t_cost, p_cost),
{
    let params = argon2::Params::new(m_cost, t_cost, p_cost, Some(32)).unwrap();
    let algorithm = argon2::Algorithm::Argon2d;
    let ctx = argon2::Argon2::new_with_secret(secret, algorithm, argon2::Version::V0x13, params);
    let mut out = [0u8; 32];
    ctx.unwrap().hash_password_into(password, salt, &mut out).unwrap();
    out
}

/// A fast cryptographic digest of 64 bytes, used at every hash point of the
/// protocol.
pub trait ProtocolDigest {
    /// The digest of `data`.
    spec fn digest_spec(data: Seq<u8>) -> Seq<u8>;

    /// Computes the digest of `data`.
    fn digest(data: &[u8]) -> (out: [u8; 64])
        ensures
            out@ == Self::digest_spec(data@),
    ;
}

/// Blake2b with an output of 512 bits.
pub struct Blake2b;

impl ProtocolDigest for Blake2b {
    open spec fn digest_spec(data: Seq<u8>) -> Seq<u8> {
        blake2b512(data)
    }

    fn digest(data: &[u8]) -> (out: [u8; 64]) {
        blake2b512_digest(data)
    }
}

/// The longest username and password, in bytes, that a password hasher is
/// asked to take.
pub const MAX_CREDENTIAL_LEN: usize = 0xFFFF_FFFF;

/// Derives the 32 bytes of the password scalar from a username, a password
/// and a salt. The same inputs give the same bytes.
pub trait UserPasswordHasher {
    /// The bytes derived from the three inputs.
    spec fn hash_spec(username: Seq<u8>, password: Seq<u8>, salt: Seq<u8>) -> Seq<u8>;

    /// Derives the bytes.
    fn hash_user_password(username: &[u8], password: &[u8], salt: &[u8; 32]) -> (out: [u8; 32])
        requires
            username@.len() <= MAX_CREDENTIAL_LEN,
            password@.len() <= MAX_CREDENTIAL_LEN,
        ensures
            out@ == Self::hash_spec(username@, password@, salt@),
    ;
}

/// Memory cost of [`A2`], in KiB.
pub const A2_M_COST: u32 = 4096;

/// Number of passes of [`A2`].
pub const A2_T_COST: u32 = 1;

/// Degree of parallelism of [`A2`].
pub const A2_P_COST: u32 = 1;

/// Argon2d over the password and the salt, with the username as the secret
/// key.
pub struct A2;

impl UserPasswordHasher for A2 {
    open spec fn hash_spec(username: Seq<u8>, password: Seq<u8>, salt: Seq<u8>) -> Seq<u8> {
        argon2d(username, password, salt, A2_M_COST, A2_T_COST, A2_P_COST)
    }

    fn hash_user_password(username: &[u8], password: &[u8], salt: &[u8; 32]) -> (out: [u8; 32]) {
        argon2d_derive(username, password, salt.as_slice(), A2_M_COST, A2_T_COST, A2_P_COST)
    }
}

/// `salt | H(username | ":" | password)`, the input of the outer digest of
/// [`DigestPasswordHasher`].
pub open spec fn salted_identity<D: ProtocolDigest>(
    username: Seq<u8>,
    password: Seq<u8>,
    salt: Seq<u8>,
) -> Seq<u8> {
    salt + D::digest_spec(username + seq![0x3Au8] + password)
}

/// The password scalar as a plain digest: `H(salt | H(username | ":" | password))`.
pub struct DigestPasswordHasher<D> {
    _d: PhantomData<D>,
}

impl<D: ProtocolDigest> DigestPasswordHasher<D> {
    /// Derives the 64 bytes `H(salt | H(username | ":" | password))`.
    pub fn hash_user_password(username: &[u8], password: &[u8], salt: &[u8]) -> (out: [u8; 64])
        ensures
            out@ == D::digest_spec(salted_identity::<D>(username@, password@, salt@)),
    {
        let mut identity: Vec<u8> = Vec::new();
        identity.extend_from_slice(username);
        identity.push(0x3Au8);
        identity.extend_from_slice(password);
        assert(identity@ =~= username@ + seq![0x3Au8] + password@);
        let identity_hash = D::digest(identity.as_slice());

        let mut salted: Vec<u8> = Vec::new();
        salted.extend_from_slice(salt);
        salted.extend_from_slice(identity_hash.as_slice());
        assert(salted@ =~= salted_identity::<D>(username@, password@, salt@));
        D::digest(salted.as_slice())
    }
}

/// A digest read as a number, most significant byte first.
pub trait DigestNum {
    /// The number that the digest spells.
    spec fn num_spec(&self) -> nat;

    /// Reads the digest as a number.
    fn to_num(self) -> (n: U4096)
        ensures
            n@ == self.num_spec(),
    ;
}

impl DigestNum for [u8; 32] {
    open spec fn num_spec(&self) -> nat {
        be_nat(self@)
    }

    fn to_num(self) -> (n: U4096) {
        U4096::from_be_slice(self.as_slice())
    }
}

impl DigestNum for [u8; 64] {
    open spec fn num_spec(&self) -> nat {
        be_nat(self@)
    }

    fn to_num(self) -> (n: U4096) {
        U4096::from_be_slice(self.as_slice())
    }
}

} // verus!
