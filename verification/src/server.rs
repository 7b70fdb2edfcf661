//! The server's side of one handshake: its public ephemeral, the shared key
//! and the two proofs.

use crate::bigint::{be_nat, pad, U4096};
use crate::group::{
    add_mod, congruent, generator, group_g, is_zero_mod, lemma_congruent_add,
    lemma_congruent_mul, lemma_congruent_pow, lemma_mod_n_congruent, mod_n, mul_mod, pow_mod,
};
use crate::hash::{DigestNum, ProtocolDigest};
use crate::utils::{
    compute_k, compute_m1, compute_m2, compute_u, ct_eq_bytes, spec_k, spec_m1, spec_m2, spec_u,
};
use crate::{Session, SrpAuthError};
use core::marker::PhantomData;
use vstd::arithmetic::power::pow;
use vstd::prelude::*;

verus! {

/// The server's public ephemeral `B = k*v + g^b mod N`.
pub open spec fn server_public(b: nat, k: nat, v: nat) -> nat {
    mod_n(k * v + pow(group_g() as int, b))
}

/// The server's premaster secret `S = (A * v^u)^b mod N`.
pub open spec fn server_premaster(b: nat, a_pub: nat, v: nat, u: nat) -> nat {
    mod_n(pow(a_pub * pow(v as int, u), b))
}

/// The public ephemeral that a server with the private ephemeral `b` sends
/// for the verifier `v`, with `k = H(N | pad(g))`.
pub open spec fn server_ephemeral<D: ProtocolDigest>(b: nat, v: nat) -> nat {
    server_public(b, be_nat(spec_k::<D>()), v)
}

/// What the server derives from its private ephemeral `b`, the verifier `v`
/// and the client's public ephemeral `a_pub`.
pub open spec fn server_session<D: ProtocolDigest>(b: nat, v: nat, a_pub: nat) -> Session {
    let b_pub = server_ephemeral::<D>(b, v);
    let u = be_nat(spec_u::<D>(a_pub, b_pub));
    let key = server_premaster(b, a_pub, v, u);
    let m1 = spec_m1::<D>(pad(a_pub), pad(b_pub), pad(key));
    Session { key, m1, m2: spec_m2::<D>(pad(a_pub), m1, pad(key)) }
}

/// A server at the start of a handshake: it holds its private ephemeral `b`.
pub struct SrpServer4096<D> {
    _d: PhantomData<D>,
    b: U4096,
}

/// A server after the client's public ephemeral was accepted.
pub struct SrpServerVerifier4096<D> {
    m1: [u8; 64],
    m2: [u8; 64],
    key: U4096,
    _d: PhantomData<D>,
}

impl<D: ProtocolDigest> SrpServer4096<D> {
    /// The private ephemeral `b`.
    pub closed spec fn secret(&self) -> nat {
        self.b@
    }

    /// A server with the private ephemeral `b`, which the caller has drawn at
    /// random.
    pub fn new(b: U4096) -> (s: Self)
        ensures
            s.secret() == b@,
    {
        SrpServer4096 { _d: PhantomData, b }
    }

    /// `k*v + g^b mod N`.
    pub fn compute_b_pub(&self, k: &U4096, v: &U4096) -> (r: U4096)
        ensures
            r@ == server_public(self.secret(), k@, v@),
    {
        let kv = mul_mod(k, v);
        let gb = pow_mod(&generator(), &self.b);
        let r = add_mod(&kv, &gb);
        proof {
            let e = pow(group_g() as int, self.b@);
            lemma_mod_n_congruent((k@ * v@) as int);
            lemma_mod_n_congruent(e);
            lemma_congruent_add(kv@ as int, (k@ * v@) as int, gb@ as int, e);
        }
        r
    }

    /// The public ephemeral to send to the client, for the verifier `v`.
    pub fn compute_public_ephemeral(&self, v: &U4096) -> (r: U4096)
        ensures
            r@ == server_ephemeral::<D>(self.secret(), v@),
    {
        let k = compute_k::<D>().to_num();
        self.compute_b_pub(&k, v)
    }

    /// `(A * v^u)^b mod N`.
    pub fn compute_premaster_secret(&self, a_pub: &U4096, v: &U4096, u: &U4096) -> (r: U4096)
        ensures
            r@ == server_premaster(self.secret(), a_pub@, v@, u@),
    {
        let vu = pow_mod(v, u);
        let base = mul_mod(a_pub, &vu);
        let r = pow_mod(&base, &self.b);
        proof {
            let p = pow(v@ as int, u@);
            lemma_mod_n_congruent(p);
            lemma_congruent_mul(a_pub@ as int, a_pub@ as int, vu@ as int, p);
            lemma_mod_n_congruent((a_pub@ * vu@) as int);
            assert(congruent(base@ as int, a_pub@ * p));
            lemma_congruent_pow(base@ as int, a_pub@ * p, self.b@);
        }
        r
    }

    /// Takes the client's public ephemeral `a_pub` for the verifier `v`.
    ///
    /// An ephemeral that is zero modulo `N` is refused before anything is
    /// derived from it. Any other gives the session of [`server_session`].
    pub fn process_reply(&self, v: &U4096, a_pub: &U4096) -> (r: Result<
        SrpServerVerifier4096<D>,
        SrpAuthError,
    >)
        ensures
            mod_n(a_pub@ as int) == 0 ==> r == Err::<SrpServerVerifier4096<D>, _>(
                SrpAuthError::IllegalParameter,
            ),
            mod_n(a_pub@ as int) != 0 ==> r is Ok && r->Ok_0@ == server_session::<D>(
                self.secret(),
                v@,
                a_pub@,
            ),
    {
        let k = compute_k::<D>().to_num();
        let b_pub = self.compute_b_pub(&k, v);

        if is_zero_mod(a_pub) {
            return Err(SrpAuthError::IllegalParameter);
        }
        let u = compute_u::<D>(a_pub, &b_pub).to_num();

        let key = self.compute_premaster_secret(a_pub, v, &u);

        let a_bytes = a_pub.to_be_bytes();
        let b_bytes = b_pub.to_be_bytes();
        let key_bytes = key.to_be_bytes();
        let m1 = compute_m1::<D>(a_bytes.as_slice(), b_bytes.as_slice(), key_bytes.as_slice());
        let m2 = compute_m2::<D>(a_bytes.as_slice(), m1.as_slice(), key_bytes.as_slice());

        Ok(SrpServerVerifier4096 { m1, m2, key, _d: PhantomData })
    }
}

impl<D> View for SrpServerVerifier4096<D> {
    type V = Session;

    closed spec fn view(&self) -> Session {
        Session { key: self.key@, m1: self.m1@, m2: self.m2@ }
    }
}

impl<D: ProtocolDigest> SrpServerVerifier4096<D> {
    /// Checks the client's proof against `M1`, in time that does not depend
    /// on where the two differ.
    pub fn verify_client(&self, reply: &[u8]) -> (r: Result<(), SrpAuthError>)
        ensures
            reply@ == self@.m1 ==> r == Ok::<(), SrpAuthError>(()),
            reply@ != self@.m1 ==> r == Err::<(), _>(SrpAuthError::BadRecordMac),
    {
        if ct_eq_bytes(self.m1.as_slice(), reply) {
            Ok(())
        } else {
            Err(SrpAuthError::BadRecordMac)
        }
    }

    /// The shared key. It is the client's key only if the client's proof was
    /// verified.
    pub fn key(&self) -> (r: &U4096)
        ensures
            r@ == self@.key,
    {
        &self.key
    }

    /// The proof `M2` to send to the client.
    pub fn proof_bytes(&self) -> (r: &[u8])
        ensures
            r@ == self@.m2,
    {
        self.m2.as_slice()
    }
}

} // verus!
