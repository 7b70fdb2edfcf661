//! The client's side of one handshake: its public ephemeral, the password
//! verifier for registration, the shared key and the two proofs.

use crate::bigint::{be_nat, pad, U4096};
use crate::group::{
    checked_add, checked_mul, congruent, generator, group_g, is_zero_mod, lemma_congruent_mul,
    lemma_congruent_pow, lemma_congruent_sub, lemma_mod_n_congruent, mod_n, mul_mod, pow_mod,
    sub_mod,
};
use crate::hash::{DigestNum, ProtocolDigest, UserPasswordHasher, MAX_CREDENTIAL_LEN};
use crate::utils::{
    compute_k, compute_m1, compute_m2, compute_u, ct_eq_bytes, spec_k, spec_m1, spec_m2, spec_u,
};
use crate::{Session, SrpAuthError};
use core::marker::PhantomData;
use vstd::arithmetic::power::{lemma_pow_adds, lemma_pow_multiplies, pow};
use vstd::prelude::*;

verus! {

/// The client's public ephemeral `A = g^a mod N`.
pub open spec fn client_public(a: nat) -> nat {
    mod_n(pow(group_g() as int, a))
}

/// The password verifier `v = g^x mod N`.
pub open spec fn verifier_of(x: nat) -> nat {
    mod_n(pow(group_g() as int, x))
}

/// The client's premaster secret `S = (B - k*g^x)^(a + u*x) mod N`. Where
/// `B` is the smaller, the difference is still taken modulo `N`.
pub open spec fn client_premaster(a: nat, b_pub: nat, k: nat, x: nat, u: nat) -> nat {
    mod_n(pow(b_pub - k * pow(group_g() as int, x), a + u * x))
}

/// The password scalar `x` that the hasher `P` derives.
pub open spec fn password_scalar<P: UserPasswordHasher>(
    username: Seq<u8>,
    password: Seq<u8>,
    salt: Seq<u8>,
) -> nat {
    be_nat(P::hash_spec(username, password, salt))
}

/// What the client derives from its private ephemeral `a`, the credentials,
/// the salt and the server's public ephemeral `b_pub`.
pub open spec fn client_session<P: UserPasswordHasher, D: ProtocolDigest>(
    a: nat,
    username: Seq<u8>,
    password: Seq<u8>,
    salt: Seq<u8>,
    b_pub: nat,
) -> Session {
    let a_pub = client_public(a);
    let u = be_nat(spec_u::<D>(a_pub, b_pub));
    let k = be_nat(spec_k::<D>());
    let x = password_scalar::<P>(username, password, salt);
    let key = client_premaster(a, b_pub, k, x, u);
    let m1 = spec_m1::<D>(pad(a_pub), pad(b_pub), pad(key));
    Session { key, m1, m2: spec_m2::<D>(pad(a_pub), m1, pad(key)) }
}

/// A client at the start of a handshake: it holds its private ephemeral `a`.
pub struct SrpClient4096<P, D> {
    a: U4096,
    _p: PhantomData<P>,
    _d: PhantomData<D>,
}

/// A client after the server's public ephemeral was accepted. There is no
/// way back from here: another attempt starts with a new client.
pub struct SrpClientVerifier4096<D> {
    m1: [u8; 64],
    m2: [u8; 64],
    key: U4096,
    _d: PhantomData<D>,
}

impl<P: UserPasswordHasher, D: ProtocolDigest> SrpClient4096<P, D> {
    /// The private ephemeral `a`.
    pub closed spec fn secret(&self) -> nat {
        self.a@
    }

    /// A client with the private ephemeral `a`, which the caller has drawn
    /// at random.
    pub fn new(a: U4096) -> (c: Self)
        ensures
            c.secret() == a@,
    {
        SrpClient4096 { a, _p: PhantomData, _d: PhantomData }
    }

    /// `A = g^a mod N`.
    pub fn compute_a_pub(&self) -> (r: U4096)
        ensures
            r@ == client_public(self.secret()),
    {
        pow_mod(&generator(), &self.a)
    }

    /// The password verifier to register with the server.
    pub fn compute_verifier(username: &[u8], password: &[u8], salt: &[u8; 32]) -> (v: U4096)
        requires
            username@.len() <= MAX_CREDENTIAL_LEN,
            password@.len() <= MAX_CREDENTIAL_LEN,
        ensures
            v@ == verifier_of(password_scalar::<P>(username@, password@, salt@)),
    {
        let x = P::hash_user_password(username, password, salt).to_num();
        Self::compute_v(&x)
    }

    /// `v = g^x mod N`.
    fn compute_v(x: &U4096) -> (v: U4096)
        ensures
            v@ == verifier_of(x@),
    {
        pow_mod(&generator(), x)
    }

    /// Takes the server's public ephemeral `b_pub` and the salt.
    ///
    /// An ephemeral that is zero modulo `N` is refused before anything is
    /// derived from it. Any other gives the session of [`client_session`].
    pub fn process_reply(
        &self,
        username: &[u8],
        password: &[u8],
        salt: &[u8; 32],
        b_pub: &U4096,
    ) -> (r: Result<SrpClientVerifier4096<D>, SrpAuthError>)
        requires
            username@.len() <= MAX_CREDENTIAL_LEN,
            password@.len() <= MAX_CREDENTIAL_LEN,
        ensures
            mod_n(b_pub@ as int) == 0 ==> r == Err::<SrpClientVerifier4096<D>, _>(
                SrpAuthError::IllegalParameter,
            ),
            mod_n(b_pub@ as int) != 0 ==> r is Ok && r->Ok_0@ == client_session::<P, D>(
                self.secret(),
                username@,
                password@,
                salt@,
                b_pub@,
            ),
    {
        let a_pub = self.compute_a_pub();

        if is_zero_mod(b_pub) {
            return Err(SrpAuthError::IllegalParameter);
        }
        let u = compute_u::<D>(&a_pub, b_pub).to_num();
        let k = compute_k::<D>().to_num();
        let x = P::hash_user_password(username, password, salt).to_num();

        let key = self.compute_premaster_secret(b_pub, &k, &x, &u);

        let a_bytes = a_pub.to_be_bytes();
        let b_bytes = b_pub.to_be_bytes();
        let key_bytes = key.to_be_bytes();
        let m1 = compute_m1::<D>(a_bytes.as_slice(), b_bytes.as_slice(), key_bytes.as_slice());
        let m2 = compute_m2::<D>(a_bytes.as_slice(), m1.as_slice(), key_bytes.as_slice());

        Ok(SrpClientVerifier4096 { m1, m2, key, _d: PhantomData })
    }

    /// `(B - k*g^x)^(a + u*x) mod N`.
    ///
    /// The exponent `a + u*x` is formed as a 4096-bit number where it fits.
    /// Where it does not, the power is taken in parts and the parts are
    /// multiplied, which gives the same residue.
    pub fn compute_premaster_secret(&self, b_pub: &U4096, k: &U4096, x: &U4096, u: &U4096) -> (r:
        U4096)
        ensures
            r@ == client_premaster(self.secret(), b_pub@, k@, x@, u@),
    {
        let gx = pow_mod(&generator(), x);
        let kgx = mul_mod(&gx, k);
        let base = sub_mod(b_pub, &kgx);
        let ghost t: int = b_pub@ - k@ * pow(group_g() as int, x@);
        proof {
            let p = pow(group_g() as int, x@);
            lemma_mod_n_congruent(p);
            lemma_congruent_mul(gx@ as int, p, k@ as int, k@ as int);
            lemma_mod_n_congruent((gx@ * k@) as int);
            assert(p * k@ == k@ * p) by (nonlinear_arith);
            assert(congruent(kgx@ as int, k@ * p));
            lemma_congruent_sub(b_pub@ as int, b_pub@ as int, kgx@ as int, k@ * p);
            lemma_mod_n_congruent(b_pub@ - kgx@);
            assert(congruent(base@ as int, t));
        }
        match checked_mul(u, x) {
            Some(ux) => match checked_add(&self.a, &ux) {
                Some(exponent) => {
                    proof {
                        lemma_congruent_pow(base@ as int, t, exponent@);
                    }
                    pow_mod(&base, &exponent)
                },
                None => {
                    let pa = pow_mod(&base, &self.a);
                    let pux = pow_mod(&base, &ux);
                    let r = mul_mod(&pa, &pux);
                    proof {
                        lemma_product_of_powers(base@, self.a@, ux@, pa@, pux@, r@);
                        lemma_congruent_pow(base@ as int, t, self.a@ + ux@);
                    }
                    r
                },
            },
            None => {
                let pa = pow_mod(&base, &self.a);
                let bu = pow_mod(&base, u);
                let pux = pow_mod(&bu, x);
                let r = mul_mod(&pa, &pux);
                proof {
                    let q = pow(base@ as int, u@);
                    lemma_mod_n_congruent(q);
                    lemma_congruent_pow(bu@ as int, q, x@);
                    lemma_pow_multiplies(base@ as int, u@, x@);
                    lemma_mod_n_congruent(pow(bu@ as int, x@));
                    assert(pux@ == mod_n(pow(base@ as int, u@ * x@)));
                    lemma_product_of_powers(base@, self.a@, u@ * x@, pa@, pux@, r@);
                    lemma_congruent_pow(base@ as int, t, self.a@ + u@ * x@);
                }
                r
            },
        }
    }
}

/// The residue of a product of two powers of one base is the residue of the
/// power to the sum of the exponents.
proof fn lemma_product_of_powers(base: nat, e1: nat, e2: nat, first: nat, second: nat, r: nat)
    requires
        first == mod_n(pow(base as int, e1)),
        second == mod_n(pow(base as int, e2)),
        r == mod_n((first * second) as int),
    ensures
        r == mod_n(pow(base as int, e1 + e2)),
{
    let q1 = pow(base as int, e1);
    let q2 = pow(base as int, e2);
    lemma_mod_n_congruent(q1);
    lemma_mod_n_congruent(q2);
    lemma_congruent_mul(first as int, q1, second as int, q2);
    lemma_pow_adds(base as int, e1, e2);
}

impl<D> View for SrpClientVerifier4096<D> {
    type V = Session;

    closed spec fn view(&self) -> Session {
        Session { key: self.key@, m1: self.m1@, m2: self.m2@ }
    }
}

impl<D: ProtocolDigest> SrpClientVerifier4096<D> {
    /// The shared key. It is the server's key only if the server's proof was
    /// verified, or the key is used in a way that authenticates it.
    pub fn key(&self) -> (r: &U4096)
        ensures
            r@ == self@.key,
    {
        &self.key
    }

    /// The proof `M1` to send to the server.
    pub fn proof_bytes(&self) -> (r: &[u8; 64])
        ensures
            r@ == self@.m1,
    {
        &self.m1
    }

    /// Checks the server's proof against `M2`, in time that does not depend
    /// on where the two differ.
    pub fn verify_server(&self, reply: &[u8]) -> (r: Result<(), SrpAuthError>)
        ensures
            reply@ == self@.m2 ==> r == Ok::<(), SrpAuthError>(()),
            reply@ != self@.m2 ==> r == Err::<(), _>(SrpAuthError::BadRecordMac),
    {
        if ct_eq_bytes(self.m2.as_slice(), reply) {
            Ok(())
        } else {
            Err(SrpAuthError::BadRecordMac)
        }
    }
}

} // verus!
