//! What holds of the protocol as a whole: statements that relate the client's
//! computation to the server's.

use crate::bigint::be_nat;
use crate::client::{client_premaster, client_public, client_session, password_scalar, verifier_of};
use crate::group::{
    congruent, group_g, lemma_congruent_add, lemma_congruent_mul, lemma_congruent_pow,
    lemma_congruent_sub, lemma_mod_n_congruent, mod_n,
};
use crate::hash::{ProtocolDigest, UserPasswordHasher};
use crate::server::{server_ephemeral, server_premaster, server_public, server_session};
use crate::session_store::{
    auth_outcome, step2_outcome, swept, AuthError, Digest, Pending, PendingHandshake,
};
use crate::utils::{spec_k, spec_u};
use crate::SrpAuthError;
use vstd::arithmetic::power::{lemma_pow_adds, lemma_pow_multiplies, pow};
use vstd::prelude::*;

verus! {

/// Both sides reach one premaster secret.
///
/// Let the verifier be `v = g^x mod N`, the client's public ephemeral
/// `A = g^a mod N` and the server's `B = k*v + g^b mod N`. Then, whatever the
/// private ephemerals `a` and `b`, the password scalar `x`, the multiplier `k`
/// and the scrambling parameter `u` are, the client's
/// `(B - k*g^x)^(a + u*x) mod N` is the server's `(A * v^u)^b mod N`.
pub proof fn lemma_premaster_agreement(a: nat, b: nat, x: nat, k: nat, u: nat)
    ensures
        client_premaster(a, server_public(b, k, verifier_of(x)), k, x, u) == server_premaster(
            b,
            client_public(a),
            verifier_of(x),
            u,
        ),
{
    let g = group_g() as int;
    let gx = pow(g, x);
    let gb = pow(g, b);
    let ga = pow(g, a);
    let v = verifier_of(x) as int;
    let a_pub = client_public(a) as int;
    let b_pub = server_public(b, k, verifier_of(x)) as int;
    lemma_mod_n_congruent(gx);
    lemma_mod_n_congruent(ga);

    // The client's base is congruent to g^b.
    lemma_congruent_mul(k as int, k as int, v, gx);
    lemma_congruent_add(k * v, k * gx, gb, gb);
    lemma_mod_n_congruent(k * v + gb);
    lemma_congruent_sub(b_pub, k * gx + gb, k * gx, k * gx);
    assert(congruent(b_pub - k * gx, gb));
    lemma_congruent_pow(b_pub - k * gx, gb, a + u * x);
    lemma_pow_multiplies(g, b, a + u * x);

    // The server's base is congruent to g^(a + u*x).
    lemma_congruent_pow(v, gx, u);
    lemma_pow_multiplies(g, x, u);
    lemma_congruent_mul(a_pub, ga, pow(v, u), pow(g, x * u));
    lemma_pow_adds(g, a, x * u);
    assert(x * u == u * x) by (nonlinear_arith);
    assert(congruent(a_pub * pow(v, u), pow(g, a + u * x)));
    lemma_congruent_pow(a_pub * pow(v, u), pow(g, a + u * x), b);
    lemma_pow_multiplies(g, a + u * x, b);

    assert(b * (a + u * x) == (a + u * x) * b) by (nonlinear_arith);
}

/// A client and a server that start from one password reach one session.
///
/// Let the server hold the verifier that the client's hasher gives for the
/// credentials and the salt, and let each side be given the public ephemeral
/// that the other computed. Then both derive the same shared key, the same
/// `M1` and the same `M2`: the proof that each sends is the proof that the
/// other expects.
pub proof fn lemma_session_agreement<P: UserPasswordHasher, D: ProtocolDigest>(
    a: nat,
    b: nat,
    username: Seq<u8>,
    password: Seq<u8>,
    salt: Seq<u8>,
)
    ensures
        ({
            let v = verifier_of(password_scalar::<P>(username, password, salt));
            client_session::<P, D>(a, username, password, salt, server_ephemeral::<D>(b, v))
                == server_session::<D>(b, v, client_public(a))
        }),
{
    let x = password_scalar::<P>(username, password, salt);
    let k = be_nat(spec_k::<D>());
    let b_pub = server_ephemeral::<D>(b, verifier_of(x));
    let u = be_nat(spec_u::<D>(client_public(a), b_pub));
    lemma_premaster_agreement(a, b, x, k, u);
}

/// An honest login succeeds, and the server's key is the client's.
///
/// Let the directory hold the verifier of the user's password, let the store
/// hold the handshake with the client's public ephemeral, and let the client
/// answer the server's public ephemeral with the right password. Then, before
/// the expiry, the client's proof is accepted, and what the server hands out
/// is the client's key with the data that was stored. The one condition is on
/// the client's public ephemeral, which must not be zero modulo `N`.
pub proof fn lemma_honest_login_succeeds<P: UserPasswordHasher, D>(
    store: Pending<D>,
    key1: u64,
    key2: u64,
    a: nat,
    b: nat,
    username: Seq<u8>,
    password: Seq<u8>,
    salt: Seq<u8>,
    data: D,
    expires: u64,
    now: u64,
)
    requires
        now < expires,
        mod_n(client_public(a) as int) != 0,
    ensures
        ({
            let v = verifier_of(password_scalar::<P>(username, password, salt));
            let pending = PendingHandshake { b, v, a_pub: client_public(a), data, expires };
            let client = client_session::<P, Digest>(
                a,
                username,
                password,
                salt,
                server_ephemeral::<Digest>(b, v),
            );
            auth_outcome(store.insert((key1, key2), pending), key1, key2, client.m1, now) == Ok::<
                _,
                AuthError,
            >((client.key, data))
        }),
{
    lemma_session_agreement::<P, Digest>(a, b, username, password, salt);
}

/// A handshake is good for one attempt.
///
/// An attempt to authenticate under two keys leaves the store without a
/// handshake under them, whatever its outcome was. A second attempt under the
/// same keys finds nothing, whatever proof it brings and whenever it comes.
pub proof fn lemma_single_use<D>(
    store: Pending<D>,
    key1: u64,
    key2: u64,
    client_proof: Seq<u8>,
    now: u64,
)
    ensures
        !store.remove((key1, key2)).contains_key((key1, key2)),
        auth_outcome(store.remove((key1, key2)), key1, key2, client_proof, now) == Err::<
            (nat, D),
            _,
        >(AuthError::KeyNotFound),
{
}

/// A handshake whose time has run out is of no use and does not stay.
///
/// From the instant of its expiry on, an attempt to authenticate with it
/// gives `Expired`, whatever proof it brings; and a sweep at such an instant
/// leaves the store without it.
pub proof fn lemma_expiry<D>(
    store: Pending<D>,
    key1: u64,
    key2: u64,
    client_proof: Seq<u8>,
    now: u64,
)
    requires
        store.contains_key((key1, key2)),
        store[(key1, key2)].expires <= now,
    ensures
        auth_outcome(store, key1, key2, client_proof, now) == Err::<(nat, D), _>(
            AuthError::Expired,
        ),
        !swept(store, now).contains_key((key1, key2)),
{
}

/// A sweep leaves every handshake that is still good as it was.
pub proof fn lemma_sweep_keeps_live<D>(store: Pending<D>, key1: u64, key2: u64, now: u64)
    requires
        store.contains_key((key1, key2)),
        now < store[(key1, key2)].expires,
    ensures
        swept(store, now).contains_key((key1, key2)),
        swept(store, now)[(key1, key2)] == store[(key1, key2)],
{
}

/// A client's public ephemeral that is zero modulo `N` is refused, whatever
/// the verifier, the server's private ephemeral and the proof are.
pub proof fn lemma_zero_ephemeral_refused<D>(pending: PendingHandshake<D>, client_proof: Seq<u8>)
    requires
        mod_n(pending.a_pub as int) == 0,
    ensures
        step2_outcome(pending, client_proof) == Err::<(nat, D), _>(
            SrpAuthError::IllegalParameter,
        ),
{
}

/// A proof that differs from the expected `M1`, be it in one bit, is refused.
pub proof fn lemma_wrong_proof_refused<D>(pending: PendingHandshake<D>, client_proof: Seq<u8>)
    requires
        client_proof != server_session::<Digest>(pending.b, pending.v, pending.a_pub).m1,
    ensures
        step2_outcome(pending, client_proof) is Err,
{
}

} // verus!
