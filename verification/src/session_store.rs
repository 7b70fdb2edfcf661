//! The server's store of handshakes in progress. A handshake is entered at
//! pre-auth, under the connection's key and a handshake key drawn at random,
//! and leaves the store at the first attempt to authenticate with it, or when
//! it is swept after its expiry.

use crate::bigint::{le_nat, pad, U4096};
use crate::codec::{encode_within, Data};
use crate::group::mod_n;
use crate::hash::Blake2b;
use crate::messages::{AuthReq, PreAuthReq, PreAuthResp, RegisterReq};
use crate::server::{server_ephemeral, server_session, SrpServer4096};
use crate::SrpAuthError;
use rand::Rng;
use std::collections::HashMap;
use vstd::prelude::*;

verus! {

/// The digest of every hash point on the server.
pub type Digest = Blake2b;

/// What the user directory holds of one user: the salt and the password
/// verifier, least significant byte first.
pub struct UserData {
    pub salt: [u8; 32],
    pub v: [u8; 512],
}

/// Why an attempt to authenticate failed.
#[derive(Clone, Copy, Debug, PartialEq, Eq, Structural)]
pub enum AuthError {
    /// The handshake was refused by the protocol.
    Srp(SrpAuthError),
    /// No handshake is stored under the two keys: it was used, it never
    /// was, or the store was started anew.
    KeyNotFound,
    /// The handshake was stored, and its time has run out.
    Expired,
}

/// The text of [`AuthError::message`] for each error.
pub open spec fn message_of(e: AuthError) -> Seq<char> {
    match e {
        AuthError::Srp(SrpAuthError::BadRecordMac) => "bad record mac"@,
        AuthError::Srp(SrpAuthError::IllegalParameter) => "illegal parameter"@,
        AuthError::Expired => "expired"@,
        AuthError::KeyNotFound => "key not found"@,
    }
}

impl AuthError {
    /// A short text that names the error.
    pub fn message(&self) -> (r: &'static str)
        ensures
            r@ == message_of(*self),
    {
        match *self {
            AuthError::Srp(SrpAuthError::BadRecordMac) => "bad record mac",
            AuthError::Srp(SrpAuthError::IllegalParameter) => "illegal parameter",
            AuthError::Expired => "expired",
            AuthError::KeyNotFound => "key not found",
        }
    }
}

/// A login that succeeded: the shared key, and what the caller stored with
/// the handshake.
pub struct Authenticated<D> {
    shared_key: U4096,
    pub data: D,
}

impl<D> View for Authenticated<D> {
    type V = (nat, D);

    /// The shared key as a number, and the stored data.
    closed spec fn view(&self) -> (nat, D) {
        (self.shared_key@, self.data)
    }
}

impl<D> Authenticated<D> {
    /// The shared key, least significant byte first.
    pub fn get_key(&self) -> (r: [u8; 512])
        ensures
            r@ == pad(self@.0).reverse(),
            le_nat(r@) == self@.0,
    {
        self.shared_key.to_le_bytes()
    }

    /// What the caller stored with the handshake.
    pub fn data(&self) -> (r: &D)
        ensures
            *r == self@.1,
    {
        &self.data
    }
}

/// A handshake in progress, as the store's contracts see it.
pub struct PendingHandshake<D> {
    /// The server's private ephemeral.
    pub b: nat,
    /// The user's password verifier.
    pub v: nat,
    /// The client's public ephemeral.
    pub a_pub: nat,
    /// What the caller stored with the handshake.
    pub data: D,
    /// The first instant at which the handshake is no longer good.
    pub expires: u64,
}

/// What an attempt to authenticate gives: the shared key and the stored
/// data, or the error.
pub open spec fn step2_outcome<D>(pending: PendingHandshake<D>, client_proof: Seq<u8>) -> Result<
    (nat, D),
    SrpAuthError,
> {
    let session = server_session::<Digest>(pending.b, pending.v, pending.a_pub);
    if mod_n(pending.a_pub as int) == 0 {
        Err(SrpAuthError::IllegalParameter)
    } else if client_proof != session.m1 {
        Err(SrpAuthError::BadRecordMac)
    } else {
        Ok((session.key, pending.data))
    }
}

/// True when `r` is the result that `expected` describes.
pub open spec fn is_outcome<D, E>(r: Result<Authenticated<D>, E>, expected: Result<(nat, D), E>) -> bool {
    match expected {
        Ok(pair) => r matches Ok(a) && a@ == pair,
        Err(e) => r matches Err(x) && x == e,
    }
}

/// A handshake in progress.
pub struct Step1<D> {
    server: SrpServer4096<Digest>,
    v: U4096,
    a_pub: U4096,
    data: D,
    expires: u64,
}

impl<D> View for Step1<D> {
    type V = PendingHandshake<D>;

    closed spec fn view(&self) -> PendingHandshake<D> {
        PendingHandshake {
            b: self.server.secret(),
            v: self.v@,
            a_pub: self.a_pub@,
            data: self.data,
            expires: self.expires,
        }
    }
}

impl<D> Step1<D> {
    /// True while the handshake is good: before its expiry.
    pub fn is_live(&self, now: u64) -> (r: bool)
        ensures
            r == (now < self@.expires),
    {
        now < self.expires
    }

    /// Verifies the client's proof and gives the shared key with the stored
    /// data.
    pub fn step2(self, req: AuthReq) -> (r: Result<Authenticated<D>, SrpAuthError>)
        ensures
            is_outcome(r, step2_outcome(self@, req.proof@)),
    {
        let verifier = match self.server.process_reply(&self.v, &self.a_pub) {
            Ok(verifier) => verifier,
            Err(e) => { return Err(e); },
        };
        match verifier.verify_client(req.proof.as_slice()) {
            Ok(()) => {},
            Err(e) => { return Err(e); },
        }
        Ok(Authenticated { shared_key: *verifier.key(), data: self.data })
    }
}

/// The key under which the store holds the handshake of the connection
/// `connection` with the handshake key `handshake`: the two numbers side by
/// side, so that two pairs with one key are one pair.
spec fn pair_key(connection: u64, handshake: u64) -> u128 {
    (connection as u128 * 0x1_0000_0000_0000_0000 + handshake as u128) as u128
}

/// Computes [`pair_key`].
fn make_pair_key(connection: u64, handshake: u64) -> (k: u128)
    ensures
        k == pair_key(connection, handshake),
{
    connection as u128 * 0x1_0000_0000_0000_0000 + handshake as u128
}

/// The number spelled by eight bytes, least significant first.
pub open spec fn u64_le(bytes: Seq<u8>) -> nat {
    (bytes[0] as nat) + 0x100 * (bytes[1] as nat) + 0x1_0000 * (bytes[2] as nat) + 0x100_0000 * (
    bytes[3] as nat) + 0x1_0000_0000 * (bytes[4] as nat) + 0x100_0000_0000 * (bytes[5] as nat)
        + 0x1_0000_0000_0000 * (bytes[6] as nat) + 0x100_0000_0000_0000 * (bytes[7] as nat)
}

/// Reads eight bytes, least significant first.
pub fn u64_from_le_bytes(bytes: &[u8; 8]) -> (r: u64)
    ensures
        r == u64_le(bytes@),
{
    bytes[0] as u64 + 0x100 * (bytes[1] as u64) + 0x1_0000 * (bytes[2] as u64) + 0x100_0000 * (
    bytes[3] as u64) + 0x1_0000_0000 * (bytes[4] as u64) + 0x100_0000_0000 * (bytes[5] as u64)
        + 0x1_0000_0000_0000 * (bytes[6] as u64) + 0x100_0000_0000_0000 * (bytes[7] as u64)
}

/// Writes `x` as eight bytes, least significant first.
pub fn u64_to_le_bytes(x: u64) -> (r: [u8; 8])
    ensures
        u64_le(r@) == x,
{
    let q1 = x / 0x100;
    let q2 = q1 / 0x100;
    let q3 = q2 / 0x100;
    let q4 = q3 / 0x100;
    let q5 = q4 / 0x100;
    let q6 = q5 / 0x100;
    let q7 = q6 / 0x100;
    assert(q7 < 0x100);
    [
        (x % 0x100) as u8,
        (q1 % 0x100) as u8,
        (q2 % 0x100) as u8,
        (q3 % 0x100) as u8,
        (q4 % 0x100) as u8,
        (q5 % 0x100) as u8,
        (q6 % 0x100) as u8,
        q7 as u8,
    ]
}

/// The handshakes in progress, by connection key and handshake key.
pub type Pending<D> = Map<(u64, u64), PendingHandshake<D>>;

/// What holds after a pre-auth that drew the private ephemeral `b` and the
/// handshake key `key2`: the handshake is stored under the two keys, in
/// place of any that was stored under them, and the response carries the
/// user's salt, the server's public ephemeral and the handshake key.
pub open spec fn pre_auth_post<D>(
    before: Pending<D>,
    after: Pending<D>,
    a_pub: Seq<u8>,
    user_data: UserData,
    key1: u64,
    data: D,
    expires: u64,
    b: nat,
    key2: u64,
    resp: PreAuthResp,
) -> bool {
    let v = le_nat(user_data.v@);
    &&& after == before.insert(
        (key1, key2),
        PendingHandshake { b, v, a_pub: le_nat(a_pub), data, expires },
    )
    &&& resp.salt == user_data.salt
    &&& resp.b_pub@ == pad(server_ephemeral::<Digest>(b, v)).reverse()
    &&& u64_le(resp.key@) == key2
}

/// What an attempt to authenticate under the two keys gives at the instant
/// `now`.
pub open spec fn auth_outcome<D>(
    store: Pending<D>,
    key1: u64,
    key2: u64,
    client_proof: Seq<u8>,
    now: u64,
) -> Result<(nat, D), AuthError> {
    if !store.contains_key((key1, key2)) {
        Err(AuthError::KeyNotFound)
    } else if now >= store[(key1, key2)].expires {
        Err(AuthError::Expired)
    } else {
        match step2_outcome(store[(key1, key2)], client_proof) {
            Ok(pair) => Ok(pair),
            Err(e) => Err(AuthError::Srp(e)),
        }
    }
}

/// The handshakes of `store` that are still good at the instant `now`.
pub open spec fn swept<D>(store: Pending<D>, now: u64) -> Pending<D> {
    Map::new(
        |k: (u64, u64)| store.contains_key(k) && now < store[k].expires,
        |k: (u64, u64)| store[k],
    )
}

/// Calls `rand::random` for a `u64`. Nothing is known of the value.
#[verifier::external_body]
fn random_u64() -> u64 {
    rand::random()
}

/// Calls `Rng::fill` of rand on the generator of `rand::thread_rng`. Nothing
/// is known of the bytes.
#[verifier::external_body]
fn random_bytes() -> [u8; 512] {
    let mut buf = [0u8; 512];
    rand::thread_rng().fill(&mut buf[..]);
    buf
}

/// Calls `HashMap::retain` of std with [`Step1::is_live`] as the test: the
/// handshakes that are good at `now` stay as they are, the others leave.
#[verifier::external_body]
fn retain_live<D>(logins: &mut HashMap<u128, Step1<D>>, now: u64)
    ensures
        final(logins)@ == Map::<u128, Step1<D>>::new(
            |k: u128| old(logins)@.contains_key(k) && now < old(logins)@[k]@.expires,
            |k: u128| old(logins)@[k],
        ),
{
    logins.retain(|_, step| step.is_live(now));
}

/// A 4096-bit number drawn at random.
fn rand_num() -> U4096 {
    U4096::from_le_bytes(random_bytes())
}

/// The server's store of handshakes in progress.
///
/// It is one value for all logins: whoever shares it among threads guards
/// it with a lock, as every operation changes it.
pub struct SrpAuth<D> {
    logins: HashMap<u128, Step1<D>>,
}

impl<D> View for SrpAuth<D> {
    type V = Pending<D>;

    closed spec fn view(&self) -> Pending<D> {
        Map::new(
            |k: (u64, u64)| self.logins@.contains_key(pair_key(k.0, k.1)),
            |k: (u64, u64)| self.logins@[pair_key(k.0, k.1)]@,
        )
    }
}

impl<D> SrpAuth<D> {
    /// A store that holds nothing.
    pub fn new() -> (s: Self)
        ensures
            s@ == Pending::<D>::empty(),
    {
        let s = SrpAuth { logins: HashMap::new() };
        assert(s@ =~= Pending::<D>::empty());
        s
    }

    /// Begins a handshake for the connection `key1`: draws the private
    /// ephemeral and the handshake key at random, stores the handshake with
    /// `data` until `expires`, and answers the client.
    pub fn pre_auth(
        &mut self,
        req: PreAuthReq<'_>,
        user_data: &UserData,
        key1: u64,
        data: D,
        expires: u64,
    ) -> (r: Result<PreAuthResp, ()>)
        ensures
            r is Ok,
            exists|b: nat, key2: u64|
                pre_auth_post(
                    old(self)@,
                    final(self)@,
                    req.a_pub@,
                    *user_data,
                    key1,
                    data,
                    expires,
                    b,
                    key2,
                    r->Ok_0,
                ),
    {
        let b = rand_num();
        let key2 = random_u64();
        let ghost a_pub = req.a_pub@;
        let ghost stored = data;
        let resp = self.pre_auth_with(req, user_data, key1, data, expires, b, key2);
        let r: Result<PreAuthResp, ()> = Ok(resp);
        assert(pre_auth_post(
            old(self)@,
            self@,
            a_pub,
            *user_data,
            key1,
            stored,
            expires,
            b@,
            key2,
            r->Ok_0,
        ));
        r
    }

    /// Begins a handshake with the private ephemeral `b` and the handshake
    /// key `key2`, which the caller has drawn at random. A handshake that
    /// was stored under the same two keys is replaced.
    pub fn pre_auth_with(
        &mut self,
        req: PreAuthReq<'_>,
        user_data: &UserData,
        key1: u64,
        data: D,
        expires: u64,
        b: U4096,
        key2: u64,
    ) -> (resp: PreAuthResp)
        ensures
            pre_auth_post(
                old(self)@,
                final(self)@,
                req.a_pub@,
                *user_data,
                key1,
                data,
                expires,
                b@,
                key2,
                resp,
            ),
    {
        let server = SrpServer4096::<Digest>::new(b);

        let salt = user_data.salt;
        let v = U4096::from_le_bytes(user_data.v);
        let a_pub = U4096::from_le_bytes(req.a_pub);
        let b_pub = server.compute_public_ephemeral(&v).to_le_bytes();

        let step = Step1 { server, v, a_pub, data, expires };
        let ghost pending = step@;
        self.logins.insert(make_pair_key(key1, key2), step);
        assert(self@ =~= old(self)@.insert((key1, key2), pending));

        PreAuthResp { salt, b_pub, key: u64_to_le_bytes(key2) }
    }

    /// Ends the handshake that `req` names for the connection `key1`.
    ///
    /// The handshake leaves the store whatever the outcome is, so that no
    /// second attempt can be made with its key.
    pub fn auth(&mut self, req: AuthReq, key1: u64, now: u64) -> (r: Result<
        Authenticated<D>,
        AuthError,
    >)
        ensures
            final(self)@ == old(self)@.remove((key1, u64_le(req.key@) as u64)),
            is_outcome(
                r,
                auth_outcome(old(self)@, key1, u64_le(req.key@) as u64, req.proof@, now),
            ),
    {
        let key2 = u64_from_le_bytes(&req.key);
        let found = self.logins.remove(&make_pair_key(key1, key2));
        assert(self@ =~= old(self)@.remove((key1, key2)));
        let step1 = match found {
            Some(step1) => step1,
            None => { return Err(AuthError::KeyNotFound); },
        };
        if !step1.is_live(now) {
            return Err(AuthError::Expired);
        }
        match step1.step2(req) {
            Ok(authenticated) => Ok(authenticated),
            Err(e) => Err(AuthError::Srp(e)),
        }
    }

    /// Removes every handshake whose expiry is not after `now`.
    pub fn clean(&mut self, now: u64)
        ensures
            final(self)@ == swept(old(self)@, now),
    {
        retain_live(&mut self.logins, now);
        assert(self@ =~= swept(old(self)@, now));
    }
}

/// Reads a registration: the username, and the record to keep of the user.
pub fn decode_register_req<'a>(req: &'a [u8]) -> (r: Option<(&'a str, UserData)>)
    ensures
        r is Some <==> RegisterReq::frame(req@) is Some,
        r matches Some((username, user_data)) ==> crate::codec::decoded(
            req@,
            RegisterReq { username, salt: user_data.salt, verifier: user_data.v },
            req@.skip(RegisterReq::frame(req@)->Some_0 as int),
        ),
{
    let (req, _) = RegisterReq::decode(req)?;
    Some((req.username, UserData { salt: req.salt, v: req.verifier }))
}

/// The encoding of `val`, where it fits in a buffer of `T::SIZE` bytes.
pub fn encode<'a, T: Data<'a>>(val: &T) -> (r: Option<Vec<u8>>)
    ensures
        r is Some <==> val.fits() && val.wire().len() <= T::SIZE,
        r matches Some(bytes) ==> bytes@ == val.wire(),
{
    encode_within(val, T::SIZE)
}

} // verus!
