use srp_auth::bigint::U4096;
use srp_auth::client::SrpClient4096;
use srp_auth::codec::Data;
use srp_auth::hash::{Blake2b, A2};
use srp_auth::messages::{AuthReq, PreAuthReq, RegisterReq};
use srp_auth::server::SrpServer4096;
use srp_auth::session_store::{
    decode_register_req, u64_from_le_bytes, u64_to_le_bytes, AuthError, SrpAuth, UserData,
};
use srp_auth::SrpAuthError;

type Client = SrpClient4096<A2, Blake2b>;

fn scalar(seed: u8) -> U4096 {
    let mut bytes = [0u8; 512];
    for (i, b) in bytes.iter_mut().enumerate() {
        *b = seed.wrapping_mul(31).wrapping_add(i as u8).wrapping_mul(17) ^ (i >> 3) as u8;
    }
    U4096::from_be_bytes(bytes)
}

fn cheap_user() -> UserData {
    let mut v = [0u8; 512];
    v[0] = 9;
    UserData { salt: [3; 32], v }
}

fn cheap_request() -> PreAuthReq<'static> {
    let mut a_pub = [0u8; 512];
    a_pub[0] = 2;
    PreAuthReq { a_pub, username: "alice" }
}

fn is_error(r: Result<srp_auth::session_store::Authenticated<u32>, AuthError>, e: AuthError) -> bool {
    match r {
        Ok(_) => false,
        Err(x) => x == e,
    }
}

/// Registers a user, runs pre-auth and lets a client with `password` answer.
fn login(password: &[u8]) -> (Result<srp_auth::session_store::Authenticated<u32>, AuthError>, [u8; 512]) {
    let salt = [0x5Au8; 32];
    let verifier = Client::compute_verifier(b"alice", b"correct-password", &salt);
    let user = UserData { salt, v: verifier.to_le_bytes() };

    let client = Client::new(scalar(11));
    let a_pub = client.compute_a_pub();
    let mut store = SrpAuth::<u32>::new();
    let req = PreAuthReq { a_pub: a_pub.to_le_bytes(), username: "alice" };
    let resp = store.pre_auth(req, &user, 42, 7777, 1000).unwrap();
    assert_eq!(resp.salt, salt);

    let b_pub = U4096::from_le_bytes(resp.b_pub);
    let session = client.process_reply(b"alice", password, &resp.salt, &b_pub).ok().unwrap();
    let auth = AuthReq { proof: *session.proof_bytes(), key: resp.key };
    (store.auth(auth, 42, 999), session.key().to_le_bytes())
}

#[test]
fn register_then_login_with_the_correct_password() {
    let (result, client_key) = login(b"correct-password");
    let authenticated = result.ok().unwrap();
    assert_eq!(authenticated.get_key(), client_key);
    assert_eq!(authenticated.data, 7777);
    assert_eq!(*authenticated.data(), 7777);
}

#[test]
fn login_with_a_wrong_password_is_a_bad_record_mac() {
    let (result, _) = login(b"wrong-password");
    assert!(is_error(result, AuthError::Srp(SrpAuthError::BadRecordMac)));
}

#[test]
fn second_auth_with_the_same_keys_finds_nothing() {
    let mut store = SrpAuth::<u32>::new();
    let resp = store.pre_auth(cheap_request(), &cheap_user(), 1, 5, 1000).unwrap();
    let first = store.auth(AuthReq { proof: [0; 64], key: resp.key }, 1, 10);
    assert!(is_error(first, AuthError::Srp(SrpAuthError::BadRecordMac)));
    let second = store.auth(AuthReq { proof: [0; 64], key: resp.key }, 1, 10);
    assert!(is_error(second, AuthError::KeyNotFound));
}

#[test]
fn expired_handshake_gives_expired_and_is_gone() {
    let mut store = SrpAuth::<u32>::new();
    let key = 77u64;
    store.pre_auth_with(cheap_request(), &cheap_user(), 1, 5, 1000, scalar(1), key);
    let req = AuthReq { proof: [0; 64], key: u64_to_le_bytes(key) };
    assert!(is_error(store.auth(req, 1, 1001), AuthError::Expired));
    let again = AuthReq { proof: [0; 64], key: u64_to_le_bytes(key) };
    assert!(is_error(store.auth(again, 1, 10), AuthError::KeyNotFound));
}

#[test]
fn handshake_expires_at_its_expiry_instant() {
    let mut store = SrpAuth::<u32>::new();
    store.pre_auth_with(cheap_request(), &cheap_user(), 1, 5, 1000, scalar(1), 1);
    store.pre_auth_with(cheap_request(), &cheap_user(), 1, 5, 1000, scalar(1), 2);
    let at = AuthReq { proof: [0; 64], key: u64_to_le_bytes(1) };
    assert!(is_error(store.auth(at, 1, 1000), AuthError::Expired));
    let before = AuthReq { proof: [0; 64], key: u64_to_le_bytes(2) };
    assert!(is_error(store.auth(before, 1, 999), AuthError::Srp(SrpAuthError::BadRecordMac)));
}

#[test]
fn sweep_removes_what_has_expired_and_keeps_the_rest() {
    let mut store = SrpAuth::<u32>::new();
    store.pre_auth_with(cheap_request(), &cheap_user(), 1, 5, 100, scalar(1), 1);
    store.pre_auth_with(cheap_request(), &cheap_user(), 1, 6, 150, scalar(1), 2);
    store.pre_auth_with(cheap_request(), &cheap_user(), 1, 7, 200, scalar(1), 3);
    store.clean(150);
    // A time before every expiry tells a swept handshake from an expired one.
    for gone in [1u64, 2] {
        let req = AuthReq { proof: [0; 64], key: u64_to_le_bytes(gone) };
        assert!(is_error(store.auth(req, 1, 0), AuthError::KeyNotFound));
    }
    let kept = AuthReq { proof: [0; 64], key: u64_to_le_bytes(3) };
    assert!(is_error(store.auth(kept, 1, 0), AuthError::Srp(SrpAuthError::BadRecordMac)));
}

#[test]
fn sweep_of_an_empty_store() {
    let mut store = SrpAuth::<u32>::new();
    store.clean(0);
    store.clean(u64::MAX);
    let req = AuthReq { proof: [0; 64], key: [0; 8] };
    assert!(is_error(store.auth(req, 0, 0), AuthError::KeyNotFound));
}

#[test]
fn unknown_keys_find_nothing() {
    let mut store = SrpAuth::<u32>::new();
    store.pre_auth_with(cheap_request(), &cheap_user(), 1, 5, 1000, scalar(1), 9);
    let other_handshake = AuthReq { proof: [0; 64], key: u64_to_le_bytes(10) };
    assert!(is_error(store.auth(other_handshake, 1, 0), AuthError::KeyNotFound));
    let other_connection = AuthReq { proof: [0; 64], key: u64_to_le_bytes(9) };
    assert!(is_error(store.auth(other_connection, 2, 0), AuthError::KeyNotFound));
    let swapped = AuthReq { proof: [0; 64], key: u64_to_le_bytes(1) };
    assert!(is_error(store.auth(swapped, 9, 0), AuthError::KeyNotFound));
    let right = AuthReq { proof: [0; 64], key: u64_to_le_bytes(9) };
    assert!(is_error(store.auth(right, 1, 0), AuthError::Srp(SrpAuthError::BadRecordMac)));
}

#[test]
fn same_handshake_key_on_two_connections_is_two_handshakes() {
    let mut store = SrpAuth::<u32>::new();
    store.pre_auth_with(cheap_request(), &cheap_user(), 1, 5, 1000, scalar(1), 9);
    store.pre_auth_with(cheap_request(), &cheap_user(), 2, 6, 10, scalar(1), 9);
    let second = AuthReq { proof: [0; 64], key: u64_to_le_bytes(9) };
    assert!(is_error(store.auth(second, 2, 500), AuthError::Expired));
    let first = AuthReq { proof: [0; 64], key: u64_to_le_bytes(9) };
    assert!(is_error(store.auth(first, 1, 500), AuthError::Srp(SrpAuthError::BadRecordMac)));
}

#[test]
fn a_second_handshake_under_the_same_keys_replaces_the_first() {
    let mut store = SrpAuth::<u32>::new();
    store.pre_auth_with(cheap_request(), &cheap_user(), 1, 5, 1000, scalar(1), 9);
    store.pre_auth_with(cheap_request(), &cheap_user(), 1, 6, 10, scalar(2), 9);
    let req = AuthReq { proof: [0; 64], key: u64_to_le_bytes(9) };
    assert!(is_error(store.auth(req, 1, 500), AuthError::Expired));
    let again = AuthReq { proof: [0; 64], key: u64_to_le_bytes(9) };
    assert!(is_error(store.auth(again, 1, 500), AuthError::KeyNotFound));
}

#[test]
fn zero_client_ephemeral_is_an_illegal_parameter() {
    let mut store = SrpAuth::<u32>::new();
    let req = PreAuthReq { a_pub: [0; 512], username: "alice" };
    store.pre_auth_with(req, &cheap_user(), 1, 5, 1000, scalar(1), 9);
    let auth = AuthReq { proof: [0; 64], key: u64_to_le_bytes(9) };
    assert!(is_error(store.auth(auth, 1, 0), AuthError::Srp(SrpAuthError::IllegalParameter)));
}

#[test]
fn pre_auth_answers_with_salt_ephemeral_and_key() {
    let mut store = SrpAuth::<u32>::new();
    let user = cheap_user();
    let b = scalar(5);
    let resp = store.pre_auth_with(cheap_request(), &user, 1, 5, 1000, b, 0x0102_0304_0506_0708);
    assert_eq!(resp.salt, user.salt);
    assert_eq!(resp.key, [8, 7, 6, 5, 4, 3, 2, 1]);
    let expected = SrpServer4096::<Blake2b>::new(b)
        .compute_public_ephemeral(&U4096::from_le_bytes(user.v));
    assert_eq!(resp.b_pub, expected.to_le_bytes());
}

#[test]
fn pre_auth_draws_a_new_key_and_ephemeral_each_time() {
    let mut store = SrpAuth::<u32>::new();
    let user = cheap_user();
    let one = store.pre_auth(cheap_request(), &user, 1, 5, 1000).unwrap();
    let two = store.pre_auth(cheap_request(), &user, 1, 5, 1000).unwrap();
    assert_ne!(one.key, two.key);
    assert_ne!(one.b_pub, two.b_pub);
    assert_ne!(one.b_pub, [0u8; 512]);
    assert_eq!(one.salt, two.salt);
}

#[test]
fn handshake_key_bytes() {
    assert_eq!(u64_to_le_bytes(0), [0; 8]);
    assert_eq!(u64_to_le_bytes(1), [1, 0, 0, 0, 0, 0, 0, 0]);
    assert_eq!(u64_to_le_bytes(u64::MAX), [0xFF; 8]);
    assert_eq!(u64_to_le_bytes(0x1122_3344_5566_7788), 0x1122_3344_5566_7788u64.to_le_bytes());
    assert_eq!(u64_from_le_bytes(&[1, 2, 3, 4, 5, 6, 7, 8]), 0x0807_0605_0403_0201);
    assert_eq!(u64_from_le_bytes(&[0xFF; 8]), u64::MAX);
    for x in [0u64, 255, 256, 65535, 1 << 40, u64::MAX - 1] {
        assert_eq!(u64_from_le_bytes(&u64_to_le_bytes(x)), x);
    }
}

#[test]
fn error_messages() {
    assert_eq!(AuthError::Srp(SrpAuthError::BadRecordMac).message(), "bad record mac");
    assert_eq!(AuthError::Srp(SrpAuthError::IllegalParameter).message(), "illegal parameter");
    assert_eq!(AuthError::Expired.message(), "expired");
    assert_eq!(AuthError::KeyNotFound.message(), "key not found");
}

#[test]
fn registration_is_decoded_into_a_user_record() {
    let mut buf = [0u8; 1024];
    let req = RegisterReq { username: "alice", salt: [4; 32], verifier: [6; 512] };
    let n = req.encode(&mut buf).unwrap();
    let (name, user) = decode_register_req(&buf[..n]).unwrap();
    assert_eq!(name, "alice");
    assert_eq!(user.salt, [4; 32]);
    assert_eq!(user.v, [6; 512]);
    // What follows the request is not looked at.
    assert!(decode_register_req(&buf).is_some());
}

#[test]
fn broken_registration_is_refused() {
    let mut buf = [0u8; 1024];
    let req = RegisterReq { username: "alice", salt: [4; 32], verifier: [6; 512] };
    let n = req.encode(&mut buf).unwrap();
    assert!(decode_register_req(&buf[..n - 1]).is_none());
    assert!(decode_register_req(&[]).is_none());
    buf[2] = 0xFF;
    assert!(decode_register_req(&buf[..n]).is_none());
}
