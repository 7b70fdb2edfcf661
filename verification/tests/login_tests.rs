use srp_auth::bigint::U4096;
use srp_auth::client::SrpClient4096;
use srp_auth::codec::Data;
use srp_auth::group::N_BYTES;
use srp_auth::hash::{Blake2b, A2};
use srp_auth::login::{register, LoginError, Step1, BUFFER_SIZE};
use srp_auth::messages::{AuthReq, PreAuthReq, PreAuthResp};
use srp_auth::session_store::{decode_register_req, encode, SrpAuth};

fn secret(seed: u8) -> [u8; 512] {
    let mut bytes = [0u8; 512];
    for (i, b) in bytes.iter_mut().enumerate() {
        *b = seed.wrapping_add(i as u8).wrapping_mul(13);
    }
    bytes
}

fn is_error<T>(r: Result<T, LoginError>, e: LoginError) -> bool {
    match r {
        Ok(_) => false,
        Err(x) => x == e,
    }
}

#[test]
fn login_over_the_wire() {
    let wire = register("alice", "correct-password", [0x21; 32]).unwrap();
    let (name, user) = decode_register_req(&wire).unwrap();
    assert_eq!(name, "alice");

    let step1 = Step1::new(secret(1));
    let request = step1.req("alice").unwrap();
    let (pre_auth, _) = PreAuthReq::decode(&request).unwrap();
    assert_eq!(pre_auth.username, "alice");

    let mut store = SrpAuth::<&str>::new();
    let response = store.pre_auth(pre_auth, &user, 3, "payload", 50).unwrap();
    let step2 = step1.auth("alice", "correct-password", &encode(&response).unwrap()).ok().unwrap();

    let auth_bytes = step2.req().unwrap();
    assert_eq!(auth_bytes.len(), 72);
    let (auth, _) = AuthReq::decode(&auth_bytes).unwrap();
    assert_eq!(auth.key, response.key);
    let authenticated = store.auth(auth, 3, 49).ok().unwrap();
    assert_eq!(authenticated.get_key(), step2.get_key());
    assert_eq!(authenticated.data, "payload");
}

#[test]
fn registration_request_carries_name_salt_and_verifier() {
    let salt = [0x21u8; 32];
    let wire = register("alice", "correct-password", salt).unwrap();
    assert_eq!(wire.len(), 2 + 5 + 32 + 512);
    assert_eq!(&wire[..7], &[5, 0, b'a', b'l', b'i', b'c', b'e']);
    assert_eq!(&wire[7..39], &salt);
    let v = SrpClient4096::<A2, Blake2b>::compute_verifier(b"alice", b"correct-password", &salt);
    assert_eq!(&wire[39..], &v.to_le_bytes()[..]);
}

#[test]
fn registration_request_must_fit_in_the_buffer() {
    let fits = "n".repeat(BUFFER_SIZE - 546);
    let too_long = "n".repeat(BUFFER_SIZE - 545);
    assert_eq!(register(&fits, "pw", [1; 32]).unwrap().len(), BUFFER_SIZE);
    assert!(register(&too_long, "pw", [1; 32]).is_none());
}

#[test]
fn pre_auth_request_carries_the_ephemeral_and_the_name() {
    let a = secret(2);
    let step1 = Step1::new(a);
    let request = step1.req("bob").unwrap();
    let a_pub = SrpClient4096::<A2, Blake2b>::new(U4096::from_le_bytes(a)).compute_a_pub();
    assert_eq!(&request[..512], &a_pub.to_le_bytes()[..]);
    assert_eq!(&request[512..], &[3, 0, b'b', b'o', b'b']);
}

#[test]
fn pre_auth_request_must_fit_in_the_buffer() {
    let step1 = Step1::new(secret(2));
    let fits = "n".repeat(BUFFER_SIZE - 514);
    let too_long = "n".repeat(BUFFER_SIZE - 513);
    assert_eq!(step1.req(&fits).unwrap().len(), BUFFER_SIZE);
    assert!(step1.req(&too_long).is_none());
}

#[test]
fn response_that_is_no_pre_auth_response_is_invalid_data() {
    let step1 = Step1::new(secret(3));
    assert!(is_error(step1.auth("alice", "pw", &[]), LoginError::InvalidData));
    assert!(is_error(step1.auth("alice", "pw", &[1u8; 551]), LoginError::InvalidData));
    assert!(is_error(
        step1.auth("alice", "pw", &[1u8; BUFFER_SIZE + 1]),
        LoginError::InvalidData
    ));
}

#[test]
fn response_with_a_zero_ephemeral_fails_authentication() {
    let step1 = Step1::new(secret(3));
    let zero = PreAuthResp { salt: [1; 32], b_pub: [0; 512], key: [2; 8] };
    assert!(is_error(
        step1.auth("alice", "pw", &encode(&zero).unwrap()),
        LoginError::AuthenticationFailed
    ));
    let mut n = N_BYTES;
    n.reverse();
    let prime = PreAuthResp { salt: [1; 32], b_pub: n, key: [2; 8] };
    assert!(is_error(
        step1.auth("alice", "pw", &encode(&prime).unwrap()),
        LoginError::AuthenticationFailed
    ));
}

#[test]
fn response_may_be_followed_by_more_bytes() {
    let step1 = Step1::new(secret(4));
    let mut b_pub = [0u8; 512];
    b_pub[0] = 2;
    let mut bytes = encode(&PreAuthResp { salt: [1; 32], b_pub, key: [9; 8] }).unwrap();
    bytes.resize(BUFFER_SIZE, 0);
    let step2 = step1.auth("alice", "pw", &bytes).ok().unwrap();
    let request = step2.req().unwrap();
    assert_eq!(&request[64..], &[9u8; 8]);
    assert!(!step2.verify_server(&[0u8; 64]));
}

#[test]
fn login_error_messages() {
    assert_eq!(LoginError::InvalidData.message(), "invalid data");
    assert_eq!(LoginError::AuthenticationFailed.message(), "authentication failed");
}
