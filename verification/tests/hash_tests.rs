use srp_auth::bigint::U4096;
use srp_auth::group::generator;
use srp_auth::hash::{
    Blake2b, DigestNum, DigestPasswordHasher, ProtocolDigest, UserPasswordHasher, A2,
};
use srp_auth::group::pow_mod;
use srp_auth::utils::{compute_k, compute_m1, compute_m2, compute_u};

fn hex(s: &str) -> Vec<u8> {
    let s = if s.len() % 2 == 1 { format!("0{}", s) } else { s.to_string() };
    (0..s.len() / 2)
        .map(|i| u8::from_str_radix(&s[2 * i..2 * i + 2], 16).unwrap())
        .collect()
}

fn num(s: &str) -> U4096 {
    U4096::from_be_slice(&hex(s))
}

#[test]
fn blake2b_known_answers() {
    assert_eq!(Blake2b::digest(b"").to_vec(), hex("786a02f742015903c6c6fd852552d272912f4740e15847618a86e217f71f5419d25e1031afee585313896444934eb04b903a685b1448b755d56f701afe9be2ce"));
    assert_eq!(
        Blake2b::digest(b"abc").to_vec(),
        hex("ba80a53f981c4d0d6a2797b69f12f6e94c212f14685ac4b74b12bb6fdbffa2d17d87c5392aab792dc252d5de4533cc9518d38aa8dbf1925ab92386edd4009923")
    );
}

#[test]
fn compute_k_known_answer() {
    assert_eq!(compute_k::<Blake2b>().to_vec(), hex("233baaf370839d8c2667da4379c646cb3ccdd311cb5bc96046932e3faef6304c75769ad6ac92ab8752b4252835131a14a1b3bf6de1f8c5204339c29b56d1f838"));
}

#[test]
fn compute_u_known_answer() {
    let a_pub = pow_mod(&generator(), &U4096::from_be_slice(&[3]));
    let b_pub = pow_mod(&generator(), &U4096::from_be_slice(&[7]));
    assert_eq!(compute_u::<Blake2b>(&a_pub, &b_pub).to_vec(), hex("2878c539e54a252963030e18e6523b35fc1ef7d4f96e172a366bb7baaef531d8781030dcc54f7f9f36bb67788cfec51ac31b09662dc79f76a6305326ab81440e"));
}

#[test]
fn compute_m1_hashes_the_three_parts_in_order() {
    assert_eq!(compute_m1::<Blake2b>(b"a", b"bc", b"def").to_vec(), hex("dde410524e3569b303e494aa82a3afb3e426f9df24c1398e9ff87aafbc2f5b7b3c1a4c9400409de3b45d37a00e5eae2a93cc9c4a108b00f05217d41a424d2b8a"));
    assert_eq!(compute_m1::<Blake2b>(b"abc", b"", b"def").to_vec(), hex("dde410524e3569b303e494aa82a3afb3e426f9df24c1398e9ff87aafbc2f5b7b3c1a4c9400409de3b45d37a00e5eae2a93cc9c4a108b00f05217d41a424d2b8a"));
    assert_ne!(compute_m1::<Blake2b>(b"bc", b"a", b"def").to_vec(), hex("dde410524e3569b303e494aa82a3afb3e426f9df24c1398e9ff87aafbc2f5b7b3c1a4c9400409de3b45d37a00e5eae2a93cc9c4a108b00f05217d41a424d2b8a"));
}

#[test]
fn compute_m2_hashes_the_three_parts_in_order() {
    assert_eq!(compute_m2::<Blake2b>(b"a", b"bc", b"def").to_vec(), hex("dde410524e3569b303e494aa82a3afb3e426f9df24c1398e9ff87aafbc2f5b7b3c1a4c9400409de3b45d37a00e5eae2a93cc9c4a108b00f05217d41a424d2b8a"));
    assert_ne!(compute_m2::<Blake2b>(b"a", b"bc", b"dee").to_vec(), hex("dde410524e3569b303e494aa82a3afb3e426f9df24c1398e9ff87aafbc2f5b7b3c1a4c9400409de3b45d37a00e5eae2a93cc9c4a108b00f05217d41a424d2b8a"));
}

#[test]
fn digest_password_hasher_known_answer() {
    let x = DigestPasswordHasher::<Blake2b>::hash_user_password(b"alice", b"secret", b"salt");
    assert_eq!(x.to_vec(), hex("b1a65f968896485faf4fb01718756fffa169cdefcfb23af05f619befdcf1bce4bc9231290ca1db760c907cc642844a037002a5d8aebfe7952ce56ac498a4a1dc"));
}

#[test]
fn argon2_hasher_is_deterministic() {
    let salt = [9u8; 32];
    let x = A2::hash_user_password(b"alice", b"correct-password", &salt);
    let y = A2::hash_user_password(b"alice", b"correct-password", &salt);
    assert_eq!(x, y);
}

#[test]
fn argon2_hasher_depends_on_every_input() {
    let salt = [9u8; 32];
    let other_salt = [10u8; 32];
    let x = A2::hash_user_password(b"alice", b"correct-password", &salt);
    assert_ne!(x, A2::hash_user_password(b"alice", b"wrong-password", &salt));
    assert_ne!(x, A2::hash_user_password(b"alicf", b"correct-password", &salt));
    assert_ne!(x, A2::hash_user_password(b"alice", b"correct-password", &other_salt));
}

#[test]
fn argon2_hasher_gives_back_none_of_its_inputs() {
    let salt = [9u8; 32];
    let password = [9u8; 32];
    let x = A2::hash_user_password(&salt, &password, &salt);
    assert_ne!(x, salt);
    assert_ne!(x, [0u8; 32]);
}

#[test]
fn argon2_hasher_takes_empty_credentials() {
    let salt = [1u8; 32];
    let x = A2::hash_user_password(b"", b"", &salt);
    assert_ne!(x, [0u8; 32]);
}

#[test]
fn digest_of_32_bytes_as_a_number() {
    let mut d = [0u8; 32];
    d[0] = 0xAB;
    d[31] = 0xCD;
    let n = d.to_num().to_be_bytes();
    assert!(n[..480].iter().all(|b| *b == 0));
    assert_eq!(n[480], 0xAB);
    assert_eq!(n[511], 0xCD);
}

#[test]
fn digest_of_64_bytes_as_a_number() {
    let mut d = [0u8; 64];
    d[0] = 0x01;
    d[63] = 0x02;
    let n = d.to_num().to_be_bytes();
    assert!(n[..448].iter().all(|b| *b == 0));
    assert_eq!(n[448], 0x01);
    assert_eq!(n[511], 0x02);
}
