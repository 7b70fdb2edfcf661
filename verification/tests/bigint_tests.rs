use srp_auth::bigint::{reversed, U4096};

fn pattern() -> [u8; 512] {
    let mut bytes = [0u8; 512];
    for (i, b) in bytes.iter_mut().enumerate() {
        *b = (i * 7 + 3) as u8;
    }
    bytes
}

#[test]
fn big_endian_bytes_round_trip() {
    let bytes = pattern();
    assert_eq!(U4096::from_be_bytes(bytes).to_be_bytes(), bytes);
}

#[test]
fn little_endian_bytes_round_trip() {
    let bytes = pattern();
    assert_eq!(U4096::from_le_bytes(bytes).to_le_bytes(), bytes);
}

#[test]
fn little_endian_is_big_endian_reversed() {
    let bytes = pattern();
    let n = U4096::from_be_bytes(bytes);
    let mut expected = bytes;
    expected.reverse();
    assert_eq!(n.to_le_bytes(), expected);
    assert_eq!(U4096::from_le_bytes(expected).to_be_bytes(), bytes);
    assert_eq!(reversed(&bytes), expected);
}

#[test]
fn one_is_the_last_byte_big_endian_and_the_first_little_endian() {
    let mut be = [0u8; 512];
    be[511] = 1;
    let one = U4096::from_be_bytes(be);
    let le = one.to_le_bytes();
    assert_eq!(le[0], 1);
    assert!(le[1..].iter().all(|b| *b == 0));
}

#[test]
fn short_slice_is_padded_with_zeros_in_front() {
    let n = U4096::from_be_slice(&[0x12, 0x34]);
    let bytes = n.to_be_bytes();
    assert!(bytes[..510].iter().all(|b| *b == 0));
    assert_eq!(&bytes[510..], &[0x12, 0x34]);
}

#[test]
fn empty_slice_is_zero() {
    assert_eq!(U4096::from_be_slice(&[]).to_be_bytes(), [0u8; 512]);
}

#[test]
fn full_slice_is_taken_as_it_is() {
    let bytes = pattern();
    assert_eq!(U4096::from_be_slice(&bytes).to_be_bytes(), bytes);
}
