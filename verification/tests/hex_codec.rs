use paillier_ring::codec::{decode, encode, DecodeError, WireMessage};
use paillier_ring::scheme::{Ciphertext, EncryptionKey, Plaintext};

fn tiny_key_bytes() -> Vec<u8> {
    b"{\"n\":\"77\"}".to_vec()
}

fn expect_err(bytes: &[u8]) -> DecodeError {
    match decode(bytes) {
        Err(e) => e,
        Ok(_) => panic!("expected a decoding error"),
    }
}

#[test]
fn hex_of_u64_is_lowercase_without_leading_zeros() {
    assert_eq!(Plaintext::from_u64(0).as_bytes(), b"0");
    assert_eq!(Plaintext::from_u64(34).as_bytes(), b"22");
    assert_eq!(Plaintext::from_u64(255).as_bytes(), b"ff");
    assert_eq!(Plaintext::from_u64(4096).as_bytes(), b"1000");
}

#[test]
fn hex_to_u64_round_trips() {
    for x in [0u64, 1, 15, 16, 34, 50, 200, u64::MAX] {
        assert_eq!(Plaintext::from_u64(x).to_u64(), Some(x));
    }
}

#[test]
fn hex_to_u64_overflow_is_none() {
    let p = Plaintext::from_hex(b"10000000000000000".to_vec()).unwrap();
    assert_eq!(p.to_u64(), None);
}

#[test]
fn from_hex_accepts_both_cases_and_rejects_junk() {
    assert!(Plaintext::from_hex(b"0aF9".to_vec()).is_some());
    assert!(Plaintext::from_hex(b"".to_vec()).is_none());
    assert!(Plaintext::from_hex(b"12g4".to_vec()).is_none());
    assert!(Ciphertext::from_hex(b"deadBEEF".to_vec()).is_some());
    assert!(Ciphertext::from_hex(b"dead beef".to_vec()).is_none());
}

#[test]
fn encode_lays_out_prefix_text_and_key() {
    let msg = WireMessage {
        key: EncryptionKey::from_bytes(tiny_key_bytes()),
        c: Ciphertext::from_hex(b"ff".to_vec()).unwrap(),
    };
    let bytes = encode(&msg);
    let mut expected = vec![2, 0, 0, 0, 0, 0, 0, 0];
    expected.extend_from_slice(b"ff");
    expected.extend_from_slice(&tiny_key_bytes());
    assert_eq!(bytes, expected);
}

#[test]
fn decode_undoes_encode() {
    let msg = WireMessage {
        key: EncryptionKey::from_bytes(tiny_key_bytes()),
        c: Ciphertext::from_hex(b"1a2b3c".to_vec()).unwrap(),
    };
    let bytes = encode(&msg);
    let back = decode(&bytes).unwrap();
    assert_eq!(back.c.as_bytes(), b"1a2b3c");
    assert_eq!(back.key.as_bytes(), &tiny_key_bytes());
}

#[test]
fn truncated_length_prefix_is_rejected() {
    assert_eq!(expect_err(&[1, 2, 3]), DecodeError::ShortLength);
    assert_eq!(expect_err(&[]), DecodeError::ShortLength);
}

#[test]
fn truncated_payload_is_rejected() {
    let mut bytes = vec![5, 0, 0, 0, 0, 0, 0, 0];
    bytes.extend_from_slice(b"ab");
    assert_eq!(expect_err(&bytes), DecodeError::ShortPayload);
}

#[test]
fn non_utf8_payload_is_rejected() {
    let mut bytes = vec![1, 0, 0, 0, 0, 0, 0, 0];
    bytes.push(0xff);
    bytes.extend_from_slice(&tiny_key_bytes());
    assert_eq!(expect_err(&bytes), DecodeError::NotUtf8);
}

#[test]
fn non_hex_payload_is_rejected() {
    let mut bytes = vec![2, 0, 0, 0, 0, 0, 0, 0];
    bytes.extend_from_slice(b"zz");
    bytes.extend_from_slice(&tiny_key_bytes());
    assert_eq!(expect_err(&bytes), DecodeError::BadHexDigit);
}

#[test]
fn empty_payload_is_rejected() {
    let mut bytes = vec![0, 0, 0, 0, 0, 0, 0, 0];
    bytes.extend_from_slice(&tiny_key_bytes());
    assert_eq!(expect_err(&bytes), DecodeError::BadHexDigit);
}

#[test]
fn truncated_key_is_rejected() {
    let mut bytes = vec![2, 0, 0, 0, 0, 0, 0, 0];
    bytes.extend_from_slice(b"ff");
    bytes.extend_from_slice(b"{\"n\":\"7");
    assert_eq!(expect_err(&bytes), DecodeError::BadKey);
}

#[test]
fn missing_key_is_rejected() {
    let mut bytes = vec![2, 0, 0, 0, 0, 0, 0, 0];
    bytes.extend_from_slice(b"ff");
    assert_eq!(expect_err(&bytes), DecodeError::BadKey);
}

#[test]
fn key_with_degenerate_modulus_is_rejected() {
    let mut bytes = vec![1, 0, 0, 0, 0, 0, 0, 0];
    bytes.extend_from_slice(b"a");
    bytes.extend_from_slice(b"{\"n\":\"1\"}");
    assert_eq!(expect_err(&bytes), DecodeError::BadKey);
}
