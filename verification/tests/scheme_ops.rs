use paillier_ring::scheme::{
    encrypt_with, hom_add, hom_add_plain, hom_mul_plain, EncryptionKey, KeyPair, Plaintext,
};

const TEST_KEY_BITS: usize = 128;

#[test]
fn encrypt_then_decrypt_returns_the_plaintext() {
    let kp = KeyPair::generate(TEST_KEY_BITS);
    let ek = kp.public_key();
    let c = encrypt_with(&ek, &Plaintext::from_u64(5)).unwrap();
    assert_eq!(kp.decrypt(&c).to_u64(), Some(5));
}

#[test]
fn encryption_is_randomized_but_decrypts_alike() {
    let kp = KeyPair::generate(TEST_KEY_BITS);
    let ek = kp.public_key();
    let p = Plaintext::from_u64(123);
    let c1 = encrypt_with(&ek, &p).unwrap();
    let c2 = encrypt_with(&ek, &p).unwrap();
    assert_ne!(c1.as_bytes(), c2.as_bytes());
    assert_eq!(kp.decrypt(&c1).to_u64(), Some(123));
    assert_eq!(kp.decrypt(&c2).to_u64(), Some(123));
}

#[test]
fn ciphertext_addition_decrypts_to_the_sum() {
    let kp = KeyPair::generate(TEST_KEY_BITS);
    let ek = kp.public_key();
    let c3 = encrypt_with(&ek, &Plaintext::from_u64(3)).unwrap();
    let c4 = encrypt_with(&ek, &Plaintext::from_u64(4)).unwrap();
    let sum = hom_add(&ek, &c3, &c4).unwrap();
    assert_eq!(kp.decrypt(&sum).to_u64(), Some(7));
}

#[test]
fn plaintext_addition_decrypts_to_the_sum() {
    let kp = KeyPair::generate(TEST_KEY_BITS);
    let ek = kp.public_key();
    let c = encrypt_with(&ek, &Plaintext::from_u64(12)).unwrap();
    let shifted = hom_add_plain(&ek, &c, &Plaintext::from_u64(5)).unwrap();
    assert_eq!(kp.decrypt(&shifted).to_u64(), Some(17));
}

#[test]
fn scalar_multiplication_decrypts_to_the_product() {
    let kp = KeyPair::generate(TEST_KEY_BITS);
    let ek = kp.public_key();
    let c = encrypt_with(&ek, &Plaintext::from_u64(7)).unwrap();
    let scaled = hom_mul_plain(&ek, &c, &Plaintext::from_u64(6)).unwrap();
    assert_eq!(kp.decrypt(&scaled).to_u64(), Some(42));
}

#[test]
fn scalar_multiplication_by_zero_decrypts_to_zero() {
    let kp = KeyPair::generate(TEST_KEY_BITS);
    let ek = kp.public_key();
    let c = encrypt_with(&ek, &Plaintext::from_u64(9)).unwrap();
    let scaled = hom_mul_plain(&ek, &c, &Plaintext::from_u64(0)).unwrap();
    assert_eq!(kp.decrypt(&scaled).to_u64(), Some(0));
}

#[test]
fn scheme_text_is_lowercase_hex() {
    let kp = KeyPair::generate(TEST_KEY_BITS);
    let ek = kp.public_key();
    let c = encrypt_with(&ek, &Plaintext::from_u64(123456789)).unwrap();
    for &b in c.as_bytes() {
        assert!((b'0'..=b'9').contains(&b) || (b'a'..=b'f').contains(&b));
    }
    let p = kp.decrypt(&c);
    for &b in p.as_bytes() {
        assert!((b'0'..=b'9').contains(&b) || (b'a'..=b'f').contains(&b));
    }
}

#[test]
fn unusable_key_bytes_are_refused() {
    let junk = EncryptionKey::from_bytes(b"not a key".to_vec());
    assert!(encrypt_with(&junk, &Plaintext::from_u64(1)).is_none());
}

#[test]
fn encrypted_scaled_sum_of_four_values_doubled() {
    let kp = KeyPair::generate(TEST_KEY_BITS);
    let values = vec![
        Plaintext::from_u64(10),
        Plaintext::from_u64(20),
        Plaintext::from_u64(30),
        Plaintext::from_u64(40),
    ];
    let total = kp.encrypted_scaled_sum(&values, &Plaintext::from_u64(2));
    assert_eq!(total.to_u64(), Some(200));
}
