//! The homomorphic capability: key pairs, plaintexts and ciphertexts, and
//! the algebraic operations of the Paillier scheme.
//!
//! The cryptosystem itself is an outside collaborator.  Every call into it
//! stands behind a trusted wrapper whose contract speaks through four named
//! quantities of a public key's encoded bytes: whether the bytes decode to a
//! usable key (`key_parse_ok`), the key's plaintext modulus
//! (`plain_modulus`), the decryption function (`dec_of`), and membership in
//! the key's ciphertext space (`in_cspace`).  Everything the protocol proves
//! about accumulated values rests on those contracts alone.

use vstd::arithmetic::div_mod::{lemma_add_mod_noop, lemma_add_mod_noop_right, lemma_mul_mod_noop_left};
use vstd::arithmetic::power2::pow2;
use vstd::prelude::*;

use crate::hex::{all_hex, check_hex, hex_to_u64, hex_value, lower_hex, u64_to_hex};
use curv::arithmetic::traits::Converter;
use kzen_paillier::{Add, Decrypt, Encrypt, KeyGeneration, Mul};

verus! {

/// Whether the bytes are the self-delimiting JSON encoding of a public key
/// whose modulus is at least 2.
pub uninterp spec fn key_parse_ok(key: Seq<u8>) -> bool;

/// The plaintext modulus of the encoded key.
pub uninterp spec fn plain_modulus(key: Seq<u8>) -> nat;

/// What decryption under the (unique) secret key matching the encoded
/// public key returns for the given ciphertext value.
pub uninterp spec fn dec_of(key: Seq<u8>, c: nat) -> nat;

/// Whether the value lies in the encoded key's ciphertext space, where the
/// homomorphic identities hold.
pub uninterp spec fn in_cspace(key: Seq<u8>, c: nat) -> bool;

/// Whether the bytes encode the public half of a genuinely generated key
/// pair: a semiprime modulus of two large primes.  Encryption's guarantees
/// hold only under such a key; the wire may carry bytes that parse as a key
/// (`key_parse_ok`) without being one — a degenerate modulus makes the
/// drawn randomness collapse and the ciphertext carry nothing.
pub uninterp spec fn key_genuine(key: Seq<u8>) -> bool;

#[verifier::external_type_specification]
#[verifier::external_body]
pub struct ExDecryptionKey(kzen_paillier::DecryptionKey);

/// A non-negative arbitrary-precision integer of the scheme's plaintext
/// range, held as hex digit bytes.
pub struct Plaintext {
    hex: Vec<u8>,
}

impl View for Plaintext {
    type V = Seq<u8>;

    closed spec fn view(&self) -> Seq<u8> {
        self.hex@
    }
}

impl Plaintext {
    pub open spec fn value(&self) -> nat {
        hex_value(self@)
    }

    pub open spec fn wf(&self) -> bool {
        self@.len() > 0 && all_hex(self@)
    }

    /// Accepts exactly the non-empty strings of hex digits.
    pub fn from_hex(digits: Vec<u8>) -> (r: Option<Plaintext>)
        ensures
            match r {
                Some(p) => p@ == digits@ && p.wf(),
                None => !(digits@.len() > 0 && all_hex(digits@)),
            },
    {
        if digits.len() > 0 && check_hex(digits.as_slice()) {
            Some(Plaintext { hex: digits })
        } else {
            None
        }
    }

    pub fn from_u64(x: u64) -> (r: Plaintext)
        ensures
            r.wf(),
            lower_hex(r@),
            r.value() == x,
    {
        Plaintext { hex: u64_to_hex(x) }
    }

    pub fn to_u64(&self) -> (r: Option<u64>)
        requires
            self.wf(),
        ensures
            match r {
                Some(v) => v == self.value(),
                None => self.value() > u64::MAX,
            },
    {
        hex_to_u64(self.hex.as_slice())
    }

    pub fn as_bytes(&self) -> (r: &Vec<u8>)
        ensures
            r@ == self@,
    {
        &self.hex
    }

    /// Runtime counterpart of `wf`.
    pub fn check(&self) -> (r: bool)
        ensures
            r == self.wf(),
    {
        self.hex.len() > 0 && check_hex(self.hex.as_slice())
    }
}

/// A value of the scheme's ciphertext space, held as the hex digit bytes in
/// which it crosses the wire.
pub struct Ciphertext {
    hex: Vec<u8>,
}

impl View for Ciphertext {
    type V = Seq<u8>;

    closed spec fn view(&self) -> Seq<u8> {
        self.hex@
    }
}

impl Ciphertext {
    pub open spec fn value(&self) -> nat {
        hex_value(self@)
    }

    pub open spec fn wf(&self) -> bool {
        self@.len() > 0 && all_hex(self@)
    }

    /// Accepts exactly the non-empty strings of hex digits.
    pub fn from_hex(digits: Vec<u8>) -> (r: Option<Ciphertext>)
        ensures
            match r {
                Some(c) => c@ == digits@ && c.wf(),
                None => !(digits@.len() > 0 && all_hex(digits@)),
            },
    {
        if digits.len() > 0 && check_hex(digits.as_slice()) {
            Some(Ciphertext { hex: digits })
        } else {
            None
        }
    }

    pub fn as_bytes(&self) -> (r: &Vec<u8>)
        ensures
            r@ == self@,
    {
        &self.hex
    }
}

/// The public half of a key pair: the opaque, self-delimiting encoded bytes
/// that travel on every hop of the ring.
pub struct EncryptionKey {
    bytes: Vec<u8>,
}

impl View for EncryptionKey {
    type V = Seq<u8>;

    closed spec fn view(&self) -> Seq<u8> {
        self.bytes@
    }
}

impl EncryptionKey {
    pub fn from_bytes(bytes: Vec<u8>) -> (r: EncryptionKey)
        ensures
            r@ == bytes@,
    {
        EncryptionKey { bytes }
    }

    pub fn as_bytes(&self) -> (r: &Vec<u8>)
        ensures
            r@ == self@,
    {
        &self.bytes
    }
}

/// Copies a byte vector; the codec and the key accessors hand out fresh
/// buffers rather than aliases.
pub fn copy_bytes(src: &Vec<u8>) -> (r: Vec<u8>)
    ensures
        r@ == src@,
{
    let mut r: Vec<u8> = Vec::new();
    let mut i: usize = 0;
    while i < src.len()
        invariant
            0 <= i <= src@.len(),
            r@ == src@.take(i as int),
        decreases src@.len() - i,
    {
        r.push(src[i]);
        proof {
            assert(src@.take(i + 1).drop_last() == src@.take(i as int));
            assert(r@ =~= src@.take(i + 1));
        }
        i = i + 1;
    }
    proof {
        assert(src@.take(src@.len() as int) == src@);
    }
    r
}

/// The master's key pair: the encoded public key, and the secret decryption
/// key, which never leaves this structure and is never serialized.
pub struct KeyPair {
    pk_bytes: Vec<u8>,
    dk: kzen_paillier::DecryptionKey,
}

impl KeyPair {
    /// The encoded public key.
    pub closed spec fn pk(&self) -> Seq<u8> {
        self.pk_bytes@
    }

    #[verifier::type_invariant]
    spec fn inv(&self) -> bool {
        self.pk().len() > 0 && key_parse_ok(self.pk()) && key_genuine(self.pk())
            && plain_modulus(self.pk()) > 1
    }

    /// A fresh key pair of the requested modulus width.  Each prime is
    /// sampled with its top bit set, so the modulus is at least
    /// `2^(2*(bits/2) - 2)`.
    pub fn generate(bits: usize) -> (r: KeyPair)
        requires
            64 <= bits,
        ensures
            r.pk().len() > 0,
            key_parse_ok(r.pk()),
            key_genuine(r.pk()),
            plain_modulus(r.pk()) > 1,
            plain_modulus(r.pk()) >= pow2((2 * (bits / 2) - 2) as nat),
    {
        let kp = keygen_raw(bits);
        proof {
            use_type_invariant(&kp);
        }
        kp
    }

    /// The shareable public key, detached from the secret half.
    pub fn public_key(&self) -> (r: EncryptionKey)
        ensures
            r@ == self.pk(),
            key_parse_ok(r@),
            key_genuine(r@),
            plain_modulus(r@) > 1,
    {
        proof {
            use_type_invariant(self);
        }
        EncryptionKey { bytes: copy_bytes(&self.pk_bytes) }
    }

    /// Decryption with the retained secret key.
    pub fn decrypt(&self, c: &Ciphertext) -> (r: Plaintext)
        requires
            c.wf(),
        ensures
            r.wf(),
            lower_hex(r@),
            r.value() == dec_of(self.pk(), c.value()),
            r.value() < plain_modulus(self.pk()),
    {
        self.decrypt_raw(c)
    }

    /// Relies on Paillier::decrypt with the retained primes: the result is a
    /// function of the public key and the ciphertext value alone (the primes
    /// are the unique factorization of the key's modulus), lies below the
    /// plaintext modulus, and is written as GMP's lowercase base-16 text.
    #[verifier::external_body]
    fn decrypt_raw(&self, c: &Ciphertext) -> (r: Plaintext)
        requires
            c.wf(),
        ensures
            r.wf(),
            lower_hex(r@),
            r.value() == dec_of(self.pk(), c.value()),
            r.value() < plain_modulus(self.pk()),
    {
        let big = kzen_paillier::BigInt::from_str_radix(
            std::str::from_utf8(c.hex.as_slice()).unwrap(),
            16,
        ).unwrap();
        let m = kzen_paillier::Paillier::decrypt(
            &self.dk,
            kzen_paillier::RawCiphertext::from(big),
        );
        Plaintext { hex: m.0.into_owned().to_str_radix(16).into_bytes() }
    }
}

/// The sum of the values of a sequence of plaintexts.
pub open spec fn sum_of(vs: Seq<Plaintext>) -> nat
    decreases vs.len(),
{
    if vs.len() == 0 {
        0
    } else {
        sum_of(vs.drop_last()) + vs.last().value()
    }
}

impl KeyPair {
    /// Encrypts every value, adds the ciphertexts homomorphically, scales
    /// the encrypted sum by `factor`, and decrypts: one round over the
    /// scheme's operations, returning the scaled sum reduced by the
    /// plaintext modulus.
    pub fn encrypted_scaled_sum(&self, values: &Vec<Plaintext>, factor: &Plaintext) -> (r:
        Plaintext)
        requires
            values@.len() > 0,
            forall|i: int| 0 <= i < values@.len() ==> (#[trigger] values@[i]).wf(),
            factor.wf(),
        ensures
            r.wf(),
            r.value() == (sum_of(values@) * factor.value()) % plain_modulus(self.pk()),
    {
        proof {
            use_type_invariant(self);
        }
        let ek = self.public_key();
        let ghost md = plain_modulus(self.pk()) as int;
        let mut acc = encrypt_raw(&ek, &values[0]);
        proof {
            assert(sum_of(Seq::<Plaintext>::empty()) == 0);
            assert(values@.take(1).drop_last() =~= Seq::<Plaintext>::empty());
            assert(values@.take(1).last() == values@[0]);
            assert(sum_of(values@.take(1)) == values@[0].value());
        }
        let mut i: usize = 1;
        while i < values.len()
            invariant
                1 <= i <= values@.len(),
                forall|k: int| 0 <= k < values@.len() ==> (#[trigger] values@[k]).wf(),
                ek@ == self.pk(),
                key_parse_ok(ek@),
                key_genuine(ek@),
                plain_modulus(ek@) > 1,
                md == plain_modulus(ek@),
                acc.wf(),
                in_cspace(ek@, acc.value()),
                dec_of(ek@, acc.value()) == sum_of(values@.take(i as int)) % plain_modulus(ek@),
            decreases values@.len() - i,
        {
            let e = encrypt_raw(&ek, &values[i]);
            let next = hom_add_raw(&ek, &acc, &e);
            proof {
                assert(values@.take(i + 1).drop_last() =~= values@.take(i as int));
                assert(values@.take(i + 1).last() == values@[i as int]);
                lemma_add_mod_noop(
                    sum_of(values@.take(i as int)) as int,
                    values@[i as int].value() as int,
                    md,
                );
            }
            acc = next;
            i = i + 1;
        }
        proof {
            assert(values@.take(values@.len() as int) == values@);
        }
        let scaled = hom_mul_raw(&ek, &acc, factor);
        proof {
            lemma_mul_mod_noop_left(sum_of(values@) as int, factor.value() as int, md);
        }
        self.decrypt(&scaled)
    }
}

/// Relies on Paillier::keypair_with_modulus_size and Keypair::keys for a
/// fresh pair of primes, and on serde_json::to_vec for the public key's
/// self-delimiting JSON encoding; the encoding decodes back to the same key
/// (serde round trip).  The modulus is a product of two primes, each
/// sampled with its top bit set at width `bits / 2`, so it is at least
/// `2^(2*(bits/2) - 2)`, and the encoded key is genuine.
#[verifier::external_body]
fn keygen_raw(bits: usize) -> (r: KeyPair)
    requires
        64 <= bits,
    ensures
        r.pk().len() > 0,
        key_parse_ok(r.pk()),
        key_genuine(r.pk()),
        plain_modulus(r.pk()) > 1,
        plain_modulus(r.pk()) >= pow2((2 * (bits / 2) - 2) as nat),
{
    let keypair = kzen_paillier::Paillier::keypair_with_modulus_size(bits);
    let (ek, dk) = keypair.keys();
    let pk_bytes = serde_json::to_vec(&ek).unwrap();
    KeyPair { pk_bytes, dk }
}

/// Relies on serde_json::from_slice for kzen_paillier::EncryptionKey:
/// whether the bytes are such a key's JSON encoding is a function of the
/// bytes alone, and the decoded modulus is compared against 2 directly.
/// The comparison is part of what `key_parse_ok` means: bytes whose modulus
/// is below 2 do not name a usable key, since the scheme's arithmetic
/// degenerates there.  Genuineness (`key_genuine`) is deliberately not
/// checked here — it cannot be read off the bytes.
#[verifier::external_body]
pub(crate) fn check_key(key: &[u8]) -> (r: bool)
    ensures
        r == key_parse_ok(key@),
        r ==> plain_modulus(key@) > 1,
{
    match serde_json::from_slice::<kzen_paillier::EncryptionKey>(key) {
        Ok(ek) => ek.n >= kzen_paillier::BigInt::from(2u32),
        Err(_) => false,
    }
}

/// Relies on Paillier::encrypt: the ciphertext text is GMP's lowercase
/// base-16 output, and under a genuine key the result lies in the key's
/// ciphertext space and decrypts to the plaintext reduced by the modulus.
/// The homomorphic clauses are conditioned on `key_genuine`: under a
/// degenerate parse-ok key the drawn randomness can collapse the ciphertext
/// (for a genuine key the exceptional draws would factor the modulus, which
/// the scheme itself takes for granted).
#[verifier::external_body]
pub(crate) fn encrypt_raw(key: &EncryptionKey, p: &Plaintext) -> (r: Ciphertext)
    requires
        key_parse_ok(key@),
        p.wf(),
    ensures
        r.wf(),
        lower_hex(r@),
        key_genuine(key@) ==> in_cspace(key@, r.value()) && dec_of(key@, r.value()) == p.value()
            % plain_modulus(key@),
{
    let ek: kzen_paillier::EncryptionKey = serde_json::from_slice(key.bytes.as_slice()).unwrap();
    let m = kzen_paillier::BigInt::from_str_radix(
        std::str::from_utf8(p.hex.as_slice()).unwrap(),
        16,
    ).unwrap();
    let c = kzen_paillier::Paillier::encrypt(&ek, kzen_paillier::RawPlaintext::from(m));
    Ciphertext { hex: c.0.into_owned().to_str_radix(16).into_bytes() }
}

/// Relies on Paillier::add over two ciphertexts: the result's text is
/// GMP's lowercase base-16 output, and for operands of the key's ciphertext
/// space the result stays in the space and decrypts to the sum, modulo the
/// plaintext modulus, of what the operands decrypt to.
#[verifier::external_body]
pub(crate) fn hom_add_raw(key: &EncryptionKey, c1: &Ciphertext, c2: &Ciphertext) -> (r: Ciphertext)
    requires
        key_parse_ok(key@),
        c1.wf(),
        c2.wf(),
    ensures
        r.wf(),
        lower_hex(r@),
        in_cspace(key@, c1.value()) && in_cspace(key@, c2.value()) ==> in_cspace(key@, r.value())
            && dec_of(key@, r.value()) == (dec_of(key@, c1.value()) + dec_of(key@, c2.value()))
            % plain_modulus(key@),
{
    let ek: kzen_paillier::EncryptionKey = serde_json::from_slice(key.bytes.as_slice()).unwrap();
    let b1 = kzen_paillier::BigInt::from_str_radix(
        std::str::from_utf8(c1.hex.as_slice()).unwrap(),
        16,
    ).unwrap();
    let b2 = kzen_paillier::BigInt::from_str_radix(
        std::str::from_utf8(c2.hex.as_slice()).unwrap(),
        16,
    ).unwrap();
    let c = kzen_paillier::Paillier::add(
        &ek,
        kzen_paillier::RawCiphertext::from(b1),
        kzen_paillier::RawCiphertext::from(b2),
    );
    Ciphertext { hex: c.0.into_owned().to_str_radix(16).into_bytes() }
}

/// Relies on Paillier::mul of a ciphertext and a plaintext scalar: the
/// result's text is GMP's lowercase base-16 output, and for a ciphertext of
/// the key's space the result stays in the space and decrypts to the scalar
/// multiple, modulo the plaintext modulus, of what the ciphertext decrypts
/// to.
#[verifier::external_body]
pub(crate) fn hom_mul_raw(key: &EncryptionKey, c: &Ciphertext, m: &Plaintext) -> (r: Ciphertext)
    requires
        key_parse_ok(key@),
        c.wf(),
        m.wf(),
    ensures
        r.wf(),
        lower_hex(r@),
        in_cspace(key@, c.value()) ==> in_cspace(key@, r.value()) && dec_of(key@, r.value()) == (
        dec_of(key@, c.value()) * m.value()) % plain_modulus(key@),
{
    let ek: kzen_paillier::EncryptionKey = serde_json::from_slice(key.bytes.as_slice()).unwrap();
    let b = kzen_paillier::BigInt::from_str_radix(
        std::str::from_utf8(c.hex.as_slice()).unwrap(),
        16,
    ).unwrap();
    let s = kzen_paillier::BigInt::from_str_radix(
        std::str::from_utf8(m.hex.as_slice()).unwrap(),
        16,
    ).unwrap();
    let c = kzen_paillier::Paillier::mul(
        &ek,
        kzen_paillier::RawCiphertext::from(b),
        kzen_paillier::RawPlaintext::from(s),
    );
    Ciphertext { hex: c.0.into_owned().to_str_radix(16).into_bytes() }
}

/// Relies on BigInt multiplication (gmp-backed `*`) and its base-16
/// conversions: the product of the two values, re-emitted as lowercase
/// text.
#[verifier::external_body]
pub(crate) fn mul_big(a: &Plaintext, b: &Plaintext) -> (r: Plaintext)
    requires
        a.wf(),
        b.wf(),
    ensures
        r.wf(),
        lower_hex(r@),
        r.value() == a.value() * b.value(),
{
    let x = kzen_paillier::BigInt::from_str_radix(
        std::str::from_utf8(a.hex.as_slice()).unwrap(),
        16,
    ).unwrap();
    let y = kzen_paillier::BigInt::from_str_radix(
        std::str::from_utf8(b.hex.as_slice()).unwrap(),
        16,
    ).unwrap();
    Plaintext { hex: (x * y).to_str_radix(16).into_bytes() }
}

/// Encryption under a received, encoded public key; `None` exactly when the
/// bytes are not a usable key.
pub fn encrypt_with(key: &EncryptionKey, p: &Plaintext) -> (r: Option<Ciphertext>)
    requires
        p.wf(),
    ensures
        match r {
            Some(c) => key_parse_ok(key@) && c.wf() && lower_hex(c@) && (key_genuine(key@)
                ==> in_cspace(key@, c.value()) && dec_of(key@, c.value()) == p.value()
                % plain_modulus(key@)),
            None => !key_parse_ok(key@),
        },
{
    if check_key(key.as_bytes().as_slice()) {
        Some(encrypt_raw(key, p))
    } else {
        None
    }
}

/// Ciphertext addition under a received key; `None` exactly when the bytes
/// are not a usable key.
pub fn hom_add(key: &EncryptionKey, c1: &Ciphertext, c2: &Ciphertext) -> (r: Option<Ciphertext>)
    requires
        c1.wf(),
        c2.wf(),
    ensures
        match r {
            Some(c) => key_parse_ok(key@) && c.wf() && lower_hex(c@) && (in_cspace(key@, c1.value())
                && in_cspace(key@, c2.value()) ==> in_cspace(key@, c.value()) && dec_of(
                key@,
                c.value(),
            ) == (dec_of(key@, c1.value()) + dec_of(key@, c2.value())) % plain_modulus(key@)),
            None => !key_parse_ok(key@),
        },
{
    if check_key(key.as_bytes().as_slice()) {
        Some(hom_add_raw(key, c1, c2))
    } else {
        None
    }
}

/// Scalar multiplication under a received key; `None` exactly when the
/// bytes are not a usable key.
pub fn hom_mul_plain(key: &EncryptionKey, c: &Ciphertext, m: &Plaintext) -> (r: Option<Ciphertext>)
    requires
        c.wf(),
        m.wf(),
    ensures
        match r {
            Some(out) => key_parse_ok(key@) && out.wf() && lower_hex(out@) && (in_cspace(
                key@,
                c.value(),
            ) ==> in_cspace(key@, out.value()) && dec_of(key@, out.value()) == (dec_of(
                key@,
                c.value(),
            ) * m.value()) % plain_modulus(key@)),
            None => !key_parse_ok(key@),
        },
{
    if check_key(key.as_bytes().as_slice()) {
        Some(hom_mul_raw(key, c, m))
    } else {
        None
    }
}

/// Addition of a known scalar, as the scheme defines it: encrypt the scalar
/// under the same key, then add ciphertexts.  `None` exactly when the bytes
/// are not a usable key.
pub fn hom_add_plain(key: &EncryptionKey, c: &Ciphertext, p: &Plaintext) -> (r: Option<Ciphertext>)
    requires
        c.wf(),
        p.wf(),
    ensures
        match r {
            Some(out) => key_parse_ok(key@) && out.wf() && lower_hex(out@) && (key_genuine(key@)
                && in_cspace(key@, c.value()) ==> in_cspace(key@, out.value()) && dec_of(
                key@,
                out.value(),
            ) == (dec_of(key@, c.value()) + p.value()) % plain_modulus(key@)),
            None => !key_parse_ok(key@),
        },
{
    if !check_key(key.as_bytes().as_slice()) {
        return None;
    }
    let e = encrypt_raw(key, p);
    let out = hom_add_raw(key, c, &e);
    proof {
        if key_genuine(key@) && in_cspace(key@, c.value()) {
            let md = plain_modulus(key@) as int;
            lemma_add_mod_noop_right(dec_of(key@, c.value()) as int, p.value() as int, md);
        }
    }
    Some(out)
}

} // verus!

