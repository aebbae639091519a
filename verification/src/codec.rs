//! The wire codec: one message per connection, laid out as an 8-byte
//! little-endian length, that many bytes of hex text for the ciphertext, and
//! the public key's self-delimiting encoding filling the rest of the stream.
//!
//! `frame_split` is the framing in specification form; `decode_spec` adds
//! the key check.  `encode` and `decode` are proved against them, and
//! `lemma_codec_round_trip` states that decoding undoes encoding.

use vstd::bytes::{
    lemma_auto_spec_u64_to_from_le_bytes, spec_u64_from_le_bytes, spec_u64_to_le_bytes,
    u64_from_le_bytes, u64_to_le_bytes,
};
use vstd::prelude::*;

use crate::hex::{all_hex, hex_digit_check, is_hex_digit};
use crate::scheme::{check_key, key_parse_ok, plain_modulus, Ciphertext, EncryptionKey};

verus! {

/// One reason a byte stream is not a message, mirroring the order in which
/// the decoder gives up: a length prefix cut short, a payload shorter than
/// the prefix promises, payload bytes that are not ASCII, payload bytes that
/// are not hex digits, and key bytes that do not decode to a key.
#[derive(Clone, Copy, Debug, PartialEq, Eq, Structural)]
pub enum DecodeError {
    ShortLength,
    ShortPayload,
    NotUtf8,
    BadHexDigit,
    BadKey,
}

/// The one object that crosses the transport boundary: the public key and
/// the encrypted accumulator of one hop.
pub struct WireMessage {
    pub key: EncryptionKey,
    pub c: Ciphertext,
}

impl WireMessage {
    pub open spec fn wf(&self) -> bool {
        self.c.wf()
    }
}

pub open spec fn all_ascii(s: Seq<u8>) -> bool {
    forall|i: int| 0 <= i < s.len() ==> (#[trigger] s[i]) < 0x80
}

/// The exact bytes of one encoded message.
pub open spec fn spec_encode(hex: Seq<u8>, key: Seq<u8>) -> Seq<u8> {
    spec_u64_to_le_bytes(hex.len() as u64) + hex + key
}

/// The framing layer alone: where the hex text and the key bytes lie in a
/// received stream, or the first reason there is no such split.
pub open spec fn frame_split(d: Seq<u8>) -> Result<(Seq<u8>, Seq<u8>), DecodeError> {
    if d.len() < 8 {
        Err(DecodeError::ShortLength)
    } else {
        let n = spec_u64_from_le_bytes(d.subrange(0, 8)) as int;
        if d.len() - 8 < n {
            Err(DecodeError::ShortPayload)
        } else {
            let hex = d.subrange(8, 8 + n);
            let key = d.subrange(8 + n, d.len() as int);
            if !all_ascii(hex) {
                Err(DecodeError::NotUtf8)
            } else if hex.len() == 0 || !all_hex(hex) {
                Err(DecodeError::BadHexDigit)
            } else {
                Ok((hex, key))
            }
        }
    }
}

/// Framing, then the key check: what `decode` returns, in specification
/// form.
pub open spec fn decode_spec(d: Seq<u8>) -> Result<(Seq<u8>, Seq<u8>), DecodeError> {
    match frame_split(d) {
        Err(e) => Err(e),
        Ok((hex, key)) => if key_parse_ok(key) {
            Ok((hex, key))
        } else {
            Err(DecodeError::BadKey)
        },
    }
}

/// Appends a copy of `src` to `dst`.
fn append_bytes(dst: &mut Vec<u8>, src: &Vec<u8>)
    ensures
        final(dst)@ == old(dst)@ + src@,
{
    let mut i: usize = 0;
    while i < src.len()
        invariant
            0 <= i <= src@.len(),
            dst@ == old(dst)@ + src@.take(i as int),
        decreases src@.len() - i,
    {
        dst.push(src[i]);
        proof {
            assert(src@.take(i + 1).drop_last() == src@.take(i as int));
            assert(dst@ =~= old(dst)@ + src@.take(i + 1));
        }
        i = i + 1;
    }
    proof {
        assert(src@.take(src@.len() as int) == src@);
    }
}

/// Serializes one message: length prefix, hex text, key bytes.
pub fn encode(msg: &WireMessage) -> (r: Vec<u8>)
    requires
        msg.wf(),
    ensures
        r@ == spec_encode(msg.c@, msg.key@),
{
    let hex = msg.c.as_bytes();
    let mut out = u64_to_le_bytes(hex.len() as u64);
    append_bytes(&mut out, hex);
    append_bytes(&mut out, msg.key.as_bytes());
    proof {
        assert(out@ =~= spec_encode(msg.c@, msg.key@));
    }
    out
}

/// Parses one received stream back into a message.  The result is exactly
/// what `decode_spec` names: every malformed stream is rejected with the
/// error of its first defect, and an accepted stream carries a usable key.
#[verifier::loop_isolation(false)]
pub fn decode(data: &[u8]) -> (r: Result<WireMessage, DecodeError>)
    ensures
        match r {
            Ok(msg) => decode_spec(data@) == Ok::<(Seq<u8>, Seq<u8>), DecodeError>(
                (msg.c@, msg.key@),
            ) && msg.wf() && key_parse_ok(msg.key@) && plain_modulus(msg.key@) > 1,
            Err(e) => decode_spec(data@) == Err::<(Seq<u8>, Seq<u8>), DecodeError>(e),
        },
{
    if data.len() < 8 {
        return Err(DecodeError::ShortLength);
    }
    let len_bytes = vstd::slice::slice_subrange(data, 0, 8);
    let n64 = u64_from_le_bytes(len_bytes);
    if n64 > (data.len() as u64) - 8 {
        return Err(DecodeError::ShortPayload);
    }
    let n = n64 as usize;
    proof {
        assert(n64 <= data@.len() - 8);
        assert(n == n64);
        assert(8 + n <= data@.len());
    }
    let ghost hex = data@.subrange(8, 8 + n as int);
    let ghost key = data@.subrange(8 + n as int, data@.len() as int);

    let mut i: usize = 8;
    while i < 8 + n
        invariant
            8 <= i <= 8 + n,
            8 + n <= data@.len(),
            forall|k: int| 8 <= k < i ==> (#[trigger] data@[k]) < 0x80,
        decreases 8 + n - i,
    {
        if data[i] >= 0x80 {
            proof {
                assert(hex[i - 8] == data@[i as int]);
                assert(!all_ascii(hex));
            }
            return Err(DecodeError::NotUtf8);
        }
        i = i + 1;
    }
    proof {
        assert forall|k: int| 0 <= k < hex.len() implies (#[trigger] hex[k]) < 0x80 by {
            assert(hex[k] == data@[8 + k]);
        }
    }
    if n == 0 {
        return Err(DecodeError::BadHexDigit);
    }
    let mut hexv: Vec<u8> = Vec::new();
    let mut j: usize = 8;
    while j < 8 + n
        invariant
            8 <= j <= 8 + n,
            8 + n <= data@.len(),
            hexv@ == data@.subrange(8, j as int),
            forall|k: int| 0 <= k < hexv@.len() ==> is_hex_digit(#[trigger] hexv@[k]),
        decreases 8 + n - j,
    {
        let b = data[j];
        if !hex_digit_check(b) {
            proof {
                assert(hex[j - 8] == data@[j as int]);
            }
            return Err(DecodeError::BadHexDigit);
        }
        hexv.push(b);
        proof {
            assert(hexv@ =~= data@.subrange(8, j + 1));
        }
        j = j + 1;
    }
    proof {
        assert(hexv@ == hex);
        assert(all_hex(hex));
    }
    let mut keyv: Vec<u8> = Vec::new();
    let mut k: usize = 8 + n;
    while k < data.len()
        invariant
            8 + n <= k <= data@.len(),
            keyv@ == data@.subrange(8 + n as int, k as int),
        decreases data@.len() - k,
    {
        keyv.push(data[k]);
        proof {
            assert(keyv@ =~= data@.subrange(8 + n as int, k + 1));
        }
        k = k + 1;
    }
    proof {
        assert(keyv@ == key);
    }
    if !check_key(keyv.as_slice()) {
        return Err(DecodeError::BadKey);
    }
    let c = match Ciphertext::from_hex(hexv) {
        Some(c) => c,
        None => {
            return Err(DecodeError::BadHexDigit);  // cannot happen: every byte was checked
        },
    };
    Ok(WireMessage { key: EncryptionKey::from_bytes(keyv), c })
}

/// Decoding undoes encoding: the framing recovers the hex text and the key
/// bytes exactly, and when the key bytes are a usable key the whole decoder
/// accepts the message.
pub proof fn lemma_codec_round_trip(hex: Seq<u8>, key: Seq<u8>)
    requires
        hex.len() > 0,
        hex.len() <= u64::MAX,
        all_hex(hex),
    ensures
        frame_split(spec_encode(hex, key)) == Ok::<(Seq<u8>, Seq<u8>), DecodeError>((hex, key)),
        key_parse_ok(key) ==> decode_spec(spec_encode(hex, key)) == Ok::<
            (Seq<u8>, Seq<u8>),
            DecodeError,
        >((hex, key)),
{
    lemma_auto_spec_u64_to_from_le_bytes();
    let d = spec_encode(hex, key);
    assert(d.subrange(0, 8) =~= spec_u64_to_le_bytes(hex.len() as u64));
    assert(spec_u64_from_le_bytes(d.subrange(0, 8)) == hex.len());
    let n = spec_u64_from_le_bytes(d.subrange(0, 8)) as int;
    assert(d.subrange(8, 8 + n) =~= hex);
    assert(d.subrange(8 + n, d.len() as int) =~= key);
    assert forall|i: int| 0 <= i < hex.len() implies (#[trigger] hex[i]) < 0x80 by {
        assert(is_hex_digit(hex[i]));
    }
}

} // verus!
