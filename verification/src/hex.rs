//! Base-16 ASCII text for non-negative arbitrary-precision integers.
//!
//! Ciphertexts travel over the wire as hex text, and the local scalar terms
//! are held in the same form, so the meaning of a digit string is the anchor
//! of every contract in this crate: `hex_value` maps a sequence of digit
//! bytes to the natural number it denotes.

use vstd::prelude::*;

verus! {

/// True of the ASCII bytes that `hex_value` understands: the decimal digits
/// and the letters `a`..`f` in either case.
pub open spec fn is_hex_digit(b: u8) -> bool {
    (48 <= b && b <= 57) || (97 <= b && b <= 102) || (65 <= b && b <= 70)
}

/// Numeric weight of one digit byte.
pub open spec fn hex_digit_val(b: u8) -> nat {
    if 48 <= b && b <= 57 {
        (b - 48) as nat
    } else if 97 <= b && b <= 102 {
        (b - 97 + 10) as nat
    } else if 65 <= b && b <= 70 {
        (b - 65 + 10) as nat
    } else {
        0
    }
}

pub open spec fn all_hex(s: Seq<u8>) -> bool {
    forall|i: int| 0 <= i < s.len() ==> is_hex_digit(#[trigger] s[i])
}

/// The lowercase alphabet in which this crate writes hex text: the wire
/// payload carries lowercase digits only, though the decoder accepts both
/// cases.
pub open spec fn is_lower_hex_digit(b: u8) -> bool {
    (48 <= b && b <= 57) || (97 <= b && b <= 102)
}

pub open spec fn lower_hex(s: Seq<u8>) -> bool {
    forall|i: int| 0 <= i < s.len() ==> is_lower_hex_digit(#[trigger] s[i])
}

/// The natural number denoted by a big-endian digit string; the empty
/// string denotes zero.
pub open spec fn hex_value(s: Seq<u8>) -> nat
    decreases s.len(),
{
    if s.len() == 0 {
        0
    } else {
        hex_value(s.drop_last()) * 16 + hex_digit_val(s.last())
    }
}

pub fn hex_digit_check(b: u8) -> (r: bool)
    ensures
        r == is_hex_digit(b),
{
    (48 <= b && b <= 57) || (97 <= b && b <= 102) || (65 <= b && b <= 70)
}

/// Runtime counterpart of `all_hex`.
pub fn check_hex(s: &[u8]) -> (r: bool)
    ensures
        r == all_hex(s@),
{
    let mut i: usize = 0;
    while i < s.len()
        invariant
            0 <= i <= s@.len(),
            forall|j: int| 0 <= j < i ==> is_hex_digit(#[trigger] s@[j]),
        decreases s@.len() - i,
    {
        if !hex_digit_check(s[i]) {
            return false;
        }
        i = i + 1;
    }
    true
}

fn digit_byte(d: u64) -> (r: u8)
    requires
        d < 16,
    ensures
        is_hex_digit(r),
        is_lower_hex_digit(r),
        hex_digit_val(r) == d,
        d > 0 ==> r != 48,
{
    if d < 10 {
        48 + (d as u8)
    } else {
        97 + ((d - 10) as u8)
    }
}

/// Lowercase big-endian digits of `x`, without leading zeros; zero is the
/// single digit `0`.  This is the same text `BigInt::to_str_radix(16)`
/// produces for values this small.
pub fn u64_to_hex(x: u64) -> (r: Vec<u8>)
    ensures
        r@.len() > 0,
        all_hex(r@),
        lower_hex(r@),
        hex_value(r@) == x,
        x > 0 ==> r@[0] != 48,
    decreases x,
{
    if x < 16 {
        let mut r: Vec<u8> = Vec::new();
        r.push(digit_byte(x));
        proof {
            assert(hex_value(Seq::<u8>::empty()) == 0);
            assert(r@.drop_last() =~= Seq::<u8>::empty());
            assert(hex_value(r@) == hex_value(r@.drop_last()) * 16 + hex_digit_val(r@.last()));
        }
        r
    } else {
        let mut r = u64_to_hex(x / 16);
        let d = digit_byte(x % 16);
        proof {
            assert(r@.push(d).drop_last() == r@);
        }
        r.push(d);
        r
    }
}

/// A prefix of a digit string never denotes more than the whole string.
pub proof fn lemma_hex_prefix_le(s: Seq<u8>, i: int)
    requires
        0 <= i <= s.len(),
    ensures
        hex_value(s.take(i)) <= hex_value(s),
    decreases s.len() - i,
{
    if i < s.len() {
        assert(s.take(i + 1).drop_last() == s.take(i));
        assert(hex_value(s.take(i + 1)) == hex_value(s.take(i)) * 16 + hex_digit_val(
            s.take(i + 1).last(),
        ));
        lemma_hex_prefix_le(s, i + 1);
    } else {
        assert(s.take(i) == s);
    }
}

/// The denoted value of a digit string, when it fits in a machine word;
/// `None` exactly when it does not.
pub fn hex_to_u64(s: &[u8]) -> (r: Option<u64>)
    requires
        all_hex(s@),
    ensures
        match r {
            Some(v) => v == hex_value(s@),
            None => hex_value(s@) > u64::MAX,
        },
{
    let mut acc: u64 = 0;
    let mut i: usize = 0;
    while i < s.len()
        invariant
            0 <= i <= s@.len(),
            all_hex(s@),
            acc == hex_value(s@.take(i as int)),
        decreases s@.len() - i,
    {
        let d: u64 = digit_val_exec(s[i]);
        proof {
            assert(s@.take(i + 1).drop_last() == s@.take(i as int));
            assert(s@.take(i + 1).last() == s@[i as int]);
        }
        if acc > (u64::MAX - d) / 16 {
            proof {
                lemma_hex_prefix_le(s@, i + 1);
            }
            return None;
        }
        acc = acc * 16 + d;
        i = i + 1;
    }
    proof {
        assert(s@.take(s@.len() as int) == s@);
    }
    Some(acc)
}

fn digit_val_exec(b: u8) -> (r: u64)
    requires
        is_hex_digit(b),
    ensures
        r == hex_digit_val(b),
        r < 16,
{
    if 48 <= b && b <= 57 {
        (b - 48) as u64
    } else if 97 <= b && b <= 102 {
        (b - 97 + 10) as u64
    } else {
        (b - 65 + 10) as u64
    }
}

} // verus!

