//! Doubles and digests: what their bits and digits stand for.

use crate::binary64::{
    double_at, lemma_scaled_magnitude_grows, little_endian, scaled_magnitude, Binary32, Binary64,
};
use crate::digest::{hex_text, sha256, sha256_text};
use crate::laws::images::stores;
use crate::manual::signed_word;
use vstd::prelude::*;

verus! {

/// A double is finite unless its exponent bits are all set, and then it is NaN unless its fraction
/// is zero.
pub proof fn lemma_special_doubles(value: Binary64)
    ensures
        value.finite() <==> (value.bits / 0x10_0000_0000_0000) % 0x800 != 0x7ff,
        value.nan() <==> (value.bits / 0x10_0000_0000_0000) % 0x800 == 0x7ff && value.bits
            % 0x10_0000_0000_0000 != 0,
{
    let exponent = value.bits / 0x10_0000_0000_0000;
    let fraction = value.bits % 0x10_0000_0000_0000;
    assert(value.bits == exponent * 0x10_0000_0000_0000 + fraction);
    assert(exponent < 0x1000);
    if exponent >= 0x800 {
        assert(exponent % 0x800 == exponent - 0x800);
    }
}

/// Doubles other than NaN are ordered by their signs, then by the rest of their bits, backwards
/// below zero; the two zeros are equal, and NaN is neither below, above nor equal to anything.
pub proof fn lemma_doubles_in_order(left: Binary64, right: Binary64)
    ensures
        left.nan() || right.nan() ==> !left.below(right) && !left.equals(right),
        !left.nan() && !right.nan() ==> {
            let minus = 0x8000_0000_0000_0000u64;
            &&& left.below(right) <==> if left.bits < minus {
                right.bits < minus && left.bits < right.bits
            } else if right.bits < minus {
                left.bits > minus || right.bits > 0
            } else {
                left.bits > right.bits
            }
            &&& left.equals(right) <==> left.bits == right.bits || (left.bits == 0 && right.bits
                == minus) || (left.bits == minus && right.bits == 0)
        },
{
    let low = left.magnitude();
    let high = right.magnitude();
    assert(scaled_magnitude(0) == 0);
    if low < high {
        lemma_scaled_magnitude_grows(low, high);
    }
    if high < low {
        lemma_scaled_magnitude_grows(high, low);
    }
    if 0 < low {
        lemma_scaled_magnitude_grows(0, low);
    }
    if 0 < high {
        lemma_scaled_magnitude_grows(0, high);
    }
}

/// A single is finite unless its exponent bits are all set.
pub proof fn lemma_special_singles(value: Binary32)
    ensures
        value.finite() <==> (value.bits / 0x80_0000) % 0x100 != 0xff,
{
}

/// A double is stored with its lowest byte first.
pub proof fn lemma_stored_doubles(image: Seq<u8>, at: int, value: Binary64)
    requires
        0 <= at,
        at + 8 <= image.len(),
    ensures
        stores(image, at, value) <==> double_at(image, at) == value,
{
    let bytes = image.subrange(at, at + 8);
    assert(forall|i: int| 0 <= i < 8 ==> bytes[i] == image[at + i]);
    assert(little_endian(bytes) < 0x1_0000_0000_0000_0000);
}

/// Two bytes, the low one first, make a number between -32768 and 32767.
pub proof fn lemma_signed_words(bytes: Seq<u8>, at: int)
    ensures
        -32768 <= signed_word(bytes, at) <= 32767,
        signed_word(bytes, at) == bytes[at] + 256 * bytes[at + 1] || signed_word(bytes, at)
            == bytes[at] + 256 * bytes[at + 1] - 65536,
{
}

/// The value of a small hexadecimal digit.
pub open spec fn digit_of(c: char) -> int {
    if '0' <= c <= '9' {
        c as u32 - 48
    } else {
        c as u32 - 87
    }
}

/// A digest in hexadecimal notation has two digits for each byte, the high half first.
pub proof fn lemma_hexadecimal_digests(bytes: Seq<u8>)
    ensures
        hex_text(bytes).len() == 2 * bytes.len(),
        forall|i: int|
            0 <= i < bytes.len() ==> #[trigger] bytes[i] == 16 * digit_of(hex_text(bytes)[2 * i])
                + digit_of(hex_text(bytes)[2 * i + 1]),
        forall|i: int|
            0 <= i < hex_text(bytes).len() ==> ('0' <= #[trigger] hex_text(bytes)[i] <= '9' || 'a'
                <= hex_text(bytes)[i] <= 'f'),
{
    let text = hex_text(bytes);
    assert forall|i: int| 0 <= i < bytes.len() implies #[trigger] bytes[i] == 16 * digit_of(
        text[2 * i],
    ) + digit_of(text[2 * i + 1]) by {
        assert((2 * i) / 2 == i && (2 * i + 1) / 2 == i);
        assert((2 * i) % 2 == 0 && (2 * i + 1) % 2 == 1);
    }
    assert forall|i: int| 0 <= i < text.len() implies ('0' <= #[trigger] text[i] <= '9' || 'a'
        <= text[i] <= 'f') by {
        assert(0 <= i / 2 < bytes.len());
        assert(bytes[i / 2] / 16 < 16);
    }
}

/// The digest of a message is written with every one of its bytes.
pub proof fn lemma_written_digests(message: Seq<u8>, i: int)
    requires
        0 <= i < sha256(message).len(),
    ensures
        sha256_text(message).len() == 2 * sha256(message).len(),
        sha256(message)[i] == 16 * digit_of(sha256_text(message)[2 * i]) + digit_of(
            sha256_text(message)[2 * i + 1],
        ),
{
    lemma_hexadecimal_digests(sha256(message));
}

} // verus!
