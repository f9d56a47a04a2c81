//! SHA-256 digests in hexadecimal notation.

use crate::text::{byte_length, is_hex_digit};
use sha2::{Digest, Sha256};
use vstd::prelude::*;
use vstd::utf8::is_ascii_chars_encode_utf8;

verus! {

/// The digits of a digest in hexadecimal notation.
pub const DIGEST_TEXT: usize = 64;

/// The SHA-256 digest of a message.
pub uninterp spec fn sha256(message: Seq<u8>) -> Seq<u8>;

/// `sha2::Sha256::digest`: the digest of `message`, thirty-two bytes long.
#[verifier::external_body]
fn sha256_digest(message: &[u8]) -> (digest: Vec<u8>)
    ensures
        digest@ == sha256(message@),
        digest@.len() == 32,
{
    Sha256::digest(message).to_vec()
}

/// The small hexadecimal digit of a value below sixteen.
pub open spec fn hex_char(value: u8) -> char {
    if value < 10 {
        ('0' as u32 + value) as char
    } else {
        ('a' as u32 + (value - 10)) as char
    }
}

/// Two hexadecimal digits for each byte, the high half first.
pub open spec fn hex_text(bytes: Seq<u8>) -> Seq<char> {
    Seq::new(
        2 * bytes.len(),
        |i: int|
            if i % 2 == 0 {
                hex_char(bytes[i / 2] / 16)
            } else {
                hex_char(bytes[i / 2] % 16)
            },
    )
}

/// The digest of `message` in hexadecimal notation.
pub open spec fn sha256_text(message: Seq<u8>) -> Seq<char> {
    hex_text(sha256(message))
}

fn hex_digit_of(value: u8) -> (c: char)
    requires
        value < 16,
    ensures
        c == hex_char(value),
{
    if value < 10 {
        (48u8 + value) as char
    } else {
        (97u8 + (value - 10)) as char
    }
}

/// Two small hexadecimal digits for each byte.
pub fn hex(bytes: &[u8]) -> (text: String)
    ensures
        text@ == hex_text(bytes@),
{
    let mut text = String::new();
    for index in 0..bytes.len()
        invariant
            text@ == hex_text(bytes@.take(index as int)),
    {
        let ghost before = text@;
        let byte = bytes[index];
        text.push(hex_digit_of(byte / 16));
        text.push(hex_digit_of(byte % 16));
        proof {
            let next = hex_text(bytes@.take(index + 1));
            assert(next.len() == before.len() + 2);
            assert forall|i: int| 0 <= i < next.len() implies text@[i] == next[i] by {
                if i < before.len() {
                    assert(0 <= i / 2 < index);
                    assert(bytes@.take(index + 1)[i / 2] == bytes@.take(index as int)[i / 2]);
                } else {
                    assert(i / 2 == index);
                }
            }
            assert(text@ == next);
        }
    }
    assert(bytes@.take(bytes@.len() as int) == bytes@);
    text
}

/// Hexadecimal notation takes one byte for each digit.
pub proof fn lemma_hex_text(bytes: Seq<u8>)
    ensures
        byte_length(hex_text(bytes)) == 2 * bytes.len(),
        forall|i: int|
            0 <= i < hex_text(bytes).len() ==> is_hex_digit(#[trigger] hex_text(bytes)[i]),
{
    let text = hex_text(bytes);
    assert forall|i: int| 0 <= i < text.len() implies is_hex_digit(#[trigger] text[i]) && (
    text[i] as nat) < 128 by {
        assert(0 <= i / 2 < bytes.len());
        assert(bytes[i / 2] / 16 < 16);
    }
    is_ascii_chars_encode_utf8(text);
}

/// The SHA-256 digest of `buffer` in hexadecimal notation.
pub fn full_sha256(buffer: &[u8]) -> (text: String)
    ensures
        text@ == sha256_text(buffer@),
        text@.len() == DIGEST_TEXT,
        byte_length(text@) == DIGEST_TEXT,
{
    let digest = sha256_digest(buffer);
    proof {
        lemma_hex_text(digest@);
    }
    hex(digest.as_slice())
}

} // verus!
