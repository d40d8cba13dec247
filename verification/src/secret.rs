use vstd::prelude::*;

use crate::codec::{untransform_byte, untransformed_bytes, encode_byte};

verus! {

// Re-encoding of a decoded secret so it can be handed to a child process as
// a command-line argument without exposing the plaintext: the secret is laid
// out as UTF-16 little-endian bytes, every byte goes through the encoding
// transform, and the result is base64-encoded.

/// The UTF-16 little-endian byte layout of a character sequence.
pub uninterp spec fn utf16_le_bytes(s: Seq<char>) -> Seq<u8>;

/// Relies on str::encode_utf16: every character becomes one or two 16-bit
/// units, laid out here as little-endian byte pairs; the result depends on
/// the characters alone.
#[verifier::external_body]
fn encode_utf16_le(s: &str) -> (r: Vec<u8>)
    ensures
        r@ == utf16_le_bytes(s@),
        r@.len() % 2 == 0,
        2 * s@.len() <= r@.len() <= 4 * s@.len(),
{
    s.encode_utf16().flat_map(|unit| unit.to_le_bytes()).collect()
}

/// The base64 text (standard alphabet, padded) of a byte sequence.
pub uninterp spec fn base64_standard(bytes: Seq<u8>) -> Seq<char>;

/// Relies on base64's STANDARD engine: the padded encoding emits four
/// characters for every started group of three input bytes, and depends on
/// the bytes alone.
#[verifier::external_body]
fn base64_encode(bytes: &Vec<u8>) -> (r: String)
    ensures
        r@ == base64_standard(bytes@),
        r@.len() == 4 * ((bytes@.len() + 2) / 3),
{
    base64::Engine::encode(&base64::engine::general_purpose::STANDARD, bytes)
}

/// What `encode_secret` produces: base64 over the per-byte encoding
/// transform of the UTF-16 little-endian layout of the secret.
pub open spec fn encoded_secret(s: Seq<char>) -> Seq<char> {
    base64_standard(untransformed_bytes(utf16_le_bytes(s)))
}

/// Re-encodes a plaintext secret for transport on a command line. The
/// result is never empty for a non-empty secret.
pub fn encode_secret(decoded_secret: &str) -> (r: String)
    ensures
        r@ == encoded_secret(decoded_secret@),
        decoded_secret@.len() > 0 ==> r@.len() > 0,
{
    let utf16_bytes = encode_utf16_le(decoded_secret);
    let n = utf16_bytes.len();
    let mut encoded: Vec<u8> = Vec::new();
    let mut i: usize = 0;
    while i < n
        invariant
            n == utf16_bytes@.len(),
            0 <= i <= n,
            encoded@.len() == i,
            forall|j: int| 0 <= j < i ==> encoded@[j] == untransform_byte(utf16_bytes@[j]),
        decreases n - i,
    {
        encoded.push(encode_byte(utf16_bytes[i]));
        i = i + 1;
    }
    proof {
        assert(encoded@ =~= untransformed_bytes(utf16_bytes@));
    }
    base64_encode(&encoded)
}

} // verus!
