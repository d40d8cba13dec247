use vstd::prelude::*;

verus! {

// The reversible per-byte obfuscation transform applied to credential bytes.
//
// Decoding a stored byte rotates it one bit to the right (the lowest bit
// wraps around to the highest) and then inverts every bit. Encoding is the
// exact inverse: invert every bit, then rotate one bit to the left.

/// The decoding transform: rotate right by one bit, then invert.
pub open spec fn transform_byte(b: u8) -> u8 {
    !((b >> 1) | ((b & 1) << 7))
}

/// The encoding transform, the inverse of `transform_byte`: invert, then
/// rotate left by one bit.
pub open spec fn untransform_byte(b: u8) -> u8 {
    ((!b) << 1) | (((!b) >> 7) & 1)
}

/// The two per-byte transforms are exact inverses of each other, on every
/// byte value.
pub proof fn lemma_byte_transform_round_trip(b: u8)
    ensures
        untransform_byte(transform_byte(b)) == b,
        transform_byte(untransform_byte(b)) == b,
{
    assert(((!(!((b >> 1) | ((b & 1) << 7)))) << 1) | (((!(!((b >> 1) | ((b & 1) << 7))))
        >> 7) & 1) == b) by (bit_vector);
    assert(!(((((!b) << 1) | (((!b) >> 7) & 1)) >> 1) | (((((!b) << 1) | (((!b) >> 7) & 1)) & 1)
        << 7)) == b) by (bit_vector);
}

/// The byte sequence recovered from an encoded block: every second byte is a
/// zero placeholder and is discarded, and the retained bytes go through the
/// decoding transform. An odd trailing byte with no placeholder after it is
/// dropped.
pub open spec fn decoded_bytes(enc: Seq<u8>) -> Seq<u8> {
    Seq::new((enc.len() / 2) as nat, |j: int| transform_byte(enc[2 * j]))
}

/// The encoding transform applied to every byte of a sequence.
pub open spec fn untransformed_bytes(bytes: Seq<u8>) -> Seq<u8> {
    bytes.map(|i: int, b: u8| untransform_byte(b))
}

/// An encoded block built from a plain byte sequence: each byte goes through
/// the encoding transform and is followed by a zero placeholder byte.
pub open spec fn paired_encoding(s: Seq<u8>) -> Seq<u8> {
    Seq::new(2 * s.len(), |i: int| if i % 2 == 0 { untransform_byte(s[i / 2]) } else { 0u8 })
}

/// Decoding an encoded block built by pairing each encoded byte with a zero
/// placeholder recovers the plain byte sequence it was built from.
pub proof fn lemma_paired_encoding_decodes(s: Seq<u8>)
    ensures
        decoded_bytes(paired_encoding(s)) == s,
{
    let enc = paired_encoding(s);
    assert(enc.len() == 2 * s.len());
    assert forall|j: int| 0 <= j < s.len() implies decoded_bytes(enc)[j] == s[j] by {
        assert((2 * j) % 2 == 0);
        assert((2 * j) / 2 == j);
        assert(enc[2 * j] == untransform_byte(s[j]));
        lemma_byte_transform_round_trip(s[j]);
    }
    assert(decoded_bytes(enc) =~= s);
}

/// Applies the decoding transform to one stored byte.
pub fn decode_byte(b: u8) -> (r: u8)
    ensures
        r == transform_byte(b),
{
    let lsb = b & 1;
    let rotated = (b >> 1) | (lsb << 7);
    !rotated
}

/// Applies the encoding transform to one plain byte.
pub fn encode_byte(b: u8) -> (r: u8)
    ensures
        r == untransform_byte(b),
{
    let inverted = !b;
    (inverted << 1) | ((inverted >> 7) & 1)
}

/// Recovers the plain bytes from an encoded block: drops every second byte
/// (the zero placeholders) and applies the decoding transform to the rest.
pub fn decode_byte_array(encoded_bytes: &[u8]) -> (r: Vec<u8>)
    ensures
        r@ == decoded_bytes(encoded_bytes@),
{
    let n = encoded_bytes.len();
    let mut result: Vec<u8> = Vec::new();
    let mut i: usize = 0;
    while i + 1 < n
        invariant
            n == encoded_bytes@.len(),
            i % 2 == 0,
            i <= n,
            result@.len() == i / 2,
            forall|j: int| 0 <= j < result@.len() ==> result@[j] == transform_byte(
                encoded_bytes@[2 * j],
            ),
        decreases n - i,
    {
        result.push(decode_byte(encoded_bytes[i]));
        i = i + 2;
    }
    proof {
        assert(result@.len() == encoded_bytes@.len() / 2);
        assert(result@ =~= decoded_bytes(encoded_bytes@));
    }
    result
}

} // verus!
