//! Conversions between bytes, nibbles and hexadecimal text.
//!
//! A nibble is a 4-bit value (0..=15). A 32-byte chunk expands to 64
//! nibbles, high nibble of each byte first; packing is the inverse,
//! truncated or zero-extended to the digest width.

use vstd::prelude::*;

verus! {

/// Every entry of the sequence fits in four bits.
pub open spec fn valid_nibbles(s: Seq<u8>) -> bool {
    forall|i: int| 0 <= i < s.len() ==> s[i] < 16
}

/// The nibble sequence of each key layer, layer by layer.
pub open spec fn layers_model(layers: Seq<Vec<u8>>) -> Seq<Seq<u8>> {
    Seq::new(layers.len(), |i: int| layers[i]@)
}

/// Nibble expansion of a 32-byte chunk: for each byte the high nibble
/// comes first, then the low nibble, preserving byte order.
pub open spec fn spec_unpack(chunk: Seq<u8>) -> Seq<u8> {
    Seq::new(
        64,
        |i: int|
            if i % 2 == 0 {
                (chunk[i / 2] >> 4) & 0x0F
            } else {
                chunk[i / 2] & 0x0F
            },
    )
}

/// Pack nibbles back into `size / 8` bytes: byte `i` combines nibble `2i`
/// (high four bits) with nibble `2i + 1` (low four bits); positions past
/// the end of the nibble array read as zero.
pub open spec fn spec_pack(hm: Seq<u8>, size: nat) -> Seq<u8> {
    Seq::new(
        size / 8,
        |i: int|
            if 2 * i < hm.len() {
                if 2 * i + 1 < hm.len() {
                    (hm[2 * i] << 4) | hm[2 * i + 1]
                } else {
                    hm[2 * i] << 4
                }
            } else {
                0u8
            },
    )
}

/// Split a 32-byte chunk into 64 nibbles, high nibble of each byte first.
pub fn unpack(chunk: &[u8]) -> (r: Vec<u8>)
    requires
        chunk@.len() == 32,
    ensures
        r@ == spec_unpack(chunk@),
        r@.len() == 64,
        valid_nibbles(r@),
{
    let mut r: Vec<u8> = Vec::new();
    let mut i: usize = 0;
    while i < 32
        invariant
            chunk@.len() == 32,
            i <= 32,
            r@.len() == 2 * i,
            forall|j: int| 0 <= j < 2 * i ==> r@[j] == spec_unpack(chunk@)[j],
        decreases 32 - i,
    {
        let b = chunk[i];
        r.push((b >> 4) & 0x0F);
        r.push(b & 0x0F);
        i = i + 1;
    }
    proof {
        assert(r@ =~= spec_unpack(chunk@));
        lemma_unpack_valid(chunk@);
    }
    r
}

/// The nibbles produced by `spec_unpack` are in range.
pub proof fn lemma_unpack_valid(chunk: Seq<u8>)
    ensures
        valid_nibbles(spec_unpack(chunk)),
{
    assert forall|i: int| 0 <= i < spec_unpack(chunk).len() implies spec_unpack(chunk)[i]
        < 16 by {
        let b = chunk[i / 2];
        assert(((b >> 4) & 0x0F) < 16 && (b & 0x0F) < 16) by (bit_vector);
    }
}

/// Pack a nibble array into `size / 8` bytes.
pub fn pack(hm: &Vec<u8>, size: usize) -> (r: Vec<u8>)
    ensures
        r@ == spec_pack(hm@, size as nat),
        r@.len() == size / 8,
{
    let n = size / 8;
    let mut r: Vec<u8> = Vec::new();
    let mut i: usize = 0;
    while i < n
        invariant
            n == size / 8,
            i <= n,
            r@.len() == i,
            forall|j: int| 0 <= j < i ==> r@[j] == spec_pack(hm@, size as nat)[j],
        decreases n - i,
    {
        proof {
            assert(i < n && n * 8 <= size) by (nonlinear_arith)
                requires
                    i < n,
                    n == size / 8,
            ;
        }
        let b: u8 = if 2 * i < hm.len() {
            if 2 * i + 1 < hm.len() {
                (hm[2 * i] << 4) | hm[2 * i + 1]
            } else {
                hm[2 * i] << 4
            }
        } else {
            0u8
        };
        r.push(b);
        i = i + 1;
    }
    proof {
        assert(r@ =~= spec_pack(hm@, size as nat));
    }
    r
}

/// The lowercase hexadecimal digit for a value below 16.
pub open spec fn hex_digit_char(n: u8) -> char {
    if n < 10 {
        ((('0' as u8) + n) as u8) as char
    } else {
        ((('a' as u8) + n - 10) as u8) as char
    }
}

/// Lowercase hexadecimal rendering of a byte sequence, two digits per
/// byte, high nibble first.
pub open spec fn hex_chars(bytes: Seq<u8>) -> Seq<char> {
    Seq::new(
        2 * bytes.len(),
        |i: int|
            if i % 2 == 0 {
                hex_digit_char((bytes[i / 2] >> 4) & 0x0F)
            } else {
                hex_digit_char(bytes[i / 2] & 0x0F)
            },
    )
}

/// Relies on hex::encode: it renders each byte as two lowercase
/// hexadecimal digits, high nibble first, preserving byte order.
#[verifier::external_body]
pub(crate) fn hex_encode_bytes(b: &Vec<u8>) -> (r: String)
    ensures
        r@ == hex_chars(b@),
{
    hex::encode(b.as_slice())
}

} // verus!
