//! Big-endian encoding of 32-bit integers as 4-byte sequences, with the
//! round-trip lemmas the chunk codec needs.

use vstd::prelude::*;
use vstd::assert_seqs_equal;

verus! {

/// The big-endian 4-byte encoding of `x`.
pub open spec fn spec_u32_to_be_bytes(x: u32) -> Seq<u8> {
    seq![
        ((x >> 24) & 0xff) as u8,
        ((x >> 16) & 0xff) as u8,
        ((x >> 8) & 0xff) as u8,
        (x & 0xff) as u8,
    ]
}

/// The 32-bit value whose big-endian encoding is `s` (meaningful when
/// `s.len() == 4`).
pub open spec fn spec_u32_from_be_bytes(s: Seq<u8>) -> u32
    recommends
        s.len() == 4,
{
    ((s[0] as u32) << 24) | ((s[1] as u32) << 16) | ((s[2] as u32) << 8) | (s[3] as u32)
}

/// Encoding inverts decoding on 4-byte sequences.
pub proof fn lemma_u32_to_from_be_bytes(s: Seq<u8>)
    requires
        s.len() == 4,
    ensures
        spec_u32_to_be_bytes(spec_u32_from_be_bytes(s)) == s,
{
    let x = spec_u32_from_be_bytes(s);
    let s0 = s[0] as u32;
    let s1 = s[1] as u32;
    let s2 = s[2] as u32;
    let s3 = s[3] as u32;
    assert(((x == s0 << 24 | s1 << 16 | s2 << 8 | s3) && s0 < 256 && s1 < 256 && s2 < 256 && s3
        < 256) ==> s0 == (x >> 24) & 0xff && s1 == (x >> 16) & 0xff && s2 == (x >> 8) & 0xff && s3
        == x & 0xff) by (bit_vector);
    assert_seqs_equal!(spec_u32_to_be_bytes(spec_u32_from_be_bytes(s)) == s);
}

/// Reads a big-endian `u32` out of the first four bytes of `s`.
pub fn u32_from_be_bytes(s: &Vec<u8>) -> (x: u32)
    requires
        s@.len() == 4,
    ensures
        x == spec_u32_from_be_bytes(s@),
{
    let b0 = s[0] as u32;
    let b1 = s[1] as u32;
    let b2 = s[2] as u32;
    let b3 = s[3] as u32;
    (b0 << 24) | (b1 << 16) | (b2 << 8) | b3
}

/// Writes `x` as four big-endian bytes.
pub fn u32_to_be_bytes(x: u32) -> (s: Vec<u8>)
    ensures
        s@ == spec_u32_to_be_bytes(x),
{
    proof {
        assert({
            &&& (x >> 24) & 0xff < 256
            &&& (x >> 16) & 0xff < 256
            &&& (x >> 8) & 0xff < 256
            &&& x & 0xff < 256
        }) by (bit_vector);
    }
    let b0 = ((x >> 24) & 0xff) as u8;
    let b1 = ((x >> 16) & 0xff) as u8;
    let b2 = ((x >> 8) & 0xff) as u8;
    let b3 = (x & 0xff) as u8;
    let mut s: Vec<u8> = Vec::new();
    s.push(b0);
    s.push(b1);
    s.push(b2);
    s.push(b3);
    proof {
        assert_seqs_equal!(s@ == spec_u32_to_be_bytes(x));
    }
    s
}

/// Reads a big-endian `u32` out of a 4-byte array.
pub fn u32_from_be_array(s: &[u8; 4]) -> (x: u32)
    ensures
        x == spec_u32_from_be_bytes(s@),
{
    let b0 = s[0] as u32;
    let b1 = s[1] as u32;
    let b2 = s[2] as u32;
    let b3 = s[3] as u32;
    (b0 << 24) | (b1 << 16) | (b2 << 8) | b3
}

/// Writes `x` as a 4-byte big-endian array.
pub fn u32_to_be_array(x: u32) -> (s: [u8; 4])
    ensures
        s@ == spec_u32_to_be_bytes(x),
{
    proof {
        assert({
            &&& (x >> 24) & 0xff < 256
            &&& (x >> 16) & 0xff < 256
            &&& (x >> 8) & 0xff < 256
            &&& x & 0xff < 256
        }) by (bit_vector);
    }
    let s = [((x >> 24) & 0xff) as u8, ((x >> 16) & 0xff) as u8, ((x >> 8) & 0xff) as u8, (x
        & 0xff) as u8];
    proof {
        assert_seqs_equal!(s@ == spec_u32_to_be_bytes(x));
    }
    s
}

} // verus!
