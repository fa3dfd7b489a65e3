//! Program image decoding: a raw byte buffer becomes a sequence of
//! little-endian 16-bit words by pairing consecutive bytes, low byte first.
//! A dangling trailing byte of an odd-length image is dropped.

use vstd::prelude::*;

verus! {

/// The words encoded by a byte buffer: byte 2*i is the low byte of word i,
/// byte 2*i + 1 the high byte.  An odd trailing byte contributes no word.
pub open spec fn words_of(bytes: Seq<u8>) -> Seq<u16> {
    Seq::new((bytes.len() / 2) as nat, |i: int| (bytes[2 * i] + 256 * bytes[2 * i + 1]) as u16)
}

/// Decode a program image into its word sequence.
pub fn decode_image(bytes: &[u8]) -> (r: Vec<u16>)
    ensures
        r@ == words_of(bytes@),
{
    let len: usize = bytes.len();
    let n: usize = len / 2;
    let mut r: Vec<u16> = Vec::new();
    let mut i: usize = 0;
    while i < n
        invariant
            len == bytes@.len(),
            n == bytes@.len() / 2,
            i <= n,
            r@ == words_of(bytes@).take(i as int),
        decreases n - i,
    {
        let lo = bytes[2 * i];
        let hi = bytes[2 * i + 1];
        let w: u16 = lo as u16 + 256 * (hi as u16);
        r.push(w);
        proof {
            assert(r@ =~= words_of(bytes@).take(i + 1));
        }
        i += 1;
    }
    proof {
        assert(words_of(bytes@).take(n as int) =~= words_of(bytes@));
    }
    r
}

} // verus!
