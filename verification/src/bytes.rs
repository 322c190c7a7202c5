//! Big-endian integer fields of the wire format.
//!
//! Every multi-byte integer in an ITCH 5.0 record is big-endian; timestamps
//! are 48-bit. The spec functions below say what a field means as a sequence
//! of bytes, the exec functions read and write those fields, and the lemmas
//! give the encode/decode round trips.

use vstd::prelude::*;

verus! {

/// Value of a 2-byte big-endian field.
pub open spec fn be_u16(s: Seq<u8>) -> u16
    recommends
        s.len() == 2,
{
    (((s[0] as u32) << 8) | (s[1] as u32)) as u16
}

/// Value of a 4-byte big-endian field.
pub open spec fn be_u32(s: Seq<u8>) -> u32 {
    ((s[0] as u32) << 24) | ((s[1] as u32) << 16) | ((s[2] as u32) << 8) | (s[3] as u32)
}

/// Value of a 6-byte big-endian field (48-bit timestamps).
pub open spec fn be_u48(s: Seq<u8>) -> u64 {
    ((s[0] as u64) << 40) | ((s[1] as u64) << 32) | ((s[2] as u64) << 24) | ((s[3] as u64) << 16)
        | ((s[4] as u64) << 8) | (s[5] as u64)
}

/// Value of an 8-byte big-endian field.
pub open spec fn be_u64(s: Seq<u8>) -> u64 {
    ((s[0] as u64) << 56) | ((s[1] as u64) << 48) | ((s[2] as u64) << 40) | ((s[3] as u64) << 32)
        | ((s[4] as u64) << 24) | ((s[5] as u64) << 16) | ((s[6] as u64) << 8) | (s[7] as u64)
}

/// The 2 big-endian bytes of a `u16`.
pub open spec fn u16_be(x: u16) -> Seq<u8> {
    seq![(x >> 8) as u8, x as u8]
}

/// The 4 big-endian bytes of a `u32`.
pub open spec fn u32_be(x: u32) -> Seq<u8> {
    seq![(x >> 24) as u8, (x >> 16) as u8, (x >> 8) as u8, x as u8]
}

/// The 6 big-endian bytes of a 48-bit value.
pub open spec fn u48_be(x: u64) -> Seq<u8>
    recommends
        x < 0x1000000000000,
{
    seq![(x >> 40) as u8, (x >> 32) as u8, (x >> 24) as u8, (x >> 16) as u8, (x >> 8) as u8, x as u8]
}

/// The 8 big-endian bytes of a `u64`.
pub open spec fn u64_be(x: u64) -> Seq<u8> {
    seq![
        (x >> 56) as u8,
        (x >> 48) as u8,
        (x >> 40) as u8,
        (x >> 32) as u8,
        (x >> 24) as u8,
        (x >> 16) as u8,
        (x >> 8) as u8,
        x as u8,
    ]
}

/// Decoding the 2 big-endian bytes of `x` gives back `x`.
pub proof fn lemma_be_u16_round_trip(x: u16)
    ensures
        be_u16(u16_be(x)) == x,
        u16_be(x).len() == 2,
{
    assert((((((x >> 8) as u8) as u32) << 8) | ((x as u8) as u32)) as u16 == x) by (bit_vector);
}

/// Decoding the 4 big-endian bytes of `x` gives back `x`.
pub proof fn lemma_be_u32_round_trip(x: u32)
    ensures
        be_u32(u32_be(x)) == x,
        u32_be(x).len() == 4,
{
    assert(((((x >> 24) as u8) as u32) << 24) | ((((x >> 16) as u8) as u32) << 16) | ((((x
        >> 8) as u8) as u32) << 8) | ((x as u8) as u32) == x) by (bit_vector);
}

/// Decoding the 6 big-endian bytes of a 48-bit `x` gives back `x`.
pub proof fn lemma_be_u48_round_trip(x: u64)
    requires
        x < 0x1000000000000,
    ensures
        be_u48(u48_be(x)) == x,
        u48_be(x).len() == 6,
{
    assert(((((x >> 40) as u8) as u64) << 40) | ((((x >> 32) as u8) as u64) << 32) | ((((x
        >> 24) as u8) as u64) << 24) | ((((x >> 16) as u8) as u64) << 16) | ((((x
        >> 8) as u8) as u64) << 8) | ((x as u8) as u64) == x) by (bit_vector)
        requires
            x < 0x1000000000000,
    ;
}

/// Decoding the 8 big-endian bytes of `x` gives back `x`.
pub proof fn lemma_be_u64_round_trip(x: u64)
    ensures
        be_u64(u64_be(x)) == x,
        u64_be(x).len() == 8,
{
    assert(((((x >> 56) as u8) as u64) << 56) | ((((x >> 48) as u8) as u64) << 48) | ((((x
        >> 40) as u8) as u64) << 40) | ((((x >> 32) as u8) as u64) << 32) | ((((x
        >> 24) as u8) as u64) << 24) | ((((x >> 16) as u8) as u64) << 16) | ((((x
        >> 8) as u8) as u64) << 8) | ((x as u8) as u64) == x) by (bit_vector);
}

/// The 8-byte array whose bytes are `s` (ticker fields).
pub open spec fn seq_to_arr8(s: Seq<u8>) -> [u8; 8] {
    choose|a: [u8; 8]| a@ == s
}

/// The 4-byte array whose bytes are `s` (MPID and reason fields).
pub open spec fn seq_to_arr4(s: Seq<u8>) -> [u8; 4] {
    choose|a: [u8; 4]| a@ == s
}

/// `seq_to_arr8` inverts the view of an 8-byte array.
pub proof fn lemma_seq_to_arr8(a: [u8; 8])
    ensures
        seq_to_arr8(a@) == a,
{
    broadcast use vstd::array::group_array_axioms;

    assert(exists|x: [u8; 8]| x@ == a@) by {
        assert(a@ == a@);
    }
    let x = choose|x: [u8; 8]| x@ == a@;
    assert(x =~= a);
}

/// `seq_to_arr4` inverts the view of a 4-byte array.
pub proof fn lemma_seq_to_arr4(a: [u8; 4])
    ensures
        seq_to_arr4(a@) == a,
{
    broadcast use vstd::array::group_array_axioms;

    assert(exists|x: [u8; 4]| x@ == a@) by {
        assert(a@ == a@);
    }
    let x = choose|x: [u8; 4]| x@ == a@;
    assert(x =~= a);
}

/// Reads the 8-byte field at `off` into an array.
pub fn read_arr8(s: &[u8], off: usize) -> (r: [u8; 8])
    requires
        off + 8 <= s@.len(),
    ensures
        r@ == s@.subrange(off as int, off + 8),
        r == seq_to_arr8(s@.subrange(off as int, off + 8)),
{
    let r = [s[off], s[off + 1], s[off + 2], s[off + 3], s[off + 4], s[off + 5], s[off + 6], s[off
        + 7]];
    proof {
        broadcast use vstd::array::group_array_axioms;

        assert(r@ =~= s@.subrange(off as int, off + 8));
        lemma_seq_to_arr8(r);
    }
    r
}

/// Reads the 4-byte field at `off` into an array.
pub fn read_arr4(s: &[u8], off: usize) -> (r: [u8; 4])
    requires
        off + 4 <= s@.len(),
    ensures
        r@ == s@.subrange(off as int, off + 4),
        r == seq_to_arr4(s@.subrange(off as int, off + 4)),
{
    let r = [s[off], s[off + 1], s[off + 2], s[off + 3]];
    proof {
        broadcast use vstd::array::group_array_axioms;

        assert(r@ =~= s@.subrange(off as int, off + 4));
        lemma_seq_to_arr4(r);
    }
    r
}

/// Appends the 8 bytes of an array field.
pub fn write_arr8(v: &mut Vec<u8>, a: &[u8; 8])
    ensures
        final(v)@ == old(v)@ + a@,
{
    proof {
        broadcast use vstd::array::group_array_axioms;

    }
    v.push(a[0]);
    v.push(a[1]);
    v.push(a[2]);
    v.push(a[3]);
    v.push(a[4]);
    v.push(a[5]);
    v.push(a[6]);
    v.push(a[7]);
    proof {
        assert(final(v)@ =~= old(v)@ + a@);
    }
}

/// Appends the 4 bytes of an array field.
pub fn write_arr4(v: &mut Vec<u8>, a: &[u8; 4])
    ensures
        final(v)@ == old(v)@ + a@,
{
    proof {
        broadcast use vstd::array::group_array_axioms;

    }
    v.push(a[0]);
    v.push(a[1]);
    v.push(a[2]);
    v.push(a[3]);
    proof {
        assert(final(v)@ =~= old(v)@ + a@);
    }
}

/// Reads the 2-byte big-endian field at `off`.
pub fn read_be_u16(s: &[u8], off: usize) -> (r: u16)
    requires
        off + 2 <= s@.len(),
    ensures
        r == be_u16(s@.subrange(off as int, off + 2)),
{
    let b0 = s[off];
    let b1 = s[off + 1];
    let r = (((b0 as u32) << 8) | (b1 as u32)) as u16;
    proof {
        let sub = s@.subrange(off as int, off + 2);
        assert(sub[0] == b0 && sub[1] == b1);
    }
    r
}

/// Reads the 4-byte big-endian field at `off`.
pub fn read_be_u32(s: &[u8], off: usize) -> (r: u32)
    requires
        off + 4 <= s@.len(),
    ensures
        r == be_u32(s@.subrange(off as int, off + 4)),
{
    let b0 = s[off];
    let b1 = s[off + 1];
    let b2 = s[off + 2];
    let b3 = s[off + 3];
    let r = ((b0 as u32) << 24) | ((b1 as u32) << 16) | ((b2 as u32) << 8) | (b3 as u32);
    proof {
        let sub = s@.subrange(off as int, off + 4);
        assert(sub[0] == b0 && sub[1] == b1 && sub[2] == b2 && sub[3] == b3);
    }
    r
}

/// Reads the 6-byte big-endian field at `off`; the result is below 2^48.
pub fn read_be_u48(s: &[u8], off: usize) -> (r: u64)
    requires
        off + 6 <= s@.len(),
    ensures
        r == be_u48(s@.subrange(off as int, off + 6)),
        r < 0x1000000000000,
{
    let b0 = s[off];
    let b1 = s[off + 1];
    let b2 = s[off + 2];
    let b3 = s[off + 3];
    let b4 = s[off + 4];
    let b5 = s[off + 5];
    let r = ((b0 as u64) << 40) | ((b1 as u64) << 32) | ((b2 as u64) << 24) | ((b3 as u64) << 16)
        | ((b4 as u64) << 8) | (b5 as u64);
    proof {
        let sub = s@.subrange(off as int, off + 6);
        assert(sub[0] == b0 && sub[1] == b1 && sub[2] == b2 && sub[3] == b3 && sub[4] == b4
            && sub[5] == b5);
        assert(((b0 as u64) << 40) | ((b1 as u64) << 32) | ((b2 as u64) << 24) | ((
        b3 as u64) << 16) | ((b4 as u64) << 8) | (b5 as u64) < 0x1000000000000) by (bit_vector);
    }
    r
}

/// Reads the 8-byte big-endian field at `off`.
pub fn read_be_u64(s: &[u8], off: usize) -> (r: u64)
    requires
        off + 8 <= s@.len(),
    ensures
        r == be_u64(s@.subrange(off as int, off + 8)),
{
    let b0 = s[off];
    let b1 = s[off + 1];
    let b2 = s[off + 2];
    let b3 = s[off + 3];
    let b4 = s[off + 4];
    let b5 = s[off + 5];
    let b6 = s[off + 6];
    let b7 = s[off + 7];
    let r = ((b0 as u64) << 56) | ((b1 as u64) << 48) | ((b2 as u64) << 40) | ((b3 as u64) << 32)
        | ((b4 as u64) << 24) | ((b5 as u64) << 16) | ((b6 as u64) << 8) | (b7 as u64);
    proof {
        let sub = s@.subrange(off as int, off + 8);
        assert(sub[0] == b0 && sub[1] == b1 && sub[2] == b2 && sub[3] == b3 && sub[4] == b4
            && sub[5] == b5 && sub[6] == b6 && sub[7] == b7);
    }
    r
}

/// Appends the 2 big-endian bytes of `x`.
pub fn write_be_u16(v: &mut Vec<u8>, x: u16)
    ensures
        final(v)@ == old(v)@ + u16_be(x),
{
    v.push((x >> 8) as u8);
    v.push(x as u8);
    proof {
        assert(final(v)@ =~= old(v)@ + u16_be(x));
    }
}

/// Appends the 4 big-endian bytes of `x`.
pub fn write_be_u32(v: &mut Vec<u8>, x: u32)
    ensures
        final(v)@ == old(v)@ + u32_be(x),
{
    v.push((x >> 24) as u8);
    v.push((x >> 16) as u8);
    v.push((x >> 8) as u8);
    v.push(x as u8);
    proof {
        assert(final(v)@ =~= old(v)@ + u32_be(x));
    }
}

/// Appends the 6 big-endian bytes of a 48-bit `x`.
pub fn write_be_u48(v: &mut Vec<u8>, x: u64)
    requires
        x < 0x1000000000000,
    ensures
        final(v)@ == old(v)@ + u48_be(x),
{
    v.push((x >> 40) as u8);
    v.push((x >> 32) as u8);
    v.push((x >> 24) as u8);
    v.push((x >> 16) as u8);
    v.push((x >> 8) as u8);
    v.push(x as u8);
    proof {
        assert(final(v)@ =~= old(v)@ + u48_be(x));
    }
}

/// Appends the 8 big-endian bytes of `x`.
pub fn write_be_u64(v: &mut Vec<u8>, x: u64)
    ensures
        final(v)@ == old(v)@ + u64_be(x),
{
    v.push((x >> 56) as u8);
    v.push((x >> 48) as u8);
    v.push((x >> 40) as u8);
    v.push((x >> 32) as u8);
    v.push((x >> 24) as u8);
    v.push((x >> 16) as u8);
    v.push((x >> 8) as u8);
    v.push(x as u8);
    proof {
        assert(final(v)@ =~= old(v)@ + u64_be(x));
    }
}

} // verus!
