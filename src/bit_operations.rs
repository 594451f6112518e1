//! Fixed-width (8-byte) integer packing in little- and big-endian order.
use vstd::prelude::*;

verus! {

/// The number that the bytes `b` spell when the first byte is the least
/// significant one.
pub open spec fn le_value(b: Seq<u8>) -> nat
    decreases b.len(),
{
    if b.len() == 0 {
        0
    } else {
        b[0] as nat + 256 * le_value(b.drop_first())
    }
}

/// The number that the bytes `b` spell when the first byte is the most
/// significant one.
pub open spec fn be_value(b: Seq<u8>) -> nat
    decreases b.len(),
{
    if b.len() == 0 {
        0
    } else {
        b.last() as nat + 256 * be_value(b.drop_last())
    }
}

/// The `n` low-order bytes of `v`, least significant first.
pub open spec fn le_bytes(v: nat, n: nat) -> Seq<u8>
    decreases n,
{
    if n == 0 {
        Seq::empty()
    } else {
        seq![(v % 256) as u8] + le_bytes(v / 256, (n - 1) as nat)
    }
}

/// The `n` low-order bytes of `v`, most significant first.
pub open spec fn be_bytes(v: nat, n: nat) -> Seq<u8>
    decreases n,
{
    if n == 0 {
        Seq::empty()
    } else {
        be_bytes(v / 256, (n - 1) as nat).push((v % 256) as u8)
    }
}

/// Reads the first eight bytes of `data` as a little-endian integer.
pub fn read_le(data: &[u8]) -> (r: u64)
    requires
        data@.len() >= 8,
    ensures
        r == le_value(data@.subrange(0, 8)),
{
    let b0 = data[0];
    let b1 = data[1];
    let b2 = data[2];
    let b3 = data[3];
    let b4 = data[4];
    let b5 = data[5];
    let b6 = data[6];
    let b7 = data[7];
    let r = (b0 as u64) | (b1 as u64) << 8u64 | (b2 as u64) << 16u64 | (b3 as u64) << 24u64
        | (b4 as u64) << 32u64 | (b5 as u64) << 40u64 | (b6 as u64) << 48u64 | (b7 as u64)
        << 56u64;
    proof {
        let s = data@.subrange(0, 8);
        reveal_with_fuel(le_value, 9);
        assert(s.drop_first().drop_first().drop_first().drop_first().drop_first().drop_first().drop_first().drop_first().len() == 0);
        assert(r == b0 + 256 * (b1 + 256 * (b2 + 256 * (b3 + 256 * (b4 + 256 * (b5 + 256 * (b6 + 256 * b7))))))) by (bit_vector)
            requires
                r == (b0 as u64) | (b1 as u64) << 8u64 | (b2 as u64) << 16u64 | (b3 as u64) << 24u64
                    | (b4 as u64) << 32u64 | (b5 as u64) << 40u64 | (b6 as u64) << 48u64 | (b7 as u64) << 56u64,
        ;
    }
    r
}


/// Reads the first eight bytes of `data` as a big-endian integer.
pub fn read_be(data: &[u8]) -> (r: u64)
    requires
        data@.len() >= 8,
    ensures
        r == be_value(data@.subrange(0, 8)),
{
    let b0 = data[0];
    let b1 = data[1];
    let b2 = data[2];
    let b3 = data[3];
    let b4 = data[4];
    let b5 = data[5];
    let b6 = data[6];
    let b7 = data[7];
    let r = (b7 as u64) | (b6 as u64) << 8u64 | (b5 as u64) << 16u64 | (b4 as u64) << 24u64
        | (b3 as u64) << 32u64 | (b2 as u64) << 40u64 | (b1 as u64) << 48u64 | (b0 as u64)
        << 56u64;
    proof {
        let s = data@.subrange(0, 8);
        reveal_with_fuel(be_value, 9);
        assert(s.drop_last().drop_last().drop_last().drop_last().drop_last().drop_last().drop_last().drop_last().len() == 0);
        assert(r == b7 + 256 * (b6 + 256 * (b5 + 256 * (b4 + 256 * (b3 + 256 * (b2 + 256 * (b1 + 256 * b0))))))) by (bit_vector)
            requires
                r == (b7 as u64) | (b6 as u64) << 8u64 | (b5 as u64) << 16u64 | (b4 as u64) << 24u64
                    | (b3 as u64) << 32u64 | (b2 as u64) << 40u64 | (b1 as u64) << 48u64 | (b0 as u64) << 56u64,
        ;
    }
    r
}

/// The eight bytes of `v`, least significant first, as shifts and masks.
proof fn lemma_bytes_of_u64(v: u64)
    ensures
        le_bytes(v as nat, 8) == seq![v as u8, (v >> 8u64) as u8, (v >> 16u64) as u8, (v >> 24u64) as u8,
            (v >> 32u64) as u8, (v >> 40u64) as u8, (v >> 48u64) as u8, (v >> 56u64) as u8],
        be_bytes(v as nat, 8) == seq![(v >> 56u64) as u8, (v >> 48u64) as u8, (v >> 40u64) as u8,
            (v >> 32u64) as u8, (v >> 24u64) as u8, (v >> 16u64) as u8, (v >> 8u64) as u8, v as u8],
{
    reveal_with_fuel(le_bytes, 9);
    reveal_with_fuel(be_bytes, 9);
    assert(v as u8 == (v % 256) as u8) by (bit_vector);
    assert((v >> 8u64) as u8 == ((v / 256) % 256) as u8) by (bit_vector);
    assert((v >> 16u64) as u8 == ((v / 256 / 256) % 256) as u8) by (bit_vector);
    assert((v >> 24u64) as u8 == ((v / 256 / 256 / 256) % 256) as u8) by (bit_vector);
    assert((v >> 32u64) as u8 == ((v / 256 / 256 / 256 / 256) % 256) as u8) by (bit_vector);
    assert((v >> 40u64) as u8 == ((v / 256 / 256 / 256 / 256 / 256) % 256) as u8) by (bit_vector);
    assert((v >> 48u64) as u8 == ((v / 256 / 256 / 256 / 256 / 256 / 256) % 256) as u8) by (bit_vector);
    assert((v >> 56u64) as u8 == ((v / 256 / 256 / 256 / 256 / 256 / 256 / 256) % 256) as u8) by (bit_vector);
    assert(le_bytes(v as nat, 8) =~= seq![v as u8, (v >> 8u64) as u8, (v >> 16u64) as u8, (v >> 24u64) as u8,
            (v >> 32u64) as u8, (v >> 40u64) as u8, (v >> 48u64) as u8, (v >> 56u64) as u8]);
    assert(be_bytes(v as nat, 8) =~= seq![(v >> 56u64) as u8, (v >> 48u64) as u8, (v >> 40u64) as u8,
            (v >> 32u64) as u8, (v >> 24u64) as u8, (v >> 16u64) as u8, (v >> 8u64) as u8, v as u8]);
}

/// Writes `value` into the first eight bytes of `b`, least significant byte
/// first; the other bytes of `b` are left as they were.
pub fn put_u64_le(b: &mut [u8], value: usize)
    requires
        old(b)@.len() >= 8,
    ensures
        final(b)@.len() == old(b)@.len(),
        final(b)@.subrange(0, 8) == le_bytes(value as nat, 8),
        final(b)@.subrange(8, final(b)@.len() as int) == old(b)@.subrange(8, old(b)@.len() as int),
{
    let v = value as u64;
    b[0] = v as u8;
    b[1] = (v >> 8u64) as u8;
    b[2] = (v >> 16u64) as u8;
    b[3] = (v >> 24u64) as u8;
    b[4] = (v >> 32u64) as u8;
    b[5] = (v >> 40u64) as u8;
    b[6] = (v >> 48u64) as u8;
    b[7] = (v >> 56u64) as u8;
    proof {
        lemma_bytes_of_u64(v);
        assert(b@.subrange(0, 8) =~= le_bytes(value as nat, 8));
        assert(b@.subrange(8, b@.len() as int) =~= old(b)@.subrange(8, old(b)@.len() as int));
    }
}

/// Writes `value` into the first eight bytes of `b`, most significant byte
/// first; the other bytes of `b` are left as they were.
pub fn put_u64_be(b: &mut [u8], value: usize)
    requires
        old(b)@.len() >= 8,
    ensures
        final(b)@.len() == old(b)@.len(),
        final(b)@.subrange(0, 8) == be_bytes(value as nat, 8),
        final(b)@.subrange(8, final(b)@.len() as int) == old(b)@.subrange(8, old(b)@.len() as int),
{
    let v = value as u64;
    b[0] = (v >> 56u64) as u8;
    b[1] = (v >> 48u64) as u8;
    b[2] = (v >> 40u64) as u8;
    b[3] = (v >> 32u64) as u8;
    b[4] = (v >> 24u64) as u8;
    b[5] = (v >> 16u64) as u8;
    b[6] = (v >> 8u64) as u8;
    b[7] = v as u8;
    proof {
        lemma_bytes_of_u64(v);
        assert(b@.subrange(0, 8) =~= be_bytes(value as nat, 8));
        assert(b@.subrange(8, b@.len() as int) =~= old(b)@.subrange(8, old(b)@.len() as int));
    }
}


/// Four bytes spell, least significant first, the `u32` that their shifts
/// and ors give.
pub proof fn lemma_le_value_4(s: Seq<u8>)
    requires
        s.len() == 4,
    ensures
        le_value(s) == ((s[0] as u32) | (s[1] as u32) << 8u32 | (s[2] as u32) << 16u32 | (s[3] as u32)
            << 24u32),
        le_value(s) < 0x1_0000_0000,
{
    reveal_with_fuel(le_value, 5);
    assert(s.drop_first().drop_first().drop_first().drop_first().len() == 0);
    let (b0, b1, b2, b3) = (s[0], s[1], s[2], s[3]);
    assert(((b0 as u32) | (b1 as u32) << 8u32 | (b2 as u32) << 16u32 | (b3 as u32) << 24u32) == b0
        + 256 * (b1 + 256 * (b2 + 256 * b3))) by (bit_vector);
}

/// The four low-order bytes of a `usize`, least significant first, as
/// shifts and truncations.
pub proof fn lemma_le_bytes_4(v: usize)
    ensures
        le_bytes(v as nat, 4) == seq![v as u8, (v >> 8usize) as u8, (v >> 16usize) as u8, (v >> 24usize) as u8],
{
    reveal_with_fuel(le_bytes, 5);
    assert(v as u8 == (v % 256) as u8) by (bit_vector);
    assert((v >> 8usize) as u8 == ((v / 256) % 256) as u8) by (bit_vector);
    assert((v >> 16usize) as u8 == ((v / 256 / 256) % 256) as u8) by (bit_vector);
    assert((v >> 24usize) as u8 == ((v / 256 / 256 / 256) % 256) as u8) by (bit_vector);
    assert(le_bytes(v as nat, 4) =~= seq![v as u8, (v >> 8usize) as u8, (v >> 16usize) as u8, (v >> 24usize) as u8]);
}

/// Writing the four low-order bytes of a `u32` and reading them back gives
/// the number.
pub proof fn lemma_le_round_trip_4(v: u32)
    ensures
        le_bytes(v as nat, 4).len() == 4,
        le_value(le_bytes(v as nat, 4)) == v,
{
    lemma_le_bytes_4(v as usize);
    let s = le_bytes(v as nat, 4);
    lemma_le_value_4(s);
    let w = v as usize;
    assert(((w as u8) as u32) | (((w >> 8usize) as u8) as u32) << 8u32 | (((w >> 16usize) as u8) as u32)
        << 16u32 | (((w >> 24usize) as u8) as u32) << 24u32 == v) by (bit_vector)
        requires
            w == v,
    ;
}

} // verus!
