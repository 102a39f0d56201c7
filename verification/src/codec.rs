//! Little-endian serialization of the on-disk integer fields.

use byteorder::ByteOrder;
use vstd::prelude::*;

verus! {

/// Little-endian bytes of a 16-bit value.
pub open spec fn spec_le16(v: u16) -> Seq<u8> {
    seq![(v as int % 0x100) as u8, (v as int / 0x100 % 0x100) as u8]
}

/// Little-endian bytes of a 32-bit value.
pub open spec fn spec_le32(v: u32) -> Seq<u8> {
    seq![
        (v as int % 0x100) as u8,
        (v as int / 0x100 % 0x100) as u8,
        (v as int / 0x10000 % 0x100) as u8,
        (v as int / 0x100_0000 % 0x100) as u8,
    ]
}

/// Little-endian bytes of a 64-bit value.
pub open spec fn spec_le64(v: u64) -> Seq<u8> {
    seq![
        (v as int % 0x100) as u8,
        (v as int / 0x100 % 0x100) as u8,
        (v as int / 0x10000 % 0x100) as u8,
        (v as int / 0x100_0000 % 0x100) as u8,
        (v as int / 0x1_0000_0000 % 0x100) as u8,
        (v as int / 0x100_0000_0000 % 0x100) as u8,
        (v as int / 0x1_0000_0000_0000 % 0x100) as u8,
        (v as int / 0x100_0000_0000_0000 % 0x100) as u8,
    ]
}

/// A run of zero bytes.
pub open spec fn spec_zeros(n: int) -> Seq<u8> {
    Seq::new(n as nat, |i: int| 0u8)
}

/// Relies on byteorder's `LittleEndian::write_u32_into`: each 32-bit
/// word becomes four bytes, least significant first.
#[verifier::external_body]
fn le32_bytes(v: u32) -> (r: Vec<u8>)
    ensures
        r@ == spec_le32(v),
{
    let mut buf = vec![0u8; 4];
    byteorder::LittleEndian::write_u32_into(&[v], &mut buf);
    buf
}

/// Appends a 16-bit value, least significant byte first.
pub fn push_le16(out: &mut Vec<u8>, v: u16)
    ensures
        final(out)@ == old(out)@ + spec_le16(v),
{
    out.push((v % 0x100) as u8);
    out.push(((v / 0x100) % 0x100) as u8);
    proof {
        assert(out@ =~= old(out)@ + spec_le16(v));
    }
}

/// Appends a 32-bit value, least significant byte first.
pub fn push_le32(out: &mut Vec<u8>, v: u32)
    ensures
        final(out)@ == old(out)@ + spec_le32(v),
{
    let mut b = le32_bytes(v);
    out.append(&mut b);
}

/// Appends a 64-bit value, least significant byte first.
pub fn push_le64(out: &mut Vec<u8>, v: u64)
    ensures
        final(out)@ == old(out)@ + spec_le64(v),
{
    out.push((v % 0x100) as u8);
    out.push(((v / 0x100) % 0x100) as u8);
    out.push(((v / 0x10000) % 0x100) as u8);
    out.push(((v / 0x100_0000) % 0x100) as u8);
    out.push(((v / 0x1_0000_0000) % 0x100) as u8);
    out.push(((v / 0x100_0000_0000) % 0x100) as u8);
    out.push(((v / 0x1_0000_0000_0000) % 0x100) as u8);
    out.push(((v / 0x100_0000_0000_0000) % 0x100) as u8);
    proof {
        assert(out@ =~= old(out)@ + spec_le64(v));
    }
}

/// Appends `n` zero bytes.
pub fn push_zeros(out: &mut Vec<u8>, n: usize)
    requires
        old(out)@.len() + n <= usize::MAX,
    ensures
        final(out)@ == old(out)@ + spec_zeros(n as int),
{
    let mut i: usize = 0;
    while i < n
        invariant
            0 <= i <= n,
            out@ == old(out)@ + spec_zeros(i as int),
        decreases n - i,
    {
        out.push(0);
        proof {
            assert(out@ =~= old(out)@ + spec_zeros(i + 1));
        }
        i = i + 1;
    }
}


/// Little-endian bytes of a sequence of 32-bit words, in order.
pub open spec fn spec_le32_seq(s: Seq<u32>) -> Seq<u8>
    decreases s.len(),
{
    if s.len() == 0 {
        Seq::empty()
    } else {
        spec_le32(s[0]) + spec_le32_seq(s.drop_first())
    }
}

/// Appending a word appends its four bytes.
pub proof fn lemma_le32_seq_push(s: Seq<u32>, x: u32)
    ensures
        spec_le32_seq(s.push(x)) == spec_le32_seq(s) + spec_le32(x),
    decreases s.len(),
{
    reveal_with_fuel(spec_le32_seq, 3);
    if s.len() == 0 {
        assert(s.push(x).drop_first() =~= Seq::<u32>::empty());
        assert(spec_le32_seq(s.push(x)) =~= spec_le32_seq(s) + spec_le32(x));
    } else {
        assert(s.push(x).drop_first() =~= s.drop_first().push(x));
        lemma_le32_seq_push(s.drop_first(), x);
        assert(spec_le32_seq(s.push(x)) =~= spec_le32_seq(s) + spec_le32(x));
    }
}

/// Serializes 32-bit words to bytes, least significant byte first.
pub fn le32_seq_bytes(words: &Vec<u32>) -> (r: Vec<u8>)
    ensures
        r@ == spec_le32_seq(words@),
        r@.len() == 4 * words@.len(),
{
    proof {
        lemma_le32_seq_len(words@);
    }
    let mut r: Vec<u8> = Vec::new();
    let mut i: usize = 0;
    while i < words.len()
        invariant
            0 <= i <= words@.len(),
            r@ == spec_le32_seq(words@.take(i as int)),
            r@.len() == 4 * i,
        decreases words@.len() - i,
    {
        push_le32(&mut r, words[i]);
        proof {
            assert(words@.take(i + 1) =~= words@.take(i as int).push(words@[i as int]));
            lemma_le32_seq_push(words@.take(i as int), words@[i as int]);
        }
        i = i + 1;
    }
    proof {
        assert(words@.take(words@.len() as int) =~= words@);
    }
    r
}

/// The serialization of `n` words has `4 n` bytes.
pub proof fn lemma_le32_seq_len(s: Seq<u32>)
    ensures
        spec_le32_seq(s).len() == 4 * s.len(),
    decreases s.len(),
{
    if s.len() > 0 {
        lemma_le32_seq_len(s.drop_first());
    }
}


/// Little-endian bytes of a sequence of 16-bit units, in order.
pub open spec fn spec_le16_seq(s: Seq<u16>) -> Seq<u8>
    decreases s.len(),
{
    if s.len() == 0 {
        Seq::empty()
    } else {
        spec_le16(s[0]) + spec_le16_seq(s.drop_first())
    }
}

/// Appending a unit appends its two bytes.
pub proof fn lemma_le16_seq_push(s: Seq<u16>, x: u16)
    ensures
        spec_le16_seq(s.push(x)) == spec_le16_seq(s) + spec_le16(x),
    decreases s.len(),
{
    reveal_with_fuel(spec_le16_seq, 3);
    if s.len() == 0 {
        assert(s.push(x).drop_first() =~= Seq::<u16>::empty());
        assert(spec_le16_seq(s.push(x)) =~= spec_le16_seq(s) + spec_le16(x));
    } else {
        assert(s.push(x).drop_first() =~= s.drop_first().push(x));
        lemma_le16_seq_push(s.drop_first(), x);
        assert(spec_le16_seq(s.push(x)) =~= spec_le16_seq(s) + spec_le16(x));
    }
}

/// The serialization of `n` units has `2 n` bytes.
pub proof fn lemma_le16_seq_len(s: Seq<u16>)
    ensures
        spec_le16_seq(s).len() == 2 * s.len(),
    decreases s.len(),
{
    if s.len() > 0 {
        lemma_le16_seq_len(s.drop_first());
    }
}


/// The 16-bit value stored little endian at `off`.
pub open spec fn spec_read_le16(b: Seq<u8>, off: int) -> u16
    recommends
        0 <= off && off + 2 <= b.len(),
{
    (b[off] + b[off + 1] * 0x100) as u16
}

/// The 32-bit value stored little endian at `off`.
pub open spec fn spec_read_le32(b: Seq<u8>, off: int) -> u32
    recommends
        0 <= off && off + 4 <= b.len(),
{
    (b[off] + b[off + 1] * 0x100 + b[off + 2] * 0x10000 + b[off + 3] * 0x100_0000) as u32
}

/// The 64-bit value stored little endian at `off`.
pub open spec fn spec_read_le64(b: Seq<u8>, off: int) -> u64
    recommends
        0 <= off && off + 8 <= b.len(),
{
    (b[off] + b[off + 1] * 0x100 + b[off + 2] * 0x10000 + b[off + 3] * 0x100_0000 + b[off + 4]
        * 0x1_0000_0000 + b[off + 5] * 0x100_0000_0000 + b[off + 6] * 0x1_0000_0000_0000 + b[off
        + 7] * 0x100_0000_0000_0000) as u64
}

/// Reads a 16-bit value, least significant byte first.
pub fn read_le16(b: &Vec<u8>, off: usize) -> (r: u16)
    requires
        off + 2 <= b@.len(),
    ensures
        r == spec_read_le16(b@, off as int),
{
    let n = b.len();
    proof {
        assert(off + 2 <= n);
    }
    b[off] as u16 + b[off + 1] as u16 * 0x100
}

/// Reads a 32-bit value, least significant byte first.
pub fn read_le32(b: &Vec<u8>, off: usize) -> (r: u32)
    requires
        off + 4 <= b@.len(),
    ensures
        r == spec_read_le32(b@, off as int),
{
    let n = b.len();
    proof {
        assert(off + 4 <= n);
    }
    b[off] as u32 + b[off + 1] as u32 * 0x100 + b[off + 2] as u32 * 0x10000 + b[off + 3] as u32
        * 0x100_0000
}

/// Reads a 64-bit value, least significant byte first.
pub fn read_le64(b: &Vec<u8>, off: usize) -> (r: u64)
    requires
        off + 8 <= b@.len(),
    ensures
        r == spec_read_le64(b@, off as int),
{
    let n = b.len();
    proof {
        assert(off + 8 <= n);
    }
    b[off] as u64 + b[off + 1] as u64 * 0x100 + b[off + 2] as u64 * 0x10000 + b[off + 3] as u64
        * 0x100_0000 + b[off + 4] as u64 * 0x1_0000_0000 + b[off + 5] as u64 * 0x100_0000_0000
        + b[off + 6] as u64 * 0x1_0000_0000_0000 + b[off + 7] as u64 * 0x100_0000_0000_0000
}

/// Reading back the bytes of a 16-bit value gives the value.
pub proof fn lemma_le16_roundtrip(b: Seq<u8>, off: int, v: u16)
    requires
        0 <= off && off + 2 <= b.len(),
        b.subrange(off, off + 2) == spec_le16(v),
    ensures
        spec_read_le16(b, off) == v,
{
    assert(b[off] == spec_le16(v)[0] && b[off + 1] == spec_le16(v)[1]) by {
        assert(b.subrange(off, off + 2)[0] == b[off]);
        assert(b.subrange(off, off + 2)[1] == b[off + 1]);
    }
}

/// Reading back the bytes of a 32-bit value gives the value.
pub proof fn lemma_le32_roundtrip(b: Seq<u8>, off: int, v: u32)
    requires
        0 <= off && off + 4 <= b.len(),
        b.subrange(off, off + 4) == spec_le32(v),
    ensures
        spec_read_le32(b, off) == v,
{
    assert forall|k: int| 0 <= k < 4 implies b[off + k] == spec_le32(v)[k] by {
        assert(b.subrange(off, off + 4)[k] == b[off + k]);
    }
}

/// Reading back the bytes of a 64-bit value gives the value.
pub proof fn lemma_le64_roundtrip(b: Seq<u8>, off: int, v: u64)
    requires
        0 <= off && off + 8 <= b.len(),
        b.subrange(off, off + 8) == spec_le64(v),
    ensures
        spec_read_le64(b, off) == v,
{
    assert forall|k: int| 0 <= k < 8 implies b[off + k] == spec_le64(v)[k] by {
        assert(b.subrange(off, off + 8)[k] == b[off + k]);
    }
    let x = v as int;
    // peel the value one byte at a time
    vstd::arithmetic::div_mod::lemma_fundamental_div_mod(x, 0x100);
    vstd::arithmetic::div_mod::lemma_fundamental_div_mod(x / 0x100, 0x100);
    vstd::arithmetic::div_mod::lemma_fundamental_div_mod(x / 0x10000, 0x100);
    vstd::arithmetic::div_mod::lemma_fundamental_div_mod(x / 0x100_0000, 0x100);
    vstd::arithmetic::div_mod::lemma_fundamental_div_mod(x / 0x1_0000_0000, 0x100);
    vstd::arithmetic::div_mod::lemma_fundamental_div_mod(x / 0x100_0000_0000, 0x100);
    vstd::arithmetic::div_mod::lemma_fundamental_div_mod(x / 0x1_0000_0000_0000, 0x100);
    assert(x / 0x100 / 0x100 == x / 0x10000) by {
        vstd::arithmetic::div_mod::lemma_div_denominator(x, 0x100, 0x100);
    }
    assert(x / 0x10000 / 0x100 == x / 0x100_0000) by {
        vstd::arithmetic::div_mod::lemma_div_denominator(x, 0x10000, 0x100);
    }
    assert(x / 0x100_0000 / 0x100 == x / 0x1_0000_0000) by {
        vstd::arithmetic::div_mod::lemma_div_denominator(x, 0x100_0000, 0x100);
    }
    assert(x / 0x1_0000_0000 / 0x100 == x / 0x100_0000_0000) by {
        vstd::arithmetic::div_mod::lemma_div_denominator(x, 0x1_0000_0000, 0x100);
    }
    assert(x / 0x100_0000_0000 / 0x100 == x / 0x1_0000_0000_0000) by {
        vstd::arithmetic::div_mod::lemma_div_denominator(x, 0x100_0000_0000, 0x100);
    }
    assert(x / 0x1_0000_0000_0000 / 0x100 == x / 0x100_0000_0000_0000) by {
        vstd::arithmetic::div_mod::lemma_div_denominator(x, 0x1_0000_0000_0000, 0x100);
    }
    assert(x / 0x100_0000_0000_0000 % 0x100 == x / 0x100_0000_0000_0000) by {
        vstd::arithmetic::div_mod::lemma_div_is_ordered(x, u64::MAX as int, 0x100_0000_0000_0000);
        vstd::arithmetic::div_mod::lemma_div_pos_is_pos(x, 0x100_0000_0000_0000);
        vstd::arithmetic::div_mod::lemma_small_mod(
            (x / 0x100_0000_0000_0000) as nat,
            0x100,
        );
    }
}

} // verus!
