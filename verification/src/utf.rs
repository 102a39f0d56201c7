//! UTF-16 encoding of the volume label.
//!
//! A label arrives as a Rust string, whose characters are Unicode
//! scalars; each scalar below the supplementary planes becomes one
//! UTF-16 unit, every other scalar a surrogate pair.

use vstd::prelude::*;
use vstd::string::StrSliceExecFns;

verus! {

/// UTF-16 units of one character: the scalar itself, or the high and
/// low surrogate of a supplementary-plane scalar.
pub open spec fn spec_utf16_char(c: char) -> Seq<u16> {
    let v = c as int;
    if v < 0x10000 {
        seq![v as u16]
    } else {
        seq![
            (0xd800 + (v - 0x10000) / 0x400) as u16,
            (0xdc00 + (v - 0x10000) % 0x400) as u16,
        ]
    }
}

/// UTF-16 units of a character sequence, in order.
pub open spec fn spec_utf16(s: Seq<char>) -> Seq<u16>
    decreases s.len(),
{
    if s.len() == 0 {
        Seq::empty()
    } else {
        spec_utf16_char(s[0]) + spec_utf16(s.drop_first())
    }
}

/// Appending a character appends its units.
pub proof fn lemma_utf16_push(s: Seq<char>, c: char)
    ensures
        spec_utf16(s.push(c)) == spec_utf16(s) + spec_utf16_char(c),
    decreases s.len(),
{
    reveal_with_fuel(spec_utf16, 3);
    if s.len() == 0 {
        assert(s.push(c).drop_first() =~= Seq::<char>::empty());
        assert(spec_utf16(s.push(c)) =~= spec_utf16(s) + spec_utf16_char(c));
    } else {
        assert(s.push(c).drop_first() =~= s.drop_first().push(c));
        lemma_utf16_push(s.drop_first(), c);
        assert(spec_utf16(s.push(c)) =~= spec_utf16(s) + spec_utf16_char(c));
    }
}

/// Encodes a string's characters as UTF-16 units.
pub fn utf8_to_utf16(s: &str) -> (r: Vec<u16>)
    ensures
        r@ == spec_utf16(s@),
{
    let n = s.unicode_len();
    let mut r: Vec<u16> = Vec::new();
    let mut i: usize = 0;
    while i < n
        invariant
            0 <= i <= n == s@.len(),
            r@ == spec_utf16(s@.take(i as int)),
        decreases n - i,
    {
        let c = s.get_char(i);
        let v = c as u32;
        if v < 0x10000 {
            r.push(v as u16);
        } else {
            r.push((0xd800 + ((v - 0x10000) / 0x400)) as u16);
            r.push((0xdc00 + ((v - 0x10000) % 0x400)) as u16);
        }
        proof {
            assert(s@.take(i + 1) =~= s@.take(i as int).push(s@[i as int]));
            lemma_utf16_push(s@.take(i as int), s@[i as int]);
            assert(r@ =~= spec_utf16(s@.take(i + 1)));
        }
        i = i + 1;
    }
    proof {
        assert(s@.take(n as int) =~= s@);
    }
    r
}

} // verus!
