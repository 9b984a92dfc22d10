//! UTF-16LE encoding of character sequences, written out byte by byte.

use vstd::prelude::*;

verus! {

/// Two little-endian bytes of `v` (taken modulo 2^16).
pub open spec fn le16(v: int) -> Seq<u8> {
    seq![(v % 256) as u8, ((v / 256) % 256) as u8]
}

/// The UTF-16LE bytes of one character: one code unit below 0x10000,
/// else a surrogate pair.
pub open spec fn char_utf16le(c: char) -> Seq<u8> {
    let v = c as u32;
    if v < 0x10000 {
        le16(v as int)
    } else {
        le16(0xD800 + ((v - 0x10000) / 0x400) % 0x400) + le16(0xDC00 + (v - 0x10000) % 0x400)
    }
}

/// The UTF-16LE bytes of `s`.
pub open spec fn utf16le(s: Seq<char>) -> Seq<u8>
    decreases s.len(),
{
    if s.len() == 0 {
        Seq::empty()
    } else {
        char_utf16le(s[0]) + utf16le(s.drop_first())
    }
}

/// Encoding distributes over concatenation.
pub proof fn lemma_utf16le_concat(a: Seq<char>, b: Seq<char>)
    ensures
        utf16le(a + b) == utf16le(a) + utf16le(b),
    decreases a.len(),
{
    if a.len() == 0 {
        assert(a + b =~= b);
        assert(utf16le(a) + utf16le(b) =~= utf16le(b));
    } else {
        assert((a + b).drop_first() =~= a.drop_first() + b);
        lemma_utf16le_concat(a.drop_first(), b);
        assert(utf16le(a + b) =~= utf16le(a) + utf16le(b));
    }
}

/// Appending one character appends its bytes.
pub proof fn lemma_utf16le_push(s: Seq<char>, c: char)
    ensures
        utf16le(s.push(c)) == utf16le(s) + char_utf16le(c),
{
    assert(s.push(c) =~= s + seq![c]);
    lemma_utf16le_concat(s, seq![c]);
    assert(seq![c].drop_first() =~= Seq::<char>::empty());
    assert(seq![c][0] == c);
    assert(utf16le(seq![c].drop_first()).len() == 0);
    assert(utf16le(seq![c]) =~= char_utf16le(c));
}

/// A longer prefix never encodes to fewer bytes.
pub proof fn lemma_utf16le_prefix_mono(s: Seq<char>, a: int, b: int)
    requires
        0 <= a <= b <= s.len(),
    ensures
        utf16le(s.take(a)).len() <= utf16le(s.take(b)).len(),
{
    assert(s.take(b) =~= s.take(a) + s.subrange(a, b));
    lemma_utf16le_concat(s.take(a), s.subrange(a, b));
}

/// Appends the UTF-16LE bytes of `c`.
pub fn push_char_utf16le(out: &mut Vec<u8>, c: char)
    ensures
        final(out)@ == old(out)@ + char_utf16le(c),
{
    let v: u32 = c as u32;
    if v < 0x10000 {
        out.push((v % 256) as u8);
        out.push(((v / 256) % 256) as u8);
        assert(out@ =~= old(out)@ + char_utf16le(c));
    } else {
        let w: u32 = v - 0x10000;
        let hi: u32 = 0xD800 + (w / 0x400) % 0x400;
        let lo: u32 = 0xDC00 + w % 0x400;
        out.push((hi % 256) as u8);
        out.push(((hi / 256) % 256) as u8);
        out.push((lo % 256) as u8);
        out.push(((lo / 256) % 256) as u8);
        assert(out@ =~= old(out)@ + char_utf16le(c));
    }
}

/// The UTF-16LE bytes of `cs`.
pub fn utf16le_encode(cs: &Vec<char>) -> (r: Vec<u8>)
    ensures
        r@ == utf16le(cs@),
{
    let mut r: Vec<u8> = Vec::new();
    let mut i: usize = 0;
    while i < cs.len()
        invariant
            i <= cs@.len(),
            r@ == utf16le(cs@.take(i as int)),
        decreases cs@.len() - i,
    {
        push_char_utf16le(&mut r, cs[i]);
        proof {
            lemma_utf16le_push(cs@.take(i as int), cs@[i as int]);
            assert(cs@.take(i as int).push(cs@[i as int]) =~= cs@.take(i + 1));
        }
        i = i + 1;
    }
    assert(cs@.take(cs@.len() as int) =~= cs@);
    r
}

} // verus!
