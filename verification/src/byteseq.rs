//! Byte-sequence building blocks: little-endian integers, decimal and
//! hexadecimal renderings, substring search and splicing.

use vstd::prelude::*;

verus! {

/// Four little-endian bytes of `n` (taken modulo 2^32).
pub open spec fn le32(n: nat) -> Seq<u8> {
    seq![
        (n % 256) as u8,
        ((n / 256) % 256) as u8,
        ((n / 65536) % 256) as u8,
        ((n / 16777216) % 256) as u8,
    ]
}

/// Appends the four little-endian bytes of `n`.
pub fn push_le32(out: &mut Vec<u8>, n: u32)
    ensures
        final(out)@ == old(out)@ + le32(n as nat),
{
    out.push((n % 256) as u8);
    out.push(((n / 256) % 256) as u8);
    out.push(((n / 65536) % 256) as u8);
    out.push(((n / 16777216) % 256) as u8);
    assert(out@ =~= old(out)@ + le32(n as nat));
}

/// The value the four bytes at `i` encode, little-endian.
pub open spec fn le32_at(s: Seq<u8>, i: int) -> nat
    recommends
        0 <= i,
        i + 4 <= s.len(),
{
    s[i] as nat + s[i + 1] as nat * 256 + s[i + 2] as nat * 65536 + s[i + 3] as nat * 16777216
}

/// Reading back the four bytes written by `le32` recovers `n`.
pub proof fn lemma_le32_roundtrip(n: nat)
    requires
        n < 4294967296,
    ensures
        le32_at(le32(n), 0) == n,
{
    assert(le32_at(le32(n), 0) == n % 256 + ((n / 256) % 256) * 256 + ((n / 65536) % 256) * 65536
        + ((n / 16777216) % 256) * 16777216);
    assert(n % 256 + ((n / 256) % 256) * 256 + ((n / 65536) % 256) * 65536 + ((n / 16777216)
        % 256) * 16777216 == n) by (nonlinear_arith)
        requires
            n < 4294967296,
    ;
}

/// Reads the little-endian value of the four bytes at `i`.
pub fn read_le32(s: &Vec<u8>, i: usize) -> (r: u64)
    requires
        i + 4 <= s@.len(),
    ensures
        r as nat == le32_at(s@, i as int),
        r < 4294967296,
{
    let l: usize = s.len();
    assert(i + 4 <= l);
    s[i] as u64 + s[i + 1] as u64 * 256 + s[i + 2] as u64 * 65536 + s[i + 3] as u64 * 16777216
}

/// Decimal digits of `n`, most significant first.
pub open spec fn dec_digits(n: nat) -> Seq<u8>
    decreases n,
{
    if n < 10 {
        seq![(48 + n) as u8]
    } else {
        dec_digits(n / 10).push((48 + n % 10) as u8)
    }
}

/// Appends the decimal digits of `n`.
pub fn push_dec(out: &mut Vec<u8>, n: u64)
    ensures
        final(out)@ == old(out)@ + dec_digits(n as nat),
    decreases n,
{
    if n < 10 {
        out.push(48 + n as u8);
        assert(out@ =~= old(out)@ + dec_digits(n as nat));
    } else {
        push_dec(out, n / 10);
        out.push(48 + (n % 10) as u8);
        assert(out@ =~= old(out)@ + dec_digits(n as nat));
    }
}

/// One hexadecimal digit, upper case.
pub open spec fn hex_digit(d: nat) -> u8
    recommends
        d < 16,
{
    if d < 10 {
        (48 + d) as u8
    } else {
        (55 + d) as u8
    }
}

/// `k` hexadecimal digits of `n`, most significant first, zero padded.
pub open spec fn hex_digits(n: nat, k: nat) -> Seq<u8>
    decreases k,
{
    if k == 0 {
        Seq::empty()
    } else {
        hex_digits(n / 16, (k - 1) as nat).push(hex_digit(n % 16))
    }
}

/// Appends `k` upper-case hexadecimal digits of `n`, zero padded.
pub fn push_hex(out: &mut Vec<u8>, n: u64, k: usize)
    ensures
        final(out)@ == old(out)@ + hex_digits(n as nat, k as nat),
    decreases k,
{
    if k == 0 {
        assert(out@ =~= old(out)@ + hex_digits(n as nat, 0));
    } else {
        push_hex(out, n / 16, k - 1);
        let d: u64 = n % 16;
        if d < 10 {
            out.push(48 + d as u8);
        } else {
            out.push(55 + d as u8);
        }
        assert(out@ =~= old(out)@ + hex_digits(n as nat, k as nat));
    }
}

/// The needle `n` occurs in `h` at position `i`.
pub open spec fn found_at(h: Seq<u8>, n: Seq<u8>, i: int) -> bool {
    0 <= i && i + n.len() <= h.len() && h.subrange(i, i + n.len() as int) == n
}

/// Position of the first occurrence of `n` in `h` at or after `start`.
pub open spec fn first_found(h: Seq<u8>, n: Seq<u8>, start: nat) -> Option<nat>
    decreases h.len() + 1 - start,
{
    if start + n.len() > h.len() {
        None
    } else if found_at(h, n, start as int) {
        Some(start)
    } else {
        first_found(h, n, start + 1)
    }
}

/// What `first_found` returns is a match, the first one at or after `start`.
pub proof fn lemma_first_found(h: Seq<u8>, n: Seq<u8>, start: nat)
    ensures
        match first_found(h, n, start) {
            Some(i) => start <= i && found_at(h, n, i as int) && forall|j: int|
                start <= j < i ==> !found_at(h, n, j),
            None => forall|j: int| start <= j ==> !found_at(h, n, j),
        },
    decreases h.len() + 1 - start,
{
    if start + n.len() > h.len() {
        assert forall|j: int| start <= j implies !found_at(h, n, j) by {}
    } else if found_at(h, n, start as int) {
    } else {
        lemma_first_found(h, n, start + 1);
    }
}

/// A match at `target` with none before it pins `first_found` down.
pub proof fn lemma_first_found_exact(h: Seq<u8>, n: Seq<u8>, start: nat, target: int)
    requires
        start <= target,
        found_at(h, n, target),
        forall|j: int| start <= j < target ==> !found_at(h, n, j),
    ensures
        first_found(h, n, start) == Some(target as nat),
{
    lemma_first_found(h, n, start);
    match first_found(h, n, start) {
        Some(i) => {
            if i < target {
                assert(!found_at(h, n, i as int));
            }
            if i > target {
                assert(!found_at(h, n, target));
            }
        },
        None => {
            assert(!found_at(h, n, target));
        },
    }
}

/// Four bytes equal to `le32(v)` read back as `v`.
pub proof fn lemma_le32_at_subrange(s: Seq<u8>, i: int, v: nat)
    requires
        0 <= i,
        i + 4 <= s.len(),
        s.subrange(i, i + 4) == le32(v),
        v < 4294967296,
    ensures
        le32_at(s, i) == v,
{
    assert(s[i] == le32(v)[0]);
    assert(s[i + 1] == le32(v)[1]);
    assert(s[i + 2] == le32(v)[2]);
    assert(s[i + 3] == le32(v)[3]);
    lemma_le32_roundtrip(v);
}

/// Finds the first occurrence of `n` in `h` at or after `start`.
pub fn find_from(h: &Vec<u8>, n: &Vec<u8>, start: usize) -> (r: Option<usize>)
    ensures
        match r {
            Some(i) => first_found(h@, n@, start as nat) == Some(i as nat),
            None => first_found(h@, n@, start as nat) is None,
        },
{
    let mut i: usize = start;
    loop
        invariant
            start <= i,
            first_found(h@, n@, start as nat) == first_found(h@, n@, i as nat),
        decreases h@.len() + 1 - i,
    {
        if i > h.len() || n.len() > h.len() - i {
            assert(first_found(h@, n@, i as nat) is None);
            return None;
        }
        assert(i + n@.len() <= h@.len());
        let mut k: usize = 0;
        let mut matches: bool = true;
        while matches && k < n.len()
            invariant
                0 <= k <= n@.len(),
                i + n@.len() <= h@.len(),
                h@.len() <= usize::MAX,
                matches ==> forall|t: int| 0 <= t < k ==> h@[i + t] == n@[t],
                !matches ==> !found_at(h@, n@, i as int) && n@.len() > 0,
            decreases n@.len() - k,
        {
            if h[i + k] != n[k] {
                proof {
                    if found_at(h@, n@, i as int) {
                        assert(h@.subrange(i as int, i + n@.len())[k as int] == n@[k as int]);
                    }
                }
                matches = false;
            }
            k = k + 1;
        }
        if matches {
            assert(h@.subrange(i as int, i + n@.len()) =~= n@);
            return Some(i);
        }
        assert(i < h@.len());
        i = i + 1;
    }
}

/// `h` with `ins` spliced in at position `p`.
pub open spec fn spliced(h: Seq<u8>, p: int, ins: Seq<u8>) -> Seq<u8>
    recommends
        0 <= p <= h.len(),
{
    h.take(p) + ins + h.skip(p)
}

/// Returns `h` with `ins` inserted at position `p`.
pub fn splice(h: &Vec<u8>, p: usize, ins: &Vec<u8>) -> (r: Vec<u8>)
    requires
        p <= h@.len(),
    ensures
        r@ == spliced(h@, p as int, ins@),
{
    let mut r: Vec<u8> = Vec::new();
    let mut i: usize = 0;
    while i < p
        invariant
            0 <= i <= p <= h@.len(),
            r@ == h@.take(i as int),
        decreases p - i,
    {
        r.push(h[i]);
        assert(r@ =~= h@.take(i + 1));
        i = i + 1;
    }
    r.extend_from_slice(ins.as_slice());
    let mut j: usize = p;
    while j < h.len()
        invariant
            p <= j <= h@.len(),
            r@ == h@.take(p as int) + ins@ + h@.subrange(p as int, j as int),
        decreases h@.len() - j,
    {
        r.push(h[j]);
        assert(r@ =~= h@.take(p as int) + ins@ + h@.subrange(p as int, j + 1));
        j = j + 1;
    }
    assert(h@.subrange(p as int, h@.len() as int) =~= h@.skip(p as int));
    r
}

} // verus!
