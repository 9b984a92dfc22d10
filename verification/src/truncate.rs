//! Fitting a display name into a fixed UTF-16LE byte budget.
//!
//! When a name's UTF-16LE encoding exceeds the budget, the stem is cut
//! to the largest prefix that fits beside a two-dot ellipsis and the
//! extension; the cut is pulled back to a separator-like character when
//! the naive cut would end in a bare Latin letter, but never below half
//! the naive length. When even the ellipsis and extension cannot fit,
//! the name itself is cut to the largest prefix that fits.

use vstd::prelude::*;
use crate::records::{str_chars, chars_string, spec_stem, spec_extension, find_ext_dot};
use crate::utf16::{utf16le, utf16le_encode, lemma_utf16le_concat, lemma_utf16le_prefix_mono};

verus! {

/// The two-dot ellipsis that marks a cut.
pub open spec fn ellipsis_chars() -> Seq<char> {
    seq!['.', '.']
}

/// The extension with its dot, empty when the name has no extension.
pub open spec fn dot_ext(n: Seq<char>) -> Seq<char> {
    if spec_extension(n).len() > 0 {
        seq!['.'] + spec_extension(n)
    } else {
        Seq::empty()
    }
}

/// Bytes that a cut name must reserve: the ellipsis and the extension.
pub open spec fn reserved_bytes(n: Seq<char>) -> int {
    4 + utf16le(dot_ext(n)).len() as int
}

/// The shape of a name cut at the stem: a stem prefix of `k` characters,
/// the ellipsis, then the extension. `kn` is the naive (largest fitting)
/// cut and `k` is exactly where the cut backs off to a separator-like
/// boundary, per `adjusted_cut`.
pub open spec fn cut_shape(n: Seq<char>, max_bytes: int, out: Seq<char>, kn: int, k: int) -> bool {
    let stem = spec_stem(n);
    let avail = max_bytes - reserved_bytes(n);
    &&& 0 <= k <= kn <= stem.len()
    &&& utf16le(stem.take(kn)).len() <= avail
    &&& (kn == stem.len() || utf16le(stem.take(kn + 1)).len() > avail)
    &&& k == adjusted_cut(stem, kn)
    &&& out == stem.take(k) + ellipsis_chars() + dot_ext(n)
}

/// Everything `truncate_filename_to_bytes` promises of its result `out`:
/// unchanged when `n` already fits in `mb` bytes; otherwise it fits, and
/// has the stem-cut shape when ellipsis and extension leave room, else it
/// is the largest fitting bare prefix.
pub open spec fn truncated_ok(n: Seq<char>, mb: int, out: Seq<char>) -> bool {
    &&& (utf16le(n).len() <= mb ==> out == n)
    &&& (utf16le(n).len() > mb ==> utf16le(out).len() <= mb)
    &&& (utf16le(n).len() > mb && mb >= reserved_bytes(n) + 4 ==> exists|kn: int, k: int|
        cut_shape(n, mb, out, kn, k))
    &&& (utf16le(n).len() > mb && mb < reserved_bytes(n) + 4 ==> exists|k: int|
        0 <= k <= n.len() && out == n.take(k) && utf16le(n.take(k)).len() <= mb)
}

proof fn lemma_ellipsis_bytes()
    ensures
        utf16le(ellipsis_chars()).len() == 4,
{
    let e = ellipsis_chars();
    assert(e[0] == '.');
    assert(e.drop_first() =~= seq!['.']);
    assert(seq!['.'][0] == '.');
    assert(seq!['.'].drop_first() =~= Seq::<char>::empty());
    assert(crate::utf16::char_utf16le('.').len() == 2);
    assert(utf16le(Seq::<char>::empty()).len() == 0);
    assert(utf16le(seq!['.']).len() == 2);
    assert(utf16le(e).len() == 4);
}

/// UTF-16LE byte length of the first `k` characters of `cs`.
fn prefix_utf16_len(cs: &Vec<char>, k: usize) -> (l: usize)
    requires
        k <= cs@.len(),
    ensures
        l == utf16le(cs@.take(k as int)).len(),
{
    let mut p: Vec<char> = Vec::new();
    let mut i: usize = 0;
    while i < k
        invariant
            i <= k <= cs@.len(),
            p@ == cs@.take(i as int),
        decreases k - i,
    {
        p.push(cs[i]);
        assert(p@ =~= cs@.take(i + 1));
        i = i + 1;
    }
    let enc = utf16le_encode(&p);
    enc.len()
}

/// The largest `k` such that the first `k` characters of `cs` encode to
/// at most `budget` bytes.
fn max_prefix_fitting(cs: &Vec<char>, budget: usize) -> (k: usize)
    ensures
        k <= cs@.len(),
        utf16le(cs@.take(k as int)).len() <= budget,
        forall|j: int| k < j <= cs@.len() ==> utf16le(cs@.take(j)).len() > budget,
{
    let mut lo: usize = 0;
    let mut hi: usize = cs.len();
    assert(cs@.take(0).len() == 0);
    while lo < hi
        invariant
            0 <= lo <= hi <= cs@.len(),
            utf16le(cs@.take(lo as int)).len() <= budget,
            forall|j: int| hi < j <= cs@.len() ==> utf16le(cs@.take(j)).len() > budget,
        decreases hi - lo,
    {
        let mid: usize = lo + (hi - lo) / 2 + 1;
        assert(lo < mid <= hi);
        let l = prefix_utf16_len(cs, mid);
        if l <= budget {
            lo = mid;
        } else {
            assert forall|j: int| mid <= j <= cs@.len() implies utf16le(cs@.take(j)).len()
                > budget by {
                lemma_utf16le_prefix_mono(cs@, mid as int, j);
            }
            hi = mid - 1;
        }
    }
    lo
}

/// A CJK ideograph (the common unified range, bounds exclusive).
pub open spec fn is_cjk(c: char) -> bool {
    0x4E00 < (c as u32) && (c as u32) < 0x9FFF
}

/// A separator-like character: punctuation the eye reads as a break, or
/// a CJK ideograph.
pub open spec fn is_sep_char(c: char) -> bool {
    c == '_' || c == '-' || c == ' ' || c == '.' || is_cjk(c)
}

/// A cut may land before position `i` (one-based scan position): the
/// character just before `i` is separator-like, or it is a Latin
/// letter standing right after an ideograph.
pub open spec fn cut_boundary_at(stem: Seq<char>, i: int) -> bool {
    is_sep_char(stem[i - 1]) || (i >= 2 && is_cjk(stem[i - 2]) && is_ascii_alpha(stem[i - 1]))
}

/// The cut position found by scanning from `i` down to 1 for the
/// first boundary, or -1 when none is found.
pub open spec fn scan_cut(stem: Seq<char>, i: int) -> int
    decreases i,
{
    if i <= 0 {
        -1
    } else if cut_boundary_at(stem, i) {
        i - 1
    } else {
        scan_cut(stem, i - 1)
    }
}

/// Where the naive cut `kn` ends up after the back-off rule: when it
/// would end the visible stem in a bare Latin letter, the cut moves to
/// the nearest separator-like boundary at or below it, unless that
/// keeps half the naive prefix or less.
pub open spec fn adjusted_cut(stem: Seq<char>, kn: int) -> int {
    if kn <= 0 || kn >= stem.len() || !is_ascii_alpha(stem[kn - 1]) {
        kn
    } else {
        let found = scan_cut(stem, kn);
        let better = if found == -1 {
            kn
        } else {
            found
        };
        if better > kn / 2 {
            better
        } else {
            kn
        }
    }
}

pub open spec fn is_ascii_alpha(c: char) -> bool {
    (65 <= (c as u32) && (c as u32) <= 90) || (97 <= (c as u32) && (c as u32) <= 122)
}

fn sep_char(c: char) -> (r: bool)
    ensures
        r == is_sep_char(c),
{
    let v = c as u32;
    c == '_' || c == '-' || c == ' ' || c == '.' || (0x4E00 < v && v < 0x9FFF)
}

fn ascii_alpha(c: char) -> (r: bool)
    ensures
        r == is_ascii_alpha(c),
{
    let v = c as u32;
    (65 <= v && v <= 90) || (97 <= v && v <= 122)
}

/// Pulls the naive cut `kn` back to a separator-like boundary when it
/// would end in a bare Latin letter, but never to half its length or
/// less — exactly `adjusted_cut`.
fn adjust_cut(stem: &Vec<char>, kn: usize) -> (k: usize)
    requires
        kn <= stem@.len(),
    ensures
        k == adjusted_cut(stem@, kn as int),
        k <= kn,
{
    if kn == 0 || kn >= stem.len() {
        return kn;
    }
    if !ascii_alpha(stem[kn - 1]) {
        return kn;
    }
    let mut better: usize = kn;
    let mut i: usize = kn;
    let mut found: bool = false;
    while i > 0 && !found
        invariant
            0 <= i <= kn,
            kn < stem@.len(),
            found ==> better < kn && better as int == scan_cut(stem@, kn as int),
            !found ==> better == kn && scan_cut(stem@, kn as int) == scan_cut(stem@, i as int),
        decreases 2 * i + (if found {
            0int
        } else {
            1int
        }),
    {
        let ch = stem[i - 1];
        let mut cut_here: bool = sep_char(ch);
        if !cut_here && i >= 2 {
            let prev = stem[i - 2];
            let pv = prev as u32;
            cut_here = (0x4E00 < pv && pv < 0x9FFF) && ascii_alpha(ch);
        }
        assert(cut_here == cut_boundary_at(stem@, i as int));
        if cut_here {
            better = i - 1;
            found = true;
        } else {
            i = i - 1;
        }
    }
    if better > kn / 2 {
        better
    } else {
        kn
    }
}

/// Cuts `filename` so its UTF-16LE encoding fits in `max_bytes` bytes.
///
/// A name that already fits is returned unchanged. Otherwise the stem
/// is cut and marked with a two-dot ellipsis before the extension; when
/// not even ellipsis and extension fit, the name is cut to a bare prefix.
pub fn truncate_filename_to_bytes(filename: &str, max_bytes: usize) -> (r: String)
    ensures
        truncated_ok(filename@, max_bytes as int, r@),
{
    let cs = str_chars(filename);
    let enc = utf16le_encode(&cs);
    if enc.len() <= max_bytes {
        return filename.to_owned();
    }
    // Split into stem and dotted extension.
    let clen: usize = cs.len();
    let mut stem: Vec<char> = Vec::new();
    let mut extd: Vec<char> = Vec::new();
    match find_ext_dot(&cs) {
        Some(d) => {
            let mut i: usize = 0;
            while i < d
                invariant
                    i <= d <= cs@.len(),
                    stem@ == cs@.take(i as int),
                decreases d - i,
            {
                stem.push(cs[i]);
                assert(stem@ =~= cs@.take(i + 1));
                i = i + 1;
            }
            if d + 1 < clen {
                extd.push('.');
                let mut j: usize = d + 1;
                while j < clen
                    invariant
                        d + 1 <= j <= clen,
                        clen == cs@.len(),
                        extd@ == seq!['.'] + cs@.subrange(d + 1, j as int),
                    decreases clen - j,
                {
                    extd.push(cs[j]);
                    assert(extd@ =~= seq!['.'] + cs@.subrange(d + 1, j + 1));
                    j = j + 1;
                }
                assert(cs@.subrange(d + 1, clen as int) =~= cs@.skip(d + 1));
            } else {
                assert(cs@.skip(d + 1) =~= Seq::<char>::empty());
            }
        },
        None => {
            let mut i: usize = 0;
            while i < clen
                invariant
                    i <= clen,
                    clen == cs@.len(),
                    stem@ == cs@.take(i as int),
                decreases clen - i,
            {
                stem.push(cs[i]);
                assert(stem@ =~= cs@.take(i + 1));
                i = i + 1;
            }
            assert(cs@.take(clen as int) =~= cs@);
        },
    }
    assert(stem@ == spec_stem(cs@));
    assert(extd@ == dot_ext(cs@));
    let eenc = utf16le_encode(&extd);
    let ext_len: usize = eenc.len();
    if max_bytes >= 8 && max_bytes - 8 >= ext_len {
        // Room for a stem prefix beside ellipsis and extension.
        let avail: usize = max_bytes - 4 - ext_len;
        let kn = max_prefix_fitting(&stem, avail);
        let k = adjust_cut(&stem, kn);
        let mut out: Vec<char> = Vec::new();
        let mut i: usize = 0;
        while i < k
            invariant
                i <= k <= stem@.len(),
                out@ == stem@.take(i as int),
            decreases k - i,
        {
            out.push(stem[i]);
            assert(out@ =~= stem@.take(i + 1));
            i = i + 1;
        }
        out.push('.');
        out.push('.');
        let mut j: usize = 0;
        while j < extd.len()
            invariant
                j <= extd@.len(),
                out@ == stem@.take(k as int) + ellipsis_chars() + extd@.take(j as int),
            decreases extd@.len() - j,
        {
            out.push(extd[j]);
            assert(out@ =~= stem@.take(k as int) + ellipsis_chars() + extd@.take(j + 1));
            j = j + 1;
        }
        assert(extd@.take(extd@.len() as int) =~= extd@);
        proof {
            lemma_utf16le_prefix_mono(stem@, k as int, kn as int);
            lemma_ellipsis_bytes();
            lemma_utf16le_concat(stem@.take(k as int), ellipsis_chars());
            lemma_utf16le_concat(stem@.take(k as int) + ellipsis_chars(), extd@);
            assert((stem@.take(k as int) + ellipsis_chars()) + extd@ =~= out@);
            assert(utf16le(out@).len() <= max_bytes);
            assert(cut_shape(cs@, max_bytes as int, out@, kn as int, k as int));
        }
        chars_string(&out)
    } else {
        // Not even ellipsis and extension fit: cut the name itself.
        let k = max_prefix_fitting(&cs, max_bytes);
        let mut out: Vec<char> = Vec::new();
        let mut i: usize = 0;
        while i < k
            invariant
                i <= k <= cs@.len(),
                out@ == cs@.take(i as int),
            decreases k - i,
        {
            out.push(cs[i]);
            assert(out@ =~= cs@.take(i + 1));
            i = i + 1;
        }
        chars_string(&out)
    }
}

} // verus!
