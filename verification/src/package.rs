//! Patching the host package: relationship ids, relationship entries,
//! content-type defaults, and object markup in the body.
//!
//! The package is handled as a list of named parts (the archive's
//! entries). Three parts are rewritten — body markup, its relationship
//! table and the content-type registry — and two binary parts are added
//! per attachment; every other part is kept verbatim.

use vstd::prelude::*;
use vstd::string::StringSliceAdditionalSpecFns;
use vstd::string::StrSliceExecFns;
use crate::byteseq::{
    first_found,
    find_from,
    spliced,
    splice,
    dec_digits,
    push_dec,
    hex_digits,
    push_hex,
    lemma_first_found,
};

verus! {

/// One named part of the host package.
#[derive(Clone, Debug)]
pub struct PackagePart {
    pub name: Vec<u8>,
    pub data: Vec<u8>,
}

impl View for PackagePart {
    type V = (Seq<u8>, Seq<u8>);

    open spec fn view(&self) -> (Seq<u8>, Seq<u8>) {
        (self.name@, self.data@)
    }
}

/// The views of a part list.
pub open spec fn part_views(ps: Seq<PackagePart>) -> Seq<(Seq<u8>, Seq<u8>)> {
    ps.map_values(|p: PackagePart| p@)
}

/// Byte-wise equality of two buffers.
pub fn bytes_eq(a: &Vec<u8>, b: &Vec<u8>) -> (r: bool)
    ensures
        r == (a@ == b@),
{
    if a.len() != b.len() {
        assert(a@ != b@);
        return false;
    }
    let n: usize = a.len();
    let mut i: usize = 0;
    while i < n
        invariant
            i <= n,
            n == a@.len() == b@.len(),
            forall|t: int| 0 <= t < i ==> a@[t] == b@[t],
        decreases n - i,
    {
        if a[i] != b[i] {
            return false;
        }
        i = i + 1;
    }
    assert(a@ =~= b@);
    true
}

/// The pattern that introduces a relationship id: `Id="rId`.
pub open spec fn rid_pat() -> Seq<u8> {
    seq![73u8, 100u8, 61u8, 34u8, 114u8, 73u8, 100u8]
}

pub open spec fn is_digit(b: u8) -> bool {
    48 <= b <= 57
}

/// The number a run of decimal digit bytes denotes.
pub open spec fn digits_val(ds: Seq<u8>) -> nat
    decreases ds.len(),
{
    if ds.len() == 0 {
        0
    } else {
        digits_val(ds.drop_last()) * 10 + (ds.last() - 48) as nat
    }
}

/// At `i` the table holds `Id="rId` followed by `dl` digits and a
/// closing quote.
pub open spec fn rid_at(s: Seq<u8>, i: int, dl: int) -> bool {
    &&& 0 <= i
    &&& 1 <= dl
    &&& i + 7 + dl + 1 <= s.len()
    &&& s.subrange(i, i + 7) == rid_pat()
    &&& (forall|t: int| i + 7 <= t < i + 7 + dl ==> is_digit(s[t]))
    &&& s[i + 7 + dl] == 34
}

/// Some complete relationship id with value `v` stands at `i`.
pub open spec fn rid_occurs(s: Seq<u8>, i: int, v: nat) -> bool {
    exists|dl: int| rid_at(s, i, dl) && v == digits_val(s.subrange(i + 7, i + 7 + dl))
}

/// Values at or above this cap are treated as the cap when ids are
/// scanned: an id of more than eighteen digits saturates. The cap
/// keeps every fresh id, `base + 2*index + 1` with the batch capped at
/// 2^28 records, inside a 64-bit integer.
pub open spec fn rid_cap() -> nat {
    1000000000000000000
}

/// Growing a digit run never shrinks its value.
proof fn lemma_digits_val_push(ds: Seq<u8>, b: u8)
    requires
        is_digit(b),
    ensures
        digits_val(ds.push(b)) == digits_val(ds) * 10 + (b - 48),
        digits_val(ds.push(b)) >= digits_val(ds),
{
    assert(ds.push(b).drop_last() =~= ds);
    assert(digits_val(ds) * 10 >= digits_val(ds)) by (nonlinear_arith);
}

/// `base` is the next usable id of the table `rels`: it exceeds every
/// id the table holds (of those under the scanning cap), and it is
/// minimal — one more than some id the table holds, or 1.
pub open spec fn base_is_next(rels: Seq<u8>, base: nat) -> bool {
    &&& 1 <= base <= rid_cap() + 1
    &&& base_past_existing(rels, base)
    &&& (base > 1 ==> exists|i: int, v: nat| rid_occurs(rels, i, v) && v + 1 >= base)
}

/// The next usable relationship id: one more than the largest id the
/// table holds (ids at or above the cap count as the cap), or 1 when
/// the table holds none.
pub fn get_next_relationship_id(rels_xml: &Vec<u8>) -> (r: u64)
    ensures
        base_is_next(rels_xml@, r as nat),
{
    let s = rels_xml;
    let slen: usize = s.len();
    let mut max: u64 = 0;
    let mut i: usize = 0;
    while i < slen
        invariant
            0 <= i <= slen,
            slen == s@.len(),
            max <= rid_cap(),
            forall|i0: int, v: nat| rid_occurs(s@, i0, v) && i0 < i && v < rid_cap() ==> v <= max,
            max > 0 ==> exists|i0: int, v: nat| rid_occurs(s@, i0, v) && v >= max,
        decreases slen - i,
    {
        if slen - i >= 9 && s[i] == 73 && s[i + 1] == 100 && s[i + 2] == 61 && s[i + 3] == 34 && s[i
            + 4] == 114 && s[i + 5] == 73 && s[i + 6] == 100 && s[i + 7] >= 48 && s[i + 7] <= 57 {
            assert(s@.subrange(i as int, i + 7) =~= rid_pat());
            // Walk the digit run, saturating at the cap.
            let mut j: usize = i + 7;
            let mut acc: u64 = 0;
            while j < slen && s[j] >= 48 && s[j] <= 57
                invariant
                    i + 7 <= j <= slen,
                    slen == s@.len(),
                    acc <= rid_cap(),
                    forall|t: int| i + 7 <= t < j ==> is_digit(s@[t]),
                    digits_val(s@.subrange(i + 7, j as int)) < rid_cap() ==> acc == digits_val(
                        s@.subrange(i + 7, j as int),
                    ),
                    digits_val(s@.subrange(i + 7, j as int)) >= rid_cap() ==> acc == rid_cap(),
                decreases slen - j,
            {
                let d: u64 = (s[j] - 48) as u64;
                proof {
                    assert(s@.subrange(i + 7, j + 1) =~= s@.subrange(i + 7, j as int).push(s@[j as int]));
                    lemma_digits_val_push(s@.subrange(i + 7, j as int), s@[j as int]);
                }
                if acc >= 100000000000000000 {
                    // One more digit would pass the cap: saturate.
                    proof {
                        assert(digits_val(s@.subrange(i + 7, j + 1)) >= acc * 10) by (nonlinear_arith)
                            requires
                                digits_val(s@.subrange(i + 7, j + 1)) == digits_val(
                                    s@.subrange(i + 7, j as int),
                                ) * 10 + (s@[j as int] - 48),
                                digits_val(s@.subrange(i + 7, j as int)) >= acc,
                                s@[j as int] >= 48,
                                acc >= 0,
                        ;
                    }
                    acc = 1000000000000000000;
                } else {
                    acc = acc * 10 + d;
                }
                j = j + 1;
            }
            if j < slen && s[j] == 34 {
                // A complete id: its digit run ends at the quote.
                let dl: usize = j - (i + 7);
                assert(rid_at(s@, i as int, dl as int));
                if acc > max {
                    max = acc;
                    proof {
                        let ghost v = digits_val(s@.subrange(i + 7, j as int));
                        assert(rid_occurs(s@, i as int, v));
                        if v < rid_cap() {
                            assert(acc == v);
                        } else {
                            assert(acc == rid_cap() && v >= rid_cap());
                        }
                    }
                }
                proof {
                    // Any id starting here has exactly this digit run.
                    assert forall|v: nat| rid_occurs(s@, i as int, v) && v < rid_cap() implies v
                        <= max by {
                        let dl0 = choose|dl0: int|
                            rid_at(s@, i as int, dl0) && v == digits_val(
                                s@.subrange(i + 7, i + 7 + dl0),
                            );
                        if dl0 < dl {
                            assert(is_digit(s@[i + 7 + dl0]));
                        }
                        if dl0 > dl {
                            assert(is_digit(s@[i + 7 + dl]));
                        }
                        assert(dl0 == dl);
                    }
                }
            } else {
                proof {
                    // No closing quote right after the run: no id starts here.
                    assert forall|v: nat| !rid_occurs(s@, i as int, v) by {
                        if rid_occurs(s@, i as int, v) {
                            let dl0 = choose|dl0: int|
                                rid_at(s@, i as int, dl0) && v == digits_val(
                                    s@.subrange(i + 7, i + 7 + dl0),
                                );
                            if dl0 < j - (i + 7) {
                                assert(is_digit(s@[i + 7 + dl0]));
                            }
                            if dl0 > j - (i + 7) {
                                assert(is_digit(s@[i + 7 + (j - (i + 7))]));
                            }
                        }
                    }
                }
            }
        } else {
            proof {
                // The pattern does not match at `i`: no id starts here.
                assert forall|v: nat| !rid_occurs(s@, i as int, v) by {
                    if rid_occurs(s@, i as int, v) {
                        let dl0 = choose|dl0: int|
                            rid_at(s@, i as int, dl0) && v == digits_val(
                                s@.subrange(i + 7, i + 7 + dl0),
                            );
                        assert(s@.subrange(i as int, i + 7)[0] == s@[i as int]);
                        assert(s@.subrange(i as int, i + 7)[1] == s@[i + 1]);
                        assert(s@.subrange(i as int, i + 7)[2] == s@[i + 2]);
                        assert(s@.subrange(i as int, i + 7)[3] == s@[i + 3]);
                        assert(s@.subrange(i as int, i + 7)[4] == s@[i + 4]);
                        assert(s@.subrange(i as int, i + 7)[5] == s@[i + 5]);
                        assert(s@.subrange(i as int, i + 7)[6] == s@[i + 6]);
                        assert(is_digit(s@[i + 7]));
                    }
                }
            }
        }
        i = i + 1;
    }
    max + 1
}

/// A fresh copy of a byte buffer.
pub fn copy_bytes(a: &Vec<u8>) -> (r: Vec<u8>)
    ensures
        r@ == a@,
{
    let mut r: Vec<u8> = Vec::new();
    r.extend_from_slice(a.as_slice());
    assert(r@ =~= a@);
    r
}

pub open spec fn rel_p1() -> Seq<u8> {
    "<Relationship Id=\"rId".spec_bytes()
}

pub open spec fn rel_p2_object() -> Seq<u8> {
    "\" Type=\"http://schemas.openxmlformats.org/officeDocument/2006/relationships/oleObject\" Target=\"embeddings/oleObject".spec_bytes()
}

pub open spec fn rel_p3_object() -> Seq<u8> {
    ".bin\"/>".spec_bytes()
}

pub open spec fn rel_p2_image() -> Seq<u8> {
    "\" Type=\"http://schemas.openxmlformats.org/officeDocument/2006/relationships/image\" Target=\"media/image".spec_bytes()
}

pub open spec fn rel_p3_image() -> Seq<u8> {
    ".emf\"/>".spec_bytes()
}

pub open spec fn rels_close() -> Seq<u8> {
    "</Relationships>".spec_bytes()
}

/// The two relationship entries of attachment `idx` (zero-based):
/// object stream at id `base + 2*idx`, icon image at `base + 2*idx + 1`,
/// both pointing at the parts numbered `idx + 1`.
pub open spec fn rel_pair(base: nat, idx: nat) -> Seq<u8> {
    rel_p1() + dec_digits(base + 2 * idx) + rel_p2_object() + dec_digits(idx + 1) + rel_p3_object()
        + rel_p1() + dec_digits(base + 2 * idx + 1) + rel_p2_image() + dec_digits(idx + 1)
        + rel_p3_image()
}

/// The relationship entries of attachments `0 .. count`.
pub open spec fn rels_block(base: nat, count: nat) -> Seq<u8>
    decreases count,
{
    if count == 0 {
        Seq::empty()
    } else {
        rels_block(base, (count - 1) as nat) + rel_pair(base, (count - 1) as nat)
    }
}

/// Appends the two entries of attachment `idx`.
fn push_rel_pair(out: &mut Vec<u8>, base: u64, idx: usize)
    requires
        base <= 0x1000000000000000,
        idx <= 0x10000000,
    ensures
        final(out)@ == old(out)@ + rel_pair(base as nat, idx as nat),
{
    let mut p: Vec<u8> = "<Relationship Id=\"rId".as_bytes_vec();
    out.append(&mut p);
    push_dec(out, base + 2 * idx as u64);
    let mut p: Vec<u8> =
        "\" Type=\"http://schemas.openxmlformats.org/officeDocument/2006/relationships/oleObject\" Target=\"embeddings/oleObject".as_bytes_vec();
    out.append(&mut p);
    push_dec(out, idx as u64 + 1);
    let mut p: Vec<u8> = ".bin\"/>".as_bytes_vec();
    out.append(&mut p);
    let mut p: Vec<u8> = "<Relationship Id=\"rId".as_bytes_vec();
    out.append(&mut p);
    push_dec(out, base + 2 * idx as u64 + 1);
    let mut p: Vec<u8> =
        "\" Type=\"http://schemas.openxmlformats.org/officeDocument/2006/relationships/image\" Target=\"media/image".as_bytes_vec();
    out.append(&mut p);
    push_dec(out, idx as u64 + 1);
    let mut p: Vec<u8> = ".emf\"/>".as_bytes_vec();
    out.append(&mut p);
    assert(out@ =~= old(out)@ + rel_pair(base as nat, idx as nat));
}

/// Adds two relationship entries per attachment immediately before the
/// table's closing tag; a table without one is returned unchanged.
pub fn add_ole_relationships_to_rels(rels_xml: &Vec<u8>, count: usize, start_rid: u64) -> (r: Vec<
    u8,
>)
    requires
        start_rid <= 0x1000000000000000,
        count <= 0x10000000,
    ensures
        r@ == (match first_found(rels_xml@, rels_close(), 0) {
            None => rels_xml@,
            Some(p) => spliced(rels_xml@, p as int, rels_block(start_rid as nat, count as nat)),
        }),
{
    let mut block: Vec<u8> = Vec::new();
    let mut idx: usize = 0;
    while idx < count
        invariant
            0 <= idx <= count,
            count <= 0x10000000,
            start_rid <= 0x1000000000000000,
            block@ == rels_block(start_rid as nat, idx as nat),
        decreases count - idx,
    {
        push_rel_pair(&mut block, start_rid, idx);
        idx = idx + 1;
    }
    let close = "</Relationships>".as_bytes_vec();
    match find_from(rels_xml, &close, 0) {
        None => copy_bytes(rels_xml),
        Some(p) => {
            proof {
                lemma_first_found(rels_xml@, close@, 0);
            }
            splice(rels_xml, p, &block)
        },
    }
}

pub open spec fn ct_probe_bin() -> Seq<u8> {
    "Extension=\"bin\"".spec_bytes()
}

pub open spec fn ct_entry_bin() -> Seq<u8> {
    "<Default Extension=\"bin\" ContentType=\"application/vnd.openxmlformats-officedocument.oleObject\"/>".spec_bytes()
}

pub open spec fn ct_probe_emf() -> Seq<u8> {
    "Extension=\"emf\"".spec_bytes()
}

pub open spec fn ct_entry_emf() -> Seq<u8> {
    "<Default Extension=\"emf\" ContentType=\"image/x-emf\"/>".spec_bytes()
}

pub open spec fn types_close() -> Seq<u8> {
    "</Types>".spec_bytes()
}

/// `s` with `entry` put before the registry's closing tag, unless the
/// probe already occurs (the default is already declared) or there is
/// no closing tag to put it before.
pub open spec fn with_default(s: Seq<u8>, probe: Seq<u8>, entry: Seq<u8>) -> Seq<u8> {
    if first_found(s, probe, 0) is Some {
        s
    } else {
        match first_found(s, types_close(), 0) {
            None => s,
            Some(p) => spliced(s, p as int, entry),
        }
    }
}

fn apply_default(s: &Vec<u8>, probe: &Vec<u8>, entry: &Vec<u8>) -> (r: Vec<u8>)
    ensures
        r@ == with_default(s@, probe@, entry@),
{
    match find_from(s, probe, 0) {
        Some(_) => copy_bytes(s),
        None => {
            let close = "</Types>".as_bytes_vec();
            match find_from(s, &close, 0) {
                None => copy_bytes(s),
                Some(p) => {
                    proof {
                        lemma_first_found(s@, close@, 0);
                    }
                    splice(s, p, entry)
                },
            }
        },
    }
}

/// Declares default content types for the object-stream and icon-image
/// extensions, each only when not yet declared.
pub fn add_ole_content_types(content_types_xml: &Vec<u8>) -> (r: Vec<u8>)
    ensures
        r@ == with_default(
            with_default(content_types_xml@, ct_probe_bin(), ct_entry_bin()),
            ct_probe_emf(),
            ct_entry_emf(),
        ),
{
    let probe_bin = "Extension=\"bin\"".as_bytes_vec();
    let entry_bin =
        "<Default Extension=\"bin\" ContentType=\"application/vnd.openxmlformats-officedocument.oleObject\"/>".as_bytes_vec();
    let step1 = apply_default(content_types_xml, &probe_bin, &entry_bin);
    let probe_emf = "Extension=\"emf\"".as_bytes_vec();
    let entry_emf = "<Default Extension=\"emf\" ContentType=\"image/x-emf\"/>".as_bytes_vec();
    apply_default(&step1, &probe_emf, &entry_emf)
}

pub open spec fn frag_p1() -> Seq<u8> {
    "\n<w:p w14:paraId=\"".spec_bytes()
}

pub open spec fn frag_p2() -> Seq<u8> {
    "\"><w:pPr><w:rPr><w:rFonts w:hint=\"default\"/><w:lang w:val=\"en-US\"/></w:rPr></w:pPr><w:r><w:rPr><w:rFonts w:hint=\"default\"/><w:lang w:val=\"en-US\"/></w:rPr><w:object><v:shape id=\"_x0000_i".spec_bytes()
}

pub open spec fn frag_p3() -> Seq<u8> {
    "\" o:spt=\"75\" type=\"#_x0000_t75\" style=\"height:65.25pt;width:72.4pt;\" o:ole=\"t\" filled=\"f\" o:preferrelative=\"t\" stroked=\"f\" coordsize=\"21600,21600\"><v:fill on=\"f\" focussize=\"0,0\"/><v:stroke on=\"f\"/><v:imagedata r:id=\"rId".spec_bytes()
}

pub open spec fn frag_p4() -> Seq<u8> {
    "\" o:title=\"\"/><o:lock v:ext=\"edit\" aspectratio=\"t\"/><w10:wrap type=\"none\"/><w10:anchorlock/></v:shape><o:OLEObject Type=\"Embed\" ProgID=\"Package\" ShapeID=\"_x0000_i".spec_bytes()
}

pub open spec fn frag_p5() -> Seq<u8> {
    "\" DrawAspect=\"Icon\" ObjectID=\"_146807572".spec_bytes()
}

pub open spec fn frag_p6() -> Seq<u8> {
    "\" r:id=\"rId".spec_bytes()
}

pub open spec fn frag_p7() -> Seq<u8> {
    "\"><o:LockedField>false</o:LockedField></o:OLEObject></w:object></w:r></w:p>\n".spec_bytes()
}

/// The object markup of attachment `idx`: an icon shape whose image is
/// relationship `base + 2*idx + 1`, wrapped in an object element whose
/// stream is relationship `base + 2*idx`, with per-object paragraph,
/// shape and object tags derived from `idx`.
pub open spec fn ole_fragment(idx: nat, base: nat) -> Seq<u8> {
    frag_p1() + hex_digits(0x10000000 + idx, 8) + frag_p2() + dec_digits(1025 + idx) + frag_p3()
        + dec_digits(base + 2 * idx + 1) + frag_p4() + dec_digits(1025 + idx) + frag_p5()
        + dec_digits(idx) + frag_p6() + dec_digits(base + 2 * idx) + frag_p7()
}

/// Appends the object markup of attachment `idx`.
#[verifier::rlimit(50)]
fn push_fragment(out: &mut Vec<u8>, idx: usize, base: u64)
    requires
        base <= 0x1000000000000000,
        idx <= 0x10000000,
    ensures
        final(out)@ == old(out)@ + ole_fragment(idx as nat, base as nat),
{
    let mut p: Vec<u8> = "\n<w:p w14:paraId=\"".as_bytes_vec();
    out.append(&mut p);
    push_hex(out, 0x10000000 + idx as u64, 8);
    let mut p: Vec<u8> =
        "\"><w:pPr><w:rPr><w:rFonts w:hint=\"default\"/><w:lang w:val=\"en-US\"/></w:rPr></w:pPr><w:r><w:rPr><w:rFonts w:hint=\"default\"/><w:lang w:val=\"en-US\"/></w:rPr><w:object><v:shape id=\"_x0000_i".as_bytes_vec();
    out.append(&mut p);
    push_dec(out, 1025 + idx as u64);
    let mut p: Vec<u8> =
        "\" o:spt=\"75\" type=\"#_x0000_t75\" style=\"height:65.25pt;width:72.4pt;\" o:ole=\"t\" filled=\"f\" o:preferrelative=\"t\" stroked=\"f\" coordsize=\"21600,21600\"><v:fill on=\"f\" focussize=\"0,0\"/><v:stroke on=\"f\"/><v:imagedata r:id=\"rId".as_bytes_vec();
    out.append(&mut p);
    push_dec(out, base + 2 * idx as u64 + 1);
    let mut p: Vec<u8> =
        "\" o:title=\"\"/><o:lock v:ext=\"edit\" aspectratio=\"t\"/><w10:wrap type=\"none\"/><w10:anchorlock/></v:shape><o:OLEObject Type=\"Embed\" ProgID=\"Package\" ShapeID=\"_x0000_i".as_bytes_vec();
    out.append(&mut p);
    push_dec(out, 1025 + idx as u64);
    let mut p: Vec<u8> = "\" DrawAspect=\"Icon\" ObjectID=\"_146807572".as_bytes_vec();
    out.append(&mut p);
    push_dec(out, idx as u64);
    let mut p: Vec<u8> = "\" r:id=\"rId".as_bytes_vec();
    out.append(&mut p);
    push_dec(out, base + 2 * idx as u64);
    let mut p: Vec<u8> =
        "\"><o:LockedField>false</o:LockedField></o:OLEObject></w:object></w:r></w:p>\n".as_bytes_vec();
    out.append(&mut p);
    assert(out@ =~= old(out)@ + ole_fragment(idx as nat, base as nat));
}

/// The chapter ids of a record list, in list order.
pub open spec fn zip_ids(files: Seq<crate::records::EmbeddedFile>) -> Seq<Seq<char>> {
    files.map_values(|f: crate::records::EmbeddedFile| f.zip_id@)
}

/// The distinct values of `ids`, each at its first occurrence.
pub open spec fn distinct_keys(ids: Seq<Seq<char>>) -> Seq<Seq<char>>
    decreases ids.len(),
{
    if ids.len() == 0 {
        Seq::empty()
    } else {
        let rest = distinct_keys(ids.drop_last());
        if rest.contains(ids.last()) {
            rest
        } else {
            rest.push(ids.last())
        }
    }
}

/// The markup of every attachment of chapter `key` among the first `j`
/// records, in record order, each under its own record index.
pub open spec fn group_block(
    files: Seq<crate::records::EmbeddedFile>,
    key: Seq<char>,
    base: nat,
    j: int,
) -> Seq<u8>
    decreases j,
{
    if j <= 0 {
        Seq::empty()
    } else {
        group_block(files, key, base, j - 1) + (if files[j - 1].zip_id@ == key {
            ole_fragment((j - 1) as nat, base)
        } else {
            Seq::empty()
        })
    }
}

/// The anchor paragraph text of chapter `key`.
pub open spec fn marker_bytes(key: Seq<char>) -> Seq<u8> {
    "EMBED_MARKER_".spec_bytes() + vstd::utf8::encode_utf8(key)
}

pub open spec fn wp_close() -> Seq<u8> {
    "</w:p>".spec_bytes()
}

/// `body` with `block` inserted after the first closing paragraph tag
/// that follows the first occurrence of `marker`; unchanged when either
/// is not found.
pub open spec fn insert_group(body: Seq<u8>, marker: Seq<u8>, block: Seq<u8>) -> Seq<u8> {
    match first_found(body, marker, 0) {
        None => body,
        Some(mp) => match first_found(body, wp_close(), mp) {
            None => body,
            Some(cp) => spliced(body, cp + wp_close().len() as int, block),
        },
    }
}

/// `body` after the chapters under the first `t` keys have been
/// patched, in key order.
pub open spec fn patched_body_upto(
    body: Seq<u8>,
    files: Seq<crate::records::EmbeddedFile>,
    base: nat,
    keys: Seq<Seq<char>>,
    t: int,
) -> Seq<u8>
    decreases t,
{
    if t <= 0 {
        body
    } else {
        insert_group(
            patched_body_upto(body, files, base, keys, t - 1),
            marker_bytes(keys[t - 1]),
            group_block(files, keys[t - 1], base, files.len() as int),
        )
    }
}

/// `body` with every chapter's attachments inserted after its marker,
/// chapters in order of their first record.
pub open spec fn patched_body(
    body: Seq<u8>,
    files: Seq<crate::records::EmbeddedFile>,
    base: nat,
) -> Seq<u8> {
    let keys = distinct_keys(zip_ids(files));
    patched_body_upto(body, files, base, keys, keys.len() as int)
}

/// The views of a key list.
pub open spec fn key_views(ks: Seq<String>) -> Seq<Seq<char>> {
    ks.map_values(|s: String| s@)
}

/// Inserts each chapter's object markup after that chapter's marker
/// paragraph. Chapters whose marker is absent are left out; the others
/// are untouched by that.
pub fn add_ole_objects_to_document_xml(
    document_xml: &Vec<u8>,
    embedded_files: &Vec<crate::records::EmbeddedFile>,
    start_rid: u64,
) -> (r: Vec<u8>)
    requires
        start_rid <= 0x1000000000000000,
        embedded_files@.len() <= 0x10000000,
    ensures
        r@ == patched_body(document_xml@, embedded_files@, start_rid as nat),
{
    let files = embedded_files;
    let flen: usize = files.len();
    // The chapters, each at its first record.
    let mut keys: Vec<String> = Vec::new();
    let mut i: usize = 0;
    while i < flen
        invariant
            0 <= i <= flen,
            flen == files@.len(),
            key_views(keys@) == distinct_keys(zip_ids(files@).take(i as int)),
        decreases flen - i,
    {
        let klen: usize = keys.len();
        let mut found: bool = false;
        let mut j: usize = 0;
        while j < klen && !found
            invariant
                0 <= j <= klen,
                klen == keys@.len(),
                i < flen == files@.len(),
                found ==> key_views(keys@).contains(files@[i as int].zip_id@),
                !found ==> forall|t: int| 0 <= t < j ==> keys@[t]@ != files@[i as int].zip_id@,
            decreases 2 * (klen - j) + (if found {
                0int
            } else {
                1int
            }),
        {
            if keys[j].eq(&files[i].zip_id) {
                found = true;
                assert(key_views(keys@)[j as int] == files@[i as int].zip_id@);
            } else {
                j = j + 1;
            }
        }
        proof {
            if !found {
                assert forall|t: int| 0 <= t < key_views(keys@).len() implies key_views(keys@)[t]
                    != files@[i as int].zip_id@ by {}
                assert(!key_views(keys@).contains(files@[i as int].zip_id@));
            }
            assert(zip_ids(files@).take(i + 1).drop_last() =~= zip_ids(files@).take(i as int));
            assert(zip_ids(files@).take(i + 1).last() == files@[i as int].zip_id@);
        }
        if !found {
            keys.push(files[i].zip_id.clone());
            assert(key_views(keys@) =~= distinct_keys(zip_ids(files@).take(i + 1)));
        } else {
            assert(key_views(keys@) =~= distinct_keys(zip_ids(files@).take(i + 1)));
        }
        i = i + 1;
    }
    assert(zip_ids(files@).take(flen as int) =~= zip_ids(files@));
    // Patch the body one chapter at a time.
    let mut body = copy_bytes(document_xml);
    let close = "</w:p>".as_bytes_vec();
    let knum: usize = keys.len();
    let mut t: usize = 0;
    while t < knum
        invariant
            0 <= t <= knum,
            knum == keys@.len(),
            flen == files@.len() <= 0x10000000,
            start_rid <= 0x1000000000000000,
            close@ == wp_close(),
            key_views(keys@) == distinct_keys(zip_ids(files@)),
            body@ == patched_body_upto(
                document_xml@,
                files@,
                start_rid as nat,
                key_views(keys@),
                t as int,
            ),
        decreases knum - t,
    {
        // This chapter's marker text and collected object markup.
        let mut marker: Vec<u8> = "EMBED_MARKER_".as_bytes_vec();
        let mut kb: Vec<u8> = keys[t].as_str().as_bytes_vec();
        marker.append(&mut kb);
        assert(marker@ =~= marker_bytes(keys@[t as int]@));
        let mut block: Vec<u8> = Vec::new();
        let mut j: usize = 0;
        while j < flen
            invariant
                0 <= j <= flen,
                flen == files@.len() <= 0x10000000,
                start_rid <= 0x1000000000000000,
                t < knum == keys@.len(),
                block@ == group_block(
                    files@,
                    keys@[t as int]@,
                    start_rid as nat,
                    j as int,
                ),
            decreases flen - j,
        {
            if files[j].zip_id.eq(&keys[t]) {
                push_fragment(&mut block, j, start_rid);
                assert(block@ =~= group_block(
                    files@,
                    keys@[t as int]@,
                    start_rid as nat,
                    j + 1,
                ));
            } else {
                assert(block@ + Seq::<u8>::empty() =~= block@);
            }
            j = j + 1;
        }
        let next_body = match find_from(&body, &marker, 0) {
            None => copy_bytes(&body),
            Some(mp) => {
                proof {
                    lemma_first_found(body@, marker@, 0);
                }
                match find_from(&body, &close, mp) {
                    None => copy_bytes(&body),
                    Some(cp) => {
                        proof {
                            lemma_first_found(body@, close@, mp as nat);
                        }
                        let bl: usize = body.len();
                        assert(cp + close@.len() <= bl);
                        splice(&body, cp + close.len(), &block)
                    },
                }
            },
        };
        body = next_body;
        assert(key_views(keys@)[t as int] == keys@[t as int]@);
        t = t + 1;
    }
    body
}

pub open spec fn doc_name() -> Seq<u8> {
    "word/document.xml".spec_bytes()
}

pub open spec fn rels_name() -> Seq<u8> {
    "word/_rels/document.xml.rels".spec_bytes()
}

pub open spec fn ct_name() -> Seq<u8> {
    "[Content_Types].xml".spec_bytes()
}

/// A part the patch rewrites rather than copies.
pub open spec fn is_modified_name(nm: Seq<u8>) -> bool {
    nm == doc_name() || nm == rels_name() || nm == ct_name()
}

/// The data of the first part named `name`.
pub open spec fn find_part_data(ps: Seq<(Seq<u8>, Seq<u8>)>, name: Seq<u8>) -> Option<Seq<u8>>
    decreases ps.len(),
{
    if ps.len() == 0 {
        None
    } else if ps[0].0 == name {
        Some(ps[0].1)
    } else {
        find_part_data(ps.drop_first(), name)
    }
}

/// The first `j` parts with the rewritten names left out, in order.
pub open spec fn copied_parts(ps: Seq<(Seq<u8>, Seq<u8>)>, j: int) -> Seq<(Seq<u8>, Seq<u8>)>
    decreases j,
{
    if j <= 0 {
        Seq::empty()
    } else {
        copied_parts(ps, j - 1) + (if !is_modified_name(ps[j - 1].0) {
            seq![ps[j - 1]]
        } else {
            Seq::empty()
        })
    }
}

/// How many of the first `j` parts bear a rewritten name.
pub open spec fn modified_count(ps: Seq<(Seq<u8>, Seq<u8>)>, j: int) -> int
    decreases j,
{
    if j <= 0 {
        0
    } else {
        modified_count(ps, j - 1) + (if is_modified_name(ps[j - 1].0) {
            1int
        } else {
            0int
        })
    }
}

/// What the copy pass keeps plus what it drops is everything.
pub proof fn lemma_copied_parts_len(ps: Seq<(Seq<u8>, Seq<u8>)>, j: int)
    requires
        0 <= j <= ps.len(),
    ensures
        copied_parts(ps, j).len() == j - modified_count(ps, j),
        0 <= modified_count(ps, j) <= j,
    decreases j,
{
    if j > 0 {
        lemma_copied_parts_len(ps, j - 1);
    }
}

pub open spec fn ole_part_name(k: nat) -> Seq<u8> {
    "word/embeddings/oleObject".spec_bytes() + dec_digits(k) + ".bin".spec_bytes()
}

pub open spec fn img_part_name(k: nat) -> Seq<u8> {
    "word/media/image".spec_bytes() + dec_digits(k) + ".emf".spec_bytes()
}

/// The new binary parts of the first `j` attachments: container then
/// icon, numbered from one.
pub open spec fn new_binary_parts(conts: Seq<Seq<u8>>, icons: Seq<Seq<u8>>, j: int) -> Seq<
    (Seq<u8>, Seq<u8>),
>
    decreases j,
{
    if j <= 0 {
        Seq::empty()
    } else {
        new_binary_parts(conts, icons, j - 1) + seq![
            (ole_part_name(j as nat), conts[j - 1]),
            (img_part_name(j as nat), icons[j - 1]),
        ]
    }
}

/// The rewritten relationship table.
pub open spec fn rels_patched(rels: Seq<u8>, base: nat, count: nat) -> Seq<u8> {
    match first_found(rels, rels_close(), 0) {
        None => rels,
        Some(p) => spliced(rels, p as int, rels_block(base, count)),
    }
}

/// The rewritten content-type registry.
pub open spec fn ct_patched(ct: Seq<u8>) -> Seq<u8> {
    with_default(with_default(ct, ct_probe_bin(), ct_entry_bin()), ct_probe_emf(), ct_entry_emf())
}

/// The whole patched part list for fresh-id base `base`: the copies,
/// two new binary parts per attachment, then the three rewritten parts.
pub open spec fn patched_package(
    ps: Seq<(Seq<u8>, Seq<u8>)>,
    files: Seq<crate::records::EmbeddedFile>,
    conts: Seq<Seq<u8>>,
    icons: Seq<Seq<u8>>,
    base: nat,
) -> Seq<(Seq<u8>, Seq<u8>)> {
    match (find_part_data(ps, doc_name()), find_part_data(ps, rels_name()), find_part_data(
        ps,
        ct_name(),
    )) {
        (Some(doc), Some(rels), Some(ct)) => copied_parts(ps, ps.len() as int)
            + new_binary_parts(conts, icons, conts.len() as int) + seq![
            (doc_name(), patched_body(doc, files, base)),
            (rels_name(), rels_patched(rels, base, files.len())),
            (ct_name(), ct_patched(ct)),
        ],
        _ => ps,
    }
}

/// `base` exceeds every relationship id the table holds (ids below the
/// scanning cap).
pub open spec fn base_past_existing(rels: Seq<u8>, base: nat) -> bool {
    forall|i: int, v: nat| rid_occurs(rels, i, v) && v < rid_cap() ==> v < base
}

/// The three rewritten part names differ pairwise, so a package that
/// holds each of them exactly once has exactly three rewritten parts.
pub proof fn lemma_part_names_distinct()
    ensures
        doc_name() != rels_name(),
        doc_name() != ct_name(),
        rels_name() != ct_name(),
{
    broadcast use vstd::utf8::is_ascii_chars_encode_utf8;

    reveal_strlit("word/document.xml");
    reveal_strlit("word/_rels/document.xml.rels");
    reveal_strlit("[Content_Types].xml");
    assert("word/document.xml"@.len() == 17);
    assert("word/_rels/document.xml.rels"@.len() == 28);
    assert("[Content_Types].xml"@.len() == 19);
    assert(vstd::utf8::is_ascii_chars("word/document.xml"@));
    assert(vstd::utf8::is_ascii_chars("word/_rels/document.xml.rels"@));
    assert(vstd::utf8::is_ascii_chars("[Content_Types].xml"@));
    assert(doc_name().len() == 17);
    assert(rels_name().len() == 28);
    assert(ct_name().len() == 19);
}

/// A structural fault that aborts the patch.
#[derive(Clone, Copy, Debug, PartialEq, Eq)]
pub enum PatchError {
    MissingPart,
}

/// The first part named `name`, by index.
fn find_part(parts: &Vec<PackagePart>, name: &Vec<u8>) -> (r: Option<usize>)
    ensures
        match r {
            Some(i) => 0 <= i < parts@.len() && parts@[i as int]@.0 == name@ && find_part_data(
                part_views(parts@),
                name@,
            ) == Some(parts@[i as int]@.1),
            None => find_part_data(part_views(parts@), name@) is None,
        },
{
    let n: usize = parts.len();
    let mut i: usize = 0;
    assert(part_views(parts@).skip(0) =~= part_views(parts@));
    while i < n
        invariant
            0 <= i <= n,
            n == parts@.len(),
            find_part_data(part_views(parts@), name@) == find_part_data(
                part_views(parts@).skip(i as int),
                name@,
            ),
        decreases n - i,
    {
        proof {
            assert(part_views(parts@).skip(i as int)[0] == parts@[i as int]@);
            assert(part_views(parts@).skip(i as int).drop_first() =~= part_views(parts@).skip(
                i + 1,
            ));
        }
        if bytes_eq(&parts[i].name, name) {
            return Some(i);
        }
        i = i + 1;
    }
    assert(part_views(parts@).skip(n as int) =~= Seq::empty());
    None
}

/// Rewrites the host package's parts: copies every part but the three
/// rewritten ones, adds each attachment's container and icon as new
/// binary parts, patches body markup, relationship table and
/// content-type registry. Fails exactly when one of the three parts is
/// missing, and touches nothing else then.
pub fn embed_ole_objects_into_parts(
    parts: &Vec<PackagePart>,
    files: &Vec<crate::records::EmbeddedFile>,
    containers: &Vec<Vec<u8>>,
    icons: &Vec<Vec<u8>>,
) -> (r: Result<Vec<PackagePart>, PatchError>)
    requires
        files@.len() == containers@.len() == icons@.len(),
        files@.len() <= 0x10000000,
    ensures
        r is Err <==> (find_part_data(part_views(parts@), doc_name()) is None || find_part_data(
            part_views(parts@),
            rels_name(),
        ) is None || find_part_data(part_views(parts@), ct_name()) is None),
        match r {
            Ok(out) => exists|base: nat|
                base_is_next(find_part_data(part_views(parts@), rels_name()).unwrap(), base)
                    && part_views(out@) == patched_package(
                    part_views(parts@),
                    files@,
                    containers@.map_values(|v: Vec<u8>| v@),
                    icons@.map_values(|v: Vec<u8>| v@),
                    base,
                ),
            Err(e) => e == PatchError::MissingPart,
        },
{
    let dn = "word/document.xml".as_bytes_vec();
    let rn = "word/_rels/document.xml.rels".as_bytes_vec();
    let cn = "[Content_Types].xml".as_bytes_vec();
    let di = match find_part(parts, &dn) {
        None => {
            return Err(PatchError::MissingPart);
        },
        Some(i) => i,
    };
    let ri = match find_part(parts, &rn) {
        None => {
            return Err(PatchError::MissingPart);
        },
        Some(i) => i,
    };
    let ci = match find_part(parts, &cn) {
        None => {
            return Err(PatchError::MissingPart);
        },
        Some(i) => i,
    };
    let doc_data = copy_bytes(&parts[di].data);
    let rels_data = copy_bytes(&parts[ri].data);
    let ct_data = copy_bytes(&parts[ci].data);
    let base = get_next_relationship_id(&rels_data);
    let new_doc = add_ole_objects_to_document_xml(&doc_data, files, base);
    let new_rels = add_ole_relationships_to_rels(&rels_data, files.len(), base);
    let new_ct = add_ole_content_types(&ct_data);
    let mut out: Vec<PackagePart> = Vec::new();
    // Copy every part that is not rewritten.
    let n: usize = parts.len();
    let mut i: usize = 0;
    while i < n
        invariant
            0 <= i <= n,
            n == parts@.len(),
            dn@ == doc_name(),
            rn@ == rels_name(),
            cn@ == ct_name(),
            part_views(out@) == copied_parts(part_views(parts@), i as int),
        decreases n - i,
    {
        let keep = !bytes_eq(&parts[i].name, &dn) && !bytes_eq(&parts[i].name, &rn) && !bytes_eq(
            &parts[i].name,
            &cn,
        );
        proof {
            assert(part_views(parts@)[i as int] == parts@[i as int]@);
        }
        if keep {
            out.push(
                PackagePart {
                    name: copy_bytes(&parts[i].name),
                    data: copy_bytes(&parts[i].data),
                },
            );
            assert(part_views(out@) =~= copied_parts(part_views(parts@), i + 1));
        } else {
            assert(part_views(out@) =~= copied_parts(part_views(parts@), i + 1));
        }
        i = i + 1;
    }
    // Two new binary parts per attachment.
    let count: usize = containers.len();
    let mut k: usize = 0;
    while k < count
        invariant
            0 <= k <= count,
            count == containers@.len() == icons@.len(),
            n == parts@.len(),
            part_views(out@) == copied_parts(part_views(parts@), n as int) + new_binary_parts(
                containers@.map_values(|v: Vec<u8>| v@),
                icons@.map_values(|v: Vec<u8>| v@),
                k as int,
            ),
        decreases count - k,
    {
        let mut on: Vec<u8> = "word/embeddings/oleObject".as_bytes_vec();
        push_dec(&mut on, k as u64 + 1);
        let mut suffix: Vec<u8> = ".bin".as_bytes_vec();
        on.append(&mut suffix);
        assert(on@ =~= ole_part_name((k + 1) as nat));
        let c1 = copy_bytes(&containers[k]);
        let mut im: Vec<u8> = "word/media/image".as_bytes_vec();
        push_dec(&mut im, k as u64 + 1);
        let mut suffix: Vec<u8> = ".emf".as_bytes_vec();
        im.append(&mut suffix);
        assert(im@ =~= img_part_name((k + 1) as nat));
        let c2 = copy_bytes(&icons[k]);
        let ghost onv = on@;
        let ghost imv = im@;
        let ghost c1v = c1@;
        let ghost c2v = c2@;
        let ghost before = out@;
        out.push(PackagePart { name: on, data: c1 });
        out.push(PackagePart { name: im, data: c2 });
        proof {
            let cv = containers@.map_values(|v: Vec<u8>| v@);
            let iv = icons@.map_values(|v: Vec<u8>| v@);
            let cp = copied_parts(part_views(parts@), n as int);
            let target = cp + new_binary_parts(cv, iv, k + 1);
            lemma_new_binary_parts_len(cv, iv, k as int);
            lemma_new_binary_parts_len(cv, iv, k as int + 1);
            assert(new_binary_parts(cv, iv, k + 1) == new_binary_parts(cv, iv, k as int) + seq![
                (ole_part_name((k + 1) as nat), cv[k as int]),
                (img_part_name((k + 1) as nat), iv[k as int]),
            ]);
            assert(out@[before.len() as int]@ == (onv, c1v));
            assert(out@[before.len() as int + 1]@ == (imv, c2v));
            assert(cv[k as int] == containers@[k as int]@);
            assert(iv[k as int] == icons@[k as int]@);
            assert(part_views(before) == cp + new_binary_parts(cv, iv, k as int));
            assert(out@.len() == before.len() + 2);
            assert(part_views(out@).len() == out@.len());
            assert(new_binary_parts(cv, iv, k + 1).len() == new_binary_parts(cv, iv, k as int).len() + 2);
            assert(part_views(before).len() == before.len());
            assert(part_views(out@).len() == target.len());
            assert forall|t: int| 0 <= t < part_views(out@).len() implies part_views(out@)[t]
                == target[t] by {
                if t < before.len() {
                    assert(out@[t] == before[t]);
                    assert(part_views(before)[t] == (cp + new_binary_parts(cv, iv, k as int))[t]);
                }
            }
            assert(part_views(out@) =~= target);
        }
        k = k + 1;
    }
    // The three rewritten parts.
    let ghost dv = new_doc@;
    let ghost rv = new_rels@;
    let ghost ctv = new_ct@;
    let ghost before = out@;
    out.push(PackagePart { name: dn, data: new_doc });
    out.push(PackagePart { name: rn, data: new_rels });
    out.push(PackagePart { name: cn, data: new_ct });
    proof {
        let pv = part_views(parts@);
        let cv = containers@.map_values(|v: Vec<u8>| v@);
        let iv = icons@.map_values(|v: Vec<u8>| v@);
        let target = patched_package(pv, files@, cv, iv, base as nat);
        lemma_new_binary_parts_len(cv, iv, count as int);
        assert(out@[before.len() as int]@ == (doc_name(), dv));
        assert(out@[before.len() as int + 1]@ == (rels_name(), rv));
        assert(out@[before.len() as int + 2]@ == (ct_name(), ctv));
        assert forall|t: int| 0 <= t < part_views(out@).len() implies part_views(out@)[t]
            == target[t] by {
            if t < before.len() {
                assert(out@[t] == before[t]);
                assert(part_views(before)[t] == (copied_parts(pv, n as int) + new_binary_parts(
                    cv,
                    iv,
                    count as int,
                ))[t]);
            }
        }
        assert(part_views(out@).len() == target.len());
        assert(part_views(out@) =~= target);
        assert(base_is_next(find_part_data(pv, rels_name()).unwrap(), base as nat)
            && part_views(out@) == target);
    }
    Ok(out)
}

/// The ids a patch assigns are pairwise distinct, and each exceeds
/// every id the table already held (of those under the scanning cap).
pub proof fn lemma_relationship_ids_fresh(rels: Seq<u8>, base: nat, j: nat, k: nat)
    requires
        base_past_existing(rels, base),
        j != k,
    ensures
        base + 2 * j != base + 2 * j + 1,
        base + 2 * j != base + 2 * k,
        base + 2 * j != base + 2 * k + 1,
        base + 2 * j + 1 != base + 2 * k + 1,
        forall|i: int, v: nat|
            rid_occurs(rels, i, v) && v < rid_cap() ==> v < base + 2 * j && v < base + 2 * j + 1,
{
}

/// A chapter whose marker is absent leaves the body untouched at its
/// step of the patch: its attachments are omitted, and nothing fails.
pub proof fn lemma_marker_absent_skips(
    body: Seq<u8>,
    files: Seq<crate::records::EmbeddedFile>,
    base: nat,
    keys: Seq<Seq<char>>,
    t: int,
)
    requires
        0 < t <= keys.len(),
        first_found(
            patched_body_upto(body, files, base, keys, t - 1),
            marker_bytes(keys[t - 1]),
            0,
        ) is None,
    ensures
        patched_body_upto(body, files, base, keys, t) == patched_body_upto(
            body,
            files,
            base,
            keys,
            t - 1,
        ),
{
}

/// How many of the first `j` parts bear the name `name`.
pub open spec fn name_count(ps: Seq<(Seq<u8>, Seq<u8>)>, name: Seq<u8>, j: int) -> int
    decreases j,
{
    if j <= 0 {
        0
    } else {
        name_count(ps, name, j - 1) + (if ps[j - 1].0 == name {
            1int
        } else {
            0int
        })
    }
}

/// The rewritten parts are exactly those bearing one of the three
/// names, and the names differ pairwise, so the counts add up.
proof fn lemma_modified_count_is_sum(ps: Seq<(Seq<u8>, Seq<u8>)>, j: int)
    requires
        0 <= j <= ps.len(),
    ensures
        modified_count(ps, j) == name_count(ps, doc_name(), j) + name_count(ps, rels_name(), j)
            + name_count(ps, ct_name(), j),
    decreases j,
{
    lemma_part_names_distinct();
    if j > 0 {
        lemma_modified_count_is_sum(ps, j - 1);
    }
}

/// A part list in which no part bears `name` yields nothing for it.
proof fn lemma_find_part_none(ps: Seq<(Seq<u8>, Seq<u8>)>, name: Seq<u8>)
    requires
        find_part_data(ps, name) is None,
    ensures
        forall|t: int| 0 <= t < ps.len() ==> ps[t].0 != name,
    decreases ps.len(),
{
    if ps.len() > 0 {
        lemma_find_part_none(ps.drop_first(), name);
        assert forall|t: int| 0 <= t < ps.len() implies ps[t].0 != name by {
            if t > 0 {
                assert(ps.drop_first()[t - 1] == ps[t]);
            }
        }
    }
}

proof fn lemma_name_count_zero(ps: Seq<(Seq<u8>, Seq<u8>)>, name: Seq<u8>, j: int)
    requires
        0 <= j <= ps.len(),
        forall|t: int| 0 <= t < ps.len() ==> ps[t].0 != name,
    ensures
        name_count(ps, name, j) == 0,
    decreases j,
{
    if j > 0 {
        lemma_name_count_zero(ps, name, j - 1);
    }
}

/// A patched package holds exactly two more parts per attachment: when
/// each of the three rewritten names names exactly one part of the
/// package, the output's part count is the input's plus twice the
/// attachments.
pub proof fn lemma_patched_part_count(
    ps: Seq<(Seq<u8>, Seq<u8>)>,
    files: Seq<crate::records::EmbeddedFile>,
    conts: Seq<Seq<u8>>,
    icons: Seq<Seq<u8>>,
    base: nat,
)
    requires
        name_count(ps, doc_name(), ps.len() as int) == 1,
        name_count(ps, rels_name(), ps.len() as int) == 1,
        name_count(ps, ct_name(), ps.len() as int) == 1,
        conts.len() == icons.len(),
    ensures
        patched_package(ps, files, conts, icons, base).len() == ps.len() + 2 * conts.len(),
{
    let len = ps.len() as int;
    if find_part_data(ps, doc_name()) is None {
        lemma_find_part_none(ps, doc_name());
        lemma_name_count_zero(ps, doc_name(), len);
    }
    if find_part_data(ps, rels_name()) is None {
        lemma_find_part_none(ps, rels_name());
        lemma_name_count_zero(ps, rels_name(), len);
    }
    if find_part_data(ps, ct_name()) is None {
        lemma_find_part_none(ps, ct_name());
        lemma_name_count_zero(ps, ct_name(), len);
    }
    lemma_modified_count_is_sum(ps, len);
    lemma_copied_parts_len(ps, len);
    lemma_new_binary_parts_len(conts, icons, conts.len() as int);
}

/// Each attachment contributes its container part and its icon part.
pub proof fn lemma_new_binary_parts_len(conts: Seq<Seq<u8>>, icons: Seq<Seq<u8>>, j: int)
    requires
        0 <= j,
    ensures
        new_binary_parts(conts, icons, j).len() == 2 * j,
    decreases j,
{
    if j > 0 {
        lemma_new_binary_parts_len(conts, icons, j - 1);
    }
}

} // verus!
