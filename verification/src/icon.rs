//! Rewriting the file name embedded in a fixed-layout icon template.
//!
//! Each template was captured from a real document and carries a known
//! placeholder name encoded as UTF-16LE at some offset. The patch finds
//! the placeholder's first occurrence, which also fixes the byte budget
//! (the placeholder's own encoded length), writes the new name's
//! encoding in place — cut to fit if need be — and zero-fills the rest
//! of the budget. The template's length never changes.

use vstd::prelude::*;
use crate::byteseq::{first_found, find_from};
use crate::records::{str_chars, FileType, FileTypeView};
use crate::truncate::{truncated_ok, truncate_filename_to_bytes};
use crate::utf16::{utf16le, utf16le_encode};

verus! {

/// `out` is `orig` with `content` written at `pos`, zero fill up to
/// `budget` bytes, and every other byte unchanged.
pub open spec fn patched_region(
    orig: Seq<u8>,
    pos: int,
    content: Seq<u8>,
    budget: int,
    out: Seq<u8>,
) -> bool {
    out == orig.take(pos) + content + Seq::new((budget - content.len()) as nat, |i: int| 0u8)
        + orig.skip(pos + budget)
}

/// Everything an icon patch promises: the template is returned unchanged
/// when the placeholder's encoding does not occur in it; otherwise the
/// name's encoding — cut to the placeholder's budget when too long — is
/// written over the placeholder and the remainder of the budget zeroed.
pub open spec fn patched_icon_ok(
    tpl: Seq<u8>,
    placeholder: Seq<char>,
    name: Seq<char>,
    out: Seq<u8>,
) -> bool {
    match first_found(tpl, utf16le(placeholder), 0) {
        None => out == tpl,
        Some(pos) => {
            let budget = utf16le(placeholder).len() as int;
            &&& out.len() == tpl.len()
            &&& (utf16le(name).len() <= budget ==> patched_region(
                tpl,
                pos as int,
                utf16le(name),
                budget,
                out,
            ))
            &&& (utf16le(name).len() > budget ==> exists|nm: Seq<char>|
                truncated_ok(name, budget, nm) && patched_region(
                    tpl,
                    pos as int,
                    utf16le(nm),
                    budget,
                    out,
                ))
        },
    }
}

/// `orig` with `content` at `pos` and zero fill up to `budget`.
fn patch_bytes_at(orig: &Vec<u8>, pos: usize, content: &Vec<u8>, budget: usize) -> (r: Vec<u8>)
    requires
        pos + budget <= orig@.len(),
        content@.len() <= budget,
    ensures
        patched_region(orig@, pos as int, content@, budget as int, r@),
        r@.len() == orig@.len(),
{
    let mut r: Vec<u8> = Vec::new();
    let mut i: usize = 0;
    while i < pos
        invariant
            i <= pos <= orig@.len(),
            r@ == orig@.take(i as int),
        decreases pos - i,
    {
        r.push(orig[i]);
        assert(r@ =~= orig@.take(i + 1));
        i = i + 1;
    }
    r.extend_from_slice(content.as_slice());
    let clen: usize = content.len();
    let mut z: usize = clen;
    while z < budget
        invariant
            clen <= z <= budget,
            clen == content@.len(),
            pos + budget <= orig@.len(),
            r@ == orig@.take(pos as int) + content@ + Seq::new((z - clen) as nat, |t: int| 0u8),
        decreases budget - z,
    {
        r.push(0);
        assert(r@ =~= orig@.take(pos as int) + content@ + Seq::new(
            (z + 1 - clen) as nat,
            |t: int| 0u8,
        ));
        z = z + 1;
    }
    let olen: usize = orig.len();
    assert(pos + budget <= olen);
    let mut j: usize = pos + budget;
    while j < olen
        invariant
            pos + budget <= j <= olen,
            olen == orig@.len(),
            clen == content@.len(),
            clen <= budget,
            r@ == orig@.take(pos as int) + content@ + Seq::new((budget - clen) as nat, |t: int| 0u8)
                + orig@.subrange(pos + budget, j as int),
        decreases olen - j,
    {
        r.push(orig[j]);
        assert(r@ =~= orig@.take(pos as int) + content@ + Seq::new(
            (budget - clen) as nat,
            |t: int| 0u8,
        ) + orig@.subrange(pos + budget, j + 1));
        j = j + 1;
    }
    assert(orig@.subrange(pos + budget, olen as int) =~= orig@.skip(pos + budget));
    assert(r@.len() == orig@.len());
    r
}

/// Writes `new_filename` over the first occurrence of `old_filename`'s
/// UTF-16LE encoding in `emf_data`, zero-filling the rest of the
/// placeholder's bytes; the data is returned unchanged when the
/// placeholder does not occur. The length never changes.
pub fn replace_filename_in_emf(emf_data: Vec<u8>, old_filename: &str, new_filename: &str) -> (r:
    Vec<u8>)
    ensures
        patched_icon_ok(emf_data@, old_filename@, new_filename@, r@),
        r@.len() == emf_data@.len(),
{
    let oldc = str_chars(old_filename);
    let ob = utf16le_encode(&oldc);
    let pos_opt = find_from(&emf_data, &ob, 0);
    match pos_opt {
        None => emf_data,
        Some(pos) => {
            let budget: usize = ob.len();
            proof {
                crate::byteseq::lemma_first_found(emf_data@, ob@, 0);
            }
            let newc = str_chars(new_filename);
            let nb = utf16le_encode(&newc);
            if nb.len() <= budget {
                patch_bytes_at(&emf_data, pos, &nb, budget)
            } else {
                let cut = truncate_filename_to_bytes(new_filename, budget);
                let cutc = str_chars(cut.as_str());
                let cb = utf16le_encode(&cutc);
                patch_bytes_at(&emf_data, pos, &cb, budget)
            }
        },
    }
}

/// One icon template: its bytes and the placeholder name they carry.
/// A template with an empty placeholder is used untouched.
#[derive(Clone, Debug)]
pub struct IconTemplate {
    pub placeholder: String,
    pub bytes: Vec<u8>,
}

/// The icon templates for each file-type class, supplied by the caller
/// as immutable assets.
#[derive(Clone, Debug)]
pub struct IconSet {
    pub video: IconTemplate,
    pub pdf: IconTemplate,
    pub excel: IconTemplate,
    pub zip: IconTemplate,
    pub generic: Vec<u8>,
}

impl IconSet {
    /// The icon for one attachment: the class's template with the real
    /// file name patched in. Images and unclassified types use the
    /// generic template untouched; documents share the spreadsheet
    /// template, as the captured assets do.
    pub fn icon_for(&self, file_type: &FileType, filename: &str) -> (r: Vec<u8>)
        ensures
            match file_type@ {
                FileTypeView::Video => patched_icon_ok(
                    self.video.bytes@,
                    self.video.placeholder@,
                    filename@,
                    r@,
                ) && r@.len() == self.video.bytes@.len(),
                FileTypeView::PDF => patched_icon_ok(
                    self.pdf.bytes@,
                    self.pdf.placeholder@,
                    filename@,
                    r@,
                ) && r@.len() == self.pdf.bytes@.len(),
                FileTypeView::Excel => patched_icon_ok(
                    self.excel.bytes@,
                    self.excel.placeholder@,
                    filename@,
                    r@,
                ) && r@.len() == self.excel.bytes@.len(),
                FileTypeView::Document => patched_icon_ok(
                    self.excel.bytes@,
                    self.excel.placeholder@,
                    filename@,
                    r@,
                ) && r@.len() == self.excel.bytes@.len(),
                FileTypeView::ZIP => patched_icon_ok(
                    self.zip.bytes@,
                    self.zip.placeholder@,
                    filename@,
                    r@,
                ) && r@.len() == self.zip.bytes@.len(),
                FileTypeView::Image => r@ == self.generic@,
                FileTypeView::Other(_) => r@ == self.generic@,
            },
    {
        match file_type {
            FileType::Video => replace_filename_in_emf(
                self.video.bytes.clone(),
                self.video.placeholder.as_str(),
                filename,
            ),
            FileType::PDF => replace_filename_in_emf(
                self.pdf.bytes.clone(),
                self.pdf.placeholder.as_str(),
                filename,
            ),
            FileType::Excel => replace_filename_in_emf(
                self.excel.bytes.clone(),
                self.excel.placeholder.as_str(),
                filename,
            ),
            FileType::Document => replace_filename_in_emf(
                self.excel.bytes.clone(),
                self.excel.placeholder.as_str(),
                filename,
            ),
            FileType::ZIP => replace_filename_in_emf(
                self.zip.bytes.clone(),
                self.zip.placeholder.as_str(),
                filename,
            ),
            FileType::Image => self.generic.clone(),
            FileType::Other(_) => self.generic.clone(),
        }
    }
}

} // verus!
