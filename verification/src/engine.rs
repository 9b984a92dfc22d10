//! The embedding engine's top level: building one container and one
//! icon per record, patching the host package once with the whole
//! batch, and the all-or-nothing fallback.
//!
//! The governing rule: the output is always a usable document. A
//! record whose container cannot be built is dropped from the batch;
//! a structural fault in the host package drops the whole patch and
//! hands the original bytes back unchanged.

use vstd::prelude::*;
use crate::container::create_ole_package;
use crate::icon::IconSet;
use crate::package::{
    find_part_data,
    doc_name,
    rels_name,
    ct_name,
    embed_ole_objects_into_parts,
    copy_bytes,
    PatchError,
};
use crate::records::{EmbeddedFile, FileType};
use crate::zipio::{entries_of, zip_read_parts, zip_write_parts};

verus! {

/// A structural fault that aborts a whole patch.
#[derive(Clone, Copy, Debug, PartialEq, Eq)]
pub enum EmbedError {
    /// The host bytes are not a valid archive.
    PackageOpen,
    /// A required part is missing from the package.
    MissingPart,
    /// The output archive could not be written.
    Serialization,
    /// More attachments than relationship ids can be made for.
    TooManyAttachments,
}

/// A copy of a record, field for field.
pub fn clone_record(f: &EmbeddedFile) -> (r: EmbeddedFile)
    ensures
        r.id@ == f.id@,
        r.name@ == f.name@,
        r.path@ == f.path@,
        r.data@ == f.data@,
        r.content_type@ == f.content_type@,
        r.file_type@ == f.file_type@,
        r.zip_id@ == f.zip_id@,
{
    let file_type = match &f.file_type {
        FileType::Video => FileType::Video,
        FileType::PDF => FileType::PDF,
        FileType::Image => FileType::Image,
        FileType::Document => FileType::Document,
        FileType::Excel => FileType::Excel,
        FileType::ZIP => FileType::ZIP,
        FileType::Other(e) => FileType::Other(e.clone()),
    };
    EmbeddedFile {
        id: f.id.clone(),
        name: f.name.clone(),
        path: f.path.clone(),
        data: copy_bytes(&f.data),
        content_type: f.content_type.clone(),
        file_type,
        zip_id: f.zip_id.clone(),
    }
}

/// Patches the host package bytes with prepared attachments: parses
/// the archive, rewrites its parts, and writes a new archive. Fails
/// with a structural error and touches nothing when — and says exactly
/// when — the host cannot be parsed, a required part is missing or the
/// batch exceeds the id budget; writing the output can also fail. The
/// caller then keeps the original bytes.
pub fn embed_ole_objects_into_docx(
    docx_bytes: &Vec<u8>,
    embedded_files: &Vec<EmbeddedFile>,
    containers: &Vec<Vec<u8>>,
    icons: &Vec<Vec<u8>>,
) -> (r: Result<Vec<u8>, EmbedError>)
    requires
        embedded_files@.len() == containers@.len() == icons@.len(),
    ensures
        r == Result::<Vec<u8>, EmbedError>::Err(EmbedError::PackageOpen) <==> entries_of(
            docx_bytes@,
        ) is None,
        r == Result::<Vec<u8>, EmbedError>::Err(EmbedError::TooManyAttachments) <==> (entries_of(
            docx_bytes@,
        ) is Some && embedded_files@.len() > 0x10000000),
        match r {
            Ok(_) => entries_of(docx_bytes@) matches Some(pv) && find_part_data(
                pv,
                doc_name(),
            ) is Some && find_part_data(pv, rels_name()) is Some && find_part_data(
                pv,
                ct_name(),
            ) is Some,
            Err(EmbedError::MissingPart) => entries_of(docx_bytes@) matches Some(pv) && (
            find_part_data(pv, doc_name()) is None || find_part_data(pv, rels_name()) is None
                || find_part_data(pv, ct_name()) is None),
            Err(_) => true,
        },
{
    let parts = match zip_read_parts(docx_bytes) {
        None => {
            return Err(EmbedError::PackageOpen);
        },
        Some(ps) => ps,
    };
    if embedded_files.len() > 0x10000000 {
        return Err(EmbedError::TooManyAttachments);
    }
    let patched = match embed_ole_objects_into_parts(&parts, embedded_files, containers, icons) {
        Err(PatchError::MissingPart) => {
            return Err(EmbedError::MissingPart);
        },
        Ok(out) => out,
    };
    match zip_write_parts(&patched) {
        Err(_) => Err(EmbedError::Serialization),
        Ok(bytes) => Ok(bytes),
    }
}

/// Embeds a batch of records into the host document and never fails:
/// each record gets a compound container and a patched icon; a record
/// whose container cannot be built is dropped; when nothing is left,
/// or the host package cannot be opened, lacks a required part, or
/// cannot be patched or rewritten, the original bytes come back
/// unchanged. An output that differs from the host can only come from
/// a successful patch of a package that held all three required parts.
pub fn embed(host_bytes: &Vec<u8>, records: &Vec<EmbeddedFile>, icons: &IconSet) -> (r: Vec<u8>)
    ensures
        records@.len() == 0 ==> r@ == host_bytes@,
        records@.len() > 0x10000000 ==> r@ == host_bytes@,
        entries_of(host_bytes@) is None ==> r@ == host_bytes@,
        entries_of(host_bytes@) matches Some(pv) && (find_part_data(pv, doc_name()) is None
            || find_part_data(pv, rels_name()) is None || find_part_data(pv, ct_name()) is None)
            ==> r@ == host_bytes@,
        r@ != host_bytes@ ==> records@.len() > 0 && (entries_of(host_bytes@) matches Some(pv)
            && find_part_data(pv, doc_name()) is Some && find_part_data(pv, rels_name()) is Some
            && find_part_data(pv, ct_name()) is Some),
{
    let rlen: usize = records.len();
    if rlen == 0 || rlen > 0x10000000 {
        return copy_bytes(host_bytes);
    }
    let mut kept: Vec<EmbeddedFile> = Vec::new();
    let mut containers: Vec<Vec<u8>> = Vec::new();
    let mut icon_parts: Vec<Vec<u8>> = Vec::new();
    let mut i: usize = 0;
    while i < rlen
        invariant
            0 <= i <= rlen,
            rlen == records@.len() <= 0x10000000,
            kept@.len() == containers@.len() == icon_parts@.len(),
            kept@.len() <= i,
        decreases rlen - i,
    {
        match create_ole_package(&records[i]) {
            Ok(container) => {
                let icon = icons.icon_for(&records[i].file_type, records[i].name.as_str());
                kept.push(clone_record(&records[i]));
                containers.push(container);
                icon_parts.push(icon);
            },
            Err(_) => {
                // This record is dropped; the batch goes on.
            },
        }
        i = i + 1;
    }
    if kept.len() == 0 {
        return copy_bytes(host_bytes);
    }
    match embed_ole_objects_into_docx(host_bytes, &kept, &containers, &icon_parts) {
        Ok(bytes) => bytes,
        Err(_) => copy_bytes(host_bytes),
    }
}

} // verus!
