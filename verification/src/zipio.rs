//! The host package's archive boundary: reading its named parts and
//! writing a new archive of parts.
//!
//! Parsing is a pure function of the bytes and is given a name,
//! `entries_of`; what the writer produces is not, because it stamps the
//! current time into each entry, so nothing is claimed of its bytes and
//! every property of the patch is stated over part lists instead.

use vstd::prelude::*;
use crate::package::{PackagePart, part_views};

verus! {

/// The named entries that parsing an archive yields, in archive order,
/// or nothing when the bytes are not a valid archive.
pub uninterp spec fn entries_of(host: Seq<u8>) -> Option<Seq<(Seq<u8>, Seq<u8>)>>;

/// Relies on zip::ZipArchive::new, len, by_index and Read::read_to_end:
/// parsing yields the archive's entries, names and contents, in archive
/// order — a pure function of the bytes; invalid bytes or an entry that
/// cannot be read yield nothing.
#[verifier::external_body]
pub(crate) fn zip_read_parts(host: &Vec<u8>) -> (r: Option<Vec<PackagePart>>)
    ensures
        match r {
            Some(ps) => entries_of(host@) == Some(part_views(ps@)),
            None => entries_of(host@) is None,
        },
{
    let mut archive = zip::ZipArchive::new(std::io::Cursor::new(host.as_slice())).ok()?;
    let mut out: Vec<PackagePart> = Vec::new();
    for i in 0..archive.len() {
        let mut entry = archive.by_index(i).ok()?;
        let name = entry.name().to_string().into_bytes();
        let mut data = Vec::new();
        std::io::Read::read_to_end(&mut entry, &mut data).ok()?;
        out.push(PackagePart { name, data });
    }
    Some(out)
}

/// Relies on zip::ZipWriter::start_file and finish: writes one deflated
/// entry per part, under the part's name, in list order. The bytes
/// carry the current time, so nothing is promised of them.
#[verifier::external_body]
pub(crate) fn zip_write_parts(parts: &Vec<PackagePart>) -> Result<Vec<u8>, ()> {
    let mut w = zip::ZipWriter::new(std::io::Cursor::new(Vec::new()));
    let opts = zip::write::SimpleFileOptions::default().compression_method(
        zip::CompressionMethod::Deflated,
    );
    for p in parts.iter() {
        let name = String::from_utf8_lossy(&p.name).into_owned();
        w.start_file(name, opts).map_err(|_| ())?;
        std::io::Write::write_all(&mut w, &p.data).map_err(|_| ())?;
    }
    Ok(w.finish().map_err(|_| ())?.into_inner())
}

} // verus!
