use attach_embed::engine::{embed, embed_ole_objects_into_docx, EmbedError};
use attach_embed::icon::{IconSet, IconTemplate};
use attach_embed::records::{EmbeddedFile, FileType};
use std::io::{Cursor, Read, Write};

fn utf16le(s: &str) -> Vec<u8> {
    s.encode_utf16().flat_map(|u| u.to_le_bytes()).collect()
}

fn template_with(placeholder: &str) -> Vec<u8> {
    let mut t = vec![1u8, 2, 3];
    t.extend_from_slice(&utf16le(placeholder));
    t.extend_from_slice(&[9u8, 9, 9, 9]);
    t
}

fn icon_set() -> IconSet {
    IconSet {
        video: IconTemplate { placeholder: "v.mp4".to_string(), bytes: template_with("v.mp4") },
        pdf: IconTemplate { placeholder: "p.pdf".to_string(), bytes: template_with("p.pdf") },
        excel: IconTemplate { placeholder: "e.xlsx".to_string(), bytes: template_with("e.xlsx") },
        zip: IconTemplate { placeholder: "z.zip".to_string(), bytes: template_with("z.zip") },
        generic: vec![42u8, 43, 44],
    }
}

fn record(name: &str, zip_id: &str, data: &[u8]) -> EmbeddedFile {
    EmbeddedFile {
        id: format!("embed_{}", name),
        name: name.to_string(),
        path: format!("C:/{}", name),
        data: data.to_vec(),
        content_type: "application/pdf".to_string(),
        file_type: FileType::PDF,
        zip_id: zip_id.to_string(),
    }
}

fn host_docx(body: &str) -> Vec<u8> {
    let mut w = zip::ZipWriter::new(Cursor::new(Vec::new()));
    let opts = zip::write::SimpleFileOptions::default();
    w.start_file("word/document.xml", opts).unwrap();
    w.write_all(body.as_bytes()).unwrap();
    w.start_file("word/_rels/document.xml.rels", opts).unwrap();
    w.write_all(br#"<?xml version="1.0"?><Relationships><Relationship Id="rId1" Type="t" Target="styles.xml"/></Relationships>"#).unwrap();
    w.start_file("[Content_Types].xml", opts).unwrap();
    w.write_all(br#"<?xml version="1.0"?><Types><Default Extension="xml" ContentType="application/xml"/></Types>"#).unwrap();
    w.start_file("word/styles.xml", opts).unwrap();
    w.write_all(b"<styles/>").unwrap();
    w.finish().unwrap().into_inner()
}

fn read_entry(archive_bytes: &[u8], name: &str) -> Vec<u8> {
    let mut ar = zip::ZipArchive::new(Cursor::new(archive_bytes.to_vec())).unwrap();
    let mut f = ar.by_name(name).unwrap();
    let mut data = Vec::new();
    f.read_to_end(&mut data).unwrap();
    data
}

#[test]
fn single_pdf_embeds_into_host() {
    let body = r#"<w:body><w:p><w:r><w:t>EMBED_MARKER_CH_A</w:t></w:r></w:p><w:p><w:r><w:t>tail</w:t></w:r></w:p></w:body>"#;
    let host = host_docx(body);
    let records = vec![record("report.pdf", "CH_A", b"%PDF-1.4 sample")];
    let out = embed(&host, &records, &icon_set());
    assert_ne!(out, host);

    let ar = zip::ZipArchive::new(Cursor::new(out.clone())).unwrap();
    let names: Vec<String> = ar.file_names().map(|s| s.to_string()).collect();
    // The archive gains exactly the two new binary parts.
    assert_eq!(names.len(), 6);
    assert!(names.contains(&"word/embeddings/oleObject1.bin".to_string()));
    assert!(names.contains(&"word/media/image1.emf".to_string()));
    assert!(names.contains(&"word/styles.xml".to_string()));

    // Two new relationship entries reference those parts.
    let rels = String::from_utf8(read_entry(&out, "word/_rels/document.xml.rels")).unwrap();
    assert_eq!(rels.matches("<Relationship ").count(), 3);
    assert!(rels.contains(r#"Id="rId2""#) && rels.contains("embeddings/oleObject1.bin"));
    assert!(rels.contains(r#"Id="rId3""#) && rels.contains("media/image1.emf"));

    // The object fragment stands right after the marker's paragraph.
    let doc = String::from_utf8(read_entry(&out, "word/document.xml")).unwrap();
    let p = doc.find("EMBED_MARKER_CH_A").unwrap();
    let close = p + doc[p..].find("</w:p>").unwrap() + 6;
    assert!(doc[close..].starts_with("\n<w:p w14:paraId=\"10000000\""));
    assert!(doc.contains(r#"ObjectID="_1468075720" r:id="rId2""#));

    // The container part holds the payload, recoverable byte for byte.
    let container = read_entry(&out, "word/embeddings/oleObject1.bin");
    let mut comp = cfb::CompoundFile::open(Cursor::new(container)).unwrap();
    let mut native = Vec::new();
    comp.open_stream("\u{1}Ole10Native").unwrap().read_to_end(&mut native).unwrap();
    assert_eq!(
        attach_embed::container::parse_native_stream(&native),
        Some(b"%PDF-1.4 sample".to_vec())
    );

    // Content types now declare both binary extensions.
    let ct = String::from_utf8(read_entry(&out, "[Content_Types].xml")).unwrap();
    assert!(ct.contains(r#"Extension="bin""#) && ct.contains(r#"Extension="emf""#));
}

#[test]
fn absent_marker_omits_chapter_without_failing() {
    let body = r#"<w:body><w:p><w:r><w:t>EMBED_MARKER_CH_A</w:t></w:r></w:p></w:body>"#;
    let host = host_docx(body);
    let records = vec![
        record("kept.pdf", "CH_A", b"kept"),
        record("dropped.pdf", "CH_MISSING", b"dropped"),
    ];
    let out = embed(&host, &records, &icon_set());
    // Both records still get binary parts and relationship entries …
    let ar = zip::ZipArchive::new(Cursor::new(out.clone())).unwrap();
    let names: Vec<String> = ar.file_names().map(|s| s.to_string()).collect();
    assert!(names.contains(&"word/embeddings/oleObject2.bin".to_string()));
    // … but only the chapter with a marker gains body markup.
    let doc = String::from_utf8(read_entry(&out, "word/document.xml")).unwrap();
    assert!(doc.contains(r#"ObjectID="_1468075720""#));
    assert!(!doc.contains(r#"ObjectID="_1468075721""#));
}

#[test]
fn invalid_archive_returns_original_bytes() {
    let host = b"this is not an archive at all".to_vec();
    let records = vec![record("report.pdf", "CH_A", b"data")];
    let out = embed(&host, &records, &icon_set());
    assert_eq!(out, host);
}

#[test]
fn empty_record_list_returns_original_bytes() {
    let host = host_docx("<w:body></w:body>");
    let out = embed(&host, &Vec::new(), &icon_set());
    assert_eq!(out, host);
}

#[test]
fn patcher_reports_structural_faults() {
    let records = vec![record("report.pdf", "CH_A", b"data")];
    let containers = vec![vec![1u8]];
    let icons = vec![vec![2u8]];
    let garbage = b"garbage".to_vec();
    assert_eq!(
        embed_ole_objects_into_docx(&garbage, &records, &containers, &icons),
        Err(EmbedError::PackageOpen)
    );
    // A valid archive that lacks the body part cannot be patched.
    let mut w = zip::ZipWriter::new(Cursor::new(Vec::new()));
    let opts = zip::write::SimpleFileOptions::default();
    w.start_file("word/styles.xml", opts).unwrap();
    w.write_all(b"<styles/>").unwrap();
    let no_doc = w.finish().unwrap().into_inner();
    assert_eq!(
        embed_ole_objects_into_docx(&no_doc, &records, &containers, &icons),
        Err(EmbedError::MissingPart)
    );
    // With a missing part the embedding falls back to the original.
    let out = embed(&no_doc, &records, &icon_set());
    assert_eq!(out, no_doc);
}
