use attach_embed::package::{
    add_ole_content_types, add_ole_objects_to_document_xml, add_ole_relationships_to_rels,
    embed_ole_objects_into_parts, get_next_relationship_id, PackagePart, PatchError,
};
use attach_embed::records::{EmbeddedFile, FileType};

fn record(name: &str, zip_id: &str) -> EmbeddedFile {
    EmbeddedFile {
        id: format!("embed_{}", name),
        name: name.to_string(),
        path: format!("C:/{}", name),
        data: vec![1, 2, 3],
        content_type: "application/pdf".to_string(),
        file_type: FileType::PDF,
        zip_id: zip_id.to_string(),
    }
}

#[test]
fn next_relationship_id_is_one_past_max() {
    let rels = br#"<Relationships><Relationship Id="rId3" Target="a"/><Relationship Id="rId17" Target="b"/><Relationship Id="rId2" Target="c"/></Relationships>"#.to_vec();
    assert_eq!(get_next_relationship_id(&rels), 18);
}

#[test]
fn next_relationship_id_of_empty_table_is_one() {
    let rels = b"<Relationships></Relationships>".to_vec();
    assert_eq!(get_next_relationship_id(&rels), 1);
}

#[test]
fn next_relationship_id_ignores_incomplete_ids() {
    // No digits, no closing quote, and a non-id attribute.
    let rels = br#"<R Id="rId" x="rId9y" Id2="rId4"#.to_vec();
    assert_eq!(get_next_relationship_id(&rels), 1);
}

#[test]
fn relationships_gain_two_entries_per_attachment() {
    let rels = br#"<?xml version="1.0"?><Relationships><Relationship Id="rId1" Type="t" Target="styles.xml"/></Relationships>"#.to_vec();
    let out = add_ole_relationships_to_rels(&rels, 2, 2);
    let s = String::from_utf8(out).unwrap();
    assert_eq!(s.matches("<Relationship ").count(), 5);
    assert!(s.contains(r#"<Relationship Id="rId2" Type="http://schemas.openxmlformats.org/officeDocument/2006/relationships/oleObject" Target="embeddings/oleObject1.bin"/>"#));
    assert!(s.contains(r#"<Relationship Id="rId3" Type="http://schemas.openxmlformats.org/officeDocument/2006/relationships/image" Target="media/image1.emf"/>"#));
    assert!(s.contains(r#"<Relationship Id="rId4" Type="http://schemas.openxmlformats.org/officeDocument/2006/relationships/oleObject" Target="embeddings/oleObject2.bin"/>"#));
    assert!(s.contains(r#"<Relationship Id="rId5" Type="http://schemas.openxmlformats.org/officeDocument/2006/relationships/image" Target="media/image2.emf"/>"#));
    assert!(s.ends_with("</Relationships>"));
}

#[test]
fn content_types_added_only_when_absent() {
    let ct = br#"<Types><Default Extension="xml" ContentType="application/xml"/></Types>"#.to_vec();
    let once = add_ole_content_types(&ct);
    let s = String::from_utf8(once.clone()).unwrap();
    assert!(s.contains(r#"<Default Extension="bin" ContentType="application/vnd.openxmlformats-officedocument.oleObject"/>"#));
    assert!(s.contains(r#"<Default Extension="emf" ContentType="image/x-emf"/>"#));
    // The check is idempotent: a second pass adds nothing.
    let twice = add_ole_content_types(&once);
    assert_eq!(once, twice);
}

#[test]
fn body_gains_fragment_after_marker_paragraph() {
    let body = br#"<w:body><w:p><w:r><w:t>EMBED_MARKER_CH_A</w:t></w:r></w:p><w:p><w:r><w:t>after</w:t></w:r></w:p></w:body>"#.to_vec();
    let files = vec![record("report.pdf", "CH_A")];
    let out = add_ole_objects_to_document_xml(&body, &files, 2);
    let s = String::from_utf8(out).unwrap();
    let marker_close = s.find("EMBED_MARKER_CH_A").map(|p| p + s[p..].find("</w:p>").unwrap() + 6).unwrap();
    // The fragment starts right after the marker's closing paragraph tag.
    assert_eq!(&s[marker_close..marker_close + 1], "\n");
    assert!(s[marker_close..].starts_with("\n<w:p w14:paraId=\"10000000\""));
    assert!(s.contains(r#"<o:OLEObject Type="Embed" ProgID="Package" ShapeID="_x0000_i1025" DrawAspect="Icon" ObjectID="_1468075720" r:id="rId2">"#));
    assert!(s.contains(r#"<v:imagedata r:id="rId3" o:title=""/>"#));
}

#[test]
fn body_without_marker_is_unchanged() {
    let body = br#"<w:body><w:p><w:r><w:t>no anchors here</w:t></w:r></w:p></w:body>"#.to_vec();
    let files = vec![record("report.pdf", "CH_A")];
    let out = add_ole_objects_to_document_xml(&body, &files, 2);
    assert_eq!(out, body);
}

#[test]
fn chapters_group_in_first_record_order() {
    let body = br#"<w:p><w:t>EMBED_MARKER_B</w:t></w:p><w:p><w:t>EMBED_MARKER_A</w:t></w:p>"#.to_vec();
    let files = vec![
        record("one.pdf", "A"),
        record("two.pdf", "B"),
        record("three.pdf", "A"),
    ];
    let out = add_ole_objects_to_document_xml(&body, &files, 5);
    let s = String::from_utf8(out).unwrap();
    // Chapter A holds the fragments of records 0 and 2, chapter B of record 1.
    let a_pos = s.find("EMBED_MARKER_A").unwrap();
    let b_pos = s.find("EMBED_MARKER_B").unwrap();
    let obj0 = s.find(r#"ObjectID="_1468075720""#).unwrap();
    let obj1 = s.find(r#"ObjectID="_1468075721""#).unwrap();
    let obj2 = s.find(r#"ObjectID="_1468075722""#).unwrap();
    assert!(obj0 > a_pos && obj2 > a_pos && obj0 < obj2);
    assert!(obj1 > b_pos && obj1 < a_pos);
    // Relationship ids follow record order regardless of grouping.
    assert!(s.contains(r#"r:id="rId5""#)); // record 0 object
    assert!(s.contains(r#"r:id="rId7""#)); // record 1 object
    assert!(s.contains(r#"r:id="rId9""#)); // record 2 object
}

#[test]
fn parts_patch_fails_only_on_missing_part() {
    let files = vec![record("a.pdf", "CH")];
    let containers = vec![vec![1u8]];
    let icons = vec![vec![2u8]];
    let empty: Vec<PackagePart> = Vec::new();
    assert!(matches!(
        embed_ole_objects_into_parts(&empty, &files, &containers, &icons),
        Err(PatchError::MissingPart)
    ));
    let parts = vec![
        PackagePart { name: b"word/document.xml".to_vec(), data: b"<w:body></w:body>".to_vec() },
        PackagePart {
            name: b"word/_rels/document.xml.rels".to_vec(),
            data: b"<Relationships></Relationships>".to_vec(),
        },
        PackagePart { name: b"[Content_Types].xml".to_vec(), data: b"<Types></Types>".to_vec() },
        PackagePart { name: b"word/styles.xml".to_vec(), data: b"<styles/>".to_vec() },
    ];
    let out = embed_ole_objects_into_parts(&parts, &files, &containers, &icons).expect("patched");
    // One copied part, two new binary parts, three rewritten parts.
    assert_eq!(out.len(), parts.len() + 2);
    assert_eq!(out[0].name, b"word/styles.xml".to_vec());
    assert_eq!(out[1].name, b"word/embeddings/oleObject1.bin".to_vec());
    assert_eq!(out[1].data, vec![1u8]);
    assert_eq!(out[2].name, b"word/media/image1.emf".to_vec());
    assert_eq!(out[2].data, vec![2u8]);
    assert_eq!(out[3].name, b"word/document.xml".to_vec());
    assert_eq!(out[4].name, b"word/_rels/document.xml.rels".to_vec());
    assert_eq!(out[5].name, b"[Content_Types].xml".to_vec());
}
