use attach_embed::container::{
    build_native_for, build_native_stream, create_comp_obj_stream, create_ole_package,
    parse_native_stream,
};
use attach_embed::records::{EmbeddedFile, FileType};

fn record(name: &str, data: &[u8]) -> EmbeddedFile {
    EmbeddedFile {
        id: "embed_test".to_string(),
        name: name.to_string(),
        path: format!("C:/{}", name),
        data: data.to_vec(),
        content_type: "application/pdf".to_string(),
        file_type: FileType::PDF,
        zip_id: "CH_A".to_string(),
    }
}

#[test]
fn native_stream_layout_exact() {
    // One-byte names keep the offsets easy to check by hand.
    let name = vec![0x41u8]; // A
    let path = vec![0x42u8, 0x43u8]; // BC
    let temp = vec![0x44u8]; // D
    let payload = vec![9u8, 8u8, 7u8];
    let s = build_native_stream(&name, &path, &temp, &payload);
    let expected: Vec<u8> = vec![
        3, 0, 0, 0, // payload length
        2, 0, // marker
        0x41, 0, // name, terminator
        0x42, 0x43, 0, // path, terminator
        0, 0, 3, 0, // separator
        2, 0, 0, 0, // temp length including terminator
        0x44, 0, // temp, terminator
        3, 0, 0, 0, // payload length again
        9, 8, 7, // payload
    ];
    assert_eq!(s, expected);
}

#[test]
fn native_stream_parses_back() {
    let name = vec![0xD6u8, 0xD0u8];
    let path = vec![0x43u8, 0x3Au8, 0x2Fu8];
    let temp = vec![0x54u8, 0x4Du8, 0x50u8];
    let payload: Vec<u8> = (0u8..=255u8).collect();
    let s = build_native_stream(&name, &path, &temp, &payload);
    assert_eq!(parse_native_stream(&s), Some(payload));
}

#[test]
fn parse_rejects_bad_marker() {
    let name = vec![0x41u8];
    let path = vec![0x42u8];
    let temp = vec![0x43u8];
    let payload = vec![1u8, 2u8];
    let mut s = build_native_stream(&name, &path, &temp, &payload);
    s[4] = 3; // corrupt the fixed marker
    assert_eq!(parse_native_stream(&s), None);
}

#[test]
fn parse_rejects_truncated_stream() {
    let name = vec![0x41u8];
    let path = vec![0x42u8];
    let temp = vec![0x43u8];
    let payload = vec![1u8, 2u8, 3u8];
    let mut s = build_native_stream(&name, &path, &temp, &payload);
    s.pop();
    assert_eq!(parse_native_stream(&s), None);
}

#[test]
fn comp_obj_stream_constant() {
    let s = create_comp_obj_stream();
    assert_eq!(s.len(), 48);
    // Version, byte order, format version, reserved sentinel.
    assert_eq!(&s[0..4], &[0x01, 0x00, 0xFE, 0xFF]);
    assert_eq!(&s[4..8], &[0x03, 0x0A, 0x00, 0x00]);
    assert_eq!(&s[8..12], &[0xFF, 0xFF, 0xFF, 0xFF]);
    // The generic package class id.
    assert_eq!(
        &s[12..28],
        &[0x0C, 0, 0, 0, 0, 0, 0, 0, 0xC0, 0, 0, 0, 0, 0, 0, 0x46]
    );
    // Length-prefixed type name and trailers.
    assert_eq!(&s[28..32], &[7, 0, 0, 0]);
    assert_eq!(&s[32..39], b"Package");
    assert_eq!(&s[39..48], &[0, 0, 0, 0, 0, 0, 0, 0, 0]);
}

#[test]
fn display_name_is_encoded_in_national_encoding() {
    // The CJK character U+4E2D encodes to D6 D0 in the legacy national
    // encoding, not to its UTF-8 bytes E4 B8 AD.
    let rec = record("\u{4E2D}.bin", b"xy");
    let s = build_native_for(&rec).expect("stream");
    assert_eq!(&s[6..8], &[0xD6, 0xD0]);
    assert_eq!(&s[8..12], b".bin");
    assert_eq!(s[12], 0);
}

#[test]
fn container_round_trip_through_compound_file() {
    let payload = b"%PDF-1.4 sample payload".to_vec();
    let rec = record("report.pdf", &payload);
    let container = create_ole_package(&rec).expect("container");
    let mut comp = cfb::CompoundFile::open(std::io::Cursor::new(container)).expect("compound");
    let mut native = Vec::new();
    std::io::Read::read_to_end(
        &mut comp.open_stream("\u{1}Ole10Native").expect("stream"),
        &mut native,
    )
    .expect("read");
    assert_eq!(parse_native_stream(&native), Some(payload));
    let mut desc = Vec::new();
    std::io::Read::read_to_end(
        &mut comp.open_stream("\u{1}CompObj").expect("stream"),
        &mut desc,
    )
    .expect("read");
    assert_eq!(desc, create_comp_obj_stream());
}
