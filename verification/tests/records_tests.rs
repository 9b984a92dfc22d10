use attach_embed::records::{
    detect_file_type, get_content_type, EmbeddingConfig, FileType, ProgressEvent,
};

#[test]
fn detect_video_types() {
    assert!(matches!(detect_file_type("clip.mp4"), FileType::Video));
    assert!(matches!(detect_file_type("CLIP.AVI"), FileType::Video));
    assert!(matches!(detect_file_type("a.mov"), FileType::Video));
    assert!(matches!(detect_file_type("a.wmv"), FileType::Video));
    assert!(matches!(detect_file_type("a.mkv"), FileType::Video));
    assert!(matches!(detect_file_type("a.flv"), FileType::Video));
}

#[test]
fn detect_document_and_data_types() {
    assert!(matches!(detect_file_type("report.pdf"), FileType::PDF));
    assert!(matches!(detect_file_type("Report.PDF"), FileType::PDF));
    assert!(matches!(detect_file_type("photo.jpeg"), FileType::Image));
    assert!(matches!(detect_file_type("photo.webp"), FileType::Image));
    assert!(matches!(detect_file_type("bundle.zip"), FileType::ZIP));
    assert!(matches!(detect_file_type("sheet.xls"), FileType::Excel));
    assert!(matches!(detect_file_type("sheet.xlsx"), FileType::Excel));
    assert!(matches!(detect_file_type("letter.doc"), FileType::Document));
    assert!(matches!(detect_file_type("letter.docx"), FileType::Document));
    assert!(matches!(detect_file_type("note.txt"), FileType::Document));
    assert!(matches!(detect_file_type("note.rtf"), FileType::Document));
}

#[test]
fn detect_other_keeps_extension() {
    match detect_file_type("data.bin") {
        FileType::Other(e) => assert_eq!(e, "bin"),
        other => panic!("expected Other, got {:?}", other),
    }
    match detect_file_type("noext") {
        FileType::Other(e) => assert_eq!(e, "unknown"),
        other => panic!("expected Other, got {:?}", other),
    }
    match detect_file_type(".hidden") {
        FileType::Other(e) => assert_eq!(e, "unknown"),
        other => panic!("expected Other, got {:?}", other),
    }
}

#[test]
fn content_types_exact() {
    assert_eq!(get_content_type("a.pdf"), "application/pdf");
    assert_eq!(get_content_type("a.mp4"), "video/mp4");
    assert_eq!(get_content_type("a.avi"), "video/x-msvideo");
    assert_eq!(get_content_type("a.mov"), "video/quicktime");
    assert_eq!(get_content_type("a.wmv"), "video/x-ms-wmv");
    assert_eq!(get_content_type("a.mkv"), "video/x-matroska");
    assert_eq!(get_content_type("a.flv"), "video/x-flv");
    assert_eq!(get_content_type("a.jpg"), "image/jpeg");
    assert_eq!(get_content_type("a.jpeg"), "image/jpeg");
    assert_eq!(get_content_type("a.png"), "image/png");
    assert_eq!(get_content_type("a.gif"), "image/gif");
    assert_eq!(get_content_type("a.bmp"), "image/bmp");
    assert_eq!(get_content_type("a.webp"), "image/webp");
    assert_eq!(get_content_type("a.zip"), "application/zip");
    assert_eq!(get_content_type("a.xls"), "application/vnd.ms-excel");
    assert_eq!(
        get_content_type("a.xlsx"),
        "application/vnd.openxmlformats-officedocument.spreadsheetml.sheet"
    );
    assert_eq!(get_content_type("a.doc"), "application/msword");
    assert_eq!(
        get_content_type("a.docx"),
        "application/vnd.openxmlformats-officedocument.wordprocessingml.document"
    );
    assert_eq!(get_content_type("a.txt"), "text/plain");
    assert_eq!(get_content_type("a.rtf"), "application/rtf");
    assert_eq!(get_content_type("a.xyz"), "application/octet-stream");
}

#[test]
fn progress_event_new_and_complete() {
    let e = ProgressEvent::new("export_word", 2, 8, "step", "message");
    assert_eq!(e.operation_type, "export_word");
    assert_eq!(e.current, 2);
    assert_eq!(e.total, 8);
    assert_eq!(e.step_name, "step");
    assert_eq!(e.message, "message");
    assert!(!e.is_complete);
    let done = ProgressEvent::new("import", 5, 5, "s", "m");
    assert!(done.is_complete);
    let c = ProgressEvent::complete("import");
    assert_eq!(c.operation_type, "import");
    assert_eq!(c.current, 1);
    assert_eq!(c.total, 1);
    assert!(c.is_complete);
}

#[test]
fn embedding_config_default_values() {
    let c = EmbeddingConfig::default();
    assert!(c.enabled);
    assert_eq!(c.max_file_size, 10 * 1024 * 1024);
    assert_eq!(c.max_files_per_zip, 20);
    assert_eq!(c.allowed_types.len(), 14);
    assert_eq!(c.allowed_types[0], "pdf");
    assert_eq!(c.allowed_types[13], "zip");
    assert_eq!(c.exclude_patterns, vec!["*.tmp", "*.temp", ".*"]);
}
