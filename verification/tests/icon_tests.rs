use attach_embed::icon::{replace_filename_in_emf, IconSet, IconTemplate};
use attach_embed::records::FileType;
use attach_embed::truncate::truncate_filename_to_bytes;

fn utf16le(s: &str) -> Vec<u8> {
    s.encode_utf16().flat_map(|u| u.to_le_bytes()).collect()
}

fn template_with(placeholder: &str) -> Vec<u8> {
    let mut t = vec![1u8, 2, 3];
    t.extend_from_slice(&utf16le(placeholder));
    t.extend_from_slice(&[9u8, 9, 9, 9]);
    t
}

#[test]
fn fitting_name_written_exactly_with_zero_fill() {
    let tpl = template_with("abc.pdf");
    let out = replace_filename_in_emf(tpl.clone(), "abc.pdf", "x.pdf");
    assert_eq!(out.len(), tpl.len());
    assert_eq!(&out[0..3], &[1, 2, 3]);
    let budget = utf16le("abc.pdf").len();
    let written = utf16le("x.pdf");
    assert_eq!(&out[3..3 + written.len()], written.as_slice());
    for i in 3 + written.len()..3 + budget {
        assert_eq!(out[i], 0);
    }
    assert_eq!(&out[3 + budget..], &[9, 9, 9, 9]);
}

#[test]
fn oversized_name_is_cut_to_budget() {
    let tpl = template_with("abc.pdf");
    let out = replace_filename_in_emf(tpl.clone(), "abc.pdf", "averylongname.pdf");
    assert_eq!(out.len(), tpl.len());
    assert_eq!(&out[0..3], &[1, 2, 3]);
    // Whatever was written stays inside the placeholder's budget.
    assert_eq!(&out[3 + utf16le("abc.pdf").len()..], &[9, 9, 9, 9]);
}

#[test]
fn missing_placeholder_leaves_template_unchanged() {
    let tpl = template_with("abc.pdf");
    let out = replace_filename_in_emf(tpl.clone(), "zzz.pdf", "x.pdf");
    assert_eq!(out, tpl);
}

#[test]
fn truncate_keeps_fitting_name() {
    let name = "short.pdf";
    assert_eq!(truncate_filename_to_bytes(name, 100), name);
    assert_eq!(truncate_filename_to_bytes(name, utf16le(name).len()), name);
}

#[test]
fn truncate_cuts_stem_and_keeps_extension() {
    // 17 ideographs and ".pdf" need 42 bytes; a 40-byte budget keeps a
    // 14-character stem, the two-dot ellipsis and the extension.
    let name = "超长文件名示例需要被截断的情况测试.pdf";
    assert_eq!(utf16le(name).len(), 42);
    let cut = truncate_filename_to_bytes(name, 40);
    assert_eq!(cut, "超长文件名示例需要被截断的情...pdf");
    assert!(utf16le(&cut).len() <= 40);
    assert!(cut.ends_with(".pdf"));
}

#[test]
fn truncate_backs_off_to_separator() {
    // The naive five-character cut "abc_d" ends in a bare Latin
    // letter; the cut backs off to the underscore.
    let cut = truncate_filename_to_bytes("abc_defgh.txt", 22);
    assert_eq!(cut, "abc...txt");
}

#[test]
fn truncate_keeps_naive_cut_when_backing_off_loses_half() {
    // The only boundary sits at half the naive prefix or below, so
    // the naive cut stands.
    let cut = truncate_filename_to_bytes("a_bcdefgh.txt", 22);
    assert_eq!(cut, "a_bcd...txt");
}

#[test]
fn truncate_backs_off_to_script_boundary() {
    // The naive three-character cut would end in a bare Latin letter
    // right after an ideograph; the cut backs off to the boundary.
    let cut = truncate_filename_to_bytes("中文abcdef.txt", 18);
    assert_eq!(cut, "中文...txt");
}

#[test]
fn truncate_tiny_budget_gives_bare_prefix() {
    let cut = truncate_filename_to_bytes("abcdef.pdf", 6);
    assert!(utf16le(&cut).len() <= 6);
    assert!("abcdef.pdf".starts_with(&cut));
    assert_eq!(truncate_filename_to_bytes("abcdef.pdf", 0), "");
}

#[test]
fn patched_icon_keeps_length_for_long_cjk_name() {
    // A 20-unit placeholder gives a 40-byte budget; the patched icon
    // holds a cut name ending in ".pdf" and zero padding, and its
    // length never changes.
    let placeholder = "AAAAAAAAAAAAAAAA.pdf";
    assert_eq!(utf16le(placeholder).len(), 40);
    let tpl = template_with(placeholder);
    let name = "超长文件名示例需要被截断的情况测试.pdf";
    let out = replace_filename_in_emf(tpl.clone(), placeholder, name);
    assert_eq!(out.len(), tpl.len());
    let expected = utf16le("超长文件名示例需要被截断的情...pdf");
    assert_eq!(expected.len(), 40);
    assert_eq!(&out[3..43], expected.as_slice());
    assert_eq!(&out[43..], &[9, 9, 9, 9]);
}

#[test]
fn icon_set_selects_template_by_class() {
    let set = IconSet {
        video: IconTemplate {
            placeholder: "v.mp4".to_string(),
            bytes: template_with("v.mp4"),
        },
        pdf: IconTemplate {
            placeholder: "p.pdf".to_string(),
            bytes: template_with("p.pdf"),
        },
        excel: IconTemplate {
            placeholder: "e.xlsx".to_string(),
            bytes: template_with("e.xlsx"),
        },
        zip: IconTemplate {
            placeholder: "z.zip".to_string(),
            bytes: template_with("z.zip"),
        },
        generic: vec![42u8, 43, 44],
    };
    let icon = set.icon_for(&FileType::PDF, "a.pdf");
    assert_eq!(icon.len(), set.pdf.bytes.len());
    assert_eq!(&icon[3..3 + utf16le("a.pdf").len()], utf16le("a.pdf").as_slice());
    // Documents share the spreadsheet template.
    let icon = set.icon_for(&FileType::Document, "d.docx");
    assert_eq!(icon.len(), set.excel.bytes.len());
    // Images and unclassified types use the generic template untouched.
    assert_eq!(set.icon_for(&FileType::Image, "i.png"), vec![42u8, 43, 44]);
    assert_eq!(
        set.icon_for(&FileType::Other("dat".to_string()), "x.dat"),
        vec![42u8, 43, 44]
    );
}
