//! Attachment records and file-type classification.
//!
//! A record carries one attachment: its display name, owned payload
//! bytes, MIME content type, file-type class and owning chapter id.
//! Classification looks at the file name alone, matching its suffix
//! ASCII-case-insensitively.

use vstd::prelude::*;
use vstd::string::StrSliceExecFns;

verus! {

/// Closed classification used to pick an icon and a content type.
#[derive(Clone, Debug, PartialEq, Eq)]
pub enum FileType {
    Video,
    PDF,
    Image,
    Document,
    Excel,
    ZIP,
    Other(String),
}

/// Mathematical image of `FileType`: the `Other` payload as a char sequence.
pub enum FileTypeView {
    Video,
    PDF,
    Image,
    Document,
    Excel,
    ZIP,
    Other(Seq<char>),
}

impl View for FileType {
    type V = FileTypeView;

    open spec fn view(&self) -> FileTypeView {
        match self {
            FileType::Video => FileTypeView::Video,
            FileType::PDF => FileTypeView::PDF,
            FileType::Image => FileTypeView::Image,
            FileType::Document => FileTypeView::Document,
            FileType::Excel => FileTypeView::Excel,
            FileType::ZIP => FileTypeView::ZIP,
            FileType::Other(e) => FileTypeView::Other(e@),
        }
    }
}

/// One file to embed into the host document.
#[derive(Clone, Debug)]
pub struct EmbeddedFile {
    pub id: String,
    pub name: String,
    pub path: String,
    pub data: Vec<u8>,
    pub content_type: String,
    pub file_type: FileType,
    pub zip_id: String,
}

/// Progress notification emitted while a batch is processed.
#[derive(Clone, Debug)]
pub struct ProgressEvent {
    pub operation_type: String,
    pub current: usize,
    pub total: usize,
    pub step_name: String,
    pub message: String,
    pub is_complete: bool,
}

impl ProgressEvent {
    /// A progress event for step `current` of `total`; complete once
    /// `current` has reached `total`.
    pub fn new(operation_type: &str, current: usize, total: usize, step_name: &str, message: &str) -> (r: Self)
        ensures
            r.operation_type@ == operation_type@,
            r.current == current,
            r.total == total,
            r.step_name@ == step_name@,
            r.message@ == message@,
            r.is_complete == (current >= total),
    {
        ProgressEvent {
            operation_type: operation_type.to_owned(),
            current,
            total,
            step_name: step_name.to_owned(),
            message: message.to_owned(),
            is_complete: current >= total,
        }
    }

    /// The final event of an operation: one step of one, complete.
    pub fn complete(operation_type: &str) -> (r: Self)
        ensures
            r.operation_type@ == operation_type@,
            r.current == 1,
            r.total == 1,
            r.is_complete,
    {
        ProgressEvent {
            operation_type: operation_type.to_owned(),
            current: 1,
            total: 1,
            step_name: "done".to_owned(),
            message: "operation finished".to_owned(),
            is_complete: true,
        }
    }
}

/// Policy knobs for which attachments a batch embeds.
#[derive(Clone, Debug)]
pub struct EmbeddingConfig {
    pub enabled: bool,
    pub max_file_size: usize,
    pub max_files_per_zip: usize,
    pub allowed_types: Vec<String>,
    pub exclude_patterns: Vec<String>,
}

impl Default for EmbeddingConfig {
    /// The default policy: embedding on, ten-megabyte cap per file,
    /// twenty files per chapter, the common media and document
    /// suffixes allowed, temporary and hidden names excluded.
    fn default() -> (r: Self)
        ensures
            r.enabled == true,
            r.max_file_size == 10485760,
            r.max_files_per_zip == 20,
            r.allowed_types@.len() == 14,
            r.allowed_types@[0]@ == "pdf"@,
            r.allowed_types@[1]@ == "mp4"@,
            r.allowed_types@[2]@ == "avi"@,
            r.allowed_types@[3]@ == "mov"@,
            r.allowed_types@[4]@ == "wmv"@,
            r.allowed_types@[5]@ == "jpg"@,
            r.allowed_types@[6]@ == "jpeg"@,
            r.allowed_types@[7]@ == "png"@,
            r.allowed_types@[8]@ == "gif"@,
            r.allowed_types@[9]@ == "bmp"@,
            r.allowed_types@[10]@ == "doc"@,
            r.allowed_types@[11]@ == "docx"@,
            r.allowed_types@[12]@ == "txt"@,
            r.allowed_types@[13]@ == "zip"@,
            r.exclude_patterns@.len() == 3,
            r.exclude_patterns@[0]@ == "*.tmp"@,
            r.exclude_patterns@[1]@ == "*.temp"@,
            r.exclude_patterns@[2]@ == ".*"@,
    {
        let mut allowed_types: Vec<String> = Vec::new();
        allowed_types.push("pdf".to_owned());
        allowed_types.push("mp4".to_owned());
        allowed_types.push("avi".to_owned());
        allowed_types.push("mov".to_owned());
        allowed_types.push("wmv".to_owned());
        allowed_types.push("jpg".to_owned());
        allowed_types.push("jpeg".to_owned());
        allowed_types.push("png".to_owned());
        allowed_types.push("gif".to_owned());
        allowed_types.push("bmp".to_owned());
        allowed_types.push("doc".to_owned());
        allowed_types.push("docx".to_owned());
        allowed_types.push("txt".to_owned());
        allowed_types.push("zip".to_owned());
        let mut exclude_patterns: Vec<String> = Vec::new();
        exclude_patterns.push("*.tmp".to_owned());
        exclude_patterns.push("*.temp".to_owned());
        exclude_patterns.push(".*".to_owned());
        EmbeddingConfig {
            enabled: true,
            max_file_size: 10485760,
            max_files_per_zip: 20,
            allowed_types,
            exclude_patterns,
        }
    }
}

/// The characters of `s`, in order.
pub fn str_chars(s: &str) -> (r: Vec<char>)
    ensures
        r@ == s@,
{
    let n: usize = s.unicode_len();
    let mut r: Vec<char> = Vec::new();
    let mut i: usize = 0;
    while i < n
        invariant
            i <= n,
            n == s@.len(),
            r@ == s@.take(i as int),
        decreases n - i,
    {
        r.push(s.get_char(i));
        assert(r@ =~= s@.take(i as int + 1));
        i = i + 1;
    }
    assert(s@.take(n as int) =~= s@);
    r
}

/// The code point of `c`, with ASCII upper-case letters folded to lower case.
pub open spec fn fold_char(c: char) -> u32 {
    if 65 <= c as u32 <= 90 {
        (c as u32 + 32) as u32
    } else {
        c as u32
    }
}

/// `name` ends with `suf`, compared ASCII-case-insensitively.
pub open spec fn has_suffix(name: Seq<char>, suf: Seq<char>) -> bool {
    name.len() >= suf.len() && forall|i: int|
        0 <= i < suf.len() ==> fold_char(name[name.len() - suf.len() + i]) == fold_char(suf[i])
}

/// Decides `has_suffix(name@, suf@)`.
pub fn ends_with_fold(name: &Vec<char>, suf: &Vec<char>) -> (r: bool)
    ensures
        r == has_suffix(name@, suf@),
{
    let nl: usize = name.len();
    let sl: usize = suf.len();
    if nl < sl {
        return false;
    }
    let base: usize = nl - sl;
    let mut i: usize = 0;
    while i < sl
        invariant
            i <= sl,
            sl <= nl,
            base == nl - sl,
            nl == name@.len(),
            sl == suf@.len(),
            forall|t: int| 0 <= t < i ==> fold_char(name@[base + t]) == fold_char(suf@[t]),
        decreases sl - i,
    {
        let ca: char = name[base + i];
        let cb: char = suf[i];
        let a: u32 = ca as u32;
        let b: u32 = cb as u32;
        let fa: u32 = if 65 <= a && a <= 90 {
            a + 32
        } else {
            a
        };
        let fb: u32 = if 65 <= b && b <= 90 {
            b + 32
        } else {
            b
        };
        if fa != fb {
            assert(fold_char(name@[base + i]) != fold_char(suf@[i as int]));
            return false;
        }
        assert(fold_char(name@[base + i]) == fold_char(suf@[i as int]));
        i = i + 1;
    }
    true
}

/// Index after the last dot of `name` that starts an extension, or -1:
/// a dot counts only at position 1 or later, as in a plain file name.
pub open spec fn ext_dot(name: Seq<char>) -> int
    decreases name.len(),
{
    if name.len() <= 1 {
        -1
    } else if name[name.len() - 1] == '.' {
        name.len() - 1
    } else {
        ext_dot(name.take(name.len() - 1))
    }
}

/// The extension of `name` (after the last qualifying dot), empty if none.
pub open spec fn spec_extension(name: Seq<char>) -> Seq<char> {
    if ext_dot(name) >= 1 {
        name.skip(ext_dot(name) + 1)
    } else {
        Seq::empty()
    }
}

/// The stem of `name` (before the last qualifying dot), the whole name if none.
pub open spec fn spec_stem(name: Seq<char>) -> Seq<char> {
    if ext_dot(name) >= 1 {
        name.take(ext_dot(name))
    } else {
        name
    }
}

/// Splits a plain file name into stem and extension at the last dot;
/// a leading dot starts no extension. Returns the dot position, if any.
pub fn find_ext_dot(name: &Vec<char>) -> (r: Option<usize>)
    ensures
        match r {
            Some(i) => ext_dot(name@) == i && 1 <= i < name@.len(),
            None => ext_dot(name@) == -1,
        },
{
    let n: usize = name.len();
    if n <= 1 {
        return None;
    }
    let mut i: usize = n;
    assert(name@.take(n as int) =~= name@);
    while i > 1
        invariant
            1 <= i <= n,
            n == name@.len(),
            ext_dot(name@) == ext_dot(name@.take(i as int)),
        decreases i,
    {
        assert(name@.take(i as int).take(i - 1) =~= name@.take(i - 1));
        if name[i - 1] == '.' {
            assert(name@.take(i as int)[i - 1] == name@[i - 1]);
            return Some(i - 1);
        }
        assert(name@.take(i as int)[i - 1] == name@[i - 1]);
        i = i - 1;
    }
    assert(name@.take(1).len() == 1);
    None
}

/// The classification `detect_file_type` gives to `name`.
pub open spec fn spec_detect(name: Seq<char>) -> FileTypeView {
    if is_video_name(name) {
        FileTypeView::Video
    } else if has_suffix(name, ".pdf"@) {
        FileTypeView::PDF
    } else if is_image_name(name) {
        FileTypeView::Image
    } else if has_suffix(name, ".zip"@) {
        FileTypeView::ZIP
    } else if has_suffix(name, ".xls"@) || has_suffix(name, ".xlsx"@) {
        FileTypeView::Excel
    } else if is_document_name(name) {
        FileTypeView::Document
    } else if ext_dot(name) >= 1 {
        FileTypeView::Other(spec_extension(name))
    } else {
        FileTypeView::Other("unknown"@)
    }
}

pub open spec fn is_video_name(name: Seq<char>) -> bool {
    ||| has_suffix(name, ".mp4"@)
    ||| has_suffix(name, ".avi"@)
    ||| has_suffix(name, ".mov"@)
    ||| has_suffix(name, ".wmv"@)
    ||| has_suffix(name, ".mkv"@)
    ||| has_suffix(name, ".flv"@)
}

pub open spec fn is_image_name(name: Seq<char>) -> bool {
    ||| has_suffix(name, ".jpg"@)
    ||| has_suffix(name, ".jpeg"@)
    ||| has_suffix(name, ".png"@)
    ||| has_suffix(name, ".gif"@)
    ||| has_suffix(name, ".bmp"@)
    ||| has_suffix(name, ".webp"@)
}

pub open spec fn is_document_name(name: Seq<char>) -> bool {
    ||| has_suffix(name, ".doc"@)
    ||| has_suffix(name, ".docx"@)
    ||| has_suffix(name, ".txt"@)
    ||| has_suffix(name, ".rtf"@)
}

/// Classifies a plain file name by its suffix, ASCII-case-insensitively.
pub fn detect_file_type(filename: &str) -> (r: FileType)
    ensures
        r@ == spec_detect(filename@),
{
    let cs = str_chars(filename);
    if ends_with_chars(&cs, ".mp4") || ends_with_chars(&cs, ".avi") || ends_with_chars(&cs, ".mov")
        || ends_with_chars(&cs, ".wmv") || ends_with_chars(&cs, ".mkv") || ends_with_chars(
        &cs,
        ".flv",
    ) {
        FileType::Video
    } else if ends_with_chars(&cs, ".pdf") {
        FileType::PDF
    } else if ends_with_chars(&cs, ".jpg") || ends_with_chars(&cs, ".jpeg") || ends_with_chars(
        &cs,
        ".png",
    ) || ends_with_chars(&cs, ".gif") || ends_with_chars(&cs, ".bmp") || ends_with_chars(
        &cs,
        ".webp",
    ) {
        FileType::Image
    } else if ends_with_chars(&cs, ".zip") {
        FileType::ZIP
    } else if ends_with_chars(&cs, ".xls") || ends_with_chars(&cs, ".xlsx") {
        FileType::Excel
    } else if ends_with_chars(&cs, ".doc") || ends_with_chars(&cs, ".docx") || ends_with_chars(
        &cs,
        ".txt",
    ) || ends_with_chars(&cs, ".rtf") {
        FileType::Document
    } else {
        match find_ext_dot(&cs) {
            Some(i) => {
                let clen: usize = cs.len();
                assert(i < clen);
                let mut j: usize = i + 1;
                let mut ev: Vec<char> = Vec::new();
                while j < cs.len()
                    invariant
                        i + 1 <= j <= cs@.len(),
                        ev@ == cs@.subrange(i + 1, j as int),
                    decreases cs@.len() - j,
                {
                    ev.push(cs[j]);
                    assert(ev@ =~= cs@.subrange(i + 1, j + 1));
                    j = j + 1;
                }
                let ext = chars_string(&ev);
                assert(cs@.subrange(i + 1, cs@.len() as int) =~= cs@.skip(i + 1));
                FileType::Other(ext)
            },
            None => FileType::Other("unknown".to_owned()),
        }
    }
}

/// `ends_with_fold` against a literal suffix.
fn ends_with_chars(name: &Vec<char>, suf: &str) -> (r: bool)
    ensures
        r == has_suffix(name@, suf@),
{
    let sv = str_chars(suf);
    ends_with_fold(name, &sv)
}

/// Relies on `String::push`: appends the given character to the string.
#[verifier::external_body]
fn push_char(s: &mut String, c: char)
    ensures
        final(s)@ == old(s)@.push(c),
{
    s.push(c)
}

/// A `String` holding exactly the characters of `cs`.
pub fn chars_string(cs: &Vec<char>) -> (r: String)
    ensures
        r@ == cs@,
{
    let mut r: String = String::new();
    let mut i: usize = 0;
    while i < cs.len()
        invariant
            i <= cs@.len(),
            r@ == cs@.take(i as int),
        decreases cs@.len() - i,
    {
        push_char(&mut r, cs[i]);
        assert(r@ =~= cs@.take(i as int + 1));
        i = i + 1;
    }
    assert(cs@.take(cs@.len() as int) =~= cs@);
    r
}

/// The MIME content type `get_content_type` gives to `name`.
pub open spec fn spec_content_type(name: Seq<char>) -> Seq<char> {
    if has_suffix(name, ".pdf"@) {
        "application/pdf"@
    } else if has_suffix(name, ".mp4"@) {
        "video/mp4"@
    } else if has_suffix(name, ".avi"@) {
        "video/x-msvideo"@
    } else if has_suffix(name, ".mov"@) {
        "video/quicktime"@
    } else if has_suffix(name, ".wmv"@) {
        "video/x-ms-wmv"@
    } else if has_suffix(name, ".mkv"@) {
        "video/x-matroska"@
    } else if has_suffix(name, ".flv"@) {
        "video/x-flv"@
    } else if has_suffix(name, ".jpg"@) || has_suffix(name, ".jpeg"@) {
        "image/jpeg"@
    } else if has_suffix(name, ".png"@) {
        "image/png"@
    } else if has_suffix(name, ".gif"@) {
        "image/gif"@
    } else if has_suffix(name, ".bmp"@) {
        "image/bmp"@
    } else if has_suffix(name, ".webp"@) {
        "image/webp"@
    } else if has_suffix(name, ".zip"@) {
        "application/zip"@
    } else if has_suffix(name, ".xls"@) {
        "application/vnd.ms-excel"@
    } else if has_suffix(name, ".xlsx"@) {
        "application/vnd.openxmlformats-officedocument.spreadsheetml.sheet"@
    } else if has_suffix(name, ".doc"@) {
        "application/msword"@
    } else if has_suffix(name, ".docx"@) {
        "application/vnd.openxmlformats-officedocument.wordprocessingml.document"@
    } else if has_suffix(name, ".txt"@) {
        "text/plain"@
    } else if has_suffix(name, ".rtf"@) {
        "application/rtf"@
    } else {
        "application/octet-stream"@
    }
}

/// The MIME content type for a plain file name, by suffix.
pub fn get_content_type(filename: &str) -> (r: String)
    ensures
        r@ == spec_content_type(filename@),
{
    let cs = str_chars(filename);
    if ends_with_chars(&cs, ".pdf") {
        "application/pdf".to_owned()
    } else if ends_with_chars(&cs, ".mp4") {
        "video/mp4".to_owned()
    } else if ends_with_chars(&cs, ".avi") {
        "video/x-msvideo".to_owned()
    } else if ends_with_chars(&cs, ".mov") {
        "video/quicktime".to_owned()
    } else if ends_with_chars(&cs, ".wmv") {
        "video/x-ms-wmv".to_owned()
    } else if ends_with_chars(&cs, ".mkv") {
        "video/x-matroska".to_owned()
    } else if ends_with_chars(&cs, ".flv") {
        "video/x-flv".to_owned()
    } else if ends_with_chars(&cs, ".jpg") || ends_with_chars(&cs, ".jpeg") {
        "image/jpeg".to_owned()
    } else if ends_with_chars(&cs, ".png") {
        "image/png".to_owned()
    } else if ends_with_chars(&cs, ".gif") {
        "image/gif".to_owned()
    } else if ends_with_chars(&cs, ".bmp") {
        "image/bmp".to_owned()
    } else if ends_with_chars(&cs, ".webp") {
        "image/webp".to_owned()
    } else if ends_with_chars(&cs, ".zip") {
        "application/zip".to_owned()
    } else if ends_with_chars(&cs, ".xls") {
        "application/vnd.ms-excel".to_owned()
    } else if ends_with_chars(&cs, ".xlsx") {
        "application/vnd.openxmlformats-officedocument.spreadsheetml.sheet".to_owned()
    } else if ends_with_chars(&cs, ".doc") {
        "application/msword".to_owned()
    } else if ends_with_chars(&cs, ".docx") {
        "application/vnd.openxmlformats-officedocument.wordprocessingml.document".to_owned()
    } else if ends_with_chars(&cs, ".txt") {
        "text/plain".to_owned()
    } else if ends_with_chars(&cs, ".rtf") {
        "application/rtf".to_owned()
    } else {
        "application/octet-stream".to_owned()
    }
}

} // verus!
