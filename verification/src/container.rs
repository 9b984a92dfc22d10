//! The two streams of an embedded object's compound container.
//!
//! The native-payload stream carries the raw attachment bytes behind a
//! small header: lengths, a fixed marker, and three zero-terminated
//! names in the legacy national encoding. The object-descriptor stream
//! is one constant blob naming the generic package object type. A
//! strict reader of the inverse layout recovers the payload unchanged.

use vstd::prelude::*;
use vstd::string::StringExecFns;
use crate::byteseq::{
    le32,
    le32_at,
    first_found,
    found_at,
    find_from,
    push_le32,
    read_le32,
    lemma_first_found,
    lemma_first_found_exact,
    lemma_le32_at_subrange,
    lemma_le32_roundtrip,
};

verus! {

/// The native-payload stream for a payload and three encoded names:
/// payload length, marker `02 00`, display name, source path and
/// temporary path (each zero-terminated, the last length-prefixed),
/// payload length again, then the payload verbatim.
pub open spec fn native_stream(
    name_b: Seq<u8>,
    path_b: Seq<u8>,
    temp_b: Seq<u8>,
    payload: Seq<u8>,
) -> Seq<u8> {
    le32(payload.len()) + seq![2u8, 0u8] + name_b + seq![0u8] + path_b + seq![0u8] + seq![
        0u8,
        0u8,
        3u8,
        0u8,
    ] + le32(temp_b.len() + 1) + temp_b + seq![0u8] + le32(payload.len()) + payload
}

/// Builds the native-payload stream from already-encoded names.
pub fn build_native_stream(
    name_b: &Vec<u8>,
    path_b: &Vec<u8>,
    temp_b: &Vec<u8>,
    payload: &Vec<u8>,
) -> (r: Vec<u8>)
    requires
        payload@.len() < 4294967296,
        temp_b@.len() + 1 < 4294967296,
    ensures
        r@ == native_stream(name_b@, path_b@, temp_b@, payload@),
{
    let mut r: Vec<u8> = Vec::new();
    let plen: u64 = payload.len() as u64;
    push_le32(&mut r, plen as u32);
    r.push(2);
    r.push(0);
    r.extend_from_slice(name_b.as_slice());
    r.push(0);
    r.extend_from_slice(path_b.as_slice());
    r.push(0);
    r.push(0);
    r.push(0);
    r.push(3);
    r.push(0);
    let tlen: u64 = temp_b.len() as u64;
    push_le32(&mut r, (tlen + 1) as u32);
    r.extend_from_slice(temp_b.as_slice());
    r.push(0);
    push_le32(&mut r, plen as u32);
    r.extend_from_slice(payload.as_slice());
    assert(r@ =~= native_stream(name_b@, path_b@, temp_b@, payload@));
    r
}

/// The constant object-descriptor stream: version and byte-order tags,
/// format version, a reserved sentinel, the generic package class id,
/// the length-prefixed type name, an empty clipboard-format field and a
/// reserved trailer.
pub open spec fn comp_obj_stream() -> Seq<u8> {
    seq![1u8, 0u8] + seq![0xFEu8, 0xFFu8] + le32(0x00000A03) + le32(0xFFFFFFFF) + seq![
        0x0Cu8,
        0u8,
        0u8,
        0u8,
        0u8,
        0u8,
        0u8,
        0u8,
        0xC0u8,
        0u8,
        0u8,
        0u8,
        0u8,
        0u8,
        0u8,
        0x46u8,
    ] + le32(7) + seq![0x50u8, 0x61u8, 0x63u8, 0x6Bu8, 0x61u8, 0x67u8, 0x65u8] + seq![0u8] + le32(0)
        + le32(0)
}

/// Builds the constant object-descriptor stream.
pub fn create_comp_obj_stream() -> (r: Vec<u8>)
    ensures
        r@ == comp_obj_stream(),
{
    let mut r: Vec<u8> = Vec::new();
    r.push(1);
    r.push(0);
    r.push(0xFE);
    r.push(0xFF);
    push_le32(&mut r, 0x00000A03);
    push_le32(&mut r, 0xFFFFFFFF);
    r.push(0x0C);
    r.push(0);
    r.push(0);
    r.push(0);
    r.push(0);
    r.push(0);
    r.push(0);
    r.push(0);
    r.push(0xC0);
    r.push(0);
    r.push(0);
    r.push(0);
    r.push(0);
    r.push(0);
    r.push(0);
    r.push(0x46);
    push_le32(&mut r, 7);
    r.push(0x50);
    r.push(0x61);
    r.push(0x63);
    r.push(0x6B);
    r.push(0x61);
    r.push(0x67);
    r.push(0x65);
    r.push(0);
    push_le32(&mut r, 0);
    push_le32(&mut r, 0);
    assert(r@ =~= comp_obj_stream());
    r
}

/// The strict inverse of `native_stream`: checks the marker, walks the
/// three names by their zero terminators, cross-checks both length
/// fields and yields the payload, or nothing when any check fails.
pub open spec fn spec_parse_native(s: Seq<u8>) -> Option<Seq<u8>> {
    if s.len() < 6 || s[4] != 2 || s[5] != 0 {
        None
    } else {
        match first_found(s, seq![0u8], 6) {
            None => None,
            Some(ne) => match first_found(s, seq![0u8], ne + 1) {
                None => None,
                Some(pe) => spec_parse_tail(s, pe as int),
            },
        }
    }
}

/// The fields that follow the source path's terminator at `pe`.
pub open spec fn spec_parse_tail(s: Seq<u8>, pe: int) -> Option<Seq<u8>> {
    if pe + 9 > s.len() {
        None
    } else if s[pe + 1] != 0 || s[pe + 2] != 0 || s[pe + 3] != 3 || s[pe + 4] != 0 {
        None
    } else {
        let tlen = le32_at(s, pe + 5) as int;
        let pl_pos = pe + 9 + tlen;
        if pl_pos + 4 > s.len() {
            None
        } else {
            let plen = le32_at(s, pl_pos) as int;
            if pl_pos + 4 + plen != s.len() || le32_at(s, 0) != plen {
                None
            } else {
                Some(s.subrange(pl_pos + 4, pl_pos + 4 + plen))
            }
        }
    }
}

/// Reads a native-payload stream back; yields the payload exactly when
/// the strict inverse layout accepts the bytes.
pub fn parse_native_stream(s: &Vec<u8>) -> (r: Option<Vec<u8>>)
    ensures
        match r {
            Some(v) => spec_parse_native(s@) == Some(v@),
            None => spec_parse_native(s@) is None,
        },
{
    let slen: usize = s.len();
    if slen < 6 {
        return None;
    }
    if s[4] != 2 || s[5] != 0 {
        return None;
    }
    let mut zero: Vec<u8> = Vec::new();
    zero.push(0);
    assert(zero@ =~= seq![0u8]);
    let ne = match find_from(s, &zero, 6) {
        None => {
            return None;
        },
        Some(ne) => ne,
    };
    proof {
        lemma_first_found(s@, seq![0u8], 6);
    }
    assert(ne + 1 <= slen);
    let pe = match find_from(s, &zero, ne + 1) {
        None => {
            return None;
        },
        Some(pe) => pe,
    };
    proof {
        lemma_first_found(s@, seq![0u8], (ne + 1) as nat);
    }
    assert(pe < slen);
    if slen - pe < 9 {
        return None;
    }
    if s[pe + 1] != 0 || s[pe + 2] != 0 || s[pe + 3] != 3 || s[pe + 4] != 0 {
        return None;
    }
    let tlen: u64 = read_le32(s, pe + 5);
    let pl_pos_wide: u128 = pe as u128 + 9 + tlen as u128;
    if pl_pos_wide > slen as u128 - 4 {
        return None;
    }
    let pl_pos: usize = pl_pos_wide as usize;
    let plen: u64 = read_le32(s, pl_pos);
    if pl_pos as u128 + 4 + plen as u128 != slen as u128 {
        return None;
    }
    let hlen: u64 = read_le32(s, 0);
    if hlen != plen {
        return None;
    }
    let start: usize = pl_pos + 4;
    let mut out: Vec<u8> = Vec::new();
    let mut i: usize = start;
    while i < slen
        invariant
            start <= i <= slen,
            slen == s@.len(),
            out@ == s@.subrange(start as int, i as int),
        decreases slen - i,
    {
        out.push(s[i]);
        assert(out@ =~= s@.subrange(start as int, i + 1));
        i = i + 1;
    }
    assert(spec_parse_native(s@) == Some(s@.subrange(start as int, slen as int)));
    Some(out)
}

/// Reading a built native-payload stream back recovers the payload:
/// the round trip is exact whenever the encoded names carry no zero
/// byte and the lengths fit the four-byte fields.
#[verifier::rlimit(100)]
pub proof fn lemma_native_roundtrip(
    name_b: Seq<u8>,
    path_b: Seq<u8>,
    temp_b: Seq<u8>,
    payload: Seq<u8>,
)
    requires
        forall|i: int| 0 <= i < name_b.len() ==> name_b[i] != 0,
        forall|i: int| 0 <= i < path_b.len() ==> path_b[i] != 0,
        payload.len() < 4294967296,
        temp_b.len() + 1 < 4294967296,
    ensures
        spec_parse_native(native_stream(name_b, path_b, temp_b, payload)) == Some(payload),
{
    let s = native_stream(name_b, path_b, temp_b, payload);
    let n = name_b.len() as int;
    let p = path_b.len() as int;
    let t = temp_b.len() as int;
    let pl = payload.len() as int;
    assert(s.len() == 21 + n + p + t + pl);
    assert(s[4] == 2 && s[5] == 0);
    // The display name runs from 6 to its zero terminator.
    assert(forall|i: int| 0 <= i < n ==> s[6 + i] == name_b[i]);
    assert(s[6 + n] == 0);
    let z = seq![0u8];
    assert forall|j: int| 6 <= j < 6 + n implies !found_at(s, z, j) by {
        if found_at(s, z, j) {
            assert(s.subrange(j, j + 1)[0] == 0);
        }
    }
    assert(s.subrange(6 + n, 7 + n) =~= z);
    assert(found_at(s, z, 6 + n));
    lemma_first_found_exact(s, z, 6, 6 + n);
    // The source path runs from 7 + n to its zero terminator.
    let pe = 7 + n + p;
    assert(forall|i: int| 0 <= i < p ==> s[7 + n + i] == path_b[i]);
    assert(s[pe] == 0);
    assert forall|j: int| 7 + n <= j < pe implies !found_at(s, z, j) by {
        if found_at(s, z, j) {
            assert(s.subrange(j, j + 1)[0] == 0);
        }
    }
    assert(s.subrange(pe, pe + 1) =~= z);
    assert(found_at(s, z, pe));
    lemma_first_found_exact(s, z, (7 + n) as nat, pe);
    // Separator, temporary path length, payload length, payload.
    assert(s[pe + 1] == 0 && s[pe + 2] == 0 && s[pe + 3] == 3 && s[pe + 4] == 0);
    assert(s.subrange(pe + 5, pe + 9) =~= le32((t + 1) as nat));
    lemma_le32_at_subrange(s, pe + 5, (t + 1) as nat);
    let pl_pos = pe + 9 + t + 1;
    assert(s.subrange(pl_pos, pl_pos + 4) =~= le32(pl as nat));
    lemma_le32_at_subrange(s, pl_pos, pl as nat);
    assert(s.subrange(0, 4) =~= le32(pl as nat));
    lemma_le32_at_subrange(s, 0, pl as nat);
    assert(pl_pos + 4 + pl == s.len());
    assert(s.subrange(pl_pos + 4, pl_pos + 4 + pl) =~= payload);
    assert(spec_parse_tail(s, pe) == Some(payload));
}

/// The legacy national encoding of a character sequence.
pub uninterp spec fn gbk_of(s: Seq<char>) -> Seq<u8>;

/// Relies on encoding_rs::GBK.encode: the result is a pure function of
/// the characters; an empty string encodes to nothing; ASCII passes
/// through unchanged and multi-byte sequences and numeric character
/// references use no zero byte, so a text without the NUL character
/// encodes without a zero byte.
#[verifier::external_body]
fn gbk_encode(s: &str) -> (r: Vec<u8>)
    ensures
        r@ == gbk_of(s@),
        s@.len() == 0 ==> r@.len() == 0,
        (forall|i: int| 0 <= i < s@.len() ==> s@[i] != '\u{0}') ==> (forall|j: int|
            0 <= j < r@.len() ==> r@[j] != 0),
{
    let (bytes, _, _) = encoding_rs::GBK.encode(s);
    bytes.into_owned()
}

/// A fault while building one attachment's container: the payload or a
/// name does not fit its length field, or the container could not be
/// written.
#[derive(Clone, Copy, Debug, PartialEq, Eq)]
pub enum ContainerBuildError {
    TooLarge,
    StreamWrite,
}

/// The compound container that seals a native-payload stream and an
/// object-descriptor stream together.
pub uninterp spec fn sealed_of(native: Seq<u8>, descriptor: Seq<u8>) -> Seq<u8>;

/// Relies on cfb::create, create_stream and Write::write_all: the
/// result is a compound container holding the native-payload stream
/// and the object-descriptor stream under their conventional names.
/// Streams and the root entry carry zero timestamps (the compound-file
/// rule cfb follows), and this call creates nothing else, so the bytes
/// are a function of the two streams alone.
#[verifier::external_body]
fn seal_container(native: &Vec<u8>, descriptor: &Vec<u8>) -> (r: Result<Vec<u8>, ()>)
    ensures
        r matches Ok(b) ==> b@ == sealed_of(native@, descriptor@),
{
    let mut cursor = std::io::Cursor::new(Vec::new());
    let mut comp = cfb::CompoundFile::create(&mut cursor).map_err(|_| ())?;
    let mut s = comp.create_stream("\u{1}Ole10Native").map_err(|_| ())?;
    std::io::Write::write_all(&mut s, native).map_err(|_| ())?;
    drop(s);
    let mut s = comp.create_stream("\u{1}CompObj").map_err(|_| ())?;
    std::io::Write::write_all(&mut s, descriptor).map_err(|_| ())?;
    drop(s);
    drop(comp);
    Ok(cursor.into_inner())
}

/// The synthetic source path written into the native-payload stream.
pub open spec fn source_path_chars(name: Seq<char>) -> Seq<char> {
    "C:/"@ + name
}

/// The synthetic temporary path written into the native-payload stream.
pub open spec fn temp_path_chars(name: Seq<char>) -> Seq<char> {
    "C:\\Users\\Public\\"@ + name
}

/// The native-payload stream of one attachment: its display name,
/// synthetic source and temporary paths in the legacy encoding, and its
/// payload; nothing when the payload or the temporary path cannot fit a
/// four-byte length field.
pub fn build_native_for(file: &crate::records::EmbeddedFile) -> (r: Option<Vec<u8>>)
    ensures
        match r {
            Some(v) => file.data@.len() < 4294967296 && gbk_of(temp_path_chars(file.name@)).len()
                + 1 < 4294967296 && v@ == native_stream(
                gbk_of(file.name@),
                gbk_of(source_path_chars(file.name@)),
                gbk_of(temp_path_chars(file.name@)),
                file.data@,
            ) && (name_without_nul(file.name@) ==> spec_parse_native(v@) == Some(file.data@)),
            None => file.data@.len() >= 4294967296 || gbk_of(temp_path_chars(file.name@)).len()
                + 1 >= 4294967296,
        },
{
    let name_b = gbk_encode(file.name.as_str());
    let mut path = "C:/".to_owned();
    path.append(file.name.as_str());
    let path_b = gbk_encode(path.as_str());
    let mut temp = "C:\\Users\\Public\\".to_owned();
    temp.append(file.name.as_str());
    let temp_b = gbk_encode(temp.as_str());
    if file.data.len() as u64 >= 4294967296 {
        return None;
    }
    if temp_b.len() as u128 + 1 >= 4294967296 {
        return None;
    }
    let stream = build_native_stream(&name_b, &path_b, &temp_b, &file.data);
    proof {
        if name_without_nul(file.name@) {
            reveal_strlit("C:/");
            assert(forall|i: int| 0 <= i < path@.len() ==> path@[i] != '\u{0}');
            assert(forall|j: int| 0 <= j < name_b@.len() ==> name_b@[j] != 0);
            assert(forall|j: int| 0 <= j < path_b@.len() ==> path_b@[j] != 0);
            lemma_native_roundtrip(name_b@, path_b@, temp_b@, file.data@);
        }
    }
    Some(stream)
}

/// The display name holds no NUL character; then its encoded forms
/// hold no zero byte and the payload round trip goes through.
pub open spec fn name_without_nul(name: Seq<char>) -> bool {
    forall|i: int| 0 <= i < name.len() ==> name[i] != '\u{0}'
}

/// The native-payload stream this attachment's container seals in.
pub open spec fn record_native_stream(file: crate::records::EmbeddedFile) -> Seq<u8> {
    native_stream(
        gbk_of(file.name@),
        gbk_of(source_path_chars(file.name@)),
        gbk_of(temp_path_chars(file.name@)),
        file.data@,
    )
}

/// Builds one attachment's compound container: the native-payload
/// stream and the constant object-descriptor stream, sealed into a
/// compound document. Reports a too-large fault exactly when the
/// payload or the encoded temporary path cannot fit a four-byte length
/// field; a stream-write fault can come only from sealing. On success
/// the container seals this record's native-payload stream — which,
/// for a display name free of NUL, reads back to the payload — beside
/// the constant descriptor stream.
pub fn create_ole_package(file: &crate::records::EmbeddedFile) -> (r: Result<
    Vec<u8>,
    ContainerBuildError,
>)
    ensures
        r == Result::<Vec<u8>, ContainerBuildError>::Err(ContainerBuildError::TooLarge) <==> (
        file.data@.len() >= 4294967296 || gbk_of(temp_path_chars(file.name@)).len() + 1
            >= 4294967296),
        r matches Ok(b) ==> b@ == sealed_of(record_native_stream(*file), comp_obj_stream()),
        r is Ok && name_without_nul(file.name@) ==> spec_parse_native(record_native_stream(*file))
            == Some(file.data@),
{
    let native = match build_native_for(file) {
        None => {
            return Err(ContainerBuildError::TooLarge);
        },
        Some(n) => n,
    };
    let descriptor = create_comp_obj_stream();
    match seal_container(&native, &descriptor) {
        Ok(bytes) => Ok(bytes),
        Err(_) => Err(ContainerBuildError::StreamWrite),
    }
}

} // verus!
