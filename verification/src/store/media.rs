//! Media values: where their bytes come from, what type they have, and where they go.

use crate::error::{error_text, ErrorModel, NanoError};
use crate::path::{extension_of, is_absolute, joined, parent_of, path_extension, path_is_absolute, path_join, path_parent};
use crate::store::uri::{file_path_to_url, kept_name, local_view, may_name, parse_url, url_parsed, url_to_file_path, LocalPath, LocalPathModel};
use crate::strings::{after_prefix, ascii_lowercase, has_prefix, has_suffix, lowered, strip_prefix, trim, trimmed};
use crate::text::{cat2, cat3, cat4, cat5, cat7, hex_digit, same};
use base64::Engine;
use sha2::Digest;
use vstd::prelude::*;

verus! {

// ---------------------------------------------------------------------------
// Outside functions

/// What base64 text decodes to in the standard alphabet, or the message that refuses it.
pub uninterp spec fn base64_decoded(text: Seq<char>) -> Result<Seq<u8>, Seq<char>>;

/// `Engine::decode` of base64's `STANDARD` engine: the decoded bytes, or the text of its
/// `DecodeError`.
#[verifier::external_body]
fn decode_base64(text: &str) -> (r: Result<Vec<u8>, String>)
    ensures
        match r {
            Ok(bytes) => base64_decoded(text@) == Ok::<Seq<u8>, Seq<char>>(bytes@),
            Err(m) => base64_decoded(text@) == Err::<Seq<u8>, Seq<char>>(m@),
        },
{
    base64::engine::general_purpose::STANDARD.decode(text).map_err(|e| e.to_string())
}

/// The SHA-256 digest of some bytes.
pub uninterp spec fn sha256(bytes: Seq<u8>) -> Seq<u8>;

/// `sha2::Sha256::digest`: the SHA-256 digest, which has 32 bytes.
#[verifier::external_body]
fn digest_sha256(bytes: &Vec<u8>) -> (r: Vec<u8>)
    ensures
        r@ == sha256(bytes@),
        r@.len() == 32,
{
    sha2::Sha256::digest(bytes).to_vec()
}

// ---------------------------------------------------------------------------
// Hexadecimal

/// Two lower case hexadecimal digits for each byte.
pub open spec fn hex_of(bytes: Seq<u8>) -> Seq<char> {
    Seq::new(
        2 * bytes.len(),
        |i: int|
            if i % 2 == 0 {
                hex_digit(bytes[i / 2] as int / 16)
            } else {
                hex_digit(bytes[i / 2] as int % 16)
            },
    )
}

fn hex_char(d: u8) -> (c: char)
    requires
        d < 16,
    ensures
        c == hex_digit(d as int),
{
    if d < 10 {
        (48u8 + d) as char
    } else {
        (87u8 + d) as char
    }
}

/// Two lower case hexadecimal digits for each byte.
pub fn hex_lower(bytes: &Vec<u8>) -> (r: String)
    ensures
        r@ == hex_of(bytes@),
{
    let mut out = String::new();
    let mut i: usize = 0;
    assert(out@ =~= hex_of(bytes@).take(0));
    while i < bytes.len()
        invariant
            i <= bytes@.len(),
            out@ == hex_of(bytes@).take(2 * i),
        decreases bytes@.len() - i,
    {
        let b: u8 = bytes[i];
        out.push(hex_char(b / 16));
        out.push(hex_char(b % 16));
        assert(hex_of(bytes@).take(2 * i + 2) =~= hex_of(bytes@).take(2 * i).push(
            hex_digit(b as int / 16),
        ).push(hex_digit(b as int % 16)));
        i = i + 1;
    }
    assert(hex_of(bytes@).take(2 * bytes@.len() as int) =~= hex_of(bytes@));
    out
}

/// Bytes that have the same digits are the same.
pub proof fn law_hex_is_injective(a: Seq<u8>, b: Seq<u8>)
    requires
        hex_of(a) == hex_of(b),
    ensures
        a == b,
{
    assert(hex_of(a).len() == 2 * a.len());
    assert(hex_of(b).len() == 2 * b.len());
    assert forall|i: int| 0 <= i < a.len() implies a[i] == b[i] by {
        let (x, y) = (hex_of(a), hex_of(b));
        assert((2 * i) / 2 == i && (2 * i + 1) / 2 == i && (2 * i) % 2 == 0 && (2 * i + 1) % 2 == 1);
        assert(x[2 * i] == hex_digit(a[i] as int / 16) && y[2 * i] == hex_digit(b[i] as int / 16));
        assert(x[2 * i + 1] == hex_digit(a[i] as int % 16) && y[2 * i + 1] == hex_digit(
            b[i] as int % 16,
        ));
        lemma_hex_digit(a[i] as int / 16, b[i] as int / 16);
        lemma_hex_digit(a[i] as int % 16, b[i] as int % 16);
    }
    assert(a =~= b);
}

proof fn lemma_hex_digit(x: int, y: int)
    requires
        0 <= x < 16,
        0 <= y < 16,
        hex_digit(x) == hex_digit(y),
    ensures
        x == y,
{
}

// ---------------------------------------------------------------------------
// Mime types

/// The mime type of a file extension, in whatever case it is written.
pub open spec fn mime_of_extension(ext: Seq<char>) -> Option<Seq<char>> {
    let e = lowered(ext);
    if e == "png"@ {
        Some("image/png"@)
    } else if e == "jpg"@ || e == "jpeg"@ {
        Some("image/jpeg"@)
    } else if e == "gif"@ {
        Some("image/gif"@)
    } else if e == "webp"@ {
        Some("image/webp"@)
    } else if e == "pdf"@ {
        Some("application/pdf"@)
    } else if e == "mp3"@ {
        Some("audio/mpeg"@)
    } else if e == "wav"@ {
        Some("audio/wav"@)
    } else if e == "mp4"@ || e == "m4v"@ {
        Some("video/mp4"@)
    } else if e == "mov"@ {
        Some("video/quicktime"@)
    } else {
        None
    }
}

/// The file extension of a mime type.
pub open spec fn extension_of_mime(mime: Seq<char>) -> Option<Seq<char>> {
    if mime == "image/png"@ {
        Some("png"@)
    } else if mime == "image/jpeg"@ {
        Some("jpg"@)
    } else if mime == "image/gif"@ {
        Some("gif"@)
    } else if mime == "image/webp"@ {
        Some("webp"@)
    } else if mime == "application/pdf"@ {
        Some("pdf"@)
    } else if mime == "audio/mpeg"@ {
        Some("mp3"@)
    } else if mime == "audio/wav"@ {
        Some("wav"@)
    } else if mime == "video/mp4"@ {
        Some("mp4"@)
    } else if mime == "video/quicktime"@ {
        Some("mov"@)
    } else {
        None
    }
}

/// Whether an optional string result is what a spec gives.
pub open spec fn is_text_of(r: Option<&'static str>, m: Option<Seq<char>>) -> bool {
    match r {
        Some(s) => m == Some(s@),
        None => m is None,
    }
}

/// The mime type of a file extension.
pub fn extension_to_mime(ext: &str) -> (r: Option<&'static str>)
    ensures
        is_text_of(r, mime_of_extension(ext@)),
{
    let e = ascii_lowercase(ext);
    if same(&e, "png") {
        Some("image/png")
    } else if same(&e, "jpg") || same(&e, "jpeg") {
        Some("image/jpeg")
    } else if same(&e, "gif") {
        Some("image/gif")
    } else if same(&e, "webp") {
        Some("image/webp")
    } else if same(&e, "pdf") {
        Some("application/pdf")
    } else if same(&e, "mp3") {
        Some("audio/mpeg")
    } else if same(&e, "wav") {
        Some("audio/wav")
    } else if same(&e, "mp4") || same(&e, "m4v") {
        Some("video/mp4")
    } else if same(&e, "mov") {
        Some("video/quicktime")
    } else {
        None
    }
}

/// The file extension of a mime type.
pub fn mime_to_extension(mime_type: &str) -> (r: Option<&'static str>)
    ensures
        is_text_of(r, extension_of_mime(mime_type@)),
{
    if same(mime_type, "image/png") {
        Some("png")
    } else if same(mime_type, "image/jpeg") {
        Some("jpg")
    } else if same(mime_type, "image/gif") {
        Some("gif")
    } else if same(mime_type, "image/webp") {
        Some("webp")
    } else if same(mime_type, "application/pdf") {
        Some("pdf")
    } else if same(mime_type, "audio/mpeg") {
        Some("mp3")
    } else if same(mime_type, "audio/wav") {
        Some("wav")
    } else if same(mime_type, "video/mp4") {
        Some("mp4")
    } else if same(mime_type, "video/quicktime") {
        Some("mov")
    } else {
        None
    }
}

/// Whether the bytes `w` stand at position `i`.
pub open spec fn bytes_at(b: Seq<u8>, i: int, w: Seq<u8>) -> bool {
    i + w.len() <= b.len() && b.subrange(i, i + w.len() as int) == w
}

/// The mime type that the first bytes of a file show.
pub open spec fn mime_of_bytes(b: Seq<u8>) -> Option<Seq<char>> {
    if bytes_at(b, 0, seq![0x89u8, 0x50, 0x4e, 0x47, 0x0d, 0x0a, 0x1a, 0x0a]) {
        Some("image/png"@)
    } else if bytes_at(b, 0, seq![0xffu8, 0xd8, 0xff]) {
        Some("image/jpeg"@)
    } else if bytes_at(b, 0, seq![0x47u8, 0x49, 0x46, 0x38, 0x37, 0x61]) || bytes_at(
        b,
        0,
        seq![0x47u8, 0x49, 0x46, 0x38, 0x39, 0x61],
    ) {
        Some("image/gif"@)
    } else if bytes_at(b, 0, seq![0x52u8, 0x49, 0x46, 0x46]) && bytes_at(
        b,
        8,
        seq![0x57u8, 0x45, 0x42, 0x50],
    ) {
        Some("image/webp"@)
    } else if bytes_at(b, 0, seq![0x25u8, 0x50, 0x44, 0x46, 0x2d]) {
        Some("application/pdf"@)
    } else if bytes_at(b, 0, seq![0x52u8, 0x49, 0x46, 0x46]) && bytes_at(
        b,
        8,
        seq![0x57u8, 0x41, 0x56, 0x45],
    ) {
        Some("audio/wav"@)
    } else if bytes_at(b, 0, seq![0x49u8, 0x44, 0x33]) || (b.len() >= 2 && b[0] == 0xff && b[1]
        >= 0xe0) {
        Some("audio/mpeg"@)
    } else if b.len() >= 12 && bytes_at(b, 4, seq![0x66u8, 0x74, 0x79, 0x70]) {
        Some("video/mp4"@)
    } else {
        None
    }
}

fn stands_at(b: &Vec<u8>, i: usize, w: &Vec<u8>) -> (r: bool)
    requires
        i <= 16,
        w@.len() <= 16,
    ensures
        r == bytes_at(b@, i as int, w@),
{
    if b.len() < i + w.len() {
        return false;
    }
    let mut k: usize = 0;
    while k < w.len()
        invariant
            i <= 16,
            w@.len() <= 16,
            k <= w@.len(),
            i + w@.len() <= b@.len(),
            forall|j: int| 0 <= j < k ==> b@[i + j] == #[trigger] w@[j],
        decreases w@.len() - k,
    {
        if b[i + k] != w[k] {
            assert(b@.subrange(i as int, i + w@.len() as int)[k as int] != w@[k as int]);
            return false;
        }
        k = k + 1;
    }
    assert(b@.subrange(i as int, i + w@.len() as int) =~= w@);
    true
}

/// The mime type that the first bytes of a file show.
pub fn detect_mime_from_bytes(bytes: &Vec<u8>) -> (r: Option<&'static str>)
    ensures
        is_text_of(r, mime_of_bytes(bytes@)),
{
    let png: Vec<u8> = vec![0x89, 0x50, 0x4e, 0x47, 0x0d, 0x0a, 0x1a, 0x0a];
    assert(png@ =~= seq![0x89u8, 0x50, 0x4e, 0x47, 0x0d, 0x0a, 0x1a, 0x0a]);
    if stands_at(bytes, 0, &png) {
        return Some("image/png");
    }
    let jpeg: Vec<u8> = vec![0xff, 0xd8, 0xff];
    assert(jpeg@ =~= seq![0xffu8, 0xd8, 0xff]);
    if stands_at(bytes, 0, &jpeg) {
        return Some("image/jpeg");
    }
    let gif87: Vec<u8> = vec![0x47, 0x49, 0x46, 0x38, 0x37, 0x61];
    assert(gif87@ =~= seq![0x47u8, 0x49, 0x46, 0x38, 0x37, 0x61]);
    let gif89: Vec<u8> = vec![0x47, 0x49, 0x46, 0x38, 0x39, 0x61];
    assert(gif89@ =~= seq![0x47u8, 0x49, 0x46, 0x38, 0x39, 0x61]);
    if stands_at(bytes, 0, &gif87) || stands_at(bytes, 0, &gif89) {
        return Some("image/gif");
    }
    let riff: Vec<u8> = vec![0x52, 0x49, 0x46, 0x46];
    assert(riff@ =~= seq![0x52u8, 0x49, 0x46, 0x46]);
    let webp: Vec<u8> = vec![0x57, 0x45, 0x42, 0x50];
    assert(webp@ =~= seq![0x57u8, 0x45, 0x42, 0x50]);
    if stands_at(bytes, 0, &riff) && stands_at(bytes, 8, &webp) {
        return Some("image/webp");
    }
    let pdf: Vec<u8> = vec![0x25, 0x50, 0x44, 0x46, 0x2d];
    assert(pdf@ =~= seq![0x25u8, 0x50, 0x44, 0x46, 0x2d]);
    if stands_at(bytes, 0, &pdf) {
        return Some("application/pdf");
    }
    let wave: Vec<u8> = vec![0x57, 0x41, 0x56, 0x45];
    assert(wave@ =~= seq![0x57u8, 0x41, 0x56, 0x45]);
    if stands_at(bytes, 0, &riff) && stands_at(bytes, 8, &wave) {
        return Some("audio/wav");
    }
    let id3: Vec<u8> = vec![0x49, 0x44, 0x33];
    assert(id3@ =~= seq![0x49u8, 0x44, 0x33]);
    if stands_at(bytes, 0, &id3) || (bytes.len() >= 2 && bytes[0] == 0xff && bytes[1] >= 0xe0) {
        return Some("audio/mpeg");
    }
    let ftyp: Vec<u8> = vec![0x66, 0x74, 0x79, 0x70];
    assert(ftyp@ =~= seq![0x66u8, 0x74, 0x79, 0x70]);
    if bytes.len() >= 12 && stands_at(bytes, 4, &ftyp) {
        return Some("video/mp4");
    }
    None
}

/// A mime type that was given: trimmed, and none where nothing is left.
pub open spec fn given_mime(hint: Option<Seq<char>>) -> Option<Seq<char>> {
    match hint {
        Some(h) => if trimmed(h).len() == 0 {
            None
        } else {
            Some(trimmed(h))
        },
        None => None,
    }
}

/// The view of an optional reference to a string.
pub open spec fn hint_view(hint: Option<&String>) -> Option<Seq<char>> {
    match hint {
        Some(h) => Some(h@),
        None => None,
    }
}

/// A mime type that was given: trimmed, and none where nothing is left.
pub fn sanitize_mime_hint(mime_hint: Option<&String>) -> (r: Option<String>)
    ensures
        match r {
            Some(m) => given_mime(hint_view(mime_hint)) == Some(m@),
            None => given_mime(hint_view(mime_hint)) is None,
        },
{
    match mime_hint {
        Some(h) => {
            let t = trim(h);
            if t.as_str().is_empty() {
                None
            } else {
                Some(t)
            }
        },
        None => None,
    }
}

/// The mime type of a medium: what was given, which what its bytes show may not
/// contradict; else what its bytes show; else what its extension says.
pub open spec fn chosen_mime(
    hint: Option<Seq<char>>,
    detected: Option<Seq<char>>,
    ext: Option<Seq<char>>,
) -> Result<Seq<char>, Seq<char>> {
    let ext_mime = match ext {
        Some(e) => mime_of_extension(e),
        None => None,
    };
    match (given_mime(hint), detected, ext_mime) {
        (Some(h), Some(d), _) => if h == d {
            Ok(h)
        } else {
            Err("explicit mime_type '"@ + h + "' does not match detected mime '"@ + d + "'"@)
        },
        (Some(h), None, _) => Ok(h),
        (None, Some(d), _) => Ok(d),
        (None, None, Some(m)) => Ok(m),
        (None, None, None) => Err(
            "unable to determine mime type; provide mime explicitly or use a recognized file type"@,
        ),
    }
}

/// Whether a result is the text, or the refusal with the message, that a spec gives.
pub open spec fn yields_text(r: Result<String, NanoError>, m: Result<Seq<char>, Seq<char>>) -> bool {
    match r {
        Ok(s) => m == Ok::<Seq<char>, Seq<char>>(s@),
        Err(NanoError::Storage(e)) => m == Err::<Seq<char>, Seq<char>>(e@),
        Err(_) => false,
    }
}

/// The view of an optional string literal.
pub open spec fn str_view(o: Option<&'static str>) -> Option<Seq<char>> {
    match o {
        Some(s) => Some(s@),
        None => None,
    }
}

/// The mime type of a medium.
pub fn choose_mime_type(
    mime_hint: Option<&String>,
    detected: Option<&'static str>,
    ext: Option<&String>,
) -> (r: Result<String, NanoError>)
    ensures
        yields_text(r, chosen_mime(hint_view(mime_hint), str_view(detected), hint_view(ext))),
{
    let hint = sanitize_mime_hint(mime_hint);
    match hint {
        Some(h) => {
            if let Some(d) = detected {
                if !same(&h, d) {
                    return Err(
                        NanoError::Storage(
                            cat5(
                                "explicit mime_type '",
                                &h,
                                "' does not match detected mime '",
                                d,
                                "'",
                            ),
                        ),
                    );
                }
            }
            Ok(h)
        },
        None => {
            if let Some(d) = detected {
                return Ok(d.to_owned());
            }
            let ext_mime = match ext {
                Some(e) => extension_to_mime(e),
                None => None,
            };
            match ext_mime {
                Some(m) => Ok(m.to_owned()),
                None => Err(
                    NanoError::Storage(
                        "unable to determine mime type; provide mime explicitly or use a recognized file type".to_owned(),
                    ),
                ),
            }
        },
    }
}

/// The extension that a mime type gives a file says that mime type again.
pub proof fn law_extension_says_its_mime(mime: Seq<char>)
    ensures
        extension_of_mime(mime) matches Some(ext) ==> mime_of_extension(ext) == Some(mime),
{
    reveal_strlit("png");
    reveal_strlit("jpg");
    reveal_strlit("jpeg");
    reveal_strlit("gif");
    reveal_strlit("webp");
    reveal_strlit("pdf");
    reveal_strlit("mp3");
    reveal_strlit("wav");
    reveal_strlit("mp4");
    reveal_strlit("m4v");
    reveal_strlit("mov");
    assert(lowered("png"@) =~= "png"@);
    assert(lowered("jpg"@) =~= "jpg"@);
    assert(lowered("gif"@) =~= "gif"@);
    assert(lowered("webp"@) =~= "webp"@);
    assert(lowered("pdf"@) =~= "pdf"@);
    assert(lowered("mp3"@) =~= "mp3"@);
    assert(lowered("wav"@) =~= "wav"@);
    assert(lowered("mp4"@) =~= "mp4"@);
    assert(lowered("mov"@) =~= "mov"@);
    if let Some(ext) = extension_of_mime(mime) {
        assert("jpg"@[0] == 'j');
        assert("png"@[0] == 'p' && "png"@[1] == 'n');
        assert("gif"@[0] == 'g');
        assert("webp"@.len() == 4 && "webp"@[1] == 'e');
        assert("jpeg"@.len() == 4 && "jpeg"@[0] == 'j');
        assert("pdf"@[1] == 'd');
        assert("mp3"@[2] == '3');
        assert("mp4"@[2] == '4');
        assert("m4v"@[1] == '4');
        assert("wav"@[1] == 'a');
        assert("mov"@[1] == 'o');
    }
}

// ---------------------------------------------------------------------------
// Resolving a value

/// A medium with its type.
#[derive(Debug)]
pub struct ResolvedMediaValue {
    pub uri: String,
    pub mime_type: String,
}

/// What resolves a media value.
#[derive(Debug)]
pub enum MediaStep {
    /// This file is read, and its bytes are imported.
    ReadSource { path: String },
    /// This file, which the URI names, is read for its type.
    ReadUri { uri: String, file: LocalPath },
    /// These bytes are imported.
    Import { bytes: Vec<u8>, mime_type: String },
    /// Nothing more is needed.
    Done(ResolvedMediaValue),
}

pub enum MediaStepModel {
    ReadSource { path: Seq<char> },
    ReadUri { uri: Seq<char>, file: LocalPathModel },
    Import { bytes: Seq<u8>, mime_type: Seq<char> },
    Done { uri: Seq<char>, mime_type: Seq<char> },
}

impl View for MediaStep {
    type V = MediaStepModel;

    open spec fn view(&self) -> MediaStepModel {
        match *self {
            MediaStep::ReadSource { path } => MediaStepModel::ReadSource { path: path@ },
            MediaStep::ReadUri { uri, file } => MediaStepModel::ReadUri { uri: uri@, file: file@ },
            MediaStep::Import { bytes, mime_type } => MediaStepModel::Import {
                bytes: bytes@,
                mime_type: mime_type@,
            },
            MediaStep::Done(v) => MediaStepModel::Done { uri: v.uri@, mime_type: v.mime_type@ },
        }
    }
}

/// The path of a source file: a relative one is looked for beside the data it comes with.
pub open spec fn source_path(base: Option<Seq<char>>, raw: Seq<char>) -> Result<
    Seq<char>,
    Seq<char>,
> {
    if is_absolute(raw) {
        Ok(raw)
    } else {
        match base {
            None => Err(
                "relative @file: path '"@ + raw + "' requires a source file location"@,
            ),
            Some(b) => Ok(joined(b, raw)),
        }
    }
}

/// The path of a source file.
pub fn resolve_source_file_path(source_base: Option<&String>, raw_path: &str) -> (r: Result<
    String,
    NanoError,
>)
    ensures
        yields_text(r, source_path(hint_view(source_base), raw_path@)),
{
    if path_is_absolute(raw_path) {
        return Ok(raw_path.to_owned());
    }
    match source_base {
        None => Err(
            NanoError::Storage(
                cat3("relative @file: path '", raw_path, "' requires a source file location"),
            ),
        ),
        Some(base) => Ok(path_join(base, raw_path)),
    }
}

/// What tells the type of a medium outside the store.
pub enum UriMime {
    Known(Seq<char>),
    InFile(LocalPathModel),
    Refused(Seq<char>),
}

/// What tells the type of a medium that a URI names: a type that was given; for a file URI
/// the file, whose path is `file_path`; else the extension of the URI's path.
pub open spec fn uri_mime(
    uri: Seq<char>,
    hint: Option<Seq<char>>,
    file_path: Option<LocalPathModel>,
) -> UriMime {
    let unknown = UriMime::Refused(
        "explicit mime_type is required for non-file external media URIs without a recognized extension"@,
    );
    match given_mime(hint) {
        Some(h) => UriMime::Known(h),
        None => match url_parsed(uri) {
            None => unknown,
            Some((scheme, path)) => if scheme == "file"@ {
                match file_path {
                    Some(p) => UriMime::InFile(p),
                    None => UriMime::Refused("invalid file URI '"@ + uri + "'"@),
                }
            } else {
                match extension_of(path) {
                    None => unknown,
                    Some(ext) => match chosen_mime(None, None, Some(ext)) {
                        Ok(m) => UriMime::Known(m),
                        Err(m) => UriMime::Refused(m),
                    },
                }
            },
        },
    }
}

/// The message of a URI whose type cannot be told.
pub open spec fn uri_refusal(
    label: Seq<char>,
    prop: Seq<char>,
    uri: Seq<char>,
    cause: Seq<char>,
) -> Seq<char> {
    "failed to determine mime type for "@ + label + "."@ + prop + " from URI "@ + uri + ": "@
        + error_text(ErrorModel::Storage(cause))
}

/// What resolves a media value, or the message that refuses it. `file_path` is the local
/// path of a value that is a file URI.
pub open spec fn media_outcome(
    source_base: Option<Seq<char>>,
    label: Seq<char>,
    prop: Seq<char>,
    raw: Seq<char>,
    hint: Option<Seq<char>>,
    file_path: Option<LocalPathModel>,
) -> Result<MediaStepModel, Seq<char>> {
    if let Some(path) = after_prefix(raw, "@file:"@) {
        match source_path(source_base, path) {
            Ok(p) => Ok(MediaStepModel::ReadSource { path: p }),
            Err(m) => Err(m),
        }
    } else if let Some(data) = after_prefix(raw, "@base64:"@) {
        match base64_decoded(data) {
            Err(e) => Err(
                "failed to decode base64 media for "@ + label + "."@ + prop + ": "@ + e,
            ),
            Ok(bytes) => match chosen_mime(hint, mime_of_bytes(bytes), None) {
                Ok(mime_type) => Ok(MediaStepModel::Import { bytes, mime_type }),
                Err(m) => Err(m),
            },
        }
    } else if let Some(rest) = after_prefix(raw, "@uri:"@) {
        let uri = trimmed(rest);
        if uri.len() == 0 {
            Err("media URI for "@ + label + "."@ + prop + " cannot be empty"@)
        } else {
            match uri_mime(uri, hint, file_path) {
                UriMime::Known(mime_type) => Ok(MediaStepModel::Done { uri, mime_type }),
                UriMime::InFile(file) => Ok(MediaStepModel::ReadUri { uri, file }),
                UriMime::Refused(m) => Err(uri_refusal(label, prop, uri, m)),
            }
        }
    } else {
        Err(
            "media property "@ + label + "."@ + prop + " must use @file:, @base64:, or @uri:"@,
        )
    }
}

/// Whether a step is the one, or the refusal the one, that a spec gives.
pub open spec fn yields_step(
    r: Result<MediaStep, NanoError>,
    m: Result<MediaStepModel, Seq<char>>,
) -> bool {
    match r {
        Ok(s) => m == Ok::<MediaStepModel, Seq<char>>(s@),
        Err(NanoError::Storage(e)) => m == Err::<MediaStepModel, Seq<char>>(e@),
        Err(_) => false,
    }
}

fn refuse_uri(label: &str, prop: &str, uri: &str, cause: String) -> (r: NanoError)
    ensures
        r@ == ErrorModel::Storage(uri_refusal(label@, prop@, uri@, cause@)),
{
    let mut m = cat4("failed to determine mime type for ", label, ".", prop);
    m.append(" from URI ");
    m.append(uri);
    m.append(": ");
    let inner = NanoError::Storage(cause);
    m.append(&inner.to_string());
    NanoError::Storage(m)
}

fn refuse_choice(e: NanoError) -> (r: String)
    ensures
        e matches NanoError::Storage(m) ==> r@ == m@,
{
    match e {
        NanoError::Storage(m) => m,
        other => other.to_string(),
    }
}

fn resolve_uri(label: &str, prop: &str, uri: String, hint: Option<&String>, file_path: Option<
    LocalPath,
>) -> (r: Result<MediaStep, NanoError>)
    ensures
        yields_step(
            r,
            match uri_mime(uri@, hint_view(hint), local_view(file_path)) {
                UriMime::Known(mime_type) => Ok(MediaStepModel::Done { uri: uri@, mime_type }),
                UriMime::InFile(file) => Ok(MediaStepModel::ReadUri { uri: uri@, file }),
                UriMime::Refused(m) => Err(uri_refusal(label@, prop@, uri@, m)),
            },
        ),
{
    if let Some(mime_type) = sanitize_mime_hint(hint) {
        return Ok(MediaStep::Done(ResolvedMediaValue { uri, mime_type }));
    }
    if let Some((scheme, path)) = parse_url(&uri) {
        if same(&scheme, "file") {
            return match file_path {
                Some(file) => Ok(MediaStep::ReadUri { uri, file }),
                None => {
                    let cause = cat3("invalid file URI '", &uri, "'");
                    Err(refuse_uri(label, prop, &uri, cause))
                },
            };
        }
        if let Some(ext) = path_extension(&path) {
            return match choose_mime_type(None, None, Some(&ext)) {
                Ok(mime_type) => Ok(MediaStep::Done(ResolvedMediaValue { uri, mime_type })),
                Err(e) => Err(refuse_uri(label, prop, &uri, refuse_choice(e))),
            };
        }
    }
    let cause =
        "explicit mime_type is required for non-file external media URIs without a recognized extension".to_owned();
    Err(refuse_uri(label, prop, &uri, cause))
}

/// What resolves a media value; `file_path` is the local path of a value that is a file URI.
pub fn resolve_media_value_at(
    source_base: Option<&String>,
    label: &str,
    prop: &str,
    raw_value: &str,
    mime_hint: Option<&String>,
    file_path: Option<LocalPath>,
) -> (r: Result<MediaStep, NanoError>)
    ensures
        yields_step(
            r,
            media_outcome(
                hint_view(source_base),
                label@,
                prop@,
                raw_value@,
                hint_view(mime_hint),
                local_view(file_path),
            ),
        ),
{
    if let Some(path) = strip_prefix(raw_value, "@file:") {
        return match resolve_source_file_path(source_base, &path) {
            Ok(path) => Ok(MediaStep::ReadSource { path }),
            Err(e) => Err(e),
        };
    }
    if let Some(data) = strip_prefix(raw_value, "@base64:") {
        let bytes = match decode_base64(&data) {
            Ok(bytes) => bytes,
            Err(e) => {
                let mut m = cat4("failed to decode base64 media for ", label, ".", prop);
                m.append(": ");
                m.append(&e);
                return Err(NanoError::Storage(m));
            },
        };
        return match choose_mime_type(mime_hint, detect_mime_from_bytes(&bytes), None) {
            Ok(mime_type) => Ok(MediaStep::Import { bytes, mime_type }),
            Err(e) => Err(e),
        };
    }
    if let Some(rest) = strip_prefix(raw_value, "@uri:") {
        let uri = trim(&rest);
        if uri.as_str().is_empty() {
            return Err(
                NanoError::Storage(cat5("media URI for ", label, ".", prop, " cannot be empty")),
            );
        }
        return resolve_uri(label, prop, uri, mime_hint, file_path);
    }
    Err(
        NanoError::Storage(
            cat5(
                "media property ",
                label,
                ".",
                prop,
                " must use @file:, @base64:, or @uri:",
            ),
        ),
    )
}

/// The URI of a media value that is one; of others nothing.
pub open spec fn media_uri_of(raw: Seq<char>) -> Seq<char> {
    match after_prefix(raw, "@uri:"@) {
        Some(rest) => trimmed(rest),
        None => Seq::empty(),
    }
}

/// What resolves a media value. The local path of a file URI is the machine's to say, but for
/// how it ends.
pub fn resolve_media_value(
    source_base: Option<&String>,
    label: &str,
    prop: &str,
    raw_value: &str,
    mime_hint: Option<&String>,
) -> (r: Result<MediaStep, NanoError>)
    ensures
        exists|file_path: Option<LocalPathModel>|
            may_name(media_uri_of(raw_value@), file_path) && yields_step(
                r,
                #[trigger] media_outcome(
                    hint_view(source_base),
                    label@,
                    prop@,
                    raw_value@,
                    hint_view(mime_hint),
                    file_path,
                ),
            ),
        after_prefix(raw_value@, "@uri:"@) is None ==> yields_step(
            r,
            media_outcome(
                hint_view(source_base),
                label@,
                prop@,
                raw_value@,
                hint_view(mime_hint),
                None,
            ),
        ),
{
    let file_path = match strip_prefix(raw_value, "@uri:") {
        Some(rest) => {
            let uri = trim(&rest);
            url_to_file_path(&uri)
        },
        None => None,
    };
    resolve_media_value_at(source_base, label, prop, raw_value, mime_hint, file_path)
}

/// What reading a file gave, as a mathematical value.
pub open spec fn read_view(read: Result<Vec<u8>, String>) -> Result<Seq<u8>, Seq<char>> {
    match read {
        Ok(bytes) => Ok(bytes@),
        Err(m) => Err(m@),
    }
}

/// What follows once a source file is read, or the reason why it was not.
pub open spec fn after_source(
    label: Seq<char>,
    prop: Seq<char>,
    path: Seq<char>,
    read: Result<Seq<u8>, Seq<char>>,
    hint: Option<Seq<char>>,
) -> Result<MediaStepModel, Seq<char>> {
    match read {
        Ok(bytes) => match chosen_mime(hint, mime_of_bytes(bytes), extension_of(path)) {
            Ok(mime_type) => Ok(MediaStepModel::Import { bytes, mime_type }),
            Err(m) => Err(m),
        },
        Err(m) => Err(
            "failed to read media source "@ + label + "."@ + prop + " from "@ + path + ": "@ + m,
        ),
    }
}

/// What follows once a source file is read.
pub fn source_file_read(
    label: &str,
    prop: &str,
    path: &str,
    read: Result<Vec<u8>, String>,
    mime_hint: Option<&String>,
) -> (r: Result<MediaStep, NanoError>)
    ensures
        yields_step(
            r,
            after_source(label@, prop@, path@, read_view(read), hint_view(mime_hint)),
        ),
{
    let bytes = match read {
        Ok(bytes) => bytes,
        Err(m) => {
            let mut message = cat7(
                "failed to read media source ",
                label,
                ".",
                prop,
                " from ",
                path,
                ": ",
            );
            message.append(&m);
            return Err(NanoError::Storage(message));
        },
    };
    let ext = path_extension(path);
    match choose_mime_type(mime_hint, detect_mime_from_bytes(&bytes), ext.as_ref()) {
        Ok(mime_type) => Ok(MediaStep::Import { bytes, mime_type }),
        Err(e) => Err(e),
    }
}

/// What follows once the file that a URI names is read, or the reason why it was not.
pub open spec fn after_uri(
    label: Seq<char>,
    prop: Seq<char>,
    uri: Seq<char>,
    path: Seq<char>,
    read: Result<Seq<u8>, Seq<char>>,
) -> Result<MediaStepModel, Seq<char>> {
    match read {
        Ok(bytes) => match chosen_mime(None, mime_of_bytes(bytes), extension_of(path)) {
            Ok(mime_type) => Ok(MediaStepModel::Done { uri, mime_type }),
            Err(m) => Err(uri_refusal(label, prop, uri, m)),
        },
        Err(m) => Err(uri_refusal(label, prop, uri, "failed to read "@ + path + ": "@ + m)),
    }
}

/// What follows once the file that a URI names is read.
pub fn uri_file_read(
    label: &str,
    prop: &str,
    uri: String,
    path: &str,
    read: Result<Vec<u8>, String>,
) -> (r: Result<MediaStep, NanoError>)
    ensures
        yields_step(r, after_uri(label@, prop@, uri@, path@, read_view(read))),
{
    let bytes = match read {
        Ok(bytes) => bytes,
        Err(m) => {
            return Err(refuse_uri(label, prop, &uri, cat4("failed to read ", path, ": ", &m)));
        },
    };
    let ext = path_extension(path);
    match choose_mime_type(None, detect_mime_from_bytes(&bytes), ext.as_ref()) {
        Ok(mime_type) => Ok(MediaStep::Done(ResolvedMediaValue { uri, mime_type })),
        Err(e) => Err(refuse_uri(label, prop, &uri, refuse_choice(e))),
    }
}

// ---------------------------------------------------------------------------
// Where imported media go

/// The directory of imported media: a configured one, which a relative path puts beside
/// the database, else `media` beside the database.
pub open spec fn media_root(db_path: Seq<char>, configured: Option<Seq<char>>) -> Seq<char> {
    let beside = match parent_of(db_path) {
        Some(p) => p,
        None => db_path,
    };
    match configured {
        Some(root) => joined(beside, root),
        None => joined(beside, "media"@),
    }
}

/// The directory of imported media.
pub fn configured_media_root(db_path: &str, configured: Option<&String>) -> (r: String)
    ensures
        r@ == media_root(db_path@, hint_view(configured)),
{
    let beside = match path_parent(db_path) {
        Some(p) => p,
        None => db_path.to_owned(),
    };
    match configured {
        Some(root) => path_join(&beside, root),
        None => path_join(&beside, "media"),
    }
}

/// The directory of the imported media of a type.
pub open spec fn media_dir(root: Seq<char>, label: Seq<char>) -> Seq<char> {
    joined(root, lowered(label))
}

/// The name under which bytes are imported: their digest, with the extension of their type.
pub open spec fn media_file_name(bytes: Seq<u8>, mime_type: Seq<char>) -> Seq<char> {
    hex_of(sha256(bytes)) + "."@ + match extension_of_mime(mime_type) {
        Some(ext) => ext,
        None => "bin"@,
    }
}

/// The directory of the imported media of a type.
pub fn media_directory(root: &str, label: &str) -> (r: String)
    ensures
        r@ == media_dir(root@, label@),
{
    path_join(root, &ascii_lowercase(label))
}

/// The path to which bytes are imported.
pub fn media_destination(root: &str, label: &str, bytes: &Vec<u8>, mime_type: &str) -> (r: String)
    ensures
        r@ == joined(media_dir(root@, label@), media_file_name(bytes@, mime_type@)),
{
    let hash = digest_sha256(bytes);
    let ext = match mime_to_extension(mime_type) {
        Some(ext) => ext,
        None => "bin",
    };
    let name = cat3(&hex_lower(&hash), ".", ext);
    path_join(&media_directory(root, label), &name)
}

/// What a property holds of media that were imported to a file, by the URL of that file.
pub fn imported_media_at(canonical: &str, mime_type: String, url: Option<String>) -> (r: Result<
    ResolvedMediaValue,
    NanoError,
>)
    ensures
        match r {
            Ok(v) => url matches Some(u) && v.uri@ == u@ && v.mime_type@ == mime_type@,
            Err(e) => url is None && e@ == ErrorModel::Storage(
                "failed to build file URI for imported media "@ + canonical@,
            ),
        },
{
    match url {
        Some(uri) => Ok(ResolvedMediaValue { uri, mime_type }),
        None => Err(
            NanoError::Storage(cat2("failed to build file URI for imported media ", canonical)),
        ),
    }
}

/// What a property holds of media that were imported to a file: a `file://` URI that ends as
/// the path of that file does, and the media type.
pub fn imported_media(canonical: &str, mime_type: String) -> (r: Result<
    ResolvedMediaValue,
    NanoError,
>)
    ensures
        match r {
            Ok(v) => has_prefix(v.uri@, "file://"@) && has_suffix(v.uri@, kept_name(canonical@))
                && v.mime_type@ == mime_type@,
            Err(e) => e@ == ErrorModel::Storage(
                "failed to build file URI for imported media "@ + canonical@,
            ),
        },
{
    let url = file_path_to_url(canonical);
    imported_media_at(canonical, mime_type, url)
}

} // verus!
