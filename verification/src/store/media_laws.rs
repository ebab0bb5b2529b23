//! What holds of media values: where they are read, what type they have, where they go.

use crate::path::{extension_of, parent_of};
use crate::store::media::{after_source, after_uri, base64_decoded, chosen_mime, extension_of_mime, hex_of, media_dir, media_file_name, media_outcome, media_root, mime_of_bytes, mime_of_extension, sha256, MediaStepModel};
use crate::store::uri::{url_parsed, LocalPathModel};
use crate::strings::{after_prefix, has_prefix, has_suffix, lowered, trimmed};
use vstd::prelude::*;

verus! {

// ---------------------------------------------------------------------------
// Types

/// The extensions of images, documents, sounds and films have their types, in whatever case
/// they are written, and no other extension has one.
pub proof fn law_extensions_have_their_type(ext: Seq<char>)
    ensures
        mime_of_extension(ext) == Some("image/png"@) <==> lowered(ext) == "png"@,
        mime_of_extension(ext) == Some("image/jpeg"@) <==> lowered(ext) == "jpg"@ || lowered(ext)
            == "jpeg"@,
        mime_of_extension(ext) == Some("image/gif"@) <==> lowered(ext) == "gif"@,
        mime_of_extension(ext) == Some("image/webp"@) <==> lowered(ext) == "webp"@,
        mime_of_extension(ext) == Some("application/pdf"@) <==> lowered(ext) == "pdf"@,
        mime_of_extension(ext) == Some("audio/mpeg"@) <==> lowered(ext) == "mp3"@,
        mime_of_extension(ext) == Some("audio/wav"@) <==> lowered(ext) == "wav"@,
        mime_of_extension(ext) == Some("video/mp4"@) <==> lowered(ext) == "mp4"@ || lowered(ext)
            == "m4v"@,
        mime_of_extension(ext) == Some("video/quicktime"@) <==> lowered(ext) == "mov"@,
        forall|other: Seq<char>|
            lowered(ext) == #[trigger] lowered(other) ==> mime_of_extension(ext)
                == mime_of_extension(other),
{
    lemma_types_differ();
    lemma_extensions_differ();
}

/// The names of the media types are different texts.
proof fn lemma_types_differ()
    ensures
        "image/png"@.len() == 9,
        "image/png"@[6] == 'p',
        "image/jpeg"@.len() == 10,
        "image/jpeg"@[6] == 'j',
        "image/gif"@.len() == 9,
        "image/gif"@[6] == 'g',
        "image/webp"@.len() == 10,
        "image/webp"@[6] == 'w',
        "application/pdf"@.len() == 15,
        "application/pdf"@[1] == 'p',
        "audio/mpeg"@.len() == 10,
        "audio/mpeg"@[0] == 'a',
        "audio/mpeg"@[6] == 'm',
        "audio/wav"@.len() == 9,
        "audio/wav"@[6] == 'w',
        "video/mp4"@.len() == 9,
        "video/mp4"@[6] == 'm',
        "video/quicktime"@.len() == 15,
        "video/quicktime"@[1] == 'i',
{
    reveal_strlit("image/png");
    reveal_strlit("image/jpeg");
    reveal_strlit("image/gif");
    reveal_strlit("image/webp");
    reveal_strlit("application/pdf");
    reveal_strlit("audio/mpeg");
    reveal_strlit("audio/wav");
    reveal_strlit("video/mp4");
    reveal_strlit("video/quicktime");
}

/// The extensions are different texts.
proof fn lemma_extensions_differ()
    ensures
        "png"@.len() == 3 && "png"@[0] == 'p' && "png"@[1] == 'n',
        "jpg"@.len() == 3 && "jpg"@[0] == 'j',
        "jpeg"@.len() == 4 && "jpeg"@[0] == 'j',
        "gif"@.len() == 3 && "gif"@[0] == 'g',
        "webp"@.len() == 4 && "webp"@[0] == 'w',
        "pdf"@.len() == 3 && "pdf"@[0] == 'p' && "pdf"@[1] == 'd',
        "mp3"@.len() == 3 && "mp3"@[0] == 'm' && "mp3"@[1] == 'p' && "mp3"@[2] == '3',
        "wav"@.len() == 3 && "wav"@[0] == 'w',
        "mp4"@.len() == 3 && "mp4"@[0] == 'm' && "mp4"@[1] == 'p' && "mp4"@[2] == '4',
        "m4v"@.len() == 3 && "m4v"@[0] == 'm' && "m4v"@[1] == '4',
        "mov"@.len() == 3 && "mov"@[0] == 'm' && "mov"@[1] == 'o',
{
    reveal_strlit("png");
    reveal_strlit("jpg");
    reveal_strlit("jpeg");
    reveal_strlit("gif");
    reveal_strlit("webp");
    reveal_strlit("pdf");
    reveal_strlit("mp3");
    reveal_strlit("wav");
    reveal_strlit("mp4");
    reveal_strlit("m4v");
    reveal_strlit("mov");
}

/// Whether the characters `w` stand in the bytes at position `i`, one byte each.
pub open spec fn letters_at(b: Seq<u8>, i: int, w: Seq<char>) -> bool {
    i + w.len() <= b.len() && forall|k: int|
        0 <= k < w.len() ==> #[trigger] b[i + k] == w[k] as u8
}

proof fn lemma_letters(b: Seq<u8>, i: int, w: Seq<char>, raw: Seq<u8>)
    requires
        0 <= i,
        raw.len() == w.len(),
        forall|k: int| 0 <= k < w.len() ==> raw[k] == #[trigger] w[k] as u8,
    ensures
        letters_at(b, i, w) <==> i + raw.len() <= b.len() && b.subrange(i, i + raw.len() as int)
            == raw,
{
    if i + w.len() <= b.len() {
        let sub = b.subrange(i, i + raw.len() as int);
        if letters_at(b, i, w) {
            assert forall|k: int| 0 <= k < raw.len() implies sub[k] == raw[k] by {
                assert(b[i + k] == w[k] as u8);
            }
            assert(sub =~= raw);
        } else if sub == raw {
            assert forall|k: int| 0 <= k < w.len() implies #[trigger] b[i + k] == w[k] as u8 by {
                assert(sub[k] == raw[k]);
                assert(raw[k] == w[k] as u8);
            }
        }
    }
}

/// The bytes of a file show its type by the signature that they start with. Bytes that
/// start with none of them show no type.
pub proof fn law_signatures_show_their_type(b: Seq<u8>)
    ensures
        b.len() >= 1 && b[0] == 0x89 && letters_at(b, 1, seq!['P', 'N', 'G', '\r', '\n']) && b.len()
            >= 8 && b[6] == 0x1a && b[7] == 0x0a <==> mime_of_bytes(b) == Some("image/png"@),
        b.len() >= 3 && b[0] == 0xff && b[1] == 0xd8 && b[2] == 0xff <==> mime_of_bytes(b) == Some(
            "image/jpeg"@,
        ),
        letters_at(b, 0, seq!['G', 'I', 'F', '8', '7', 'a']) || letters_at(
            b,
            0,
            seq!['G', 'I', 'F', '8', '9', 'a'],
        ) <==> mime_of_bytes(b) == Some("image/gif"@),
        letters_at(b, 0, seq!['R', 'I', 'F', 'F']) && letters_at(b, 8, seq!['W', 'E', 'B', 'P'])
            <==> mime_of_bytes(b) == Some("image/webp"@),
        letters_at(b, 0, seq!['%', 'P', 'D', 'F', '-']) <==> mime_of_bytes(b) == Some(
            "application/pdf"@,
        ),
        letters_at(b, 0, seq!['R', 'I', 'F', 'F']) && letters_at(b, 8, seq!['W', 'A', 'V', 'E'])
            <==> mime_of_bytes(b) == Some("audio/wav"@),
        letters_at(b, 0, seq!['I', 'D', '3']) ==> mime_of_bytes(b) == Some("audio/mpeg"@),
        b.len() >= 2 && b[0] == 0xff && b[1] >= 0xe0 ==> mime_of_bytes(b) == Some("audio/mpeg"@),
        mime_of_bytes(b) == Some("audio/mpeg"@) ==> letters_at(b, 0, seq!['I', 'D', '3']) || (
        b.len() >= 2 && b[0] == 0xff && b[1] >= 0xe0),
        mime_of_bytes(b) == Some("video/mp4"@) ==> b.len() >= 12 && letters_at(
            b,
            4,
            seq!['f', 't', 'y', 'p'],
        ),
        b.len() >= 12 && letters_at(b, 4, seq!['f', 't', 'y', 'p']) ==> mime_of_bytes(b) is Some,
        b.len() >= 12 && letters_at(b, 4, seq!['f', 't', 'y', 'p']) && b[0] == 0 ==> mime_of_bytes(
            b,
        ) == Some("video/mp4"@),
        mime_of_bytes(b) != Some("video/quicktime"@),
{
    lemma_types_differ();
    lemma_letters(b, 1, seq!['P', 'N', 'G', '\r', '\n'], seq![0x50u8, 0x4e, 0x47, 0x0d, 0x0a]);
    lemma_letters(
        b,
        0,
        seq!['G', 'I', 'F', '8', '7', 'a'],
        seq![0x47u8, 0x49, 0x46, 0x38, 0x37, 0x61],
    );
    lemma_letters(
        b,
        0,
        seq!['G', 'I', 'F', '8', '9', 'a'],
        seq![0x47u8, 0x49, 0x46, 0x38, 0x39, 0x61],
    );
    lemma_letters(b, 0, seq!['R', 'I', 'F', 'F'], seq![0x52u8, 0x49, 0x46, 0x46]);
    lemma_letters(b, 8, seq!['W', 'E', 'B', 'P'], seq![0x57u8, 0x45, 0x42, 0x50]);
    lemma_letters(b, 8, seq!['W', 'A', 'V', 'E'], seq![0x57u8, 0x41, 0x56, 0x45]);
    lemma_letters(b, 0, seq!['%', 'P', 'D', 'F', '-'], seq![0x25u8, 0x50, 0x44, 0x46, 0x2d]);
    lemma_letters(b, 0, seq!['I', 'D', '3'], seq![0x49u8, 0x44, 0x33]);
    lemma_letters(b, 4, seq!['f', 't', 'y', 'p'], seq![0x66u8, 0x74, 0x79, 0x70]);
    lemma_first_bytes(b);
}

/// What the first bytes say of which signature can stand there.
proof fn lemma_first_bytes(b: Seq<u8>)
    ensures
        ({
            let png = seq![0x89u8, 0x50, 0x4e, 0x47, 0x0d, 0x0a, 0x1a, 0x0a];
            let sign = seq![0x50u8, 0x4e, 0x47, 0x0d, 0x0a];
            8 <= b.len() && b.subrange(0, 8) == png <==> b.len() >= 8 && b[0] == 0x89 && b.subrange(
                1,
                6,
            ) == sign && b[6] == 0x1a && b[7] == 0x0a
        }),
        3 <= b.len() && b.subrange(0, 3) == seq![0xffu8, 0xd8, 0xff] <==> b.len() >= 3 && b[0]
            == 0xff && b[1] == 0xd8 && b[2] == 0xff,
        6 <= b.len() && (b.subrange(0, 6) == seq![0x47u8, 0x49, 0x46, 0x38, 0x37, 0x61]
            || b.subrange(0, 6) == seq![0x47u8, 0x49, 0x46, 0x38, 0x39, 0x61]) ==> b[0] == 0x47,
        4 <= b.len() && b.subrange(0, 4) == seq![0x52u8, 0x49, 0x46, 0x46] ==> b[0] == 0x52,
        12 <= b.len() && b.subrange(8, 12) == seq![0x57u8, 0x45, 0x42, 0x50] ==> b[9] == 0x45,
        12 <= b.len() && b.subrange(8, 12) == seq![0x57u8, 0x41, 0x56, 0x45] ==> b[9] == 0x41,
        5 <= b.len() && b.subrange(0, 5) == seq![0x25u8, 0x50, 0x44, 0x46, 0x2d] ==> b[0] == 0x25,
        3 <= b.len() && b.subrange(0, 3) == seq![0x49u8, 0x44, 0x33] ==> b[0] == 0x49,
{
    let png = seq![0x89u8, 0x50, 0x4e, 0x47, 0x0d, 0x0a, 0x1a, 0x0a];
    let sign = seq![0x50u8, 0x4e, 0x47, 0x0d, 0x0a];
    if b.len() >= 8 {
        let p = b.subrange(0, 8);
        if p == png {
            assert(p[0] == 0x89 && p[6] == 0x1a && p[7] == 0x0a);
            assert(b.subrange(1, 6) =~= p.subrange(1, 6));
            assert(p.subrange(1, 6) =~= sign);
        } else if b[0] == 0x89 && b.subrange(1, 6) == sign && b[6] == 0x1a && b[7] == 0x0a {
            let q = b.subrange(1, 6);
            assert(q[0] == b[1] && q[1] == b[2] && q[2] == b[3] && q[3] == b[4] && q[4] == b[5]);
            assert(p =~= png);
        }
    }
    if b.len() >= 3 {
        let p = b.subrange(0, 3);
        assert(p[0] == b[0] && p[1] == b[1] && p[2] == b[2]);
        if b[0] == 0xff && b[1] == 0xd8 && b[2] == 0xff {
            assert(p =~= seq![0xffu8, 0xd8, 0xff]);
        }
    }
    if b.len() >= 4 {
        assert(b.subrange(0, 4)[0] == b[0]);
    }
    if b.len() >= 5 {
        assert(b.subrange(0, 5)[0] == b[0]);
    }
    if b.len() >= 6 {
        assert(b.subrange(0, 6)[0] == b[0]);
    }
    if b.len() >= 12 {
        assert(b.subrange(8, 12)[1] == b[9]);
    }
}

/// What was said of the type of a medium is its type, unless its bytes show another, which
/// is refused. Where nothing was said, what the bytes show counts more than the extension,
/// and the extension alone decides where they show nothing.
pub proof fn law_types_are_chosen_in_order(
    hint: Option<Seq<char>>,
    detected: Option<Seq<char>>,
    ext: Option<Seq<char>>,
)
    ensures
        hint matches Some(h) ==> (trimmed(h).len() > 0 ==> {
            &&& chosen_mime(hint, detected, ext) is Ok <==> (detected matches Some(d) ==> d
                == trimmed(h))
            &&& chosen_mime(hint, detected, ext) matches Ok(m) ==> m == trimmed(h)
        }),
        (hint matches Some(h) ==> trimmed(h).len() == 0) && detected is Some ==> chosen_mime(
            hint,
            detected,
            ext,
        ) == Ok::<Seq<char>, Seq<char>>(detected->Some_0),
        (hint matches Some(h) ==> trimmed(h).len() == 0) && detected is None && ext is Some && (
        mime_of_extension(ext->Some_0) is Some) ==> chosen_mime(hint, detected, ext) == Ok::<
            Seq<char>,
            Seq<char>,
        >(mime_of_extension(ext->Some_0)->Some_0),
        (hint matches Some(h) ==> trimmed(h).len() == 0) && detected is None && (ext matches Some(e)
            ==> mime_of_extension(e) is None) ==> chosen_mime(hint, detected, ext) is Err,
{
}

// ---------------------------------------------------------------------------
// Values

/// A text is what stands behind a mark in front of it, and a mark that starts otherwise is
/// not found there.
proof fn lemma_marked(mark: Seq<char>, rest: Seq<char>, other: Seq<char>)
    requires
        mark.len() > 1,
        other.len() > 1,
    ensures
        after_prefix(mark + rest, mark) == Some(rest),
        mark[1] != other[1] ==> after_prefix(mark + rest, other) is None,
{
    assert((mark + rest).take(mark.len() as int) =~= mark);
    assert((mark + rest).skip(mark.len() as int) =~= rest);
    if mark[1] != other[1] && other.len() <= (mark + rest).len() {
        assert((mark + rest).take(other.len() as int)[1] == mark[1]);
    }
}

/// A value that names a file has that file read: an absolute path as it is, a relative one
/// below the directory of the data, and never without such a directory.
pub proof fn law_named_files_are_read(
    source_base: Option<Seq<char>>,
    label: Seq<char>,
    prop: Seq<char>,
    path: Seq<char>,
    hint: Option<Seq<char>>,
    file_path: Option<LocalPathModel>,
)
    ensures
        path.len() > 0 && path[0] == '/' ==> media_outcome(
            source_base,
            label,
            prop,
            "@file:"@ + path,
            hint,
            file_path,
        ) == Ok::<MediaStepModel, Seq<char>>(MediaStepModel::ReadSource { path }),
        (path.len() == 0 || path[0] != '/') && source_base is None ==> media_outcome(
            source_base,
            label,
            prop,
            "@file:"@ + path,
            hint,
            file_path,
        ) is Err,
        (path.len() == 0 || path[0] != '/') && (source_base matches Some(b) && b.len() > 0
            && b.last() != '/') ==> media_outcome(
            source_base,
            label,
            prop,
            "@file:"@ + path,
            hint,
            file_path,
        ) == Ok::<MediaStepModel, Seq<char>>(
            MediaStepModel::ReadSource { path: source_base->Some_0 + "/"@ + path },
        ),
{
    reveal_strlit("@file:");
    lemma_marked("@file:"@, path, "@file:"@);
}

/// A value that holds base64 text has exactly the bytes of that text imported, under the
/// type that was said or that they show; text that is no base64 is refused.
pub proof fn law_encoded_bytes_are_imported(
    source_base: Option<Seq<char>>,
    label: Seq<char>,
    prop: Seq<char>,
    data: Seq<char>,
    hint: Option<Seq<char>>,
    file_path: Option<LocalPathModel>,
)
    ensures
        ({
            let r = media_outcome(source_base, label, prop, "@base64:"@ + data, hint, file_path);
            &&& base64_decoded(data) is Err ==> r is Err
            &&& r matches Ok(step) ==> step is Import && base64_decoded(data) == Ok::<
                Seq<u8>,
                Seq<char>,
            >(step->Import_bytes)
            &&& base64_decoded(data) matches Ok(bytes) ==> (mime_of_bytes(bytes) is Some && hint
                is None ==> r == Ok::<MediaStepModel, Seq<char>>(
                MediaStepModel::Import { bytes, mime_type: mime_of_bytes(bytes)->Some_0 },
            ))
            &&& base64_decoded(data) matches Ok(bytes) ==> (mime_of_bytes(bytes) is None && (
            hint matches Some(h) && trimmed(h).len() > 0) ==> r == Ok::<MediaStepModel, Seq<char>>(
                MediaStepModel::Import { bytes, mime_type: trimmed(hint->Some_0) },
            ))
        }),
{
    reveal_strlit("@file:");
    reveal_strlit("@base64:");
    lemma_marked("@base64:"@, data, "@file:"@);
}

/// A value that names a URI keeps it, without the white space round it: nothing is ever
/// imported for it. With a type that was said it needs nothing more, and without one it
/// needs its file if it has the scheme of files.
pub proof fn law_uris_are_kept(
    source_base: Option<Seq<char>>,
    label: Seq<char>,
    prop: Seq<char>,
    uri: Seq<char>,
    hint: Option<Seq<char>>,
    file_path: Option<LocalPathModel>,
)
    ensures
        ({
            let r = media_outcome(source_base, label, prop, "@uri:"@ + uri, hint, file_path);
            &&& trimmed(uri).len() == 0 ==> r is Err
            &&& r matches Ok(step) ==> (step is Done && step->Done_uri == trimmed(uri)) || (step
                is ReadUri && step->ReadUri_uri == trimmed(uri))
            &&& trimmed(uri).len() > 0 && (hint matches Some(h) && trimmed(h).len() > 0) ==> r
                == Ok::<MediaStepModel, Seq<char>>(
                MediaStepModel::Done { uri: trimmed(uri), mime_type: trimmed(hint->Some_0) },
            )
            &&& trimmed(uri).len() > 0 && hint is None && (url_parsed(trimmed(uri)) matches Some(u)
                && u.0 == "file"@) && file_path is Some ==> r == Ok::<MediaStepModel, Seq<char>>(
                MediaStepModel::ReadUri { uri: trimmed(uri), file: file_path->Some_0 },
            )
            &&& hint is None && (url_parsed(trimmed(uri)) matches Some(u) && u.0 == "file"@)
                && file_path is None ==> r is Err
            &&& trimmed(uri).len() > 0 && hint is None && (url_parsed(trimmed(uri)) matches Some(u)
                && u.0 != "file"@ && (extension_of(u.1) matches Some(e) && mime_of_extension(
                e,
            ) is Some)) ==> r == Ok::<MediaStepModel, Seq<char>>(
                MediaStepModel::Done {
                    uri: trimmed(uri),
                    mime_type: mime_of_extension(
                        extension_of(url_parsed(trimmed(uri))->Some_0.1)->Some_0,
                    )->Some_0,
                },
            )
        }),
{
    reveal_strlit("@file:");
    reveal_strlit("@base64:");
    reveal_strlit("@uri:");
    lemma_marked("@uri:"@, uri, "@file:"@);
    lemma_marked("@uri:"@, uri, "@base64:"@);
}

/// A value without one of the three marks is refused.
pub proof fn law_unmarked_media_are_refused(
    source_base: Option<Seq<char>>,
    label: Seq<char>,
    prop: Seq<char>,
    raw: Seq<char>,
    hint: Option<Seq<char>>,
    file_path: Option<LocalPathModel>,
)
    requires
        !has_prefix(raw, "@file:"@),
        !has_prefix(raw, "@base64:"@),
        !has_prefix(raw, "@uri:"@),
    ensures
        media_outcome(source_base, label, prop, raw, hint, file_path) is Err,
{
}

/// A source file that was read is imported with exactly its bytes; one that was not is
/// refused.
pub proof fn law_source_bytes_are_imported(
    label: Seq<char>,
    prop: Seq<char>,
    path: Seq<char>,
    read: Result<Seq<u8>, Seq<char>>,
    hint: Option<Seq<char>>,
)
    ensures
        read is Err ==> after_source(label, prop, path, read, hint) is Err,
        after_source(label, prop, path, read, hint) matches Ok(step) ==> step is Import && read
            == Ok::<Seq<u8>, Seq<char>>(step->Import_bytes),
        read is Ok && hint is None && mime_of_bytes(read->Ok_0) is Some ==> after_source(
            label,
            prop,
            path,
            read,
            hint,
        ) == Ok::<MediaStepModel, Seq<char>>(
            MediaStepModel::Import {
                bytes: read->Ok_0,
                mime_type: mime_of_bytes(read->Ok_0)->Some_0,
            },
        ),
        read is Ok && mime_of_bytes(read->Ok_0) is None && hint is None && (extension_of(
            path,
        ) matches Some(e) && mime_of_extension(e) is Some) ==> after_source(
            label,
            prop,
            path,
            read,
            hint,
        ) == Ok::<MediaStepModel, Seq<char>>(
            MediaStepModel::Import {
                bytes: read->Ok_0,
                mime_type: mime_of_extension(extension_of(path)->Some_0)->Some_0,
            },
        ),
{
}

/// The file behind a URI tells its type and is not imported: the URI stays.
pub proof fn law_files_of_uris_tell_their_type(
    label: Seq<char>,
    prop: Seq<char>,
    uri: Seq<char>,
    path: Seq<char>,
    read: Result<Seq<u8>, Seq<char>>,
)
    ensures
        read is Err ==> after_uri(label, prop, uri, path, read) is Err,
        after_uri(label, prop, uri, path, read) matches Ok(step) ==> step is Done && step->Done_uri
            == uri,
        read is Ok && mime_of_bytes(read->Ok_0) is Some ==> after_uri(
            label,
            prop,
            uri,
            path,
            read,
        ) == Ok::<MediaStepModel, Seq<char>>(
            MediaStepModel::Done { uri, mime_type: mime_of_bytes(read->Ok_0)->Some_0 },
        ),
        read is Ok && mime_of_bytes(read->Ok_0) is None && (extension_of(path) matches Some(
            e,
        ) && mime_of_extension(e) is Some) ==> after_uri(label, prop, uri, path, read) == Ok::<
            MediaStepModel,
            Seq<char>,
        >(
            MediaStepModel::Done {
                uri,
                mime_type: mime_of_extension(extension_of(path)->Some_0)->Some_0,
            },
        ),
{
}

// ---------------------------------------------------------------------------
// Places

/// The value of a lower case hexadecimal digit.
pub open spec fn hex_value(c: char) -> int {
    if '0' <= c <= '9' {
        (c as int) - ('0' as int)
    } else if 'a' <= c <= 'f' {
        (c as int) - ('a' as int) + 10
    } else {
        -1
    }
}

/// Each byte is told by two lower case digits: the first stands for its upper half.
pub proof fn law_hex_digits_tell_their_byte(bytes: Seq<u8>, i: int)
    requires
        0 <= i < bytes.len(),
    ensures
        hex_of(bytes).len() == 2 * bytes.len(),
        hex_value(hex_of(bytes)[2 * i]) >= 0,
        hex_value(hex_of(bytes)[2 * i + 1]) >= 0,
        hex_value(hex_of(bytes)[2 * i]) * 16 + hex_value(hex_of(bytes)[2 * i + 1]) == bytes[i],
{
    assert((2 * i) / 2 == i && (2 * i + 1) / 2 == i && (2 * i) % 2 == 0 && (2 * i + 1) % 2 == 1);
}

/// The name of an imported medium starts with the digest of its bytes, and ends with a
/// point and the extension that its type has, or `bin` where it has none.
pub proof fn law_media_are_named_by_digest_and_type(bytes: Seq<u8>, mime_type: Seq<char>)
    ensures
        has_prefix(media_file_name(bytes, mime_type), hex_of(sha256(bytes))),
        mime_type == "image/png"@ ==> has_suffix(media_file_name(bytes, mime_type), ".png"@),
        mime_type == "image/jpeg"@ ==> has_suffix(media_file_name(bytes, mime_type), ".jpg"@),
        mime_type == "image/gif"@ ==> has_suffix(media_file_name(bytes, mime_type), ".gif"@),
        mime_type == "image/webp"@ ==> has_suffix(media_file_name(bytes, mime_type), ".webp"@),
        mime_type == "application/pdf"@ ==> has_suffix(media_file_name(bytes, mime_type), ".pdf"@),
        mime_type == "audio/mpeg"@ ==> has_suffix(media_file_name(bytes, mime_type), ".mp3"@),
        mime_type == "audio/wav"@ ==> has_suffix(media_file_name(bytes, mime_type), ".wav"@),
        mime_type == "video/mp4"@ ==> has_suffix(media_file_name(bytes, mime_type), ".mp4"@),
        mime_type == "video/quicktime"@ ==> has_suffix(media_file_name(bytes, mime_type), ".mov"@),
        extension_of_mime(mime_type) is None ==> has_suffix(
            media_file_name(bytes, mime_type),
            ".bin"@,
        ),
        mime_type.len() < 9 ==> extension_of_mime(mime_type) is None,
{
    let hex = hex_of(sha256(bytes));
    let name = media_file_name(bytes, mime_type);
    assert(name.take(hex.len() as int) =~= hex);
    lemma_types_differ();
    reveal_strlit(".png");
    reveal_strlit(".jpg");
    reveal_strlit(".gif");
    reveal_strlit(".webp");
    reveal_strlit(".pdf");
    reveal_strlit(".mp3");
    reveal_strlit(".wav");
    reveal_strlit(".mp4");
    reveal_strlit(".mov");
    reveal_strlit(".bin");
    reveal_strlit("bin");
    reveal_strlit(".");
    reveal_strlit("png");
    reveal_strlit("jpg");
    reveal_strlit("gif");
    reveal_strlit("webp");
    reveal_strlit("pdf");
    reveal_strlit("mp3");
    reveal_strlit("wav");
    reveal_strlit("mp4");
    reveal_strlit("mov");
    assert("."@ + "png"@ =~= ".png"@);
    assert("."@ + "jpg"@ =~= ".jpg"@);
    assert("."@ + "gif"@ =~= ".gif"@);
    assert("."@ + "webp"@ =~= ".webp"@);
    assert("."@ + "pdf"@ =~= ".pdf"@);
    assert("."@ + "mp3"@ =~= ".mp3"@);
    assert("."@ + "wav"@ =~= ".wav"@);
    assert("."@ + "mp4"@ =~= ".mp4"@);
    assert("."@ + "mov"@ =~= ".mov"@);
    assert("."@ + "bin"@ =~= ".bin"@);
    let ext = match extension_of_mime(mime_type) {
        Some(ext) => ext,
        None => "bin"@,
    };
    assert(name =~= hex + ("."@ + ext));
    assert(name.skip(hex.len() as int) =~= "."@ + ext);
}

/// Imported media stand in a directory beside the database: `media`, or a configured one,
/// which an absolute path puts elsewhere. Below it each type has its own, in lower case.
pub proof fn law_media_stand_beside_the_database(
    db_path: Seq<char>,
    configured: Option<Seq<char>>,
    beside: Seq<char>,
    label: Seq<char>,
)
    requires
        parent_of(db_path) == Some(beside),
        beside.len() > 0,
        beside.last() != '/',
    ensures
        configured is None ==> media_root(db_path, configured) == beside + "/media"@,
        configured matches Some(root) ==> (root.len() > 0 && root[0] == '/' ==> media_root(
            db_path,
            configured,
        ) == root),
        configured matches Some(root) ==> (root.len() > 0 && root[0] != '/' ==> media_root(
            db_path,
            configured,
        ) == beside + "/"@ + root),
        label.len() > 0 && label[0] != '/' ==> media_dir(beside, label) == beside + "/"@ + lowered(
            label,
        ),
{
    reveal_strlit("media");
    reveal_strlit("/media");
    reveal_strlit("/");
    assert(beside + "/"@ + "media"@ =~= beside + "/media"@);
    if label.len() > 0 && label[0] != '/' {
        assert(lowered(label)[0] != '/');
    }
}

} // verus!
