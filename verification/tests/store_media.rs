use nanograph::store::media::{
    choose_mime_type, configured_media_root, detect_mime_from_bytes, extension_to_mime, hex_lower,
    imported_media, media_destination, media_directory, mime_to_extension, resolve_media_value,
    resolve_source_file_path, sanitize_mime_hint, source_file_read, uri_file_read, MediaStep,
};

fn s(text: &str) -> String {
    text.to_string()
}

#[test]
fn base64_media_are_decoded_for_import() {
    // "%PDF-1" in base64.
    let step = resolve_media_value(None, "Doc", "uri", "@base64:JVBERi0x", None).unwrap();
    match step {
        MediaStep::Import { bytes, mime_type } => {
            assert_eq!(bytes, vec![0x25, 0x50, 0x44, 0x46, 0x2d, 0x31]);
            assert_eq!(mime_type, "application/pdf");
        }
        other => panic!("expected an import, got {:?}", other),
    }
}

#[test]
fn broken_base64_is_refused() {
    let err = resolve_media_value(None, "Doc", "uri", "@base64:!!", None)
        .unwrap_err()
        .to_string();
    assert!(err.contains("failed to decode base64 media for Doc.uri: "));
}

#[test]
fn file_media_are_read_from_their_place() {
    let base = s("/data");
    let step = resolve_media_value(Some(&base), "Doc", "uri", "@file:a/b.png", None).unwrap();
    assert!(matches!(step, MediaStep::ReadSource { path } if path == "/data/a/b.png"));
    assert_eq!(resolve_source_file_path(None, "/abs.png").unwrap(), "/abs.png");
    let err = resolve_source_file_path(None, "rel.png").unwrap_err().to_string();
    assert!(err.contains("relative @file: path 'rel.png' requires a source file location"));
    match source_file_read("Doc", "uri", "/data/a/b.gif", Ok(vec![1, 2]), None).unwrap() {
        MediaStep::Import { bytes, mime_type } => {
            assert_eq!(bytes, vec![1, 2]);
            assert_eq!(mime_type, "image/gif");
        }
        other => panic!("expected an import, got {:?}", other),
    }
}

#[test]
fn external_uris_take_their_mime_from_hint_or_extension() {
    let hint = s(" image/webp ");
    let hinted =
        resolve_media_value(None, "Doc", "uri", "@uri: s3://b/x ", Some(&hint)).unwrap();
    match hinted {
        MediaStep::Done(v) => {
            assert_eq!(v.uri, "s3://b/x");
            assert_eq!(v.mime_type, "image/webp");
        }
        other => panic!("expected a value, got {:?}", other),
    }
    let named =
        resolve_media_value(None, "Doc", "uri", "@uri:https://h.example/p/q.JPG?x=1", None)
            .unwrap();
    match named {
        MediaStep::Done(v) => {
            assert_eq!(v.uri, "https://h.example/p/q.JPG?x=1");
            assert_eq!(v.mime_type, "image/jpeg");
        }
        other => panic!("expected a value, got {:?}", other),
    }
    let file =
        resolve_media_value(None, "Doc", "uri", "@uri:file:///tmp/a%20b.png", None).unwrap();
    match file {
        MediaStep::ReadUri { uri, file } => {
            assert_eq!(uri, "file:///tmp/a%20b.png");
            assert_eq!(file.text, "/tmp/a b.png");
            assert_eq!(file.bytes, b"/tmp/a b.png".to_vec());
        }
        other => panic!("expected a file to read, got {:?}", other),
    }
    match uri_file_read("Doc", "uri", s("file:///x.mov"), "/x.mov", Ok(vec![])).unwrap() {
        MediaStep::Done(v) => assert_eq!(v.mime_type, "video/quicktime"),
        other => panic!("expected a value, got {:?}", other),
    }
}

#[test]
fn media_values_in_other_forms_are_refused() {
    let plain = resolve_media_value(None, "Doc", "uri", "x.png", None)
        .unwrap_err()
        .to_string();
    assert!(plain.contains("media property Doc.uri must use @file:, @base64:, or @uri:"));
    let empty = resolve_media_value(None, "Doc", "uri", "@uri:  ", None)
        .unwrap_err()
        .to_string();
    assert!(empty.contains("media URI for Doc.uri cannot be empty"));
    let unknown = resolve_media_value(None, "Doc", "uri", "@uri:s3://b/key", None)
        .unwrap_err()
        .to_string();
    assert!(unknown.contains("failed to determine mime type for Doc.uri from URI s3://b/key"));
    assert!(unknown.contains("explicit mime_type is required"));
}

#[test]
fn mime_types_are_chosen_in_order() {
    let png = s("image/png");
    assert_eq!(choose_mime_type(Some(&png), None, None).unwrap(), "image/png");
    assert_eq!(
        choose_mime_type(None, Some("image/gif"), Some(&s("png"))).unwrap(),
        "image/gif"
    );
    assert_eq!(choose_mime_type(None, None, Some(&s("WAV"))).unwrap(), "audio/wav");
    let clash = choose_mime_type(Some(&png), Some("image/gif"), None)
        .unwrap_err()
        .to_string();
    assert!(clash.contains("explicit mime_type 'image/png' does not match detected mime 'image/gif'"));
    assert!(choose_mime_type(None, None, Some(&s("xyz"))).is_err());
    assert_eq!(sanitize_mime_hint(Some(&s("  "))), None);
    assert_eq!(sanitize_mime_hint(None), None);
}

#[test]
fn mime_types_are_detected_from_bytes() {
    let riff = |kind: &[u8]| {
        let mut v = b"RIFF0000".to_vec();
        v.extend_from_slice(kind);
        v
    };
    assert_eq!(
        detect_mime_from_bytes(&vec![0x89, 0x50, 0x4e, 0x47, 13, 10, 0x1a, 10]),
        Some("image/png")
    );
    assert_eq!(detect_mime_from_bytes(&vec![0xff, 0xd8, 0xff]), Some("image/jpeg"));
    assert_eq!(detect_mime_from_bytes(&b"GIF89a".to_vec()), Some("image/gif"));
    assert_eq!(detect_mime_from_bytes(&riff(b"WEBP")), Some("image/webp"));
    assert_eq!(detect_mime_from_bytes(&b"%PDF-1.7".to_vec()), Some("application/pdf"));
    assert_eq!(detect_mime_from_bytes(&riff(b"WAVE")), Some("audio/wav"));
    assert_eq!(detect_mime_from_bytes(&b"ID3".to_vec()), Some("audio/mpeg"));
    assert_eq!(detect_mime_from_bytes(&vec![0xff, 0xfb]), Some("audio/mpeg"));
    assert_eq!(detect_mime_from_bytes(&b"0000ftypisom".to_vec()), Some("video/mp4"));
    assert_eq!(detect_mime_from_bytes(&b"hello".to_vec()), None);
}

#[test]
fn extensions_and_mime_types_agree() {
    for ext in vec!["png", "jpg", "gif", "webp", "pdf", "mp3", "wav", "mp4", "mov"] {
        let mime = extension_to_mime(ext).unwrap();
        assert_eq!(mime_to_extension(mime), Some(ext));
    }
    assert_eq!(extension_to_mime("JPEG"), Some("image/jpeg"));
    assert_eq!(extension_to_mime("m4v"), Some("video/mp4"));
    assert_eq!(extension_to_mime("txt"), None);
    assert_eq!(mime_to_extension("text/plain"), None);
}

#[test]
fn imported_media_are_named_by_their_digest() {
    // The SHA-256 digest of "abc".
    let digest = "ba7816bf8f01cfea414140de5dae2223b00361a396177a9cb410ff61f20015ad";
    let path = media_destination("/m", "PhotoAsset", &b"abc".to_vec(), "image/png");
    assert_eq!(path, format!("/m/photoasset/{}.png", digest));
    let other = media_destination("/m", "PhotoAsset", &b"abc".to_vec(), "text/plain");
    assert_eq!(other, format!("/m/photoasset/{}.bin", digest));
    assert_eq!(media_directory("/m", "PhotoAsset"), "/m/photoasset");
    assert_eq!(hex_lower(&vec![0x00, 0x0f, 0xab, 0xff]), "000fabff");
}

#[test]
fn the_media_root_is_beside_the_database() {
    assert_eq!(configured_media_root("/p/db.nano", None), "/p/media");
    assert_eq!(configured_media_root("/p/db.nano", Some(&s("/elsewhere"))), "/elsewhere");
    assert_eq!(configured_media_root("/p/db.nano", Some(&s("pics"))), "/p/pics");
}

#[test]
fn imported_files_are_named_by_a_file_uri() {
    let v = imported_media("/tmp/a b.png", s("image/png")).unwrap();
    assert_eq!(v.uri, "file:///tmp/a%20b.png");
    assert_eq!(v.mime_type, "image/png");
    let err = imported_media("not/absolute.png", s("image/png")).unwrap_err().to_string();
    assert!(err.contains("failed to build file URI for imported media not/absolute.png"));
}

#[test]
fn media_files_that_cannot_be_read_are_refused() {
    let err = source_file_read("Doc", "uri", "/a.gif", Err(s("gone")), None).unwrap_err();
    assert!(err.to_string().contains("failed to read media source Doc.uri from /a.gif: gone"));
    let err = uri_file_read("Doc", "uri", s("file:///a"), "/a", Err(s("gone"))).unwrap_err();
    assert!(err
        .to_string()
        .contains("failed to determine mime type for Doc.uri from URI file:///a: "));
    assert!(err.to_string().contains("failed to read /a: gone"));
}

#[test]
fn imported_media_keep_the_end_of_their_path() {
    let value = imported_media("/m/a b/0f9e.png", s("image/png")).unwrap();
    assert!(value.uri.starts_with("file://"));
    assert!(value.uri.ends_with("png"));
    assert_eq!(value.uri, "file:///m/a%20b/0f9e.png");
}

#[test]
fn files_that_are_no_text_keep_their_bytes() {
    let step = resolve_media_value(None, "Doc", "uri", "@uri:file:///m/%FE/a-1_b.png", None).unwrap();
    match step {
        MediaStep::ReadUri { file, .. } => {
            assert_eq!(file.bytes, b"/m/\xfe/a-1_b.png".to_vec());
            assert!(file.text.ends_with("a-1_b.png"));
        }
        other => panic!("expected a file to read, got {:?}", other),
    }
}

#[test]
fn imported_media_keep_their_whole_name() {
    let digest = "/m/photo/0f9e-a_b.tar.png";
    let value = imported_media(digest, s("image/png")).unwrap();
    assert!(value.uri.ends_with("0f9e-a_b.tar.png"));
}
