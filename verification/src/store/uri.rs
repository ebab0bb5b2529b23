//! URIs of files and of media.

use crate::strings::{has_prefix, has_suffix, name_tail};
use vstd::prelude::*;
use vstd::slice::slice_to_vec;
use vstd::utf8::encode_utf8;

verus! {

/// The scheme and the path of the URL that a text parses to, if it does.
pub uninterp spec fn url_parsed(text: Seq<char>) -> Option<(Seq<char>, Seq<char>)>;

/// `url::Url::parse`, with `Url::scheme` and `Url::path` of what it gives: the scheme and
/// the path of an absolute URL, nothing for a text that is none. A text that starts with
/// `/` has no scheme, and so is none.
#[verifier::external_body]
pub(crate) fn parse_url(text: &str) -> (r: Option<(String, String)>)
    ensures
        match r {
            Some((scheme, path)) => url_parsed(text@) == Some((scheme@, path@)),
            None => url_parsed(text@) is None,
        },
        text@.len() > 0 && text@[0] == '/' ==> r is None,
{
    let url = url::Url::parse(text).ok()?;
    Some((url.scheme().to_string(), url.path().to_string()))
}

/// The path of a local file: as text, with a replacement character for what is no text, and
/// as the bytes by which the machine knows the file.
#[derive(Debug)]
pub struct LocalPath {
    pub text: String,
    pub bytes: Vec<u8>,
}

/// The mathematical value of a `LocalPath`.
pub struct LocalPathModel {
    pub text: Seq<char>,
    pub bytes: Seq<u8>,
}

impl View for LocalPath {
    type V = LocalPathModel;

    open spec fn view(&self) -> LocalPathModel {
        LocalPathModel { text: self.text@, bytes: self.bytes@ }
    }
}

/// The local path that is a text.
pub open spec fn text_path(text: Seq<char>) -> LocalPathModel {
    LocalPathModel { text, bytes: encode_utf8(text) }
}

impl LocalPath {
    /// The local path that is a text.
    pub fn of_text(text: String) -> (r: LocalPath)
        ensures
            r@ == text_path(text@),
    {
        let bytes = slice_to_vec(text.as_str().as_bytes());
        LocalPath { text, bytes }
    }
}

/// The mathematical value of a local path that may be missing.
pub open spec fn local_view(path: Option<LocalPath>) -> Option<LocalPathModel> {
    match path {
        Some(p) => Some(p@),
        None => None,
    }
}

/// What follows the last slash or percent sign of a text.
pub open spec fn after_mark(s: Seq<char>) -> Seq<char>
    decreases s.len(),
{
    if s.len() == 0 || s.last() == '/' || s.last() == '%' {
        Seq::empty()
    } else {
        after_mark(s.drop_last()).push(s.last())
    }
}

/// The end of the path of a URL that is no part of an escape: its last segment where that
/// holds no percent sign, else what is behind the last of them and the two characters that
/// may belong to it. Of a segment that ends like the name of a drive nothing.
pub open spec fn kept_end(path: Seq<char>) -> Seq<char> {
    let tail = after_mark(path);
    let before = path.len() - tail.len();
    if tail.len() > 0 && (tail.last() == ':' || tail.last() == '|') {
        Seq::empty()
    } else if before > 0 && path[before - 1] == '%' {
        if tail.len() > 2 {
            tail.skip(2)
        } else {
            Seq::empty()
        }
    } else {
        tail
    }
}

/// Whether bytes end with a text of ASCII characters.
pub open spec fn bytes_end_with(bytes: Seq<u8>, w: Seq<char>) -> bool {
    w.len() <= bytes.len() && forall|i: int|
        0 <= i < w.len() ==> bytes[bytes.len() - w.len() + i] == #[trigger] w[i] as u8
}

/// Whether a local path can be that of the file that a URL names: the text is a URL, and the
/// local path ends as the path of the URL does.
pub open spec fn may_name(text: Seq<char>, file: Option<LocalPathModel>) -> bool {
    file matches Some(f) ==> url_parsed(text) matches Some((_, path)) && has_suffix(
        f.text,
        kept_end(path),
    ) && bytes_end_with(f.bytes, kept_end(path))
}

/// `url::Url::to_file_path` of a URL that parses: the path of a local file that it names, as
/// text and as its bytes. What it gives depends on the conventions of the machine for paths.
/// On every machine the segments of the URL's path, which are ASCII, are kept in order and
/// only percent escapes are decoded, so the path ends as the URL's path does behind its last
/// escape; a drive at the end may get a separator, so of that nothing is claimed. Nothing
/// more is claimed.
#[verifier::external_body]
pub(crate) fn url_to_file_path(text: &str) -> (r: Option<LocalPath>)
    ensures
        may_name(text@, local_view(r)),
{
    let path = url::Url::parse(text).ok()?.to_file_path().ok()?;
    Some(
        LocalPath {
            text: path.to_string_lossy().into_owned(),
            bytes: path.as_os_str().as_encoded_bytes().to_vec(),
        },
    )
}

/// Whether a path may name a server: it starts with two separators, and a drive does not
/// follow them as in `\\?\C:`.
pub open spec fn may_name_server(path: Seq<char>) -> bool {
    &&& path.len() >= 2
    &&& path[0] == '/' || path[0] == '\\'
    &&& path[1] == '/' || path[1] == '\\'
    &&& !(path.len() >= 6 && path[2] == '?' && path[3] == '\\' && path[5] == ':')
}

/// The end of a path that a URL of it keeps: the letters and digits, dots, hyphens and
/// underscores at its end, but for a dot that stands alone and may name a directory itself.
/// Of a path that may be no more than the name of a server nothing is said.
pub open spec fn kept_name(path: Seq<char>) -> Seq<char> {
    if name_tail(path) == seq!['.'] || may_name_server(path) {
        Seq::empty()
    } else {
        name_tail(path)
    }
}

/// `url::Url::from_file_path`, as text: a URL in the `file` scheme that names a local file.
/// How it spells the path depends on the conventions of the machine for paths. On every
/// machine the last component of the path comes last, and its ASCII letters and digits, dots,
/// hyphens and underscores are not escaped, so the URL ends with those that end the path; of a
/// path that may name no more than a server that is not claimed. Nothing more is.
#[verifier::external_body]
pub(crate) fn file_path_to_url(path: &str) -> (r: Option<String>)
    ensures
        r matches Some(url) ==> has_prefix(url@, "file://"@) && has_suffix(
            url@,
            kept_name(path@),
        ),
{
    let url = url::Url::from_file_path(path).ok()?;
    Some(url.to_string())
}

} // verus!
