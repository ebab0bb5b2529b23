//! How messages are shown.

use crate::error::SourceSpan;
use vstd::prelude::*;
use vstd::utf8::encode_utf8;

verus! {

/// What is logged where nothing else is asked for.
pub fn default_log_filter() -> (r: &'static str)
    ensures
        r@ == "error"@,
{
    "error"
}

/// The bytes of a text of `len` bytes to be marked for a span: at least one, none beyond
/// the end; the first where no span is given; none of an empty text.
pub open spec fn marked_bytes(span: Option<SourceSpan>, len: int) -> (int, int) {
    if len == 0 {
        (0, 0)
    } else {
        match span {
            None => (0, 1),
            Some(s) => {
                let start = if s.start <= len - 1 {
                    s.start as int
                } else {
                    len - 1
                };
                let wanted = if s.end >= start + 1 {
                    s.end as int
                } else {
                    start + 1
                };
                (
                    start,
                    if wanted <= len {
                        wanted
                    } else {
                        len
                    },
                )
            },
        }
    }
}

/// The bytes of a source text to be marked for a span.
pub fn normalize_span(span: Option<SourceSpan>, source: &str) -> (r: SourceSpan)
    ensures
        (r.start as int, r.end as int) == marked_bytes(span, encode_utf8(source@).len() as int),
{
    let len: usize = source.as_bytes().len();
    if len == 0 {
        return SourceSpan { start: 0, end: 0 };
    }
    match span {
        None => SourceSpan { start: 0, end: 1 },
        Some(s) => {
            let start: usize = if s.start <= len - 1 {
                s.start
            } else {
                len - 1
            };
            let wanted: usize = if s.end >= start + 1 {
                s.end
            } else {
                start + 1
            };
            let end: usize = if wanted <= len {
                wanted
            } else {
                len
            };
            SourceSpan { start, end }
        },
    }
}

/// What is marked lies in the text, and is at least one byte of a text that has any.
pub proof fn law_marked_bytes_are_there(span: Option<SourceSpan>, len: int)
    requires
        0 <= len,
    ensures
        0 <= marked_bytes(span, len).0 <= marked_bytes(span, len).1 <= len,
        len > 0 ==> marked_bytes(span, len).0 < marked_bytes(span, len).1,
{
}

/// A span of one byte or more that lies in the text is marked as it is.
pub proof fn law_good_spans_are_kept(span: SourceSpan, len: int)
    requires
        span.start < span.end <= len,
    ensures
        marked_bytes(Some(span), len) == (span.start as int, span.end as int),
{
}

} // verus!
