//! Operations on strings: trimming, prefixes, searching, lines, ASCII case.

use crate::text::{chars_of, is_alnum, is_space, is_upper, lemma_views_push, same, space, string_of, upper, views};
use vstd::prelude::*;

verus! {

// ---------------------------------------------------------------------------
// Trimming

/// A text without the white space at its front.
pub open spec fn trimmed_start(s: Seq<char>) -> Seq<char>
    decreases s.len(),
{
    if s.len() > 0 && is_space(s[0]) {
        trimmed_start(s.skip(1))
    } else {
        s
    }
}

/// A text without the white space at its end.
pub open spec fn trimmed_end(s: Seq<char>) -> Seq<char>
    decreases s.len(),
{
    if s.len() > 0 && is_space(s.last()) {
        trimmed_end(s.drop_last())
    } else {
        s
    }
}

/// A text without the white space at its front and its end.
pub open spec fn trimmed(s: Seq<char>) -> Seq<char> {
    trimmed_end(trimmed_start(s))
}

pub fn trim_start(s: &str) -> (r: String)
    ensures
        r@ == trimmed_start(s@),
{
    let v = chars_of(s);
    let mut i: usize = 0;
    assert(v@.skip(0) =~= v@);
    while i < v.len() && space(v[i])
        invariant
            v@ == s@,
            i <= v@.len(),
            trimmed_start(s@) == trimmed_start(v@.skip(i as int)),
        decreases v@.len() - i,
    {
        assert(v@.skip(i as int).skip(1) =~= v@.skip(i as int + 1));
        i = i + 1;
    }
    let r = string_of(&v, i, v.len());
    assert(r@ =~= v@.skip(i as int));
    r
}

pub fn trim_end(s: &str) -> (r: String)
    ensures
        r@ == trimmed_end(s@),
{
    let v = chars_of(s);
    let mut n: usize = v.len();
    assert(v@.take(n as int) =~= v@);
    while n > 0 && space(v[n - 1])
        invariant
            v@ == s@,
            n <= v@.len(),
            trimmed_end(s@) == trimmed_end(v@.take(n as int)),
        decreases n,
    {
        assert(v@.take(n as int).drop_last() =~= v@.take(n - 1));
        n = n - 1;
    }
    let r = string_of(&v, 0, n);
    assert(r@ =~= v@.take(n as int));
    r
}

pub fn trim(s: &str) -> (r: String)
    ensures
        r@ == trimmed(s@),
{
    let t = trim_start(s);
    trim_end(&t)
}

/// Trimming leaves nothing of a text exactly if the text is blank.
pub proof fn lemma_trimmed_empty(s: Seq<char>)
    ensures
        trimmed(s).len() == 0 <==> crate::text::is_blank(s),
    decreases s.len(),
{
    if s.len() > 0 && is_space(s[0]) {
        lemma_trimmed_empty(s.skip(1));
        if crate::text::is_blank(s.skip(1)) {
            assert forall|i: int| 0 <= i < s.len() implies is_space(#[trigger] s[i]) by {
                if i > 0 {
                    assert(s.skip(1)[i - 1] == s[i]);
                }
            }
        }
        if crate::text::is_blank(s) {
            assert forall|i: int| 0 <= i < s.skip(1).len() implies is_space(
                #[trigger] s.skip(1)[i],
            ) by {
                assert(s.skip(1)[i] == s[i + 1]);
            }
        }
    } else if s.len() > 0 {
        lemma_trimmed_end_keeps_front(s);
    }
}

proof fn lemma_trimmed_end_keeps_front(s: Seq<char>)
    requires
        s.len() > 0,
        !is_space(s[0]),
    ensures
        trimmed_end(s).len() > 0,
        trimmed_end(s)[0] == s[0],
    decreases s.len(),
{
    if is_space(s.last()) {
        lemma_trimmed_end_keeps_front(s.drop_last());
    }
}

// ---------------------------------------------------------------------------
// Prefixes and searching

pub open spec fn has_prefix(s: Seq<char>, w: Seq<char>) -> bool {
    w.len() <= s.len() && s.take(w.len() as int) == w
}

/// Whether a text ends with another.
pub open spec fn has_suffix(s: Seq<char>, w: Seq<char>) -> bool {
    w.len() <= s.len() && s.skip(s.len() - w.len()) == w
}

/// Whether a character is an ASCII letter or digit, a dot, a hyphen or an underscore.
pub open spec fn is_name_char(c: char) -> bool {
    is_alnum(c) || c == '.' || c == '-' || c == '_'
}

/// The ASCII letters and digits, dots, hyphens and underscores at the end of a text, back to
/// the first other character.
pub open spec fn name_tail(s: Seq<char>) -> Seq<char>
    decreases s.len(),
{
    if s.len() > 0 && is_name_char(s.last()) {
        name_tail(s.drop_last()).push(s.last())
    } else {
        Seq::empty()
    }
}

/// What follows a prefix.
pub open spec fn after_prefix(s: Seq<char>, w: Seq<char>) -> Option<Seq<char>> {
    if has_prefix(s, w) {
        Some(s.skip(w.len() as int))
    } else {
        None
    }
}

/// What follows a prefix.
pub fn strip_prefix(s: &str, w: &str) -> (r: Option<String>)
    ensures
        match r {
            Some(rest) => after_prefix(s@, w@) == Some(rest@),
            None => after_prefix(s@, w@) is None,
        },
{
    let v = chars_of(s);
    let n: usize = w.unicode_len();
    if n > v.len() {
        return None;
    }
    let head = string_of(&v, 0, n);
    assert(head@ =~= s@.take(n as int));
    if same(&head, w) {
        let rest = string_of(&v, n, v.len());
        assert(rest@ =~= s@.skip(n as int));
        Some(rest)
    } else {
        None
    }
}

/// The first position from `i` on at which a text stands.
pub open spec fn find_from(s: Seq<char>, w: Seq<char>, i: int) -> Option<int>
    decreases s.len() - i,
{
    if i < 0 || i + w.len() > s.len() {
        None
    } else if s.subrange(i, i + w.len() as int) == w {
        Some(i)
    } else if i >= s.len() {
        None
    } else {
        find_from(s, w, i + 1)
    }
}

/// The first position at which a text stands.
pub fn find_text(v: &Vec<char>, w: &str) -> (r: Option<usize>)
    ensures
        match r {
            Some(i) => find_from(v@, w@, 0) == Some(i as int) && i + w@.len() <= v@.len(),
            None => find_from(v@, w@, 0) is None,
        },
{
    let n: usize = w.unicode_len();
    if n > v.len() {
        return None;
    }
    let last: usize = v.len() - n;
    let mut i: usize = 0;
    while i <= last
        invariant
            n == w@.len(),
            last + n == v@.len(),
            last + n <= usize::MAX,
            i <= last + 1,
            find_from(v@, w@, 0) == find_from(v@, w@, i as int),
        decreases last + 1 - i,
    {
        let here = string_of(v, i, i + n);
        assert(here@ =~= v@.subrange(i as int, i + w@.len() as int));
        if same(&here, w) {
            return Some(i);
        }
        if i == last {
            assert(find_from(v@, w@, i as int + 1) is None);
            return None;
        }
        i = i + 1;
    }
    None
}

/// What is found is there, and nothing before it is.
pub proof fn lemma_find(s: Seq<char>, w: Seq<char>, i: int)
    requires
        0 <= i,
    ensures
        match find_from(s, w, i) {
            Some(k) => i <= k && k + w.len() <= s.len() && s.subrange(k, k + w.len() as int) == w
                && forall|j: int|
                i <= j < k ==> #[trigger] s.subrange(j, j + w.len() as int) != w,
            None => forall|j: int|
                i <= j && j + w.len() <= s.len() ==> #[trigger] s.subrange(
                    j,
                    j + w.len() as int,
                ) != w,
        },
    decreases s.len() - i,
{
    if i + w.len() > s.len() {
    } else if s.subrange(i, i + w.len() as int) == w {
    } else if i >= s.len() {
    } else {
        lemma_find(s, w, i + 1);
    }
}

// ---------------------------------------------------------------------------
// Lines

/// The position of the next line feed, or the end of the text.
pub open spec fn next_break(s: Seq<char>, i: int) -> int
    decreases s.len() - i,
{
    if i < 0 || i >= s.len() || s[i] == '\n' {
        i
    } else {
        next_break(s, i + 1)
    }
}

pub proof fn lemma_next_break(s: Seq<char>, i: int)
    ensures
        i <= next_break(s, i),
        i <= s.len() ==> next_break(s, i) <= s.len(),
    decreases s.len() - i,
{
    if i < 0 || i >= s.len() || s[i] == '\n' {
    } else {
        lemma_next_break(s, i + 1);
    }
}

/// A line without the carriage return at its end.
pub open spec fn line_body(s: Seq<char>) -> Seq<char> {
    if s.len() > 0 && s.last() == '\r' {
        s.drop_last()
    } else {
        s
    }
}

/// The lines from `i` on, behind those in `acc`. A line ends with a line feed, before
/// which a carriage return is dropped, or with the text.
pub open spec fn lines_from(s: Seq<char>, i: int, acc: Seq<Seq<char>>) -> Seq<Seq<char>>
    decreases s.len() - i,
{
    proof {
        lemma_next_break(s, i);
    }
    if i < 0 || i >= s.len() {
        acc
    } else {
        let e = next_break(s, i);
        if e < s.len() {
            lines_from(s, e + 1, acc.push(line_body(s.subrange(i, e))))
        } else {
            acc.push(s.subrange(i, e))
        }
    }
}

pub open spec fn lines_of(s: Seq<char>) -> Seq<Seq<char>> {
    lines_from(s, 0, Seq::empty())
}

/// Whether a text has a line.
pub open spec fn lists_line(s: Seq<char>, line: Seq<char>) -> bool {
    lines_of(s).contains(line)
}

/// A line break is found at the same place in a longer text, and a text that ends with one
/// has one from any position on.
proof fn lemma_next_break_front(a: Seq<char>, t: Seq<char>, i: int)
    requires
        0 <= i <= a.len(),
    ensures
        next_break(a, i) < a.len() ==> next_break(a + t, i) == next_break(a, i),
        next_break(a, i) == a.len() ==> next_break(a + t, i) == next_break(a + t, a.len() as int),
        i < a.len() && a.last() == '\n' ==> next_break(a, i) < a.len(),
        next_break(a, i) < a.len() ==> a[next_break(a, i)] == '\n',
    decreases a.len() - i,
{
    if i < a.len() {
        assert((a + t)[i] == a[i]);
        if a[i] != '\n' {
            lemma_next_break_front(a, t, i + 1);
        }
    }
}

/// The lines of a text behind whole lines are those lines and then its own.
pub proof fn lemma_lines_behind(a: Seq<char>, t: Seq<char>, i: int, acc: Seq<Seq<char>>)
    requires
        0 <= i <= a.len(),
        a.len() > 0 ==> a.last() == '\n',
    ensures
        lines_from(a + t, i, acc) == lines_from(a + t, a.len() as int, lines_from(a, i, acc)),
    decreases a.len() - i,
{
    if i < a.len() {
        lemma_next_break(a, i);
        lemma_next_break_front(a, t, i);
        let e = next_break(a, i);
        assert((a + t).subrange(i, e) =~= a.subrange(i, e));
        lemma_lines_behind(a, t, e + 1, acc.push(line_body(a.subrange(i, e))));
    }
}

/// Ending the last line of a text changes none of its lines.
pub proof fn lemma_lines_ended(s: Seq<char>, i: int, acc: Seq<Seq<char>>)
    requires
        0 <= i < s.len(),
        s.last() != '\n',
        s.last() != '\r',
    ensures
        lines_from(s.push('\n'), i, acc) == lines_from(s, i, acc),
    decreases s.len() - i,
{
    let t = s.push('\n');
    lemma_next_break(s, i);
    lemma_next_break_front(s, seq!['\n'], i);
    assert(s + seq!['\n'] =~= t);
    let e = next_break(s, i);
    if e < s.len() {
        assert(e + 1 < s.len());
        assert(t.subrange(i, e) =~= s.subrange(i, e));
        lemma_lines_ended(s, e + 1, acc.push(line_body(s.subrange(i, e))));
    } else {
        assert(next_break(t, s.len() as int) == s.len());
        assert(t.subrange(i, e) =~= s.subrange(i, e));
        assert(s.subrange(i, e).last() == s.last());
        assert(lines_from(t, e + 1, acc.push(s.subrange(i, e))) == acc.push(s.subrange(i, e)));
    }
}

/// The lines of a text.
pub fn split_lines(s: &str) -> (r: Vec<String>)
    ensures
        views(r@) == lines_of(s@),
{
    let v = chars_of(s);
    let mut out: Vec<String> = Vec::new();
    let mut i: usize = 0;
    assert(views(out@) =~= Seq::<Seq<char>>::empty());
    while i < v.len()
        invariant
            v@ == s@,
            i <= v@.len(),
            lines_of(s@) == lines_from(s@, i as int, views(out@)),
        decreases v@.len() - i,
    {
        let mut e: usize = i;
        while e < v.len() && v[e] != '\n'
            invariant
                i <= e <= v@.len(),
                next_break(v@, i as int) == next_break(v@, e as int),
            decreases v@.len() - e,
        {
            e = e + 1;
        }
        if e < v.len() {
            let line = if e > i && v[e - 1] == '\r' {
                string_of(&v, i, e - 1)
            } else {
                string_of(&v, i, e)
            };
            proof {
                assert(line@ =~= line_body(s@.subrange(i as int, e as int)));
                lemma_views_push(out@, line);
            }
            out.push(line);
            i = e + 1;
        } else {
            let line = string_of(&v, i, e);
            proof {
                lemma_views_push(out@, line);
            }
            out.push(line);
            i = e;
            assert(lines_from(s@, i as int, views(out@)) == views(out@));
        }
    }
    out
}

// ---------------------------------------------------------------------------
// ASCII case

/// The ASCII lower case of a character.
pub open spec fn lower_char(c: char) -> char {
    if is_upper(c) {
        ((c as int) + 32) as char
    } else {
        c
    }
}

/// The ASCII lower case of a text.
pub open spec fn lowered(s: Seq<char>) -> Seq<char> {
    Seq::new(s.len(), |i: int| lower_char(s[i]))
}

fn to_lower(c: char) -> (r: char)
    ensures
        r == lower_char(c),
{
    if upper(c) {
        (c as u8 + 32) as char
    } else {
        c
    }
}

/// The ASCII lower case of a text.
pub fn ascii_lowercase(s: &str) -> (r: String)
    ensures
        r@ == lowered(s@),
{
    let v = chars_of(s);
    let mut out = String::new();
    let mut i: usize = 0;
    assert(out@ =~= lowered(s@).take(0));
    while i < v.len()
        invariant
            v@ == s@,
            i <= v@.len(),
            out@ == lowered(s@).take(i as int),
        decreases v@.len() - i,
    {
        out.push(to_lower(v[i]));
        assert(lowered(s@).take(i as int + 1) =~= lowered(s@).take(i as int).push(
            lower_char(s@[i as int]),
        ));
        i = i + 1;
    }
    assert(lowered(s@).take(s@.len() as int) =~= lowered(s@));
    out
}

} // verus!
