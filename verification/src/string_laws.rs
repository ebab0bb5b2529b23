//! What holds of texts, lines and paths.

use crate::path::{below, components, counts, extension_of, has_parent, is_absolute, joined, last_dot, lemma_segment_end, parent_of, places, places_from, segment_end, shared_ancestor, shared_from};
use crate::strings::{after_prefix, has_prefix, has_suffix, lemma_next_break, line_body, lines_from, lines_of, lowered, next_break, trimmed, trimmed_end, trimmed_start};
use crate::text::{is_alnum, is_digit, is_lower, is_space, is_upper};
use vstd::prelude::*;

verus! {

// ---------------------------------------------------------------------------
// Texts

proof fn lemma_trimmed_start(s: Seq<char>)
    ensures
        trimmed_start(s).len() <= s.len(),
        trimmed_start(s) == s.skip(s.len() - trimmed_start(s).len()),
        forall|i: int| 0 <= i < s.len() - trimmed_start(s).len() ==> is_space(#[trigger] s[i]),
        trimmed_start(s).len() > 0 ==> !is_space(trimmed_start(s)[0]),
    decreases s.len(),
{
    if s.len() > 0 && is_space(s[0]) {
        let t = s.skip(1);
        lemma_trimmed_start(t);
        let k = t.len() - trimmed_start(t).len();
        assert(t.skip(k) =~= s.skip(k + 1));
        assert forall|i: int| 0 <= i < k + 1 implies is_space(#[trigger] s[i]) by {
            if i > 0 {
                assert(t[i - 1] == s[i]);
            }
        }
    } else {
        assert(s.skip(0) =~= s);
    }
}

proof fn lemma_trimmed_end(s: Seq<char>)
    ensures
        trimmed_end(s).len() <= s.len(),
        trimmed_end(s) == s.take(trimmed_end(s).len() as int),
        forall|i: int| trimmed_end(s).len() <= i < s.len() ==> is_space(#[trigger] s[i]),
        trimmed_end(s).len() > 0 ==> !is_space(trimmed_end(s).last()),
    decreases s.len(),
{
    if s.len() > 0 && is_space(s.last()) {
        let t = s.drop_last();
        lemma_trimmed_end(t);
        let k = trimmed_end(t).len() as int;
        assert(t.take(k) =~= s.take(k));
        assert forall|i: int| k <= i < s.len() implies is_space(#[trigger] s[i]) by {
            if i < s.len() - 1 {
                assert(t[i] == s[i]);
            }
        }
    } else {
        assert(s.take(s.len() as int) =~= s);
    }
}

/// A trimmed text is what is left of the text once white space is taken from both ends, all
/// of it and nothing else: what comes off is white space, and what stays neither starts nor
/// ends with any.
pub proof fn law_trimming_takes_white_space(s: Seq<char>) -> (r: (int, int))
    ensures
        0 <= r.0 <= r.1 <= s.len(),
        trimmed(s) == s.subrange(r.0, r.1),
        forall|i: int| 0 <= i < r.0 ==> is_space(#[trigger] s[i]),
        forall|i: int| r.1 <= i < s.len() ==> is_space(#[trigger] s[i]),
        trimmed(s).len() > 0 ==> !is_space(trimmed(s)[0]) && !is_space(trimmed(s).last()),
        trimmed(s).len() == 0 <==> forall|i: int| 0 <= i < s.len() ==> is_space(#[trigger] s[i]),
{
    lemma_trimmed_start(s);
    let t = trimmed_start(s);
    lemma_trimmed_end(t);
    let a = s.len() - t.len();
    let b = a + trimmed(s).len();
    assert(t.take(trimmed(s).len() as int) =~= s.subrange(a, b));
    assert forall|i: int| b <= i < s.len() implies is_space(#[trigger] s[i]) by {
        assert(t[i - a] == s[i]);
    }
    if trimmed(s).len() > 0 {
        assert(trimmed(s)[0] == t[0]);
        assert(trimmed(s)[0] == s[a]);
    }
    (a, b)
}

/// Lower case changes capital letters and nothing else, each to the small one of its name.
pub proof fn law_lower_case_changes_capitals(s: Seq<char>, i: int)
    requires
        0 <= i < s.len(),
    ensures
        lowered(s).len() == s.len(),
        'A' <= s[i] <= 'Z' ==> lowered(s)[i] as int == s[i] as int - 'A' as int + 'a' as int,
        !('A' <= s[i] <= 'Z') ==> lowered(s)[i] == s[i],
        lowered(lowered(s)) == lowered(s),
{
    assert(lowered(lowered(s)) =~= lowered(s));
}

/// What stands behind a text in front is found behind it, and nothing is found behind what
/// does not stand there.
pub proof fn law_prefixes_come_off(a: Seq<char>, b: Seq<char>, s: Seq<char>)
    ensures
        after_prefix(a + b, a) == Some(b),
        after_prefix(s, a) matches Some(rest) ==> s == a + rest,
        after_prefix(s, a) is None ==> s != a + b,
        has_prefix(a + b, a),
        has_suffix(a + b, b),
{
    assert((a + b).take(a.len() as int) =~= a);
    assert((a + b).skip(a.len() as int) =~= b);
    if let Some(rest) = after_prefix(s, a) {
        assert(s =~= a + rest);
    }
}

// ---------------------------------------------------------------------------
// Lines

proof fn lemma_break_at(s: Seq<char>, i: int, e: int)
    requires
        0 <= i <= e <= s.len(),
        forall|k: int| i <= k < e ==> #[trigger] s[k] != '\n',
        e < s.len() ==> s[e] == '\n',
    ensures
        next_break(s, i) == e,
    decreases e - i,
{
    if i < e {
        lemma_break_at(s, i + 1, e);
    }
}

proof fn lemma_break_found(s: Seq<char>, i: int)
    requires
        0 <= i <= s.len(),
    ensures
        i <= next_break(s, i) <= s.len(),
        forall|k: int| i <= k < next_break(s, i) ==> #[trigger] s[k] != '\n',
        next_break(s, i) < s.len() ==> s[next_break(s, i)] == '\n',
    decreases s.len() - i,
{
    if i < s.len() && s[i] != '\n' {
        lemma_break_found(s, i + 1);
    }
}

proof fn lemma_lines_grow(s: Seq<char>, i: int, acc: Seq<Seq<char>>)
    requires
        0 <= i <= s.len(),
    ensures
        lines_from(s, i, acc) == acc + lines_from(s, i, Seq::empty()),
    decreases s.len() - i,
{
    let none: Seq<Seq<char>> = Seq::empty();
    if i < s.len() {
        lemma_next_break(s, i);
        let e = next_break(s, i);
        if e < s.len() {
            let line = line_body(s.subrange(i, e));
            lemma_lines_grow(s, e + 1, acc.push(line));
            lemma_lines_grow(s, e + 1, none.push(line));
            assert(acc.push(line) + lines_from(s, e + 1, none) =~= acc + (none.push(line)
                + lines_from(s, e + 1, none)));
        } else {
            assert(acc.push(s.subrange(i, e)) =~= acc + none.push(s.subrange(i, e)));
        }
    } else {
        assert(acc + none =~= acc);
    }
}

proof fn lemma_lines_shifted(a: Seq<char>, s: Seq<char>, i: int)
    requires
        0 <= i <= s.len(),
    ensures
        lines_from(a + s, a.len() + i, Seq::empty()) == lines_from(s, i, Seq::empty()),
    decreases s.len() - i,
{
    let t = a + s;
    let none: Seq<Seq<char>> = Seq::empty();
    if i < s.len() {
        lemma_break_found(s, i);
        let e = next_break(s, i);
        assert forall|k: int| a.len() + i <= k < a.len() + e implies #[trigger] t[k] != '\n' by {
            assert(t[k] == s[k - a.len()]);
        }
        if e < s.len() {
            assert(t[a.len() + e] == s[e]);
        }
        lemma_break_at(t, a.len() + i, a.len() + e);
        assert(t.subrange(a.len() + i, a.len() + e) =~= s.subrange(i, e));
        if e < s.len() {
            lemma_lines_shifted(a, s, e + 1);
            lemma_lines_grow(t, a.len() + e + 1, none.push(line_body(s.subrange(i, e))));
            lemma_lines_grow(s, e + 1, none.push(line_body(s.subrange(i, e))));
        }
    }
}

/// A text without line breaks is one line, and a line with its break in front of a text
/// comes before the lines of that text. A carriage return before the break is no part of the
/// line.
pub proof fn law_lines_end_at_their_breaks(line: Seq<char>, rest: Seq<char>)
    requires
        forall|k: int| 0 <= k < line.len() ==> #[trigger] line[k] != '\n',
        line.len() > 0 ==> line.last() != '\r',
    ensures
        lines_of(Seq::empty()) == Seq::<Seq<char>>::empty(),
        line.len() > 0 ==> lines_of(line) == seq![line],
        lines_of(line + seq!['\n'] + rest) == seq![line] + lines_of(rest),
        lines_of(line + seq!['\r', '\n'] + rest) == seq![line] + lines_of(rest),
{
    let none: Seq<Seq<char>> = Seq::empty();
    if line.len() > 0 {
        lemma_break_at(line, 0, line.len() as int);
        assert(line.subrange(0, line.len() as int) =~= line);
        assert(none.push(line) =~= seq![line]);
    }
    let n = line.len() as int;
    let s = line + seq!['\n'] + rest;
    assert forall|k: int| 0 <= k < n implies #[trigger] s[k] != '\n' by {
        assert(s[k] == line[k]);
    }
    assert(s[n] == '\n');
    lemma_break_at(s, 0, n);
    assert(s.subrange(0, n) =~= line);
    lemma_lines_grow(s, n + 1, none.push(line));
    lemma_lines_shifted(line + seq!['\n'], rest, 0);
    assert(none.push(line) =~= seq![line]);
    let t = line + seq!['\r', '\n'] + rest;
    assert forall|k: int| 0 <= k < n + 1 implies #[trigger] t[k] != '\n' by {
        if k < n {
            assert(t[k] == line[k]);
        } else {
            assert(t[n] == '\r');
        }
    }
    assert(t[n + 1] == '\n');
    lemma_break_at(t, 0, n + 1);
    let cut = t.subrange(0, n + 1);
    assert(cut.last() == '\r');
    assert(cut.drop_last() =~= line);
    lemma_lines_grow(t, n + 2, none.push(line));
    lemma_lines_shifted(line + seq!['\r', '\n'], rest, 0);
}

// ---------------------------------------------------------------------------
// Paths

/// Whether a text can be a directory in front of a name: it ends in a part that counts.
pub open spec fn is_directory_text(base: Seq<char>) -> bool {
    base.len() > 0 && base.last() != '/' && base.last() != '.'
}

/// Whether a text is the name of one thing in a directory.
pub open spec fn is_plain_name(name: Seq<char>) -> bool {
    name.len() > 0 && name != seq!['.'] && forall|k: int| 0 <= k < name.len() ==> #[trigger] name[k] != '/'
}

proof fn lemma_segment_at(s: Seq<char>, i: int, e: int)
    requires
        0 <= i <= e <= s.len(),
        forall|k: int| i <= k < e ==> #[trigger] s[k] != '/',
        e < s.len() ==> s[e] == '/',
    ensures
        segment_end(s, i) == e,
    decreases e - i,
{
    if i < e {
        lemma_segment_at(s, i + 1, e);
    }
}

proof fn lemma_segment_plain(s: Seq<char>, i: int)
    requires
        0 <= i <= s.len(),
    ensures
        i <= segment_end(s, i) <= s.len(),
        forall|k: int| i <= k < segment_end(s, i) ==> #[trigger] s[k] != '/',
        segment_end(s, i) < s.len() ==> s[segment_end(s, i)] == '/',
    decreases s.len() - i,
{
    if i < s.len() && s[i] != '/' {
        lemma_segment_plain(s, i + 1);
    }
}

/// A name behind a directory is one more part, and the last part of the directory ends where
/// the directory does.
proof fn lemma_places_behind(base: Seq<char>, name: Seq<char>, i: int, acc: Seq<(int, int)>)
    requires
        is_directory_text(base),
        is_plain_name(name),
        0 <= i <= base.len(),
        i == base.len() ==> acc.len() > 0 && acc.last().1 == base.len(),
    ensures
        ({
            let s = base + "/"@ + name;
            &&& places_from(s, i, acc) == places_from(base, i, acc).push(
                (base.len() as int + 1, base.len() as int + 1 + name.len()),
            )
            &&& places_from(base, i, acc).len() > 0
            &&& places_from(base, i, acc).last().1 == base.len()
        }),
    decreases base.len() - i,
{
    reveal_strlit("/");
    let s = base + "/"@ + name;
    let b = base.len() as int;
    if i < b {
        assert(s[i] == base[i]);
        if base[i] == '/' {
            lemma_places_behind(base, name, i + 1, acc);
        } else {
            lemma_segment_plain(base, i);
            let e = segment_end(base, i);
            assert forall|k: int| i <= k < e implies #[trigger] s[k] != '/' by {
                assert(s[k] == base[k]);
            }
            if e < b {
                assert(s[e] == base[e]);
            } else {
                assert(s[e] == '/');
            }
            lemma_segment_at(s, i, e);
            lemma_segment_end(s, i);
            lemma_segment_end(base, i);
            assert(counts(s, i, e) == counts(base, i, e));
            if e == b {
                if e == i + 1 {
                    assert(base[i] == base.last());
                }
                assert(counts(base, i, e));
            }
            if counts(base, i, e) {
                lemma_places_behind(base, name, e, acc.push((i, e)));
            } else {
                lemma_places_behind(base, name, e, acc);
            }
        }
    } else {
        assert(s[b] == '/');
        let e = s.len() as int;
        assert forall|k: int| b + 1 <= k < e implies #[trigger] s[k] != '/' by {
            assert(s[k] == name[k - b - 1]);
        }
        lemma_segment_at(s, b + 1, e);
        lemma_segment_end(s, b + 1);
        assert(s[b + 1] == name[0]);
        if name.len() == 1 && name[0] == '.' {
            assert(name =~= seq!['.']);
        }
        assert(counts(s, b + 1, e));
        assert(places_from(s, b, acc) == places_from(s, b + 1, acc));
        assert(places_from(s, b + 1, acc) == places_from(s, e, acc.push((b + 1, e))));
        assert(places_from(s, e, acc.push((b + 1, e))) == acc.push((b + 1, e)));
        assert(places_from(base, b, acc) == acc);
    }
}

proof fn lemma_places_of_file(base: Seq<char>, name: Seq<char>)
    requires
        is_directory_text(base),
        is_plain_name(name),
    ensures
        places(base + "/"@ + name) == places(base).push(
            (base.len() as int + 1, base.len() as int + 1 + name.len()),
        ),
        places(base).len() > 0,
        places(base).last().1 == base.len(),
        is_absolute(base + "/"@ + name) == is_absolute(base),
{
    let s = base + "/"@ + name;
    assert(s[0] == base[0]);
    lemma_places_behind(
        base,
        name,
        0,
        if is_absolute(base) {
            seq![(0int, 1int)]
        } else {
            Seq::empty()
        },
    );
}

/// The directory of a file in a directory is that directory, its last part is its name, and
/// seen from the directory its path is its name.
pub proof fn law_files_are_in_their_directory(base: Seq<char>, name: Seq<char>)
    requires
        is_directory_text(base),
        is_plain_name(name),
    ensures
        joined(base, name) == base + "/"@ + name,
        parent_of(joined(base, name)) == Some(base),
        components(joined(base, name)).last() == name,
        has_parent(joined(base, name)),
{
    let s = base + "/"@ + name;
    lemma_places_of_file(base, name);
    reveal_strlit("/");
    let n = places(s).len() as int;
    assert(places(s)[n - 2] == places(base).last());
    assert(s.subrange(0, base.len() as int) =~= base);
    assert(s.subrange(base.len() as int + 1, base.len() as int + 1 + name.len()) =~= name);
    assert(components(s).len() == n);
    assert(components(s).last() == s.subrange(places(s)[n - 1].0, places(s)[n - 1].1));
}

proof fn lemma_places_in_range(s: Seq<char>, i: int, acc: Seq<(int, int)>, k: int)
    requires
        0 <= i <= s.len(),
        forall|j: int| 0 <= j < acc.len() ==> 0 <= (#[trigger] acc[j]).0 <= acc[j].1 <= s.len(),
        0 <= k < places_from(s, i, acc).len(),
    ensures
        0 <= places_from(s, i, acc)[k].0 <= places_from(s, i, acc)[k].1 <= s.len(),
    decreases s.len() - i,
{
    if i < s.len() {
        if s[i] == '/' {
            lemma_places_in_range(s, i + 1, acc, k);
        } else {
            lemma_segment_plain(s, i);
            lemma_segment_end(s, i);
            let e = segment_end(s, i);
            if counts(s, i, e) {
                lemma_places_in_range(s, e, acc.push((i, e)), k);
            } else {
                lemma_places_in_range(s, e, acc, k);
            }
        }
    }
}

/// The path of a file seen from its directory is its name.
pub proof fn law_files_are_below_their_directory(base: Seq<char>, name: Seq<char>)
    requires
        is_directory_text(base),
        is_plain_name(name),
    ensures
        below(base + "/"@ + name, base) == Some(name),
{
    reveal_strlit("/");
    let s = base + "/"@ + name;
    lemma_places_of_file(base, name);
    let n = places(base).len() as int;
    assert forall|k: int| 0 <= k < n implies #[trigger] components(s)[k] == components(base)[k] by {
        lemma_places_in_range(
            base,
            0,
            if is_absolute(base) {
                seq![(0int, 1int)]
            } else {
                Seq::empty()
            },
            k,
        );
        let (x, y) = places(base)[k];
        assert(places(s)[k] == places(base)[k]);
        assert(s.subrange(x, y) =~= base.subrange(x, y));
    }
    assert(s.subrange(base.len() as int + 1, base.len() as int + 1 + name.len()) =~= name);
}

proof fn lemma_last_dot(s: Seq<char>, n: int, k: int)
    requires
        0 <= k < n <= s.len(),
        s[k] == '.',
        forall|j: int| k < j < n ==> #[trigger] s[j] != '.',
    ensures
        last_dot(s, n) == Some(k),
    decreases n,
{
    if k < n - 1 {
        lemma_last_dot(s, n - 1, k);
    }
}

proof fn lemma_no_dot(s: Seq<char>, n: int)
    requires
        0 <= n <= s.len(),
        forall|j: int| 0 <= j < n ==> #[trigger] s[j] != '.',
    ensures
        last_dot(s, n) is None,
    decreases n,
{
    if n > 0 {
        lemma_no_dot(s, n - 1);
    }
}

/// The extension of a file is what stands behind the last point of its name; a name without
/// a point has none.
pub proof fn law_extensions_follow_the_last_point(base: Seq<char>, stem: Seq<char>, ext: Seq<char>)
    requires
        is_directory_text(base),
        is_plain_name(stem),
        forall|k: int| 0 <= k < ext.len() ==> #[trigger] ext[k] != '.' && ext[k] != '/',
    ensures
        stem.last() != '.' || ext.len() > 0 ==> extension_of(
            base + "/"@ + (stem + seq!['.'] + ext),
        ) == Some(ext),
        (forall|k: int| 0 <= k < stem.len() ==> #[trigger] stem[k] != '.') ==> extension_of(
            base + "/"@ + stem,
        ) is None,
{
    reveal_strlit("..");
    let name = stem + seq!['.'] + ext;
    let n = stem.len() as int;
    assert forall|k: int| 0 <= k < name.len() implies #[trigger] name[k] != '/' by {
        if k < n {
            assert(name[k] == stem[k]);
        } else if k > n {
            assert(name[k] == ext[k - n - 1]);
        }
    }
    assert(name[n] == '.');
    assert(name.len() >= 2);
    law_files_are_in_their_directory(base, name);
    assert forall|j: int| n < j < name.len() implies #[trigger] name[j] != '.' by {
        assert(name[j] == ext[j - n - 1]);
    }
    lemma_last_dot(name, name.len() as int, n);
    assert(name.skip(n + 1) =~= ext);
    if name == ".."@ {
        assert(name.len() == 2 && n == 1 && ext.len() == 0);
        assert(name[0] == stem[0]);
        assert(stem.last() == '.');
    }
    law_files_are_in_their_directory(base, stem);
    if forall|k: int| 0 <= k < stem.len() ==> #[trigger] stem[k] != '.' {
        lemma_no_dot(stem, stem.len() as int);
    }
}

proof fn lemma_shared(a: Seq<Seq<char>>, b: Seq<Seq<char>>, i: int)
    requires
        0 <= i <= a.len(),
        i <= b.len(),
    ensures
        i <= shared_from(a, b, i) <= a.len(),
        shared_from(a, b, i) <= b.len(),
        forall|k: int| i <= k < shared_from(a, b, i) ==> #[trigger] a[k] == b[k],
        shared_from(a, b, i) < a.len() && shared_from(a, b, i) < b.len() ==> a[shared_from(a, b, i)]
            != b[shared_from(a, b, i)],
        shared_from(a, b, i) == shared_from(b, a, i),
    decreases a.len() - i,
{
    if i < a.len() && i < b.len() && a[i] == b[i] {
        lemma_shared(a, b, i + 1);
    }
}

/// Two paths have a directory above both exactly where their first parts are the same, and
/// it is made of all the parts that they share from the start on.
pub proof fn law_shared_directories_are_made_of_shared_parts(left: Seq<char>, right: Seq<char>)
    ensures
        shared_ancestor(left, right) is Some <==> components(left).len() > 0 && components(
            right,
        ).len() > 0 && components(left)[0] == components(right)[0],
        ({
            let n = shared_from(components(left), components(right), 0);
            &&& 0 <= n <= components(left).len() && n <= components(right).len()
            &&& forall|k: int| 0 <= k < n ==> #[trigger] components(left)[k] == components(right)[k]
            &&& n < components(left).len() && n < components(right).len() ==> components(left)[n]
                != components(right)[n]
            &&& n == shared_from(components(right), components(left), 0)
        }),
{
    lemma_shared(components(left), components(right), 0);
    if shared_from(components(left), components(right), 0) > 0 {
        assert(components(left)[0] == components(right)[0]);
    }
}

proof fn lemma_places_before_dot(base: Seq<char>, i: int, acc: Seq<(int, int)>)
    requires
        is_directory_text(base),
        0 <= i <= base.len(),
    ensures
        places_from(base + "/."@, i, acc) == places_from(base, i, acc),
    decreases base.len() - i,
{
    reveal_strlit("/.");
    let s = base + "/."@;
    let b = base.len() as int;
    if i < b {
        assert(s[i] == base[i]);
        if base[i] == '/' {
            lemma_places_before_dot(base, i + 1, acc);
        } else {
            lemma_segment_plain(base, i);
            let e = segment_end(base, i);
            assert forall|k: int| i <= k < e implies #[trigger] s[k] != '/' by {
                assert(s[k] == base[k]);
            }
            if e < b {
                assert(s[e] == base[e]);
            } else {
                assert(s[e] == '/');
            }
            lemma_segment_at(s, i, e);
            lemma_segment_end(s, i);
            lemma_segment_end(base, i);
            assert(counts(s, i, e) == counts(base, i, e));
            if counts(base, i, e) {
                lemma_places_before_dot(base, e, acc.push((i, e)));
            } else {
                lemma_places_before_dot(base, e, acc);
            }
        }
    } else {
        assert(s[b] == '/' && s[b + 1] == '.');
        lemma_segment_at(s, b + 1, b + 2);
        lemma_segment_end(s, b + 1);
        assert(!counts(s, b + 1, b + 2));
        assert(places_from(s, b, acc) == places_from(s, b + 1, acc));
        assert(places_from(s, b + 1, acc) == places_from(s, b + 2, acc));
        assert(places_from(s, b + 2, acc) == acc);
    }
}

/// A point that stands for the directory itself, behind a directory, is no part of a path.
pub proof fn law_points_are_no_parts(base: Seq<char>)
    requires
        is_directory_text(base),
    ensures
        components(base + "/."@).len() == components(base).len(),
        places(base + "/."@) == places(base),
{
    reveal_strlit("/.");
    assert((base + "/."@)[0] == base[0]);
    lemma_places_before_dot(
        base,
        0,
        if is_absolute(base) {
            seq![(0int, 1int)]
        } else {
            Seq::empty()
        },
    );
}

/// A name that only starts with a point has no extension.
pub proof fn law_hidden_files_have_no_extension(base: Seq<char>, name: Seq<char>)
    requires
        is_directory_text(base),
        name.len() > 0,
        forall|k: int| 0 <= k < name.len() ==> #[trigger] name[k] != '.' && name[k] != '/',
    ensures
        extension_of(base + "/"@ + (seq!['.'] + name)) is None,
{
    let hidden = seq!['.'] + name;
    assert(hidden[0] == '.');
    assert forall|k: int| 0 <= k < hidden.len() implies #[trigger] hidden[k] != '/' by {
        if k > 0 {
            assert(hidden[k] == name[k - 1]);
        }
    }
    assert(hidden.len() >= 2);
    law_files_are_in_their_directory(base, hidden);
    assert forall|j: int| 0 < j < hidden.len() implies #[trigger] hidden[j] != '.' by {
        assert(hidden[j] == name[j - 1]);
    }
    lemma_last_dot(hidden, hidden.len() as int, 0);
}

// ---------------------------------------------------------------------------
// Characters

/// Blanks, tabulators and line breaks are white space, and so are the spaces that other
/// scripts have; letters, digits and the other printed characters of ASCII are not.
pub proof fn law_white_space_is_not_printed(c: char)
    ensures
        c == ' ' || c == '\t' || c == '\n' || c == '\r' || c == '\u{b}' || c == '\u{c}' ==> is_space(
            c,
        ),
        c == '\u{85}' || c == '\u{a0}' || c == '\u{1680}' || c == '\u{2028}' || c == '\u{2029}' || c
            == '\u{202f}' || c == '\u{205f}' || c == '\u{3000}' || '\u{2000}' <= c <= '\u{200a}'
            ==> is_space(c),
        '!' <= c <= '~' ==> !is_space(c),
        (c as int) < 9 || 14 <= (c as int) < 32 ==> !is_space(c),
        is_space(c) && (c as int) >= 128 ==> (c as int) == 0x85 || (c as int) == 0xa0 || (c as int)
            == 0x1680 || 0x2000 <= (c as int) <= 0x200a || (c as int) == 0x2028 || (c as int)
            == 0x2029 || (c as int) == 0x202f || (c as int) == 0x205f || (c as int) == 0x3000,
{
}

/// Letters are told by their case, and digits and letters are the characters of words.
pub proof fn law_letters_have_their_case(c: char)
    ensures
        is_upper(c) <==> 65 <= (c as int) <= 90,
        is_lower(c) <==> 97 <= (c as int) <= 122,
        is_digit(c) <==> 48 <= (c as int) <= 57,
        is_alnum(c) <==> is_upper(c) || is_lower(c) || is_digit(c),
{
}

/// A text that starts or ends with another is that other and the rest of it.
pub proof fn law_ends_are_parts_of_the_text(s: Seq<char>, w: Seq<char>)
    ensures
        has_prefix(s, w) ==> w.len() <= s.len() && s == w + s.skip(w.len() as int),
        has_suffix(s, w) ==> w.len() <= s.len() && s == s.take(s.len() - w.len()) + w,
        s.len() < w.len() ==> !has_prefix(s, w) && !has_suffix(s, w),
{
    if has_prefix(s, w) {
        assert(s =~= w + s.skip(w.len() as int));
    }
    if has_suffix(s, w) {
        assert(s =~= s.take(s.len() - w.len()) + w);
    }
}

/// A point that a path starts with is a part of it, in front of what follows.
pub proof fn law_leading_points_are_parts(name: Seq<char>)
    requires
        is_plain_name(name),
    ensures
        components(seq!['.', '/'] + name).len() == 2,
        components(seq!['.', '/'] + name)[0] == seq!['.'],
        components(seq!['.', '/'] + name)[1] == name,
{
    let s = seq!['.', '/'] + name;
    let none: Seq<(int, int)> = Seq::empty();
    let e = s.len() as int;
    assert(s[0] == '.' && s[1] == '/');
    lemma_segment_at(s, 0, 1);
    lemma_segment_end(s, 0);
    assert(counts(s, 0, 1));
    let one = none.push((0int, 1int));
    assert(places_from(s, 0, none) == places_from(s, 1, one));
    assert(places_from(s, 1, one) == places_from(s, 2, one));
    assert forall|k: int| 2 <= k < e implies #[trigger] s[k] != '/' by {
        assert(s[k] == name[k - 2]);
    }
    lemma_segment_at(s, 2, e);
    lemma_segment_end(s, 2);
    assert(s[2] == name[0]);
    if name.len() == 1 && name[0] == '.' {
        assert(name =~= seq!['.']);
    }
    assert(counts(s, 2, e));
    assert(places_from(s, 2, one) == places_from(s, e, one.push((2int, e))));
    assert(places_from(s, e, one.push((2int, e))) == one.push((2int, e)));
    assert(s.subrange(0, 1) =~= seq!['.']);
    assert(s.subrange(2, e) =~= name);
}

} // verus!
