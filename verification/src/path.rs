//! Paths as strings: components separated by `/`, as POSIX writes them.

use crate::text::{cat2, cat3, chars_of, lemma_views_push, same, string_of, views};
use vstd::prelude::*;

verus! {

pub open spec fn is_absolute(p: Seq<char>) -> bool {
    p.len() > 0 && p[0] == '/'
}

/// A path below a directory: an absolute path stands for itself.
pub open spec fn joined(base: Seq<char>, p: Seq<char>) -> Seq<char> {
    if is_absolute(p) || base.len() == 0 {
        p
    } else if base.last() == '/' {
        base + p
    } else {
        base + "/"@ + p
    }
}

/// The end of the component that starts at `i`.
pub open spec fn segment_end(s: Seq<char>, i: int) -> int
    decreases s.len() - i,
{
    if i < 0 || i >= s.len() || s[i] == '/' {
        i
    } else {
        segment_end(s, i + 1)
    }
}

pub proof fn lemma_segment_end(s: Seq<char>, i: int)
    ensures
        i <= segment_end(s, i),
        i <= s.len() ==> segment_end(s, i) <= s.len(),
        0 <= i < s.len() && s[i] != '/' ==> i < segment_end(s, i),
    decreases s.len() - i,
{
    if i < 0 || i >= s.len() || s[i] == '/' {
    } else {
        lemma_segment_end(s, i + 1);
    }
}

/// Whether the component `s[i..e]` counts: a `.` does so only at the start of the path.
pub open spec fn counts(s: Seq<char>, i: int, e: int) -> bool {
    !(i > 0 && e == i + 1 && s[i] == '.')
}

/// The places of the components from `i` on, behind those in `acc`.
pub open spec fn places_from(s: Seq<char>, i: int, acc: Seq<(int, int)>) -> Seq<(int, int)>
    decreases s.len() - i,
{
    proof {
        lemma_segment_end(s, i);
    }
    if i < 0 || i >= s.len() {
        acc
    } else if s[i] == '/' {
        places_from(s, i + 1, acc)
    } else {
        let e = segment_end(s, i);
        if counts(s, i, e) {
            places_from(s, e, acc.push((i, e)))
        } else {
            places_from(s, e, acc)
        }
    }
}

/// The places of the components of a path; the root is the component at its front.
pub open spec fn places(s: Seq<char>) -> Seq<(int, int)> {
    places_from(
        s,
        0,
        if is_absolute(s) {
            seq![(0int, 1int)]
        } else {
            Seq::empty()
        },
    )
}

/// The components of a path.
pub open spec fn components(s: Seq<char>) -> Seq<Seq<char>> {
    Seq::new(places(s).len(), |k: int| s.subrange(places(s)[k].0, places(s)[k].1))
}

/// Whether the first `n` components of two paths agree.
pub open spec fn agree(a: Seq<Seq<char>>, b: Seq<Seq<char>>, n: int) -> bool {
    n <= a.len() && n <= b.len() && forall|k: int| 0 <= k < n ==> #[trigger] a[k] == b[k]
}

/// What is left of a path below a directory.
pub open spec fn below(path: Seq<char>, base: Seq<char>) -> Option<Seq<char>> {
    let n = components(base).len() as int;
    if !agree(components(path), components(base), n) {
        None
    } else if n == components(path).len() {
        Some(Seq::empty())
    } else {
        Some(path.subrange(places(path)[n].0, places(path).last().1))
    }
}

/// Whether a path has a parent: some component other than the root.
pub open spec fn has_parent(p: Seq<char>) -> bool {
    components(p).len() > 0 && !(components(p).len() == 1 && is_absolute(p))
}

pub fn path_is_absolute(p: &str) -> (r: bool)
    ensures
        r == is_absolute(p@),
{
    let v = chars_of(p);
    v.len() > 0 && v[0] == '/'
}

/// A path below a directory.
pub fn path_join(base: &str, p: &str) -> (r: String)
    ensures
        r@ == joined(base@, p@),
{
    let b = chars_of(base);
    if path_is_absolute(p) || b.len() == 0 {
        p.to_owned()
    } else if b[b.len() - 1] == '/' {
        cat2(base, p)
    } else {
        cat3(base, "/", p)
    }
}

fn scan_segment_end(s: &Vec<char>, i: usize) -> (r: usize)
    requires
        i <= s@.len(),
    ensures
        r == segment_end(s@, i as int),
        i <= r <= s@.len(),
{
    let mut k: usize = i;
    while k < s.len() && s[k] != '/'
        invariant
            i <= k <= s@.len(),
            segment_end(s@, i as int) == segment_end(s@, k as int),
        decreases s@.len() - k,
    {
        k = k + 1;
    }
    k
}

/// Machine places as mathematical ones.
spec fn places_view(v: Seq<(usize, usize)>) -> Seq<(int, int)> {
    Seq::new(v.len(), |k: int| (v[k].0 as int, v[k].1 as int))
}

fn find_places(s: &Vec<char>) -> (r: Vec<(usize, usize)>)
    ensures
        places_view(r@) == places(s@),
        forall|k: int| 0 <= k < r@.len() ==> (#[trigger] r@[k]).0 <= r@[k].1 <= s@.len(),
        forall|j: int, k: int|
            0 <= j <= k < r@.len() ==> (#[trigger] r@[j]).0 <= (#[trigger] r@[k]).1,
{
    let mut out: Vec<(usize, usize)> = Vec::new();
    if s.len() > 0 && s[0] == '/' {
        out.push((0, 1));
        assert(places_view(out@) =~= seq![(0int, 1int)]);
    } else {
        assert(places_view(out@) =~= Seq::<(int, int)>::empty());
    }
    let mut i: usize = 0;
    while i < s.len()
        invariant
            i <= s@.len(),
            places(s@) == places_from(s@, i as int, places_view(out@)),
            forall|k: int| 0 <= k < out@.len() ==> (#[trigger] out@[k]).0 <= out@[k].1 <= s@.len(),
            forall|k: int| 0 <= k < out@.len() ==> (#[trigger] out@[k]).0 <= i,
            forall|j: int, k: int|
                0 <= j <= k < out@.len() ==> (#[trigger] out@[j]).0 <= (#[trigger] out@[k]).1,
        decreases s@.len() - i,
    {
        if s[i] == '/' {
            i = i + 1;
        } else {
            let e = scan_segment_end(s, i);
            proof {
                lemma_segment_end(s@, i as int);
            }
            let dot = i > 0 && e - i == 1 && s[i] == '.';
            if !dot {
                proof {
                    assert(places_view(out@.push((i, e))) =~= places_view(out@).push(
                        (i as int, e as int),
                    ));
                }
                out.push((i, e));
            }
            i = e;
        }
    }
    out
}

/// The components of a path.
pub fn path_components(p: &str) -> (r: Vec<String>)
    ensures
        views(r@) == components(p@),
{
    let s = chars_of(p);
    let at = find_places(&s);
    let mut out: Vec<String> = Vec::new();
    let mut k: usize = 0;
    assert(views(out@) =~= components(p@).take(0));
    while k < at.len()
        invariant
            s@ == p@,
            k <= at@.len(),
            places_view(at@) == places(p@),
            forall|k: int| 0 <= k < at@.len() ==> (#[trigger] at@[k]).0 <= at@[k].1 <= s@.len(),
            views(out@) == components(p@).take(k as int),
        decreases at@.len() - k,
    {
        let c = string_of(&s, at[k].0, at[k].1);
        proof {
            assert(places_view(at@)[k as int] == places(p@)[k as int]);
            assert(components(p@)[k as int] == c@);
            lemma_views_push(out@, c);
            assert(components(p@).take(k as int + 1) =~= components(p@).take(k as int).push(c@));
        }
        out.push(c);
        k = k + 1;
    }
    assert(components(p@).take(places(p@).len() as int) =~= components(p@));
    out
}

/// What is left of a path below a directory.
pub fn path_strip_prefix(path: &str, base: &str) -> (r: Option<String>)
    ensures
        match r {
            Some(rest) => below(path@, base@) == Some(rest@),
            None => below(path@, base@) is None,
        },
{
    let a = path_components(path);
    let b = path_components(base);
    assert(views(a@).len() == a@.len() && views(b@).len() == b@.len());
    if b.len() > a.len() {
        return None;
    }
    let mut k: usize = 0;
    while k < b.len()
        invariant
            views(a@) == components(path@),
            views(b@) == components(base@),
            k <= b@.len() <= a@.len(),
            forall|j: int| 0 <= j < k ==> #[trigger] components(path@)[j] == components(base@)[j],
        decreases b@.len() - k,
    {
        assert(components(path@)[k as int] == a@[k as int]@);
        assert(components(base@)[k as int] == b@[k as int]@);
        if !same(&a[k], &b[k]) {
            return None;
        }
        k = k + 1;
    }
    if b.len() == a.len() {
        let empty = String::new();
        assert(empty@ =~= Seq::<char>::empty());
        return Some(empty);
    }
    let s = chars_of(path);
    let at = find_places(&s);
    let n: usize = b.len();
    proof {
        assert(places_view(at@).len() == places(path@).len());
        assert(components(path@).len() == places(path@).len());
        assert(places_view(at@)[n as int] == places(path@)[n as int]);
        assert(places_view(at@).last() == places(path@).last());
    }
    let last: usize = at.len() - 1;
    Some(string_of(&s, at[n].0, at[last].1))
}

/// Whether a path has a parent.
pub fn path_has_parent(p: &str) -> (r: bool)
    ensures
        r == has_parent(p@),
{
    let c = path_components(p);
    assert(views(c@).len() == c@.len());
    c.len() > 0 && !(c.len() == 1 && path_is_absolute(p))
}

/// The directory that holds a path.
pub open spec fn parent_of(p: Seq<char>) -> Option<Seq<char>> {
    let n = places(p).len();
    if !has_parent(p) {
        None
    } else if n == 1 {
        Some(Seq::empty())
    } else {
        Some(p.subrange(0, places(p)[n - 2].1))
    }
}

/// The directory that holds a path.
pub fn path_parent(p: &str) -> (r: Option<String>)
    ensures
        match r {
            Some(d) => parent_of(p@) == Some(d@),
            None => parent_of(p@) is None,
        },
{
    if !path_has_parent(p) {
        return None;
    }
    let s = chars_of(p);
    let at = find_places(&s);
    assert(places_view(at@).len() == places(p@).len());
    if at.len() == 1 {
        let empty = String::new();
        assert(empty@ =~= Seq::<char>::empty());
        return Some(empty);
    }
    let k: usize = at.len() - 2;
    assert(places_view(at@)[k as int] == places(p@)[k as int]);
    Some(string_of(&s, 0, at[k].1))
}

/// The position of the last `.` before `n`.
pub open spec fn last_dot(s: Seq<char>, n: int) -> Option<int>
    decreases n,
{
    if n <= 0 || n > s.len() {
        None
    } else if s[n - 1] == '.' {
        Some(n - 1)
    } else {
        last_dot(s, n - 1)
    }
}

/// The extension of a file name: what follows its last `.`, unless that is its first
/// character.
pub open spec fn name_extension(name: Seq<char>) -> Option<Seq<char>> {
    match last_dot(name, name.len() as int) {
        Some(k) => if k == 0 || name == ".."@ {
            None
        } else {
            Some(name.skip(k + 1))
        },
        None => None,
    }
}

/// The extension of the file that a path names.
pub open spec fn extension_of(p: Seq<char>) -> Option<Seq<char>> {
    if !has_parent(p) {
        None
    } else {
        name_extension(components(p).last())
    }
}

proof fn lemma_last_dot(s: Seq<char>, n: int)
    ensures
        last_dot(s, n) matches Some(k) ==> 0 <= k < n <= s.len() && s[k] == '.',
    decreases n,
{
    if n <= 0 || n > s.len() {
    } else if s[n - 1] == '.' {
    } else {
        lemma_last_dot(s, n - 1);
    }
}

/// The extension of the file that a path names.
pub fn path_extension(p: &str) -> (r: Option<String>)
    ensures
        match r {
            Some(e) => extension_of(p@) == Some(e@),
            None => extension_of(p@) is None,
        },
{
    if !path_has_parent(p) {
        return None;
    }
    let parts = path_components(p);
    assert(views(parts@).len() == parts@.len());
    let name = &parts[parts.len() - 1];
    assert(components(p@).last() == name@);
    let v = chars_of(name);
    let mut n: usize = v.len();
    while n > 0 && v[n - 1] != '.'
        invariant
            v@ == name@,
            n <= v@.len(),
            last_dot(name@, name@.len() as int) == last_dot(name@, n as int),
        decreases n,
    {
        n = n - 1;
    }
    if n <= 1 || same(name, "..") {
        return None;
    }
    let e = string_of(&v, n, v.len());
    assert(e@ =~= name@.skip(n as int));
    Some(e)
}

/// The path made of the first `n` components.
pub open spec fn rebuilt(c: Seq<Seq<char>>, n: int) -> Seq<char>
    decreases n,
{
    if n <= 0 {
        Seq::empty()
    } else {
        joined(rebuilt(c, n - 1), c[n - 1])
    }
}

/// How many components two paths share at their front, from `i` on.
pub open spec fn shared_from(a: Seq<Seq<char>>, b: Seq<Seq<char>>, i: int) -> int
    decreases a.len() - i,
{
    if i < 0 || i >= a.len() || i >= b.len() || a[i] != b[i] {
        i
    } else {
        shared_from(a, b, i + 1)
    }
}

/// The longest path that two paths both start with.
pub open spec fn shared_ancestor(left: Seq<char>, right: Seq<char>) -> Option<Seq<char>> {
    let n = shared_from(components(left), components(right), 0);
    if n == 0 {
        None
    } else {
        Some(rebuilt(components(left), n))
    }
}

/// The longest path that two paths both start with.
pub fn common_ancestor(left: &str, right: &str) -> (r: Option<String>)
    ensures
        match r {
            Some(p) => shared_ancestor(left@, right@) == Some(p@),
            None => shared_ancestor(left@, right@) is None,
        },
{
    let a = path_components(left);
    let b = path_components(right);
    let ghost ca = components(left@);
    let ghost cb = components(right@);
    let mut shared = String::new();
    let mut k: usize = 0;
    assert(shared@ =~= rebuilt(ca, 0));
    while k < a.len() && k < b.len() && same(&a[k], &b[k])
        invariant
            views(a@) == ca,
            views(b@) == cb,
            k <= a@.len(),
            k <= b@.len(),
            shared@ == rebuilt(ca, k as int),
            shared_from(ca, cb, 0) == shared_from(ca, cb, k as int),
        decreases a@.len() - k,
    {
        assert(ca[k as int] == a@[k as int]@);
        assert(cb[k as int] == b@[k as int]@);
        shared = path_join(&shared, &a[k]);
        k = k + 1;
    }
    proof {
        if k < a@.len() && k < b@.len() {
            assert(ca[k as int] == a@[k as int]@);
            assert(cb[k as int] == b@[k as int]@);
        }
    }
    if k == 0 {
        None
    } else {
        Some(shared)
    }
}

/// A relative path joined below a directory starts with that directory.
pub proof fn law_joined_path_starts_with_its_directory(base: Seq<char>, p: Seq<char>)
    requires
        !is_absolute(p),
    ensures
        is_absolute(base) ==> is_absolute(joined(base, p)),
        base.len() <= joined(base, p).len(),
        joined(base, p).take(base.len() as int) == base,
{
    reveal_strlit("/");
    if base.len() == 0 {
        assert(p.take(0) =~= base);
    } else {
        assert(joined(base, p).take(base.len() as int) =~= base);
    }
}

} // verus!
