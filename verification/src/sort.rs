//! Stable sorting.

use crate::text::{chars_of, views};
use vstd::prelude::*;

verus! {

/// Values with a ranking: a total preorder on their views.
pub trait Ranked: View + Sized {
    /// Whether `a` ranks no later than `b`.
    spec fn ranks_before(a: Self::V, b: Self::V) -> bool;

    proof fn ranking_is_total(a: Self::V, b: Self::V)
        ensures
            Self::ranks_before(a, b) || Self::ranks_before(b, a),
    ;

    proof fn ranking_is_transitive(a: Self::V, b: Self::V, c: Self::V)
        requires
            Self::ranks_before(a, b),
            Self::ranks_before(b, c),
        ensures
            Self::ranks_before(a, c),
    ;

    fn at_most(&self, other: &Self) -> (r: bool)
        ensures
            r == Self::ranks_before(self@, other@),
    ;
}

/// Places `x` behind every element that ranks no later than it.
pub open spec fn placed<T: Ranked>(s: Seq<T::V>, x: T::V) -> Seq<T::V>
    decreases s.len(),
{
    if s.len() == 0 || T::ranks_before(s.last(), x) {
        s.push(x)
    } else {
        placed::<T>(s.drop_last(), x).push(s.last())
    }
}

/// The stable sort of a sequence: its elements are placed one by one, in order.
pub open spec fn stably_sorted<T: Ranked>(s: Seq<T::V>) -> Seq<T::V>
    decreases s.len(),
{
    if s.len() == 0 {
        s
    } else {
        placed::<T>(stably_sorted::<T>(s.drop_last()), s.last())
    }
}

/// Whether each element ranks no later than those behind it.
pub open spec fn in_rank_order<T: Ranked>(s: Seq<T::V>) -> bool {
    forall|i: int, j: int|
        0 <= i < j < s.len() ==> T::ranks_before(#[trigger] s[i], #[trigger] s[j])
}

/// Placing an element keeps the order, and adds that element and no other.
proof fn lemma_placed<T: Ranked>(s: Seq<T::V>, x: T::V)
    requires
        in_rank_order::<T>(s),
    ensures
        in_rank_order::<T>(placed::<T>(s, x)),
        placed::<T>(s, x).to_multiset() == s.to_multiset().insert(x),
        forall|y: T::V|
            placed::<T>(s, x).contains(y) ==> #[trigger] s.contains(y) || y == x,
    decreases s.len(),
{
    broadcast use vstd::seq_lib::group_to_multiset_ensures;

    let p = placed::<T>(s, x);
    if s.len() == 0 {
    } else if T::ranks_before(s.last(), x) {
        assert forall|i: int, j: int| 0 <= i < j < p.len() implies T::ranks_before(
            #[trigger] p[i],
            #[trigger] p[j],
        ) by {
            if j == s.len() && i < s.len() - 1 {
                T::ranking_is_transitive(s[i], s.last(), x);
            }
        }
        assert forall|y: T::V| p.contains(y) implies #[trigger] s.contains(y) || y == x by {
            let i = choose|i: int| 0 <= i < p.len() && p[i] == y;
            if i < s.len() {
                assert(s[i] == y);
            }
        }
    } else {
        let init = s.drop_last();
        let q = placed::<T>(init, x);
        lemma_placed::<T>(init, x);
        T::ranking_is_total(s.last(), x);
        assert forall|i: int, j: int| 0 <= i < j < p.len() implies T::ranks_before(
            #[trigger] p[i],
            #[trigger] p[j],
        ) by {
            if j == q.len() {
                assert(q.contains(q[i]));
                if init.contains(q[i]) {
                    let k = choose|k: int| 0 <= k < init.len() && init[k] == q[i];
                    assert(s[k] == q[i]);
                    assert(s.last() == s[s.len() - 1]);
                }
            }
        }
        assert(s =~= init.push(s.last()));
        assert(p.to_multiset() =~= s.to_multiset().insert(x));
        assert forall|y: T::V| p.contains(y) implies #[trigger] s.contains(y) || y == x by {
            let i = choose|i: int| 0 <= i < p.len() && p[i] == y;
            if i < q.len() {
                assert(q.contains(q[i]));
                if init.contains(y) {
                    let k = choose|k: int| 0 <= k < init.len() && init[k] == y;
                    assert(s[k] == y);
                }
            } else {
                assert(s[s.len() - 1] == y);
            }
        }
    }
}

/// Sorting puts the elements in order and keeps each of them, as often as it occurred.
pub proof fn law_sorting_orders_and_keeps<T: Ranked>(s: Seq<T::V>)
    ensures
        in_rank_order::<T>(stably_sorted::<T>(s)),
        stably_sorted::<T>(s).to_multiset() == s.to_multiset(),
        stably_sorted::<T>(s).len() == s.len(),
    decreases s.len(),
{
    broadcast use vstd::seq_lib::group_to_multiset_ensures;

    if s.len() > 0 {
        law_sorting_orders_and_keeps::<T>(s.drop_last());
        lemma_placed::<T>(stably_sorted::<T>(s.drop_last()), s.last());
        assert(s =~= s.drop_last().push(s.last()));
    }
    assert(stably_sorted::<T>(s).len() == stably_sorted::<T>(s).to_multiset().len());
    assert(s.len() == s.to_multiset().len());
}

/// A sequence that is already in order is left as it is.
pub proof fn law_sorting_keeps_what_is_in_order<T: Ranked>(s: Seq<T::V>)
    requires
        in_rank_order::<T>(s),
    ensures
        stably_sorted::<T>(s) == s,
    decreases s.len(),
{
    if s.len() > 0 {
        law_sorting_keeps_what_is_in_order::<T>(s.drop_last());
        let init = s.drop_last();
        if init.len() > 0 {
            assert(T::ranks_before(s[s.len() - 2], s[s.len() - 1]));
        }
        assert(s =~= init.push(s.last()));
    }
}

/// Where `x` goes in the ordered prefix: behind everything that ranks no later.
fn place<T: Ranked>(out: &Vec<T>, x: &T) -> (r: usize)
    ensures
        r <= out@.len(),
        views(out@).take(r as int).push(x@) + views(out@).skip(r as int) == placed::<T>(
            views(out@),
            x@,
        ),
{
    let mut k: usize = out.len();
    let ghost all = views(out@);
    proof {
        assert(all.take(k as int) =~= all);
        assert(all.skip(k as int) =~= Seq::<T::V>::empty());
        let p = placed::<T>(all, x@);
        assert(p + Seq::<T::V>::empty() =~= p);
    }
    while k > 0
        invariant
            k <= out@.len(),
            all == views(out@),
            placed::<T>(all.take(k as int), x@) + all.skip(k as int) == placed::<T>(all, x@),
        decreases k,
    {
        proof {
            assert(all.take(k as int).last() == out@[k - 1]@);
            assert(all.take(k as int).drop_last() =~= all.take(k - 1));
        }
        if out[k - 1].at_most(x) {
            return k;
        }
        proof {
            let p = placed::<T>(all.take(k - 1), x@);
            assert(p.push(all[k - 1]) + all.skip(k as int) =~= p + all.skip(k - 1));
        }
        k = k - 1;
    }
    assert(all.take(0).len() == 0);
    k
}

/// Sorts a vector, keeping the order of elements that rank alike.
pub fn stable_sort<T: Ranked>(v: Vec<T>) -> (r: Vec<T>)
    ensures
        views(r@) == stably_sorted::<T>(views(v@)),
{
    let mut out: Vec<T> = Vec::new();
    let ghost all = v@;
    for x in it: v
        invariant
            it.seq() == all,
            views(out@) == stably_sorted::<T>(views(all.take(it.index() as int))),
    {
        let ghost n = it.index() as int;
        let k = place(&out, &x);
        proof {
            assert(views(all.take(n + 1)).drop_last() =~= views(all.take(n)));
            assert(views(all.take(n + 1)).last() == x@);
            assert(views(out@.insert(k as int, x)) =~= views(out@).take(k as int).push(x@)
                + views(out@).skip(k as int));
        }
        out.insert(k, x);
    }
    assert(all.take(all.len() as int) =~= all);
    out
}

// ---------------------------------------------------------------------------
// The order of strings

/// The lexicographic order of character sequences.
pub open spec fn lex_le(a: Seq<char>, b: Seq<char>) -> bool
    decreases a.len(),
{
    if a.len() == 0 {
        true
    } else if b.len() == 0 {
        false
    } else if a[0] == b[0] {
        lex_le(a.skip(1), b.skip(1))
    } else {
        a[0] < b[0]
    }
}

proof fn lemma_lex_total(a: Seq<char>, b: Seq<char>)
    ensures
        lex_le(a, b) || lex_le(b, a),
    decreases a.len(),
{
    if a.len() > 0 && b.len() > 0 && a[0] == b[0] {
        lemma_lex_total(a.skip(1), b.skip(1));
    }
}

proof fn lemma_lex_transitive(a: Seq<char>, b: Seq<char>, c: Seq<char>)
    requires
        lex_le(a, b),
        lex_le(b, c),
    ensures
        lex_le(a, c),
    decreases a.len(),
{
    if a.len() > 0 && a[0] == b[0] && b[0] == c[0] {
        lemma_lex_transitive(a.skip(1), b.skip(1), c.skip(1));
    }
}

/// The lexicographic order is antisymmetric.
pub proof fn lemma_lex_antisymmetric(a: Seq<char>, b: Seq<char>)
    requires
        lex_le(a, b),
        lex_le(b, a),
    ensures
        a == b,
    decreases a.len(),
{
    if a.len() > 0 && b.len() > 0 {
        lemma_lex_antisymmetric(a.skip(1), b.skip(1));
        assert(a =~= seq![a[0]] + a.skip(1));
        assert(b =~= seq![b[0]] + b.skip(1));
    } else {
        assert(a =~= b);
    }
}

/// Compares two strings lexicographically.
pub fn str_le(a: &str, b: &str) -> (r: bool)
    ensures
        r == lex_le(a@, b@),
{
    let x = chars_of(a);
    let y = chars_of(b);
    let mut i: usize = 0;
    assert(a@.skip(0) =~= a@ && b@.skip(0) =~= b@);
    while i < x.len() && i < y.len()
        invariant
            x@ == a@,
            y@ == b@,
            i <= x@.len(),
            i <= y@.len(),
            lex_le(a@, b@) == lex_le(a@.skip(i as int), b@.skip(i as int)),
        decreases x@.len() - i,
    {
        proof {
            assert(a@.skip(i as int).skip(1) =~= a@.skip(i as int + 1));
            assert(b@.skip(i as int).skip(1) =~= b@.skip(i as int + 1));
        }
        if x[i] != y[i] {
            return x[i] < y[i];
        }
        i = i + 1;
    }
    i >= x.len()
}

impl Ranked for String {
    open spec fn ranks_before(a: Seq<char>, b: Seq<char>) -> bool {
        lex_le(a, b)
    }

    proof fn ranking_is_total(a: Seq<char>, b: Seq<char>) {
        lemma_lex_total(a, b);
    }

    proof fn ranking_is_transitive(a: Seq<char>, b: Seq<char>, c: Seq<char>) {
        lemma_lex_transitive(a, b, c);
    }

    fn at_most(&self, other: &String) -> (r: bool) {
        str_le(self, other)
    }
}

} // verus!
