//! What the layer operations promise together.

use vstd::prelude::*;
use crate::element::ElementV;
use crate::ids::ElementId;
use crate::scene::{
    can_rise, can_sink, lies_above, lies_below, listed, lowered, not, raised, to_back, to_front,
};

verus! {

proof fn lemma_filter_push<T>(s: Seq<T>, x: T, p: spec_fn(T) -> bool)
    ensures
        s.push(x).filter(p) == (if p(x) {
            s.filter(p).push(x)
        } else {
            s.filter(p)
        }),
{
    reveal(Seq::filter);
    assert(s.push(x).drop_last() =~= s);
}

proof fn lemma_filter_one<T>(x: T, p: spec_fn(T) -> bool)
    ensures
        seq![x].filter(p) == (if p(x) {
            seq![x]
        } else {
            Seq::empty()
        }),
{
    let e = Seq::<T>::empty();
    assert(e.filter(p) =~= e) by {
        reveal(Seq::filter);
    }
    lemma_filter_push(e, x, p);
    assert(seq![x] =~= e.push(x));
}

/// A filter that keeps everything is the identity; one that keeps nothing leaves
/// nothing.
pub(crate) proof fn lemma_filter_all<T>(s: Seq<T>, p: spec_fn(T) -> bool, keep: bool)
    requires
        forall|i: int| 0 <= i < s.len() ==> p(#[trigger] s[i]) == keep,
    ensures
        s.filter(p) == (if keep {
            s
        } else {
            Seq::empty()
        }),
    decreases s.len(),
{
    reveal(Seq::filter);
    if s.len() > 0 {
        lemma_filter_all(s.drop_last(), p, keep);
        assert(s =~= s.drop_last().push(s.last()));
    } else {
        assert(s =~= Seq::empty());
    }
}

proof fn lemma_filter_members<T>(s: Seq<T>, p: spec_fn(T) -> bool)
    ensures
        forall|i: int| 0 <= i < s.filter(p).len() ==> p(#[trigger] s.filter(p)[i]),
        s.filter(p).len() <= s.len(),
    decreases s.len(),
{
    reveal(Seq::filter);
    if s.len() > 0 {
        lemma_filter_members(s.drop_last(), p);
    }
}

/// Filtering by `p` what was filtered by `p` or by its complement.
proof fn lemma_filter_again<T>(s: Seq<T>, p: spec_fn(T) -> bool)
    ensures
        s.filter(p).filter(p) == s.filter(p),
        s.filter(not(p)).filter(not(p)) == s.filter(not(p)),
        s.filter(not(p)).filter(p) == Seq::<T>::empty(),
        s.filter(p).filter(not(p)) == Seq::<T>::empty(),
{
    lemma_filter_members(s, p);
    lemma_filter_members(s, not(p));
    lemma_filter_all(s.filter(p), p, true);
    lemma_filter_all(s.filter(not(p)), not(p), true);
    lemma_filter_all(s.filter(not(p)), p, false);
    lemma_filter_all(s.filter(p), not(p), false);
}

proof fn lemma_raised_groups<T>(s: Seq<T>, p: spec_fn(T) -> bool, q: spec_fn(T) -> bool)
    requires
        q == p || q == not(p),
    ensures
        raised(s, p).filter(q) == s.filter(q),
        raised(s, p).len() == s.len(),
    decreases s.len(),
{
    if s.len() >= 2 {
        let t = raised(s.skip(1), p);
        lemma_raised_groups(s.skip(1), p, q);
        let x = seq![s[0]];
        assert(s =~= x + s.skip(1));
        Seq::filter_distributes_over_add(x, s.skip(1), q);
        if p(s[0]) && !p(t[0]) {
            let y = seq![t[0]];
            let rest = t.skip(1);
            assert(t =~= y + rest);
            Seq::filter_distributes_over_add(y, rest, q);
            assert(raised(s, p) =~= y + (x + rest));
            Seq::filter_distributes_over_add(y, x + rest, q);
            Seq::filter_distributes_over_add(x, rest, q);
            lemma_filter_one(s[0], q);
            lemma_filter_one(t[0], q);
            assert(raised(s, p).filter(q) =~= s.filter(q));
        } else {
            Seq::filter_distributes_over_add(x, t, q);
        }
    }
}

proof fn lemma_lowered_groups<T>(s: Seq<T>, p: spec_fn(T) -> bool, q: spec_fn(T) -> bool)
    requires
        q == p || q == not(p),
    ensures
        lowered(s, p).filter(q) == s.filter(q),
        lowered(s, p).len() == s.len(),
    decreases s.len(),
{
    if s.len() >= 2 {
        let t = lowered(s.drop_last(), p);
        lemma_lowered_groups(s.drop_last(), p, q);
        let x = seq![s.last()];
        assert(s =~= s.drop_last() + x);
        Seq::filter_distributes_over_add(s.drop_last(), x, q);
        if p(s.last()) && !p(t.last()) {
            let y = seq![t.last()];
            let rest = t.drop_last();
            assert(t =~= rest + y);
            Seq::filter_distributes_over_add(rest, y, q);
            assert(lowered(s, p) =~= (rest + x) + y);
            Seq::filter_distributes_over_add(rest + x, y, q);
            Seq::filter_distributes_over_add(rest, x, q);
            lemma_filter_one(s.last(), q);
            lemma_filter_one(t.last(), q);
            assert(lowered(s, p).filter(q) =~= s.filter(q));
        } else {
            assert(lowered(s, p) =~= t + x);
            Seq::filter_distributes_over_add(t, x, q);
        }
    }
}

/// All four layer moves keep the relative order of the selected elements and
/// of the others; none gets lost or doubled.
pub proof fn law_layer_moves_keep_group_order<F>(s: Seq<ElementV<F>>, ids: Seq<ElementId>)
    ensures
        ({
            let p = listed::<F>(ids);
            &&& to_front(s, p).filter(p) == s.filter(p)
            &&& to_front(s, p).filter(not(p)) == s.filter(not(p))
            &&& to_back(s, p).filter(p) == s.filter(p)
            &&& to_back(s, p).filter(not(p)) == s.filter(not(p))
            &&& raised(s, p).filter(p) == s.filter(p)
            &&& raised(s, p).filter(not(p)) == s.filter(not(p))
            &&& lowered(s, p).filter(p) == s.filter(p)
            &&& lowered(s, p).filter(not(p)) == s.filter(not(p))
        }),
{
    let p = listed::<F>(ids);
    lemma_filter_again(s, p);
    Seq::filter_distributes_over_add(s.filter(not(p)), s.filter(p), p);
    Seq::filter_distributes_over_add(s.filter(not(p)), s.filter(p), not(p));
    Seq::filter_distributes_over_add(s.filter(p), s.filter(not(p)), p);
    Seq::filter_distributes_over_add(s.filter(p), s.filter(not(p)), not(p));
    assert(to_front(s, p).filter(p) =~= s.filter(p));
    assert(to_front(s, p).filter(not(p)) =~= s.filter(not(p)));
    assert(to_back(s, p).filter(p) =~= s.filter(p));
    assert(to_back(s, p).filter(not(p)) =~= s.filter(not(p)));
    lemma_raised_groups(s, p, p);
    lemma_raised_groups(s, p, not(p));
    lemma_lowered_groups(s, p, p);
    lemma_lowered_groups(s, p, not(p));
}

proof fn lemma_raised_fixed<T>(s: Seq<T>, p: spec_fn(T) -> bool)
    ensures
        raised(s, p).len() == s.len(),
        can_rise(s, p) <==> raised(s, p) != s,
        s.len() > 0 && !p(s[0]) ==> raised(s, p)[0] == s[0],
    decreases s.len(),
{
    if s.len() >= 2 {
        let u = s.skip(1);
        let t = raised(u, p);
        lemma_raised_fixed(u, p);
        if p(s[0]) && !p(t[0]) {
            assert(raised(s, p)[0] == t[0]);
            assert(raised(s, p) != s);
            if !can_rise(s, p) {
                assert(p(s[0]) ==> p(s[1]));
                if can_rise(u, p) {
                    let i = choose|i: int| 0 <= i < u.len() - 1 && p(#[trigger] u[i]) && !p(u[i + 1]);
                    assert(p(s[i + 1]) && !p(s[i + 1 + 1]));
                }
                assert(t == u);
                assert(t[0] == s[1]);
            }
        } else {
            assert(raised(s, p).skip(1) =~= t);
            assert(s =~= seq![s[0]] + u);
            if can_rise(s, p) {
                let i = choose|i: int| 0 <= i < s.len() - 1 && p(#[trigger] s[i]) && !p(s[i + 1]);
                if i == 0 {
                    assert(u[0] == s[1]);
                    assert(!p(u[0]));
                } else {
                    assert(p(u[i - 1]) && !p(u[i - 1 + 1]));
                }
            }
            if can_rise(u, p) {
                let i = choose|i: int| 0 <= i < u.len() - 1 && p(#[trigger] u[i]) && !p(u[i + 1]);
                assert(p(s[i + 1]) && !p(s[i + 1 + 1]));
                assert(raised(s, p).skip(1) != s.skip(1));
            }
        }
    }
}

proof fn lemma_lowered_fixed<T>(s: Seq<T>, p: spec_fn(T) -> bool)
    ensures
        lowered(s, p).len() == s.len(),
        can_sink(s, p) <==> lowered(s, p) != s,
        s.len() > 0 && !p(s.last()) ==> lowered(s, p).last() == s.last(),
    decreases s.len(),
{
    if s.len() >= 2 {
        let u = s.drop_last();
        let t = lowered(u, p);
        let n = s.len() - 1;
        lemma_lowered_fixed(u, p);
        if p(s.last()) && !p(t.last()) {
            assert(lowered(s, p)[n] == t.last());
            assert(lowered(s, p) != s);
            if !can_sink(s, p) {
                assert(p(s[n]) ==> p(s[n - 1]));
                if can_sink(u, p) {
                    let i = choose|i: int| 0 < i < u.len() && p(#[trigger] u[i]) && !p(u[i - 1]);
                    assert(p(s[i]) && !p(s[i - 1]));
                }
                assert(t == u);
                assert(t.last() == s[n - 1]);
            }
        } else {
            assert(lowered(s, p).drop_last() =~= t);
            assert(s =~= u.push(s.last()));
            if can_sink(s, p) {
                let i = choose|i: int| 0 < i < s.len() && p(#[trigger] s[i]) && !p(s[i - 1]);
                if i == n {
                    assert(u.last() == s[n - 1]);
                } else {
                    assert(p(u[i]) && !p(u[i - 1]));
                }
            }
            if can_sink(u, p) {
                let i = choose|i: int| 0 < i < u.len() && p(#[trigger] u[i]) && !p(u[i - 1]);
                assert(p(s[i]) && !p(s[i - 1]));
                assert(lowered(s, p).drop_last() != s.drop_last());
            }
        }
    }
}

/// Moving one layer up or down is offered exactly when it changes the order.
pub proof fn law_single_steps_are_offered_when_they_move<F>(
    s: Seq<ElementV<F>>,
    ids: Seq<ElementId>,
)
    ensures
        can_rise(s, listed(ids)) <==> raised(s, listed(ids)) != s,
        can_sink(s, listed(ids)) <==> lowered(s, listed(ids)) != s,
{
    lemma_raised_fixed(s, listed::<F>(ids));
    lemma_lowered_fixed(s, listed::<F>(ids));
}

proof fn lemma_push_equal<T>(a: Seq<T>, b: Seq<T>, x: T)
    ensures
        a.push(x) == b.push(x) <==> a == b,
{
    if a.push(x) == b.push(x) {
        assert(a =~= a.push(x).drop_last());
        assert(b =~= b.push(x).drop_last());
    }
}

proof fn lemma_last_of_filter<T>(s: Seq<T>, p: spec_fn(T) -> bool)
    requires
        s.filter(p).len() > 0,
    ensures
        p(s.filter(p).last()),
        p(s.filter(p)[0]),
{
    s.lemma_filter_pred(p, s.filter(p).len() - 1);
    s.lemma_filter_pred(p, 0);
}

proof fn lemma_some_left<T>(s: Seq<T>, p: spec_fn(T) -> bool)
    requires
        s.filter(p).len() > 0,
    ensures
        exists|i: int| 0 <= i < s.len() && p(#[trigger] s[i]),
    decreases s.len(),
{
    reveal(Seq::filter);
    if s.len() > 0 {
        if p(s.last()) {
            assert(p(s[s.len() - 1]));
        } else {
            lemma_some_left(s.drop_last(), p);
            let i = choose|i: int| 0 <= i < s.drop_last().len() && p(#[trigger] s.drop_last()[i]);
            assert(p(s[i]));
        }
    }
}

/// The number of items at the top that satisfy `p` without a gap.
spec fn top_run<T>(s: Seq<T>, p: spec_fn(T) -> bool) -> nat
    decreases s.len(),
{
    if s.len() == 0 || !p(s.last()) {
        0
    } else {
        1 + top_run(s.drop_last(), p)
    }
}

/// The number of items at the bottom that satisfy `p` without a gap.
spec fn bottom_run<T>(s: Seq<T>, p: spec_fn(T) -> bool) -> nat
    decreases s.len(),
{
    if s.len() == 0 || !p(s[0]) {
        0
    } else {
        1 + bottom_run(s.skip(1), p)
    }
}

proof fn lemma_top_run<T>(s: Seq<T>, p: spec_fn(T) -> bool)
    ensures
        top_run(s, p) <= s.filter(p).len(),
        top_run(s, p) == s.filter(p).len() <==> to_front(s, p) == s,
    decreases s.len(),
{
    if s.len() == 0 {
        assert(s.filter(p) =~= s) by {
            reveal(Seq::filter);
        }
        assert(s.filter(not(p)) =~= s) by {
            reveal(Seq::filter);
        }
        assert(to_front(s, p) =~= s);
    } else {
        let d = s.drop_last();
        let x = s.last();
        let f = d.filter(p);
        let n = d.filter(not(p));
        lemma_top_run(d, p);
        assert(s =~= d.push(x));
        lemma_filter_push(d, x, p);
        lemma_filter_push(d, x, not(p));
        if p(x) {
            assert(n + f.push(x) =~= (n + f).push(x));
            lemma_push_equal(n + f, d, x);
        } else if f.len() == 0 {
            lemma_none_left(d, p);
            assert(n.push(x) + f =~= d.push(x));
        } else {
            lemma_last_of_filter(d, p);
            assert((n.push(x) + f).last() == f.last());
        }
    }
}

proof fn lemma_below_top_run<T>(s: Seq<T>, p: spec_fn(T) -> bool)
    ensures
        lies_below(s, p) <==> top_run(s, p) < s.filter(p).len(),
    decreases s.len(),
{
    if s.len() == 0 {
        assert(s.filter(p).len() == 0) by {
            reveal(Seq::filter);
        }
    } else {
        let d = s.drop_last();
        lemma_below_top_run(d, p);
        assert(s =~= d.push(s.last()));
        lemma_filter_push(d, s.last(), p);
        if lies_below(s, p) {
            let (i, j) = choose|i: int, j: int|
                0 <= i < j < s.len() && p(#[trigger] s[i]) && !p(#[trigger] s[j]);
            assert(p(d[i]));
            if j < d.len() {
                assert(!p(d[j]));
            }
            d.lemma_filter_contains(p, i);
        }
        if top_run(s, p) < s.filter(p).len() {
            if p(s.last()) {
                let (i, j) = choose|i: int, j: int|
                    0 <= i < j < d.len() && p(#[trigger] d[i]) && !p(#[trigger] d[j]);
                assert(p(s[i]) && !p(s[j]));
            } else {
                lemma_some_left(d, p);
                let i = choose|i: int| 0 <= i < d.len() && p(#[trigger] d[i]);
                assert(p(s[i]) && !p(s[s.len() - 1]));
            }
        }
    }
}

proof fn lemma_above_bottom_run<T>(s: Seq<T>, p: spec_fn(T) -> bool)
    ensures
        lies_above(s, p) <==> bottom_run(s, p) < s.filter(p).len(),
    decreases s.len(),
{
    if s.len() == 0 {
        assert(s.filter(p).len() == 0) by {
            reveal(Seq::filter);
        }
    } else {
        let d = s.skip(1);
        lemma_above_bottom_run(d, p);
        assert(s =~= seq![s[0]] + d);
        Seq::filter_distributes_over_add(seq![s[0]], d, p);
        lemma_filter_one(s[0], p);
        if lies_above(s, p) {
            let (i, j) = choose|i: int, j: int|
                0 <= j < i < s.len() && p(#[trigger] s[i]) && !p(#[trigger] s[j]);
            assert(p(d[i - 1]));
            if j > 0 {
                assert(!p(d[j - 1]));
            }
            d.lemma_filter_contains(p, i - 1);
        }
        if bottom_run(s, p) < s.filter(p).len() {
            if p(s[0]) {
                let (i, j) = choose|i: int, j: int|
                    0 <= j < i < d.len() && p(#[trigger] d[i]) && !p(#[trigger] d[j]);
                assert(p(s[i + 1]) && !p(s[j + 1]));
            } else {
                lemma_some_left(d, p);
                let i = choose|i: int| 0 <= i < d.len() && p(#[trigger] d[i]);
                assert(p(s[i + 1]) && !p(s[0]));
            }
        }
    }
}

proof fn lemma_none_left<T>(s: Seq<T>, p: spec_fn(T) -> bool)
    requires
        s.filter(p).len() == 0,
    ensures
        s.filter(not(p)) == s,
        forall|i: int| 0 <= i < s.len() ==> !p(#[trigger] s[i]),
    decreases s.len(),
{
    reveal(Seq::filter);
    if s.len() > 0 {
        lemma_none_left(s.drop_last(), p);
        assert(s =~= s.drop_last().push(s.last()));
        assert forall|i: int| 0 <= i < s.len() implies !p(#[trigger] s[i]) by {
            if i < s.len() - 1 {
                assert(s.drop_last()[i] == s[i]);
            }
        }
    } else {
        assert(s.filter(not(p)) =~= s);
    }
}

proof fn lemma_prepend_equal<T>(a: Seq<T>, b: Seq<T>, x: Seq<T>)
    ensures
        x + a == x + b <==> a == b,
{
    if x + a == x + b {
        assert(a =~= (x + a).skip(x.len() as int));
        assert(b =~= (x + b).skip(x.len() as int));
    }
}

proof fn lemma_bottom_run<T>(s: Seq<T>, p: spec_fn(T) -> bool)
    ensures
        bottom_run(s, p) <= s.filter(p).len(),
        bottom_run(s, p) == s.filter(p).len() <==> to_back(s, p) == s,
    decreases s.len(),
{
    if s.len() == 0 {
        assert(s.filter(p) =~= s) by {
            reveal(Seq::filter);
        }
        assert(s.filter(not(p)) =~= s) by {
            reveal(Seq::filter);
        }
        assert(to_back(s, p) =~= s);
    } else {
        let d = s.skip(1);
        let x = seq![s[0]];
        let f = d.filter(p);
        let n = d.filter(not(p));
        lemma_bottom_run(d, p);
        assert(s =~= x + d);
        Seq::filter_distributes_over_add(x, d, p);
        Seq::filter_distributes_over_add(x, d, not(p));
        lemma_filter_one(s[0], p);
        lemma_filter_one(s[0], not(p));
        if p(s[0]) {
            assert(Seq::<T>::empty() + n =~= n);
            assert((x + f) + n =~= x + (f + n));
            lemma_prepend_equal(f + n, d, x);
        } else {
            assert(Seq::<T>::empty() + f =~= f);
            if f.len() == 0 {
                lemma_none_left(d, p);
                assert(f + (x + n) =~= x + d);
            } else {
                lemma_last_of_filter(d, p);
                assert((f + (x + n))[0] == f[0]);
            }
        }
    }
}

proof fn lemma_front_fixed<T>(s: Seq<T>, p: spec_fn(T) -> bool)
    ensures
        lies_below(s, p) <==> to_front(s, p) != s,
{
    lemma_top_run(s, p);
    lemma_below_top_run(s, p);
}

proof fn lemma_back_fixed<T>(s: Seq<T>, p: spec_fn(T) -> bool)
    ensures
        lies_above(s, p) <==> to_back(s, p) != s,
{
    lemma_bottom_run(s, p);
    lemma_above_bottom_run(s, p);
}

/// Moving to the very top or bottom is offered exactly when it changes the
/// order, and never again right after it was done.
pub proof fn law_extremes_are_offered_when_they_move<F>(s: Seq<ElementV<F>>, ids: Seq<ElementId>)
    ensures
        lies_below(s, listed(ids)) <==> to_front(s, listed(ids)) != s,
        lies_above(s, listed(ids)) <==> to_back(s, listed(ids)) != s,
        !lies_below(to_front(s, listed(ids)), listed(ids)),
        !lies_above(to_back(s, listed(ids)), listed(ids)),
{
    let p = listed::<F>(ids);
    lemma_front_fixed(s, p);
    lemma_front_fixed(to_front(s, p), p);
    lemma_back_fixed(s, p);
    lemma_back_fixed(to_back(s, p), p);
    assert(to_front(to_front(s, p), p) == to_front(s, p) && to_back(to_back(s, p), p) == to_back(
        s,
        p,
    )) by {
        law_layer_moves_keep_group_order(s, ids);
    }
}

} // verus!
