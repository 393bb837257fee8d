//! Where the selection lies in the stack after it was moved there.

use vstd::prelude::*;
use crate::board::{layer_applies, layered, removed_each, BoardV, LayerOp};
use crate::board_laws::law_removal_takes_labels_along;
use crate::element::ElementV;
use crate::ids::ElementId;
use crate::scene::{
    listed, lowered, not, prefix_match, raised, to_back, to_front,
    unique_ids,
};
use crate::scene_laws::{
    law_extremes_are_offered_when_they_move, law_layer_moves_keep_group_order,
    law_single_steps_are_offered_when_they_move,
};

verus! {

/// Whether something selected lies at `i` and something else above it.
pub open spec fn covered<T>(s: Seq<T>, p: spec_fn(T) -> bool, i: int) -> bool {
    p(s[i]) && exists|j: int| i < j < s.len() && !p(#[trigger] s[j])
}

/// Whether something selected lies at `i` and something else below it.
pub open spec fn raisedless<T>(s: Seq<T>, p: spec_fn(T) -> bool, i: int) -> bool {
    p(s[i]) && exists|j: int| 0 <= j < i && !p(#[trigger] s[j])
}

proof fn lemma_raised<T>(s: Seq<T>, p: spec_fn(T) -> bool)
    ensures
        raised(s, p).len() == s.len(),
        (exists|j: int| 0 <= j < s.len() && !p(#[trigger] s[j])) ==> !p(raised(s, p)[0]),
        forall|i: int|
            0 <= i < s.len() && #[trigger] covered(s, p, i) ==> i + 1 < s.len() && raised(s, p)[i
                + 1] == s[i],
        forall|i: int|
            0 <= i < s.len() && p(#[trigger] s[i]) && !covered(s, p, i) ==> raised(s, p)[i] == s[i],
    decreases s.len(),
{
    let r = raised(s, p);
    if s.len() >= 2 {
        let u = s.skip(1);
        let t = raised(u, p);
        lemma_raised(u, p);
        assert forall|i: int| 0 <= i < u.len() implies #[trigger] covered(u, p, i) == covered(
            s,
            p,
            i + 1,
        ) by {
            if covered(u, p, i) {
                let j = choose|j: int| i < j < u.len() && !p(#[trigger] u[j]);
                assert(!p(s[j + 1]));
            }
            if covered(s, p, i + 1) {
                let j = choose|j: int| i + 1 < j < s.len() && !p(#[trigger] s[j]);
                assert(!p(u[j - 1]));
            }
        }
        if covered(s, p, 0) {
            let j = choose|j: int| 0 < j < s.len() && !p(#[trigger] s[j]);
            assert(!p(u[j - 1]));
            assert(!p(t[0]));
        }
        if p(s[0]) && !covered(s, p, 0) {
            assert(p(s[1]));
            assert(u[0] == s[1]);
            assert(!covered(s, p, 1)) by {
                if covered(s, p, 1) {
                    let j = choose|j: int| 1 < j < s.len() && !p(#[trigger] s[j]);
                    assert(covered(s, p, 0));
                }
            }
            assert(!covered(u, p, 0));
            assert(t[0] == u[0]);
        }
        assert forall|i: int| 0 <= i < s.len() && #[trigger] covered(s, p, i) implies i + 1 < s.len()
            && r[i + 1] == s[i] by {
            if i > 0 {
                assert(covered(u, p, i - 1));
                assert(t[i] == u[i - 1]);
                assert(u[i - 1] == s[i]);
            }
        }
        assert forall|i: int| 0 <= i < s.len() && p(#[trigger] s[i]) && !covered(s, p, i) implies r[i]
            == s[i] by {
            if i > 0 {
                assert(u[i - 1] == s[i]);
                assert(!covered(u, p, i - 1));
                assert(t[i - 1] == u[i - 1]);
                if i == 1 && p(s[0]) && !p(t[0]) {
                    assert(false);
                }
            }
        }
        if exists|j: int| 0 <= j < s.len() && !p(#[trigger] s[j]) {
            let j = choose|j: int| 0 <= j < s.len() && !p(#[trigger] s[j]);
            if j > 0 && p(s[0]) {
                assert(covered(s, p, 0));
            }
        }
    } else if s.len() == 1 {
        if exists|j: int| 0 <= j < s.len() && !p(#[trigger] s[j]) {
            let j = choose|j: int| 0 <= j < s.len() && !p(#[trigger] s[j]);
            assert(j == 0);
        }
    }
}

proof fn lemma_lowered<T>(s: Seq<T>, p: spec_fn(T) -> bool)
    ensures
        lowered(s, p).len() == s.len(),
        (exists|j: int| 0 <= j < s.len() && !p(#[trigger] s[j])) ==> !p(lowered(s, p).last()),
        forall|i: int|
            0 <= i < s.len() && #[trigger] raisedless(s, p, i) ==> 0 < i && lowered(s, p)[i - 1]
                == s[i],
        forall|i: int|
            0 <= i < s.len() && p(#[trigger] s[i]) && !raisedless(s, p, i) ==> lowered(s, p)[i]
                == s[i],
    decreases s.len(),
{
    let r = lowered(s, p);
    let n = s.len() - 1;
    if s.len() >= 2 {
        let u = s.drop_last();
        let t = lowered(u, p);
        lemma_lowered(u, p);
        assert forall|i: int| 0 <= i < u.len() implies #[trigger] raisedless(u, p, i)
            == raisedless(s, p, i) by {
            if raisedless(u, p, i) {
                let j = choose|j: int| 0 <= j < i && !p(#[trigger] u[j]);
                assert(!p(s[j]));
            }
            if raisedless(s, p, i) {
                let j = choose|j: int| 0 <= j < i && !p(#[trigger] s[j]);
                assert(!p(u[j]));
            }
        }
        if raisedless(s, p, n) {
            let j = choose|j: int| 0 <= j < n && !p(#[trigger] s[j]);
            assert(!p(u[j]));
            assert(!p(t.last()));
        }
        if p(s[n]) && !raisedless(s, p, n) {
            assert(p(s[n - 1]));
            assert(u[n - 1] == s[n - 1]);
            assert(!raisedless(s, p, n - 1)) by {
                if raisedless(s, p, n - 1) {
                    let j = choose|j: int| 0 <= j < n - 1 && !p(#[trigger] s[j]);
                    assert(raisedless(s, p, n));
                }
            }
            assert(!raisedless(u, p, n - 1));
            assert(t[n - 1] == u[n - 1]);
        }
        assert forall|i: int| 0 <= i < s.len() && #[trigger] raisedless(s, p, i) implies 0 < i && r[i
            - 1] == s[i] by {
            if i < n {
                assert(raisedless(u, p, i));
                assert(t[i - 1] == u[i]);
                assert(u[i] == s[i]);
            }
        }
        assert forall|i: int|
            0 <= i < s.len() && p(#[trigger] s[i]) && !raisedless(s, p, i) implies r[i] == s[i] by {
            if i < n {
                assert(u[i] == s[i]);
                assert(!raisedless(u, p, i));
                assert(t[i] == u[i]);
                if i == n - 1 && p(s[n]) && !p(t.last()) {
                    assert(false);
                }
            }
        }
        if exists|j: int| 0 <= j < s.len() && !p(#[trigger] s[j]) {
            let j = choose|j: int| 0 <= j < s.len() && !p(#[trigger] s[j]);
            if j < n && p(s[n]) {
                assert(raisedless(s, p, n));
            }
        }
    } else if s.len() == 1 {
        if exists|j: int| 0 <= j < s.len() && !p(#[trigger] s[j]) {
            let j = choose|j: int| 0 <= j < s.len() && !p(#[trigger] s[j]);
            assert(j == 0);
        }
    }
}

/// A move to the front puts what is selected above everything else, one to the
/// back below it.
pub proof fn law_the_selection_goes_to_the_end_it_is_sent<F>(
    s: Seq<ElementV<F>>,
    ids: Seq<ElementId>,
    i: int,
    j: int,
)
    ensures
        ({
            let front = layered(LayerOp::ToFront, s, ids);
            let back = layered(LayerOp::ToBack, s, ids);
            &&& 0 <= i < j < front.len() && ids.contains(front[i].id) ==> ids.contains(front[j].id)
            &&& 0 <= i < j < back.len() && ids.contains(back[j].id) ==> ids.contains(back[i].id)
        }),
{
    lemma_front_sorted(s, ids, i, j);
    lemma_back_sorted(s, ids, i, j);
}

proof fn lemma_front_sorted<F>(s: Seq<ElementV<F>>, ids: Seq<ElementId>, i: int, j: int)
    ensures
        0 <= i < j < to_front(s, listed(ids)).len() && ids.contains(
            to_front(s, listed(ids))[i].id,
        ) ==> ids.contains(to_front(s, listed(ids))[j].id),
{
    let front = to_front(s, listed::<F>(ids));
    lemma_ends(s, ids);
    if 0 <= i < j < front.len() && ids.contains(front[i].id) {
        lemma_none_above(front, listed::<F>(ids), i, j);
    }
}

proof fn lemma_back_sorted<F>(s: Seq<ElementV<F>>, ids: Seq<ElementId>, i: int, j: int)
    ensures
        0 <= i < j < to_back(s, listed(ids)).len() && ids.contains(
            to_back(s, listed(ids))[j].id,
        ) ==> ids.contains(to_back(s, listed(ids))[i].id),
{
    let back = to_back(s, listed::<F>(ids));
    lemma_ends(s, ids);
    if 0 <= i < j < back.len() && ids.contains(back[j].id) {
        lemma_none_below(back, listed::<F>(ids), i, j);
    }
}

proof fn lemma_none_above<T>(s: Seq<T>, p: spec_fn(T) -> bool, i: int, j: int)
    requires
        !crate::scene::lies_below(s, p),
        0 <= i < j < s.len(),
        p(s[i]),
    ensures
        p(s[j]),
{
}

proof fn lemma_none_below<T>(s: Seq<T>, p: spec_fn(T) -> bool, i: int, j: int)
    requires
        !crate::scene::lies_above(s, p),
        0 <= i < j < s.len(),
        p(s[j]),
    ensures
        p(s[i]),
{
}

/// Whatever the layer move, the selected elements keep their order among
/// themselves, and so do the others.
pub proof fn law_every_layer_move_keeps_group_order<F>(
    op: LayerOp,
    s: Seq<ElementV<F>>,
    ids: Seq<ElementId>,
)
    ensures
        layered(op, s, ids).filter(listed(ids)) == s.filter(listed(ids)),
        layered(op, s, ids).filter(not(listed(ids))) == s.filter(not(listed(ids))),
{
    lemma_groups(s, ids);
    lemma_step_groups(s, ids);
    match op {
        LayerOp::ToFront => assert(layered(op, s, ids) == to_front(s, listed(ids))),
        LayerOp::ToBack => assert(layered(op, s, ids) == to_back(s, listed(ids))),
        LayerOp::Forward => assert(layered(op, s, ids) == raised(s, listed(ids))),
        LayerOp::Backward => assert(layered(op, s, ids) == lowered(s, listed(ids))),
    }
}

proof fn lemma_groups<F>(s: Seq<ElementV<F>>, ids: Seq<ElementId>)
    ensures
        to_front(s, listed(ids)).filter(listed(ids)) == s.filter(listed(ids)),
        to_front(s, listed(ids)).filter(not(listed(ids))) == s.filter(not(listed(ids))),
        to_back(s, listed(ids)).filter(listed(ids)) == s.filter(listed(ids)),
        to_back(s, listed(ids)).filter(not(listed(ids))) == s.filter(not(listed(ids))),
{
    law_layer_moves_keep_group_order(s, ids);
}

proof fn lemma_step_groups<F>(s: Seq<ElementV<F>>, ids: Seq<ElementId>)
    ensures
        raised(s, listed(ids)).filter(listed(ids)) == s.filter(listed(ids)),
        raised(s, listed(ids)).filter(not(listed(ids))) == s.filter(not(listed(ids))),
        lowered(s, listed(ids)).filter(listed(ids)) == s.filter(listed(ids)),
        lowered(s, listed(ids)).filter(not(listed(ids))) == s.filter(not(listed(ids))),
{
    law_layer_moves_keep_group_order(s, ids);
}

proof fn lemma_ends<F>(s: Seq<ElementV<F>>, ids: Seq<ElementId>)
    ensures
        !crate::scene::lies_below(to_front(s, listed(ids)), listed(ids)),
        !crate::scene::lies_above(to_back(s, listed(ids)), listed(ids)),
{
    law_extremes_are_offered_when_they_move(s, ids);
}

/// One layer forward lifts each selected element by one place when something else
/// lies above it, one layer backward lowers it by one when something else lies
/// below it; one that has nothing to pass stays. The selected elements keep their
/// order among themselves, and so do the others.
pub proof fn law_the_selection_moves_one_layer<F>(s: Seq<ElementV<F>>, ids: Seq<ElementId>, i: int)
    requires
        0 <= i < s.len(),
    ensures
        ({
            let p = listed::<F>(ids);
            let up = layered(LayerOp::Forward, s, ids);
            let down = layered(LayerOp::Backward, s, ids);
            &&& covered(s, p, i) ==> i + 1 < s.len() && up[i + 1] == s[i]
            &&& ids.contains(s[i].id) && !covered(s, p, i) ==> up[i] == s[i]
            &&& raisedless(s, p, i) ==> i > 0 && down[i - 1] == s[i]
            &&& ids.contains(s[i].id) && !raisedless(s, p, i) ==> down[i] == s[i]
            &&& up.filter(p) == s.filter(p) && up.filter(not(p)) == s.filter(not(p))
            &&& down.filter(p) == s.filter(p) && down.filter(not(p)) == s.filter(not(p))
        }),
{
    let p = listed::<F>(ids);
    lemma_step_groups(s, ids);
    lemma_raised(s, p);
    lemma_lowered(s, p);
}

proof fn lemma_applies<F>(op: LayerOp, s: Seq<ElementV<F>>, ids: Seq<ElementId>)
    ensures
        layer_applies(op, s, ids) <==> layered(op, s, ids) != s,
{
    match op {
        LayerOp::ToFront => law_extremes_are_offered_when_they_move(s, ids),
        LayerOp::ToBack => law_extremes_are_offered_when_they_move(s, ids),
        LayerOp::Forward => law_single_steps_are_offered_when_they_move(s, ids),
        LayerOp::Backward => law_single_steps_are_offered_when_they_move(s, ids),
    }
}

/// A layer move is done exactly when it changes the order, and then it is one step
/// of the history that closes the menu and keeps the selection.
pub proof fn law_layer_moves_are_done_when_they_move<F>(b: BoardV<F>, op: LayerOp)
    ensures
        layer_applies(op, b.scene, b.selection) <==> layered(op, b.scene, b.selection) != b.scene,
        b.selection.len() > 0 ==> b.reordered(op).scene == layered(op, b.scene, b.selection),
        b.selection.len() == 0 ==> b.reordered(op) == b,
        b.reordered(op).selection == b.selection,
        b.reordered(op).scene != b.scene ==> b.reordered(op).history == b.history.recorded(b.scene)
            && b.reordered(op).context_menu is None && b.reordered(op).dirty,
        b.reordered(op).scene == b.scene ==> b.reordered(op) == b,
{
    lemma_applies(op, b.scene, b.selection);
}

/// Whether an element stays when `ids` are deleted: it is none of them and labels
/// none of them.
pub open spec fn survives<F>(ids: Seq<ElementId>) -> spec_fn(ElementV<F>) -> bool {
    |e: ElementV<F>|
        !ids.contains(e.id) && !(e.kind.bound_to() is Some && ids.contains(
            e.kind.bound_to()->Some_0,
        ))
}

/// Deleting takes exactly the listed elements and the labels on them: everything
/// else stays, in its order.
pub proof fn law_deleting_takes_what_is_selected<F>(s: Seq<ElementV<F>>, ids: Seq<ElementId>)
    requires
        unique_ids(s),
    ensures
        removed_each(s, ids) == s.filter(survives(ids)),
        unique_ids(removed_each(s, ids)),
    decreases ids.len(),
{
    if ids.len() == 0 {
        crate::scene_laws::lemma_filter_all(s, survives::<F>(ids), true);
    } else {
        let d = ids.drop_last();
        law_deleting_takes_what_is_selected(s, d);
        law_removal_takes_labels_along(removed_each(s, d), ids.last());
        let (p, q, r) = (
            survives::<F>(d),
            crate::board_laws::untouched_by::<F>(ids.last()),
            survives::<F>(ids),
        );
        assert forall|e: ElementV<F>| #[trigger] r(e) == (p(e) && q(e)) by {
            crate::edit_laws::lemma_split(ids, e.id);
            if e.kind.bound_to() is Some {
                crate::edit_laws::lemma_split(ids, e.kind.bound_to()->Some_0);
            }
        }
        crate::board_laws::lemma_filter_twice(s, p, q, r);
    }
}

/// Deleting the selection empties it and is one step of the history; without a
/// selection nothing happens.
pub proof fn law_deleting_is_one_step<F>(b: BoardV<F>)
    requires
        unique_ids(b.scene),
    ensures
        ({
            let r = b.selection_deleted();
            &&& r.scene == b.scene.filter(survives(b.selection))
            &&& r.selection.len() == 0
            &&& b.selection.len() > 0 ==> r.history == b.history.recorded(b.scene) && r.dirty
            &&& b.selection.len() == 0 ==> r == b
            &&& r.tool == b.tool && r.drag == b.drag && r.editing == b.editing
        }),
{
    law_deleting_takes_what_is_selected(b.scene, b.selection);
}

/// An identity prefix names the first element whose identity begins with it, and
/// none exactly when there is no such element.
pub proof fn law_a_prefix_names_the_first_match<F>(s: Seq<ElementV<F>>, prefix: Seq<char>)
    ensures
        match prefix_match(s, prefix) {
            Some(id) => exists|i: int|
                0 <= i < s.len() && (#[trigger] s[i]).id == id && names(s[i], prefix) && forall|j: int|
                    0 <= j < i ==> !names(#[trigger] s[j], prefix),
            None => forall|i: int| 0 <= i < s.len() ==> !names(#[trigger] s[i], prefix),
        },
    decreases s.len(),
{
    if s.len() > 0 {
        let u = s.skip(1);
        law_a_prefix_names_the_first_match(u, prefix);
        if names(s[0], prefix) {
            assert(s[0].id == prefix_match(s, prefix)->Some_0);
        } else if let Some(id) = prefix_match(u, prefix) {
            let i = choose|i: int|
                0 <= i < u.len() && (#[trigger] u[i]).id == id && names(u[i], prefix) && forall|
                    j: int,
                |
                    0 <= j < i ==> !names(#[trigger] u[j], prefix);
            assert(s[i + 1].id == id && names(s[i + 1], prefix));
            assert forall|j: int| 0 <= j < i + 1 implies !names(#[trigger] s[j], prefix) by {
                if j > 0 {
                    assert(s[j] == u[j - 1]);
                }
            }
        } else {
            assert forall|i: int| 0 <= i < s.len() implies !names(#[trigger] s[i], prefix) by {
                if i > 0 {
                    assert(s[i] == u[i - 1]);
                }
            }
        }
    }
}

/// Whether the text of an element's identity begins with `prefix`.
pub open spec fn names<F>(e: ElementV<F>, prefix: Seq<char>) -> bool {
    let t = crate::ids::hyphenated(e.id.value);
    prefix.len() <= t.len() && t.take(prefix.len() as int) == prefix
}

} // verus!
