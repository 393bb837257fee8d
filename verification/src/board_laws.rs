//! What holds of the board across its operations.

use vstd::prelude::*;
use crate::board::{label_ids, removed, without_each, without_first, BoardV, LayerOp};
use crate::board_text::Fresh;
use crate::canvas_dispatch::{op_applied, op_effect};
use crate::canvas_op::{op_outcome, CanvasOp};
use crate::element::ElementV;
use crate::ids::ElementId;
use crate::scene::{has_id, lemma_place_of, place_of, unique_ids};
use crate::scene_laws::lemma_filter_all;

verus! {

/// Whether an element is neither `id` nor a label bound to it.
pub open spec fn untouched_by<F>(id: ElementId) -> spec_fn(ElementV<F>) -> bool {
    |e: ElementV<F>| e.id != id && e.kind.bound_to() != Some(id)
}

/// Whether an element has another identity than `id`.
pub open spec fn not_named<F>(id: ElementId) -> spec_fn(ElementV<F>) -> bool {
    |e: ElementV<F>| e.id != id
}

/// Whether an element is in none of the listed identities.
pub open spec fn none_of<F>(ids: Seq<ElementId>) -> spec_fn(ElementV<F>) -> bool {
    |e: ElementV<F>| !ids.contains(e.id)
}

proof fn lemma_filter_remove<A>(s: Seq<A>, p: spec_fn(A) -> bool, i: int)
    requires
        0 <= i < s.len(),
        !p(s[i]),
        forall|k: int| 0 <= k < s.len() && k != i ==> p(#[trigger] s[k]),
    ensures
        s.filter(p) == s.remove(i),
    decreases s.len(),
{
    reveal(Seq::filter);
    if i == s.len() - 1 {
        lemma_filter_all(s.drop_last(), p, true);
        assert(s.remove(i) =~= s.drop_last());
    } else {
        let d = s.drop_last();
        assert forall|k: int| 0 <= k < d.len() && k != i implies p(#[trigger] d[k]) by {
            assert(d[k] == s[k]);
        }
        lemma_filter_remove(d, p, i);
        assert(p(s[s.len() - 1]));
        assert(s.remove(i) =~= d.remove(i).push(s.last()));
    }
}

/// Filtering twice is filtering by both predicates, where they agree with one
/// on the elements of the sequence.
pub(crate) proof fn lemma_filter_twice<A>(
    s: Seq<A>,
    p: spec_fn(A) -> bool,
    q: spec_fn(A) -> bool,
    both: spec_fn(A) -> bool,
)
    requires
        forall|k: int| 0 <= k < s.len() ==> both(#[trigger] s[k]) == (p(s[k]) && q(s[k])),
    ensures
        s.filter(p).filter(q) == s.filter(both),
    decreases s.len(),
{
    reveal(Seq::filter);
    if s.len() > 0 {
        let d = s.drop_last();
        assert forall|k: int| 0 <= k < d.len() implies both(#[trigger] d[k]) == (p(d[k]) && q(
            d[k],
        )) by {
            assert(d[k] == s[k]);
        }
        lemma_filter_twice(d, p, q, both);
        let x = s.last();
        assert(both(s[s.len() - 1]) == (p(x) && q(x)));
        if p(x) {
            assert(d.filter(p).push(x).drop_last() =~= d.filter(p));
        }
    }
}

proof fn lemma_without_first<F>(s: Seq<ElementV<F>>, id: ElementId)
    requires
        unique_ids(s),
    ensures
        without_first(s, id) == s.filter(not_named(id)),
        unique_ids(without_first(s, id)),
{
    lemma_place_of(s, id);
    let p = not_named::<F>(id);
    if has_id(s, id) {
        let i = place_of(s, id);
        assert forall|k: int| 0 <= k < s.len() && k != i implies p(#[trigger] s[k]) by {
            if k < i {
                assert(s[k].id != s[i].id);
            } else {
                assert(s[i].id != s[k].id);
            }
        }
        lemma_filter_remove(s, p, i);
        let t = s.remove(i);
        assert forall|a: int, b: int| 0 <= a < b < t.len() implies (#[trigger] t[a]).id != (
        #[trigger] t[b]).id by {
            let a0 = if a < i {
                a
            } else {
                a + 1
            };
            let b0 = if b < i {
                b
            } else {
                b + 1
            };
            assert(t[a] == s[a0] && t[b] == s[b0]);
        }
    } else {
        assert forall|k: int| 0 <= k < s.len() implies p(#[trigger] s[k]) by {
        }
        lemma_filter_all(s, p, true);
    }
}

proof fn lemma_without_each<F>(s: Seq<ElementV<F>>, ids: Seq<ElementId>)
    requires
        unique_ids(s),
    ensures
        without_each(s, ids) == s.filter(none_of(ids)),
        unique_ids(without_each(s, ids)),
    decreases ids.len(),
{
    if ids.len() == 0 {
        lemma_filter_all(s, none_of(ids), true);
    } else {
        let rest = ids.drop_last();
        lemma_without_each(s, rest);
        lemma_without_first(without_each(s, rest), ids.last());
        assert forall|k: int| 0 <= k < s.len() implies none_of::<F>(ids)(#[trigger] s[k]) == (
        none_of::<F>(rest)(s[k]) && not_named::<F>(ids.last())(s[k])) by {
            let x = s[k].id;
            if ids.contains(x) && x != ids.last() {
                let j = choose|j: int| 0 <= j < ids.len() && ids[j] == x;
                assert(rest[j] == x);
            }
            if rest.contains(x) {
                let j = choose|j: int| 0 <= j < rest.len() && rest[j] == x;
                assert(ids[j] == x);
            }
            assert(ids[ids.len() - 1] == ids.last());
        }
        lemma_filter_twice(s, none_of(rest), not_named(ids.last()), none_of(ids));
    }
}

proof fn lemma_label_ids<F>(s: Seq<ElementV<F>>, id: ElementId, x: ElementId)
    ensures
        label_ids(s, id).contains(x) <==> exists|k: int|
            0 <= k < s.len() && (#[trigger] s[k]).kind.bound_to() == Some(id) && s[k].id == x,
    decreases s.len(),
{
    if s.len() > 0 {
        let d = s.drop_last();
        let l = label_ids(d, id);
        lemma_label_ids(d, id, x);
        if label_ids(s, id).contains(x) {
            let j = choose|j: int| 0 <= j < label_ids(s, id).len() && label_ids(s, id)[j] == x;
            if s.last().kind.bound_to() == Some(id) && j == l.len() {
                assert(s[s.len() - 1].id == x);
            } else {
                assert(l[j] == x);
                let k = choose|k: int|
                    0 <= k < d.len() && (#[trigger] d[k]).kind.bound_to() == Some(id) && d[k].id
                        == x;
                assert(s[k] == d[k]);
            }
        }
        if exists|k: int|
            0 <= k < s.len() && (#[trigger] s[k]).kind.bound_to() == Some(id) && s[k].id == x {
            let k = choose|k: int|
                0 <= k < s.len() && (#[trigger] s[k]).kind.bound_to() == Some(id) && s[k].id == x;
            if k < d.len() {
                assert(d[k] == s[k]);
                assert(l.contains(x));
                let j = choose|j: int| 0 <= j < l.len() && l[j] == x;
                assert(label_ids(s, id)[j] == x);
            } else {
                assert(label_ids(s, id)[l.len() as int] == x);
            }
        }
    }
}

/// Removing an element takes exactly the element and the labels bound to it:
/// everything else stays, in its order.
pub proof fn law_removal_takes_labels_along<F>(s: Seq<ElementV<F>>, id: ElementId)
    requires
        unique_ids(s),
    ensures
        removed(s, id) == s.filter(untouched_by(id)),
        unique_ids(removed(s, id)),
{
    let t = without_first(s, id);
    lemma_without_first(s, id);
    let ids = label_ids(t, id);
    lemma_without_each(t, ids);
    reveal(Seq::filter);
    assert forall|k: int| 0 <= k < s.len() implies untouched_by::<F>(id)(#[trigger] s[k]) == (
    not_named::<F>(id)(s[k]) && none_of::<F>(ids)(s[k])) by {
        if s[k].id != id {
            lemma_label_ids(t, id, s[k].id);
            s.lemma_filter_contains(not_named(id), k);
            if ids.contains(s[k].id) {
                let j = choose|j: int|
                    0 <= j < t.len() && (#[trigger] t[j]).kind.bound_to() == Some(id) && t[j].id
                        == s[k].id;
                lemma_place_of(s, id);
                let m = if has_id(s, id) && j >= place_of(s, id) {
                    j + 1
                } else {
                    j
                };
                assert(s[m] == t[j]);
                if m < k {
                    assert(s[m].id != s[k].id);
                } else if k < m {
                    assert(s[k].id != s[m].id);
                }
            }
            if s[k].kind.bound_to() == Some(id) {
                assert(t.contains(s[k]));
                let j = choose|j: int| 0 <= j < t.len() && t[j] == s[k];
                assert(t[j].kind.bound_to() == Some(id) && t[j].id == s[k].id);
            }
        }
    }
    lemma_filter_twice(s, not_named(id), none_of(ids), untouched_by(id));
}

/// A refused operation leaves the board as it was.
pub proof fn law_refused_operations_change_nothing<F>(
    b: BoardV<F>,
    op: CanvasOp<F>,
    pre: Option<ElementId>,
    fresh: Seq<Fresh>,
)
    requires
        op_outcome(b.scene, op, pre) is Err,
    ensures
        op_applied(b, op, pre, fresh) == b,
{
}

/// Drawing nodes and labels never touches the history.
proof fn lemma_nodes_keep_history<F>(
    b: BoardV<F>,
    nodes: Seq<crate::mindmap_plan::NodeV>,
    boxes: Seq<crate::mindmap_layout::NodeBox<F>>,
    pen: crate::canvas_op::MindmapPen<F>,
    id: ElementId,
    fresh: Seq<Fresh>,
    n: int,
)
    ensures
        b.nodes_drawn(nodes, boxes, pen, id, fresh, n).history == b.history,
    decreases n,
{
    if n > 0 {
        lemma_nodes_keep_history(b, nodes, boxes, pen, id, fresh, n - 1);
    }
}

/// An operation that succeeded marks the board as changed and can be undone
/// in one step: undo brings the scene back exactly as it was. Setting the
/// surface colour is the one that is no step of the history.
pub proof fn law_operations_are_one_undo_step<F>(
    b: BoardV<F>,
    op: CanvasOp<F>,
    pre: Option<ElementId>,
    fresh: Seq<Fresh>,
)
    requires
        op_outcome(b.scene, op, pre) is Ok,
        !(op is SetBackground),
    ensures
        op_applied(b, op, pre, fresh).dirty,
        op_applied(b, op, pre, fresh).history == b.history.recorded(b.scene),
        op_applied(b, op, pre, fresh).undone().scene == b.scene,
{
    reveal(op_effect);
    reveal(op_outcome);
    let a = op_applied(b, op, pre, fresh);
    if let CanvasOp::Mindmap { root, boxes, paths, pen } = op {
        let links = crate::mindmap_plan::plan_links(root);
        let nodes = crate::mindmap_plan::plan_nodes(root);
        let c = BoardV { history: b.history.recorded(b.scene), ..b }.links_drawn(
            links,
            paths@,
            pen,
            fresh,
        );
        lemma_nodes_keep_history(
            c,
            nodes,
            boxes@,
            pen,
            pre->Some_0,
            fresh.skip(links.len() as int),
            nodes.len() as int,
        );
    }
    assert(a.history == b.history.recorded(b.scene));
    crate::history::law_undo_redo_roundtrip(b.history, b.scene, a.scene);
}

/// After a step back or forward the selection holds only elements of the
/// scene.
pub proof fn law_selection_stays_live<F>(b: BoardV<F>, i: int)
    ensures
        b.history.undo.len() > 0 && 0 <= i < b.undone().selection.len() ==> has_id(
            b.undone().scene,
            b.undone().selection[i],
        ),
        b.history.redo.len() > 0 && 0 <= i < b.redone().selection.len() ==> has_id(
            b.redone().scene,
            b.redone().selection[i],
        ),
{
    let u = b.undone();
    if b.history.undo.len() > 0 && 0 <= i < u.selection.len() {
        b.selection.lemma_filter_pred(|id: ElementId| has_id(u.scene, id), i);
    }
    let r = b.redone();
    if b.history.redo.len() > 0 && 0 <= i < r.selection.len() {
        b.selection.lemma_filter_pred(|id: ElementId| has_id(r.scene, id), i);
    }
}

/// A layer move that applies is one undo step and keeps the selection; one
/// that does not apply leaves no trace in the history.
pub proof fn law_layer_moves_are_one_undo_step<F>(b: BoardV<F>, op: LayerOp)
    ensures
        b.reordered(op).selection == b.selection,
        b.reordered(op) == b || (b.reordered(op).history == b.history.recorded(b.scene)
            && b.reordered(op).undone().scene == b.scene),
{
    if b.reordered(op) != b {
        crate::history::law_undo_redo_roundtrip(b.history, b.scene, b.reordered(op).scene);
    }
}

} // verus!
