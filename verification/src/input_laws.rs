//! What holds across presses, drags and releases.

use vstd::prelude::*;
use crate::board::{other_than, BoardV, DragV, LayerOp, PointTarget};
use crate::board_down::InkStart;
use crate::board_drag::{MoveFacts, PointerMove};
use crate::board_move::{joined_selection, point_dragged, shifted};
use crate::board_press::{clicked, resolved, Press};
use crate::board_text::{text_of, Measured};
use crate::board_up::Release;
use crate::element::{segment_count, ElementV, WBounds, WPoint};
use crate::ids::ElementId;
use crate::scene::{has_id, just, lemma_place_of, marked_ids, occurrences, place_of, top_hit};

verus! {

proof fn lemma_filter_distinct<A>(s: Seq<A>, p: spec_fn(A) -> bool)
    requires
        s.no_duplicates(),
    ensures
        s.filter(p).no_duplicates(),
        forall|x: A| #[trigger] s.filter(p).contains(x) ==> s.contains(x),
    decreases s.len(),
{
    reveal(Seq::filter);
    if s.len() > 0 {
        let d = s.drop_last();
        lemma_filter_distinct(d, p);
        let f = d.filter(p);
        let x = s.last();
        assert(!d.contains(x)) by {
            if d.contains(x) {
                let k = choose|k: int| 0 <= k < d.len() && d[k] == x;
                assert(s[k] == s[s.len() - 1]);
            }
        }
        assert forall|y: A| #[trigger] s.filter(p).contains(y) implies s.contains(y) by {
            if f.contains(y) {
                let k = choose|k: int| 0 <= k < d.len() && d[k] == y;
                assert(s[k] == y);
            } else {
                let k = choose|k: int| 0 <= k < s.filter(p).len() && s.filter(p)[k] == y;
                if k < f.len() {
                    assert(f[k] == y);
                }
                assert(y == s[s.len() - 1]);
            }
        }
        if p(x) {
            assert(!f.contains(x));
        }
    }
}

proof fn lemma_joined_distinct(base: Seq<ElementId>, ids: Seq<ElementId>)
    requires
        base.no_duplicates(),
    ensures
        joined_selection(base, ids).no_duplicates(),
    decreases ids.len(),
{
    if ids.len() > 0 {
        lemma_joined_distinct(base, ids.drop_last());
    }
}

proof fn lemma_clicked_distinct(s: Seq<ElementId>, id: ElementId, shift: bool)
    requires
        s.no_duplicates(),
    ensures
        clicked(s, id, shift).no_duplicates(),
{
    lemma_filter_distinct(s, other_than(id));
}

proof fn lemma_handed_distinct<F>(b: BoardV<F>, e: crate::board::EditingV<F>)
    requires
        b.selection.no_duplicates(),
    ensures
        b.handed_over(e).no_duplicates(),
{
    lemma_filter_distinct(b.selection, other_than(e.element_id));
}

/// Committing an edit never selects an element twice.
pub proof fn law_commits_select_nothing_twice<F>(b: BoardV<F>, text: Seq<char>, m: Measured<F>)
    requires
        b.selection.no_duplicates(),
    ensures
        b.committed(text, m).selection.no_duplicates(),
{
    reveal(BoardV::committed);
    if let Some(e) = b.editing {
        let c = BoardV { editing: None, ..b }.written_back(e, text, m);
        assert(c.selection == b.selection);
        lemma_handed_distinct(c, e);
    }
}

/// A press of the left or the right button never selects an element twice.
pub proof fn law_presses_select_nothing_twice<F>(
    b: BoardV<F>,
    p: Press<F>,
    ink: InkStart<F>,
    eraser: bool,
    over_panel: bool,
    vertex: Option<usize>,
)
    requires
        b.selection.no_duplicates(),
    ensures
        b.down_acted(p, ink, eraser).selection.no_duplicates(),
        b.right_pressed(over_panel, vertex, p).selection.no_duplicates(),
{
    reveal(BoardV::text_pressed);
    reveal(BoardV::edit_started);
    reveal(BoardV::label_opened);
    reveal(BoardV::canvas_pressed);
    reveal(BoardV::element_pressed);
    reveal(BoardV::pressed_on);
    reveal(BoardV::menu_opened);
    if let Some(id) = top_hit(b.scene, p.hits@) {
        lemma_filter_distinct(b.selection, other_than(id));
        lemma_clicked_distinct(b.selection, resolved(b.scene, id), p.modifiers.shift);
    }
}

/// A move of the pointer never selects an element twice.
pub proof fn law_moves_select_nothing_twice<F>(b: BoardV<F>, e: PointerMove<F>)
    requires
        b.selection.no_duplicates(),
        b.drag matches DragV::Marquee { base_selection, .. } ==> base_selection.no_duplicates(),
    ensures
        b.pointer_moved(e).selection.no_duplicates(),
{
    reveal(BoardV::dragged);
    if !e.over_panel {
        let c = BoardV { modifiers: e.modifiers, ..b };
        match (c.drag, e.facts) {
            (DragV::Marquee { base_selection, .. }, MoveFacts::Band { inside }) => {
                lemma_joined_distinct(base_selection, marked_ids(c.scene, inside@));
            },
            (DragV::Erasing { .. }, MoveFacts::Erase { hits }) => {
                if let Some(id) = top_hit(c.scene, hits@) {
                    lemma_filter_distinct(c.selection, other_than(id));
                }
            },
            (
                DragV::Resizing { handle, originals, recorded, .. },
                MoveFacts::Resize { parts, .. },
            ) => {
                lemma_resize_keeps_rest(
                    c.recorded_once(recorded),
                    originals,
                    handle,
                    parts@,
                    originals.len() as int,
                );
            },
            _ => {},
        }
    }
}

proof fn lemma_resize_keeps_rest<F>(
    b: BoardV<F>,
    originals: Seq<ElementV<F>>,
    h: crate::board::Handle,
    parts: Seq<crate::board_move::Resized<F>>,
    n: int,
)
    ensures
        b.resized_upto(originals, h, parts, n).selection == b.selection,
        b.resized_upto(originals, h, parts, n).history == b.history,
        b.resized_upto(originals, h, parts, n).dirty == b.dirty,
    decreases n,
{
    if n > 0 {
        lemma_resize_keeps_rest(b, originals, h, parts, n - 1);
    }
}

/// Undo, redo, deleting and layer moves never select an element twice.
pub proof fn law_steps_select_nothing_twice<F>(b: BoardV<F>, op: LayerOp)
    requires
        b.selection.no_duplicates(),
    ensures
        b.undone().selection.no_duplicates(),
        b.redone().selection.no_duplicates(),
        b.selection_deleted().selection.no_duplicates(),
        b.reordered(op).selection.no_duplicates(),
{
    lemma_filter_distinct(b.selection, |id: ElementId| has_id(b.undone().scene, id));
    lemma_filter_distinct(b.selection, |id: ElementId| has_id(b.redone().scene, id));
}

/// Whether a drag has put its step into the history already.
pub open spec fn drag_recorded<F>(d: DragV<F>) -> bool {
    match d {
        DragV::Moving { recorded, .. } => recorded,
        DragV::EditingPoint { recorded, .. } => recorded,
        DragV::Resizing { recorded, .. } => recorded,
        DragV::Erasing { removed_any } => removed_any,
        _ => false,
    }
}

/// Whether a drag changes the scene.
pub open spec fn drag_changes<F>(d: DragV<F>) -> bool {
    d is Moving || d is EditingPoint || d is Resizing || d is Erasing
}

/// A whole drag is one step of the history: the first move that changes
/// anything records the scene it started from and marks the board as changed,
/// and later moves leave the history alone. Hovering, panning, drawing,
/// sketching and the rubber band record nothing.
pub proof fn law_a_drag_is_one_undo_step<F>(b: BoardV<F>, e: PointerMove<F>)
    requires
        !e.over_panel,
        b.move_fits(e.facts),
    ensures
        ({
            let a = b.pointer_moved(e);
            &&& !drag_changes(b.drag) ==> a.history == b.history && a.scene == b.scene
            &&& drag_recorded(b.drag) ==> a.history == b.history && drag_recorded(a.drag)
            &&& drag_changes(b.drag) && !drag_recorded(b.drag) ==> (if drag_recorded(a.drag) {
                a.history == b.history.recorded(b.scene) && a.dirty
            } else {
                a.history == b.history && a.scene == b.scene
            })
        }),
{
    reveal(BoardV::dragged);
    let c = BoardV { modifiers: e.modifiers, ..b };
    if let (
        DragV::Resizing { handle, originals, recorded, .. },
        MoveFacts::Resize { parts, .. },
    ) = (c.drag, e.facts) {
        lemma_resize_keeps_rest(
            c.recorded_once(recorded),
            originals,
            handle,
            parts@,
            originals.len() as int,
        );
    }
}

proof fn lemma_occurs_once(ids: Seq<ElementId>, id: ElementId)
    requires
        ids.no_duplicates(),
        ids.contains(id),
    ensures
        occurrences(ids, id) == 1,
{
    let p = just(id);
    let f = ids.filter(p);
    lemma_filter_distinct(ids, p);
    ids.lemma_filter_contains_rev(p, id);
    assert(f.contains(id));
    assert forall|k: int| 0 <= k < f.len() implies #[trigger] f[k] == id by {
        ids.lemma_filter_pred(p, k);
    }
    if f.len() > 1 {
        assert(f[0] == f[1]);
    }
}

/// Dragging the selection moves exactly the selected elements and the labels
/// of selected containers, and only their corners. What is selected once moves
/// once.
pub proof fn law_moves_carry_labels_along<F>(
    s: Seq<ElementV<F>>,
    selection: Seq<ElementId>,
    corners: Seq<Vec<WPoint<F>>>,
    i: int,
)
    requires
        0 <= i < s.len(),
    ensures
        shifted(s, selection, corners).len() == s.len(),
        s[i].kind.bound_to() matches Some(c) && selection.contains(c) && !selection.contains(s[i].id)
            ==> shifted(s, selection, corners)[i] == s[i].at(corners[i]@[0]),
        selection.no_duplicates() && selection.contains(s[i].id) && place_of(s, s[i].id) == i
            ==> shifted(s, selection, corners)[i] == s[i].at(corners[i]@[0]),
        selection.contains(s[i].id) && place_of(s, s[i].id) == i && occurrences(selection, s[i].id)
            > 0 ==> shifted(s, selection, corners)[i] == s[i].at(
            corners[i]@[occurrences(selection, s[i].id) - 1],
        ),
        !selection.contains(s[i].id) && !(s[i].kind.bound_to() matches Some(c) && selection.contains(c))
            ==> shifted(s, selection, corners)[i] == s[i],
        shifted(s, selection, corners)[i].id == s[i].id,
        shifted(s, selection, corners)[i].kind == s[i].kind,
{
    if selection.no_duplicates() && selection.contains(s[i].id) {
        lemma_occurs_once(selection, s[i].id);
    }
}

/// Dragging the middle of a segment adds one vertex however often the pointer
/// moves: every move starts from the polyline as it was.
pub proof fn law_a_bend_adds_one_vertex<F>(
    original: ElementV<F>,
    seg: usize,
    points: Seq<WPoint<F>>,
    at: WPoint<F>,
    bounds: WBounds<F>,
)
    requires
        seg < segment_count(original.kind),
        points.len() == original.kind.points().len(),
    ensures
        ({
            let e = point_dragged(original, PointTarget::Midpoint(seg), points, at, bounds);
            &&& e.kind.points().len() == original.kind.points().len() + 1
            &&& e.kind.points()[seg + 1] == at
            &&& e.id == original.id
        }),
{
}

/// The board after the pointer moved several times.
pub open spec fn moved_on<F>(b: BoardV<F>, moves: Seq<PointerMove<F>>) -> BoardV<F>
    decreases moves.len(),
{
    if moves.len() == 0 {
        b
    } else {
        moved_on(b, moves.drop_last()).pointer_moved(moves.last())
    }
}

/// Whether a move goes on with the drag of a control point of `original` in a
/// scene of `n` elements.
pub open spec fn drags_point<F>(e: PointerMove<F>, original: ElementV<F>, n: nat) -> bool {
    !e.over_panel && (e.facts matches MoveFacts::Point { points, wraps, .. } && points@.len()
        == original.kind.points().len() && wraps@.len() == n)
}

/// Whether a move of a control point changes the polyline.
pub open spec fn changes_point<F>(e: PointerMove<F>) -> bool {
    e.facts matches MoveFacts::Point { changed, .. } && changed
}

/// The polyline as a move of a control point makes it from `original`.
pub open spec fn point_edit<F>(
    e: PointerMove<F>,
    original: ElementV<F>,
    target: PointTarget,
) -> ElementV<F> {
    match e.facts {
        MoveFacts::Point { points, at, bounds, .. } => point_dragged(
            original,
            target,
            points@,
            at,
            bounds,
        ),
        _ => original,
    }
}

/// Dragging a control point over several moves equals one edit of the kept
/// original at the last place, wherever the pointer went before, and is one
/// step of the history.
pub proof fn law_a_point_drag_is_one_edit<F>(
    b: BoardV<F>,
    original: ElementV<F>,
    target: PointTarget,
    recorded: bool,
    moves: Seq<PointerMove<F>>,
)
    requires
        b.drag == (DragV::EditingPoint { element: original.id, original, target, recorded }),
        has_id(b.scene, original.id),
        forall|i: int|
            0 <= i < moves.len() ==> drags_point(#[trigger] moves[i], original, b.scene.len()),
        moves.len() > 0,
        changes_point(moves.last()),
    ensures
        ({
            let a = moved_on(b, moves);
            let p = place_of(b.scene, original.id);
            &&& place_of(a.scene, original.id) == p
            &&& a.scene[p] == point_edit(moves.last(), original, target)
            &&& a.history == (if recorded {
                b.history
            } else {
                b.history.recorded(b.scene)
            })
        }),
{
    lemma_point_drag(b, original, target, recorded, moves.drop_last());
    lemma_point_step(moved_on(b, moves.drop_last()), original, target, moves.last());
    lemma_place_of(b.scene, original.id);
    lemma_same_ids_same_place(b.scene, moved_on(b, moves.drop_last()).scene, original.id);
    lemma_same_ids_same_place(b.scene, moved_on(b, moves).scene, original.id);
}

/// Whether two lists of elements have the same identities in the same places.
spec fn same_ids<F>(s: Seq<ElementV<F>>, t: Seq<ElementV<F>>) -> bool {
    s.len() == t.len() && forall|i: int| 0 <= i < s.len() ==> (#[trigger] s[i]).id == t[i].id
}

proof fn lemma_same_ids_same_place<F>(s: Seq<ElementV<F>>, t: Seq<ElementV<F>>, id: ElementId)
    requires
        same_ids(s, t),
        has_id(s, id),
    ensures
        has_id(t, id),
        place_of(t, id) == place_of(s, id),
{
    lemma_place_of(s, id);
    lemma_place_of(t, id);
    let p = place_of(s, id);
    assert(s[p].id == t[p].id);
    assert(has_id(t, id));
    let q = place_of(t, id);
    assert(s[q].id == t[q].id);
}

/// One move of a dragged control point.
proof fn lemma_point_step<F>(
    b: BoardV<F>,
    original: ElementV<F>,
    target: PointTarget,
    e: PointerMove<F>,
)
    requires
        b.drag matches DragV::EditingPoint { element, original: o, target: t, .. } && element
            == original.id && o == original && t == target,
        has_id(b.scene, original.id),
        drags_point(e, original, b.scene.len()),
    ensures
        ({
            let a = b.pointer_moved(e);
            let recorded = b.drag->EditingPoint_recorded;
            &&& same_ids(b.scene, a.scene)
            &&& a.drag == (DragV::EditingPoint {
                element: original.id,
                original,
                target,
                recorded: recorded || changes_point(e),
            })
            &&& a.history == (if recorded || !changes_point(e) {
                b.history
            } else {
                b.history.recorded(b.scene)
            })
            &&& changes_point(e) ==> a.scene[place_of(b.scene, original.id)] == point_edit(
                e,
                original,
                target,
            )
            &&& !changes_point(e) ==> a.scene == b.scene
        }),
{
    reveal(BoardV::dragged);
    lemma_place_of(b.scene, original.id);
}

proof fn lemma_point_drag<F>(
    b: BoardV<F>,
    original: ElementV<F>,
    target: PointTarget,
    recorded: bool,
    moves: Seq<PointerMove<F>>,
)
    requires
        b.drag == (DragV::EditingPoint { element: original.id, original, target, recorded }),
        has_id(b.scene, original.id),
        forall|i: int|
            0 <= i < moves.len() ==> drags_point(#[trigger] moves[i], original, b.scene.len()),
    ensures
        ({
            let a = moved_on(b, moves);
            &&& same_ids(b.scene, a.scene)
            &&& a.drag matches DragV::EditingPoint {
                element,
                original: o,
                target: t,
                recorded: r,
            } && element == original.id && o == original && t == target && (recorded ==> r) && (if r
                && !recorded {
                a.history == b.history.recorded(b.scene)
            } else {
                a.history == b.history && (!r ==> a.scene == b.scene)
            })
        }),
    decreases moves.len(),
{
    if moves.len() > 0 {
        let m = moves.drop_last();
        lemma_point_drag(b, original, target, recorded, m);
        lemma_same_ids_same_place(b.scene, moved_on(b, m).scene, original.id);
        lemma_point_step(moved_on(b, m), original, target, moves.last());
    }
}

/// An edit that is committed without a change leaves the scene, the history
/// and the pending change as they were.
pub proof fn law_unchanged_edits_leave_no_step<F>(b: BoardV<F>, text: Seq<char>, m: Measured<F>)
    requires
        b.editing is Some,
        !BoardV::<F>::commits_nothing(text),
        has_id(b.scene, b.editing->Some_0.element_id),
        text_of(b.scene[place_of(b.scene, b.editing->Some_0.element_id)].kind) == Some(text),
    ensures
        b.committed(text, m).scene == b.scene,
        b.committed(text, m).history == b.history,
        b.committed(text, m).dirty == b.dirty,
        b.committed(text, m).editing is None,
{
    reveal(BoardV::committed);
}

/// A text that was created by a click and left blank is gone after the commit,
/// with the scene as before its creation, when its identity is new.
pub proof fn law_blank_new_texts_vanish<F>(
    b: BoardV<F>,
    start: WPoint<F>,
    e: Release<F>,
    text: Seq<char>,
    m: Measured<F>,
)
    requires
        BoardV::<F>::commits_nothing(text),
        !has_id(b.scene, e.fresh.id),
    ensures
        b.text_released(start, e).committed(text, m).scene == b.scene,
        b.text_released(start, e).commit_result(text) is None,
{
    reveal(BoardV::committed);
    reveal(BoardV::text_released);
    reveal(BoardV::edit_started);
    let id = e.fresh.id;
    let r = b.text_released(start, e);
    let el = b.released_text(start, e);
    assert(r.scene == b.scene.push(el));
    assert(r.scene[b.scene.len() as int].id == id);
    crate::scene::lemma_place_of(r.scene, id);
    assert(place_of(r.scene, id) == b.scene.len()) by {
        let k = place_of(r.scene, id);
        if k < b.scene.len() {
            assert(b.scene[k].id == id);
        }
    }
    assert(r.scene.remove(b.scene.len() as int) =~= b.scene);
}

} // verus!
