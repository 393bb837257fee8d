//! What a gesture leaves on the board: from the press to the release.

use vstd::prelude::*;
use crate::board::{deselected, ActiveTool, BoardV, DragV, Handle, PointTarget};
use crate::board_down::InkStart;
use crate::board_drag::{MoveFacts, PointerMove};
use crate::board_move::{
    joined_selection, point_dragged, resized, DraftFacts, Resized,
};
use crate::board_press::{clicked, container_at, live_elements, resolved, Press};
use crate::board_up::Release;
use crate::element::{
    hit_spec, ElementV, HitFacts, KindV, StrokeStyle, WBounds, WPoint,
};
use crate::element_laws::same_but_points;
use crate::ids::ElementId;
use crate::scene::{has_id, lemma_place_of, marked_ids, place_of, top_hit};

verus! {

/// Whether a kind is what a drawing tool is named after. An arrow has its head at
/// the end only.
pub open spec fn of_tool<F>(k: KindV<F>, t: ActiveTool) -> bool {
    &&& k is Rectangle <==> t == ActiveTool::Rectangle
    &&& k is Diamond <==> t == ActiveTool::Diamond
    &&& k is Ellipse <==> t == ActiveTool::Ellipse
    &&& k is Line <==> t == ActiveTool::Line
    &&& k is Arrow <==> t == ActiveTool::Arrow
    &&& k matches KindV::Arrow { end_arrowhead, start_arrowhead, .. } ==> end_arrowhead
        && !start_arrowhead
}

/// Whether a tool draws a shape by dragging.
pub open spec fn shape_tool(t: ActiveTool) -> bool {
    t == ActiveTool::Rectangle || t == ActiveTool::Diamond || t == ActiveTool::Ellipse || t
        == ActiveTool::Line || t == ActiveTool::Arrow
}

/// A press with a shape tool, without a modifier key, starts a drawing where the
/// pointer is and changes nothing else.
pub proof fn law_a_press_starts_a_drawing<F>(
    b: BoardV<F>,
    p: Press<F>,
    ink: InkStart<F>,
    eraser: bool,
)
    requires
        shape_tool(b.tool),
        !p.modifiers.shift,
        !p.modifiers.ctrl,
    ensures
        b.down_acted(p, ink, eraser).drag == (DragV::Drawing {
            start: p.world,
            seed: p.fresh.seed,
        }),
        b.down_acted(p, ink, eraser) == (BoardV {
            drag: b.down_acted(p, ink, eraser).drag,
            ..b
        }),
{
}

/// While it is drawn, a shape is of the kind of its tool: it fills the dragged
/// box, in the board's style, with the seed that the press drew, and a line or an
/// arrow goes through the dragged points. The scene is left alone.
pub proof fn law_a_draft_is_of_its_tool<F>(b: BoardV<F>, d: DraftFacts<F>, seed: u64)
    requires
        shape_tool(b.tool),
    ensures
        b.drafted(d, seed).draft matches Some(e) && {
            &&& of_tool(e.kind, b.tool)
            &&& e.kind is Line || e.kind is Arrow ==> e.kind.points() == d.points@
            &&& e.id == d.id
            &&& e.bounds == d.bounds
            &&& e.seed == seed
            &&& e.style == b.style
        },
        b.drafted(d, seed) == (BoardV { draft: b.drafted(d, seed).draft, ..b }),
{
}

/// The text tool shows a dashed box of one line while it is dragged; the other
/// tools draft nothing.
pub proof fn law_the_text_tool_drafts_a_line<F>(b: BoardV<F>, d: DraftFacts<F>, seed: u64)
    ensures
        b.tool == ActiveTool::Text ==> {
            b.drafted(d, seed).draft matches Some(e) && {
                &&& e.kind is Rectangle
                &&& e.bounds.x == d.bounds.x
                &&& e.bounds.y == d.bounds.y
                &&& e.bounds.w == d.bounds.w
                &&& e.bounds.h == d.line_box
                &&& e.style.stroke_style == StrokeStyle::Dashed
                &&& e.style.roughness == d.zero
                &&& e.style.stroke == b.style.stroke
                &&& e.style.background == b.style.background
            }
        },
        !shape_tool(b.tool) && b.tool != ActiveTool::Text ==> b.drafted(d, seed) == b,
{
}

/// Whether `s` is `t` with one more element on top of it.
pub open spec fn gained<F>(s: Seq<ElementV<F>>, t: Seq<ElementV<F>>) -> bool {
    s.len() == t.len() + 1 && s.drop_last() == t
}

/// A shape tool that is pressed, dragged and released leaves one element of its
/// kind on top of the scene: a rectangle for the rectangle tool, and so for the
/// others. It has the dragged box, the board's style and the seed that it was
/// drafted with; a line or an arrow has the released points and the box around
/// them. It is selected, the select tool comes back, and it is one step of the
/// history. A line or an arrow without length leaves nothing.
pub proof fn law_tools_draw_what_they_are_named_after<F>(
    b: BoardV<F>,
    p: Press<F>,
    ink: InkStart<F>,
    eraser: bool,
    m: PointerMove<F>,
    e: Release<F>,
)
    requires
        shape_tool(b.tool),
        !p.modifiers.shift,
        !p.modifiers.ctrl,
        !m.over_panel,
        m.facts is Draw,
        !e.over_panel,
    ensures
        ({
            let pressed = b.down_acted(p, ink, eraser);
            let moved = pressed.pointer_moved(m);
            let r = moved.left_released(e);
            let open = b.tool == ActiveTool::Line || b.tool == ActiveTool::Arrow;
            let d = m.facts->draft;
            &&& r.drag is Idle && r.draft is None && !r.temp_pen && !r.temp_pan
            &&& open && e.zero_length ==> r.scene == b.scene && r.history == b.history
                && r.selection == b.selection && r.tool == b.tool
            &&& !(open && e.zero_length) ==> {
                let el = r.scene.last();
                &&& gained(r.scene, b.scene)
                &&& of_tool(el.kind, b.tool)
                &&& el.id == d.id
                &&& el.seed == p.fresh.seed
                &&& el.style == b.style
                &&& !open ==> el.bounds == d.bounds
                &&& open ==> el.bounds == e.bounds && el.kind.points() == e.points@
                &&& r.selection == seq![d.id]
                &&& r.tool == ActiveTool::Select
                &&& r.history == b.history.recorded(b.scene)
                &&& r.dirty
            }
        }),
{
    reveal(BoardV::dragged);
    reveal(BoardV::drag_ended);
    reveal(BoardV::shape_released);
    let pressed = b.down_acted(p, ink, eraser);
    let moved = pressed.pointer_moved(m);
    let r = moved.left_released(e);
    assert(moved.draft is Some);
    if !((b.tool == ActiveTool::Line || b.tool == ActiveTool::Arrow) && e.zero_length) {
        assert(r.scene.drop_last() =~= b.scene);
    }
}

/// A shape tool that is clicked without a drag leaves a shape of its kind of the
/// default size.
pub proof fn law_a_click_draws_the_default_shape<F>(
    b: BoardV<F>,
    p: Press<F>,
    ink: InkStart<F>,
    eraser: bool,
    e: Release<F>,
)
    requires
        shape_tool(b.tool),
        b.draft is None,
        !p.modifiers.shift,
        !p.modifiers.ctrl,
        !e.over_panel,
        !e.zero_length || !(b.tool == ActiveTool::Line || b.tool == ActiveTool::Arrow),
    ensures
        ({
            let r = b.down_acted(p, ink, eraser).left_released(e);
            let el = r.scene.last();
            let open = b.tool == ActiveTool::Line || b.tool == ActiveTool::Arrow;
            &&& gained(r.scene, b.scene)
            &&& of_tool(el.kind, b.tool)
            &&& el.id == e.click_draft.id
            &&& !open ==> el.bounds == e.click_draft.bounds
            &&& open ==> el.bounds == e.bounds && el.kind.points() == e.points@
            &&& el.style == b.style
            &&& r.selection == seq![el.id]
            &&& r.tool == ActiveTool::Select
            &&& r.history == b.history.recorded(b.scene)
        }),
{
    let pressed = b.down_acted(p, ink, eraser);
    law_a_press_starts_a_drawing(b, p, ink, eraser);
    lemma_click_released(pressed, p.world, p.fresh.seed, e);
    assert(pressed.release_click(p.fresh.seed, e).scene.drop_last() =~= b.scene);
}

impl<F> BoardV<F> {
    /// The board after a click of a shape tool was released.
    spec fn release_click(self, seed: u64, e: Release<F>) -> Self {
        BoardV { drag: DragV::Idle, ..self }.drafted(e.click_draft, seed).shape_released(e)
    }
}

proof fn lemma_click_released<F>(b: BoardV<F>, start: WPoint<F>, seed: u64, e: Release<F>)
    requires
        b.drag == (DragV::Drawing { start, seed }),
        b.draft is None,
        shape_tool(b.tool),
        !e.over_panel,
        !e.zero_length || !(b.tool == ActiveTool::Line || b.tool == ActiveTool::Arrow),
    ensures
        b.left_released(e) == (BoardV {
            temp_pen: false,
            temp_pan: false,
            ..b.release_click(seed, e)
        }),
        b.release_click(seed, e).scene.len() == b.scene.len() + 1,
        b.release_click(seed, e).scene.drop_last() == b.scene,
        b.release_click(seed, e).history == b.history.recorded(b.scene),
        b.release_click(seed, e).tool == ActiveTool::Select,
        ({
            let r = b.release_click(seed, e);
            let el = r.scene.last();
            let open = b.tool == ActiveTool::Line || b.tool == ActiveTool::Arrow;
            &&& of_tool(el.kind, b.tool)
            &&& el.id == e.click_draft.id
            &&& !open ==> el.bounds == e.click_draft.bounds
            &&& open ==> el.bounds == e.bounds && el.kind.points() == e.points@
            &&& el.style == b.style
            &&& r.selection == seq![el.id]
        }),
{
    reveal(BoardV::drag_ended);
    reveal(BoardV::shape_released);
    let idle = BoardV { drag: DragV::<F>::Idle, ..b };
    law_a_draft_is_of_its_tool(idle, e.click_draft, seed);
    assert(b.release_click(seed, e).scene.drop_last() =~= b.scene);
}

/// The text tool that is released leaves an empty text on top of the scene, in
/// the board's font and alignment, and edits it: at the press for a click, at the
/// corner of the dragged box with its wrap width for a drag.
pub proof fn law_the_text_tool_writes_a_text<F>(b: BoardV<F>, start: WPoint<F>, seed: u64, e: Release<F>)
    requires
        b.tool == ActiveTool::Text,
        b.drag == (DragV::Drawing { start, seed }),
        !e.over_panel,
        !has_id(b.scene, e.fresh.id),
    ensures
        ({
            let r = b.left_released(e);
            let el = r.scene.last();
            &&& gained(r.scene, b.scene)
            &&& el.id == e.fresh.id
            &&& el.kind matches KindV::Text {
                text,
                font_size,
                font_family,
                wrap_width,
                min_height,
                container_id,
                text_align,
                ..
            } && {
                &&& text.len() == 0
                &&& font_size == b.text_font_size
                &&& font_family == b.text_font_family
                &&& wrap_width == (if e.dragged {
                    Some(e.wrap)
                } else {
                    None
                })
                &&& min_height is None
                &&& container_id is None
                &&& text_align == b.text_align
            }
            &&& !e.dragged ==> el.bounds.x == start.x && el.bounds.y == start.y
            &&& e.dragged && b.draft is Some ==> el.bounds.x == b.draft->Some_0.bounds.x
                && el.bounds.y == b.draft->Some_0.bounds.y
            &&& el.bounds.w == e.zero && el.bounds.h == e.line_box
            &&& el.style.stroke == b.style.stroke
            &&& el.style.roughness == e.zero
            &&& r.selection == seq![el.id]
            &&& r.editing matches Some(s) && s.element_id == el.id && s.is_new && s.container_id
                is None
            &&& r.history == b.history.recorded(b.scene)
            &&& r.pending_measure == b.pending_measure.push(el.id)
        }),
{
    reveal(BoardV::drag_ended);
    reveal(BoardV::text_released);
    reveal(BoardV::edit_started);
    let r = b.left_released(e);
    let el = r.scene.last();
    assert(r.scene.drop_last() =~= b.scene);
    lemma_place_of(r.scene, el.id);
    assert(r.scene[b.scene.len() as int].id == el.id);
    assert(place_of(r.scene, el.id) == b.scene.len()) by {
        let k = place_of(r.scene, el.id);
        if k < b.scene.len() {
            assert(b.scene[k].id == el.id);
        }
    }
}

/// A press of the pen, or of any other tool with the shift key, starts a stroke at
/// the pointer; with the control key, or with the hand tool, it starts to pan. The
/// tool stays, and the scene too.
pub proof fn law_a_press_starts_a_stroke_or_a_pan<F>(
    b: BoardV<F>,
    p: Press<F>,
    ink: InkStart<F>,
    eraser: bool,
)
    ensures
        ({
            let r = b.down_acted(p, ink, eraser);
            let sketches = if p.modifiers.shift && b.tool != ActiveTool::Pen {
                true
            } else {
                b.tool == ActiveTool::Pen && !eraser && !p.modifiers.ctrl
            };
            let pans = !(p.modifiers.shift && b.tool != ActiveTool::Pen) && ((p.modifiers.ctrl
                && b.tool != ActiveTool::Hand) || b.tool == ActiveTool::Hand);
            &&& sketches ==> (r.drag matches DragV::Freedraw { collector, seed } && seed
                == p.fresh.seed && collector.points == seq![p.world] && collector.taper
                == b.pen_taper && collector.zoom == ink.zoom && collector.min_dist
                == ink.min_dist && collector.widths == (if b.pen_taper {
                seq![ink.facts.width]
            } else {
                Seq::empty()
            }))
            &&& pans ==> r.drag == DragV::Panning { last: p.screen }
            &&& sketches || pans ==> r.scene == b.scene && r.selection == b.selection && r.tool
                == b.tool && r.history == b.history
            &&& r.temp_pen == (b.temp_pen || (p.modifiers.shift && b.tool != ActiveTool::Pen)) || !(
            sketches || pans)
            &&& pans && b.tool != ActiveTool::Hand ==> r.temp_pan
        }),
{
    if let DragV::Freedraw { collector, .. } = b.stroke_begun(ink, p.world, p.fresh.seed) {
        assert(collector.points =~= seq![p.world]);
        assert(collector.widths =~= (if b.pen_taper {
            seq![ink.facts.width]
        } else {
            Seq::empty()
        }));
    }
}

/// A released stroke lies on top of the scene with the released points, one width
/// per point as it was captured, in the board's style and under the seed of its
/// draft. It is not selected, and the tool stays. A stroke without a point leaves
/// nothing.
pub proof fn law_a_released_stroke_is_drawn<F>(b: BoardV<F>, e: Release<F>)
    requires
        b.drag is Freedraw,
        !e.over_panel,
    ensures
        ({
            let r = b.left_released(e);
            let el = r.scene.last();
            let (c, seed) = (b.drag->collector, b.drag->Freedraw_seed);
            &&& r.drag is Idle && r.tool == b.tool && r.selection == b.selection && !r.temp_pen
                && !r.temp_pan
            &&& c.points.len() == 0 ==> r.scene == b.scene && r.history == b.history
            &&& c.points.len() > 0 ==> {
                &&& gained(r.scene, b.scene)
                &&& el.kind matches KindV::Freedraw { points, widths } && points == e.points@
                    && widths == c.widths
                &&& el.bounds == e.bounds
                &&& el.seed == seed
                &&& el.style == b.style
                &&& el.id == e.fresh.id
                &&& r.history == b.history.recorded(b.scene)
                &&& r.dirty
            }
        }),
{
    reveal(BoardV::drag_ended);
    let r = b.left_released(e);
    if b.drag->collector.points.len() > 0 {
        assert(r.scene.drop_last() =~= b.scene);
    }
}

/// A release over the panel abandons the drag, and the release of a drag that
/// draws nothing only ends it.
pub proof fn law_other_releases_only_end_the_drag<F>(b: BoardV<F>, e: Release<F>)
    requires
        e.over_panel || !(b.drag is Drawing || b.drag is Freedraw),
    ensures
        b.left_released(e).drag is Idle,
        b.left_released(e).scene == b.scene,
        b.left_released(e).history == b.history,
        b.left_released(e).selection == b.selection,
        b.left_released(e).tool == b.tool,
{
    reveal(BoardV::drag_ended);
}

/// A resized element has the box it was handed, and a path exactly the scaled
/// points, with its heads, widths and smoothness as they were. Nothing else about
/// it changes.
pub proof fn law_resized_paths_have_the_scaled_points<F>(el: ElementV<F>, h: Handle, r: Resized<F>)
    requires
        !(el.kind is Text),
    ensures
        ({
            let n = resized(el, h, r);
            &&& n.bounds == r.bounds
            &&& el.kind is Line || el.kind is Arrow || el.kind is Freedraw || el.kind is Polygon
                ==> n.kind.points() == r.points@
            &&& same_but_points(el.kind, n.kind)
            &&& n.id == el.id && n.seed == el.seed && n.style == el.style
        }),
{
}

/// A text that is resized goes to the new corner and keeps its characters, its
/// font and its container. A corner handle scales its font, and its wrap width and
/// its height where it has them; a side sets the wrap width and nothing else; the
/// top and the bottom set the height and let the text hug its content.
pub proof fn law_resized_texts_keep_their_text<F>(el: ElementV<F>, h: Handle, r: Resized<F>)
    requires
        el.kind is Text,
    ensures
        ({
            let n = resized(el, h, r);
            let (k, m) = (el.kind, n.kind);
            let corner = h == Handle::Nw || h == Handle::Ne || h == Handle::Se || h == Handle::Sw;
            let side = h == Handle::E || h == Handle::W;
            &&& m is Text
            &&& m->Text_text == k->Text_text && m->font_family == k->font_family && m->text_align
                == k->text_align && m->container_id == k->container_id && m->anchor == k->anchor
            &&& n.bounds.x == r.bounds.x && n.bounds.y == r.bounds.y
            &&& n.bounds.w == el.bounds.w && n.bounds.h == el.bounds.h
            &&& n.id == el.id && n.seed == el.seed && n.style == el.style
            &&& corner ==> m->font_size == r.font_size && (k->wrap_width is Some ==> m->wrap_width
                == Some(r.wrap)) && (k->wrap_width is None ==> m->wrap_width is None) && (
            k->min_height is Some ==> m->min_height == Some(r.height)) && (k->min_height is None
                ==> m->min_height is None)
            &&& side ==> m->font_size == k->font_size && m->wrap_width == Some(r.wrap)
                && m->min_height == k->min_height
            &&& !corner && !side ==> m->font_size == k->font_size && m->wrap_width is None
                && m->min_height == Some(r.height)
        }),
{
}

/// Whether the originals are in the scene under different identities.
pub open spec fn originals_apart<F>(s: Seq<ElementV<F>>, originals: Seq<ElementV<F>>) -> bool {
    &&& forall|i: int| 0 <= i < originals.len() ==> has_id(s, (#[trigger] originals[i]).id)
    &&& forall|i: int, j: int|
        0 <= i < j < originals.len() ==> (#[trigger] originals[i]).id != (#[trigger] originals[j]).id
}

proof fn lemma_same_places<F>(s: Seq<ElementV<F>>, t: Seq<ElementV<F>>, id: ElementId)
    requires
        s.len() == t.len(),
        forall|i: int| 0 <= i < s.len() ==> (#[trigger] s[i]).id == t[i].id,
    ensures
        place_of(s, id) == place_of(t, id),
        has_id(s, id) == has_id(t, id),
{
    lemma_place_of(s, id);
    lemma_place_of(t, id);
    let (p, q) = (place_of(s, id), place_of(t, id));
    if p < q {
        assert(s[p].id == t[p].id);
    } else if q < p {
        assert(s[q].id == t[q].id);
    }
}

/// The elements with the first `n` of `vs` put in place of those that have their
/// identities.
spec fn put_upto<F>(s: Seq<ElementV<F>>, vs: Seq<ElementV<F>>, n: int) -> Seq<ElementV<F>>
    decreases n,
{
    if n <= 0 {
        s
    } else {
        let t = put_upto(s, vs, n - 1);
        if has_id(t, vs[n - 1].id) {
            t.update(place_of(t, vs[n - 1].id), vs[n - 1])
        } else {
            t
        }
    }
}

proof fn lemma_put_upto<F>(s: Seq<ElementV<F>>, vs: Seq<ElementV<F>>, n: int)
    requires
        originals_apart(s, vs),
        0 <= n <= vs.len(),
    ensures
        put_upto(s, vs, n).len() == s.len(),
        forall|k: int| 0 <= k < s.len() ==> (#[trigger] put_upto(s, vs, n)[k]).id == s[k].id,
        forall|i: int|
            0 <= i < n ==> put_upto(s, vs, n)[place_of(s, (#[trigger] vs[i]).id)] == vs[i],
        forall|k: int|
            0 <= k < s.len() && (forall|i: int|
                0 <= i < n ==> place_of(s, (#[trigger] vs[i]).id) != k) ==> #[trigger] put_upto(
                s,
                vs,
                n,
            )[k] == s[k],
    decreases n,
{
    if n > 0 {
        lemma_put_upto(s, vs, n - 1);
        let t = put_upto(s, vs, n - 1);
        let r = put_upto(s, vs, n);
        let v = vs[n - 1];
        lemma_same_places(s, t, v.id);
        lemma_place_of(s, v.id);
        assert forall|i: int| 0 <= i < n implies r[place_of(s, (#[trigger] vs[i]).id)] == vs[i] by {
            if i < n - 1 {
                lemma_place_of(s, vs[i].id);
                assert(vs[i].id != vs[n - 1].id);
            }
        }
        assert forall|k: int|
            0 <= k < s.len() && (forall|i: int|
                0 <= i < n ==> place_of(s, (#[trigger] vs[i]).id) != k) implies #[trigger] r[k]
            == s[k] by {
            assert(place_of(s, vs[n - 1].id) != k);
            assert(forall|i: int| 0 <= i < n - 1 ==> place_of(s, (#[trigger] vs[i]).id) != k);
            assert(t[k] == s[k]);
        }
    }
}

/// What the originals are resized to.
spec fn new_shapes<F>(originals: Seq<ElementV<F>>, h: Handle, parts: Seq<Resized<F>>) -> Seq<
    ElementV<F>,
> {
    Seq::new(originals.len(), |i: int| resized(originals[i], h, parts[i]))
}

proof fn lemma_resized_as_put<F>(
    b: BoardV<F>,
    originals: Seq<ElementV<F>>,
    h: Handle,
    parts: Seq<Resized<F>>,
    n: int,
)
    requires
        0 <= n <= originals.len(),
    ensures
        b.resized_upto(originals, h, parts, n).scene == put_upto(
            b.scene,
            new_shapes(originals, h, parts),
            n,
        ),
        b.resized_upto(originals, h, parts, n).selection == b.selection,
    decreases n,
{
    if n > 0 {
        lemma_resized_as_put(b, originals, h, parts, n - 1);
        assert(new_shapes(originals, h, parts)[n - 1] == resized(originals[n - 1], h, parts[n - 1]));
        assert(resized(originals[n - 1], h, parts[n - 1]).id == originals[n - 1].id);
    }
}

/// What is no text is not wrapped anew.
proof fn lemma_only_texts_rewrap<F>(b: BoardV<F>, ids: Seq<ElementId>, wraps: Seq<F>, k: int)
    requires
        0 <= k < b.scene.len(),
    ensures
        b.relabelled(ids, wraps).scene.len() == b.scene.len(),
        b.relabelled(ids, wraps).scene[k].id == b.scene[k].id,
        !(b.scene[k].kind is Text) ==> b.relabelled(ids, wraps).scene[k] == b.scene[k],
        b.relabelled(ids, wraps).selection == b.selection,
{
}

/// Dragging a handle gives every selected element its own new shape: a path its
/// scaled points and its box. The elements that are neither selected nor a label
/// of a selected one are left alone, and nothing comes or goes.
pub proof fn law_a_resize_reshapes_the_selection<F>(b: BoardV<F>, m: PointerMove<F>, i: int, k: int)
    requires
        b.drag is Resizing,
        !m.over_panel,
        b.move_fits(m.facts),
        originals_apart(b.scene, b.drag->originals),
        0 <= i < b.drag->originals.len(),
        !(b.drag->originals[i].kind is Text),
        0 <= k < b.scene.len(),
    ensures
        ({
            let a = b.pointer_moved(m);
            let o = b.drag->originals[i];
            let part = m.facts->parts@[i];
            let e = a.scene[place_of(b.scene, o.id)];
            &&& a.scene.len() == b.scene.len()
            &&& a.scene[k].id == b.scene[k].id
            &&& e.bounds == part.bounds
            &&& o.kind is Line || o.kind is Arrow || o.kind is Freedraw || o.kind is Polygon
                ==> e.kind.points() == part.points@
            &&& same_but_points(o.kind, e.kind)
            &&& e.style == o.style
            &&& (forall|j: int|
                0 <= j < b.drag->originals.len() ==> place_of(
                    b.scene,
                    (#[trigger] b.drag->originals[j]).id,
                ) != k) && !(b.scene[k].kind is Text) ==> a.scene[k] == b.scene[k]
            &&& a.selection == b.selection
        }),
{
    reveal(BoardV::dragged);
    let c = BoardV { modifiers: m.modifiers, ..b };
    let originals = b.drag->originals;
    let h = b.drag->handle;
    let parts = m.facts->parts@;
    let n = originals.len() as int;
    let vs = new_shapes(originals, h, parts);
    let d = c.recorded_once(b.drag->Resizing_recorded);
    let r = d.resized_upto(originals, h, parts, n);
    lemma_resized_as_put(d, originals, h, parts, n);
    assert forall|j: int| 0 <= j < n implies (#[trigger] vs[j]).id == originals[j].id by {}
    assert(originals_apart(b.scene, vs)) by {
        assert forall|j: int| 0 <= j < vs.len() implies has_id(b.scene, (#[trigger] vs[j]).id) by {
            assert(has_id(b.scene, originals[j].id));
        }
        assert forall|j: int, l: int| 0 <= j < l < vs.len() implies (#[trigger] vs[j]).id != (
        #[trigger] vs[l]).id by {
            assert(originals[j].id != originals[l].id);
        }
    }
    lemma_put_upto(b.scene, vs, n);
    let at = place_of(b.scene, originals[i].id);
    lemma_place_of(b.scene, originals[i].id);
    assert(has_id(b.scene, originals[i].id));
    assert(vs[i].id == originals[i].id);
    assert(r.scene[at] == vs[i]);
    law_resized_paths_have_the_scaled_points(originals[i], h, parts[i]);
    let ids = Seq::new(originals.len(), |j: int| originals[j].id);
    lemma_only_texts_rewrap(r, ids, m.facts->Resize_wraps@, at);
    lemma_only_texts_rewrap(r, ids, m.facts->Resize_wraps@, k);
    if forall|j: int|
        0 <= j < originals.len() ==> place_of(b.scene, (#[trigger] originals[j]).id) != k {
        assert forall|j: int| 0 <= j < n implies place_of(b.scene, (#[trigger] vs[j]).id) != k by {
            assert(place_of(b.scene, originals[j].id) != k);
        }
        assert(r.scene[k] == b.scene[k]);
    }
}

/// A dragged vertex goes to the pointer and the others stay; a dragged midpoint
/// becomes a new vertex there, between the two it lay between. The element takes
/// the box around them, and keeps its identity, its style and all but its points.
pub proof fn law_dragged_points_go_to_the_pointer<F>(
    el: ElementV<F>,
    target: PointTarget,
    points: Seq<WPoint<F>>,
    at: WPoint<F>,
    bounds: WBounds<F>,
    j: int,
)
    requires
        el.kind is Line || el.kind is Arrow,
        points.len() == el.kind.points().len(),
    ensures
        ({
            let n = point_dragged(el, target, points, at, bounds);
            &&& n.id == el.id && n.style == el.style && n.seed == el.seed
            &&& same_but_points(el.kind, n.kind)
            &&& match target {
                PointTarget::Vertex(i) => if i < points.len() {
                    &&& n.bounds == bounds
                    &&& n.kind.points().len() == points.len()
                    &&& n.kind.points()[i as int] == at
                    &&& 0 <= j < points.len() && j != i ==> n.kind.points()[j] == points[j]
                } else {
                    n == el
                },
                PointTarget::Midpoint(i) => if i + 1 < points.len() {
                    &&& n.bounds == bounds
                    &&& n.kind.points().len() == points.len() + 1
                    &&& n.kind.points()[i + 1] == at
                    &&& 0 <= j <= i ==> n.kind.points()[j] == points[j]
                    &&& i < j < points.len() ==> n.kind.points()[j + 1] == points[j]
                } else {
                    n == el
                },
            }
        }),
{
}

/// Whether element `i` is hit and nothing above it is.
pub open spec fn topmost_hit<F>(s: Seq<ElementV<F>>, facts: Seq<HitFacts>, i: int) -> bool {
    &&& 0 <= i < s.len()
    &&& hit_spec(s[i].kind, facts[i])
    &&& forall|j: int| i < j < s.len() ==> !hit_spec((#[trigger] s[j]).kind, facts[j])
}

/// What the pointer finds is the topmost element that it hits, and nothing exactly
/// when it hits none.
pub proof fn law_the_topmost_hit_is_found<F>(s: Seq<ElementV<F>>, facts: Seq<HitFacts>)
    ensures
        match top_hit(s, facts) {
            Some(id) => exists|i: int| #[trigger] topmost_hit(s, facts, i) && s[i].id == id,
            None => forall|i: int|
                0 <= i < s.len() ==> !hit_spec((#[trigger] s[i]).kind, facts[i]),
        },
    decreases s.len(),
{
    if s.len() > 0 {
        let d = s.drop_last();
        let n = s.len() - 1;
        if hit_spec(s.last().kind, facts[n]) {
            assert(topmost_hit(s, facts, n));
        } else {
            law_the_topmost_hit_is_found(d, facts);
            if let Some(id) = top_hit(d, facts) {
                let i = choose|i: int| #[trigger] topmost_hit(d, facts, i) && d[i].id == id;
                assert forall|j: int| i < j < s.len() implies !hit_spec(
                    (#[trigger] s[j]).kind,
                    facts[j],
                ) by {
                    if j < n {
                        assert(s[j] == d[j]);
                    }
                }
                assert(topmost_hit(s, facts, i));
            } else {
                assert forall|i: int| 0 <= i < s.len() implies !hit_spec(
                    (#[trigger] s[i]).kind,
                    facts[i],
                ) by {
                    if i < n {
                        assert(s[i] == d[i]);
                    }
                }
            }
        }
    }
}

/// A click on a label means its container, and one on anything else means that.
pub proof fn law_labels_stand_for_their_container<F>(s: Seq<ElementV<F>>, id: ElementId)
    ensures
        !has_id(s, id) ==> resolved(s, id) == id,
        has_id(s, id) ==> match s[place_of(s, id)].kind {
            KindV::Text { container_id: Some(c), .. } => resolved(s, id) == c && container_at(s, id)
                == Some(c),
            _ => resolved(s, id) == id && container_at(s, id) is None,
        },
{
}

/// A plain click selects what it hits, alone unless it was selected already; a
/// click with the shift key puts it in or takes it out and keeps the others.
pub proof fn law_clicks_select<F>(s: Seq<ElementId>, id: ElementId, shift: bool, other: ElementId)
    ensures
        !shift ==> clicked(s, id, shift).contains(id),
        !shift && s.contains(id) ==> clicked(s, id, shift) == s,
        !shift && !s.contains(id) ==> clicked(s, id, shift) == seq![id],
        shift ==> clicked(s, id, shift).contains(id) != s.contains(id),
        shift && other != id ==> clicked(s, id, shift).contains(other) == s.contains(other),
{
    let c = clicked(s, id, shift);
    if shift {
        lemma_deselected(s, id);
        if !s.contains(id) {
            assert(c[s.len() as int] == id);
            if other != id {
                if s.contains(other) {
                    let i = choose|i: int| 0 <= i < s.len() && s[i] == other;
                    assert(c[i] == other);
                }
                if c.contains(other) {
                    let i = choose|i: int| 0 <= i < c.len() && c[i] == other;
                    assert(s[i] == other);
                }
            }
        }
    } else if !s.contains(id) {
        assert(c[0] == id);
    }
}

/// Deselecting takes out exactly the one.
pub proof fn lemma_deselected(s: Seq<ElementId>, id: ElementId)
    ensures
        forall|x: ElementId| #[trigger] deselected(s, id).contains(x) <==> s.contains(x) && x != id,
    decreases s.len(),
{
    reveal(Seq::filter);
    let r = deselected(s, id);
    if s.len() > 0 {
        let d = s.drop_last();
        lemma_deselected(d, id);
        let q = deselected(d, id);
        assert forall|x: ElementId| #[trigger] r.contains(x) <==> s.contains(x) && x != id by {
            if r.contains(x) {
                let i = choose|i: int| 0 <= i < r.len() && r[i] == x;
                if i < q.len() {
                    assert(q[i] == x);
                    assert(q.contains(x));
                    let j = choose|j: int| 0 <= j < d.len() && d[j] == x;
                    assert(s[j] == x);
                } else {
                    assert(s[s.len() - 1] == x);
                }
            }
            if s.contains(x) && x != id {
                let j = choose|j: int| 0 <= j < s.len() && s[j] == x;
                if j < d.len() {
                    assert(d[j] == x);
                    assert(q.contains(x));
                    let i = choose|i: int| 0 <= i < q.len() && q[i] == x;
                    assert(r[i] == x);
                } else {
                    assert(r[q.len() as int] == x);
                }
            }
        }
    }
}

proof fn lemma_marked<F>(s: Seq<ElementV<F>>, marks: Seq<bool>, id: ElementId)
    ensures
        marked_ids(s, marks).contains(id) <==> exists|i: int|
            0 <= i < s.len() && marks[i] && (#[trigger] s[i]).id == id,
    decreases s.len(),
{
    if s.len() > 0 {
        let d = s.drop_last();
        let n = s.len() - 1;
        lemma_marked(d, marks, id);
        let (r, q) = (marked_ids(s, marks), marked_ids(d, marks));
        if r.contains(id) {
            let k = choose|k: int| 0 <= k < r.len() && r[k] == id;
            if k < q.len() {
                assert(q[k] == id);
                assert(q.contains(id));
                let i = choose|i: int| 0 <= i < d.len() && marks[i] && (#[trigger] d[i]).id == id;
                assert(s[i].id == id);
            } else {
                assert(s[n].id == id);
            }
        }
        if exists|i: int| 0 <= i < s.len() && marks[i] && (#[trigger] s[i]).id == id {
            let i = choose|i: int| 0 <= i < s.len() && marks[i] && (#[trigger] s[i]).id == id;
            if i < n {
                assert(d[i].id == id);
                assert(q.contains(id));
                let k = choose|k: int| 0 <= k < q.len() && q[k] == id;
                assert(r[k] == id);
            } else {
                assert(r[q.len() as int] == id);
            }
        }
    }
}

proof fn lemma_joined(base: Seq<ElementId>, ids: Seq<ElementId>, id: ElementId)
    ensures
        joined_selection(base, ids).contains(id) <==> base.contains(id) || ids.contains(id),
    decreases ids.len(),
{
    if ids.len() > 0 {
        let d = ids.drop_last();
        lemma_joined(base, d, id);
        let (r, q) = (joined_selection(base, ids), joined_selection(base, d));
        lemma_joined(base, d, ids.last());
        if ids.contains(id) {
            let i = choose|i: int| 0 <= i < ids.len() && ids[i] == id;
            if i < d.len() {
                assert(d[i] == id);
            }
        }
        if d.contains(id) {
            let i = choose|i: int| 0 <= i < d.len() && d[i] == id;
            assert(ids[i] == id);
        }
        assert(ids[ids.len() - 1] == ids.last());
        if !q.contains(ids.last()) {
            assert(r[q.len() as int] == ids.last());
            if q.contains(id) {
                let i = choose|i: int| 0 <= i < q.len() && q[i] == id;
                assert(r[i] == id);
            }
            if r.contains(id) {
                let i = choose|i: int| 0 <= i < r.len() && r[i] == id;
                if i < q.len() {
                    assert(q[i] == id);
                }
            }
        }
    }
}

/// A rubber band selects exactly what was selected when it started and what it
/// touches now.
pub proof fn law_a_rubber_band_selects_what_it_touches<F>(
    b: BoardV<F>,
    m: PointerMove<F>,
    id: ElementId,
)
    requires
        b.drag is Marquee,
        !m.over_panel,
        m.facts is Band,
    ensures
        ({
            let a = b.pointer_moved(m);
            &&& a.selection.contains(id) <==> b.drag->base_selection.contains(id) || exists|i: int|
                0 <= i < b.scene.len() && m.facts->inside@[i] && (#[trigger] b.scene[i]).id == id
            &&& a.scene == b.scene
            &&& a.drag == DragV::Marquee {
                start: b.drag->Marquee_start,
                current: m.world,
                base_selection: b.drag->base_selection,
            }
        }),
{
    reveal(BoardV::dragged);
    lemma_marked(b.scene, m.facts->inside@, id);
    lemma_joined(b.drag->base_selection, marked_ids(b.scene, m.facts->inside@), id);
}

/// A press of the select tool on the empty canvas starts a rubber band: it drops
/// the selection unless the shift key is down.
pub proof fn law_a_press_on_nothing_starts_a_rubber_band<F>(b: BoardV<F>, p: Press<F>)
    requires
        top_hit(b.scene, p.hits@) is None,
        !b.has_box(),
        b.selected_line() is None || p.point is None,
    ensures
        ({
            let r = b.select_pressed(p);
            let kept = if p.modifiers.shift {
                b.selection
            } else {
                Seq::empty()
            };
            &&& r.selection == kept
            &&& r.drag == DragV::Marquee { start: p.world, current: p.world, base_selection: kept }
            &&& r.scene == b.scene && r.history == b.history
        }),
{
    reveal(BoardV::canvas_pressed);
}

/// A plain press of the select tool on an element selects it, or its container,
/// and starts to move it; a press on a resize handle resizes all that is selected,
/// one on a control point of the selected line drags that, and one inside the box
/// of the selection moves it, whatever lies below.
pub proof fn law_a_press_grabs_what_is_there<F>(b: BoardV<F>, p: Press<F>)
    ensures
        ({
            let r = b.select_pressed(p);
            let line = b.selected_line();
            &&& line is Some && p.point is Some ==> (r.drag matches DragV::EditingPoint {
                element,
                original,
                target,
                recorded,
            } && element == line->Some_0 && original == b.scene[place_of(b.scene, element)]
                && target == p.point->Some_0 && !recorded && r.selection == b.selection)
            &&& !(line is Some && p.point is Some) && b.has_box() && p.handle is Some ==> (
            r.drag matches DragV::Resizing { handle, original_bounds, originals, recorded } && handle
                == p.handle->Some_0 && original_bounds == p.selection_box && originals
                == live_elements(b.scene, b.selection) && !recorded && r.selection == b.selection)
            &&& !(line is Some && p.point is Some) && b.has_box() && p.handle is None
                && !p.modifiers.shift && p.in_selection ==> r.drag == (DragV::Moving {
                last: p.world,
                recorded: false,
            }) && r.selection == b.selection
            &&& !b.has_box() && !(line is Some && p.point is Some) && !p.modifiers.shift && p.clicks
                != 2 && (top_hit(b.scene, p.hits@) matches Some(raw) && !b.selection.contains(
                resolved(b.scene, raw),
            )) ==> r.selection == seq![resolved(b.scene, top_hit(b.scene, p.hits@)->Some_0)]
                && r.drag == (DragV::Moving { last: p.world, recorded: false })
            &&& r.tool == b.tool
        }),
{
    reveal(BoardV::canvas_pressed);
    reveal(BoardV::element_pressed);
    reveal(BoardV::pressed_on);
    reveal(BoardV::edit_started);
    reveal(BoardV::label_opened);
}

/// The selected line is the one selected element when that is a line or an arrow
/// and nothing is edited.
pub proof fn law_the_selected_line_is_a_line<F>(b: BoardV<F>)
    ensures
        match b.selected_line() {
            Some(id) => {
                &&& b.selection == seq![id]
                &&& b.editing is None
                &&& has_id(b.scene, id)
                &&& b.scene[place_of(b.scene, id)].kind is Line || b.scene[place_of(
                    b.scene,
                    id,
                )].kind is Arrow
            },
            None => !(b.selection.len() == 1 && b.editing is None && has_id(
                b.scene,
                b.selection[0],
            ) && (b.scene[place_of(b.scene, b.selection[0])].kind is Line || b.scene[place_of(
                b.scene,
                b.selection[0],
            )].kind is Arrow)),
        },
{
    lemma_place_of(b.scene, b.selection[0]);
    if let Some(id) = b.selected_line() {
        assert(b.selection =~= seq![id]);
    }
}

/// The selected elements are those of the selection that are in the scene, as they
/// are there.
pub proof fn law_selected_elements_are_in_the_scene<F>(
    s: Seq<ElementV<F>>,
    ids: Seq<ElementId>,
    k: int,
)
    requires
        0 <= k < live_elements(s, ids).len(),
    ensures
        ids.contains(live_elements(s, ids)[k].id),
        has_id(s, live_elements(s, ids)[k].id),
        live_elements(s, ids)[k] == s[place_of(s, live_elements(s, ids)[k].id)],
        live_elements(s, ids).len() <= ids.len(),
    decreases ids.len(),
{
    if ids.len() > 0 {
        let d = ids.drop_last();
        lemma_place_of(s, ids.last());
        lemma_live_len(s, d);
        if k < live_elements(s, d).len() {
            law_selected_elements_are_in_the_scene(s, d, k);
            let i = choose|i: int| 0 <= i < d.len() && d[i] == live_elements(s, d)[k].id;
            assert(ids[i] == live_elements(s, ids)[k].id);
        } else {
            assert(ids[ids.len() - 1] == live_elements(s, ids)[k].id);
        }
    }
}

proof fn lemma_live_len<F>(s: Seq<ElementV<F>>, ids: Seq<ElementId>)
    ensures
        live_elements(s, ids).len() <= ids.len(),
    decreases ids.len(),
{
    if ids.len() > 0 {
        lemma_live_len(s, ids.drop_last());
    }
}

/// The eraser removes what it hits, with its labels, from the scene and from the
/// selection; the first removal of a drag is its step of the history, and a drag
/// that hits nothing leaves the board as it was.
pub proof fn law_the_eraser_removes_what_it_hits<F>(
    b: BoardV<F>,
    hit: Option<ElementId>,
    removed_any: bool,
)
    ensures
        match hit {
            Some(id) => {
                let (f, n) = (b.erase_begun(hit), b.erased_on(removed_any, hit));
                &&& f.scene == crate::board::removed(b.scene, id) && n.scene == f.scene
                &&& !f.selection.contains(id) && !n.selection.contains(id)
                &&& f.drag == DragV::Erasing::<F> { removed_any: true } && n.drag == f.drag
                &&& f.history == b.history.recorded(b.scene)
                &&& removed_any ==> n.history == b.history
                &&& !removed_any ==> n.history == b.history.recorded(b.scene)
                &&& f.dirty && n.dirty
            },
            None => {
                let (f, n) = (b.erase_begun(hit), b.erased_on(removed_any, hit));
                &&& f.scene == b.scene && n.scene == b.scene
                &&& f.selection == b.selection && n.selection == b.selection
                &&& f.history == b.history && n.history == b.history
                &&& n.drag == DragV::Erasing::<F> { removed_any }
                &&& f.drag == DragV::Erasing::<F> { removed_any: false }
            },
        },
{
    if let Some(id) = hit {
        lemma_deselected(b.selection, id);
    }
}

/// A single plain click on the label of a container that is selected already edits
/// that label; any other press on a label means its container.
pub proof fn law_a_click_on_a_selected_label_edits_it<F>(b: BoardV<F>, raw: ElementId, p: Press<F>)
    requires
        has_id(b.scene, raw),
    ensures
        ({
            let a = b.element_pressed(raw, p);
            let c = b.scene[place_of(b.scene, raw)].kind.bound_to();
            let edits = p.clicks == 1 && !p.modifiers.shift && c is Some && b.selection.contains(
                c->Some_0,
            );
            &&& edits ==> a.selection == seq![raw] && (a.editing matches Some(e) && e.element_id
                == raw && !e.is_new && e.container_id == c) && a.scene == b.scene && a.drag == b.drag
            &&& !edits && c is Some ==> a == b.pressed_on(c->Some_0, p)
            &&& c is None ==> a == b.pressed_on(raw, p)
        }),
{
    reveal(BoardV::element_pressed);
    reveal(BoardV::edit_started);
}

/// Without a modifier key the tool decides what a press does: the select tool
/// selects, the text tool writes, and the eraser, or the other end of the pen,
/// removes the topmost element under it.
pub proof fn law_the_tool_decides_what_a_press_does<F>(
    b: BoardV<F>,
    p: Press<F>,
    ink: InkStart<F>,
    eraser: bool,
)
    requires
        !p.modifiers.shift,
        !p.modifiers.ctrl,
    ensures
        ({
            let a = b.down_acted(p, ink, eraser);
            &&& b.tool == ActiveTool::Select ==> a == b.select_pressed(p)
            &&& b.tool == ActiveTool::Text ==> a == b.text_pressed(p)
            &&& b.tool == ActiveTool::Eraser || (b.tool == ActiveTool::Pen && eraser) ==> {
                &&& a.drag is Erasing
                &&& top_hit(b.scene, p.hits@) matches Some(id) ==> a.scene == crate::board::removed(
                    b.scene,
                    id,
                ) && !a.selection.contains(id) && a.history == b.history.recorded(b.scene)
                &&& top_hit(b.scene, p.hits@) is None ==> a.scene == b.scene && a.history
                    == b.history && a.selection == b.selection
            }
        }),
{
    if let Some(id) = top_hit(b.scene, p.hits@) {
        lemma_deselected(b.selection, id);
    }
}

/// A move over the panel is none. Any other goes on with the drag: a pan follows
/// the pointer, a stroke takes the sample, the eraser removes the topmost element
/// under it, a moved selection is moved on from where it was last, and a move that
/// changes nothing leaves the scene and the history alone.
pub proof fn law_a_move_goes_on_with_the_drag<F>(b: BoardV<F>, m: PointerMove<F>)
    requires
        m.over_panel || b.move_fits(m.facts),
    ensures
        ({
            let a = b.pointer_moved(m);
            &&& m.over_panel ==> a == b
            &&& !m.over_panel ==> a.modifiers == m.modifiers && a.tool == b.tool && a.style == b.style
            &&& !m.over_panel && b.drag is Panning ==> a.drag == DragV::Panning { last: m.screen }
                && a.scene == b.scene
            &&& !m.over_panel ==> (b.drag matches DragV::Freedraw { collector, seed } ==> {
                &&& a.drag is Freedraw
                &&& a.drag->Freedraw_seed == seed
                &&& a.drag->collector == collector.pushed(
                    m.world,
                    m.facts->Ink_at,
                    m.facts->hardware,
                    m.facts->Ink_facts,
                )
                &&& a.scene == b.scene
            })
            &&& !m.over_panel ==> (b.drag matches DragV::Erasing { removed_any } ==> {
                let hit = top_hit(b.scene, m.facts->Erase_hits@);
                &&& hit matches Some(id) ==> a.scene == crate::board::removed(b.scene, id)
                &&& hit is None ==> a.scene == b.scene && a.history == b.history
            })
            &&& !m.over_panel ==> (b.drag matches DragV::Moving { last, recorded } ==> {
                &&& m.facts->moved ==> a.drag == (DragV::Moving { last: m.world, recorded: true })
                &&& !m.facts->moved ==> a.drag == b.drag && a.scene == b.scene && a.history
                    == b.history
            })
            &&& !m.over_panel ==> (b.drag matches DragV::EditingPoint { .. } ==> !m.facts->changed
                ==> a.drag == b.drag && a.scene == b.scene && a.history == b.history)
        }),
{
    reveal(BoardV::dragged);
    if !m.over_panel {
        if let (
            DragV::Resizing { handle, originals, recorded, .. },
            MoveFacts::Resize { parts, wraps },
        ) = (b.drag, m.facts) {
            let c = BoardV { modifiers: m.modifiers, ..b };
            lemma_resize_keeps_settings(
                c.recorded_once(recorded),
                originals,
                handle,
                parts@,
                originals.len() as int,
            );
        }
    }
}

proof fn lemma_resize_keeps_settings<F>(
    b: BoardV<F>,
    originals: Seq<ElementV<F>>,
    h: Handle,
    parts: Seq<Resized<F>>,
    n: int,
)
    ensures
        b.resized_upto(originals, h, parts, n).modifiers == b.modifiers,
        b.resized_upto(originals, h, parts, n).tool == b.tool,
        b.resized_upto(originals, h, parts, n).style == b.style,
    decreases n,
{
    if n > 0 {
        lemma_resize_keeps_settings(b, originals, h, parts, n - 1);
    }
}

proof fn lemma_texts_pending<F>(
    b: BoardV<F>,
    originals: Seq<ElementV<F>>,
    h: Handle,
    parts: Seq<Resized<F>>,
    n: int,
    i: int,
)
    requires
        0 <= i < n <= originals.len(),
        originals[i].kind is Text,
    ensures
        b.resized_upto(originals, h, parts, n).pending_measure.contains(originals[i].id),
    decreases n,
{
    let r = b.resized_upto(originals, h, parts, n).pending_measure;
    let q = b.resized_upto(originals, h, parts, n - 1).pending_measure;
    if i == n - 1 {
        assert(r[q.len() as int] == originals[i].id);
    } else {
        lemma_texts_pending(b, originals, h, parts, n - 1, i);
        let k = choose|k: int| 0 <= k < q.len() && q[k] == originals[i].id;
        assert(r[k] == originals[i].id);
    }
}

/// A text that is resized is measured again.
pub proof fn law_resized_texts_are_measured<F>(b: BoardV<F>, m: PointerMove<F>, i: int)
    requires
        b.drag is Resizing,
        !m.over_panel,
        m.facts is Resize,
        0 <= i < b.drag->originals.len(),
        b.drag->originals[i].kind is Text,
    ensures
        b.pointer_moved(m).pending_measure.contains(b.drag->originals[i].id),
{
    reveal(BoardV::dragged);
    let c = BoardV { modifiers: m.modifiers, ..b };
    let originals = b.drag->originals;
    let d = c.recorded_once(b.drag->Resizing_recorded);
    let parts = m.facts->parts@;
    let n = originals.len() as int;
    lemma_texts_pending(d, originals, b.drag->handle, parts, n, i);
    let r = d.resized_upto(originals, b.drag->handle, parts, n);
    let k = choose|k: int|
        0 <= k < r.pending_measure.len() && r.pending_measure[k] == originals[i].id;
    assert(b.pointer_moved(m).pending_measure[k] == originals[i].id);
}

/// Dragging the selection puts each selected element, and each label of a selected
/// container, at its new corner, and leaves the other elements where they are.
pub proof fn law_a_drag_moves_the_selection<F>(b: BoardV<F>, m: PointerMove<F>, i: int)
    requires
        b.drag is Moving,
        !m.over_panel,
        m.facts is Shift,
        m.facts->moved,
        crate::scene::unique_ids(b.scene),
        b.selection.no_duplicates(),
        0 <= i < b.scene.len(),
    ensures
        ({
            let a = b.pointer_moved(m);
            let (was, now) = (b.scene[i], a.scene[i]);
            let c = was.kind.bound_to();
            let moves = b.selection.contains(was.id) || (c is Some && b.selection.contains(
                c->Some_0,
            ));
            &&& a.scene.len() == b.scene.len()
            &&& moves ==> now.bounds.x == m.facts->corners@[i]@[0].x && now.bounds.y
                == m.facts->corners@[i]@[0].y
            &&& !moves ==> now == was
            &&& now.bounds.w == was.bounds.w && now.bounds.h == was.bounds.h && now.kind == was.kind
                && now.id == was.id && now.style == was.style
            &&& a.selection == b.selection && a.dirty || b.drag->Moving_recorded
        }),
{
    reveal(BoardV::dragged);
    let id = b.scene[i].id;
    lemma_place_of(b.scene, id);
    assert(has_id(b.scene, id));
    let p = place_of(b.scene, id);
    if p < i {
        assert(b.scene[p].id != b.scene[i].id);
    }
    crate::input_laws::law_moves_carry_labels_along(
        b.scene,
        b.selection,
        m.facts->corners@,
        i,
    );
}

} // verus!
