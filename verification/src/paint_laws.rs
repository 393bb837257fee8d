//! What is painted, and that it is what the elements are.

use vstd::prelude::*;
use crate::board::{ActiveTool, BoardV, DragV, Handle, PointTarget};
use crate::board_text::Measured;
use crate::element::{ElementStyle, ElementV, FillStyle, KindV, LineType, StrokeStyle};
use crate::geometry::{
    body_passes, geometry_of, handle_halves, kept, part_paint_of, passes_of, shadow_passes,
    targets_of, Keep, OpPart, Outline, PaintColor, PaintRule, PaintWidth, PassRole, RoughPass,
    WorldGeom,
};
use crate::ids::ElementId;
use crate::paint::{caret_from, items_upto, line_part, parts_upto, PaintItem};
use crate::scene::{has_id, lemma_place_of, place_of};
use crate::wrap::Span;

verus! {

/// The outline that is painted is that of the element's kind: a rectangle for a
/// rectangle and for nothing else, and so for ellipses, diamonds, polygons and
/// smooth polygons. A shape without extent and a polygon of fewer than three
/// points paint nothing.
pub proof fn law_outlines_follow_the_kind<F>(e: ElementV<F>, tiny: bool, bold: bool)
    ensures
        ({
            let g = geometry_of(e, tiny, bold);
            let k = e.kind;
            &&& g == WorldGeom::Shape(Outline::Rectangle) <==> k is Rectangle && !tiny
            &&& g == WorldGeom::Shape(Outline::Ellipse) <==> k is Ellipse && !tiny
            &&& g == WorldGeom::Shape(Outline::Diamond) <==> k is Diamond && !tiny
            &&& g == WorldGeom::Shape(Outline::Polygon) <==> (k matches KindV::Polygon {
                points,
                smooth,
            } && points.len() >= 3 && !smooth)
            &&& g == WorldGeom::Shape(Outline::Spline) <==> (k matches KindV::Polygon {
                points,
                smooth,
            } && points.len() >= 3 && smooth)
            &&& (k is Rectangle || k is Ellipse || k is Diamond) && tiny ==> g == WorldGeom::Empty
            &&& (k matches KindV::Polygon { points, .. } && points.len() < 3) ==> g
                == WorldGeom::Empty
            &&& k is Text || k is Image || k is Canvas ==> g == WorldGeom::Empty
        }),
{
}

/// Shapes of two kinds never get the same outline.
pub proof fn law_outlines_tell_kinds_apart<F>(a: ElementV<F>, b: ElementV<F>, ta: bool, ba: bool, tb: bool, bb: bool)
    requires
        geometry_of(a, ta, ba) is Shape,
        geometry_of(a, ta, ba) == geometry_of(b, tb, bb),
    ensures
        a.kind is Rectangle == b.kind is Rectangle,
        a.kind is Ellipse == b.kind is Ellipse,
        a.kind is Diamond == b.kind is Diamond,
        a.kind is Polygon == b.kind is Polygon,
{
}

/// A line or an arrow of two points or more is painted as a path that is curved
/// when its style says so, with the heads that the arrow has; a line has none. A
/// freehand stroke with widths is a ribbon, one without is sampled, twice when it
/// is bold. A single point is a dot, and no point is nothing.
pub proof fn law_paths_are_painted_as_paths<F>(e: ElementV<F>, tiny: bool, bold: bool)
    ensures
        ({
            let g = geometry_of(e, tiny, bold);
            let k = e.kind;
            let open = k is Line || k is Arrow || k is Freedraw;
            let n = match k {
                KindV::Line { points } => points.len(),
                KindV::Arrow { points, .. } => points.len(),
                KindV::Freedraw { points, .. } => points.len(),
                _ => 0,
            };
            &&& g is Path <==> (k is Line || k is Arrow) && n >= 2
            &&& g matches WorldGeom::Path { curved, end_head, start_head } ==> {
                &&& curved == (e.style.line_type == LineType::Curved)
                &&& k is Line ==> !end_head && !start_head
                &&& k matches KindV::Arrow { end_arrowhead, start_arrowhead, .. } ==> end_head
                    == end_arrowhead && start_head == start_arrowhead
            }
            &&& g is Ribbon <==> (k matches KindV::Freedraw { widths, .. } && widths.len() > 0 && n
                >= 2)
            &&& g is Sampled <==> (k matches KindV::Freedraw { widths, .. } && widths.len() == 0 && n
                >= 2)
            &&& g matches WorldGeom::Sampled { passes } ==> passes == (if bold {
                2usize
            } else {
                1usize
            })
            &&& g is Dot <==> open && n == 1
            &&& open && n == 0 ==> g is Empty
        }),
{
}

/// Whether a pass is the base pass with the outline.
pub open spec fn outlines(p: RoughPass) -> bool {
    p.role is Base && kept(OpPart::Path, p.keep)
}

/// Every closed shape has its outline painted exactly once by its base pass, from
/// the element's own seed, in its stroke colour and at its stroke width.
pub proof fn law_the_outline_is_painted_once<F>(s: ElementStyle<F>, seed: u64)
    ensures
        exists|i: int|
            0 <= i < passes_of(s, seed).len() && #[trigger] outlines(passes_of(s, seed)[i]),
        forall|i: int, j: int|
            0 <= i < passes_of(s, seed).len() && 0 <= j < passes_of(s, seed).len() && outlines(
                #[trigger] passes_of(s, seed)[i],
            ) && outlines(#[trigger] passes_of(s, seed)[j]) ==> i == j,
        forall|i: int|
            0 <= i < passes_of(s, seed).len() && outlines(#[trigger] passes_of(s, seed)[i]) ==> {
                let p = passes_of(s, seed)[i];
                let paint = part_paint_of(OpPart::Path, p, s.stroke_style);
                p.seed == seed && paint.color == PaintColor::Stroke && paint.width
                    == PaintWidth::Stroke && paint.dashed == (s.stroke_style == StrokeStyle::Dashed)
            },
{
    let p = passes_of(s, seed);
    let below = shadow_passes(s.shadow is Some, seed);
    let body = body_passes(s.background is Some, s.fill_style, seed);
    assert forall|i: int| 0 <= i < below.len() implies !outlines(#[trigger] p[i]) by {
        assert(p[i] == below[i]);
    }
    let filled = s.background is Some;
    let k: int = below.len() + if filled && s.fill_style == FillStyle::Solid {
        2
    } else if filled && s.fill_style == FillStyle::Watercolor {
        3
    } else {
        0int
    };
    assert(p[k] == body[k - below.len()]);
    assert(outlines(p[k]));
    assert forall|i: int| 0 <= i < p.len() && i != k implies !outlines(#[trigger] p[i]) by {
        if i >= below.len() {
            assert(p[i] == body[i - below.len()]);
        }
    }
}

/// What is not filled is one pass without a fill; a hachured, dense or gradient
/// fill belongs to the one pass of the outline; a watercolour is three washes and
/// two edges. Only a shape with a shadow has shadow passes, two below the rest.
pub proof fn law_fills_have_their_passes<F>(s: ElementStyle<F>, seed: u64)
    ensures
        ({
            let p = passes_of(s, seed);
            let n: int = if s.shadow is Some {
                2
            } else {
                0
            };
            &&& forall|i: int|
                0 <= i < p.len() ==> (((#[trigger] p[i]).role is FarShadow || p[i].role
                    is NearShadow) <==> i < n)
            &&& s.background is None ==> p.len() == n + 1 && p[n].role == PassRole::Base {
                filled: false,
            } && p[n].keep == Keep::All
            &&& s.background is Some && (s.fill_style == FillStyle::Hachure || s.fill_style
                == FillStyle::Dense || s.fill_style == FillStyle::Gradient) ==> p.len() == n + 1
                && p[n].role == PassRole::Base { filled: true } && p[n].keep == Keep::All
                && part_paint_of(OpPart::FillSketch, p[n], s.stroke_style).color
                == PaintColor::Fill && part_paint_of(OpPart::FillSketch, p[n], s.stroke_style).width
                == PaintWidth::FillWeight
            &&& s.background is Some && s.fill_style == FillStyle::Watercolor ==> p.len() == n + 6
                && p[n].role == PassRole::Wash(0) && p[n + 1].role == PassRole::Wash(1)
                && p[n + 2].role == PassRole::Wash(2) && p[n + 3].role == PassRole::Base {
                filled: false,
            } && p[n + 4].role == PassRole::Edge(0) && p[n + 5].role == PassRole::Edge(1)
            &&& s.background is Some && s.fill_style == FillStyle::Solid ==> p.len() == n + 3
                && part_paint_of(OpPart::FillSketch, p[n], s.stroke_style).width
                == PaintWidth::FillWeight && part_paint_of(
                OpPart::FillSketch,
                p[n + 1],
                s.stroke_style,
            ).width == PaintWidth::HalfStroke && part_paint_of(
                OpPart::FillSketch,
                p[n + 1],
                s.stroke_style,
            ).color == PaintColor::Fill
            &&& forall|i: int|
                0 <= i < p.len() && !((#[trigger] p[i]).role is Base || p[i].role is Cross)
                    ==> p[i].sketch == PaintRule::Pass && p[i].path == PaintRule::Pass
            &&& forall|i: int|
                0 <= i < p.len() ==> {
                    &&& (#[trigger] p[i]).role is Wash || p[i].role is Cross ==> p[i].keep
                        == Keep::Sketch
                    &&& p[i].role is Edge ==> p[i].keep == Keep::Path
                    &&& p[i].role is FarShadow || p[i].role is NearShadow ==> p[i].keep == Keep::Fill
                }
        }),
{
    let p = passes_of(s, seed);
    let below = shadow_passes(s.shadow is Some, seed);
    let body = body_passes(s.background is Some, s.fill_style, seed);
    assert forall|i: int| 0 <= i < p.len() implies (((#[trigger] p[i]).role is FarShadow || p[i].role
        is NearShadow) <==> i < below.len()) by {
        if i < below.len() {
            assert(p[i] == below[i]);
        } else {
            assert(p[i] == body[i - below.len()]);
        }
    }
    assert forall|i: int| 0 <= i < body.len() implies #[trigger] body[i] == p[below.len() + i] by {}
    assert(body[0] == p[below.len() as int]);
    if s.background is Some && s.fill_style == FillStyle::Solid {
        let m = below.len() as int;
        assert(body[1] == p[m + 1] && body[2] == p[m + 2]);
    }
    assert forall|i: int| 0 <= i < p.len() implies ({
        &&& !((#[trigger] p[i]).role is Base || p[i].role is Cross) ==> p[i].sketch
            == PaintRule::Pass && p[i].path == PaintRule::Pass
        &&& p[i].role is Wash || p[i].role is Cross ==> p[i].keep == Keep::Sketch
        &&& p[i].role is Edge ==> p[i].keep == Keep::Path
        &&& p[i].role is FarShadow || p[i].role is NearShadow ==> p[i].keep == Keep::Fill
    }) by {
        if i < below.len() {
            assert(p[i] == below[i]);
        } else {
            assert(p[i] == body[i - below.len()]);
        }
    }
    if s.background is Some && s.fill_style == FillStyle::Watercolor {
        let m = below.len() as int;
        assert(body[1] == p[m + 1] && body[2] == p[m + 2] && body[3] == p[m + 3] && body[4] == p[m
            + 4] && body[5] == p[m + 5]);
    }
}

/// Each pass wavers by itself: what is not the base pass is generated from a seed
/// of its own, moved on from the element's by the place of its role, so that two
/// passes of different roles never draw the same lines, but for the two shadows.
pub proof fn law_passes_waver_apart<F>(s: ElementStyle<F>, seed: u64, i: int)
    requires
        0 <= i < passes_of(s, seed).len(),
    ensures
        ({
            let p = passes_of(s, seed)[i];
            p.seed == seed.wrapping_add(
                match p.role {
                    PassRole::Base { .. } => 0,
                    PassRole::Cross => 1,
                    PassRole::Wash(k) => (7 * (k as u64 + 1)) as u64,
                    PassRole::Edge(k) => (28 + 7 * k as u64) as u64,
                    PassRole::FarShadow => 61,
                    PassRole::NearShadow => 61,
                },
            )
        }),
{
    let below = shadow_passes(s.shadow is Some, seed);
    let body = body_passes(s.background is Some, s.fill_style, seed);
    if i < below.len() {
        assert(passes_of(s, seed)[i] == below[i]);
    } else {
        assert(passes_of(s, seed)[i] == body[i - below.len()]);
    }
}

/// Fills are painted in the fill colour and never dashed, outlines in the stroke
/// colour and dashed when the style is; only a pass with paint of its own differs.
pub proof fn law_parts_have_their_paint(p: RoughPass, stroke: StrokeStyle)
    ensures
        ({
            let area = part_paint_of(OpPart::FillPath, p, stroke);
            let lines = part_paint_of(OpPart::FillSketch, p, stroke);
            let path = part_paint_of(OpPart::Path, p, stroke);
            &&& area.color == PaintColor::Fill && area.width == PaintWidth::Filled && !area.dashed
            &&& !lines.dashed
            &&& path.dashed == (stroke == StrokeStyle::Dashed)
            &&& p.sketch == PaintRule::Pass <==> lines.color == PaintColor::Pass
            &&& p.sketch == PaintRule::Pass <==> lines.width == PaintWidth::Pass
            &&& p.sketch == PaintRule::FillWeight <==> lines.width == PaintWidth::FillWeight
            &&& p.sketch == PaintRule::Style <==> lines.width == PaintWidth::HalfStroke
            &&& p.sketch != PaintRule::Pass ==> lines.color == PaintColor::Fill
            &&& p.path == PaintRule::Pass <==> path.color == PaintColor::Pass
            &&& p.path == PaintRule::Pass <==> path.width == PaintWidth::Pass
            &&& p.path != PaintRule::Pass ==> path.color == PaintColor::Stroke && path.width
                == PaintWidth::Stroke
        }),
{
}

/// What is kept of a pass: all of it, its fill, its hachure lines, or its outline.
pub proof fn law_kept_parts_are_those_asked_for(part: OpPart)
    ensures
        kept(part, Keep::All),
        kept(part, Keep::Path) == (part == OpPart::Path),
        kept(part, Keep::Sketch) == (part == OpPart::FillSketch),
        kept(part, Keep::Fill) == (part == OpPart::FillPath || part == OpPart::FillSketch),
        kept(part, Keep::Fill) != kept(part, Keep::Path),
{
}

/// The handles lie where their names say: those of the west on the left edge, of
/// the east on the right, of the north on the top, of the south on the bottom, and
/// the others half-way.
pub proof fn law_handles_lie_where_they_are_named(h: Handle)
    ensures
        0 <= handle_halves(h).0 <= 2,
        0 <= handle_halves(h).1 <= 2,
        handle_halves(h).0 == 0 <==> h == Handle::Nw || h == Handle::W || h == Handle::Sw,
        handle_halves(h).0 == 2 <==> h == Handle::Ne || h == Handle::E || h == Handle::Se,
        handle_halves(h).1 == 0 <==> h == Handle::Nw || h == Handle::N || h == Handle::Ne,
        handle_halves(h).1 == 2 <==> h == Handle::Sw || h == Handle::S || h == Handle::Se,
        crate::board_move::is_corner(h) <==> handle_halves(h).0 != 1 && handle_halves(h).1 != 1,
        crate::board_move::is_side(h) <==> handle_halves(h).1 == 1,
{
}

/// A polyline has a control point on each vertex and in the middle of each
/// segment, the vertices first.
pub proof fn law_control_points_cover_the_line(n: nat, i: int)
    requires
        n <= usize::MAX,
    ensures
        targets_of(n).len() == (if n == 0 {
            0
        } else {
            2 * n - 1
        }),
        0 <= i < n ==> targets_of(n)[i] == PointTarget::Vertex(i as usize),
        0 <= i < n - 1 ==> targets_of(n)[n + i] == PointTarget::Midpoint(i as usize),
{
}

/// The place in the scene of a paint item.
pub open spec fn item_place(p: PaintItem) -> int {
    match p {
        PaintItem::Text(i) => i as int,
        PaintItem::Path(i) => i as int,
    }
}

/// Whether element `i` is painted with the elements: it is visible and not being
/// edited.
pub open spec fn painted<F>(
    s: Seq<ElementV<F>>,
    visible: Seq<bool>,
    editing: Option<ElementId>,
    i: int,
) -> bool {
    visible[i] && editing != Some(s[i].id)
}

proof fn lemma_items<F>(s: Seq<ElementV<F>>, visible: Seq<bool>, editing: Option<ElementId>, n: nat)
    requires
        n <= s.len() <= usize::MAX,
    ensures
        ({
            let r = items_upto(s, visible, editing, n);
            &&& forall|k: int|
                0 <= k < r.len() ==> {
                    let i = item_place(#[trigger] r[k]);
                    0 <= i < n && painted(s, visible, editing, i) && (r[k] is Text <==> s[i].kind
                        is Text)
                }
            &&& forall|k: int, l: int|
                0 <= k < l < r.len() ==> item_place(#[trigger] r[k]) < item_place(#[trigger] r[l])
            &&& forall|i: int|
                0 <= i < n && #[trigger] painted(s, visible, editing, i) ==> exists|k: int|
                    0 <= k < r.len() && item_place(#[trigger] r[k]) == i
        }),
    decreases n,
{
    if n > 0 {
        lemma_items(s, visible, editing, (n - 1) as nat);
        let d = items_upto(s, visible, editing, (n - 1) as nat);
        let r = items_upto(s, visible, editing, n);
        assert forall|i: int|
            0 <= i < n && #[trigger] painted(s, visible, editing, i) implies exists|k: int|
            0 <= k < r.len() && item_place(#[trigger] r[k]) == i by {
            if i < n - 1 {
                let k = choose|k: int| 0 <= k < d.len() && item_place(#[trigger] d[k]) == i;
                assert(item_place(r[k]) == i);
            } else {
                assert(item_place(r[r.len() - 1]) == i);
            }
        }
    }
}

/// A frame paints the visible elements in paint order, each once, texts as texts
/// and the others as paths, without the one that is being edited.
pub proof fn law_visible_elements_are_painted_in_order<F>(
    s: Seq<ElementV<F>>,
    visible: Seq<bool>,
    editing: Option<ElementId>,
)
    requires
        s.len() <= usize::MAX,
        visible.len() == s.len(),
    ensures
        ({
            let r = items_upto(s, visible, editing, s.len());
            &&& forall|k: int|
                0 <= k < r.len() ==> {
                    let i = item_place(#[trigger] r[k]);
                    0 <= i < s.len() && visible[i] && editing != Some(s[i].id) && (r[k] is Text
                        <==> s[i].kind is Text)
                }
            &&& forall|k: int, l: int|
                0 <= k < l < r.len() ==> item_place(#[trigger] r[k]) < item_place(#[trigger] r[l])
            &&& forall|i: int|
                0 <= i < s.len() && #[trigger] painted(s, visible, editing, i) ==> exists|k: int|
                    0 <= k < r.len() && item_place(#[trigger] r[k]) == i
        }),
{
    lemma_items(s, visible, editing, s.len());
}

/// The selection is framed exactly with the select tool, while nothing is edited,
/// when some selected element is in the scene. A dragged midpoint is marked as
/// the vertex it became, any other dragged point as itself, and else the hovered
/// one is marked.
pub proof fn law_overlays_follow_the_selection<F>(b: BoardV<F>)
    ensures
        b.overlaid() ==> b.tool == ActiveTool::Select && b.editing is None,
        b.overlaid() ==> exists|i: int|
            0 <= i < b.selection.len() && has_id(b.scene, #[trigger] b.selection[i]),
        b.tool == ActiveTool::Select && b.editing is None && (exists|i: int|
            0 <= i < b.selection.len() && has_id(b.scene, #[trigger] b.selection[i]))
            ==> b.overlaid(),
        b.drag matches DragV::EditingPoint { target, .. } ==> match target {
            PointTarget::Vertex(i) => b.point_to_mark() == Some(PointTarget::Vertex(i)),
            PointTarget::Midpoint(i) => b.point_to_mark() == Some(
                PointTarget::Vertex((i + 1) as usize),
            ),
        },
        !(b.drag is EditingPoint) ==> b.point_to_mark() == b.hover_point,
        b.edited_id() == (match b.editing {
            Some(e) => Some(e.element_id),
            None => None,
        }),
        b.edit_shows() <==> b.editing is Some && has_id(b.scene, b.editing->Some_0.element_id),
        b.stroke_shows() <==> (b.drag matches DragV::Freedraw { collector, .. }
            && collector.points.len() > 0),
{
    lemma_some_live(b.scene, b.selection);
}

proof fn lemma_some_live<F>(s: Seq<ElementV<F>>, ids: Seq<ElementId>)
    ensures
        crate::board_press::live_elements(s, ids).len() > 0 <==> exists|i: int|
            0 <= i < ids.len() && has_id(s, #[trigger] ids[i]),
    decreases ids.len(),
{
    if ids.len() > 0 {
        let d = ids.drop_last();
        lemma_some_live(s, d);
        if exists|i: int| 0 <= i < ids.len() && has_id(s, #[trigger] ids[i]) {
            let i = choose|i: int| 0 <= i < ids.len() && has_id(s, #[trigger] ids[i]);
            if i < d.len() {
                assert(has_id(s, d[i]));
            }
        }
        if exists|i: int| 0 <= i < d.len() && has_id(s, #[trigger] d[i]) {
            let i = choose|i: int| 0 <= i < d.len() && has_id(s, #[trigger] d[i]);
            assert(has_id(s, ids[i]));
        }
        if has_id(s, ids.last()) {
            assert(has_id(s, ids[ids.len() - 1]));
        }
    }
}

/// The part of a line in a range is what the two have in common, counted from the
/// start of the line: an offset lies in it exactly when it lies in both.
pub proof fn law_line_parts_are_the_common_bytes(
    lines: Seq<Span>,
    i: int,
    start: int,
    end: int,
    touching: bool,
    byte: int,
)
    ensures
        match line_part(lines, i, start, end, touching) {
            Some((line, a, b)) => {
                &&& line == i
                &&& (a <= byte < b <==> lines[i].start <= lines[i].start + byte < lines[i].end
                    && start <= lines[i].start + byte < end)
                &&& a < b || touching
            },
            None => !(lines[i].start <= byte < lines[i].end && start <= byte < end),
        },
{
}

proof fn lemma_parts(
    lines: Seq<Span>,
    start: int,
    end: int,
    touching: bool,
    n: nat,
)
    requires
        n <= lines.len(),
    ensures
        ({
            let r = parts_upto(lines, start, end, touching, n);
            &&& forall|k: int|
                0 <= k < r.len() ==> 0 <= (#[trigger] r[k]).0 < n && line_part(
                    lines,
                    r[k].0,
                    start,
                    end,
                    touching,
                ) == Some(r[k])
            &&& forall|k: int, l: int|
                0 <= k < l < r.len() ==> (#[trigger] r[k]).0 < (#[trigger] r[l]).0
            &&& forall|i: int|
                0 <= i < n && (#[trigger] line_part(lines, i, start, end, touching)) is Some
                    ==> r.contains(line_part(lines, i, start, end, touching)->Some_0)
        }),
    decreases n,
{
    if n > 0 {
        lemma_parts(lines, start, end, touching, (n - 1) as nat);
        let d = parts_upto(lines, start, end, touching, (n - 1) as nat);
        let r = parts_upto(lines, start, end, touching, n);
        assert forall|i: int|
            0 <= i < n && (#[trigger] line_part(lines, i, start, end, touching))
                is Some implies r.contains(line_part(lines, i, start, end, touching)->Some_0) by {
            let x = line_part(lines, i, start, end, touching)->Some_0;
            if i < n - 1 {
                let k = choose|k: int| 0 <= k < d.len() && d[k] == x;
                assert(r[k] == x);
            } else {
                assert(r[r.len() - 1] == x);
            }
        }
    }
}

/// A range over several lines is split into its parts on them, in the order of
/// the lines, and no line with a part is left out.
pub proof fn law_ranges_are_split_by_lines(lines: Seq<Span>, start: int, end: int, touching: bool)
    ensures
        ({
            let r = parts_upto(lines, start, end, touching, lines.len());
            &&& forall|k: int|
                0 <= k < r.len() ==> 0 <= (#[trigger] r[k]).0 < lines.len() && line_part(
                    lines,
                    r[k].0,
                    start,
                    end,
                    touching,
                ) == Some(r[k])
            &&& forall|k: int, l: int|
                0 <= k < l < r.len() ==> (#[trigger] r[k]).0 < (#[trigger] r[l]).0
            &&& forall|i: int|
                0 <= i < lines.len() && (#[trigger] line_part(lines, i, start, end, touching))
                    is Some ==> r.contains(line_part(lines, i, start, end, touching)->Some_0)
        }),
{
    lemma_parts(lines, start, end, touching, lines.len());
}

/// The caret of a byte is on the first line that holds it, at its distance from
/// the start of that line; past the end of the text it is at the end of the last
/// line. There is none exactly when no line holds the byte.
pub proof fn law_the_caret_is_on_its_line(lines: Seq<Span>, byte: int, from: int)
    requires
        0 <= from <= lines.len(),
        forall|i: int| 0 <= i < lines.len() ==> (#[trigger] lines[i]).start <= lines[i].end,
    ensures
        match caret_from(lines, byte, from) {
            Some((i, at)) => {
                &&& from <= i < lines.len()
                &&& lines[i].start <= byte
                &&& byte <= lines[i].end ==> lines[i].start + at == byte
                &&& byte > lines[i].end ==> i == lines.len() - 1 && lines[i].start + at
                    == lines[i].end
                &&& forall|j: int|
                    from <= j < i ==> !((#[trigger] lines[j]).start <= byte <= lines[j].end)
            },
            None => forall|j: int|
                from <= j < lines.len() ==> !((#[trigger] lines[j]).start <= byte <= lines[j].end),
        },
    decreases lines.len() - from,
{
    if from < lines.len() {
        law_the_caret_is_on_its_line(lines, byte, from + 1);
    }
}

/// Measuring a text gives it the measured extent; a label moves to its place on
/// its container, and every other text stays where it is. Nothing else about the
/// scene changes, and what is no text is not measured.
pub proof fn law_measuring_sizes_a_text<F>(b: BoardV<F>, id: ElementId, m: Measured<F>, i: int)
    requires
        0 <= i < b.scene.len(),
    ensures
        ({
            let s = b.measured(id, m).scene;
            let (old_el, new_el) = (b.scene[i], s[i]);
            &&& s.len() == b.scene.len()
            &&& new_el.id == old_el.id && new_el.kind == old_el.kind && new_el.style
                == old_el.style && new_el.seed == old_el.seed
            &&& i != place_of(b.scene, id) || !(old_el.kind is Text) ==> new_el == old_el
            &&& i == place_of(b.scene, id) && old_el.kind is Text ==> {
                &&& new_el.bounds.w == m.w
                &&& new_el.bounds.h == m.h
                &&& if old_el.kind->container_id is Some && has_id(
                    b.scene,
                    old_el.kind->container_id->Some_0,
                ) {
                    new_el.bounds.x == m.placed.x && new_el.bounds.y == m.placed.y
                } else {
                    new_el.bounds.x == old_el.bounds.x && new_el.bounds.y == old_el.bounds.y
                }
            }
            &&& b.measured(id, m) == BoardV { scene: s, ..b }
        }),
{
    lemma_place_of(b.scene, id);
}

/// Measuring what is pending keeps every element but the box of texts, and leaves
/// the other parts of the board alone.
pub proof fn law_measuring_all_changes_boxes_only<F>(
    b: BoardV<F>,
    ids: Seq<ElementId>,
    m: Seq<Measured<F>>,
    n: nat,
    i: int,
)
    requires
        0 <= i < b.scene.len(),
    ensures
        ({
            let a = b.measured_upto(ids, m, n);
            &&& a.scene.len() == b.scene.len()
            &&& a.scene[i].id == b.scene[i].id && a.scene[i].kind == b.scene[i].kind
                && a.scene[i].style == b.scene[i].style && a.scene[i].seed == b.scene[i].seed
            &&& !(b.scene[i].kind is Text) ==> a.scene[i] == b.scene[i]
            &&& a == BoardV { scene: a.scene, ..b }
        }),
    decreases n,
{
    if n > 0 {
        law_measuring_all_changes_boxes_only(b, ids, m, (n - 1) as nat, i);
        law_measuring_sizes_a_text(
            b.measured_upto(ids, m, (n - 1) as nat),
            ids[n - 1],
            m[n - 1],
            i,
        );
    }
}

/// A text is measured as it is: with its own characters, font, wrap width and least
/// height. Nothing else is measured.
pub proof fn law_a_text_is_measured_as_it_is<F>(
    q: crate::paint::MeasureRequest<F>,
    k: KindV<F>,
)
    requires
        crate::paint::asks(q, k),
    ensures
        k is Text,
        q.text@ == k->Text_text,
        q.font_size == k->font_size,
        q.font_family@ == k->font_family,
        q.wrap_width == k->wrap_width,
        q.min_height == k->min_height,
        q.container == k->container_id,
{
}

} // verus!
