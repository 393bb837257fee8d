//! What the parts of an element mean, and what each edit leaves as it was.

use vstd::prelude::*;
use crate::element::{
    hit_spec, insert_point_spec, plain_style, remove_point_spec, segment_count, ElementV, FillStyle,
    HitFacts, KindV, LineType, StrokeStyle, TextAlign, WPoint,
};

verus! {

/// A path is hit where the pointer is near it and nowhere else: being inside its
/// box is not enough. A shape that fills its box is hit anywhere in it, and
/// beyond it only near its outline; a polygon is hit inside and near its outline.
pub proof fn law_paths_are_hit_near_them<F>(k: KindV<F>, t: HitFacts)
    ensures
        k is Line || k is Arrow || k is Freedraw ==> hit_spec(k, t) == t.near_path,
        (k is Line || k is Arrow || k is Freedraw) && !t.near_path ==> !hit_spec(k, t),
        k is Rectangle || k is Ellipse || k is Diamond || k is Text || k is Image || k is Canvas
            ==> (t.in_box ==> hit_spec(k, t)),
        k is Rectangle || k is Text || k is Image || k is Canvas ==> (hit_spec(k, t) ==> t.in_box),
        k is Ellipse && !t.in_box ==> hit_spec(k, t) == t.near_ellipse,
        k is Diamond && !t.in_box ==> hit_spec(k, t) == (t.in_polygon || t.near_outline),
        k is Polygon ==> hit_spec(k, t) == (t.in_polygon || t.near_outline),
{
}

/// A pointer that finds out more never loses an element that it hit.
pub proof fn law_more_facts_keep_a_hit<F>(k: KindV<F>, t: HitFacts, u: HitFacts)
    requires
        t.in_box ==> u.in_box,
        t.in_polygon ==> u.in_polygon,
        t.near_outline ==> u.near_outline,
        t.near_ellipse ==> u.near_ellipse,
        t.near_path ==> u.near_path,
    ensures
        hit_spec(k, t) ==> hit_spec(k, u),
        !(u.in_box || u.in_polygon || u.near_outline || u.near_ellipse || u.near_path)
            ==> !hit_spec(k, u),
{
}

/// Lines, arrows, freehand strokes and polygons are given by points, and nothing
/// else is.
pub proof fn law_points_are_those_of_the_kind<F>(k: KindV<F>)
    ensures
        k matches KindV::Line { points } ==> k.points() == points,
        k matches KindV::Arrow { points, .. } ==> k.points() == points,
        k matches KindV::Freedraw { points, .. } ==> k.points() == points,
        k matches KindV::Polygon { points, .. } ==> k.points() == points,
        k.point_based() == (k is Line || k is Arrow || k is Freedraw || k is Polygon),
        !k.point_based() ==> k.points().len() == 0,
        k.container() == (k is Rectangle || k is Ellipse || k is Diamond || k is Arrow || k is Line),
        k matches KindV::Text { container_id, .. } ==> k.bound_to() == container_id,
        !(k is Text) ==> k.bound_to() is None,
        !(k.point_based() && k is Text),
{
}

/// What stays of a kind when its points change: everything but the points.
pub open spec fn same_but_points<F>(a: KindV<F>, b: KindV<F>) -> bool {
    &&& a is Line == b is Line
    &&& a matches KindV::Arrow { end_arrowhead, start_arrowhead, .. } ==> (b matches KindV::Arrow {
        end_arrowhead: e,
        start_arrowhead: s,
        ..
    } && e == end_arrowhead && s == start_arrowhead)
    &&& a matches KindV::Freedraw { widths, .. } ==> (b matches KindV::Freedraw { widths: w, .. }
        && w == widths)
    &&& a matches KindV::Polygon { smooth, .. } ==> (b matches KindV::Polygon { smooth: s, .. }
        && s == smooth)
    &&& !(a is Line || a is Arrow || a is Freedraw || a is Polygon) ==> a == b
}

/// Giving a path other points gives it exactly those, keeps its heads, its widths
/// and its smoothness, and gives the path back when it gets its own points back.
/// What has no points is left alone.
pub proof fn law_new_points_replace_the_old<F>(k: KindV<F>, p: Seq<WPoint<F>>, q: Seq<WPoint<F>>)
    ensures
        k is Line || k is Arrow || k is Freedraw || k is Polygon ==> k.with_points(p).points() == p,
        same_but_points(k, k.with_points(p)),
        k.with_points(p).with_points(q) == k.with_points(q),
        k.with_points(k.points()) == k,
{
}

/// An open path has one segment fewer than points, a closed one as many.
pub proof fn law_segments_lie_between_points<F>(k: KindV<F>)
    ensures
        k is Polygon ==> segment_count(k) == k.points().len(),
        (k is Line || k is Arrow || k is Freedraw) && k.points().len() > 0 ==> segment_count(k) + 1
            == k.points().len(),
        !(k is Line || k is Arrow || k is Freedraw || k is Polygon) ==> segment_count(k) == 0,
        k.points().len() == 0 ==> segment_count(k) == 0,
{
}

/// A vertex that is inserted behind a segment lies behind its first point: the
/// points up to there stay, and the others move on by one, in their order.
pub proof fn law_a_new_vertex_lies_behind_its_segment<F>(k: KindV<F>, seg: int, p: WPoint<F>, j: int)
    requires
        0 <= seg < segment_count(k),
        0 <= j <= k.points().len(),
    ensures
        ({
            let n = insert_point_spec(k, seg, p);
            &&& n.points().len() == k.points().len() + 1
            &&& n.points()[j] == (if j <= seg {
                k.points()[j]
            } else if j == seg + 1 {
                p
            } else {
                k.points()[j - 1]
            })
            &&& !(k is Freedraw) ==> same_but_points(k, n)
            &&& k matches KindV::Freedraw { points, widths } ==> (n matches KindV::Freedraw {
                widths: w,
                ..
            } && (if widths.len() == points.len() {
                w.len() == widths.len() + 1 && w[j] == (if j <= seg {
                    widths[j]
                } else if j == seg + 1 {
                    widths[seg + 1]
                } else {
                    widths[j - 1]
                })
            } else {
                w == widths
            }))
        }),
{
}

/// A vertex that is removed is gone, with its width, and the others close up in
/// their order.
pub proof fn law_a_removed_vertex_is_gone<F>(k: KindV<F>, i: int, j: int)
    requires
        0 <= i < k.points().len(),
        0 <= j < k.points().len() - 1,
    ensures
        ({
            let n = remove_point_spec(k, i);
            let from = if j < i {
                j
            } else {
                j + 1
            };
            &&& n.points().len() == k.points().len() - 1
            &&& n.points()[j] == k.points()[from]
            &&& !(k is Freedraw) ==> same_but_points(k, n)
            &&& k matches KindV::Freedraw { points, widths } ==> (n matches KindV::Freedraw {
                widths: w,
                ..
            } && (if widths.len() == points.len() {
                w.len() == widths.len() - 1 && w[j] == widths[from]
            } else {
                w == widths
            }))
        }),
{
}

/// Whether two texts agree in all but their characters.
pub open spec fn same_but_text<F>(a: KindV<F>, b: KindV<F>) -> bool {
    &&& a is Text
    &&& b is Text
    &&& a->font_size == b->font_size
    &&& a->font_family == b->font_family
    &&& same_placing(a, b)
    &&& a->wrap_width == b->wrap_width
    &&& a->min_height == b->min_height
    &&& a->text_align == b->text_align
}

/// Whether two texts have the same container and the same anchor.
pub open spec fn same_placing<F>(a: KindV<F>, b: KindV<F>) -> bool {
    a->container_id == b->container_id && a->anchor == b->anchor
}

/// Each setting of a text changes that setting and no other, the last one wins,
/// and what is no text is left alone.
pub proof fn law_text_settings_are_independent<F>(
    k: KindV<F>,
    t: Seq<char>,
    size: F,
    family: Seq<char>,
    align: TextAlign,
    wrap: Option<F>,
    height: Option<F>,
)
    ensures
        k is Text ==> {
            let n = k.with_text(t);
            n is Text && n->Text_text == t && same_but_text(k, n)
        },
        k is Text ==> {
            let n = k.with_font_size(size);
            n is Text && n->font_size == size && n->Text_text == k->Text_text && n->font_family
                == k->font_family && same_placing(k, n) && n->wrap_width == k->wrap_width
                && n->min_height == k->min_height && n->text_align == k->text_align
        },
        k is Text ==> {
            let n = k.with_font_family(family);
            n is Text && n->font_family == family && n->Text_text == k->Text_text && n->font_size
                == k->font_size && same_placing(k, n) && n->wrap_width == k->wrap_width
                && n->min_height == k->min_height && n->text_align == k->text_align
        },
        k is Text ==> {
            let n = k.with_align(align);
            n is Text && n->text_align == align && n->Text_text == k->Text_text && n->font_size
                == k->font_size && same_placing(k, n) && n->font_family == k->font_family
                && n->wrap_width == k->wrap_width && n->min_height == k->min_height
        },
        k is Text ==> {
            let n = k.with_box(wrap, height);
            n is Text && n->wrap_width == wrap && n->min_height == height && n->Text_text
                == k->Text_text && n->font_size == k->font_size && same_placing(k, n)
                && n->font_family == k->font_family && n->text_align == k->text_align
        },
        k is Text ==> k.height_floor() == k->min_height,
        !(k is Text) ==> k.with_text(t) == k && k.with_font_size(size) == k && k.with_font_family(
            family,
        ) == k && k.with_align(align) == k && k.with_box(wrap, height) == k
            && k.height_floor() is None,
{
}

/// An element that is moved has its corner there and is otherwise as it was; one
/// that becomes another kind is only that.
pub proof fn law_moving_keeps_the_rest<F>(e: ElementV<F>, p: WPoint<F>, k: KindV<F>)
    ensures
        e.at(p).bounds.x == p.x,
        e.at(p).bounds.y == p.y,
        e.at(p).bounds.w == e.bounds.w,
        e.at(p).bounds.h == e.bounds.h,
        e.at(p).id == e.id,
        e.at(p).seed == e.seed,
        e.at(p).style == e.style,
        e.at(p).kind == e.kind,
        e.with_kind(k).kind == k,
        e.with_kind(k).id == e.id,
        e.with_kind(k).bounds == e.bounds,
        e.with_kind(k).seed == e.seed,
        e.with_kind(k).style == e.style,
{
}

/// The plain style is a solid dark outline of the given width without a fill, a
/// shadow or a brush.
pub proof fn law_the_plain_style_is_plain<F>(w: F, r: F, o: F)
    ensures
        ({
            let s = plain_style(w, r, o);
            &&& s.stroke == crate::element::DEFAULT_STROKE
            &&& !s.stroke_none
            &&& s.background is None
            &&& s.stroke_width == w
            &&& s.roughness == r
            &&& s.opacity == o
            &&& s.stroke_style == StrokeStyle::Solid
            &&& s.line_type == LineType::Straight
            &&& s.fill_style == FillStyle::Hachure
            &&& s.shadow is None
            &&& s.brush is None
            &&& s.hachure_gap is None
            &&& s.fill_weight is None
            &&& s.hachure_angle is None
            &&& s.dry_density is None
            &&& s.dry_width is None
        }),
{
}

} // verus!
