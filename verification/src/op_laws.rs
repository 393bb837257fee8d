//! What the drawing operations of an assistant leave on the board.

use vstd::prelude::*;
use crate::board::BoardV;
use crate::board_text::{first_label, Fresh, LabelBox};
use crate::canvas_apply::{changed, labels_placed, Change};
use crate::canvas_dispatch::{op_applied, op_effect};
use crate::canvas_op::{
    box_answer, box_refusal, op_outcome, short_name, BoxShape, CanvasOp, CanvasStyle, OpErrorV,
};
use crate::chrome::kind_label_of;
use crate::element::{
    opt_text, ElementStyle, ElementV, FillStyle, KindV, WBounds, WPoint,
    HANDWRITTEN_FONT,
};
use crate::element_laws::same_but_text;
use crate::gesture_laws::gained;
use crate::ids::ElementId;
use crate::mindmap_laws::labels;
use crate::scene::{has_id, lemma_place_of, place_of, prefix_match, unique_ids};

verus! {

/// A setting that is given replaces the inherited one, and one that is left out
/// keeps it; what cannot be given is inherited.
pub proof fn law_given_settings_replace_inherited_ones<F>(c: CanvasStyle<F>, base: ElementStyle<F>)
    ensures
        ({
            let s = c.over(base);
            &&& c.stroke matches Some(x) ==> s.stroke == x
            &&& c.stroke is None ==> s.stroke == base.stroke
            &&& c.background is Some ==> s.background == c.background
            &&& c.background is None ==> s.background == base.background
            &&& c.stroke_width matches Some(x) ==> s.stroke_width == x
            &&& c.stroke_width is None ==> s.stroke_width == base.stroke_width
            &&& c.roughness matches Some(x) ==> s.roughness == x
            &&& c.roughness is None ==> s.roughness == base.roughness
            &&& c.stroke_style matches Some(x) ==> s.stroke_style == x
            &&& c.stroke_style is None ==> s.stroke_style == base.stroke_style
            &&& c.opacity matches Some(x) ==> s.opacity == x
            &&& c.opacity is None ==> s.opacity == base.opacity
            &&& c.line_type matches Some(x) ==> s.line_type == x
            &&& c.line_type is None ==> s.line_type == base.line_type
            &&& c.fill_style matches Some(x) ==> s.fill_style == x
            &&& c.fill_style is None ==> s.fill_style == base.fill_style
            &&& c.shadow is Some ==> s.shadow == c.shadow
            &&& c.shadow is None ==> s.shadow == base.shadow
            &&& c.brush is Some ==> s.brush == c.brush
            &&& c.brush is None ==> s.brush == base.brush
            &&& c.hachure_gap is Some ==> s.hachure_gap == c.hachure_gap
            &&& c.hachure_gap is None ==> s.hachure_gap == base.hachure_gap
            &&& c.fill_weight is Some ==> s.fill_weight == c.fill_weight
            &&& c.fill_weight is None ==> s.fill_weight == base.fill_weight
            &&& c.hachure_angle is Some ==> s.hachure_angle == c.hachure_angle
            &&& c.hachure_angle is None ==> s.hachure_angle == base.hachure_angle
            &&& s.stroke_none == base.stroke_none
            &&& s.dry_density == base.dry_density
            &&& s.dry_width == base.dry_width
        }),
{
}

/// When an operation succeeds: a shape needs an extent, a polygon three finite
/// points, a line and an arrow two; what draws needs an identity, and what edits
/// an element that its prefix names. The first of these that fails is the refusal.
pub proof fn law_operations_succeed_on_good_arguments<F>(
    scene: Seq<ElementV<F>>,
    op: CanvasOp<F>,
    pre: Option<ElementId>,
)
    ensures
        ({
            let r = op_outcome(scene, op, pre);
            let good = match op {
                CanvasOp::Shape { positive, .. } => positive,
                CanvasOp::Polygon { points, finite, .. } => points@.len() >= 3 && finite,
                CanvasOp::Line { points, .. } => points@.len() >= 2,
                CanvasOp::Arrow { points, .. } => points@.len() >= 2,
                _ => true,
            };
            let draws = !(op is SetBackground || op is UpdateElement || op is DeleteElement || op
                is Clear);
            let named = match op {
                CanvasOp::UpdateElement { id, .. } => prefix_match(scene, id@) is Some,
                CanvasOp::DeleteElement { id } => prefix_match(scene, id@) is Some,
                _ => true,
            };
            &&& r is Ok <==> good && (draws ==> pre is Some) && named
            &&& !good <==> (r matches Err(e) && e is InvalidArgs)
            &&& good && draws && pre is None <==> (r matches Err(e) && e is Internal)
            &&& !named <==> (r matches Err(e) && e is NotFound)
            &&& draws && r is Ok ==> ends_with(r->Ok_0, short_name(pre->Some_0))
            &&& op matches CanvasOp::UpdateElement { id, .. } ==> r is Ok ==> ends_with(
                r->Ok_0,
                short_name(prefix_match(scene, id@)->Some_0),
            )
            &&& op matches CanvasOp::DeleteElement { id } ==> r is Ok ==> ends_with(
                r->Ok_0,
                short_name(prefix_match(scene, id@)->Some_0),
            )
            &&& op matches CanvasOp::UpdateElement { id, .. } ==> (r matches Err(OpErrorV::NotFound(m))
                ==> ends_with(m, id@))
            &&& op matches CanvasOp::DeleteElement { id } ==> (r matches Err(OpErrorV::NotFound(m))
                ==> ends_with(m, id@))
        }),
{
    reveal(op_outcome);
    if let Some(id) = pre {
        let n = short_name(id);
        lemma_ends_with(box_answer(BoxShape::Rectangle), n);
        lemma_ends_with(box_answer(BoxShape::Ellipse), n);
        lemma_ends_with(box_answer(BoxShape::Diamond), n);
        lemma_ends_with("已添加多边形 id="@, n);
        lemma_ends_with("已添加直线 id="@, n);
        lemma_ends_with("已添加箭头 id="@, n);
        lemma_ends_with("已添加文本 id="@, n);
        if let CanvasOp::Mindmap { root, .. } = op {
            lemma_ends_with(
                "已添加思维导图（"@ + crate::text::decimal(
                    crate::mindmap_plan::plan_nodes(root).len(),
                ) + " 个节点）id="@,
                n,
            );
        }
    }
    match op {
        CanvasOp::UpdateElement { id, .. } => {
            lemma_ends_with("找不到元素 id="@, id@);
            if let Some(found) = prefix_match(scene, id@) {
                lemma_ends_with("已更新元素 id="@, short_name(found));
            }
        },
        CanvasOp::DeleteElement { id } => {
            lemma_ends_with("找不到元素 id="@, id@);
            if let Some(found) = prefix_match(scene, id@) {
                lemma_ends_with("已删除元素 id="@, short_name(found));
            }
        },
        _ => {},
    }
}

/// Whether a text ends with another.
pub open spec fn ends_with(s: Seq<char>, tail: Seq<char>) -> bool {
    s.len() >= tail.len() && s.skip(s.len() - tail.len()) == tail
}

proof fn lemma_ends_with(lead: Seq<char>, tail: Seq<char>)
    ensures
        ends_with(lead + tail, tail),
{
    assert((lead + tail).skip(lead.len() as int) =~= tail);
}

/// What is said of a shape names it as the info card does.
pub proof fn law_answers_name_the_shape<F>()
    ensures
        box_answer(BoxShape::Rectangle) == "已添加"@ + kind_label_of(KindV::<F>::Rectangle) + " id="@,
        box_answer(BoxShape::Ellipse) == "已添加"@ + kind_label_of(KindV::<F>::Ellipse) + " id="@,
        box_answer(BoxShape::Diamond) == "已添加"@ + kind_label_of(KindV::<F>::Diamond) + " id="@,
        box_refusal(BoxShape::Rectangle) == kind_label_of(KindV::<F>::Rectangle)
            + "宽高必须为正数"@,
        box_refusal(BoxShape::Ellipse) == kind_label_of(KindV::<F>::Ellipse) + "宽高必须为正数"@,
        box_refusal(BoxShape::Diamond) == kind_label_of(KindV::<F>::Diamond) + "宽高必须为正数"@,
{
    reveal_strlit("已添加");
    reveal_strlit(" id=");
    reveal_strlit("宽高必须为正数");
    reveal_strlit("矩形");
    reveal_strlit("椭圆");
    reveal_strlit("菱形");
    reveal_strlit("已添加矩形 id=");
    reveal_strlit("已添加椭圆 id=");
    reveal_strlit("已添加菱形 id=");
    reveal_strlit("矩形宽高必须为正数");
    reveal_strlit("椭圆宽高必须为正数");
    reveal_strlit("菱形宽高必须为正数");
    assert(box_answer(BoxShape::Rectangle) =~= "已添加"@ + kind_label_of(KindV::<F>::Rectangle)
        + " id="@);
    assert(box_answer(BoxShape::Ellipse) =~= "已添加"@ + kind_label_of(KindV::<F>::Ellipse)
        + " id="@);
    assert(box_answer(BoxShape::Diamond) =~= "已添加"@ + kind_label_of(KindV::<F>::Diamond)
        + " id="@);
    assert(box_refusal(BoxShape::Rectangle) =~= kind_label_of(KindV::<F>::Rectangle)
        + "宽高必须为正数"@);
    assert(box_refusal(BoxShape::Ellipse) =~= kind_label_of(KindV::<F>::Ellipse) + "宽高必须为正数"@);
    assert(box_refusal(BoxShape::Diamond) =~= kind_label_of(KindV::<F>::Diamond) + "宽高必须为正数"@);
}

/// Whether `s` is `t` with `el` on top, and above that a label on it that reads
/// `text` when there is one that is not empty, queued for measuring.
pub open spec fn drawn_with_label<F>(
    a: BoardV<F>,
    b: BoardV<F>,
    text: Option<Seq<char>>,
) -> bool {
    let (s, t, n) = (a.scene, b.scene, b.scene.len() as int);
    let has_text = text is Some && text->Some_0.len() > 0;
    &&& s.take(n) == t
    &&& s.len() == n + (if has_text {
        2int
    } else {
        1int
    })
    &&& has_text ==> labels(s[n + 1], s[n].id, text->Some_0) && a.pending_measure
        == b.pending_measure.push(s[n + 1].id)
    &&& !has_text ==> a.pending_measure == b.pending_measure
}

/// A shape that is asked for lies on top of the scene: of the kind that was named,
/// in the given box, under the given identity, in the board's style with the given
/// settings over it, and with a label when there is a text for it.
pub proof fn law_a_shape_is_drawn_as_asked<F>(
    b: BoardV<F>,
    op: CanvasOp<F>,
    id: ElementId,
    fresh: Seq<Fresh>,
)
    requires
        op matches CanvasOp::Shape { positive, .. } && positive,
    ensures
        ({
            let a = op_applied(b, op, Some(id), fresh);
            let e = a.scene[b.scene.len() as int];
            op matches CanvasOp::Shape { shape, bounds, style, text, .. } && {
                &&& drawn_with_label(a, b, opt_text(text))
                &&& e.kind is Rectangle <==> shape == BoxShape::Rectangle
                &&& e.kind is Ellipse <==> shape == BoxShape::Ellipse
                &&& e.kind is Diamond <==> shape == BoxShape::Diamond
                &&& e.id == id && e.bounds == bounds && e.style == style.over(b.style)
                &&& a.selection == b.selection && a.tool == b.tool && a.dirty
                &&& a.history == b.history.recorded(b.scene)
            }
        }),
{
    reveal(op_effect);
    reveal(op_outcome);
    let a = op_applied(b, op, Some(id), fresh);
    assert(a.scene.take(b.scene.len() as int) =~= b.scene);
}

/// A line or an arrow that is asked for goes through the given points, with the
/// given heads; a line is a line and an arrow an arrow.
pub proof fn law_a_path_is_drawn_as_asked<F>(
    b: BoardV<F>,
    op: CanvasOp<F>,
    id: ElementId,
    fresh: Seq<Fresh>,
)
    requires
        op_outcome(b.scene, op, Some(id)) is Ok,
    ensures
        ({
            let a = op_applied(b, op, Some(id), fresh);
            let e = a.scene[b.scene.len() as int];
            &&& op matches CanvasOp::Line { points, bounds, style, text, .. } ==> {
                &&& drawn_with_label(a, b, opt_text(text))
                &&& e.kind matches KindV::Line { points: p } && p == points@
                &&& e.id == id && e.bounds == bounds && e.style == style.over(b.style)
            }
            &&& op matches CanvasOp::Arrow {
                points,
                bounds,
                start_arrowhead,
                end_arrowhead,
                style,
                text,
                ..
            } ==> {
                &&& drawn_with_label(a, b, opt_text(text))
                &&& e.kind matches KindV::Arrow { points: p, end_arrowhead: x, start_arrowhead: y }
                    && p == points@ && x == end_arrowhead && y == start_arrowhead
                &&& e.id == id && e.bounds == bounds && e.style == style.over(b.style)
            }
            &&& op is Line || op is Arrow ==> a.selection == b.selection && a.tool == b.tool
        }),
{
    reveal(op_effect);
    reveal(op_outcome);
    let a = op_applied(b, op, Some(id), fresh);
    if op is Line || op is Arrow {
        assert(a.scene.take(b.scene.len() as int) =~= b.scene);
    }
}

/// A polygon that is asked for is straight, goes through the given points and is
/// filled solid; a text reads what was given, free of any container, in the given
/// font or the hand-drawn one, and is queued for measuring.
pub proof fn law_a_polygon_or_a_text_is_drawn_as_asked<F>(
    b: BoardV<F>,
    op: CanvasOp<F>,
    id: ElementId,
    fresh: Seq<Fresh>,
)
    requires
        op_outcome(b.scene, op, Some(id)) is Ok,
    ensures
        ({
            let a = op_applied(b, op, Some(id), fresh);
            let e = a.scene.last();
            &&& op matches CanvasOp::Polygon { points, bounds, style, .. } ==> {
                &&& gained(a.scene, b.scene)
                &&& e.kind matches KindV::Polygon { points: p, smooth } && p == points@ && !smooth
                &&& e.id == id && e.bounds == bounds
                &&& e.style.fill_style == FillStyle::Solid
                &&& e.style.stroke == style.over(b.style).stroke
                &&& e.style.background == style.over(b.style).background
                &&& a.pending_measure == b.pending_measure
            }
            &&& op matches CanvasOp::Text {
                bounds,
                text,
                font_size,
                align,
                font_family,
                wrap_width,
                style,
                zero,
            } ==> {
                &&& gained(a.scene, b.scene)
                &&& e.kind matches KindV::Text {
                    text: t,
                    font_size: size,
                    font_family: family,
                    wrap_width: wrap,
                    min_height,
                    container_id,
                    text_align,
                    anchor,
                } && {
                    &&& t == text@
                    &&& size == font_size
                    &&& font_family matches Some(f) ==> family == f@
                    &&& font_family is None ==> family == HANDWRITTEN_FONT@
                    &&& wrap == wrap_width
                    &&& min_height is None && container_id is None && anchor is None
                    &&& align matches Some(x) ==> text_align == x
                    &&& align is None ==> text_align == b.text_align
                }
                &&& e.id == id && e.bounds == bounds
                &&& e.style.roughness == zero
                &&& e.style.stroke == style.over(b.style).stroke
                &&& a.pending_measure == b.pending_measure.push(id)
            }
        }),
{
    reveal(op_effect);
    reveal(op_outcome);
    let a = op_applied(b, op, Some(id), fresh);
    if op is Polygon || op is Text {
        assert(a.scene.drop_last() =~= b.scene);
    }
}

/// Setting the surface colour sets that; deleting takes the named element and its
/// labels; clearing leaves an empty scene, nothing selected and nothing edited.
pub proof fn law_edits_do_as_asked<F>(
    b: BoardV<F>,
    op: CanvasOp<F>,
    pre: Option<ElementId>,
    fresh: Seq<Fresh>,
)
    requires
        op_outcome(b.scene, op, pre) is Ok,
    ensures
        ({
            let a = op_applied(b, op, pre, fresh);
            &&& op matches CanvasOp::SetBackground { color } ==> a == (BoardV {
                canvas_background: color,
                dirty: true,
                ..b
            })
            &&& op matches CanvasOp::DeleteElement { id } ==> unique_ids(b.scene) ==> {
                let found = prefix_match(b.scene, id@)->Some_0;
                &&& a.scene == b.scene.filter(crate::board_laws::untouched_by(found))
                &&& a.selection == b.selection
            }
            &&& op is Clear ==> a.scene.len() == 0 && a.selection.len() == 0 && a.editing is None
                && a.history == b.history.recorded(b.scene)
        }),
{
    reveal(op_effect);
    reveal(op_outcome);
    if let CanvasOp::DeleteElement { id } = op {
        if unique_ids(b.scene) {
            crate::board_laws::law_removal_takes_labels_along(
                b.scene,
                prefix_match(b.scene, id@)->Some_0,
            );
        }
    }
}

/// A changed element has the given corner, settings, text and font size, and
/// keeps what was not given. Text and font size reach a text only.
pub proof fn law_a_change_sets_what_is_given<F>(
    el: ElementV<F>,
    c: Change<F>,
    text: Option<Seq<char>>,
)
    ensures
        ({
            let n = changed(el, c, text);
            &&& n.id == el.id && n.seed == el.seed
            &&& n.bounds.w == el.bounds.w && n.bounds.h == el.bounds.h
            &&& c.x matches Some(x) ==> n.bounds.x == x
            &&& c.x is None ==> n.bounds.x == el.bounds.x
            &&& c.y matches Some(y) ==> n.bounds.y == y
            &&& c.y is None ==> n.bounds.y == el.bounds.y
            &&& n.style == c.style.over(el.style)
            &&& !(el.kind is Text) ==> n.kind == el.kind
            &&& el.kind is Text ==> {
                &&& n.kind is Text
                &&& text matches Some(t) ==> n.kind->Text_text == t
                &&& text is None ==> n.kind->Text_text == el.kind->Text_text
                &&& c.font_size matches Some(f) ==> n.kind->font_size == f
                &&& c.font_size is None ==> n.kind->font_size == el.kind->font_size
                &&& n.kind->font_family == el.kind->font_family
                &&& n.kind->container_id == el.kind->container_id
                &&& n.kind->text_align == el.kind->text_align
                &&& n.kind->wrap_width == el.kind->wrap_width
                &&& n.kind->min_height == el.kind->min_height
            }
        }),
{
}

proof fn lemma_first_label_place<F>(s: Seq<ElementV<F>>, id: ElementId)
    ensures
        first_label(s, id) matches Some(l) ==> exists|k: int|
            0 <= k < s.len() && (#[trigger] s[k]).id == l && s[k].kind.bound_to() == Some(id),
        first_label(s, id) is None ==> forall|k: int|
            0 <= k < s.len() ==> (#[trigger] s[k]).kind.bound_to() != Some(id),
    decreases s.len(),
{
    if s.len() > 0 {
        let u = s.skip(1);
        lemma_first_label_place(u, id);
        if s[0].kind.bound_to() == Some(id) {
            assert(s[0].id == first_label(s, id)->Some_0);
        } else if let Some(l) = first_label(u, id) {
            let k = choose|k: int|
                0 <= k < u.len() && (#[trigger] u[k]).id == l && u[k].kind.bound_to() == Some(id);
            assert(s[k + 1].id == l && s[k + 1].kind.bound_to() == Some(id));
        } else {
            assert forall|k: int| 0 <= k < s.len() implies (#[trigger] s[k]).kind.bound_to() != Some(
                id,
            ) by {
                if k > 0 {
                    assert(s[k] == u[k - 1]);
                }
            }
        }
    }
}

/// A text that is set on a shape reads on a label of it: on its first one, which
/// goes to its place, or on a new one. The shape itself is left alone, and the
/// label is measured again.
pub proof fn law_a_label_reads_what_it_was_set_to<F>(
    b: BoardV<F>,
    id: ElementId,
    text: Seq<char>,
    placed: Seq<WPoint<F>>,
    label: LabelBox<F>,
    fresh: Fresh,
)
    requires
        unique_ids(b.scene),
        placed.len() == b.scene.len(),
    ensures
        ({
            let a = b.label_set(id, text, placed, label, fresh);
            &&& exists|k: int|
                0 <= k < a.scene.len() && (#[trigger] a.scene[k]).kind.bound_to() == Some(id)
                    && a.scene[k].kind->Text_text == text && a.pending_measure
                    == b.pending_measure.push(a.scene[k].id) && (k < b.scene.len() ==> a.scene[k].id
                    == b.scene[k].id && a.scene[k].bounds.x == placed[k].x && a.scene[k].bounds.y
                    == placed[k].y && same_but_text(b.scene[k].kind, a.scene[k].kind) && a.scene.len()
                    == b.scene.len() && forall|j: int|
                    0 <= j < b.scene.len() && j != k ==> #[trigger] a.scene[j] == b.scene[j])
            &&& first_label(b.scene, id) is None ==> gained(a.scene, b.scene) && labels(
                a.scene.last(),
                id,
                text,
            )
        }),
{
    lemma_first_label_place(b.scene, id);
    let a = b.label_set(id, text, placed, label, fresh);
    match first_label(b.scene, id) {
        Some(l) => {
            let k = choose|k: int|
                0 <= k < b.scene.len() && (#[trigger] b.scene[k]).id == l
                    && b.scene[k].kind.bound_to() == Some(id);
            lemma_place_of(b.scene, l);
            let p = place_of(b.scene, l);
            if p < k {
                assert(b.scene[p].id != b.scene[k].id);
            }
            assert(p == k);
            assert(a.scene[k].kind.bound_to() == Some(id));
        },
        None => {
            assert(a.scene.drop_last() =~= b.scene);
            assert(a.scene[b.scene.len() as int].kind.bound_to() == Some(id));
        },
    }
}

/// The labels of a container go to their places, and everything else stays.
pub proof fn law_labels_go_to_their_places<F>(
    s: Seq<ElementV<F>>,
    container: ElementId,
    placed: Seq<WPoint<F>>,
    i: int,
)
    requires
        0 <= i < s.len(),
    ensures
        ({
            let r = labels_placed(s, container, placed);
            &&& r.len() == s.len()
            &&& r[i].kind == s[i].kind && r[i].style == s[i].style && r[i].id == s[i].id
                && r[i].bounds.w == s[i].bounds.w && r[i].bounds.h == s[i].bounds.h
            &&& i < placed.len() && (s[i].kind matches KindV::Text { container_id, .. }
                && container_id == Some(container)) ==> r[i].bounds.x == placed[i].x && r[i].bounds.y
                == placed[i].y
            &&& !(s[i].kind is Text && s[i].kind->container_id == Some(container)) ==> r[i] == s[i]
        }),
{
}

/// An update changes the named element as it says and leaves every other element
/// that is no label of it as it was. A text for a shape becomes the text of its
/// label.
pub proof fn law_an_update_changes_the_named_element<F>(
    b: BoardV<F>,
    id: ElementId,
    c: Change<F>,
    text: Option<Seq<char>>,
    placed: Seq<WPoint<F>>,
    label: LabelBox<F>,
    fresh: Fresh,
    k: int,
)
    requires
        unique_ids(b.scene),
        has_id(b.scene, id),
        placed.len() == b.scene.len(),
        0 <= k < b.scene.len(),
        b.scene[place_of(b.scene, id)].kind.bound_to() != Some(id),
    ensures
        ({
            let a = b.updated(id, c, text, placed, label, fresh);
            let p = place_of(b.scene, id);
            &&& a.scene[p] == changed(b.scene[p], c, text)
            &&& k != p && b.scene[k].kind.bound_to() != Some(id) ==> a.scene[k] == b.scene[k]
            &&& a.history == b.history.recorded(b.scene)
            &&& c.font_size is Some && b.scene[p].kind is Text ==> a.pending_measure
                == b.pending_measure.push(id)
            &&& a.scene.len() >= b.scene.len()
            &&& text is None || b.scene[p].kind is Text ==> a.scene.len() == b.scene.len()
            &&& text is Some && !(b.scene[p].kind is Text) ==> exists|j: int|
                0 <= j < a.scene.len() && (#[trigger] a.scene[j]).kind.bound_to() == Some(id)
                    && a.scene[j].kind->Text_text == text->Some_0
        }),
{
    let p = place_of(b.scene, id);
    lemma_place_of(b.scene, id);
    let one = b.element_changed(id, c, text);
    lemma_first_label_place(one.scene, id);
    assert(one.scene[p].kind.bound_to() == b.scene[p].kind.bound_to());
    if let Some(l) = first_label(one.scene, id) {
        lemma_place_of(one.scene, l);
        let q = choose|q: int|
            0 <= q < one.scene.len() && (#[trigger] one.scene[q]).id == l
                && one.scene[q].kind.bound_to() == Some(id);
        let r = place_of(one.scene, l);
        assert forall|i: int| 0 <= i < b.scene.len() implies (#[trigger] one.scene[i]).id
            == b.scene[i].id by {}
        if r < q {
            assert(one.scene[r].id == b.scene[r].id && one.scene[q].id == b.scene[q].id);
            assert(b.scene[r].id != b.scene[q].id);
        }
        assert(r == q);
        assert(q != p);
    }
    let a = b.updated(id, c, text, placed, label, fresh);
    if text is Some && !(b.scene[p].kind is Text) {
        let two = one.label_set(id, text->Some_0, placed, label, fresh);
        assert forall|i: int, j: int| 0 <= i < j < one.scene.len() implies (
        #[trigger] one.scene[i]).id != (#[trigger] one.scene[j]).id by {
            assert(one.scene[i].id == b.scene[i].id && one.scene[j].id == b.scene[j].id);
            assert(b.scene[i].id != b.scene[j].id);
        }
        law_a_label_reads_what_it_was_set_to(one, id, text->Some_0, placed, label, fresh);
        let j = choose|j: int|
            0 <= j < two.scene.len() && (#[trigger] two.scene[j]).kind.bound_to() == Some(id)
                && two.scene[j].kind->Text_text == text->Some_0;
        assert(a.scene[j].kind == two.scene[j].kind);
    }
}

/// A new label is centred on its container, wraps at the given width, is one empty
/// line high at first and queued for measuring; on a line or an arrow it has an
/// opaque background.
pub proof fn law_a_new_label_belongs_to_its_container<F>(
    b: BoardV<F>,
    container: ElementId,
    text: Seq<char>,
    at: LabelBox<F>,
    fresh: Fresh,
)
    ensures
        ({
            let a = b.labelled(container, text, at, fresh);
            let e = a.scene.last();
            let linear = has_id(b.scene, container) && (b.scene[place_of(
                b.scene,
                container,
            )].kind is Line || b.scene[place_of(b.scene, container)].kind is Arrow);
            &&& gained(a.scene, b.scene)
            &&& labels(e, container, text)
            &&& e.kind->wrap_width == Some(at.wrap)
            &&& e.kind->min_height is None
            &&& e.kind->font_size == b.text_font_size
            &&& e.kind->font_family == b.text_font_family
            &&& e.bounds == WBounds { x: at.at.x, y: at.at.y, w: at.zero, h: at.line_box }
            &&& e.id == fresh.id && e.seed == fresh.seed
            &&& linear ==> e.style.background == Some(0xffffffu32)
            &&& !linear ==> e.style.background == b.style.background
            &&& e.style.stroke == b.style.stroke && e.style.roughness == at.zero
            &&& a.pending_measure == b.pending_measure.push(fresh.id)
            &&& a.history == b.history && a.selection == b.selection
        }),
{
    let a = b.labelled(container, text, at, fresh);
    assert(a.scene.drop_last() =~= b.scene);
}

} // verus!
