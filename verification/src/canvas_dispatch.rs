//! One entry for all drawing operations.

use vstd::prelude::*;
use crate::board::{removed, BoardV, BoardView};
use crate::board_text::{text_kind, Fresh, LabelBox};
use crate::canvas_apply::Change;
use crate::canvas_op::{
    box_answer, box_kind, missing_id, named, op_outcome, outcome_view, set_or, short_name,
    unknown_id, BoxShape, CanvasOp, CanvasOpError, CanvasStyle, OpErrorV,
};
use crate::element::{
    opt_text, Element, ElementKind, ElementStyle, ElementV, FillStyle, KindV, TextAlign, WBounds,
    HANDWRITTEN_FONT,
};
use crate::ids::ElementId;
use crate::mindmap::{tree_count, PALETTE_LEN};
use crate::mindmap_plan::{plan_links, plan_nodes};
use crate::scene::{has_id, prefix_match};
use crate::text::{color_string, decimal_text, joined};

verus! {

/// Whether the coordinates of an operation match what it draws: a mind map
/// has one box per node and one path per link, and an update has one place
/// per element of the scene.
pub open spec fn op_fits<F>(scene: Seq<ElementV<F>>, op: CanvasOp<F>) -> bool {
    match op {
        CanvasOp::Mindmap { root, boxes, paths, .. } => tree_count(root) < usize::MAX - PALETTE_LEN
            && boxes@.len() == plan_nodes(root).len() && paths@.len() == plan_links(root).len(),
        CanvasOp::UpdateElement { id, placed, .. } => prefix_match(scene, id@) is Some ==> placed@.len()
            == scene.len(),
        _ => true,
    }
}

/// How many fresh identities and seeds an operation may use up.
pub open spec fn fresh_needed<F>(op: CanvasOp<F>) -> nat {
    match op {
        CanvasOp::Mindmap { root, .. } => plan_links(root).len() + 2 * plan_nodes(root).len(),
        _ => 2,
    }
}

/// The board after an operation on it that is answered with success.
#[verifier::opaque]
pub open spec fn op_effect<F>(
    b: BoardV<F>,
    op: CanvasOp<F>,
    pre: Option<ElementId>,
    fresh: Seq<Fresh>,
) -> BoardV<F> {
    let id = pre->Some_0;
    let seed = fresh[0].seed;
    match op {
        CanvasOp::Shape { shape, bounds, style, text, label, .. } => b.added(
            ElementV { id, bounds, seed, style: style.over(b.style), kind: box_kind(shape) },
        ).maybe_labelled(id, opt_text(text), label, fresh[1]),
        CanvasOp::Polygon { points, bounds, style, .. } => b.added(
            ElementV {
                id,
                bounds,
                seed,
                style: ElementStyle { fill_style: FillStyle::Solid, ..style.over(b.style) },
                kind: KindV::Polygon { points: points@, smooth: false },
            },
        ),
        CanvasOp::Line { points, bounds, style, text, label } => b.added(
            ElementV {
                id,
                bounds,
                seed,
                style: style.over(b.style),
                kind: KindV::Line { points: points@ },
            },
        ).maybe_labelled(id, opt_text(text), label, fresh[1]),
        CanvasOp::Arrow {
            points,
            bounds,
            start_arrowhead,
            end_arrowhead,
            style,
            text,
            label,
        } => b.added(
            ElementV {
                id,
                bounds,
                seed,
                style: style.over(b.style),
                kind: KindV::Arrow { points: points@, end_arrowhead, start_arrowhead },
            },
        ).maybe_labelled(id, opt_text(text), label, fresh[1]),
        CanvasOp::Text { bounds, text, font_size, align, font_family, wrap_width, style, zero } => {
            BoardV {
                pending_measure: b.pending_measure.push(id),
                ..b.added(
                    ElementV {
                        id,
                        bounds,
                        seed,
                        style: ElementStyle { roughness: zero, ..style.over(b.style) },
                        kind: text_kind(
                            text@,
                            font_size,
                            set_or(opt_text(font_family), HANDWRITTEN_FONT@),
                            wrap_width,
                            None,
                            set_or(align, b.text_align),
                        ),
                    },
                )
            }
        },
        CanvasOp::SetBackground { color } => BoardV { canvas_background: color, ..b },
        CanvasOp::Mindmap { root, boxes, paths, pen } => b.mindmap_drawn(
            root,
            boxes@,
            paths@,
            pen,
            id,
            fresh,
        ),
        CanvasOp::UpdateElement { id: prefix, x, y, text, style, font_size, placed, label } => {
            b.updated(
                prefix_match(b.scene, prefix@)->Some_0,
                Change { x, y, style, font_size },
                opt_text(text),
                placed@,
                label,
                fresh[0],
            )
        },
        CanvasOp::DeleteElement { id: prefix } => BoardV {
            scene: removed(b.scene, prefix_match(b.scene, prefix@)->Some_0),
            history: b.history.recorded(b.scene),
            ..b
        },
        CanvasOp::Clear => BoardV {
            scene: Seq::empty(),
            history: b.history.recorded(b.scene),
            selection: Seq::empty(),
            editing: None,
            ..b
        },
    }
}

/// The board after an operation: unchanged when it was refused.
pub open spec fn op_applied<F>(
    b: BoardV<F>,
    op: CanvasOp<F>,
    pre: Option<ElementId>,
    fresh: Seq<Fresh>,
) -> BoardV<F> {
    if op_outcome(b.scene, op, pre) is Ok {
        BoardV { dirty: true, ..op_effect(b, op, pre, fresh) }
    } else {
        b
    }
}

/// A prefix that matches names an element of the scene.
pub proof fn lemma_prefix_match<F>(s: Seq<ElementV<F>>, prefix: Seq<char>)
    ensures
        prefix_match(s, prefix) matches Some(id) ==> has_id(s, id),
    decreases s.len(),
{
    if s.len() > 0 {
        lemma_prefix_match(s.skip(1), prefix);
        if let Some(id) = prefix_match(s, prefix) {
            if s[0].id != id {
                let k = choose|k: int|
                    0 <= k < s.skip(1).len() && (#[trigger] s.skip(1)[k]).id == id;
                assert(s[k + 1].id == id);
            }
        }
    }
}

fn answer(lead: &str, id: ElementId) -> (r: Result<String, CanvasOpError>)
    ensures
        outcome_view(r) == Ok::<Seq<char>, OpErrorV>(lead@ + short_name(id)),
{
    let name: String = id.short_text();
    Ok(joined(lead, name.as_str()))
}

fn no_id() -> (r: Result<String, CanvasOpError>)
    ensures
        outcome_view(r) == Err::<Seq<char>, OpErrorV>(missing_id()),
{
    Err(CanvasOpError::Internal("内部错误：缺少元素 ID".to_owned()))
}

fn not_found(prefix: &str) -> (r: Result<String, CanvasOpError>)
    ensures
        outcome_view(r) == Err::<Seq<char>, OpErrorV>(unknown_id(prefix@)),
{
    Err(CanvasOpError::NotFound(joined("找不到元素 id=", prefix)))
}

fn invalid(message: &str) -> (r: Result<String, CanvasOpError>)
    ensures
        outcome_view(r) == Err::<Seq<char>, OpErrorV>(OpErrorV::InvalidArgs(message@)),
{
    Err(CanvasOpError::InvalidArgs(message.to_owned()))
}

impl<F: Copy> BoardView<F> {
    /// Adds an element with an optional label on it.
    fn add_labelled(
        &mut self,
        el: Element<F>,
        text: Option<String>,
        label: LabelBox<F>,
        fresh: Fresh,
    )
        ensures
            final(self)@ == old(self)@.added(el@).maybe_labelled(
                el@.id,
                opt_text(text),
                label,
                fresh,
            ),
    {
        let id: ElementId = el.id;
        self.add_recorded(el);
        self.label_if_any(id, text, label, fresh);
    }

    /// Draws a rectangle, an ellipse or a diamond.
    fn op_shape(
        &mut self,
        shape: BoxShape,
        bounds: WBounds<F>,
        style: CanvasStyle<F>,
        text: Option<String>,
        label: LabelBox<F>,
        id: ElementId,
        fresh: &Vec<Fresh>,
    ) -> (r: Result<String, CanvasOpError>)
        requires
            fresh@.len() >= 2,
        ensures
            outcome_view(r) == named(box_answer(shape), Some(id)),
            final(self)@ == old(self)@.added(
                ElementV {
                    id,
                    bounds,
                    seed: fresh@[0].seed,
                    style: style.over(old(self)@.style),
                    kind: box_kind(shape),
                },
            ).maybe_labelled(id, opt_text(text), label, fresh@[1]),
    {
        let kind: ElementKind<F> = match shape {
            BoxShape::Rectangle => ElementKind::Rectangle,
            BoxShape::Ellipse => ElementKind::Ellipse,
            BoxShape::Diamond => ElementKind::Diamond,
        };
        let el: Element<F> = Element {
            id,
            bounds,
            seed: fresh[0].seed,
            style: style.merge_into(self.style),
            kind,
        };
        self.add_labelled(el, text, label, fresh[1]);
        match shape {
            BoxShape::Rectangle => answer("已添加矩形 id=", id),
            BoxShape::Ellipse => answer("已添加椭圆 id=", id),
            BoxShape::Diamond => answer("已添加菱形 id=", id),
        }
    }

    /// Draws a mind map and answers with its size.
    fn op_mindmap(
        &mut self,
        op: &CanvasOp<F>,
        id: ElementId,
        fresh: &Vec<Fresh>,
    ) -> (r: Result<String, CanvasOpError>)
        requires
            op is Mindmap,
            op_fits(old(self)@.scene, *op),
            fresh@.len() >= fresh_needed(*op),
        ensures
            outcome_view(r) == op_outcome(old(self)@.scene, *op, Some(id)),
            final(self)@ == op_effect(old(self)@, *op, Some(id), fresh@),
    {
        reveal(op_effect);
        reveal(op_outcome);
        match op {
            CanvasOp::Mindmap { root, boxes, paths, pen } => {
                self.draw_mindmap(root, boxes, paths, *pen, id, fresh);
                let count: String = decimal_text(boxes.len() as u64);
                let lead: String = joined("已添加思维导图（", count.as_str());
                let lead: String = joined(lead.as_str(), " 个节点）id=");
                answer(lead.as_str(), id)
            },
            _ => no_id(),
        }
    }
}

impl<F: Copy> BoardView<F> {
    /// Draws a polyline, with or without arrowheads, and its label.
    fn op_path(
        &mut self,
        kind: ElementKind<F>,
        bounds: WBounds<F>,
        style: CanvasStyle<F>,
        text: Option<String>,
        label: LabelBox<F>,
        id: ElementId,
        fresh: &Vec<Fresh>,
    )
        requires
            fresh@.len() >= 2,
        ensures
            final(self)@ == old(self)@.added(
                ElementV {
                    id,
                    bounds,
                    seed: fresh@[0].seed,
                    style: style.over(old(self)@.style),
                    kind: kind@,
                },
            ).maybe_labelled(id, opt_text(text), label, fresh@[1]),
    {
        let el: Element<F> = Element {
            id,
            bounds,
            seed: fresh[0].seed,
            style: style.merge_into(self.style),
            kind,
        };
        self.add_labelled(el, text, label, fresh[1]);
    }

    /// Performs an operation that draws; `id` is the identity it draws under.
    fn op_draw(&mut self, op: CanvasOp<F>, id: ElementId, fresh: &Vec<Fresh>) -> (r: Result<
        String,
        CanvasOpError,
    >)
        requires
            draws(op),
            op_outcome(old(self)@.scene, op, Some(id)) is Ok,
            op_fits(old(self)@.scene, op),
            fresh@.len() >= fresh_needed(op),
        ensures
            outcome_view(r) == op_outcome(old(self)@.scene, op, Some(id)),
            final(self)@ == op_effect(old(self)@, op, Some(id), fresh@),
    {
        reveal(op_effect);
        reveal(op_outcome);
        if let CanvasOp::Mindmap { .. } = &op {
            return self.op_mindmap(&op, id, fresh);
        }
        match op {
            CanvasOp::Shape { shape, bounds, style, text, label, .. } => self.op_shape(
                shape,
                bounds,
                style,
                text,
                label,
                id,
                fresh,
            ),
            CanvasOp::Polygon { points, bounds, style, .. } => {
                let mut s: ElementStyle<F> = style.merge_into(self.style);
                s.fill_style = FillStyle::Solid;
                self.add_recorded(
                    Element {
                        id,
                        bounds,
                        seed: fresh[0].seed,
                        style: s,
                        kind: ElementKind::Polygon { points, smooth: false },
                    },
                );
                answer("已添加多边形 id=", id)
            },
            CanvasOp::Line { points, bounds, style, text, label } => {
                self.op_path(ElementKind::Line { points }, bounds, style, text, label, id, fresh);
                answer("已添加直线 id=", id)
            },
            CanvasOp::Arrow { points, bounds, start_arrowhead, end_arrowhead, style, text, label } => {
                self.op_path(
                    ElementKind::Arrow { points, end_arrowhead, start_arrowhead },
                    bounds,
                    style,
                    text,
                    label,
                    id,
                    fresh,
                );
                answer("已添加箭头 id=", id)
            },
            CanvasOp::Text { bounds, text, font_size, align, font_family, wrap_width, style, zero } => {
                let mut s: ElementStyle<F> = style.merge_into(self.style);
                s.roughness = zero;
                let family: String = match font_family {
                    Some(f) => f,
                    None => HANDWRITTEN_FONT.to_owned(),
                };
                let text_align: TextAlign = match align {
                    Some(a) => a,
                    None => self.text_align,
                };
                self.add_recorded(
                    Element {
                        id,
                        bounds,
                        seed: fresh[0].seed,
                        style: s,
                        kind: ElementKind::Text {
                            text,
                            font_size,
                            font_family: family,
                            wrap_width,
                            min_height: None,
                            container_id: None,
                            text_align,
                            anchor: None,
                        },
                    },
                );
                self.pending_measure.push(id);
                answer("已添加文本 id=", id)
            },
            _ => no_id(),
        }
    }

    /// Performs an operation that does not draw under a given identity.
    fn op_edit(
        &mut self,
        op: CanvasOp<F>,
        pre: Option<ElementId>,
        fresh: &Vec<Fresh>,
    ) -> (r: Result<String, CanvasOpError>)
        requires
            op is SetBackground || op is UpdateElement || op is DeleteElement || op is Clear,
            op_fits(old(self)@.scene, op),
            fresh@.len() >= fresh_needed(op),
        ensures
            outcome_view(r) == op_outcome(old(self)@.scene, op, pre),
            final(self)@ == (if r is Ok {
                op_effect(old(self)@, op, pre, fresh@)
            } else {
                old(self)@
            }),
    {
        reveal(op_effect);
        reveal(op_outcome);
        match op {
            CanvasOp::SetBackground { color } => {
                self.canvas_background = color;
                match color {
                    Some(c) => {
                        let code: String = color_string(c);
                        Ok(joined("画布底色已设为 ", code.as_str()))
                    },
                    None => Ok("画布底色已恢复白色".to_owned()),
                }
            },
            CanvasOp::UpdateElement { id, x, y, text, style, font_size, placed, label } => {
                proof {
                    lemma_prefix_match(self@.scene, id@);
                }
                match self.scene.find_by_id_prefix(id.as_str()) {
                    Some(found) => {
                        self.update_element(
                            found,
                            Change { x, y, style, font_size },
                            text,
                            &placed,
                            label,
                            fresh[0],
                        );
                        answer("已更新元素 id=", found)
                    },
                    None => not_found(id.as_str()),
                }
            },
            CanvasOp::DeleteElement { id } => {
                match self.scene.find_by_id_prefix(id.as_str()) {
                    Some(found) => {
                        self.record();
                        self.scene.remove_with_labels(found);
                        answer("已删除元素 id=", found)
                    },
                    None => not_found(id.as_str()),
                }
            },
            _ => {
                self.record();
                self.scene.restore(Vec::new());
                assert(self@.scene =~= Seq::<ElementV<F>>::empty());
                self.selection = Vec::new();
                self.editing = None;
                Ok("已清空画布".to_owned())
            },
        }
    }
}

/// Whether an operation draws under the pre-assigned identity.
pub open spec fn draws<F>(op: CanvasOp<F>) -> bool {
    op is Shape || op is Polygon || op is Line || op is Arrow || op is Text || op is Mindmap
}

/// The refusal of the arguments of an operation, before anything else is
/// looked at.
fn refused<F: Copy>(
    op: &CanvasOp<F>,
    Ghost(scene): Ghost<Seq<ElementV<F>>>,
    pre: Option<ElementId>,
) -> (r: Option<Result<String, CanvasOpError>>)
    ensures
        match r {
            Some(e) => op_outcome(scene, *op, pre) == outcome_view(e) && e is Err,
            None => draws(*op) ==> match pre {
                Some(id) => op_outcome(scene, *op, pre) is Ok,
                None => op_outcome(scene, *op, pre) == Err::<Seq<char>, OpErrorV>(missing_id()),
            },
        },
{
    reveal(op_outcome);
    match op {
        CanvasOp::Shape { shape, positive, .. } => if !*positive {
            Some(
                match shape {
                    BoxShape::Rectangle => invalid("矩形宽高必须为正数"),
                    BoxShape::Ellipse => invalid("椭圆宽高必须为正数"),
                    BoxShape::Diamond => invalid("菱形宽高必须为正数"),
                },
            )
        } else {
            None
        },
        CanvasOp::Polygon { points, finite, .. } => if points.len() < 3 || !*finite {
            Some(invalid("多边形至少需要三个有限坐标点"))
        } else {
            None
        },
        CanvasOp::Line { points, .. } => if points.len() < 2 {
            Some(invalid("至少需要两个坐标点"))
        } else {
            None
        },
        CanvasOp::Arrow { points, .. } => if points.len() < 2 {
            Some(invalid("至少需要两个坐标点"))
        } else {
            None
        },
        _ => None,
    }
}

impl<F: Copy> BoardView<F> {
    /// Performs a drawing operation with the given identities and seeds for
    /// what it adds. A refused operation changes nothing.
    pub fn apply_canvas_op_with(
        &mut self,
        op: CanvasOp<F>,
        pre: Option<ElementId>,
        fresh: &Vec<Fresh>,
    ) -> (r: Result<String, CanvasOpError>)
        requires
            op_fits(old(self)@.scene, op),
            fresh@.len() >= fresh_needed(op),
        ensures
            outcome_view(r) == op_outcome(old(self)@.scene, op, pre),
            final(self)@ == op_applied(old(self)@, op, pre, fresh@),
    {
        if let Some(e) = refused(&op, Ghost(self@.scene), pre) {
            return e;
        }
        let drawing: bool = match &op {
            CanvasOp::SetBackground { .. } => false,
            CanvasOp::UpdateElement { .. } => false,
            CanvasOp::DeleteElement { .. } => false,
            CanvasOp::Clear => false,
            _ => true,
        };
        if !drawing {
            let r: Result<String, CanvasOpError> = self.op_edit(op, pre, fresh);
            self.mark_done(r.is_ok());
            return r;
        }
        match pre {
            Some(id) => {
                let r: Result<String, CanvasOpError> = self.op_draw(op, id, fresh);
                self.mark_done(true);
                r
            },
            None => no_id(),
        }
    }

    /// Marks the board as changed after an operation that succeeded.
    fn mark_done(&mut self, done: bool)
        ensures
            final(self)@ == (if done {
                BoardV { dirty: true, ..old(self)@ }
            } else {
                old(self)@
            }),
    {
        if done {
            self.dirty = true;
        }
    }
}

/// Whether all the identities and seeds can have been drawn at random.
pub open spec fn all_drawn(fresh: Seq<Fresh>) -> bool {
    forall|i: int| 0 <= i < fresh.len() ==> (#[trigger] fresh[i]).drawn()
}

/// Draws enough fresh identities and seeds for an operation.
fn draw_fresh<F: Copy>(scene: Ghost<Seq<ElementV<F>>>, op: &CanvasOp<F>) -> (r: Vec<Fresh>)
    requires
        op_fits(scene@, *op),
    ensures
        r@.len() >= fresh_needed(*op),
        all_drawn(r@),
{
    let mut r: Vec<Fresh> = Vec::new();
    match op {
        CanvasOp::Mindmap { boxes, paths, .. } => {
            let mut i: usize = 0;
            while i < paths.len()
                invariant
                    i <= paths.len(),
                    r@.len() == i,
                    all_drawn(r@),
                decreases paths.len() - i,
            {
                r.push(Fresh::draw());
                i += 1;
            }
            let mut k: usize = 0;
            while k < boxes.len()
                invariant
                    k <= boxes.len(),
                    r@.len() == paths@.len() + 2 * k,
                    all_drawn(r@),
                decreases boxes.len() - k,
            {
                r.push(Fresh::draw());
                r.push(Fresh::draw());
                k += 1;
            }
        },
        _ => {
            r.push(Fresh::draw());
            r.push(Fresh::draw());
        },
    }
    r
}

impl<F: Copy> BoardView<F> {
    /// Performs a drawing operation; what it adds beside the pre-assigned
    /// element gets random identities. A refused operation changes nothing.
    pub fn apply_canvas_op(&mut self, op: CanvasOp<F>, pre: Option<ElementId>) -> (r: Result<
        String,
        CanvasOpError,
    >)
        requires
            op_fits(old(self)@.scene, op),
        ensures
            outcome_view(r) == op_outcome(old(self)@.scene, op, pre),
            exists|fresh: Seq<Fresh>|
                fresh.len() >= fresh_needed(op) && all_drawn(fresh) && final(self)@
                    == #[trigger] op_applied(old(self)@, op, pre, fresh),
    {
        let fresh: Vec<Fresh> = draw_fresh(Ghost(self@.scene), &op);
        self.apply_canvas_op_with(op, pre, &fresh)
    }
}

} // verus!
