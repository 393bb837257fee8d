//! The pointer moving over the canvas, by what is being dragged.

use vstd::prelude::*;
use crate::board::{deselected, removed, ActiveTool, BoardV, DragV, Handle, PointTarget};
use crate::board_text::with_selected;
use crate::element::{
    copy_list, insert_point_spec, segment_count, Element, ElementStyle, ElementV, KindV,
    StrokeStyle, WBounds, WPoint,
};
use crate::ids::ElementId;
use crate::scene::{has_id, occurrences, place_of};

verus! {

/// What the drawn shape looks like at the moment: its box, the two ends of a
/// line relative to it, the height of a line of text, and zero.
#[derive(Debug)]
pub struct DraftFacts<F> {
    pub bounds: WBounds<F>,
    pub points: Vec<WPoint<F>>,
    pub line_box: F,
    pub zero: F,
    /// The identity of the draft.
    pub id: ElementId,
}

/// How one element comes out of a resize: its box (for a text only its
/// corner counts), its scaled points, and the font size, wrap width and
/// minimum height that a text may take.
#[derive(Debug)]
pub struct Resized<F> {
    pub bounds: WBounds<F>,
    pub points: Vec<WPoint<F>>,
    pub font_size: F,
    pub wrap: F,
    pub height: F,
}

/// Whether a handle is a corner.
pub open spec fn is_corner(h: Handle) -> bool {
    h == Handle::Nw || h == Handle::Ne || h == Handle::Se || h == Handle::Sw
}

/// Whether a handle is the left or the right edge.
pub open spec fn is_side(h: Handle) -> bool {
    h == Handle::E || h == Handle::W
}

/// An element after a resize. A corner scales a text with its box; a side
/// sets its wrap width; the top and the bottom set its height and let it
/// hug its content.
pub open spec fn resized<F>(el: ElementV<F>, h: Handle, r: Resized<F>) -> ElementV<F> {
    match el.kind {
        KindV::Text { wrap_width, min_height, .. } => {
            let kind = if is_corner(h) {
                el.kind.with_font_size(r.font_size).with_box(
                    match wrap_width {
                        Some(_) => Some(r.wrap),
                        None => None,
                    },
                    match min_height {
                        Some(_) => Some(r.height),
                        None => None,
                    },
                )
            } else if is_side(h) {
                el.kind.with_box(Some(r.wrap), min_height)
            } else {
                el.kind.with_box(None, Some(r.height))
            };
            el.with_kind(kind).at(WPoint { x: r.bounds.x, y: r.bounds.y })
        },
        _ => ElementV {
            bounds: r.bounds,
            kind: el.kind.with_points(r.points@),
            ..el
        },
    }
}

/// A polyline after one of its control points was dragged: `points` are its
/// points in the new box and `at` the dragged one. A midpoint becomes a new
/// vertex.
pub open spec fn point_dragged<F>(
    el: ElementV<F>,
    target: PointTarget,
    points: Seq<WPoint<F>>,
    at: WPoint<F>,
    bounds: WBounds<F>,
) -> ElementV<F> {
    match target {
        PointTarget::Vertex(i) => if i < el.kind.points().len() {
            ElementV {
                bounds,
                kind: el.kind.with_points(points.update(i as int, at)),
                ..el
            }
        } else {
            el
        },
        PointTarget::Midpoint(seg) => if seg < segment_count(el.kind) {
            ElementV {
                bounds,
                kind: insert_point_spec(el.kind.with_points(points), seg as int, at),
                ..el
            }
        } else {
            el
        },
    }
}

/// How often element `i` moves when the selection is dragged: the first element
/// of a selected identity as often as the selection holds it, and the label of a
/// selected container once.
pub open spec fn moves<F>(s: Seq<ElementV<F>>, selection: Seq<ElementId>, i: int) -> nat {
    if selection.contains(s[i].id) {
        if place_of(s, s[i].id) == i {
            occurrences(selection, s[i].id)
        } else {
            0
        }
    } else if s[i].kind.bound_to() matches Some(c) && selection.contains(c) {
        1
    } else {
        0
    }
}

/// Whether there is a corner for every time that an element moves.
pub open spec fn corners_reach<F>(
    s: Seq<ElementV<F>>,
    selection: Seq<ElementId>,
    corners: Seq<Vec<WPoint<F>>>,
) -> bool {
    &&& corners.len() == s.len()
    &&& forall|i: int| 0 <= i < s.len() ==> moves(s, selection, i) <= (#[trigger] corners[i])@.len()
}

/// The elements with those that move at their new corners: an element that moves
/// `n` times is at the `n`-th of its corners.
pub open spec fn shifted<F>(
    s: Seq<ElementV<F>>,
    selection: Seq<ElementId>,
    corners: Seq<Vec<WPoint<F>>>,
) -> Seq<ElementV<F>> {
    Seq::new(
        s.len(),
        |i: int|
            if moves(s, selection, i) > 0 {
                s[i].at(corners[i]@[moves(s, selection, i) - 1])
            } else {
                s[i]
            },
    )
}

/// A selection with `ids` joined to it, each once.
pub open spec fn joined_selection(base: Seq<ElementId>, ids: Seq<ElementId>) -> Seq<ElementId>
    decreases ids.len(),
{
    if ids.len() == 0 {
        base
    } else {
        with_selected(joined_selection(base, ids.drop_last()), ids.last())
    }
}

impl<F> BoardV<F> {
    /// The history with this scene recorded, unless the drag did so already.
    pub open spec fn recorded_once(self, recorded: bool) -> Self {
        if recorded {
            self
        } else {
            BoardV { history: self.history.recorded(self.scene), dirty: true, ..self }
        }
    }

    /// The hovered control point, resize handle and whether an element or the
    /// selection box is hovered: only with the select tool, the one before
    /// hiding the ones after.
    pub open spec fn hover_of(
        self,
        point: Option<PointTarget>,
        handle: Option<Handle>,
        hit: bool,
        in_selection: bool,
    ) -> (Option<PointTarget>, Option<Handle>, bool) {
        let selecting = self.tool == ActiveTool::Select;
        let p = if selecting && self.selected_line() is Some {
            point
        } else {
            None
        };
        let h = if selecting && p is None && self.has_box() {
            handle
        } else {
            None
        };
        (p, h, selecting && p is None && h is None && (hit || (self.has_box() && in_selection)))
    }

    /// The board after the pointer hovered.
    pub open spec fn hovered(
        self,
        point: Option<PointTarget>,
        handle: Option<Handle>,
        hit: bool,
        in_selection: bool,
    ) -> Self {
        let h = self.hover_of(point, handle, hit, in_selection);
        BoardV { hover_point: h.0, hover_handle: h.1, hover_over_element: h.2, ..self }
    }

    /// The kind of the shape that the active tool draws.
    pub open spec fn draft_kind(self, d: DraftFacts<F>) -> Option<KindV<F>> {
        match self.tool {
            ActiveTool::Rectangle => Some(KindV::Rectangle),
            ActiveTool::Diamond => Some(KindV::Diamond),
            ActiveTool::Ellipse => Some(KindV::Ellipse),
            ActiveTool::Line => Some(KindV::Line { points: d.points@ }),
            ActiveTool::Arrow => Some(
                KindV::Arrow { points: d.points@, end_arrowhead: true, start_arrowhead: false },
            ),
            ActiveTool::Text => Some(KindV::Rectangle),
            _ => None,
        }
    }

    /// The board with the draft brought up to date; the text tool shows a
    /// dashed box of one line.
    pub open spec fn drafted(self, d: DraftFacts<F>, seed: u64) -> Self {
        match self.draft_kind(d) {
            Some(kind) => BoardV {
                draft: Some(
                    if self.tool == ActiveTool::Text {
                        ElementV {
                            id: d.id,
                            bounds: WBounds { h: d.line_box, ..d.bounds },
                            seed,
                            style: ElementStyle {
                                stroke_style: StrokeStyle::Dashed,
                                roughness: d.zero,
                                ..self.style
                            },
                            kind,
                        }
                    } else {
                        ElementV { id: d.id, bounds: d.bounds, seed, style: self.style, kind }
                    },
                ),
                ..self
            },
            None => self,
        }
    }

    /// The board after the selection was dragged to `world`.
    pub open spec fn selection_shifted(
        self,
        recorded: bool,
        world: WPoint<F>,
        corners: Seq<Vec<WPoint<F>>>,
    ) -> Self {
        BoardV {
            scene: shifted(self.scene, self.selection, corners),
            drag: DragV::Moving { last: world, recorded: true },
            ..self.recorded_once(recorded)
        }
    }

    /// The board after the element that was `o` took its resized shape; a text
    /// is measured again.
    pub open spec fn resized_one(self, o: ElementV<F>, h: Handle, part: Resized<F>) -> Self {
        BoardV {
            scene: if has_id(self.scene, o.id) {
                self.scene.update(place_of(self.scene, o.id), resized(o, h, part))
            } else {
                self.scene
            },
            pending_measure: if o.kind is Text {
                self.pending_measure.push(o.id)
            } else {
                self.pending_measure
            },
            ..self
        }
    }

    /// The board after the first `n` of the resized elements took their new
    /// shape.
    pub open spec fn resized_upto(
        self,
        originals: Seq<ElementV<F>>,
        h: Handle,
        parts: Seq<Resized<F>>,
        n: int,
    ) -> Self
        decreases n,
    {
        if n <= 0 {
            self
        } else {
            self.resized_upto(originals, h, parts, n - 1).resized_one(
                originals[n - 1],
                h,
                parts[n - 1],
            )
        }
    }

    /// The board after a resize handle was dragged.
    pub open spec fn selection_resized(
        self,
        originals: Seq<ElementV<F>>,
        h: Handle,
        original_bounds: WBounds<F>,
        recorded: bool,
        parts: Seq<Resized<F>>,
        wraps: Seq<F>,
    ) -> Self {
        let b = self.recorded_once(recorded).resized_upto(
            originals,
            h,
            parts,
            originals.len() as int,
        );
        BoardV {
            drag: DragV::Resizing { handle: h, original_bounds, originals, recorded: true },
            ..b.relabelled(Seq::new(originals.len(), |i: int| originals[i].id), wraps)
        }
    }

    /// The board after a control point was dragged to a new place.
    pub open spec fn point_moved(
        self,
        element: ElementId,
        original: ElementV<F>,
        target: PointTarget,
        recorded: bool,
        edited: ElementV<F>,
        wraps: Seq<F>,
    ) -> Self {
        let b = self.recorded_once(recorded);
        let c = if has_id(b.scene, element) {
            BoardV { scene: b.scene.update(place_of(b.scene, element), edited), ..b }
        } else {
            b
        };
        BoardV {
            drag: DragV::EditingPoint { element, original, target, recorded: true },
            ..c.relabelled(seq![element], wraps)
        }
    }

    /// The board after the eraser moved over `hit`.
    pub open spec fn erased_on(self, removed_any: bool, hit: Option<ElementId>) -> Self {
        match hit {
            Some(id) => BoardV {
                scene: removed(self.scene, id),
                history: if removed_any {
                    self.history
                } else {
                    self.history.recorded(self.scene)
                },
                selection: deselected(self.selection, id),
                dirty: true,
                drag: DragV::Erasing { removed_any: true },
                ..self
            },
            None => BoardV { drag: DragV::Erasing { removed_any }, ..self },
        }
    }
}

impl<F: Copy> Element<F> {
    /// Resizes the element by a drag of the handle `h`.
    pub fn resize(&mut self, h: Handle, r: &Resized<F>)
        ensures
            final(self)@ == resized(old(self)@, h, *r),
            !(old(self)@.kind is Text) ==> final(self)@.bounds == r.bounds,
            old(self)@.kind is Line || old(self)@.kind is Arrow || old(self)@.kind is Freedraw
                || old(self)@.kind is Polygon ==> final(self)@.kind.points() == r.points@,
            old(self)@.kind is Text <==> final(self)@.kind is Text,
    {
        if self.is_text() {
            let wrap: Option<F> = self.wrap_width();
            let height: Option<F> = self.min_height();
            match h {
                Handle::Nw | Handle::Ne | Handle::Se | Handle::Sw => {
                    self.set_font_size(r.font_size);
                    let w: Option<F> = if wrap.is_some() {
                        Some(r.wrap)
                    } else {
                        None
                    };
                    let t: Option<F> = if height.is_some() {
                        Some(r.height)
                    } else {
                        None
                    };
                    self.set_text_box(w, t);
                },
                Handle::E | Handle::W => {
                    self.set_text_box(Some(r.wrap), height);
                },
                Handle::N | Handle::S => {
                    self.set_text_box(None, Some(r.height));
                },
            }
            self.move_to(WPoint { x: r.bounds.x, y: r.bounds.y });
        } else {
            self.replace_points(copy_list(&r.points), r.bounds);
            self.bounds = r.bounds;
        }
    }

    /// Drags a control point of the element.
    pub fn drag_point(
        &mut self,
        target: PointTarget,
        points: &Vec<WPoint<F>>,
        at: WPoint<F>,
        bounds: WBounds<F>,
    )
        requires
            points@.len() == old(self)@.kind.points().len(),
        ensures
            final(self)@ == point_dragged(old(self)@, target, points@, at, bounds),
    {
        let n: usize = self.point_count();
        match target {
            PointTarget::Vertex(i) => {
                if i < n {
                    self.replace_points(copy_list(points), bounds);
                    let _set: bool = self.set_point(i, at);
                }
            },
            PointTarget::Midpoint(seg) => {
                if seg < self.segments() {
                    self.replace_points(copy_list(points), bounds);
                    let _inserted: bool = self.insert_point_after(seg, at);
                }
            },
        }
    }
}

} // verus!
