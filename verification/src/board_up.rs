//! The buttons going up.

use vstd::prelude::*;
use crate::board::{ActiveTool, BoardV, BoardView, DragState, DragV};
use crate::board_move::DraftFacts;
use crate::board_text::Fresh;
use crate::element::{copy_list, Element, ElementKind, ElementV, KindV, WBounds, WPoint};
use crate::ids::ElementId;
use crate::ink::{InkCollector, InkStroke, InkV};

verus! {

/// What the release of the left button needs beyond the board.
#[derive(Debug)]
pub struct Release<F> {
    pub over_panel: bool,
    /// The draft of a plain click: a shape of the default size.
    pub click_draft: DraftFacts<F>,
    /// Whether the pointer was dragged far enough to size a text box.
    pub dragged: bool,
    /// Whether the pointer came back to where it started.
    pub zero_length: bool,
    /// The corner of the dragged region.
    pub corner: WPoint<F>,
    /// The wrap width of a dragged text box.
    pub wrap: F,
    pub zero: F,
    pub line_box: F,
    /// The points of the drawn polyline, or of the stroke, relative to the box
    /// around them.
    pub points: Vec<WPoint<F>>,
    pub bounds: WBounds<F>,
    pub fresh: Fresh,
}

impl<F> BoardV<F> {
    /// The text that a release of the text tool creates.
    pub open spec fn released_text(self, start: WPoint<F>, e: Release<F>) -> ElementV<F> {
        let at = if !e.dragged {
            start
        } else {
            match self.draft {
                Some(d) => WPoint { x: d.bounds.x, y: d.bounds.y },
                None => e.corner,
            }
        };
        let el = self.text_element(at, Seq::empty(), e.zero, e.line_box, e.fresh);
        if e.dragged {
            el.with_kind(el.kind.with_box(Some(e.wrap), None))
        } else {
            el
        }
    }

    /// The board after the text tool was released: an empty text is added and
    /// edited.
    #[verifier::opaque]
    pub open spec fn text_released(self, start: WPoint<F>, e: Release<F>) -> Self {
        BoardV {
            scene: self.scene.push(self.released_text(start, e)),
            history: self.history.recorded(self.scene),
            draft: None,
            pending_measure: self.pending_measure.push(e.fresh.id),
            dirty: true,
            selection: seq![e.fresh.id],
            ..self
        }.edit_started(e.fresh.id, true)
    }

    /// The board after a drawn shape was released: it is added and selected,
    /// unless it is a line without length.
    #[verifier::opaque]
    pub open spec fn shape_released(self, e: Release<F>) -> Self {
        match self.draft {
            None => self,
            Some(d) => if (d.kind is Line || d.kind is Arrow) && e.zero_length {
                BoardV { draft: None, ..self }
            } else {
                let el = if d.kind.point_based() {
                    ElementV {
                        bounds: e.bounds,
                        kind: d.kind.with_points(e.points@),
                        ..d
                    }
                } else {
                    d
                };
                BoardV {
                    scene: self.scene.push(el),
                    history: self.history.recorded(self.scene),
                    draft: None,
                    selection: seq![d.id],
                    dirty: true,
                    tool: ActiveTool::Select,
                    ..self
                }
            },
        }
    }

    /// The board after a freehand stroke was released: it is added, not
    /// selected, under the seed that its draft was shown with.
    pub open spec fn stroke_released(self, collector: InkV<F>, seed: u64, e: Release<F>) -> Self {
        if collector.points.len() == 0 {
            self
        } else {
            BoardV {
                scene: self.scene.push(
                    ElementV {
                        id: e.fresh.id,
                        bounds: e.bounds,
                        seed,
                        style: self.style,
                        kind: KindV::Freedraw { points: e.points@, widths: collector.widths },
                    },
                ),
                history: self.history.recorded(self.scene),
                dirty: true,
                ..self
            }
        }
    }

    /// The board after the drag ended, with what it drew.
    #[verifier::opaque]
    pub open spec fn drag_ended(self, e: Release<F>) -> Self {
        let idle = BoardV { drag: DragV::Idle, ..self };
        match self.drag {
            DragV::Drawing { start, seed } => if self.tool == ActiveTool::Text {
                idle.text_released(start, e)
            } else if self.draft is None {
                idle.drafted(e.click_draft, seed).shape_released(e)
            } else {
                idle.shape_released(e)
            },
            DragV::Freedraw { collector, seed } => idle.stroke_released(collector, seed, e),
            _ => idle,
        }
    }

    /// The board after the left button went up. Over the panel the drag is
    /// abandoned; elsewhere it ends, and with it a temporary gesture.
    pub open spec fn left_released(self, e: Release<F>) -> Self {
        if e.over_panel {
            BoardV { drag: DragV::Idle, ..self }
        } else {
            BoardV { temp_pen: false, temp_pan: false, ..self.drag_ended(e) }
        }
    }
}

impl<F: Copy> BoardView<F> {
    /// Ends a drag of the text tool.
    fn release_text(&mut self, start: WPoint<F>, e: &Release<F>)
        ensures
            final(self)@ == old(self)@.text_released(start, *e),
    {
        reveal(BoardV::text_released);
        let at: WPoint<F> = if !e.dragged {
            start
        } else {
            match &self.draft {
                Some(d) => WPoint { x: d.bounds.x, y: d.bounds.y },
                None => e.corner,
            }
        };
        let mut el: Element<F> = self.new_text_element(
            at,
            "".to_owned(),
            e.zero,
            e.line_box,
            e.fresh,
        );
        proof {
            reveal_strlit("");
            assert(""@ =~= Seq::<char>::empty());
        }
        if e.dragged {
            el.set_text_box(Some(e.wrap), None);
        }
        assert(el@ == self@.released_text(start, *e));
        self.record();
        self.draft = None;
        let id: ElementId = self.scene.add(el);
        self.pending_measure.push(id);
        self.dirty = true;
        self.selection = vec![id];
        assert(self@.selection =~= seq![e.fresh.id]);
        self.start_editing(id, true);
    }

    /// Ends a drag that drew a shape.
    fn release_shape(&mut self, e: &Release<F>)
        ensures
            final(self)@ == old(self)@.shape_released(*e),
    {
        reveal(BoardV::shape_released);
        let taken: Option<Element<F>> = self.draft.take();
        if let Some(d) = taken {
            if d.is_linear() && e.zero_length {
                return;
            }
            let mut el: Element<F> = d;
            el.replace_points(copy_list(&e.points), e.bounds);
            self.record();
            let id: ElementId = self.scene.add(el);
            self.selection = vec![id];
            assert(self@.selection =~= seq![id]);
            self.dirty = true;
            self.tool = ActiveTool::Select;
        }
    }

    /// Ends a freehand stroke.
    fn release_stroke(&mut self, collector: InkCollector<F>, seed: u64, e: &Release<F>)
        ensures
            final(self)@ == old(self)@.stroke_released(collector@, seed, *e),
    {
        if collector.len() == 0 {
            return;
        }
        let stroke: InkStroke<F> = collector.finish();
        self.record();
        let _id: ElementId = self.scene.add(
            Element {
                id: e.fresh.id,
                bounds: e.bounds,
                seed,
                style: self.style,
                kind: ElementKind::Freedraw { points: copy_list(&e.points), widths: stroke.widths },
            },
        );
        self.dirty = true;
    }

    /// Ends the drag with what it drew.
    fn end_drag(&mut self, e: &Release<F>)
        ensures
            final(self)@ == old(self)@.drag_ended(*e),
    {
        reveal(BoardV::drag_ended);
        let mut drag: DragState<F> = DragState::Idle;
        std::mem::swap(&mut drag, &mut self.drag);
        match drag {
            DragState::Drawing { start, seed } => {
                if self.tool == ActiveTool::Text {
                    self.release_text(start, e);
                } else {
                    if self.draft.is_none() {
                        self.update_draft(&e.click_draft, seed);
                    }
                    self.release_shape(e);
                }
            },
            DragState::Freedraw { collector, seed } => {
                self.release_stroke(collector, seed, e);
            },
            _ => {},
        }
    }

    /// The left button went up.
    pub fn on_left_up(&mut self, e: &Release<F>)
        ensures
            final(self)@ == old(self)@.left_released(*e),
    {
        if e.over_panel {
            self.drag = DragState::Idle;
            return;
        }
        self.end_drag(e);
        self.temp_pen = false;
        self.temp_pan = false;
    }

    /// The middle button went up: a pan ends.
    pub fn on_middle_up(&mut self)
        ensures
            final(self)@ == (if old(self)@.drag is Panning {
                BoardV { drag: DragV::Idle, ..old(self)@ }
            } else {
                old(self)@
            }),
    {
        let panning: bool = match &self.drag {
            DragState::Panning { .. } => true,
            _ => false,
        };
        if panning {
            self.drag = DragState::Idle;
        }
    }
}

} // verus!
