//! The buttons going down, tool by tool.

use vstd::prelude::*;
use crate::board::{ActiveTool, BoardV, BoardView, ContextMenuState, DragState, DragV};
use crate::board_press::{resolved, Press};
use crate::board_text::Measured;
use crate::element::WPoint;
use crate::ids::ElementId;
use crate::ink::{InkCollector, InkV, SampleFacts};
use crate::scene::{has_id, holds, place_of, top_hit};

verus! {

/// What a freehand stroke starts from: the collector's numbers and its first
/// sample.
#[derive(Clone, Copy, Debug)]
pub struct InkStart<F> {
    pub zoom: F,
    pub min_dist: F,
    pub origin: WPoint<F>,
    pub pressure: F,
    /// The time of the first sample.
    pub at: F,
    /// Whether the first sample carries a stylus pressure.
    pub hardware: bool,
    pub facts: SampleFacts<F>,
}

/// How the press of the left button goes on.
#[derive(Clone, Copy, Debug, PartialEq, Eq, Structural)]
pub enum DownStep {
    /// The press belongs to something above the canvas.
    Ignored,
    /// The press is in the edited text: the caret moves.
    MoveCaret,
    /// The press ended the edit of a new text, which is selected now.
    FreshSelected,
    /// The press acts on the canvas.
    Act,
}

impl<F> BoardV<F> {
    /// How a press of the left button goes on, before it acts on the canvas.
    pub open spec fn down_step(
        self,
        in_menu_bar: bool,
        over_panel: bool,
        in_edit_box: bool,
        text: Seq<char>,
    ) -> DownStep {
        if in_menu_bar || over_panel {
            DownStep::Ignored
        } else {
            match self.editing {
                Some(e) => if has_id(self.scene, e.element_id) && in_edit_box {
                    DownStep::MoveCaret
                } else if self.commit_result(text) is Some {
                    DownStep::FreshSelected
                } else {
                    DownStep::Act
                },
                None => DownStep::Act,
            }
        }
    }

    /// The board after the first part of a press of the left button: an open
    /// context menu closes, and an edit outside of which it falls is
    /// committed.
    pub open spec fn down_begun(
        self,
        in_menu_bar: bool,
        over_panel: bool,
        in_edit_box: bool,
        text: Seq<char>,
        m: Measured<F>,
    ) -> Self {
        let b = BoardV { context_menu: None, ..self };
        let step = self.down_step(in_menu_bar, over_panel, in_edit_box, text);
        if in_menu_bar {
            self
        } else if step == DownStep::FreshSelected {
            b.committed(text, m).fresh_selected(self.commit_result(text)->Some_0)
        } else if step == DownStep::Act && self.editing is Some {
            b.committed(text, m)
        } else {
            b
        }
    }

    /// The drag of a freehand stroke with its first sample.
    pub open spec fn stroke_begun(self, s: InkStart<F>, world: WPoint<F>, seed: u64) -> DragV<F> {
        DragV::Freedraw {
            collector: InkV {
                zoom: s.zoom,
                taper: self.pen_taper,
                min_dist: s.min_dist,
                smooth_pt: s.origin,
                last_raw: None,
                p_ema: s.pressure,
                points: Seq::empty(),
                widths: Seq::empty(),
            }.pushed(world, s.at, s.hardware, s.facts),
            seed,
        }
    }

    /// The board after a press with the text tool: a text under the pointer is
    /// edited, a shape's label is edited, and elsewhere a box is sized first.
    #[verifier::opaque]
    pub open spec fn text_pressed(self, p: Press<F>) -> Self {
        let drawing = BoardV {
            drag: DragV::Drawing { start: p.world, seed: p.fresh.seed },
            ..self
        };
        match top_hit(self.scene, p.hits@) {
            Some(id) => if has_id(self.scene, id) && self.scene[place_of(
                self.scene,
                id,
            )].kind is Text {
                self.edit_started(id, false)
            } else if has_id(self.scene, id) && self.scene[place_of(
                self.scene,
                id,
            )].kind.container() {
                self.label_opened(id, p.label, p.fresh)
            } else {
                drawing
            },
            None => drawing,
        }
    }

    /// The board after the press acted on the canvas. Shift sketches and ctrl
    /// pans from any tool, which stays the active one.
    pub open spec fn down_acted(self, p: Press<F>, ink: InkStart<F>, eraser: bool) -> Self {
        let erased = self.erase_begun(top_hit(self.scene, p.hits@));
        let panning = DragV::Panning { last: p.screen };
        if p.modifiers.shift && self.tool != ActiveTool::Pen {
            BoardV {
                temp_pen: true,
                drag: self.stroke_begun(ink, p.world, p.fresh.seed),
                ..self
            }
        } else if p.modifiers.ctrl && self.tool != ActiveTool::Hand {
            BoardV { temp_pan: true, drag: panning, ..self }
        } else {
            match self.tool {
                ActiveTool::Hand => BoardV { drag: panning, ..self },
                ActiveTool::Select => self.select_pressed(p),
                ActiveTool::Pen => if eraser {
                    erased
                } else {
                    BoardV { drag: self.stroke_begun(ink, p.world, p.fresh.seed), ..self }
                },
                ActiveTool::Text => self.text_pressed(p),
                ActiveTool::Eraser => erased,
                _ => BoardV {
                    drag: DragV::Drawing { start: p.world, seed: p.fresh.seed },
                    ..self
                },
            }
        }
    }

    /// The selection after a press of the right button: the element under the
    /// pointer, unless it is selected or shift is held.
    pub open spec fn menu_selection(self, p: Press<F>) -> Seq<ElementId> {
        match top_hit(self.scene, p.hits@) {
            Some(raw) => if !p.modifiers.shift && !self.selection.contains(
                resolved(self.scene, raw),
            ) {
                seq![resolved(self.scene, raw)]
            } else {
                self.selection
            },
            None => self.selection,
        }
    }

    /// The board after a press of the right button away from a vertex: the
    /// menu opens when something is selected.
    #[verifier::opaque]
    pub open spec fn menu_opened(self, p: Press<F>) -> Self {
        let selection = self.menu_selection(p);
        BoardV {
            selection,
            context_menu: if selection.len() > 0 {
                Some(ContextMenuState { position: p.screen, vertex: None })
            } else {
                self.context_menu
            },
            ..self
        }
    }

    /// The board after a press of the right button: a vertex of the selected
    /// line opens a menu for it when it can go; elsewhere the element under
    /// the pointer is selected and the menu opens on the selection.
    pub open spec fn right_pressed(self, over_panel: bool, vertex: Option<usize>, p: Press<F>) -> Self {
        if over_panel {
            self
        } else if self.selected_line() is Some && vertex is Some {
            let id = self.selected_line()->Some_0;
            if self.scene[place_of(self.scene, id)].kind.points().len() > 2 {
                BoardV {
                    context_menu: Some(ContextMenuState { position: p.screen, vertex }),
                    ..self
                }
            } else {
                self
            }
        } else {
            self.menu_opened(p)
        }
    }
}

impl<F: Copy> BoardView<F> {
    /// The first part of a press of the left button. `text` is the text of
    /// the edit in progress, and `m` its measurements.
    pub fn left_down_begin(
        &mut self,
        in_menu_bar: bool,
        over_panel: bool,
        in_edit_box: bool,
        text: &str,
        m: Measured<F>,
    ) -> (r: DownStep)
        ensures
            r == old(self)@.down_step(in_menu_bar, over_panel, in_edit_box, text@),
            final(self)@ == old(self)@.down_begun(
                in_menu_bar,
                over_panel,
                in_edit_box,
                text@,
                m,
            ),
    {
        if in_menu_bar {
            return DownStep::Ignored;
        }
        self.context_menu = None;
        if over_panel {
            return DownStep::Ignored;
        }
        let edited: Option<ElementId> = match &self.editing {
            Some(e) => Some(e.element_id),
            None => None,
        };
        match edited {
            None => DownStep::Act,
            Some(id) => {
                if in_edit_box && self.scene.contains(id) {
                    return DownStep::MoveCaret;
                }
                match self.commit_editing(text, m) {
                    Some(new_id) => {
                        self.select_fresh(new_id);
                        DownStep::FreshSelected
                    },
                    None => DownStep::Act,
                }
            },
        }
    }

    /// Starts a freehand stroke with its first sample.
    fn begin_freedraw(&self, s: InkStart<F>, world: WPoint<F>, seed: u64) -> (r: DragState<F>)
        ensures
            r@ == self@.stroke_begun(s, world, seed),
    {
        let mut collector: InkCollector<F> = InkCollector::new(
            s.zoom,
            self.pen_taper,
            s.min_dist,
            s.origin,
            s.pressure,
        );
        let _kept: bool = collector.push_at(world, s.at, s.hardware, s.facts);
        DragState::Freedraw { collector, seed }
    }

    /// A press with the text tool.
    fn text_down(&mut self, p: &Press<F>)
        requires
            p.hits@.len() == old(self)@.scene.len(),
        ensures
            final(self)@ == old(self)@.text_pressed(*p),
    {
        reveal(BoardV::text_pressed);
        if let Some(id) = self.scene.hit_test(&p.hits) {
            let (text, container): (bool, bool) = match self.scene.get(id) {
                Some(el) => (el.is_text(), el.is_container()),
                None => (false, false),
            };
            if text {
                self.start_editing(id, false);
                return;
            }
            if container {
                self.edit_container_label(id, p.label, p.fresh);
                return;
            }
        }
        self.drag = DragState::Drawing { start: p.world, seed: p.fresh.seed };
    }

    /// The press of the left button acts on the canvas. `eraser` says whether
    /// the pointer is the eraser tip of a stylus.
    pub fn left_down_act(&mut self, p: &Press<F>, ink: InkStart<F>, eraser: bool)
        requires
            p.hits@.len() == old(self)@.scene.len(),
        ensures
            final(self)@ == old(self)@.down_acted(*p, ink, eraser),
    {
        if p.modifiers.shift && self.tool != ActiveTool::Pen {
            self.temp_pen = true;
            self.drag = self.begin_freedraw(ink, p.world, p.fresh.seed);
            return;
        }
        if p.modifiers.ctrl && self.tool != ActiveTool::Hand {
            self.temp_pan = true;
            self.drag = DragState::Panning { last: p.screen };
            return;
        }
        match self.tool {
            ActiveTool::Hand => {
                self.drag = DragState::Panning { last: p.screen };
            },
            ActiveTool::Select => {
                self.select_down(p);
            },
            ActiveTool::Pen => {
                if eraser {
                    self.begin_erase(&p.hits);
                } else {
                    self.drag = self.begin_freedraw(ink, p.world, p.fresh.seed);
                }
            },
            ActiveTool::Text => {
                self.text_down(p);
            },
            ActiveTool::Eraser => {
                self.begin_erase(&p.hits);
            },
            _ => {
                self.drag = DragState::Drawing { start: p.world, seed: p.fresh.seed };
            },
        }
    }

    /// A press of the right button; `vertex` is the vertex of the selected
    /// line under the pointer.
    pub fn on_right_down(&mut self, over_panel: bool, vertex: Option<usize>, p: &Press<F>)
        requires
            p.hits@.len() == old(self)@.scene.len(),
        ensures
            final(self)@ == old(self)@.right_pressed(over_panel, vertex, *p),
    {
        if over_panel {
            return;
        }
        if let Some(index) = vertex {
            if let Some(id) = self.selected_line_id() {
                proof {
                    crate::scene::lemma_place_of(self@.scene, self@.selection[0]);
                }
                let long: bool = match self.scene.get(id) {
                    Some(el) => el.point_count() > 2,
                    None => false,
                };
                if long {
                    self.context_menu = Some(
                        ContextMenuState { position: p.screen, vertex: Some(index) },
                    );
                }
                return;
            }
        }
        self.open_menu(p);
    }

    /// Selects what the right button was pressed on and opens the menu.
    fn open_menu(&mut self, p: &Press<F>)
        requires
            p.hits@.len() == old(self)@.scene.len(),
        ensures
            final(self)@ == old(self)@.menu_opened(*p),
    {
        reveal(BoardV::menu_opened);
        if let Some(raw) = self.scene.hit_test(&p.hits) {
            let id: ElementId = match self.container_of_label(raw) {
                Some(c) => c,
                None => raw,
            };
            if !p.modifiers.shift && !holds(self.selection.as_slice(), id) {
                self.selection = vec![id];
                assert(self@.selection =~= seq![id]);
            }
        }
        if self.selection.len() > 0 {
            self.context_menu = Some(ContextMenuState { position: p.screen, vertex: None });
        }
    }

    /// A press of the middle button pans, unless it is over the panel.
    pub fn on_middle_down(&mut self, over_panel: bool, screen: WPoint<F>)
        ensures
            final(self)@ == (if over_panel {
                old(self)@
            } else {
                BoardV { drag: DragV::Panning { last: screen }, ..old(self)@ }
            }),
    {
        if !over_panel {
            self.drag = DragState::Panning { last: screen };
        }
    }
}

} // verus!
