//! Pressing a mouse button on the canvas.

use vstd::prelude::*;
use crate::board::{
    deselect, deselected, removed, BoardV, BoardView, DragState, DragV, Handle, Modifiers,
    PointTarget,
};
use crate::board_text::{Fresh, LabelBox};
use crate::element::{copy_list, Element, ElementV, HitFacts, WBounds, WPoint};
use crate::ids::ElementId;
use crate::scene::{has_id, holds, lemma_place_of, place_of, top_hit, views};

verus! {

/// What a press of the left button means to the select tool, beyond the
/// scene: which control point and which resize handle lie under the pointer,
/// the box of the selection and whether the pointer is in it.
#[derive(Debug)]
pub struct Press<F> {
    /// The pointer in the world.
    pub world: WPoint<F>,
    /// The pointer on the screen.
    pub screen: WPoint<F>,
    pub modifiers: Modifiers,
    /// How many clicks this press completes.
    pub clicks: u32,
    /// The control point of the single selected line under the pointer.
    pub point: Option<PointTarget>,
    /// The resize handle of the selection under the pointer.
    pub handle: Option<Handle>,
    /// The box around the selection.
    pub selection_box: WBounds<F>,
    /// Whether the pointer is in that box, within the tolerance.
    pub in_selection: bool,
    /// The outcomes of the hit tests, one per element.
    pub hits: Vec<HitFacts>,
    /// Where a new label on the hit element would go.
    pub label: LabelBox<F>,
    /// The identity and seed of what the press may create.
    pub fresh: Fresh,
}

/// The container of `id` when it is a label.
pub open spec fn container_at<F>(s: Seq<ElementV<F>>, id: ElementId) -> Option<ElementId> {
    if has_id(s, id) {
        s[place_of(s, id)].kind.bound_to()
    } else {
        None
    }
}

/// The container of `id` when it is a label, `id` itself otherwise.
pub open spec fn resolved<F>(s: Seq<ElementV<F>>, id: ElementId) -> ElementId {
    match container_at(s, id) {
        Some(c) => c,
        None => id,
    }
}

/// The selection after a click on `id`: shift toggles it, a plain click
/// selects it alone unless it is selected already.
pub open spec fn clicked(selection: Seq<ElementId>, id: ElementId, shift: bool) -> Seq<ElementId> {
    if shift {
        if selection.contains(id) {
            deselected(selection, id)
        } else {
            selection.push(id)
        }
    } else if selection.contains(id) {
        selection
    } else {
        seq![id]
    }
}

/// The selected elements as they are, in selection order.
pub open spec fn live_elements<F>(s: Seq<ElementV<F>>, ids: Seq<ElementId>) -> Seq<ElementV<F>>
    decreases ids.len(),
{
    if ids.len() == 0 {
        Seq::empty()
    } else {
        let rest = live_elements(s, ids.drop_last());
        if has_id(s, ids.last()) {
            rest.push(s[place_of(s, ids.last())])
        } else {
            rest
        }
    }
}

impl<F> BoardV<F> {
    /// The single selected line or arrow, whose control points show; none
    /// while a text is edited.
    pub open spec fn selected_line(self) -> Option<ElementId> {
        if self.selection.len() == 1 && self.editing is None && has_id(
            self.scene,
            self.selection[0],
        ) {
            let el = self.scene[place_of(self.scene, self.selection[0])];
            if el.kind is Line || el.kind is Arrow {
                Some(el.id)
            } else {
                None
            }
        } else {
            None
        }
    }

    /// Whether some selected element is in the scene, so that the selection
    /// has a box.
    pub open spec fn has_box(self) -> bool {
        live_elements(self.scene, self.selection).len() > 0
    }

    /// The board after a press on the element `id` with the select tool: a
    /// second click edits the text or the label of `id`, anything else starts
    /// a move.
    #[verifier::opaque]
    pub open spec fn pressed_on(self, id: ElementId, p: Press<F>) -> Self {
        let b = BoardV { selection: clicked(self.selection, id, p.modifiers.shift), ..self };
        let double = p.clicks == 2 && !p.modifiers.shift && has_id(self.scene, id);
        let k = self.scene[place_of(self.scene, id)].kind;
        if double && k is Text {
            b.edit_started(id, false)
        } else if double && k.container() {
            b.label_opened(id, p.label, p.fresh)
        } else {
            BoardV { drag: DragV::Moving { last: p.world, recorded: false }, ..b }
        }
    }

    /// The board after a press on the element `raw` with the select tool. A
    /// label gives way to its container, unless that is selected already and
    /// the label is clicked once: then the label is edited.
    #[verifier::opaque]
    pub open spec fn element_pressed(self, raw: ElementId, p: Press<F>) -> Self {
        let id = resolved(self.scene, raw);
        if p.clicks == 1 && !p.modifiers.shift && container_at(self.scene, raw) is Some
            && self.selection.contains(id) {
            BoardV { selection: seq![raw], ..self }.edit_started(raw, false)
        } else {
            self.pressed_on(id, p)
        }
    }

    /// The board after a press with the select tool on the topmost element
    /// under the pointer, or on the empty canvas, where a rubber band starts;
    /// shift keeps the selection for it.
    #[verifier::opaque]
    pub open spec fn canvas_pressed(self, p: Press<F>) -> Self {
        match top_hit(self.scene, p.hits@) {
            Some(raw) => self.element_pressed(raw, p),
            None => {
                let kept = if p.modifiers.shift {
                    self.selection
                } else {
                    Seq::empty()
                };
                BoardV {
                    selection: kept,
                    drag: DragV::Marquee { start: p.world, current: p.world, base_selection: kept },
                    ..self
                }
            },
        }
    }

    /// The board after a press with the select tool: control points come
    /// first, then resize handles, then the inside of the selection box, then
    /// elements, and last the empty canvas, where a rubber band starts.
    pub open spec fn select_pressed(self, p: Press<F>) -> Self {
        let shift = p.modifiers.shift;
        if self.selected_line() is Some && p.point is Some {
            let id = self.selected_line()->Some_0;
            BoardV {
                drag: DragV::EditingPoint {
                    element: id,
                    original: self.scene[place_of(self.scene, id)],
                    target: p.point->Some_0,
                    recorded: false,
                },
                ..self
            }
        } else if self.has_box() && p.handle is Some {
            BoardV {
                drag: DragV::Resizing {
                    handle: p.handle->Some_0,
                    original_bounds: p.selection_box,
                    originals: live_elements(self.scene, self.selection),
                    recorded: false,
                },
                ..self
            }
        } else if self.has_box() && !shift && p.in_selection {
            BoardV { drag: DragV::Moving { last: p.world, recorded: false }, ..self }
        } else {
            self.canvas_pressed(p)
        }
    }

    /// The board after the hit element was erased as the start of a drag.
    pub open spec fn erase_begun(self, hit: Option<ElementId>) -> Self {
        match hit {
            Some(id) => BoardV {
                scene: removed(self.scene, id),
                history: self.history.recorded(self.scene),
                selection: deselected(self.selection, id),
                dirty: true,
                drag: DragV::Erasing { removed_any: true },
                ..self
            },
            None => BoardV { drag: DragV::Erasing { removed_any: false }, ..self },
        }
    }
}

impl<F: Copy> BoardView<F> {
    /// The single selected line or arrow.
    pub fn selected_line_id(&self) -> (r: Option<ElementId>)
        ensures
            r == self@.selected_line(),
    {
        if self.selection.len() != 1 || self.editing.is_some() {
            return None;
        }
        match self.scene.get(self.selection[0]) {
            Some(el) => if el.is_linear() {
                Some(el.id)
            } else {
                None
            },
            None => None,
        }
    }

    /// The selected elements as they are.
    pub fn selected_elements(&self) -> (r: Vec<Element<F>>)
        ensures
            views(r@) == live_elements(self@.scene, self@.selection),
    {
        let mut r: Vec<Element<F>> = Vec::new();
        let mut i: usize = 0;
        assert(self.selection@.take(0) =~= Seq::<ElementId>::empty());
        assert(views(r@) =~= Seq::<ElementV<F>>::empty());
        while i < self.selection.len()
            invariant
                i <= self.selection.len(),
                views(r@) == live_elements(self@.scene, self.selection@.take(i as int)),
            decreases self.selection.len() - i,
        {
            assert(self.selection@.take(i + 1).drop_last() =~= self.selection@.take(i as int));
            let ghost before = views(r@);
            match self.scene.get(self.selection[i]) {
                Some(el) => {
                    r.push(el.clone());
                    assert(views(r@) =~= before.push(r@.last()@));
                },
                None => {},
            }
            i += 1;
        }
        assert(self.selection@.take(self.selection@.len() as int) =~= self.selection@);
        r
    }

    /// The container of a label.
    pub fn container_of_label(&self, id: ElementId) -> (r: Option<ElementId>)
        ensures
            r == container_at(self@.scene, id),
    {
        match self.scene.get(id) {
            Some(el) => el.container_id(),
            None => None,
        }
    }

    /// Selects by a click on `id`.
    fn click_select(&mut self, id: ElementId, shift: bool)
        ensures
            final(self)@ == (BoardV {
                selection: clicked(old(self)@.selection, id, shift),
                ..old(self)@
            }),
    {
        let already: bool = holds(self.selection.as_slice(), id);
        if shift {
            if already {
                self.selection = deselect(&self.selection, id);
            } else {
                self.selection.push(id);
            }
        } else if !already {
            self.selection = vec![id];
            assert(self@.selection =~= seq![id]);
        }
    }

    /// A press on an element with the select tool.
    fn press_element(&mut self, raw: ElementId, p: &Press<F>)
        ensures
            final(self)@ == old(self)@.element_pressed(raw, *p),
    {
        reveal(BoardV::element_pressed);
        let shift: bool = p.modifiers.shift;
        let container: Option<ElementId> = self.container_of_label(raw);
        let id: ElementId = match container {
            Some(c) => c,
            None => raw,
        };
        if p.clicks == 1 && !shift && container.is_some() && holds(self.selection.as_slice(), id) {
            self.selection = vec![raw];
            assert(self@.selection =~= seq![raw]);
            self.start_editing(raw, false);
            return;
        }
        self.press_on(id, p);
    }

    /// A press on an element that is no selected container's label.
    fn press_on(&mut self, id: ElementId, p: &Press<F>)
        ensures
            final(self)@ == old(self)@.pressed_on(id, *p),
    {
        reveal(BoardV::pressed_on);
        let shift: bool = p.modifiers.shift;
        self.click_select(id, shift);
        if p.clicks == 2 && !shift {
            let (text, container): (bool, bool) = match self.scene.get(id) {
                Some(el) => (el.is_text(), el.is_container()),
                None => (false, false),
            };
            if text {
                self.start_editing(id, false);
                return;
            }
            if container {
                self.edit_container_label(id, p.label, p.fresh);
                return;
            }
        }
        self.drag = DragState::Moving { last: p.world, recorded: false };
    }

    /// A press of the left button with the select tool.
    pub fn select_down(&mut self, p: &Press<F>)
        requires
            p.hits@.len() == old(self)@.scene.len(),
        ensures
            final(self)@ == old(self)@.select_pressed(*p),
    {
        proof {
            if self@.selection.len() == 1 {
                lemma_place_of(self@.scene, self@.selection[0]);
            }
        }
        if let Some(target) = p.point {
            if let Some(id) = self.selected_line_id() {
                if let Some(el) = self.scene.get(id) {
                    let original: Element<F> = el.clone();
                    self.drag = DragState::EditingPoint {
                        element: id,
                        original,
                        target,
                        recorded: false,
                    };
                    return;
                }
            }
        }
        let originals: Vec<Element<F>> = self.selected_elements();
        let boxed: bool = originals.len() > 0;
        assert(boxed == self@.has_box());
        if boxed {
            if let Some(handle) = p.handle {
                self.drag = DragState::Resizing {
                    handle,
                    original_bounds: p.selection_box,
                    originals,
                    recorded: false,
                };
                return;
            }
            if !p.modifiers.shift && p.in_selection {
                self.drag = DragState::Moving { last: p.world, recorded: false };
                return;
            }
        }
        self.press_canvas(p);
    }

    /// A press with the select tool on an element or on the empty canvas.
    fn press_canvas(&mut self, p: &Press<F>)
        requires
            p.hits@.len() == old(self)@.scene.len(),
        ensures
            final(self)@ == old(self)@.canvas_pressed(*p),
    {
        reveal(BoardV::canvas_pressed);
        match self.scene.hit_test(&p.hits) {
            Some(raw) => {
                self.press_element(raw, p);
            },
            None => {
                let base: Vec<ElementId> = if p.modifiers.shift {
                    copy_list(&self.selection)
                } else {
                    Vec::new()
                };
                if !p.modifiers.shift {
                    self.selection = Vec::new();
                }
                self.drag = DragState::Marquee {
                    start: p.world,
                    current: p.world,
                    base_selection: base,
                };
            },
        }
    }

    /// Starts an erase drag: the hit element goes at once.
    pub fn begin_erase(&mut self, hits: &Vec<HitFacts>)
        requires
            hits@.len() == old(self)@.scene.len(),
        ensures
            final(self)@ == old(self)@.erase_begun(top_hit(old(self)@.scene, hits@)),
    {
        let hit: Option<ElementId> = self.scene.hit_test(hits);
        match hit {
            Some(id) => {
                self.record();
                self.scene.remove_with_labels(id);
                self.selection = deselect(&self.selection, id);
                self.dirty = true;
                self.drag = DragState::Erasing { removed_any: true };
            },
            None => {
                self.drag = DragState::Erasing { removed_any: false };
            },
        }
    }
}

} // verus!
