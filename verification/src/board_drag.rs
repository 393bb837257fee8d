//! Every drag, and the pointer's moves as one entry.

use vstd::prelude::*;
use crate::board::{
    deselect, ActiveTool, BoardV, BoardView, DragState, DragV, Handle, Modifiers, PointTarget,
};
use crate::board_move::{
    corners_reach, joined_selection, moves, point_dragged, shifted, DraftFacts, Resized,
};
use crate::element::{
    copy_list, Element, ElementKind, ElementStyle, HitFacts, StrokeStyle, WBounds, WPoint,
};
use crate::gesture_laws::of_tool;
use crate::ids::ElementId;
use crate::ink::SampleFacts;
use crate::scene::{copy_elements, count_of, holds, lemma_place_of, marked_ids, top_hit, views};

verus! {

impl<F: Copy> BoardView<F> {
    /// Records the scene, unless the drag did so already.
    fn record_once(&mut self, recorded: bool)
        ensures
            final(self)@ == old(self)@.recorded_once(recorded),
    {
        if !recorded {
            self.record();
            self.dirty = true;
        }
    }

    /// The pointer hovers. True when the hover changed.
    pub fn hover(
        &mut self,
        point: Option<PointTarget>,
        handle: Option<Handle>,
        hits: &Vec<HitFacts>,
        in_selection: bool,
    ) -> (r: bool)
        requires
            hits@.len() == old(self)@.scene.len(),
        ensures
            final(self)@ == old(self)@.hovered(
                point,
                handle,
                top_hit(old(self)@.scene, hits@) is Some,
                in_selection,
            ),
            r == (final(self)@ != old(self)@),
    {
        let selecting: bool = self.tool == ActiveTool::Select;
        let hit: bool = self.scene.hit_test(hits).is_some();
        let live: Vec<Element<F>> = self.selected_elements();
        let boxed: bool = live.len() > 0;
        assert(boxed == self@.has_box());
        let p: Option<PointTarget> = if selecting && self.selected_line_id().is_some() {
            point
        } else {
            None
        };
        let h: Option<Handle> = if selecting && p.is_none() && boxed {
            handle
        } else {
            None
        };
        let over: bool = selecting && p.is_none() && h.is_none() && (hit || (boxed
            && in_selection));
        let same_p: bool = match (p, self.hover_point) {
            (Some(a), Some(b)) => a == b,
            (None, None) => true,
            _ => false,
        };
        let same_h: bool = match (h, self.hover_handle) {
            (Some(a), Some(b)) => a == b,
            (None, None) => true,
            _ => false,
        };
        let same: bool = same_p && same_h && over == self.hover_over_element;
        self.hover_point = p;
        self.hover_handle = h;
        self.hover_over_element = over;
        !same
    }

    /// Brings the draft of a drawn shape up to date.
    pub fn update_draft(&mut self, d: &DraftFacts<F>, seed: u64)
        ensures
            final(self)@ == old(self)@.drafted(*d, seed),
            old(self)@.tool == ActiveTool::Rectangle || old(self)@.tool == ActiveTool::Diamond
                || old(self)@.tool == ActiveTool::Ellipse || old(self)@.tool == ActiveTool::Line
                || old(self)@.tool == ActiveTool::Arrow ==> final(self)@.draft is Some && of_tool(
                final(self)@.draft->Some_0.kind,
                old(self)@.tool,
            ),
    {
        let kind: ElementKind<F> = match self.tool {
            ActiveTool::Rectangle => ElementKind::Rectangle,
            ActiveTool::Diamond => ElementKind::Diamond,
            ActiveTool::Ellipse => ElementKind::Ellipse,
            ActiveTool::Line => ElementKind::Line { points: copy_list(&d.points) },
            ActiveTool::Arrow => ElementKind::Arrow {
                points: copy_list(&d.points),
                end_arrowhead: true,
                start_arrowhead: false,
            },
            ActiveTool::Text => ElementKind::Rectangle,
            _ => {
                return;
            },
        };
        let mut style: ElementStyle<F> = self.style;
        let mut bounds: WBounds<F> = d.bounds;
        if self.tool == ActiveTool::Text {
            style.stroke_style = StrokeStyle::Dashed;
            style.roughness = d.zero;
            bounds.h = d.line_box;
        }
        self.draft = Some(Element { id: d.id, bounds, seed, style, kind });
    }

    /// For each element how often it moves when the selection is dragged.
    pub fn movers(&self) -> (r: Vec<usize>)
        ensures
            r@.len() == self@.scene.len(),
            forall|i: int|
                0 <= i < r@.len() ==> #[trigger] r@[i] == moves(
                    self@.scene,
                    self@.selection,
                    i,
                ),
    {
        let mut r: Vec<usize> = Vec::new();
        let mut i: usize = 0;
        while i < self.scene.elements.len()
            invariant
                i <= self.scene.elements.len(),
                r@.len() == i,
                forall|k: int|
                    0 <= k < i ==> #[trigger] r@[k] == moves(self@.scene, self@.selection, k),
            decreases self.scene.elements.len() - i,
        {
            let el: &Element<F> = &self.scene.elements[i];
            assert(self@.scene[i as int] == el@);
            let times: usize = count_of(self.selection.as_slice(), el.id);
            let m: usize = if times > 0 {
                match self.scene.index_of(el.id) {
                    Some(k) => if k == i {
                        times
                    } else {
                        0
                    },
                    None => 0,
                }
            } else {
                match el.container_id() {
                    Some(c) => if holds(self.selection.as_slice(), c) {
                        1
                    } else {
                        0
                    },
                    None => 0,
                }
            };
            proof {
                lemma_place_of(self@.scene, self@.scene[i as int].id);
            }
            r.push(m);
            i += 1;
        }
        r
    }

    /// Moves element `i` to a new corner.
    fn move_one(&mut self, i: usize, to: WPoint<F>)
        requires
            i < old(self)@.scene.len(),
        ensures
            final(self)@ == (BoardV {
                scene: old(self)@.scene.update(i as int, old(self)@.scene[i as int].at(to)),
                ..old(self)@
            }),
    {
        let ghost now = self@.scene;
        assert(now[i as int] == self.scene.elements@[i as int]@);
        self.scene.elements[i].move_to(to);
        assert(self@.scene =~= now.update(i as int, now[i as int].at(to)));
    }

    /// Drags the selection to `world`, where the elements have the given
    /// corners.
    fn shift_selection(&mut self, recorded: bool, world: WPoint<F>, corners: &Vec<Vec<WPoint<F>>>)
        requires
            corners_reach(old(self)@.scene, old(self)@.selection, corners@),
        ensures
            final(self)@ == old(self)@.selection_shifted(recorded, world, corners@),
    {
        let movers: Vec<usize> = self.movers();
        let ghost want = shifted(self@.scene, self@.selection, corners@);
        let ghost scene = self@.scene;
        assert forall|k: int| 0 <= k < movers@.len() implies (#[trigger] movers@[k])
            <= corners@[k]@.len() && want[k] == (if movers@[k] > 0 {
            scene[k].at(corners@[k]@[movers@[k] - 1])
        } else {
            scene[k]
        }) by {}
        self.record_once(recorded);
        let ghost b = self@;
        let n: usize = self.scene.elements.len();
        let mut i: usize = 0;
        while i < n
            invariant
                n == b.scene.len(),
                n == want.len(),
                b.scene == scene,
                i <= n,
                corners@.len() == n,
                movers@.len() == n,
                forall|k: int|
                    0 <= k < n ==> (#[trigger] movers@[k]) <= corners@[k]@.len() && want[k] == (
                    if movers@[k] > 0 {
                        scene[k].at(corners@[k]@[movers@[k] - 1])
                    } else {
                        scene[k]
                    }),
                self@.scene.len() == n,
                forall|k: int|
                    0 <= k < n ==> #[trigger] self@.scene[k] == if k < i {
                        want[k]
                    } else {
                        scene[k]
                    },
                self@ == (BoardV { scene: self@.scene, ..b }),
            decreases n - i,
        {
            let times: usize = movers[i];
            if times > 0 {
                self.move_one(i, corners[i][times - 1]);
            }
            i += 1;
        }
        assert(self@.scene =~= want);
        self.drag = DragState::Moving { last: world, recorded: true };
    }

    /// Gives one dragged element its new shape.
    fn resize_one(&mut self, o: &Element<F>, h: Handle, part: &Resized<F>)
        ensures
            final(self)@ == old(self)@.resized_one(o@, h, *part),
            final(self)@.scene.len() == old(self)@.scene.len(),
    {
        let id: ElementId = o.id;
        proof {
            lemma_place_of(self@.scene, id);
        }
        let mut scaled: Element<F> = o.clone();
        scaled.resize(h, part);
        if o.is_text() {
            self.pending_measure.push(id);
        }
        match self.scene.get_mut(id) {
            Some(el) => {
                *el = scaled;
            },
            None => {},
        }
    }

    /// Gives the dragged elements their new shape.
    fn resize_originals(&mut self, originals: &Vec<Element<F>>, h: Handle, parts: &Vec<Resized<F>>)
        requires
            parts@.len() == originals@.len(),
        ensures
            final(self)@ == old(self)@.resized_upto(
                views(originals@),
                h,
                parts@,
                originals@.len() as int,
            ),
            final(self)@.scene.len() == old(self)@.scene.len(),
    {
        let ghost b = self@;
        let mut i: usize = 0;
        while i < originals.len()
            invariant
                i <= originals.len(),
                parts@.len() == originals@.len(),
                self@ == b.resized_upto(views(originals@), h, parts@, i as int),
                self@.scene.len() == b.scene.len(),
            decreases originals.len() - i,
        {
            assert(views(originals@)[i as int] == originals@[i as int]@);
            self.resize_one(&originals[i], h, &parts[i]);
            i += 1;
        }
    }

    /// Drags a resize handle.
    fn resize_selection(
        &mut self,
        originals: Vec<Element<F>>,
        h: Handle,
        original_bounds: WBounds<F>,
        recorded: bool,
        parts: &Vec<Resized<F>>,
        wraps: &Vec<F>,
    )
        requires
            parts@.len() == originals@.len(),
            wraps@.len() == old(self)@.scene.len(),
        ensures
            final(self)@ == old(self)@.selection_resized(
                views(originals@),
                h,
                original_bounds,
                recorded,
                parts@,
                wraps@,
            ),
    {
        self.record_once(recorded);
        self.resize_originals(&originals, h, parts);
        let mut ids: Vec<ElementId> = Vec::new();
        let mut i: usize = 0;
        while i < originals.len()
            invariant
                i <= originals.len(),
                ids@.len() == i,
                forall|k: int| 0 <= k < i ==> #[trigger] ids@[k] == originals@[k].id,
            decreases originals.len() - i,
        {
            ids.push(originals[i].id);
            i += 1;
        }
        assert(ids@ =~= Seq::new(views(originals@).len(), |k: int| views(originals@)[k].id));
        self.update_container_labels(&ids, wraps);
        self.drag = DragState::Resizing { handle: h, original_bounds, originals, recorded: true };
    }

    /// Puts a polyline with a dragged control point in its place.
    fn move_point(
        &mut self,
        element: ElementId,
        original: Element<F>,
        target: PointTarget,
        recorded: bool,
        edited: Element<F>,
        wraps: &Vec<F>,
    )
        requires
            wraps@.len() == old(self)@.scene.len(),
        ensures
            final(self)@ == old(self)@.point_moved(
                element,
                original@,
                target,
                recorded,
                edited@,
                wraps@,
            ),
    {
        proof {
            lemma_place_of(self@.scene, element);
        }
        self.record_once(recorded);
        match self.scene.get_mut(element) {
            Some(el) => {
                *el = edited;
            },
            None => {},
        }
        let ids: Vec<ElementId> = vec![element];
        assert(ids@ =~= seq![element]);
        self.update_container_labels(&ids, wraps);
        self.drag = DragState::EditingPoint { element, original, target, recorded: true };
    }

    /// The eraser moves.
    fn erase_on(&mut self, removed_any: bool, hits: &Vec<HitFacts>)
        requires
            hits@.len() == old(self)@.scene.len(),
        ensures
            final(self)@ == old(self)@.erased_on(removed_any, top_hit(old(self)@.scene, hits@)),
    {
        match self.scene.hit_test(hits) {
            Some(id) => {
                if !removed_any {
                    self.record();
                }
                self.scene.remove_with_labels(id);
                self.selection = deselect(&self.selection, id);
                self.dirty = true;
                self.drag = DragState::Erasing { removed_any: true };
            },
            None => {
                self.drag = DragState::Erasing { removed_any };
            },
        }
    }
}

/// Joins `ids` to a selection, each once.
fn join_selection(base: &Vec<ElementId>, ids: &Vec<ElementId>) -> (r: Vec<ElementId>)
    ensures
        r@ == joined_selection(base@, ids@),
{
    let mut r: Vec<ElementId> = copy_list(base);
    let mut i: usize = 0;
    assert(ids@.take(0) =~= Seq::<ElementId>::empty());
    while i < ids.len()
        invariant
            i <= ids.len(),
            r@ == joined_selection(base@, ids@.take(i as int)),
        decreases ids.len() - i,
    {
        assert(ids@.take(i + 1).drop_last() =~= ids@.take(i as int));
        if !holds(r.as_slice(), ids[i]) {
            r.push(ids[i]);
        }
        i += 1;
    }
    assert(ids@.take(ids@.len() as int) =~= ids@);
    r
}

/// What a move of the pointer means to the drag in progress.
#[derive(Debug)]
pub enum MoveFacts<F> {
    /// Nothing is dragged: what lies under the pointer.
    Hover {
        point: Option<PointTarget>,
        handle: Option<Handle>,
        hits: Vec<HitFacts>,
        in_selection: bool,
    },
    Pan,
    Draw { draft: DraftFacts<F> },
    Ink { at: F, hardware: bool, facts: SampleFacts<F> },
    /// Whether the pointer moved at all, and the corners that each element has
    /// when moved along once, twice and so on, as often as it moves.
    Shift { moved: bool, corners: Vec<Vec<WPoint<F>>> },
    /// The points of the dragged polyline in its new box, the dragged point,
    /// and whether the polyline changes by it.
    Point {
        points: Vec<WPoint<F>>,
        at: WPoint<F>,
        bounds: WBounds<F>,
        changed: bool,
        wraps: Vec<F>,
    },
    Resize { parts: Vec<Resized<F>>, wraps: Vec<F> },
    /// For each element whether it touches the rubber band.
    Band { inside: Vec<bool> },
    Erase { hits: Vec<HitFacts> },
}

/// A move of the pointer.
#[derive(Debug)]
pub struct PointerMove<F> {
    pub over_panel: bool,
    pub modifiers: Modifiers,
    pub world: WPoint<F>,
    pub screen: WPoint<F>,
    pub facts: MoveFacts<F>,
}

impl<F> BoardV<F> {
    /// Whether the facts belong to the drag in progress and cover the scene.
    pub open spec fn move_fits(self, f: MoveFacts<F>) -> bool {
        match (self.drag, f) {
            (DragV::Idle, MoveFacts::Hover { hits, .. }) => hits@.len() == self.scene.len(),
            (DragV::Panning { .. }, MoveFacts::Pan) => true,
            (DragV::Drawing { .. }, MoveFacts::Draw { .. }) => true,
            (DragV::Freedraw { .. }, MoveFacts::Ink { .. }) => true,
            (DragV::Moving { .. }, MoveFacts::Shift { corners, .. }) => corners_reach(
                self.scene,
                self.selection,
                corners@,
            ),
            (DragV::EditingPoint { original, .. }, MoveFacts::Point { points, wraps, .. }) => {
                points@.len() == original.kind.points().len() && wraps@.len() == self.scene.len()
            },
            (DragV::Resizing { originals, .. }, MoveFacts::Resize { parts, wraps }) => parts@.len()
                == originals.len() && wraps@.len() == self.scene.len(),
            (DragV::Marquee { .. }, MoveFacts::Band { inside }) => inside@.len()
                == self.scene.len(),
            (DragV::Erasing { .. }, MoveFacts::Erase { hits }) => hits@.len() == self.scene.len(),
            _ => false,
        }
    }

    /// The board after the pointer moved, by the drag in progress.
    #[verifier::opaque]
    pub open spec fn dragged(self, world: WPoint<F>, screen: WPoint<F>, f: MoveFacts<F>) -> Self {
        match (self.drag, f) {
            (DragV::Idle, MoveFacts::Hover { point, handle, hits, in_selection }) => self.hovered(
                point,
                handle,
                top_hit(self.scene, hits@) is Some,
                in_selection,
            ),
            (DragV::Panning { .. }, MoveFacts::Pan) => BoardV {
                drag: DragV::Panning { last: screen },
                ..self
            },
            (DragV::Drawing { seed, .. }, MoveFacts::Draw { draft }) => self.drafted(draft, seed),
            (DragV::Freedraw { collector, seed }, MoveFacts::Ink { at, hardware, facts }) => BoardV {
                drag: DragV::Freedraw { collector: collector.pushed(world, at, hardware, facts), seed },
                ..self
            },
            (DragV::Moving { recorded, .. }, MoveFacts::Shift { moved, corners }) => if moved {
                self.selection_shifted(recorded, world, corners@)
            } else {
                self
            },
            (
                DragV::EditingPoint { element, original, target, recorded },
                MoveFacts::Point { points, at, bounds, changed, wraps },
            ) => if changed {
                self.point_moved(
                    element,
                    original,
                    target,
                    recorded,
                    point_dragged(original, target, points@, at, bounds),
                    wraps@,
                )
            } else {
                self
            },
            (
                DragV::Resizing { handle, original_bounds, originals, recorded },
                MoveFacts::Resize { parts, wraps },
            ) => self.selection_resized(
                originals,
                handle,
                original_bounds,
                recorded,
                parts@,
                wraps@,
            ),
            (DragV::Marquee { start, base_selection, .. }, MoveFacts::Band { inside }) => BoardV {
                selection: joined_selection(base_selection, marked_ids(self.scene, inside@)),
                drag: DragV::Marquee { start, current: world, base_selection },
                ..self
            },
            (DragV::Erasing { removed_any }, MoveFacts::Erase { hits }) => self.erased_on(
                removed_any,
                top_hit(self.scene, hits@),
            ),
            _ => self,
        }
    }

    /// The board after the pointer moved; over the panel nothing happens.
    pub open spec fn pointer_moved(self, e: PointerMove<F>) -> Self {
        if e.over_panel {
            self
        } else {
            BoardV { modifiers: e.modifiers, ..self }.dragged(e.world, e.screen, e.facts)
        }
    }
}

impl<F: Copy> BoardView<F> {
    /// Goes on moving the selection.
    fn go_on_moving(&mut self, world: WPoint<F>, screen: WPoint<F>, f: &MoveFacts<F>)
        requires
            old(self)@.drag is Moving,
            old(self)@.move_fits(*f),
        ensures
            final(self)@ == old(self)@.dragged(world, screen, *f),
    {
        reveal(BoardV::dragged);
        let recorded: bool = match &self.drag {
            DragState::Moving { recorded, .. } => *recorded,
            _ => false,
        };
        if let MoveFacts::Shift { moved, corners } = f {
            if *moved {
                self.shift_selection(recorded, world, corners);
            }
        }
    }

    /// Goes on dragging a control point.
    fn go_on_pointing(&mut self, world: WPoint<F>, screen: WPoint<F>, f: &MoveFacts<F>)
        requires
            old(self)@.drag is EditingPoint,
            old(self)@.move_fits(*f),
        ensures
            final(self)@ == old(self)@.dragged(world, screen, *f),
    {
        reveal(BoardV::dragged);
        if let MoveFacts::Point { points, at, bounds, changed, wraps } = f {
            if !*changed {
                return;
            }
            let copied: Option<(ElementId, Element<F>, PointTarget, bool)> = match &self.drag {
                DragState::EditingPoint { element, original, target, recorded } => Some(
                    (*element, original.clone(), *target, *recorded),
                ),
                _ => None,
            };
            if let Some((element, original, target, recorded)) = copied {
                let mut edited: Element<F> = original.clone();
                edited.drag_point(target, points, *at, *bounds);
                self.move_point(element, original, target, recorded, edited, wraps);
            }
        }
    }

    /// Goes on dragging a resize handle.
    fn go_on_resizing(&mut self, world: WPoint<F>, screen: WPoint<F>, f: &MoveFacts<F>)
        requires
            old(self)@.drag is Resizing,
            old(self)@.move_fits(*f),
        ensures
            final(self)@ == old(self)@.dragged(world, screen, *f),
    {
        reveal(BoardV::dragged);
        if let MoveFacts::Resize { parts, wraps } = f {
            let copied: Option<(Handle, WBounds<F>, Vec<Element<F>>, bool)> = match &self.drag {
                DragState::Resizing { handle, original_bounds, originals, recorded } => Some(
                    (*handle, *original_bounds, copy_elements(originals), *recorded),
                ),
                _ => None,
            };
            if let Some((handle, original_bounds, originals, recorded)) = copied {
                self.resize_selection(originals, handle, original_bounds, recorded, parts, wraps);
            }
        }
    }

    /// Goes on with a rubber band.
    fn go_on_banding(&mut self, world: WPoint<F>, screen: WPoint<F>, f: &MoveFacts<F>)
        requires
            old(self)@.drag is Marquee,
            old(self)@.move_fits(*f),
        ensures
            final(self)@ == old(self)@.dragged(world, screen, *f),
    {
        reveal(BoardV::dragged);
        if let MoveFacts::Band { inside } = f {
            let ids: Vec<ElementId> = self.scene.elements_in(inside);
            if let DragState::Marquee { base_selection, .. } = &self.drag {
                self.selection = join_selection(base_selection, &ids);
            }
            if let DragState::Marquee { current, .. } = &mut self.drag {
                *current = world;
            }
        }
    }

    /// Goes on with a freehand stroke.
    fn go_on_inking(&mut self, world: WPoint<F>, screen: WPoint<F>, f: &MoveFacts<F>)
        requires
            old(self)@.drag is Freedraw,
            old(self)@.move_fits(*f),
        ensures
            final(self)@ == old(self)@.dragged(world, screen, *f),
    {
        reveal(BoardV::dragged);
        if let MoveFacts::Ink { at, hardware, facts } = f {
            if let DragState::Freedraw { collector, .. } = &mut self.drag {
                let _kept: bool = collector.push_at(world, *at, *hardware, *facts);
            }
        }
    }

    /// Goes on with the plainer drags: hovering, panning, drawing, erasing.
    fn go_on_plainly(&mut self, world: WPoint<F>, screen: WPoint<F>, f: &MoveFacts<F>)
        requires
            old(self)@.drag is Idle || old(self)@.drag is Panning || old(self)@.drag is Drawing
                || old(self)@.drag is Erasing,
            old(self)@.move_fits(*f),
        ensures
            final(self)@ == old(self)@.dragged(world, screen, *f),
    {
        reveal(BoardV::dragged);
        let (seed, removed_any): (u64, bool) = match &self.drag {
            DragState::Drawing { seed, .. } => (*seed, false),
            DragState::Erasing { removed_any } => (0, *removed_any),
            _ => (0, false),
        };
        match f {
            MoveFacts::Hover { point, handle, hits, in_selection } => {
                let _changed: bool = self.hover(*point, *handle, hits, *in_selection);
            },
            MoveFacts::Pan => {
                self.drag = DragState::Panning { last: screen };
            },
            MoveFacts::Draw { draft } => {
                self.update_draft(draft, seed);
            },
            MoveFacts::Erase { hits } => {
                self.erase_on(removed_any, hits);
            },
            _ => {},
        }
    }

    /// Goes on with the drag in progress.
    fn drag_on(&mut self, world: WPoint<F>, screen: WPoint<F>, f: &MoveFacts<F>)
        requires
            old(self)@.move_fits(*f),
        ensures
            final(self)@ == old(self)@.dragged(world, screen, *f),
    {
        match &self.drag {
            DragState::Moving { .. } => self.go_on_moving(world, screen, f),
            DragState::EditingPoint { .. } => self.go_on_pointing(world, screen, f),
            DragState::Resizing { .. } => self.go_on_resizing(world, screen, f),
            DragState::Marquee { .. } => self.go_on_banding(world, screen, f),
            DragState::Freedraw { .. } => self.go_on_inking(world, screen, f),
            _ => self.go_on_plainly(world, screen, f),
        }
    }

    /// The pointer moved over the canvas.
    pub fn on_mouse_move(&mut self, e: PointerMove<F>)
        requires
            !e.over_panel ==> old(self)@.move_fits(e.facts),
        ensures
            final(self)@ == old(self)@.pointer_moved(e),
    {
        if e.over_panel {
            return;
        }
        self.modifiers = e.modifiers;
        self.drag_on(e.world, e.screen, &e.facts);
    }
}

} // verus!
