//! The board: the scene together with everything that editing it keeps track
//! of, and the basic changes to it.

use vstd::prelude::*;
use crate::element::{opt_text, Element, ElementStyle, ElementV, TextAlign, WBounds, WPoint};
use crate::history::{History, HistoryV};
use crate::ids::ElementId;
use crate::ink::{InkCollector, InkV};
use crate::scene::{
    has_id, lies_above, lies_below, listed, lowered, place_of, raised, to_back, to_front,
    can_rise, can_sink, Scene,
};

verus! {

/// The tools of the toolbar.
#[derive(Clone, Copy, Debug, PartialEq, Eq, Structural)]
pub enum ActiveTool {
    Select,
    Hand,
    Rectangle,
    Diamond,
    Ellipse,
    Arrow,
    Line,
    Pen,
    Text,
    Eraser,
}

/// The eight resize handles of a selection box.
#[derive(Clone, Copy, Debug, PartialEq, Eq, Structural)]
pub enum Handle {
    Nw,
    N,
    Ne,
    E,
    Se,
    S,
    Sw,
    W,
}

/// A control point of a polyline: a vertex, or the middle of a segment.
#[derive(Clone, Copy, Debug, PartialEq, Eq, Structural)]
pub enum PointTarget {
    Vertex(usize),
    Midpoint(usize),
}

/// How to move the selection in the stack.
#[derive(Clone, Copy, Debug, PartialEq, Eq, Structural)]
pub enum LayerOp {
    ToFront,
    ToBack,
    Forward,
    Backward,
}

/// The modifier keys that gestures look at; `ctrl` stands for the platform's
/// command key too.
#[derive(Clone, Copy, Debug, PartialEq, Eq, Structural)]
pub struct Modifiers {
    pub ctrl: bool,
    pub shift: bool,
}

/// What the pressed mouse button is doing.
#[derive(Debug)]
pub enum DragState<F> {
    Idle,
    /// Panning, from the last screen position on.
    Panning { last: WPoint<F> },
    /// Sizing a new shape.
    Drawing { start: WPoint<F>, seed: u64 },
    /// A freehand stroke.
    Freedraw { collector: InkCollector<F>, seed: u64 },
    /// Moving the selection.
    Moving { last: WPoint<F>, recorded: bool },
    /// Dragging a control point of a polyline.
    EditingPoint { element: ElementId, original: Element<F>, target: PointTarget, recorded: bool },
    /// Dragging a resize handle of the selection.
    Resizing {
        handle: Handle,
        original_bounds: WBounds<F>,
        originals: Vec<Element<F>>,
        recorded: bool,
    },
    /// Selecting with a rubber band.
    Marquee { start: WPoint<F>, current: WPoint<F>, base_selection: Vec<ElementId> },
    /// Erasing what the pointer touches.
    Erasing { removed_any: bool },
}

/// The value of a [`DragState`].
#[verifier::ext_equal]
pub ghost enum DragV<F> {
    Idle,
    Panning { last: WPoint<F> },
    Drawing { start: WPoint<F>, seed: u64 },
    Freedraw { collector: InkV<F>, seed: u64 },
    Moving { last: WPoint<F>, recorded: bool },
    EditingPoint { element: ElementId, original: ElementV<F>, target: PointTarget, recorded: bool },
    Resizing {
        handle: Handle,
        original_bounds: WBounds<F>,
        originals: Seq<ElementV<F>>,
        recorded: bool,
    },
    Marquee { start: WPoint<F>, current: WPoint<F>, base_selection: Seq<ElementId> },
    Erasing { removed_any: bool },
}

impl<F> View for DragState<F> {
    type V = DragV<F>;

    open spec fn view(&self) -> DragV<F> {
        match *self {
            DragState::Idle => DragV::Idle,
            DragState::Panning { last } => DragV::Panning { last },
            DragState::Drawing { start, seed } => DragV::Drawing { start, seed },
            DragState::Freedraw { collector, seed } => DragV::Freedraw { collector: collector@, seed },
            DragState::Moving { last, recorded } => DragV::Moving { last, recorded },
            DragState::EditingPoint { element, original, target, recorded } => DragV::EditingPoint {
                element,
                original: original@,
                target,
                recorded,
            },
            DragState::Resizing { handle, original_bounds, originals, recorded } => DragV::Resizing {
                handle,
                original_bounds,
                originals: crate::scene::views(originals@),
                recorded,
            },
            DragState::Marquee { start, current, base_selection } => DragV::Marquee {
                start,
                current,
                base_selection: base_selection@,
            },
            DragState::Erasing { removed_any } => DragV::Erasing { removed_any },
        }
    }
}

/// The text element that is being edited.
#[derive(Debug)]
pub struct EditingState<F> {
    pub element_id: ElementId,
    pub font_size: F,
    pub font_family: String,
    pub wrap_width: Option<F>,
    pub min_height: Option<F>,
    /// The container when the text is a bound label.
    pub container_id: Option<ElementId>,
    pub text_align: TextAlign,
    /// Whether this edit created the element.
    pub is_new: bool,
}

/// The value of an [`EditingState`].
#[verifier::ext_equal]
pub ghost struct EditingV<F> {
    pub element_id: ElementId,
    pub font_size: F,
    pub font_family: Seq<char>,
    pub wrap_width: Option<F>,
    pub min_height: Option<F>,
    pub container_id: Option<ElementId>,
    pub text_align: TextAlign,
    pub is_new: bool,
}

impl<F> View for EditingState<F> {
    type V = EditingV<F>;

    open spec fn view(&self) -> EditingV<F> {
        EditingV {
            element_id: self.element_id,
            font_size: self.font_size,
            font_family: self.font_family@,
            wrap_width: self.wrap_width,
            min_height: self.min_height,
            container_id: self.container_id,
            text_align: self.text_align,
            is_new: self.is_new,
        }
    }
}

/// The value of an optional edit.
pub open spec fn opt_editing<F>(e: Option<EditingState<F>>) -> Option<EditingV<F>> {
    match e {
        Some(x) => Some(x@),
        None => None,
    }
}

/// The value of an optional element.
pub open spec fn opt_element<F>(e: Option<Element<F>>) -> Option<ElementV<F>> {
    match e {
        Some(x) => Some(x@),
        None => None,
    }
}

/// An open context menu, with the vertex that it was opened on.
#[derive(Clone, Copy, Debug)]
pub struct ContextMenuState<F> {
    /// Where on the screen it opened.
    pub position: WPoint<F>,
    pub vertex: Option<usize>,
}

/// The board.
#[derive(Debug)]
pub struct BoardView<F> {
    pub scene: Scene<F>,
    pub history: History<F>,
    pub tool: ActiveTool,
    pub drag: DragState<F>,
    pub selection: Vec<ElementId>,
    pub style: ElementStyle<F>,
    /// Font size of new text.
    pub text_font_size: F,
    /// Font family of new text.
    pub text_font_family: String,
    /// Alignment of new text.
    pub text_align: TextAlign,
    pub editing: Option<EditingState<F>>,
    /// The shape that is being drawn.
    pub draft: Option<Element<F>>,
    pub dirty: bool,
    /// Text elements whose size has to be measured again.
    pub pending_measure: Vec<ElementId>,
    pub context_menu: Option<ContextMenuState<F>>,
    pub show_grid: bool,
    pub canvas_background: Option<u32>,
    pub temp_pen: bool,
    pub temp_pan: bool,
    /// The modifier keys as last seen.
    pub modifiers: Modifiers,
    /// Whether new freehand strokes taper.
    pub pen_taper: bool,
    /// The file that the board was saved to or opened from.
    pub file_path: Option<String>,
    /// The message in the notice bar.
    pub notice: Option<String>,
    /// The open menu of the in-app menu bar.
    pub menubar_open: Option<usize>,
    pub hover_over_element: bool,
    pub hover_handle: Option<Handle>,
    pub hover_point: Option<PointTarget>,
}

/// The value of a [`BoardView`].
#[verifier::ext_equal]
pub ghost struct BoardV<F> {
    pub scene: Seq<ElementV<F>>,
    pub history: HistoryV<F>,
    pub tool: ActiveTool,
    pub drag: DragV<F>,
    pub selection: Seq<ElementId>,
    pub style: ElementStyle<F>,
    pub text_font_size: F,
    pub text_font_family: Seq<char>,
    pub text_align: TextAlign,
    pub editing: Option<EditingV<F>>,
    pub draft: Option<ElementV<F>>,
    pub dirty: bool,
    pub pending_measure: Seq<ElementId>,
    pub context_menu: Option<ContextMenuState<F>>,
    pub show_grid: bool,
    pub canvas_background: Option<u32>,
    pub temp_pen: bool,
    pub temp_pan: bool,
    pub modifiers: Modifiers,
    pub pen_taper: bool,
    pub file_path: Option<Seq<char>>,
    pub notice: Option<Seq<char>>,
    pub menubar_open: Option<usize>,
    pub hover_over_element: bool,
    pub hover_handle: Option<Handle>,
    pub hover_point: Option<PointTarget>,
}

impl<F> View for BoardView<F> {
    type V = BoardV<F>;

    open spec fn view(&self) -> BoardV<F> {
        BoardV {
            scene: self.scene@,
            history: self.history@,
            tool: self.tool,
            drag: self.drag@,
            selection: self.selection@,
            style: self.style,
            text_font_size: self.text_font_size,
            text_font_family: self.text_font_family@,
            text_align: self.text_align,
            editing: opt_editing(self.editing),
            draft: opt_element(self.draft),
            dirty: self.dirty,
            pending_measure: self.pending_measure@,
            context_menu: self.context_menu,
            show_grid: self.show_grid,
            canvas_background: self.canvas_background,
            temp_pen: self.temp_pen,
            temp_pan: self.temp_pan,
            modifiers: self.modifiers,
            pen_taper: self.pen_taper,
            file_path: opt_text(self.file_path),
            notice: opt_text(self.notice),
            menubar_open: self.menubar_open,
            hover_over_element: self.hover_over_element,
            hover_handle: self.hover_handle,
            hover_point: self.hover_point,
        }
    }
}

/// The elements without the first one that has the identity `id`.
pub open spec fn without_first<F>(s: Seq<ElementV<F>>, id: ElementId) -> Seq<ElementV<F>> {
    if has_id(s, id) {
        s.remove(place_of(s, id))
    } else {
        s
    }
}

/// The identities of the labels that are bound to `id`, in paint order.
pub open spec fn label_ids<F>(s: Seq<ElementV<F>>, id: ElementId) -> Seq<ElementId>
    decreases s.len(),
{
    if s.len() == 0 {
        Seq::empty()
    } else if s.last().kind.bound_to() == Some(id) {
        label_ids(s.drop_last(), id).push(s.last().id)
    } else {
        label_ids(s.drop_last(), id)
    }
}

/// The elements without those of the listed identities, one for each entry.
pub open spec fn without_each<F>(s: Seq<ElementV<F>>, ids: Seq<ElementId>) -> Seq<ElementV<F>>
    decreases ids.len(),
{
    if ids.len() == 0 {
        s
    } else {
        without_first(without_each(s, ids.drop_last()), ids.last())
    }
}

/// The elements without `id` and the labels bound to it.
pub open spec fn removed<F>(s: Seq<ElementV<F>>, id: ElementId) -> Seq<ElementV<F>> {
    let t = without_first(s, id);
    without_each(t, label_ids(t, id))
}

/// The elements without the listed ones and the labels bound to them.
pub open spec fn removed_each<F>(s: Seq<ElementV<F>>, ids: Seq<ElementId>) -> Seq<ElementV<F>>
    decreases ids.len(),
{
    if ids.len() == 0 {
        s
    } else {
        removed(removed_each(s, ids.drop_last()), ids.last())
    }
}

impl<F: Copy> Scene<F> {
    /// The identities of the labels that are bound to `id`, in paint order.
    pub fn labels_of(&self, id: ElementId) -> (r: Vec<ElementId>)
        ensures
            r@ == label_ids(self@, id),
    {
        let mut r: Vec<ElementId> = Vec::new();
        let mut i: usize = 0;
        assert(self@.take(0) =~= Seq::<ElementV<F>>::empty());
        while i < self.elements.len()
            invariant
                i <= self.elements.len(),
                r@ == label_ids(self@.take(i as int), id),
            decreases self.elements.len() - i,
        {
            assert(self@.take(i + 1).drop_last() =~= self@.take(i as int));
            assert(self@.take(i + 1).last() == self.elements@[i as int]@);
            match self.elements[i].container_id() {
                Some(c) => {
                    if c == id {
                        r.push(self.elements[i].id);
                    }
                },
                None => {},
            }
            i += 1;
        }
        assert(self@.take(self@.len() as int) =~= self@);
        r
    }

    /// Removes an element and the labels bound to it.
    pub fn remove_with_labels(&mut self, id: ElementId)
        ensures
            final(self)@ == removed(old(self)@, id),
    {
        let _gone: Option<Element<F>> = self.remove(id);
        let ghost t = self@;
        let labels: Vec<ElementId> = self.labels_of(id);
        let mut i: usize = 0;
        assert(labels@.take(0) =~= Seq::<ElementId>::empty());
        while i < labels.len()
            invariant
                i <= labels.len(),
                self@ == without_each(t, labels@.take(i as int)),
            decreases labels.len() - i,
        {
            assert(labels@.take(i + 1).drop_last() =~= labels@.take(i as int));
            let _label: Option<Element<F>> = self.remove(labels[i]);
            i += 1;
        }
        assert(labels@.take(labels@.len() as int) =~= labels@);
    }

    /// Removes each of the listed elements and the labels bound to them.
    pub fn remove_each(&mut self, ids: &Vec<ElementId>)
        ensures
            final(self)@ == removed_each(old(self)@, ids@),
    {
        let ghost start = self@;
        let mut i: usize = 0;
        assert(ids@.take(0) =~= Seq::<ElementId>::empty());
        while i < ids.len()
            invariant
                i <= ids.len(),
                self@ == removed_each(start, ids@.take(i as int)),
            decreases ids.len() - i,
        {
            assert(ids@.take(i + 1).drop_last() =~= ids@.take(i as int));
            self.remove_with_labels(ids[i]);
            i += 1;
        }
        assert(ids@.take(ids@.len() as int) =~= ids@);
    }
}

/// The entries of a selection that are still in the scene.
pub open spec fn live_selection<F>(
    selection: Seq<ElementId>,
    scene: Seq<ElementV<F>>,
) -> Seq<ElementId> {
    selection.filter(|id: ElementId| has_id(scene, id))
}

/// Whether an identity is not `id`.
pub open spec fn other_than(id: ElementId) -> spec_fn(ElementId) -> bool {
    |x: ElementId| x != id
}

/// The entries of a selection other than `id`.
pub open spec fn deselected(selection: Seq<ElementId>, id: ElementId) -> Seq<ElementId> {
    selection.filter(other_than(id))
}

/// Drops `id` from a selection.
pub fn deselect(selection: &Vec<ElementId>, id: ElementId) -> (r: Vec<ElementId>)
    ensures
        r@ == deselected(selection@, id),
{
    let ghost p = other_than(id);
    let mut r: Vec<ElementId> = Vec::new();
    let mut i: usize = 0;
    proof {
        reveal(Seq::filter);
        assert(selection@.take(0) =~= Seq::<ElementId>::empty());
    }
    while i < selection.len()
        invariant
            i <= selection.len(),
            p == other_than(id),
            r@ == selection@.take(i as int).filter(p),
        decreases selection.len() - i,
    {
        proof {
            reveal(Seq::filter);
            assert(selection@.take(i + 1).drop_last() =~= selection@.take(i as int));
        }
        if selection[i] != id {
            r.push(selection[i]);
        }
        i += 1;
    }
    assert(selection@.take(selection@.len() as int) =~= selection@);
    r
}

/// What is left of a selection in a scene.
pub fn keep_live<F: Copy>(selection: &Vec<ElementId>, scene: &Scene<F>) -> (r: Vec<ElementId>)
    ensures
        r@ == live_selection(selection@, scene@),
{
    let ghost p = |id: ElementId| has_id(scene@, id);
    let mut r: Vec<ElementId> = Vec::new();
    let mut i: usize = 0;
    proof {
        reveal(Seq::filter);
        assert(selection@.take(0) =~= Seq::<ElementId>::empty());
    }
    while i < selection.len()
        invariant
            i <= selection.len(),
            p == (|id: ElementId| has_id(scene@, id)),
            r@ == selection@.take(i as int).filter(p),
        decreases selection.len() - i,
    {
        proof {
            reveal(Seq::filter);
            assert(selection@.take(i + 1).drop_last() =~= selection@.take(i as int));
        }
        if scene.contains(selection[i]) {
            r.push(selection[i]);
        }
        i += 1;
    }
    assert(selection@.take(selection@.len() as int) =~= selection@);
    r
}

/// Whether a layer move applies to a selection.
pub open spec fn layer_applies<F>(
    op: LayerOp,
    scene: Seq<ElementV<F>>,
    selection: Seq<ElementId>,
) -> bool {
    match op {
        LayerOp::ToFront => lies_below(scene, listed(selection)),
        LayerOp::ToBack => lies_above(scene, listed(selection)),
        LayerOp::Forward => can_rise(scene, listed(selection)),
        LayerOp::Backward => can_sink(scene, listed(selection)),
    }
}

/// The scene after a layer move.
pub open spec fn layered<F>(
    op: LayerOp,
    scene: Seq<ElementV<F>>,
    selection: Seq<ElementId>,
) -> Seq<ElementV<F>> {
    match op {
        LayerOp::ToFront => to_front(scene, listed(selection)),
        LayerOp::ToBack => to_back(scene, listed(selection)),
        LayerOp::Forward => raised(scene, listed(selection)),
        LayerOp::Backward => lowered(scene, listed(selection)),
    }
}

impl<F> BoardV<F> {
    /// The board after the selection was deleted.
    pub open spec fn selection_deleted(self) -> Self {
        if self.selection.len() == 0 {
            self
        } else {
            BoardV {
                scene: removed_each(self.scene, self.selection),
                history: self.history.recorded(self.scene),
                selection: Seq::empty(),
                dirty: true,
                ..self
            }
        }
    }

    /// The board after the selection was moved in the stack.
    pub open spec fn reordered(self, op: LayerOp) -> Self {
        if self.selection.len() == 0 || !layer_applies(op, self.scene, self.selection) {
            self
        } else {
            BoardV {
                scene: layered(op, self.scene, self.selection),
                history: self.history.recorded(self.scene),
                context_menu: None,
                dirty: true,
                ..self
            }
        }
    }

    /// The board after one step back.
    pub open spec fn undone(self) -> Self {
        if self.history.undo.len() == 0 {
            self
        } else {
            let scene = self.history.undone_scene(self.scene);
            BoardV {
                scene,
                history: self.history.undone(self.scene),
                selection: live_selection(self.selection, scene),
                ..self
            }
        }
    }

    /// The board after one step forward.
    pub open spec fn redone(self) -> Self {
        if self.history.redo.len() == 0 {
            self
        } else {
            let scene = self.history.redone_scene(self.scene);
            BoardV {
                scene,
                history: self.history.redone(self.scene),
                selection: live_selection(self.selection, scene),
                ..self
            }
        }
    }

    /// The board after another tool was chosen; an edit is committed before.
    pub open spec fn with_tool(self, tool: ActiveTool) -> Self {
        BoardV {
            drag: DragV::Idle,
            draft: None,
            tool,
            selection: if tool == ActiveTool::Select {
                self.selection
            } else {
                Seq::empty()
            },
            ..self
        }
    }

    /// Whether something on the canvas is in progress or selected.
    pub open spec fn busy(self) -> bool {
        !(self.drag is Idle) || self.draft is Some || self.selection.len() > 0
    }
}

impl<F> BoardV<F> {
    /// The board after a cancel request.
    pub open spec fn cancelled(self) -> Self {
        if self.context_menu is Some {
            BoardV { context_menu: None, ..self }
        } else if self.editing is Some {
            self
        } else {
            BoardV { drag: DragV::Idle, draft: None, selection: Seq::empty(), ..self }
        }
    }

    /// What is left to do after a cancel request.
    pub open spec fn cancel_step(self, fullscreen: bool, maximized: bool) -> CancelStep {
        if self.context_menu is Some {
            CancelStep::MenuClosed
        } else if self.editing is Some {
            CancelStep::CommitEdit
        } else if self.busy() {
            CancelStep::Cleared
        } else if fullscreen {
            CancelStep::LeaveFullscreen
        } else if maximized {
            CancelStep::Unzoom
        } else {
            CancelStep::Nothing
        }
    }
}

/// What is left to do after a cancel request.
#[derive(Clone, Copy, Debug, PartialEq, Eq, Structural)]
pub enum CancelStep {
    /// The open context menu was closed.
    MenuClosed,
    /// The edit in progress has to be committed.
    CommitEdit,
    /// Whatever was in progress or selected was dropped.
    Cleared,
    /// Nothing was left to cancel: the window leaves full screen.
    LeaveFullscreen,
    /// Nothing was left to cancel: the window leaves its zoomed state.
    Unzoom,
    /// Nothing was left to cancel.
    Nothing,
}

impl<F: Copy> BoardView<F> {
    /// A new empty board with the given style and font size.
    pub fn new(style: ElementStyle<F>, text_font_size: F) -> (r: Self)
        ensures
            r@ == (BoardV::<F> {
                scene: Seq::empty(),
                history: HistoryV::empty(),
                tool: ActiveTool::Select,
                drag: DragV::Idle,
                selection: Seq::empty(),
                style,
                text_font_size,
                text_font_family: crate::element::HANDWRITTEN_FONT@,
                text_align: TextAlign::Left,
                editing: None,
                draft: None,
                dirty: false,
                pending_measure: Seq::empty(),
                context_menu: None,
                show_grid: false,
                canvas_background: None,
                temp_pen: false,
                temp_pan: false,
                modifiers: Modifiers { ctrl: false, shift: false },
                pen_taper: true,
                file_path: None,
                notice: None,
                menubar_open: None,
                hover_over_element: false,
                hover_handle: None,
                hover_point: None,
            }),
    {
        BoardView {
            scene: Scene::new(),
            history: History::new(),
            tool: ActiveTool::Select,
            drag: DragState::Idle,
            selection: Vec::new(),
            style,
            text_font_size,
            text_font_family: crate::element::HANDWRITTEN_FONT.to_owned(),
            text_align: TextAlign::Left,
            editing: None,
            draft: None,
            dirty: false,
            pending_measure: Vec::new(),
            context_menu: None,
            show_grid: false,
            canvas_background: None,
            temp_pen: false,
            temp_pan: false,
            modifiers: Modifiers { ctrl: false, shift: false },
            pen_taper: true,
            file_path: None,
            notice: None,
            menubar_open: None,
            hover_over_element: false,
            hover_handle: None,
            hover_point: None,
        }
    }

    /// Records the scene before a change.
    pub fn record(&mut self)
        ensures
            final(self)@ == (BoardV {
                history: old(self)@.history.recorded(old(self)@.scene),
                ..old(self)@
            }),
    {
        self.history.record(&self.scene);
    }

    /// Chooses a tool; an edit in progress is committed before.
    pub fn set_tool(&mut self, tool: ActiveTool)
        ensures
            final(self)@ == old(self)@.with_tool(tool),
    {
        self.drag = DragState::Idle;
        self.draft = None;
        self.tool = tool;
        if tool != ActiveTool::Select {
            self.selection = Vec::new();
        }
        assert(self@ =~= old(self)@.with_tool(tool));
    }

    /// Deletes the selected elements and the labels bound to them.
    pub fn delete_selection(&mut self)
        ensures
            final(self)@ == old(self)@.selection_deleted(),
    {
        if self.selection.len() == 0 {
            return;
        }
        self.record();
        let mut ids: Vec<ElementId> = Vec::new();
        std::mem::swap(&mut ids, &mut self.selection);
        self.scene.remove_each(&ids);
        self.dirty = true;
        assert(self@ =~= old(self)@.selection_deleted());
    }

    /// Moves the selected elements in the stack, when the move applies.
    pub fn reorder_layers(&mut self, op: LayerOp)
        ensures
            final(self)@ == old(self)@.reordered(op),
    {
        if self.selection.len() == 0 {
            return;
        }
        let can: bool = match op {
            LayerOp::ToFront => self.scene.can_front(self.selection.as_slice()),
            LayerOp::ToBack => self.scene.can_back(self.selection.as_slice()),
            LayerOp::Forward => self.scene.can_forward(self.selection.as_slice()),
            LayerOp::Backward => self.scene.can_backward(self.selection.as_slice()),
        };
        if !can {
            return;
        }
        self.record();
        match op {
            LayerOp::ToFront => {
                self.scene.move_to_front(self.selection.as_slice());
            },
            LayerOp::ToBack => {
                self.scene.send_to_back(self.selection.as_slice());
            },
            LayerOp::Forward => {
                self.scene.bring_forward(self.selection.as_slice());
            },
            LayerOp::Backward => {
                self.scene.send_backward(self.selection.as_slice());
            },
        }
        self.context_menu = None;
        self.dirty = true;
    }

    /// Goes one step back; an edit in progress is committed before. False
    /// when there is nothing to undo.
    pub fn undo(&mut self) -> (r: bool)
        ensures
            r == (old(self)@.history.undo.len() > 0),
            final(self)@ == old(self)@.undone(),
    {
        let moved: bool = self.history.undo(&mut self.scene);
        if moved {
            self.selection = keep_live(&self.selection, &self.scene);
        }
        moved
    }

    /// Comes one step forward; an edit in progress is committed before. False
    /// when there is nothing to redo.
    pub fn redo(&mut self) -> (r: bool)
        ensures
            r == (old(self)@.history.redo.len() > 0),
            final(self)@ == old(self)@.redone(),
    {
        let moved: bool = self.history.redo(&mut self.scene);
        if moved {
            self.selection = keep_live(&self.selection, &self.scene);
        }
        moved
    }

    /// Cancels the innermost thing in progress: an open context menu, then an
    /// edit, then the drag, the draft and the selection, then the window's
    /// full-screen or zoomed state.
    pub fn cancel(&mut self, fullscreen: bool, maximized: bool) -> (r: CancelStep)
        ensures
            ({
                let b = old(self)@;
                if b.context_menu is Some {
                    r == CancelStep::MenuClosed && final(self)@ == (BoardV {
                        context_menu: None,
                        ..b
                    })
                } else if b.editing is Some {
                    r == CancelStep::CommitEdit && final(self)@ == b
                } else {
                    &&& final(self)@ == (BoardV {
                        drag: DragV::Idle,
                        draft: None,
                        selection: Seq::empty(),
                        ..b
                    })
                    &&& r == (if b.busy() {
                        CancelStep::Cleared
                    } else if fullscreen {
                        CancelStep::LeaveFullscreen
                    } else if maximized {
                        CancelStep::Unzoom
                    } else {
                        CancelStep::Nothing
                    })
                }
            }),
            final(self)@ == old(self)@.cancelled(),
            r == old(self)@.cancel_step(fullscreen, maximized),
    {
        if self.context_menu.is_some() {
            self.context_menu = None;
            return CancelStep::MenuClosed;
        }
        if self.editing.is_some() {
            return CancelStep::CommitEdit;
        }
        let idle: bool = match &self.drag {
            DragState::Idle => true,
            _ => false,
        };
        let busy: bool = !idle || self.draft.is_some() || self.selection.len() > 0;
        self.drag = DragState::Idle;
        self.draft = None;
        self.selection = Vec::new();
        assert(self@.selection =~= Seq::<ElementId>::empty());
        if busy {
            CancelStep::Cleared
        } else if fullscreen {
            CancelStep::LeaveFullscreen
        } else if maximized {
            CancelStep::Unzoom
        } else {
            CancelStep::Nothing
        }
    }

    /// Sets the surface colour of the board.
    pub fn set_canvas_background(&mut self, color: Option<u32>)
        ensures
            final(self)@ == (BoardV { canvas_background: color, dirty: true, ..old(self)@ }),
    {
        self.canvas_background = color;
        self.dirty = true;
    }
}

} // verus!
