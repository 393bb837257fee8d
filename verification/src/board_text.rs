//! Text on the board: new texts, labels bound to a container, and the edit
//! in progress.

use vstd::prelude::*;
use crate::board::{
    deselect, ActiveTool, deselected, without_first, BoardV, BoardView, EditingState, EditingV,
};
use crate::element::{
    Element, ElementKind, ElementStyle, ElementV, KindV, TextAlign, WBounds, WPoint,
};
use crate::ids::{is_random, new_seed, seed_shaped, ElementId};
use crate::scene::{has_id, holds, place_of};
use crate::text::{same_text, trim_spec, trim_text};

verus! {

/// The identity and the jitter seed of an element to come.
#[derive(Clone, Copy, Debug, PartialEq, Eq, Structural)]
pub struct Fresh {
    pub id: ElementId,
    pub seed: u64,
}

impl Fresh {
    /// Whether the identity and the seed can have been drawn at random.
    pub open spec fn drawn(self) -> bool {
        is_random(self.id) && seed_shaped(self.seed)
    }

    /// A random identity and seed.
    pub fn draw() -> (r: Fresh)
        ensures
            r.drawn(),
    {
        Fresh { id: ElementId::random(), seed: new_seed() }
    }
}

/// Where a new label goes: its corner when centred on its container, its wrap
/// width, and the extent of an empty line (zero wide).
#[derive(Clone, Copy, Debug)]
pub struct LabelBox<F> {
    pub at: WPoint<F>,
    pub wrap: F,
    pub zero: F,
    pub line_box: F,
}

/// The background behind the label of a line or an arrow.
pub const LABEL_BACKGROUND: u32 = 0xffffff;

/// The kind of a text element.
pub open spec fn text_kind<F>(
    text: Seq<char>,
    font_size: F,
    font_family: Seq<char>,
    wrap_width: Option<F>,
    container_id: Option<ElementId>,
    text_align: TextAlign,
) -> KindV<F> {
    KindV::Text {
        text,
        font_size,
        font_family,
        wrap_width,
        min_height: None,
        container_id,
        text_align,
        anchor: None,
    }
}

/// Whether the element with the identity `id` is a line or an arrow.
pub open spec fn linear_at<F>(s: Seq<ElementV<F>>, id: ElementId) -> bool {
    has_id(s, id) && (s[place_of(s, id)].kind is Line || s[place_of(s, id)].kind is Arrow)
}

/// The first label bound to `id`.
pub open spec fn first_label<F>(s: Seq<ElementV<F>>, id: ElementId) -> Option<ElementId>
    decreases s.len(),
{
    if s.len() == 0 {
        None
    } else if s[0].kind.bound_to() == Some(id) {
        Some(s[0].id)
    } else {
        first_label(s.skip(1), id)
    }
}

impl<F> BoardV<F> {
    /// A new free text in the board's current style, font and alignment,
    /// without roughness, one empty line high.
    pub open spec fn text_element(
        self,
        at: WPoint<F>,
        text: Seq<char>,
        zero: F,
        line_box: F,
        fresh: Fresh,
    ) -> ElementV<F> {
        ElementV {
            id: fresh.id,
            bounds: WBounds { x: at.x, y: at.y, w: zero, h: line_box },
            seed: fresh.seed,
            style: ElementStyle { roughness: zero, ..self.style },
            kind: text_kind(
                text,
                self.text_font_size,
                self.text_font_family,
                None,
                None,
                self.text_align,
            ),
        }
    }

    /// A new centred label bound to `container`, on an opaque background or
    /// not.
    pub open spec fn label_element(
        self,
        container: ElementId,
        text: Seq<char>,
        b: LabelBox<F>,
        opaque_back: bool,
        fresh: Fresh,
    ) -> ElementV<F> {
        let base = self.text_element(b.at, text, b.zero, b.line_box, fresh);
        ElementV {
            style: if opaque_back {
                ElementStyle { background: Some(LABEL_BACKGROUND), ..base.style }
            } else {
                base.style
            },
            kind: text_kind(
                text,
                self.text_font_size,
                self.text_font_family,
                Some(b.wrap),
                Some(container),
                TextAlign::Center,
            ),
            ..base
        }
    }

    /// The board after a label was added to a container; the label of a line
    /// or an arrow has an opaque background.
    pub open spec fn labelled(
        self,
        container: ElementId,
        text: Seq<char>,
        b: LabelBox<F>,
        fresh: Fresh,
    ) -> Self {
        BoardV {
            scene: self.scene.push(
                self.label_element(container, text, b, linear_at(self.scene, container), fresh),
            ),
            pending_measure: self.pending_measure.push(fresh.id),
            ..self
        }
    }

    /// The edit of the element `id`, when it is a text.
    pub open spec fn edit_of(self, id: ElementId, is_new: bool) -> Option<EditingV<F>> {
        if !has_id(self.scene, id) {
            None
        } else {
            match self.scene[place_of(self.scene, id)].kind {
                KindV::Text {
                    font_size,
                    font_family,
                    wrap_width,
                    min_height,
                    container_id,
                    text_align,
                    ..
                } => Some(
                    EditingV {
                        element_id: id,
                        font_size,
                        font_family,
                        wrap_width,
                        min_height,
                        container_id,
                        text_align,
                        is_new,
                    },
                ),
                _ => None,
            }
        }
    }

    /// The board after an edit was asked for: it starts only on a text.
    #[verifier::opaque]
    pub open spec fn edit_started(self, id: ElementId, is_new: bool) -> Self {
        match self.edit_of(id, is_new) {
            Some(e) => BoardV { editing: Some(e), ..self },
            None => self,
        }
    }

    /// The board after the label of a container was opened for editing: its
    /// first label, or a new one.
    #[verifier::opaque]
    pub open spec fn label_opened(self, container: ElementId, b: LabelBox<F>, fresh: Fresh) -> Self {
        match first_label(self.scene, container) {
            Some(id) => BoardV { selection: seq![id], ..self }.edit_started(id, false),
            None => if !has_id(self.scene, container) {
                self
            } else {
                BoardV {
                    scene: self.scene.push(
                        self.label_element(container, Seq::empty(), b, false, fresh),
                    ),
                    history: self.history.recorded(self.scene),
                    pending_measure: self.pending_measure.push(fresh.id),
                    dirty: true,
                    selection: seq![fresh.id],
                    ..self
                }.edit_started(fresh.id, true)
            },
        }
    }
}

impl<F: Copy> BoardView<F> {
    /// A new free text in the board's current style, font and alignment.
    pub fn new_text_element(
        &self,
        at: WPoint<F>,
        text: String,
        zero: F,
        line_box: F,
        fresh: Fresh,
    ) -> (r: Element<F>)
        ensures
            r@ == self@.text_element(at, text@, zero, line_box, fresh),
    {
        let mut style: ElementStyle<F> = self.style;
        style.roughness = zero;
        Element {
            id: fresh.id,
            bounds: WBounds { x: at.x, y: at.y, w: zero, h: line_box },
            seed: fresh.seed,
            style,
            kind: ElementKind::Text {
                text,
                font_size: self.text_font_size,
                font_family: self.text_font_family.clone(),
                wrap_width: None,
                min_height: None,
                container_id: None,
                text_align: self.text_align,
                anchor: None,
            },
        }
    }

    /// A new centred label bound to `container`.
    pub fn new_label(
        &self,
        container: ElementId,
        text: String,
        b: LabelBox<F>,
        opaque_back: bool,
        fresh: Fresh,
    ) -> (r: Element<F>)
        ensures
            r@ == self@.label_element(container, text@, b, opaque_back, fresh),
    {
        let mut el: Element<F> = self.new_text_element(b.at, text, b.zero, b.line_box, fresh);
        match &mut el.kind {
            ElementKind::Text { wrap_width, container_id, text_align, .. } => {
                *wrap_width = Some(b.wrap);
                *container_id = Some(container);
                *text_align = TextAlign::Center;
            },
            _ => {},
        }
        if opaque_back {
            el.style.background = Some(LABEL_BACKGROUND);
        }
        el
    }

    /// Adds a centred label to a container and queues it for measuring.
    pub fn add_bound_label(
        &mut self,
        container: ElementId,
        text: String,
        b: LabelBox<F>,
        fresh: Fresh,
    )
        ensures
            final(self)@ == old(self)@.labelled(container, text@, b, fresh),
    {
        let linear: bool = match self.scene.get(container) {
            Some(e) => e.is_linear(),
            None => false,
        };
        let el: Element<F> = self.new_label(container, text, b, linear, fresh);
        let id: ElementId = self.scene.add(el);
        self.pending_measure.push(id);
    }

    /// Starts editing a text element; other elements are left alone.
    pub fn start_editing(&mut self, id: ElementId, is_new: bool)
        ensures
            final(self)@ == old(self)@.edit_started(id, is_new),
    {
        reveal(BoardV::edit_started);
        let state: Option<EditingState<F>> = match self.scene.get(id) {
            Some(el) => match &el.kind {
                ElementKind::Text {
                    font_size,
                    font_family,
                    wrap_width,
                    min_height,
                    container_id,
                    text_align,
                    ..
                } => Some(
                    EditingState {
                        element_id: id,
                        font_size: *font_size,
                        font_family: font_family.clone(),
                        wrap_width: *wrap_width,
                        min_height: *min_height,
                        container_id: *container_id,
                        text_align: *text_align,
                        is_new,
                    },
                ),
                _ => None,
            },
            None => None,
        };
        match state {
            Some(s) => {
                self.editing = Some(s);
            },
            None => {},
        }
    }

    /// The first label bound to a container.
    pub fn label_of(&self, container: ElementId) -> (r: Option<ElementId>)
        ensures
            r == first_label(self@.scene, container),
    {
        let mut i: usize = 0;
        assert(self@.scene.skip(0) =~= self@.scene);
        while i < self.scene.elements.len()
            invariant
                i <= self.scene.elements.len(),
                first_label(self@.scene, container) == first_label(
                    self@.scene.skip(i as int),
                    container,
                ),
            decreases self.scene.elements.len() - i,
        {
            assert(self@.scene.skip(i as int)[0] == self.scene.elements@[i as int]@);
            assert(self@.scene.skip(i as int).skip(1) =~= self@.scene.skip(i + 1));
            match self.scene.elements[i].container_id() {
                Some(c) => {
                    if c == container {
                        return Some(self.scene.elements[i].id);
                    }
                },
                None => {},
            }
            i += 1;
        }
        None
    }

    /// Edits the label of a container, adding an empty one when it has none.
    pub fn edit_container_label(&mut self, container: ElementId, b: LabelBox<F>, fresh: Fresh)
        ensures
            final(self)@ == old(self)@.label_opened(container, b, fresh),
    {
        reveal(BoardV::label_opened);
        match self.label_of(container) {
            Some(id) => {
                self.selection = vec![id];
                assert(self@.selection =~= seq![id]);
                self.start_editing(id, false);
            },
            None => {
                if !self.scene.contains(container) {
                    return;
                }
                let el: Element<F> = self.new_label(container, "".to_owned(), b, false, fresh);
                proof {
                    reveal_strlit("");
                    assert(""@ =~= Seq::<char>::empty());
                }
                self.record();
                let id: ElementId = self.scene.add(el);
                self.pending_measure.push(id);
                self.dirty = true;
                self.selection = vec![id];
                assert(self@.selection =~= seq![fresh.id]);
                self.start_editing(id, true);
            },
        }
    }
}

/// The text of a kind; none for everything but a text.
pub open spec fn text_of<F>(k: KindV<F>) -> Option<Seq<char>> {
    match k {
        KindV::Text { text, .. } => Some(text),
        _ => None,
    }
}

/// A selection with `id` put at its end, unless it is there already.
pub open spec fn with_selected(selection: Seq<ElementId>, id: ElementId) -> Seq<ElementId> {
    if selection.contains(id) {
        selection
    } else {
        selection.push(id)
    }
}

/// The measurements of a committed text: its extent, and its corner when it
/// is aligned on its container.
#[derive(Clone, Copy, Debug)]
pub struct Measured<F> {
    pub w: F,
    pub h: F,
    pub placed: WPoint<F>,
}

impl<F> BoardV<F> {
    /// Whether committing `text` empties the edited element.
    pub open spec fn commits_nothing(text: Seq<char>) -> bool {
        trim_spec(text).len() == 0
    }

    /// The edited element after `text` was committed to it.
    pub open spec fn committed_element(
        self,
        e: EditingV<F>,
        text: Seq<char>,
        m: Measured<F>,
    ) -> ElementV<F> {
        let el = self.scene[place_of(self.scene, e.element_id)];
        let sized = ElementV {
            bounds: WBounds { w: m.w, h: m.h, ..el.bounds },
            kind: el.kind.with_text(text),
            ..el
        };
        if e.container_id matches Some(c) && has_id(self.scene, c) {
            sized.at(m.placed)
        } else {
            sized
        }
    }

    /// The board after the text of an edit was written back: a blank text
    /// removes the element, a changed one updates it. The change is recorded
    /// unless the edit created the element, which was recorded then.
    pub open spec fn written_back(self, e: EditingV<F>, text: Seq<char>, m: Measured<F>) -> Self {
        let history = if e.is_new {
            self.history
        } else {
            self.history.recorded(self.scene)
        };
        let id = e.element_id;
        if Self::commits_nothing(text) {
            BoardV { scene: without_first(self.scene, id), history, ..self }
        } else if has_id(self.scene, id) && text_of(self.scene[place_of(self.scene, id)].kind)
            != Some(text) {
            BoardV {
                scene: self.scene.update(
                    place_of(self.scene, id),
                    self.committed_element(e, text, m),
                ),
                history,
                dirty: true,
                ..self
            }
        } else {
            self
        }
    }

    /// The selection after an edit: a selected label hands over to its
    /// container.
    pub open spec fn handed_over(self, e: EditingV<F>) -> Seq<ElementId> {
        match e.container_id {
            Some(c) => if self.selection.contains(e.element_id) {
                let rest = deselected(self.selection, e.element_id);
                if has_id(self.scene, c) {
                    with_selected(rest, c)
                } else {
                    rest
                }
            } else {
                self.selection
            },
            None => self.selection,
        }
    }

    /// The board after the edit in progress was committed with `text`.
    #[verifier::opaque]
    pub open spec fn committed(self, text: Seq<char>, m: Measured<F>) -> Self {
        match self.editing {
            None => self,
            Some(e) => {
                let b = BoardV { editing: None, ..self }.written_back(e, text, m);
                BoardV { selection: b.handed_over(e), ..b }
            },
        }
    }

    /// The element that a commit leaves behind as new: the one that the edit
    /// created, unless its text is blank.
    pub open spec fn commit_result(self, text: Seq<char>) -> Option<ElementId> {
        match self.editing {
            Some(e) => if e.is_new && !Self::commits_nothing(text) {
                Some(e.element_id)
            } else {
                None
            },
            None => None,
        }
    }

    /// The board after a freshly committed text became the selection: its
    /// container when it is a label.
    pub open spec fn fresh_selected(self, id: ElementId) -> Self {
        let target = if has_id(self.scene, id) {
            match self.scene[place_of(self.scene, id)].kind.bound_to() {
                Some(c) => c,
                None => id,
            }
        } else {
            id
        };
        BoardV { tool: ActiveTool::Select, selection: seq![target], ..self }
    }
}

impl<F: Copy> BoardView<F> {
    /// Writes the text of an edit back to its element.
    fn write_back(&mut self, e: &EditingState<F>, text: &str, m: Measured<F>)
        ensures
            final(self)@ == old(self)@.written_back(e@, text@, m),
    {
        let id: ElementId = e.element_id;
        let trimmed: String = trim_text(text);
        let blank: bool = trimmed.as_str().is_empty();
        assert(blank == BoardV::<F>::commits_nothing(text@));
        if blank {
            if !e.is_new {
                self.record();
            }
            let _gone: Option<Element<F>> = self.scene.remove(id);
            return;
        }
        let changed: bool = match self.scene.get(id) {
            Some(el) => match &el.kind {
                ElementKind::Text { text: t, .. } => !same_text(t.as_str(), text),
                _ => true,
            },
            None => false,
        };
        if !changed {
            return;
        }
        if !e.is_new {
            self.record();
        }
        let bound: bool = match e.container_id {
            Some(c) => self.scene.contains(c),
            None => false,
        };
        match self.scene.get_mut(id) {
            Some(el) => {
                el.set_text(text.to_owned());
                el.bounds.w = m.w;
                el.bounds.h = m.h;
                if bound {
                    el.move_to(m.placed);
                }
            },
            None => {},
        }
        self.dirty = true;
    }

    /// Hands the selection of an edited label over to its container.
    fn hand_over(&mut self, e: &EditingState<F>)
        ensures
            final(self)@ == (BoardV { selection: old(self)@.handed_over(e@), ..old(self)@ }),
    {
        match e.container_id {
            Some(c) => {
                if holds(self.selection.as_slice(), e.element_id) {
                    self.selection = deselect(&self.selection, e.element_id);
                    if self.scene.contains(c) && !holds(self.selection.as_slice(), c) {
                        self.selection.push(c);
                    }
                }
            },
            None => {},
        }
    }

    /// Commits the edit in progress with its `text`. Returns the element when
    /// the edit created it and its text is not blank.
    pub fn commit_editing(&mut self, text: &str, m: Measured<F>) -> (r: Option<ElementId>)
        ensures
            r == old(self)@.commit_result(text@),
            final(self)@ == old(self)@.committed(text@, m),
    {
        reveal(BoardV::committed);
        let taken: Option<EditingState<F>> = self.editing.take();
        match taken {
            None => None,
            Some(e) => {
                self.write_back(&e, text, m);
                self.hand_over(&e);
                let trimmed: String = trim_text(text);
                if e.is_new && !trimmed.as_str().is_empty() {
                    Some(e.element_id)
                } else {
                    None
                }
            },
        }
    }

    /// Chooses the select tool and selects a freshly committed text, or its
    /// container.
    pub fn select_fresh(&mut self, id: ElementId)
        ensures
            final(self)@ == old(self)@.fresh_selected(id),
    {
        let target: ElementId = match self.scene.get(id) {
            Some(el) => match el.container_id() {
                Some(c) => c,
                None => id,
            },
            None => id,
        };
        self.tool = ActiveTool::Select;
        self.selection = vec![target];
        assert(self@.selection =~= seq![target]);
    }
}

} // verus!
