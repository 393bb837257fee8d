//! Style changes from the style bar.

use vstd::prelude::*;
use crate::board::{BoardV, BoardView, EditingV};
use crate::board_labels::selected_texts;
use crate::element::{
    copy_list, ElementKind, ElementStyle, ElementV, FillStyle, KindV, LineType, TextAlign,
};
use crate::ids::ElementId;
use crate::scene::{has_id, holds, lemma_place_of, place_of, Scene};
use crate::text::same_text;

verus! {

/// One change to a style.
#[derive(Clone, Copy, Debug)]
pub enum StyleChange<F> {
    Stroke(u32),
    Background(Option<u32>),
    Fill(FillStyle),
    StrokeWidth(F),
    Roughness(F),
    Line(LineType),
}

impl<F> StyleChange<F> {
    /// A style after the change.
    pub open spec fn on(self, s: ElementStyle<F>) -> ElementStyle<F> {
        match self {
            StyleChange::Stroke(c) => ElementStyle { stroke: c, ..s },
            StyleChange::Background(c) => ElementStyle { background: c, ..s },
            StyleChange::Fill(f) => ElementStyle { fill_style: f, ..s },
            StyleChange::StrokeWidth(w) => ElementStyle { stroke_width: w, ..s },
            StyleChange::Roughness(r) => ElementStyle { roughness: r, ..s },
            StyleChange::Line(l) => ElementStyle { line_type: l, ..s },
        }
    }
}

impl<F: Copy> StyleChange<F> {
    /// Changes a style.
    pub fn apply(self, style: ElementStyle<F>) -> (r: ElementStyle<F>)
        ensures
            r == self.on(style),
    {
        let mut s: ElementStyle<F> = style;
        match self {
            StyleChange::Stroke(c) => {
                s.stroke = c;
            },
            StyleChange::Background(c) => {
                s.background = c;
            },
            StyleChange::Fill(f) => {
                s.fill_style = f;
            },
            StyleChange::StrokeWidth(w) => {
                s.stroke_width = w;
            },
            StyleChange::Roughness(v) => {
                s.roughness = v;
            },
            StyleChange::Line(l) => {
                s.line_type = l;
            },
        }
        s
    }
}

/// Whether element `i` is the one that some listed identity names.
pub open spec fn named_at<F>(s: Seq<ElementV<F>>, ids: Seq<ElementId>, i: int) -> bool {
    ids.contains(s[i].id) && place_of(s, s[i].id) == i
}

/// The elements with the named ones changed by `f`.
pub open spec fn changed_where<F>(
    s: Seq<ElementV<F>>,
    ids: Seq<ElementId>,
    f: spec_fn(ElementV<F>) -> ElementV<F>,
) -> Seq<ElementV<F>> {
    Seq::new(
        s.len(),
        |i: int|
            if named_at(s, ids, i) {
                f(s[i])
            } else {
                s[i]
            },
    )
}

/// An element with a changed style; its seed and everything else stay.
pub open spec fn restyled<F>(c: StyleChange<F>) -> spec_fn(ElementV<F>) -> ElementV<F> {
    |e: ElementV<F>| ElementV { style: c.on(e.style), ..e }
}

/// What the text settings of the style bar set.
pub enum TextChange<F> {
    Size(F),
    Family(String),
    Align(TextAlign),
}

/// An element with a changed text setting; only a text changes.
pub open spec fn retyped<F>(c: TextChange<F>) -> spec_fn(ElementV<F>) -> ElementV<F> {
    |e: ElementV<F>|
        match c {
            TextChange::Size(f) => e.with_kind(e.kind.with_font_size(f)),
            TextChange::Family(f) => e.with_kind(e.kind.with_font_family(f@)),
            TextChange::Align(a) => e.with_kind(e.kind.with_align(a)),
        }
}

/// The alignment of an element; left for everything but a text.
pub open spec fn align_of<F>(k: KindV<F>) -> TextAlign {
    match k {
        KindV::Text { text_align, .. } => text_align,
        _ => TextAlign::Left,
    }
}

/// Whether a text setting touches an element: a size always does, a family
/// and an alignment only where they differ.
pub open spec fn touched<F>(c: TextChange<F>, k: KindV<F>) -> bool {
    match c {
        TextChange::Size(_) => true,
        TextChange::Family(f) => match k {
            KindV::Text { font_family, .. } => font_family != f@,
            _ => false,
        },
        TextChange::Align(a) => align_of(k) != a,
    }
}

/// The listed elements that a text setting touches.
pub open spec fn touched_ids<F>(
    s: Seq<ElementV<F>>,
    ids: Seq<ElementId>,
    c: TextChange<F>,
) -> Seq<ElementId>
    decreases ids.len(),
{
    if ids.len() == 0 {
        Seq::empty()
    } else {
        let rest = touched_ids(s, ids.drop_last(), c);
        if has_id(s, ids.last()) && touched(c, s[place_of(s, ids.last())].kind) {
            rest.push(ids.last())
        } else {
            rest
        }
    }
}

impl<F> BoardV<F> {
    /// The board after a style change to the listed elements: it becomes the
    /// style of what is drawn next, and one undoable step when anything is
    /// listed.
    pub open spec fn styled(self, c: StyleChange<F>, ids: Seq<ElementId>) -> Self {
        let b = BoardV { style: c.on(self.style), ..self };
        if ids.len() == 0 {
            b
        } else {
            BoardV {
                scene: changed_where(self.scene, ids, restyled(c)),
                history: self.history.recorded(self.scene),
                dirty: true,
                ..b
            }
        }
    }

    /// The board with a text setting as the default for new text and in the
    /// edit in progress.
    pub open spec fn text_default(self, c: TextChange<F>) -> Self {
        match c {
            TextChange::Size(f) => BoardV {
                text_font_size: f,
                editing: match self.editing {
                    Some(e) => Some(EditingV { font_size: f, ..e }),
                    None => None,
                },
                ..self
            },
            TextChange::Family(f) => BoardV {
                text_font_family: f@,
                editing: match self.editing {
                    Some(e) => Some(EditingV { font_family: f@, ..e }),
                    None => None,
                },
                ..self
            },
            TextChange::Align(a) => BoardV {
                text_align: a,
                editing: match self.editing {
                    Some(e) => Some(EditingV { text_align: a, ..e }),
                    None => None,
                },
                ..self
            },
        }
    }

    /// The board after a text setting was changed: it becomes the default and
    /// applies to the texts that the style bar controls, which are measured
    /// again.
    pub open spec fn text_styled(self, c: TextChange<F>) -> Self {
        let b = self.text_default(c);
        let ids = touched_ids(self.scene, self.panel_texts(), c);
        if ids.len() == 0 {
            b
        } else {
            BoardV {
                scene: changed_where(self.scene, ids, retyped(c)),
                history: self.history.recorded(self.scene),
                pending_measure: self.pending_measure + selected_texts(self.scene, ids),
                dirty: true,
                ..b
            }
        }
    }
}

impl<F: Copy> Scene<F> {
    /// For each element whether some listed identity names it.
    fn named(&self, ids: &Vec<ElementId>) -> (r: Vec<bool>)
        ensures
            r@.len() == self@.len(),
            forall|i: int| 0 <= i < r@.len() ==> #[trigger] r@[i] == named_at(self@, ids@, i),
    {
        let mut r: Vec<bool> = Vec::new();
        let mut i: usize = 0;
        while i < self.elements.len()
            invariant
                i <= self.elements.len(),
                r@.len() == i,
                forall|k: int| 0 <= k < i ==> #[trigger] r@[k] == named_at(self@, ids@, k),
            decreases self.elements.len() - i,
        {
            let id: ElementId = self.elements[i].id;
            assert(self@[i as int].id == id);
            let first: bool = match self.index_of(id) {
                Some(k) => k == i,
                None => false,
            };
            proof {
                lemma_place_of(self@, id);
            }
            r.push(first && holds(ids.as_slice(), id));
            i += 1;
        }
        r
    }

    /// Changes the style of the named elements.
    pub fn restyle(&mut self, ids: &Vec<ElementId>, c: StyleChange<F>)
        ensures
            final(self)@ == changed_where(old(self)@, ids@, restyled(c)),
    {
        let marks: Vec<bool> = self.named(ids);
        let ghost start = self@;
        let n: usize = self.elements.len();
        let mut i: usize = 0;
        while i < n
            invariant
                n == start.len(),
                i <= n,
                marks@.len() == n,
                forall|k: int| 0 <= k < n ==> #[trigger] marks@[k] == named_at(start, ids@, k),
                self@.len() == n,
                forall|k: int|
                    0 <= k < n ==> #[trigger] self@[k] == if k < i {
                        changed_where(start, ids@, restyled(c))[k]
                    } else {
                        start[k]
                    },
            decreases n - i,
        {
            let ghost now = self@;
            assert(now[i as int] == self.elements@[i as int]@);
            if marks[i] {
                self.elements[i].style = c.apply(self.elements[i].style);
                assert(self@ =~= now.update(i as int, restyled(c)(now[i as int])));
            }
            i += 1;
        }
        assert(self@ =~= changed_where(start, ids@, restyled(c)));
    }

    /// Changes a text setting of the named elements.
    pub fn retype(&mut self, ids: &Vec<ElementId>, c: &TextChange<F>)
        ensures
            final(self)@ == changed_where(old(self)@, ids@, retyped(*c)),
    {
        let marks: Vec<bool> = self.named(ids);
        let ghost start = self@;
        let n: usize = self.elements.len();
        let mut i: usize = 0;
        while i < n
            invariant
                n == start.len(),
                i <= n,
                marks@.len() == n,
                forall|k: int| 0 <= k < n ==> #[trigger] marks@[k] == named_at(start, ids@, k),
                self@.len() == n,
                forall|k: int|
                    0 <= k < n ==> #[trigger] self@[k] == if k < i {
                        changed_where(start, ids@, retyped(*c))[k]
                    } else {
                        start[k]
                    },
            decreases n - i,
        {
            let ghost now = self@;
            assert(now[i as int] == self.elements@[i as int]@);
            if marks[i] {
                match c {
                    TextChange::Size(f) => self.elements[i].set_font_size(*f),
                    TextChange::Family(f) => self.elements[i].set_font_family(f.clone()),
                    TextChange::Align(a) => self.elements[i].set_text_align(*a),
                }
                assert(self@ =~= now.update(i as int, retyped(*c)(now[i as int])));
            }
            i += 1;
        }
        assert(self@ =~= changed_where(start, ids@, retyped(*c)));
    }

    /// The listed elements that a text setting touches.
    pub fn touched_by(&self, ids: &Vec<ElementId>, c: &TextChange<F>) -> (r: Vec<ElementId>)
        ensures
            r@ == touched_ids(self@, ids@, *c),
    {
        let mut r: Vec<ElementId> = Vec::new();
        let mut i: usize = 0;
        assert(ids@.take(0) =~= Seq::<ElementId>::empty());
        while i < ids.len()
            invariant
                i <= ids.len(),
                r@ == touched_ids(self@, ids@.take(i as int), *c),
            decreases ids.len() - i,
        {
            assert(ids@.take(i + 1).drop_last() =~= ids@.take(i as int));
            let hit: bool = match self.get(ids[i]) {
                Some(el) => match c {
                    TextChange::Size(_) => true,
                    TextChange::Family(f) => match &el.kind {
                        ElementKind::Text { font_family, .. } => !same_text(
                            font_family.as_str(),
                            f.as_str(),
                        ),
                        _ => false,
                    },
                    TextChange::Align(a) => el.text_align() != *a,
                },
                None => false,
            };
            if hit {
                r.push(ids[i]);
            }
            i += 1;
        }
        assert(ids@.take(ids@.len() as int) =~= ids@);
        r
    }
}

impl<F: Copy> BoardView<F> {
    /// Changes the style of the listed elements, and of what is drawn next.
    fn restyle_ids(&mut self, c: StyleChange<F>, ids: &Vec<ElementId>)
        ensures
            final(self)@ == old(self)@.styled(c, ids@),
    {
        self.style = c.apply(self.style);
        if ids.len() > 0 {
            self.record();
            self.scene.restyle(ids, c);
            self.dirty = true;
        }
    }

    /// Changes the style of the selected elements, and of what is drawn next.
    pub fn apply_style_to_selection(&mut self, c: StyleChange<F>)
        ensures
            final(self)@ == old(self)@.styled(c, old(self)@.selection),
    {
        let ids: Vec<ElementId> = copy_list(&self.selection);
        self.restyle_ids(c, &ids);
    }

    /// Changes a shape setting of the selection, or of the containers when
    /// only labels are selected.
    pub fn apply_shape_style(&mut self, c: StyleChange<F>)
        ensures
            final(self)@ == old(self)@.styled(c, old(self)@.panel_shapes()),
    {
        let ids: Vec<ElementId> = self.panel_shape_ids();
        self.restyle_ids(c, &ids);
    }

    fn set_default_size(&mut self, f: F)
        ensures
            final(self)@ == old(self)@.text_default(TextChange::Size(f)),
    {
        self.text_font_size = f;
        if let Some(e) = &mut self.editing {
            e.font_size = f;
        }
    }

    fn set_default_family(&mut self, f: &String)
        ensures
            final(self)@ == old(self)@.text_default(TextChange::Family(*f)),
    {
        self.text_font_family = f.clone();
        if let Some(e) = &mut self.editing {
            e.font_family = f.clone();
        }
    }

    fn set_default_align(&mut self, a: TextAlign)
        ensures
            final(self)@ == old(self)@.text_default(TextChange::Align(a)),
    {
        self.text_align = a;
        if let Some(e) = &mut self.editing {
            e.text_align = a;
        }
    }

    /// Makes a text setting the default, also of the edit in progress.
    fn set_text_default(&mut self, c: &TextChange<F>)
        ensures
            final(self)@ == old(self)@.text_default(*c),
    {
        match c {
            TextChange::Size(f) => self.set_default_size(*f),
            TextChange::Family(f) => self.set_default_family(f),
            TextChange::Align(a) => self.set_default_align(*a),
        }
    }

    /// The listed elements that are texts.
    fn texts_among(&self, ids: &Vec<ElementId>) -> (r: Vec<ElementId>)
        ensures
            r@ == selected_texts(self@.scene, ids@),
    {
        let mut r: Vec<ElementId> = Vec::new();
        let mut i: usize = 0;
        assert(ids@.take(0) =~= Seq::<ElementId>::empty());
        while i < ids.len()
            invariant
                i <= ids.len(),
                r@ == selected_texts(self@.scene, ids@.take(i as int)),
            decreases ids.len() - i,
        {
            assert(ids@.take(i + 1).drop_last() =~= ids@.take(i as int));
            let text: bool = match self.scene.get(ids[i]) {
                Some(e) => e.is_text(),
                None => false,
            };
            if text {
                r.push(ids[i]);
            }
            i += 1;
        }
        assert(ids@.take(ids@.len() as int) =~= ids@);
        r
    }

    /// Changes a text setting: the size, the family or the alignment.
    pub fn apply_style_to_text(&mut self, c: &TextChange<F>)
        ensures
            final(self)@ == old(self)@.text_styled(*c),
    {
        let all: Vec<ElementId> = self.panel_text_ids();
        let ids: Vec<ElementId> = self.scene.touched_by(&all, c);
        let mut texts: Vec<ElementId> = self.texts_among(&ids);
        self.set_text_default(c);
        if ids.len() > 0 {
            self.record();
            self.scene.retype(&ids, c);
            self.pending_measure.append(&mut texts);
            self.dirty = true;
        }
    }

    /// Sets the font family of the controlled texts and of new text.
    pub fn set_text_font(&mut self, family: &str)
        ensures
            exists|f: String|
                f@ == family@ && final(self)@ == #[trigger] old(self)@.text_styled(
                    TextChange::Family(f),
                ),
    {
        let f: String = family.to_owned();
        let c: TextChange<F> = TextChange::Family(f);
        self.apply_style_to_text(&c);
    }

    /// Sets the alignment of the controlled texts and of new text.
    pub fn set_text_align(&mut self, align: TextAlign)
        ensures
            final(self)@ == old(self)@.text_styled(TextChange::Align(align)),
    {
        let c: TextChange<F> = TextChange::Align(align);
        self.apply_style_to_text(&c);
    }

    /// Turns tapering of new freehand strokes on or off.
    pub fn toggle_taper(&mut self)
        ensures
            final(self)@ == (BoardV { pen_taper: !old(self)@.pen_taper, ..old(self)@ }),
    {
        self.pen_taper = !self.pen_taper;
    }

    /// Shows or hides the grid.
    pub fn toggle_grid(&mut self)
        ensures
            final(self)@ == (BoardV {
                show_grid: !old(self)@.show_grid,
                dirty: true,
                ..old(self)@
            }),
    {
        self.show_grid = !self.show_grid;
        self.dirty = true;
    }

    /// Opens menu `i` of the in-app menu bar, or closes it when it is open.
    pub fn toggle_menu(&mut self, i: usize)
        ensures
            final(self)@ == (BoardV {
                menubar_open: if old(self)@.menubar_open == Some(i) {
                    None
                } else {
                    Some(i)
                },
                ..old(self)@
            }),
    {
        let open: bool = match self.menubar_open {
            Some(k) => k == i,
            None => false,
        };
        self.menubar_open = if open {
            None
        } else {
            Some(i)
        };
    }
}

proof fn lemma_untouched<F>(s: Seq<ElementV<F>>, ids: Seq<ElementId>, c: TextChange<F>)
    requires
        forall|i: int|
            0 <= i < ids.len() && has_id(s, #[trigger] ids[i]) ==> !touched(
                c,
                s[place_of(s, ids[i])].kind,
            ),
    ensures
        touched_ids(s, ids, c).len() == 0,
    decreases ids.len(),
{
    if ids.len() > 0 {
        let rest = ids.drop_last();
        assert forall|i: int|
            0 <= i < rest.len() && has_id(s, #[trigger] rest[i]) implies !touched(
            c,
            s[place_of(s, rest[i])].kind,
        ) by {
            assert(rest[i] == ids[i]);
        }
        lemma_untouched(s, rest, c);
        assert(ids[ids.len() - 1] == ids.last());
    }
}

/// Choosing the family or the alignment that every controlled text has
/// already only sets the default: no scene change and no step in the history.
pub proof fn law_repeated_text_choices_leave_no_step<F>(b: BoardV<F>, c: TextChange<F>)
    requires
        forall|i: int|
            0 <= i < b.panel_texts().len() && has_id(b.scene, #[trigger] b.panel_texts()[i])
                ==> !touched(c, b.scene[place_of(b.scene, b.panel_texts()[i])].kind),
    ensures
        b.text_styled(c) == b.text_default(c),
        b.text_styled(c).history == b.history,
        b.text_styled(c).scene == b.scene,
{
    lemma_untouched(b.scene, b.panel_texts(), c);
}

/// A style change keeps every seed, identity, box and kind, so shapes do not
/// jitter anew.
pub proof fn law_style_changes_keep_shapes<F>(
    b: BoardV<F>,
    c: StyleChange<F>,
    ids: Seq<ElementId>,
    i: int,
)
    requires
        0 <= i < b.scene.len(),
    ensures
        b.styled(c, ids).scene.len() == b.scene.len(),
        b.styled(c, ids).scene[i] == (ElementV {
            style: b.styled(c, ids).scene[i].style,
            ..b.scene[i]
        }),
{
}

} // verus!
