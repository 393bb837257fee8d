//! What the style bar acts on, and how labels follow their containers.

use vstd::prelude::*;
use crate::board::{BoardV, BoardView};
use crate::board_text::Fresh;
use crate::element::{copy_list, remove_point_spec, Element, ElementV, WBounds, WPoint};
use crate::ids::ElementId;
use crate::templates::line_end;
use crate::text::chars_of;
use crate::scene::{has_id, holds, lemma_place_of, place_of, Scene};

verus! {

/// The listed elements that are texts.
pub open spec fn selected_texts<F>(s: Seq<ElementV<F>>, ids: Seq<ElementId>) -> Seq<ElementId>
    decreases ids.len(),
{
    if ids.len() == 0 {
        Seq::empty()
    } else {
        let rest = selected_texts(s, ids.drop_last());
        if has_id(s, ids.last()) && s[place_of(s, ids.last())].kind is Text {
            rest.push(ids.last())
        } else {
            rest
        }
    }
}

/// `ids` with the labels of the selected containers behind it, in paint
/// order, each once.
pub open spec fn with_labels<F>(
    ids: Seq<ElementId>,
    s: Seq<ElementV<F>>,
    selection: Seq<ElementId>,
) -> Seq<ElementId>
    decreases s.len(),
{
    if s.len() == 0 {
        ids
    } else {
        let rest = with_labels(ids, s.drop_last(), selection);
        let e = s.last();
        if e.kind.bound_to() matches Some(c) && selection.contains(c) && !rest.contains(e.id) {
            rest.push(e.id)
        } else {
            rest
        }
    }
}

/// Whether `id` is a label whose container is in the scene.
pub open spec fn live_label<F>(s: Seq<ElementV<F>>, id: ElementId) -> bool {
    has_id(s, id) && (s[place_of(s, id)].kind.bound_to() matches Some(c) && has_id(s, c))
}

/// The container of the label `id`.
pub open spec fn container_of<F>(s: Seq<ElementV<F>>, id: ElementId) -> ElementId {
    match s[place_of(s, id)].kind.bound_to() {
        Some(c) => c,
        None => id,
    }
}

/// Whether only labels are selected.
pub open spec fn labels_only<F>(s: Seq<ElementV<F>>, selection: Seq<ElementId>) -> bool {
    selection.len() > 0 && forall|i: int|
        0 <= i < selection.len() ==> live_label(s, #[trigger] selection[i])
}

/// Whether an element is a label that follows one of the listed containers.
pub open spec fn follows<F>(s: Seq<ElementV<F>>, ids: Seq<ElementId>, e: ElementV<F>) -> bool {
    !ids.contains(e.id) && (e.kind.bound_to() matches Some(c) && ids.contains(c) && has_id(s, c))
}

/// An element after the containers changed: a label that follows one of them
/// wraps to its new width.
pub open spec fn rewrapped<F>(s: Seq<ElementV<F>>, ids: Seq<ElementId>, wrap: F, e: ElementV<F>) -> ElementV<F> {
    if follows(s, ids, e) {
        e.with_kind(e.kind.with_box(Some(wrap), e.kind.height_floor()))
    } else {
        e
    }
}

/// The identities of the labels that follow the listed containers, among the
/// first `n` elements.
pub open spec fn followers<F>(s: Seq<ElementV<F>>, ids: Seq<ElementId>, n: int) -> Seq<ElementId>
    decreases n,
{
    if n <= 0 {
        Seq::empty()
    } else if follows(s, ids, s[n - 1]) {
        followers(s, ids, n - 1).push(s[n - 1].id)
    } else {
        followers(s, ids, n - 1)
    }
}

impl<F> BoardV<F> {
    /// The texts that the style bar controls.
    pub open spec fn panel_texts(self) -> Seq<ElementId> {
        with_labels(selected_texts(self.scene, self.selection), self.scene, self.selection)
    }

    /// The elements that the shape settings act on: the selection, or the
    /// containers when only labels are selected.
    pub open spec fn panel_shapes(self) -> Seq<ElementId> {
        if labels_only(self.scene, self.selection) {
            Seq::new(
                self.selection.len(),
                |i: int| container_of(self.scene, self.selection[i]),
            )
        } else {
            self.selection
        }
    }

    /// The board after the listed containers changed their size: their labels
    /// wrap to `wraps` (one width per element) and are measured again.
    pub open spec fn relabelled(self, ids: Seq<ElementId>, wraps: Seq<F>) -> Self {
        BoardV {
            scene: Seq::new(
                self.scene.len(),
                |i: int| rewrapped(self.scene, ids, wraps[i], self.scene[i]),
            ),
            pending_measure: self.pending_measure + followers(
                self.scene,
                ids,
                self.scene.len() as int,
            ),
            ..self
        }
    }
}

impl<F: Copy> BoardView<F> {
    /// The texts that the style bar controls: selected texts, then the labels
    /// of selected containers.
    pub fn panel_text_ids(&self) -> (r: Vec<ElementId>)
        ensures
            r@ == self@.panel_texts(),
    {
        let mut ids: Vec<ElementId> = Vec::new();
        let mut i: usize = 0;
        assert(self.selection@.take(0) =~= Seq::<ElementId>::empty());
        while i < self.selection.len()
            invariant
                i <= self.selection.len(),
                ids@ == selected_texts(self@.scene, self.selection@.take(i as int)),
            decreases self.selection.len() - i,
        {
            assert(self.selection@.take(i + 1).drop_last() =~= self.selection@.take(i as int));
            let text: bool = match self.scene.get(self.selection[i]) {
                Some(e) => e.is_text(),
                None => false,
            };
            if text {
                ids.push(self.selection[i]);
            }
            i += 1;
        }
        assert(self.selection@.take(self.selection@.len() as int) =~= self.selection@);
        let ghost texts = ids@;
        let mut k: usize = 0;
        assert(self@.scene.take(0) =~= Seq::<ElementV<F>>::empty());
        while k < self.scene.elements.len()
            invariant
                k <= self.scene.elements.len(),
                ids@ == with_labels(texts, self@.scene.take(k as int), self.selection@),
            decreases self.scene.elements.len() - k,
        {
            assert(self@.scene.take(k + 1).drop_last() =~= self@.scene.take(k as int));
            assert(self@.scene.take(k + 1).last() == self.scene.elements@[k as int]@);
            let el: &Element<F> = &self.scene.elements[k];
            match el.container_id() {
                Some(c) => {
                    if holds(self.selection.as_slice(), c) && !holds(ids.as_slice(), el.id) {
                        ids.push(el.id);
                    }
                },
                None => {},
            }
            k += 1;
        }
        assert(self@.scene.take(self@.scene.len() as int) =~= self@.scene);
        ids
    }

    /// The elements that stroke width and roughness act on.
    pub fn panel_shape_ids(&self) -> (r: Vec<ElementId>)
        ensures
            r@ == self@.panel_shapes(),
    {
        let n: usize = self.selection.len();
        let mut containers: Vec<ElementId> = Vec::new();
        let mut i: usize = 0;
        while i < n
            invariant
                n == self.selection.len(),
                i <= n,
                containers@.len() == i,
                forall|k: int|
                    0 <= k < i ==> live_label(self@.scene, #[trigger] self.selection@[k])
                        && containers@[k] == container_of(self@.scene, self.selection@[k]),
            decreases n - i,
        {
            let id: ElementId = self.selection[i];
            let c: Option<ElementId> = match self.scene.get(id) {
                Some(e) => match e.container_id() {
                    Some(c) => if self.scene.contains(c) {
                        Some(c)
                    } else {
                        None
                    },
                    None => None,
                },
                None => None,
            };
            match c {
                Some(c) => {
                    containers.push(c);
                },
                None => {
                    assert(!live_label(self@.scene, self.selection@[i as int]));
                    assert(!labels_only(self@.scene, self.selection@));
                    return copy_list(&self.selection);
                },
            }
            i += 1;
        }
        if n == 0 {
            return Vec::new();
        }
        assert(labels_only(self@.scene, self.selection@));
        assert(containers@ =~= self@.panel_shapes());
        containers
    }

    /// Wraps the labels of the listed containers to their new width (`wraps`
    /// holds one width per element) and queues them for measuring.
    pub fn update_container_labels(&mut self, ids: &Vec<ElementId>, wraps: &Vec<F>)
        requires
            wraps@.len() == old(self)@.scene.len(),
        ensures
            final(self)@ == old(self)@.relabelled(ids@, wraps@),
    {
        let ghost b = self@;
        let n: usize = self.scene.elements.len();
        let before: Scene<F> = Scene { elements: crate::scene::copy_elements(&self.scene.elements) };
        assert(before@ =~= b.scene);
        let mut i: usize = 0;
        assert(self@.pending_measure =~= b.pending_measure + followers(b.scene, ids@, 0));
        while i < n
            invariant
                n == b.scene.len(),
                before@ == b.scene,
                wraps@.len() == n,
                i <= n,
                self@.scene.len() == n,
                forall|k: int|
                    0 <= k < n ==> #[trigger] self@.scene[k] == if k < i {
                        rewrapped(b.scene, ids@, wraps@[k], b.scene[k])
                    } else {
                        b.scene[k]
                    },
                self@ == (BoardV {
                    scene: self@.scene,
                    pending_measure: b.pending_measure + followers(b.scene, ids@, i as int),
                    ..b
                }),
            decreases n - i,
        {
            let ghost now = self@;
            assert(self@.scene[i as int] == self.scene.elements@[i as int]@);
            assert(before@[i as int] == before.elements@[i as int]@);
            let el: &Element<F> = &before.elements[i];
            let hit: bool = match el.container_id() {
                Some(c) => !holds(ids.as_slice(), el.id) && holds(ids.as_slice(), c)
                    && before.contains(c),
                None => false,
            };
            assert(hit == follows(b.scene, ids@, b.scene[i as int]));
            if hit {
                let id: ElementId = el.id;
                let height: Option<F> = el.min_height();
                self.scene.elements[i].set_text_box(Some(wraps[i]), height);
                self.pending_measure.push(id);
                assert(self@.scene =~= now.scene.update(
                    i as int,
                    rewrapped(b.scene, ids@, wraps@[i as int], b.scene[i as int]),
                ));
                assert(self@.pending_measure =~= b.pending_measure + followers(
                    b.scene,
                    ids@,
                    i + 1,
                ));
            }
            i += 1;
        }
        assert(self@ =~= b.relabelled(ids@, wraps@));
    }
}

impl<F> BoardV<F> {
    /// Whether the first selected element is a polyline that can lose a
    /// vertex.
    pub open spec fn vertex_can_go(self) -> bool {
        self.selection.len() > 0 && has_id(self.scene, self.selection[0]) && {
            let k = self.scene[place_of(self.scene, self.selection[0])].kind;
            k.point_based() && k.points().len() > 2
        }
    }

    /// The first selected element without vertex `index`; `points` are its
    /// points before, relative to the box that is left.
    pub open spec fn without_vertex(
        self,
        index: int,
        points: Seq<WPoint<F>>,
        bounds: WBounds<F>,
    ) -> ElementV<F> {
        let el = self.scene[place_of(self.scene, self.selection[0])];
        if index < el.kind.points().len() {
            ElementV {
                bounds,
                kind: remove_point_spec(el.kind, index).with_points(points.remove(index)),
                ..el
            }
        } else {
            el
        }
    }

    /// The board after vertex `index` of the first selected element was
    /// deleted.
    pub open spec fn vertex_deleted(
        self,
        index: int,
        points: Seq<WPoint<F>>,
        bounds: WBounds<F>,
        wraps: Seq<F>,
    ) -> Self {
        if !self.vertex_can_go() {
            self
        } else {
            let id = self.selection[0];
            let b = BoardV {
                scene: self.scene.update(
                    place_of(self.scene, id),
                    self.without_vertex(index, points, bounds),
                ),
                history: self.history.recorded(self.scene),
                ..self
            };
            BoardV { context_menu: None, dirty: true, ..b.relabelled(seq![id], wraps) }
        }
    }
}

impl<F: Copy> BoardView<F> {
    /// Deletes vertex `index` of the first selected element, which keeps at
    /// least two points; its labels follow. `points` are its points so far
    /// and `bounds` its box, as they are without the vertex.
    pub fn delete_vertex(
        &mut self,
        index: usize,
        points: Vec<WPoint<F>>,
        bounds: WBounds<F>,
        wraps: &Vec<F>,
    )
        requires
            wraps@.len() == old(self)@.scene.len(),
            old(self)@.vertex_can_go() ==> points@.len() == old(self)@.scene[place_of(
                old(self)@.scene,
                old(self)@.selection[0],
            )].kind.points().len(),
        ensures
            final(self)@ == old(self)@.vertex_deleted(index as int, points@, bounds, wraps@),
    {
        if self.selection.len() == 0 {
            return;
        }
        let id: ElementId = self.selection[0];
        let can: bool = match self.scene.get(id) {
            Some(el) => el.is_point_based() && el.point_count() > 2,
            None => false,
        };
        if !can {
            return;
        }
        let ghost start = self@;
        proof {
            lemma_place_of(start.scene, id);
        }
        self.record();
        let mut left: Vec<WPoint<F>> = points;
        match self.scene.get_mut(id) {
            Some(el) => {
                let gone: bool = el.remove_point(index);
                if gone {
                    let _vertex: WPoint<F> = left.remove(index);
                    el.replace_points(left, bounds);
                }
            },
            None => {},
        }
        assert(self@.scene =~= start.scene.update(
            place_of(start.scene, id),
            start.without_vertex(index as int, points@, bounds),
        ));
        let ids: Vec<ElementId> = vec![id];
        assert(ids@ =~= seq![id]);
        self.update_container_labels(&ids, wraps);
        self.context_menu = None;
        self.dirty = true;
    }

    /// Adds a text with generated content: `at` is its corner, `w` and `h`
    /// its estimated extent. It becomes the selection.
    pub fn insert_text(
        &mut self,
        text: String,
        at: WPoint<F>,
        w: F,
        h: F,
        zero: F,
        fresh: Fresh,
    )
        ensures
            final(self)@ == old(self)@.text_inserted(text@, at, w, h, zero, fresh),
    {
        self.record();
        let mut el: Element<F> = self.new_text_element(at, text, zero, h, fresh);
        el.bounds.w = w;
        let id: ElementId = self.scene.add(el);
        self.pending_measure.push(id);
        self.selection = vec![id];
        assert(self@.selection =~= seq![id]);
        self.dirty = true;
    }

    /// Adds a text with generated content under a random identity.
    pub fn insert_ai_text(&mut self, text: String, at: WPoint<F>, w: F, h: F, zero: F)
        ensures
            exists|fresh: Fresh|
                fresh.drawn() && final(self)@ == #[trigger] old(self)@.text_inserted(
                    text@,
                    at,
                    w,
                    h,
                    zero,
                    fresh,
                ),
    {
        let fresh: Fresh = Fresh::draw();
        self.insert_text(text, at, w, h, zero, fresh);
    }
}

impl<F> BoardV<F> {
    /// The board after a text with generated content was added and selected.
    pub open spec fn text_inserted(
        self,
        text: Seq<char>,
        at: WPoint<F>,
        w: F,
        h: F,
        zero: F,
        fresh: Fresh,
    ) -> Self {
        let el = self.text_element(at, text, zero, h, fresh);
        BoardV {
            scene: self.scene.push(ElementV { bounds: WBounds { w, ..el.bounds }, ..el }),
            history: self.history.recorded(self.scene),
            pending_measure: self.pending_measure.push(fresh.id),
            selection: seq![fresh.id],
            dirty: true,
            ..self
        }
    }
}

/// The widths in characters of the lines of a text. Lines end at a line feed,
/// with or without a carriage return before it; one at the very end opens no
/// further line.
pub open spec fn line_widths(s: Seq<char>) -> Seq<nat>
    decreases s.len(),
{
    let n = line_end(s, 0);
    if s.len() == 0 || !(0 <= n <= s.len()) {
        Seq::empty()
    } else if n < s.len() {
        seq![
            if n > 0 && s[n - 1] == '\r' {
                (n - 1) as nat
            } else {
                n as nat
            },
        ] + line_widths(s.skip(n + 1))
    } else {
        seq![s.len()]
    }
}

/// The largest of some widths.
pub open spec fn widest(s: Seq<nat>) -> nat
    decreases s.len(),
{
    if s.len() == 0 {
        0
    } else if widest(s.drop_last()) > s.last() {
        widest(s.drop_last())
    } else {
        s.last()
    }
}

/// The number of lines of a text and the characters of the longest: one each
/// for an empty text.
pub open spec fn extent_of(s: Seq<char>) -> (nat, nat) {
    let w = line_widths(s);
    if w.len() == 0 {
        (1, 1)
    } else {
        (w.len(), widest(w))
    }
}

/// The number of lines of a text and the characters of the longest line, from
/// which the box of a new text is estimated.
pub fn text_extent(text: &str) -> (r: (usize, usize))
    ensures
        r.0 == extent_of(text@).0,
        r.1 == extent_of(text@).1,
{
    let chars: Vec<char> = chars_of(text);
    let n: usize = chars.len();
    let mut lines: usize = 0;
    let mut most: usize = 0;
    let mut start: usize = 0;
    let ghost mut done: Seq<nat> = Seq::empty();
    assert(text@.skip(0) =~= text@);
    assert(done + line_widths(text@) =~= line_widths(text@));
    while start < n
        invariant
            chars@ == text@,
            n == chars@.len(),
            start <= n,
            lines == done.len(),
            lines <= start,
            most == widest(done),
            done + line_widths(text@.skip(start as int)) == line_widths(text@),
        decreases n - start,
    {
        let ghost s = text@.skip(start as int);
        let mut end: usize = start;
        while end < n && chars[end] != '\n'
            invariant
                chars@ == text@,
                n == chars@.len(),
                start <= end <= n,
                s == text@.skip(start as int),
                line_end(s, 0) == line_end(s, end - start),
            decreases n - end,
        {
            assert(s[end - start] == chars@[end as int]);
            end += 1;
        }
        let m: usize = end - start;
        assert(line_end(s, 0) == m) by {
            if end < n {
                assert(s[m as int] == chars@[end as int]);
            }
        }
        let width: usize = if end < n && m > 0 && chars[end - 1] == '\r' {
            m - 1
        } else {
            m
        };
        proof {
            if m > 0 {
                assert(s[m - 1] == chars@[end - 1]);
            }
            let before = done;
            let rest = if end < n {
                line_widths(s.skip(m + 1))
            } else {
                Seq::empty()
            };
            assert(line_widths(s) =~= seq![width as nat] + rest);
            done = done.push(width as nat);
            assert(done + rest =~= before + line_widths(s));
            assert(done.drop_last() =~= before);
            if end < n {
                assert(s.skip(m + 1) =~= text@.skip(end + 1));
            } else {
                assert(text@.skip(n as int) =~= Seq::<char>::empty());
            }
        }
        lines += 1;
        if width > most {
            most = width;
        }
        start = if end < n {
            end + 1
        } else {
            n
        };
    }
    assert(text@.skip(n as int) =~= Seq::<char>::empty());
    assert(done + Seq::<nat>::empty() =~= done);
    if lines == 0 {
        (1, 1)
    } else {
        (lines, most)
    }
}

} // verus!
