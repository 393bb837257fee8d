//! What is painted: the elements in order, the overlays, and the text that is
//! being edited.

use vstd::prelude::*;
use crate::board::{ActiveTool, BoardV, BoardView, DragState, DragV, PointTarget};
use crate::board_text::Measured;
use crate::element::{Element, ElementKind, ElementV, KindV, WBounds};
use crate::ids::ElementId;
use crate::scene::{has_id, place_of};
use crate::wrap::Span;

verus! {

/// An element to paint: its place in the scene, as text or by its geometry.
#[derive(Clone, Copy, Debug, PartialEq, Eq, Structural)]
pub enum PaintItem {
    Text(usize),
    Path(usize),
}

/// The elements to paint among the first `n`: the visible ones, without the
/// one that is being edited.
pub open spec fn items_upto<F>(
    s: Seq<ElementV<F>>,
    visible: Seq<bool>,
    editing: Option<ElementId>,
    n: nat,
) -> Seq<PaintItem>
    decreases n,
{
    if n == 0 {
        Seq::empty()
    } else {
        let rest = items_upto(s, visible, editing, (n - 1) as nat);
        let i = n - 1;
        if !visible[i] || editing == Some(s[i].id) {
            rest
        } else if s[i].kind is Text {
            rest.push(PaintItem::Text(i as usize))
        } else {
            rest.push(PaintItem::Path(i as usize))
        }
    }
}

/// Everything that a frame shows besides coordinates.
#[derive(Debug)]
pub struct PaintPlan {
    /// The surface colour, when it is not the default.
    pub background: Option<u32>,
    pub grid: bool,
    pub items: Vec<PaintItem>,
    /// The draft of a shape is painted over the elements.
    pub draft: bool,
    /// The freehand stroke in progress is painted over them.
    pub stroke: bool,
    /// The frame around the selection, with its resize handles.
    pub frame: bool,
    /// The control points of the selected line, with the marked one.
    pub points: bool,
    pub marked_point: Option<PointTarget>,
    pub rubber_band: bool,
    /// The edited text is painted by its edit.
    pub editing: bool,
    /// A dashed frame goes around the edited text: not around a label, whose
    /// container frames it.
    pub edit_frame: bool,
}

impl<F> BoardV<F> {
    /// The element that is being edited.
    pub open spec fn edited_id(self) -> Option<ElementId> {
        match self.editing {
            Some(e) => Some(e.element_id),
            None => None,
        }
    }

    /// Whether the selection is overlaid: with the select tool, while no text
    /// is edited, when something selected is there.
    pub open spec fn overlaid(self) -> bool {
        self.selection.len() > 0 && self.tool == ActiveTool::Select && self.editing is None
            && self.has_box()
    }

    /// The control point to mark: the dragged one (a dragged midpoint has
    /// become the vertex behind it), or the hovered one.
    pub open spec fn point_to_mark(self) -> Option<PointTarget> {
        match self.drag {
            DragV::EditingPoint { target, .. } => Some(
                match target {
                    PointTarget::Midpoint(seg) => PointTarget::Vertex((seg + 1) as usize),
                    t => t,
                },
            ),
            _ => self.hover_point,
        }
    }

    /// Whether the edited text is there to be painted.
    pub open spec fn edit_shows(self) -> bool {
        self.editing matches Some(e) && has_id(self.scene, e.element_id)
    }

    /// The stroke in progress has something to show.
    pub open spec fn stroke_shows(self) -> bool {
        self.drag matches DragV::Freedraw { collector, .. } && collector.points.len() > 0
    }
}

impl<F: Copy> BoardView<F> {
    fn paint_items(&self, visible: &Vec<bool>) -> (r: Vec<PaintItem>)
        requires
            visible@.len() == self@.scene.len(),
        ensures
            r@ == items_upto(self@.scene, visible@, self@.edited_id(), self@.scene.len()),
    {
        let edited: Option<ElementId> = match &self.editing {
            Some(e) => Some(e.element_id),
            None => None,
        };
        let mut r: Vec<PaintItem> = Vec::new();
        let mut i: usize = 0;
        while i < self.scene.elements.len()
            invariant
                i <= self.scene.elements.len(),
                visible@.len() == self@.scene.len(),
                edited == self@.edited_id(),
                r@ == items_upto(self@.scene, visible@, edited, i as nat),
            decreases self.scene.elements.len() - i,
        {
            let el: &Element<F> = &self.scene.elements[i];
            assert(self@.scene[i as int] == el@);
            let hidden: bool = match edited {
                Some(id) => id == el.id,
                None => false,
            };
            if visible[i] && !hidden {
                if el.is_text() {
                    r.push(PaintItem::Text(i));
                } else {
                    r.push(PaintItem::Path(i));
                }
            }
            i += 1;
        }
        r
    }

    /// What a frame shows; `visible` says of each element whether it touches
    /// the viewport.
    pub fn build_paint(&self, visible: &Vec<bool>) -> (r: PaintPlan)
        requires
            visible@.len() == self@.scene.len(),
            self@.drag matches DragV::EditingPoint { target, .. } ==> target
                matches PointTarget::Midpoint(seg) ==> seg < usize::MAX,
        ensures
            r.background == self@.canvas_background,
            r.grid == self@.show_grid,
            r.items@ == items_upto(self@.scene, visible@, self@.edited_id(), self@.scene.len()),
            r.draft == (self@.draft is Some),
            r.stroke == self@.stroke_shows(),
            r.frame == (self@.overlaid() && !(self@.drag is EditingPoint)),
            r.points == (self@.overlaid() && self@.selected_line() is Some),
            r.marked_point == self@.point_to_mark(),
            r.rubber_band == (self@.drag is Marquee),
            r.editing == self@.edit_shows(),
            r.edit_frame == (self@.edit_shows() && self@.editing->Some_0.container_id is None),
    {
        let live: Vec<Element<F>> = self.selected_elements();
        let boxed: bool = live.len() > 0;
        assert(boxed == self@.has_box());
        let overlaid: bool = self.selection.len() > 0 && self.tool == ActiveTool::Select
            && self.editing.is_none() && boxed;
        let mut dragging_point: bool = false;
        let mut marked_point: Option<PointTarget> = self.hover_point;
        let mut stroke: bool = false;
        let mut rubber_band: bool = false;
        match &self.drag {
            DragState::EditingPoint { target, .. } => {
                dragging_point = true;
                marked_point = Some(
                    match target {
                        PointTarget::Midpoint(seg) => PointTarget::Vertex(*seg + 1),
                        PointTarget::Vertex(i) => PointTarget::Vertex(*i),
                    },
                );
            },
            DragState::Freedraw { collector, .. } => {
                stroke = collector.len() > 0;
            },
            DragState::Marquee { .. } => {
                rubber_band = true;
            },
            _ => {},
        }
        let (editing, edit_frame): (bool, bool) = match &self.editing {
            Some(e) => {
                let there: bool = self.scene.contains(e.element_id);
                (there, there && e.container_id.is_none())
            },
            None => (false, false),
        };
        PaintPlan {
            background: self.canvas_background,
            grid: self.show_grid,
            items: self.paint_items(visible),
            draft: self.draft.is_some(),
            stroke,
            frame: overlaid && !dragging_point,
            points: overlaid && self.selected_line_id().is_some(),
            marked_point,
            rubber_band,
            editing,
            edit_frame,
        }
    }
}

/// A part of a line of text: the line, and where the part begins and ends in
/// it, in bytes.
#[derive(Clone, Copy, Debug, PartialEq, Eq, Structural)]
pub struct LinePart {
    pub line: usize,
    pub start: usize,
    pub end: usize,
}


/// The part of line `i` that lies in the byte range; an empty part counts only
/// when `touching` says so.
pub open spec fn line_part(lines: Seq<Span>, i: int, start: int, end: int, touching: bool) -> Option<
    (int, int, int),
> {
    let l = lines[i];
    let a = if start > l.start {
        start
    } else {
        l.start as int
    };
    let b = if end < l.end {
        end
    } else {
        l.end as int
    };
    if a < b || (touching && a == b) {
        Some((i, a - l.start, b - l.start))
    } else {
        None
    }
}

/// The parts of the first `n` lines that lie in the byte range.
pub open spec fn parts_upto(
    lines: Seq<Span>,
    start: int,
    end: int,
    touching: bool,
    n: nat,
) -> Seq<(int, int, int)>
    decreases n,
{
    if n == 0 {
        Seq::empty()
    } else {
        let rest = parts_upto(lines, start, end, touching, (n - 1) as nat);
        match line_part(lines, n - 1, start, end, touching) {
            Some(p) => rest.push(p),
            None => rest,
        }
    }
}

/// The values of a list of parts.
pub open spec fn part_views(s: Seq<LinePart>) -> Seq<(int, int, int)> {
    Seq::new(s.len(), |i: int| (s[i].line as int, s[i].start as int, s[i].end as int))
}

/// The parts of the lines that lie in a byte range: what a selection
/// highlights, and with `touching` what an input method underlines, where
/// also a line end that the range only touches counts.
pub fn range_parts(lines: &Vec<Span>, start: usize, end: usize, touching: bool) -> (r: Vec<LinePart>)
    requires
        forall|i: int| 0 <= i < lines@.len() ==> (#[trigger] lines@[i]).start <= lines@[i].end,
    ensures
        part_views(r@) == parts_upto(
            lines@,
            start as int,
            end as int,
            touching,
            lines@.len(),
        ),
{
    let mut r: Vec<LinePart> = Vec::new();
    let mut i: usize = 0;
    assert(part_views(r@) =~= Seq::<(int, int, int)>::empty());
    while i < lines.len()
        invariant
            i <= lines.len(),
            forall|k: int|
                0 <= k < lines@.len() ==> (#[trigger] lines@[k]).start <= lines@[k].end,
            part_views(r@) == parts_upto(lines@, start as int, end as int, touching, i as nat),
        decreases lines.len() - i,
    {
        let l: Span = lines[i];
        let a: usize = if start > l.start {
            start
        } else {
            l.start
        };
        let b: usize = if end < l.end {
            end
        } else {
            l.end
        };
        let ghost before = part_views(r@);
        if a < b || (touching && a == b) {
            r.push(LinePart { line: i, start: a - l.start, end: b - l.start });
            assert(part_views(r@) =~= before.push((i as int, a - l.start, b - l.start)));
        }
        i += 1;
    }
    r
}

/// The line of the caret at a byte offset, from line `i` on, and its offset in
/// the line. The last line takes what lies behind it.
pub open spec fn caret_from(lines: Seq<Span>, byte: int, i: int) -> Option<(int, int)>
    decreases lines.len() - i,
{
    if i >= lines.len() {
        None
    } else if byte >= lines[i].start && (byte <= lines[i].end || i == lines.len() - 1) {
        let len = lines[i].end - lines[i].start;
        Some(
            (
                i,
                if byte - lines[i].start < len {
                    byte - lines[i].start
                } else {
                    len
                },
            ),
        )
    } else {
        caret_from(lines, byte, i + 1)
    }
}

/// The value of a caret place.
pub open spec fn caret_view(r: Option<(usize, usize)>) -> Option<(int, int)> {
    match r {
        Some(p) => Some((p.0 as int, p.1 as int)),
        None => None,
    }
}

/// The line of the caret at a byte offset, and its offset in the line.
pub fn caret_place(lines: &Vec<Span>, byte: usize) -> (r: Option<(usize, usize)>)
    requires
        forall|i: int| 0 <= i < lines@.len() ==> (#[trigger] lines@[i]).start <= lines@[i].end,
    ensures
        caret_view(r) == caret_from(lines@, byte as int, 0),
{
    let mut i: usize = 0;
    while i < lines.len()
        invariant
            i <= lines.len(),
            forall|k: int|
                0 <= k < lines@.len() ==> (#[trigger] lines@[k]).start <= lines@[k].end,
            caret_from(lines@, byte as int, 0) == caret_from(lines@, byte as int, i as int),
        decreases lines.len() - i,
    {
        let l: Span = lines[i];
        if byte >= l.start && (byte <= l.end || i == lines.len() - 1) {
            let len: usize = l.end - l.start;
            let at: usize = if byte - l.start < len {
                byte - l.start
            } else {
                len
            };
            return Some((i, at));
        }
        i += 1;
    }
    None
}

/// The byte offset of a click on a line: `at` is the offset in the line under
/// the pointer, or none behind its end.
pub fn clicked_byte(lines: &Vec<Span>, line: usize, at: Option<usize>) -> (r: usize)
    requires
        line < lines@.len(),
        lines@[line as int].start <= lines@[line as int].end,
    ensures
        ({
            let l = lines@[line as int];
            r == (match at {
                Some(k) => if l.start + k < l.end {
                    l.start + k
                } else {
                    l.end as int
                },
                None => l.end as int,
            })
        }),
{
    let l: Span = lines[line];
    match at {
        Some(k) => if k < l.end - l.start {
            l.start + k
        } else {
            l.end
        },
        None => l.end,
    }
}

/// What has to be measured of a text.
#[derive(Debug)]
pub struct MeasureRequest<F> {
    pub text: String,
    pub font_size: F,
    pub font_family: String,
    pub wrap_width: Option<F>,
    pub min_height: Option<F>,
    pub container: Option<ElementId>,
}

/// Whether a request asks for the measurements of a text.
pub open spec fn asks<F>(q: MeasureRequest<F>, k: KindV<F>) -> bool {
    match k {
        KindV::Text {
            text,
            font_size,
            font_family,
            wrap_width,
            min_height,
            container_id,
            ..
        } => q.text@ == text && q.font_size == font_size && q.font_family@ == font_family
            && q.wrap_width == wrap_width && q.min_height == min_height && q.container
            == container_id,
        _ => false,
    }
}

impl<F> BoardV<F> {
    /// The board after the text `id` was measured: a label keeps its alignment
    /// on its container. Other elements are left alone.
    pub open spec fn measured(self, id: ElementId, m: Measured<F>) -> Self {
        if !has_id(self.scene, id) {
            self
        } else {
            let i = place_of(self.scene, id);
            let el = self.scene[i];
            match el.kind {
                KindV::Text { container_id, .. } => {
                    let sized = ElementV {
                        bounds: WBounds { w: m.w, h: m.h, ..el.bounds },
                        ..el
                    };
                    BoardV {
                        scene: self.scene.update(
                            i,
                            if container_id matches Some(c) && has_id(self.scene, c) {
                                sized.at(m.placed)
                            } else {
                                sized
                            },
                        ),
                        ..self
                    }
                },
                _ => self,
            }
        }
    }

    /// The board after the first `n` pending texts were measured.
    pub open spec fn measured_upto(
        self,
        ids: Seq<ElementId>,
        m: Seq<Measured<F>>,
        n: nat,
    ) -> Self
        decreases n,
    {
        if n == 0 {
            self
        } else {
            self.measured_upto(ids, m, (n - 1) as nat).measured(ids[n - 1], m[n - 1])
        }
    }
}

impl<F: Copy> BoardView<F> {
    /// What has to be measured of the element `id`; nothing unless it is a
    /// text.
    pub fn measure_request(&self, id: ElementId) -> (r: Option<MeasureRequest<F>>)
        ensures
            match r {
                Some(q) => has_id(self@.scene, id) && asks(
                    q,
                    self@.scene[place_of(self@.scene, id)].kind,
                ),
                None => !has_id(self@.scene, id) || !(self@.scene[place_of(
                    self@.scene,
                    id,
                )].kind is Text),
            },
    {
        match self.scene.get(id) {
            Some(el) => match &el.kind {
                ElementKind::Text {
                    text,
                    font_size,
                    font_family,
                    wrap_width,
                    min_height,
                    container_id,
                    ..
                } => Some(
                    MeasureRequest {
                        text: text.clone(),
                        font_size: *font_size,
                        font_family: font_family.clone(),
                        wrap_width: *wrap_width,
                        min_height: *min_height,
                        container: *container_id,
                    },
                ),
                _ => None,
            },
            None => None,
        }
    }

    /// Gives a measured text its extent.
    pub fn apply_measure(&mut self, id: ElementId, m: Measured<F>)
        ensures
            final(self)@ == old(self)@.measured(id, m),
    {
        let bound: bool = match self.scene.get(id) {
            Some(el) => match &el.kind {
                ElementKind::Text { container_id, .. } => match container_id {
                    Some(c) => self.scene.contains(*c),
                    None => false,
                },
                _ => {
                    return;
                },
            },
            None => {
                return;
            },
        };
        match self.scene.get_mut(id) {
            Some(el) => {
                el.bounds.w = m.w;
                el.bounds.h = m.h;
                if bound {
                    el.move_to(m.placed);
                }
            },
            None => {},
        }
    }

    /// Gives all pending texts their extents, in order, and forgets them.
    pub fn measure_pending(&mut self, m: &Vec<Measured<F>>)
        requires
            m@.len() == old(self)@.pending_measure.len(),
        ensures
            final(self)@ == (BoardV { pending_measure: Seq::empty(), ..old(self)@ }).measured_upto(
                old(self)@.pending_measure,
                m@,
                m@.len(),
            ),
    {
        let mut ids: Vec<ElementId> = Vec::new();
        std::mem::swap(&mut ids, &mut self.pending_measure);
        let ghost b = self@;
        assert(b =~= (BoardV { pending_measure: Seq::empty(), ..old(self)@ }));
        let mut i: usize = 0;
        while i < ids.len()
            invariant
                i <= ids.len(),
                ids@.len() == m@.len(),
                self@ == b.measured_upto(ids@, m@, i as nat),
            decreases ids.len() - i,
        {
            self.apply_measure(ids[i], m[i]);
            i += 1;
        }
    }
}

proof fn lemma_items_hold_no_edited<F>(
    s: Seq<ElementV<F>>,
    visible: Seq<bool>,
    id: ElementId,
    n: nat,
    k: int,
)
    requires
        n <= s.len(),
        s.len() <= usize::MAX,
        0 <= k < items_upto(s, visible, Some(id), n).len(),
    ensures
        match items_upto(s, visible, Some(id), n)[k] {
            PaintItem::Text(i) => i < n && s[i as int].id != id,
            PaintItem::Path(i) => i < n && s[i as int].id != id,
        },
    decreases n,
{
    if n > 0 {
        let rest = items_upto(s, visible, Some(id), (n - 1) as nat);
        if k < rest.len() {
            lemma_items_hold_no_edited(s, visible, id, (n - 1) as nat, k);
        }
    }
}

/// The text that is being edited is painted by its edit alone, never a second
/// time as an element.
pub proof fn law_edited_text_is_painted_once<F>(b: BoardV<F>, visible: Seq<bool>, k: int)
    requires
        b.editing is Some,
        b.scene.len() <= usize::MAX,
        0 <= k < items_upto(b.scene, visible, b.edited_id(), b.scene.len()).len(),
    ensures
        match items_upto(b.scene, visible, b.edited_id(), b.scene.len())[k] {
            PaintItem::Text(i) => b.scene[i as int].id != b.editing->Some_0.element_id,
            PaintItem::Path(i) => b.scene[i as int].id != b.editing->Some_0.element_id,
        },
{
    lemma_items_hold_no_edited(
        b.scene,
        visible,
        b.editing->Some_0.element_id,
        b.scene.len(),
        k,
    );
}

} // verus!
