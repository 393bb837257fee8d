//! What the style bar shows.

use vstd::prelude::*;
use crate::board::{ActiveTool, BoardV, BoardView};
use crate::board_labels::{labels_only, live_label};
use crate::board_style::align_of;
use crate::element::{
    Element, ElementKind, ElementV, FillStyle, KindV, LineType, TextAlign, HANDWRITTEN_FONT, SYSTEM_FONT,
};
use crate::ids::ElementId;
use crate::scene::{has_id, place_of};
use crate::text::same_text;

verus! {

/// The stroke colours on offer.
pub open spec fn offered_strokes() -> Seq<u32> {
    seq![0x1e1e1eu32, 0xe03131, 0x2f9e44, 0x1971c2, 0xf08c00]
}

/// The fill colours on offer, none first.
pub open spec fn offered_fills() -> Seq<Option<u32>> {
    seq![None, Some(0xffc9c9u32), Some(0xb2f2bbu32), Some(0xa5d8ffu32), Some(0xffec99u32)]
}

/// The fill styles on offer.
pub fn fill_styles() -> (r: [FillStyle; 2])
    ensures
        r@ == seq![FillStyle::Hachure, FillStyle::Solid],
{
    [FillStyle::Hachure, FillStyle::Solid]
}

/// Lists the stroke colours on offer.
pub fn stroke_colors() -> (r: [u32; 5])
    ensures
        r@ == offered_strokes(),
{
    [0x1e1e1e, 0xe03131, 0x2f9e44, 0x1971c2, 0xf08c00]
}

/// Lists the fill colours on offer.
pub fn background_colors() -> (r: [Option<u32>; 5])
    ensures
        r@ == offered_fills(),
{
    [None, Some(0xffc9c9), Some(0xb2f2bb), Some(0xa5d8ff), Some(0xffec99)]
}

fn same_color(a: Option<u32>, b: Option<u32>) -> (r: bool)
    ensures
        r == (a == b),
{
    match (a, b) {
        (Some(x), Some(y)) => x == y,
        (None, None) => true,
        _ => false,
    }
}

impl ActiveTool {
    /// Whether the tool draws shapes or strokes.
    pub open spec fn draws(self) -> bool {
        self == ActiveTool::Rectangle || self == ActiveTool::Diamond || self == ActiveTool::Ellipse
            || self == ActiveTool::Arrow || self == ActiveTool::Line || self == ActiveTool::Pen
    }

    /// Whether the tool draws shapes or strokes.
    pub fn is_drawing(self) -> (r: bool)
        ensures
            r == self.draws(),
    {
        match self {
            ActiveTool::Rectangle => true,
            ActiveTool::Diamond => true,
            ActiveTool::Ellipse => true,
            ActiveTool::Arrow => true,
            ActiveTool::Line => true,
            ActiveTool::Pen => true,
            _ => false,
        }
    }
}

/// Which parts of the style bar show, and the values that its buttons mark.
#[derive(Debug)]
pub struct StyleBar<F> {
    /// The bar shows at all.
    pub show: bool,
    pub text_options: bool,
    pub shape_options: bool,
    pub background: bool,
    /// The taper switch shows.
    pub taper: bool,
    /// The choice between straight and curved shows.
    pub line_type: bool,
    /// Which of the offered stroke colours is the current one.
    pub strokes: [bool; 5],
    /// Which of the offered fill colours is the current one.
    pub fills: [bool; 5],
    /// Whether the fill is hatched, and whether it is solid.
    pub fill_styles: (bool, bool),
    /// The font size that the nearest preset is marked for.
    pub font_size: F,
    /// The line type that is marked.
    pub current_line: LineType,
    /// Whether the handwritten and the plain family are marked.
    pub families: (bool, bool),
    /// Whether left, centre and right are marked.
    pub aligns: (bool, bool, bool),
}

/// Whether every listed element is in the scene with a kind that satisfies
/// `p`, and there is one.
pub open spec fn all_kinds<F>(
    s: Seq<ElementV<F>>,
    ids: Seq<ElementId>,
    p: spec_fn(KindV<F>) -> bool,
) -> bool {
    ids.len() > 0 && forall|i: int|
        0 <= i < ids.len() ==> has_id(s, #[trigger] ids[i]) && p(s[place_of(s, ids[i])].kind)
}

/// Whether every listed element that is in the scene has a kind that
/// satisfies `p`.
pub open spec fn live_kinds<F>(
    s: Seq<ElementV<F>>,
    ids: Seq<ElementId>,
    p: spec_fn(KindV<F>) -> bool,
) -> bool {
    forall|i: int|
        0 <= i < ids.len() && has_id(s, #[trigger] ids[i]) ==> p(s[place_of(s, ids[i])].kind)
}

/// Whether some listed element is in the scene with a kind that satisfies
/// `p`.
pub open spec fn some_kind<F>(
    s: Seq<ElementV<F>>,
    ids: Seq<ElementId>,
    p: spec_fn(KindV<F>) -> bool,
) -> bool {
    exists|i: int|
        0 <= i < ids.len() && has_id(s, #[trigger] ids[i]) && p(s[place_of(s, ids[i])].kind)
}

/// Whether a kind is a text.
pub open spec fn text_p<F>() -> spec_fn(KindV<F>) -> bool {
    |k: KindV<F>| k is Text
}

/// Whether a kind is an open path.
pub open spec fn path_p<F>() -> spec_fn(KindV<F>) -> bool {
    |k: KindV<F>| k is Line || k is Arrow || k is Freedraw
}

/// Whether a kind is a line or an arrow.
pub open spec fn line_p<F>() -> spec_fn(KindV<F>) -> bool {
    |k: KindV<F>| k is Line || k is Arrow
}

/// The family of a text; the plain one for everything else.
pub open spec fn family_of<F>(k: KindV<F>) -> Seq<char> {
    match k {
        KindV::Text { font_family, .. } => font_family,
        _ => SYSTEM_FONT@,
    }
}

/// Whether a kind has the given family.
pub open spec fn family_p<F>(family: Seq<char>) -> spec_fn(KindV<F>) -> bool {
    |k: KindV<F>| family_of(k) == family
}

/// Whether a kind has the given alignment.
pub open spec fn align_p<F>(a: TextAlign) -> spec_fn(KindV<F>) -> bool {
    |k: KindV<F>| align_of(k) == a
}

/// The font size of the first listed text.
pub open spec fn first_size<F>(s: Seq<ElementV<F>>, ids: Seq<ElementId>) -> Option<F>
    decreases ids.len(),
{
    if ids.len() == 0 {
        None
    } else {
        match (has_id(s, ids[0]), s[place_of(s, ids[0])].kind) {
            (true, KindV::Text { font_size, .. }) => Some(font_size),
            _ => first_size(s, ids.skip(1)),
        }
    }
}

/// The line type of the first listed line or arrow.
pub open spec fn first_line<F>(s: Seq<ElementV<F>>, ids: Seq<ElementId>) -> Option<LineType>
    decreases ids.len(),
{
    if ids.len() == 0 {
        None
    } else if has_id(s, ids[0]) && line_p()(s[place_of(s, ids[0])].kind) {
        Some(s[place_of(s, ids[0])].style.line_type)
    } else {
        first_line(s, ids.skip(1))
    }
}

impl<F> BoardV<F> {
    /// Whether the bar shows.
    pub open spec fn bar_shows(self) -> bool {
        self.tool.draws() || self.tool == ActiveTool::Text || self.selection.len() > 0
    }

    /// Whether only texts are selected.
    pub open spec fn only_text(self) -> bool {
        all_kinds(self.scene, self.selection, text_p())
    }

    /// Whether one container is selected.
    pub open spec fn single_container(self) -> bool {
        self.selection.len() == 1 && has_id(self.scene, self.selection[0]) && self.scene[place_of(
            self.scene,
            self.selection[0],
        )].kind.container()
    }

    /// Whether the text settings show: for the text tool, for the tools that
    /// draw labelled shapes, for selected texts and for one selected
    /// container.
    pub open spec fn text_options(self) -> bool {
        self.tool == ActiveTool::Text || self.tool == ActiveTool::Rectangle || self.tool
            == ActiveTool::Ellipse || self.tool == ActiveTool::Diamond || self.only_text()
            || self.single_container()
    }

    /// Whether the shape settings show: not where only text is at hand, unless
    /// that is labels, whose containers they act on.
    pub open spec fn shape_options(self) -> bool {
        (self.tool != ActiveTool::Text && !self.only_text()) || labels_only(
            self.scene,
            self.selection,
        )
    }

    /// Whether the fill settings show: what is at hand has an interior.
    pub open spec fn background_options(self) -> bool {
        let linear_tool = self.tool == ActiveTool::Arrow || self.tool == ActiveTool::Line
            || self.tool == ActiveTool::Pen;
        let linear = if labels_only(self.scene, self.selection) {
            live_kinds(self.scene, self.panel_shapes(), line_p())
        } else {
            self.selection.len() > 0 && live_kinds(self.scene, self.selection, path_p())
        };
        self.shape_options() && !(linear_tool && self.selection.len() == 0) && !linear
    }

    /// Whether the line type shows.
    pub open spec fn line_options(self) -> bool {
        self.shape_options() && (self.tool == ActiveTool::Arrow || self.tool == ActiveTool::Line
            || some_kind(self.scene, self.selection, line_p()))
    }

    /// Which of the stroke colours on offer is the current one.
    pub open spec fn stroke_marks(self) -> Seq<bool> {
        Seq::new(5, |i: int| self.style.stroke == offered_strokes()[i])
    }

    /// Which of the fill colours on offer is the current one.
    pub open spec fn fill_marks(self) -> Seq<bool> {
        Seq::new(5, |i: int| self.style.background == offered_fills()[i])
    }

    /// The font size to mark: that of the first controlled text, or the
    /// default.
    pub open spec fn marked_size(self) -> F {
        match first_size(self.scene, self.panel_texts()) {
            Some(f) => f,
            None => self.text_font_size,
        }
    }

    /// The line type to mark.
    pub open spec fn marked_line(self) -> LineType {
        match first_line(self.scene, self.selection) {
            Some(l) => l,
            None => self.style.line_type,
        }
    }

    /// Whether a family is marked: some controlled text has it, or it is the
    /// default where none is controlled.
    pub open spec fn family_marked(self, family: Seq<char>) -> bool {
        if self.panel_texts().len() == 0 {
            self.text_font_family == family
        } else {
            some_kind(self.scene, self.panel_texts(), family_p(family))
        }
    }

    /// Whether an alignment is marked.
    pub open spec fn align_marked(self, a: TextAlign) -> bool {
        if self.panel_texts().len() == 0 {
            self.text_align == a
        } else {
            some_kind(self.scene, self.panel_texts(), align_p(a))
        }
    }
}

/// The questions that the style bar asks of a kind.
#[derive(Clone, Copy, Debug, PartialEq, Eq, Structural)]
enum Ask {
    Text,
    Path,
    Line,
    Handwritten,
    System,
    Align(TextAlign),
}

spec fn asked<F>(a: Ask) -> spec_fn(KindV<F>) -> bool {
    match a {
        Ask::Text => text_p(),
        Ask::Path => path_p(),
        Ask::Line => line_p(),
        Ask::Handwritten => family_p(HANDWRITTEN_FONT@),
        Ask::System => family_p(SYSTEM_FONT@),
        Ask::Align(t) => align_p(t),
    }
}

fn has_family<F: Copy>(el: &Element<F>, family: &str) -> (r: bool)
    ensures
        r == (family_of(el@.kind) == family@),
{
    match &el.kind {
        ElementKind::Text { font_family, .. } => same_text(font_family.as_str(), family),
        _ => same_text(SYSTEM_FONT, family),
    }
}

fn answers<F: Copy>(el: &Element<F>, a: Ask) -> (r: bool)
    ensures
        r == asked(a)(el@.kind),
{
    match a {
        Ask::Text => el.is_text(),
        Ask::Line => el.is_linear(),
        Ask::Path => match &el.kind {
            ElementKind::Line { .. } => true,
            ElementKind::Arrow { .. } => true,
            ElementKind::Freedraw { .. } => true,
            _ => false,
        },
        Ask::Handwritten => has_family(el, HANDWRITTEN_FONT),
        Ask::System => has_family(el, SYSTEM_FONT),
        Ask::Align(t) => el.text_align() == t,
    }
}

impl<F: Copy> BoardView<F> {
    fn every(&self, ids: &Vec<ElementId>, a: Ask) -> (r: (bool, bool))
        ensures
            r.0 == all_kinds(self@.scene, ids@, asked(a)),
            r.1 == live_kinds(self@.scene, ids@, asked(a)),
    {
        let mut all: bool = true;
        let mut live: bool = true;
        let mut i: usize = 0;
        let ghost s = self@.scene;
        while i < ids.len()
            invariant
                i <= ids.len(),
                s == self@.scene,
                all == forall|k: int|
                    0 <= k < i ==> has_id(s, #[trigger] ids@[k]) && asked(a)(
                        s[place_of(s, ids@[k])].kind,
                    ),
                live == forall|k: int|
                    0 <= k < i && has_id(s, #[trigger] ids@[k]) ==> asked(a)(
                        s[place_of(s, ids@[k])].kind,
                    ),
            decreases ids.len() - i,
        {
            let ghost before = (all, live);
            let ghost id = ids@[i as int];
            match self.scene.get(ids[i]) {
                Some(el) => {
                    if !answers(el, a) {
                        all = false;
                        live = false;
                        assert(!asked(a)(s[place_of(s, id)].kind));
                    }
                },
                None => {
                    all = false;
                    assert(!has_id(s, id));
                },
            }
            i += 1;
        }
        (ids.len() > 0 && all, live)
    }

    fn some(&self, ids: &Vec<ElementId>, a: Ask) -> (r: bool)
        ensures
            r == some_kind(self@.scene, ids@, asked(a)),
    {
        let mut i: usize = 0;
        let ghost s = self@.scene;
        while i < ids.len()
            invariant
                i <= ids.len(),
                s == self@.scene,
                forall|k: int|
                    0 <= k < i ==> !(has_id(s, #[trigger] ids@[k]) && asked(a)(
                        s[place_of(s, ids@[k])].kind,
                    )),
            decreases ids.len() - i,
        {
            match self.scene.get(ids[i]) {
                Some(el) => {
                    if answers(el, a) {
                        assert(has_id(s, ids@[i as int]));
                        return true;
                    }
                },
                None => {},
            }
            i += 1;
        }
        false
    }

    fn size_to_mark(&self, ids: &Vec<ElementId>) -> (r: F)
        ensures
            r == (match first_size(self@.scene, ids@) {
                Some(f) => f,
                None => self@.text_font_size,
            }),
    {
        let mut i: usize = 0;
        assert(ids@.skip(0) =~= ids@);
        while i < ids.len()
            invariant
                i <= ids.len(),
                first_size(self@.scene, ids@) == first_size(self@.scene, ids@.skip(i as int)),
            decreases ids.len() - i,
        {
            assert(ids@.skip(i as int)[0] == ids@[i as int]);
            assert(ids@.skip(i as int).skip(1) =~= ids@.skip(i + 1));
            match self.scene.get(ids[i]) {
                Some(el) => match &el.kind {
                    ElementKind::Text { font_size, .. } => {
                        return *font_size;
                    },
                    _ => {},
                },
                None => {},
            }
            i += 1;
        }
        self.text_font_size
    }

    fn line_to_mark(&self) -> (r: LineType)
        ensures
            r == self@.marked_line(),
    {
        let mut i: usize = 0;
        let ghost ids = self@.selection;
        assert(ids.skip(0) =~= ids);
        while i < self.selection.len()
            invariant
                i <= self.selection.len(),
                ids == self@.selection,
                first_line(self@.scene, ids) == first_line(self@.scene, ids.skip(i as int)),
            decreases self.selection.len() - i,
        {
            assert(ids.skip(i as int)[0] == ids[i as int]);
            assert(ids.skip(i as int).skip(1) =~= ids.skip(i + 1));
            match self.scene.get(self.selection[i]) {
                Some(el) => {
                    if el.is_linear() {
                        return el.style.line_type;
                    }
                },
                None => {},
            }
            i += 1;
        }
        self.style.line_type
    }

    fn only_labels(&self) -> (r: bool)
        ensures
            r == labels_only(self@.scene, self@.selection),
    {
        let mut i: usize = 0;
        while i < self.selection.len()
            invariant
                i <= self.selection.len(),
                forall|k: int|
                    0 <= k < i ==> live_label(self@.scene, #[trigger] self@.selection[k]),
            decreases self.selection.len() - i,
        {
            let live: bool = match self.scene.get(self.selection[i]) {
                Some(el) => match el.container_id() {
                    Some(c) => self.scene.contains(c),
                    None => false,
                },
                None => false,
            };
            if !live {
                assert(!live_label(self@.scene, self@.selection[i as int]));
                return false;
            }
            i += 1;
        }
        self.selection.len() > 0
    }

    fn family_on(&self, ids: &Vec<ElementId>, a: Ask, family: &str) -> (r: bool)
        requires
            asked::<F>(a) == family_p::<F>(family@),
            ids@ == self@.panel_texts(),
        ensures
            r == self@.family_marked(family@),
    {
        if ids.len() == 0 {
            same_text(self.text_font_family.as_str(), family)
        } else {
            self.some(ids, a)
        }
    }

    fn align_on(&self, ids: &Vec<ElementId>, t: TextAlign) -> (r: bool)
        requires
            ids@ == self@.panel_texts(),
        ensures
            r == self@.align_marked(t),
    {
        if ids.len() == 0 {
            self.text_align == t
        } else {
            self.some(ids, Ask::Align(t))
        }
    }

    /// Which of the stroke colours on offer is the current one.
    fn stroke_marks(&self) -> (r: [bool; 5])
        ensures
            r@ == self@.stroke_marks(),
    {
        let c: u32 = self.style.stroke;
        let o: [u32; 5] = stroke_colors();
        let r: [bool; 5] = [c == o[0], c == o[1], c == o[2], c == o[3], c == o[4]];
        assert(r@ =~= self@.stroke_marks());
        r
    }

    /// Which of the fill colours on offer is the current one.
    fn fill_marks(&self) -> (r: [bool; 5])
        ensures
            r@ == self@.fill_marks(),
    {
        let c: Option<u32> = self.style.background;
        let o: [Option<u32>; 5] = background_colors();
        let r: [bool; 5] = [
            same_color(c, o[0]),
            same_color(c, o[1]),
            same_color(c, o[2]),
            same_color(c, o[3]),
            same_color(c, o[4]),
        ];
        assert(r@ =~= self@.fill_marks());
        r
    }

    /// What the style bar shows.
    pub fn style_bar(&self) -> (r: StyleBar<F>)
        ensures
            r.show == self@.bar_shows(),
            r.text_options == self@.text_options(),
            r.shape_options == self@.shape_options(),
            r.background == self@.background_options(),
            r.taper == (self@.shape_options() && self@.tool == ActiveTool::Pen),
            r.line_type == self@.line_options(),
            r.strokes@ == self@.stroke_marks(),
            r.fills@ == self@.fill_marks(),
            r.fill_styles == (
                self@.style.fill_style == FillStyle::Hachure,
                self@.style.fill_style == FillStyle::Solid,
            ),
            r.font_size == self@.marked_size(),
            r.current_line == self@.marked_line(),
            r.families == (
                self@.family_marked(HANDWRITTEN_FONT@),
                self@.family_marked(SYSTEM_FONT@),
            ),
            r.aligns == (
                self@.align_marked(TextAlign::Left),
                self@.align_marked(TextAlign::Center),
                self@.align_marked(TextAlign::Right),
            ),
    {
        let selected: bool = self.selection.len() > 0;
        let text_tool: bool = self.tool == ActiveTool::Text;
        let only_text: bool = self.every(&self.selection, Ask::Text).0;
        let container_tool: bool = self.tool == ActiveTool::Rectangle || self.tool
            == ActiveTool::Ellipse || self.tool == ActiveTool::Diamond;
        let single: bool = self.selection.len() == 1 && match self.scene.get(self.selection[0]) {
            Some(el) => el.is_container(),
            None => false,
        };
        let labels: bool = self.only_labels();
        let shape_options: bool = (!text_tool && !only_text) || labels;
        let linear_tool: bool = self.tool == ActiveTool::Arrow || self.tool == ActiveTool::Line
            || self.tool == ActiveTool::Pen;
        let linear: bool = if labels {
            let targets: Vec<ElementId> = self.panel_shape_ids();
            self.every(&targets, Ask::Line).1
        } else {
            selected && self.every(&self.selection, Ask::Path).1
        };
        let ids: Vec<ElementId> = self.panel_text_ids();
        StyleBar {
            show: self.tool.is_drawing() || text_tool || selected,
            text_options: text_tool || container_tool || only_text || single,
            shape_options,
            background: shape_options && !(linear_tool && !selected) && !linear,
            taper: shape_options && self.tool == ActiveTool::Pen,
            line_type: shape_options && (self.tool == ActiveTool::Arrow || self.tool
                == ActiveTool::Line || self.some(&self.selection, Ask::Line)),
            strokes: self.stroke_marks(),
            fills: self.fill_marks(),
            fill_styles: (
                self.style.fill_style == FillStyle::Hachure,
                self.style.fill_style == FillStyle::Solid,
            ),
            font_size: self.size_to_mark(&ids),
            current_line: self.line_to_mark(),
            families: (
                self.family_on(&ids, Ask::Handwritten, HANDWRITTEN_FONT),
                self.family_on(&ids, Ask::System, SYSTEM_FONT),
            ),
            aligns: (
                self.align_on(&ids, TextAlign::Left),
                self.align_on(&ids, TextAlign::Center),
                self.align_on(&ids, TextAlign::Right),
            ),
        }
    }
}

/// Whenever the style bar shows, it offers the text settings or the shape
/// settings.
pub proof fn law_shown_bar_offers_settings<F>(b: BoardV<F>)
    requires
        b.bar_shows(),
    ensures
        b.text_options() || b.shape_options(),
{
}

} // verus!
