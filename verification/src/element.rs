//! The element data model: shapes, polylines, freehand strokes, text, images
//! and pixel canvases.
//!
//! Coordinates, sizes and other real quantities are values of a type `F` that
//! this module only carries: it stores them, copies them and hands them back,
//! whatever number type the caller computes with.

use vstd::prelude::*;
use crate::ids::{is_random, new_seed, seed_shaped, ElementId};
use crate::text::same_text;

verus! {

/// A point.
#[derive(Clone, Copy, Debug, PartialEq)]
pub struct WPoint<F> {
    pub x: F,
    pub y: F,
}

/// An axis-aligned box: its top-left corner and its extent.
#[derive(Clone, Copy, Debug, PartialEq)]
pub struct WBounds<F> {
    pub x: F,
    pub y: F,
    pub w: F,
    pub h: F,
}

/// How an outline is stroked.
#[derive(Clone, Copy, Debug, PartialEq, Eq, Structural)]
pub enum StrokeStyle {
    Solid,
    Dashed,
}

/// How a polyline joins its points.
#[derive(Clone, Copy, Debug, PartialEq, Eq, Structural)]
pub enum LineType {
    Straight,
    Curved,
}

/// How a closed shape is filled.
#[derive(Clone, Copy, Debug, PartialEq, Eq, Structural)]
pub enum FillStyle {
    Hachure,
    Dense,
    Solid,
    Watercolor,
    Gradient,
}

/// The brush of a freehand stroke.
#[derive(Clone, Copy, Debug, PartialEq, Eq, Structural)]
pub enum Brush {
    Ink,
    Pencil,
    DryBrush,
}

/// The brush of a stroke on a pixel canvas.
#[derive(Clone, Copy, Debug, PartialEq, Eq, Structural)]
pub enum CanvasBrush {
    Ink,
    Watercolor,
    DryBrush,
}

/// Horizontal alignment of text in its box.
#[derive(Clone, Copy, Debug, PartialEq, Eq, Structural)]
pub enum TextAlign {
    Left,
    Center,
    Right,
}

impl Default for StrokeStyle {
    fn default() -> (r: Self)
        ensures
            r == StrokeStyle::Solid,
    {
        StrokeStyle::Solid
    }
}

impl Default for LineType {
    fn default() -> (r: Self)
        ensures
            r == LineType::Straight,
    {
        LineType::Straight
    }
}

impl Default for FillStyle {
    fn default() -> (r: Self)
        ensures
            r == FillStyle::Hachure,
    {
        FillStyle::Hachure
    }
}

impl Default for Brush {
    fn default() -> (r: Self)
        ensures
            r == Brush::Ink,
    {
        Brush::Ink
    }
}

impl Default for TextAlign {
    fn default() -> (r: Self)
        ensures
            r == TextAlign::Left,
    {
        TextAlign::Left
    }
}

/// The offset of a soft shadow.
#[derive(Clone, Copy, Debug, PartialEq)]
pub struct Shadow<F> {
    pub dx: F,
    pub dy: F,
}

/// The visual style of an element. Colours are `0xRRGGBB`.
#[derive(Clone, Copy, Debug, PartialEq)]
pub struct ElementStyle<F> {
    pub stroke: u32,
    pub stroke_none: bool,
    pub background: Option<u32>,
    pub stroke_width: F,
    pub roughness: F,
    pub stroke_style: StrokeStyle,
    pub opacity: F,
    pub line_type: LineType,
    pub fill_style: FillStyle,
    pub shadow: Option<Shadow<F>>,
    pub brush: Option<Brush>,
    pub hachure_gap: Option<F>,
    pub fill_weight: Option<F>,
    pub hachure_angle: Option<F>,
    pub dry_density: Option<F>,
    pub dry_width: Option<F>,
}

/// The default stroke colour.
pub const DEFAULT_STROKE: u32 = 0x1e1e1e;

impl<F: Copy> ElementStyle<F> {
    /// The plain style with the given stroke width, roughness and opacity:
    /// a solid dark outline, no fill, no shadow, and every finer setting left
    /// to its preset.
    pub fn plain(stroke_width: F, roughness: F, opacity: F) -> (r: Self)
        ensures
            r == plain_style(stroke_width, roughness, opacity),
    {
        ElementStyle {
            stroke: DEFAULT_STROKE,
            stroke_none: false,
            background: None,
            stroke_width,
            roughness,
            stroke_style: StrokeStyle::Solid,
            opacity,
            line_type: LineType::Straight,
            fill_style: FillStyle::Hachure,
            shadow: None,
            brush: None,
            hachure_gap: None,
            fill_weight: None,
            hachure_angle: None,
            dry_density: None,
            dry_width: None,
        }
    }
}

/// The style that [`ElementStyle::plain`] returns.
pub open spec fn plain_style<F>(stroke_width: F, roughness: F, opacity: F) -> ElementStyle<F> {
    ElementStyle {
        stroke: 0x1e1e1e,
        stroke_none: false,
        background: None,
        stroke_width,
        roughness,
        stroke_style: StrokeStyle::Solid,
        opacity,
        line_type: LineType::Straight,
        fill_style: FillStyle::Hachure,
        shadow: None,
        brush: None,
        hachure_gap: None,
        fill_weight: None,
        hachure_angle: None,
        dry_density: None,
        dry_width: None,
    }
}

/// One committed stroke of a pixel canvas.
#[derive(Debug, PartialEq)]
pub struct CanvasStroke<F> {
    pub points: Vec<WPoint<F>>,
    pub widths: Vec<F>,
    pub color: u32,
    pub width: F,
    pub brush: CanvasBrush,
    pub opacity: F,
}

/// What an element is. Points are relative to the element's origin.
#[derive(Debug, PartialEq)]
pub enum ElementKind<F> {
    Rectangle,
    Ellipse,
    Diamond,
    /// A polyline.
    Line { points: Vec<WPoint<F>> },
    /// A polyline with arrowheads.
    Arrow { points: Vec<WPoint<F>>, end_arrowhead: bool, start_arrowhead: bool },
    /// A freehand stroke. `widths` holds one width ratio per point, or is
    /// empty for a stroke of uniform width.
    Freedraw { points: Vec<WPoint<F>>, widths: Vec<F> },
    /// A closed polygon, straight or smooth.
    Polygon { points: Vec<WPoint<F>>, smooth: bool },
    /// Text, free or bound to a container.
    Text {
        text: String,
        font_size: F,
        font_family: String,
        wrap_width: Option<F>,
        min_height: Option<F>,
        container_id: Option<ElementId>,
        text_align: TextAlign,
        anchor: Option<String>,
    },
    /// A bitmap, by the name of its asset.
    Image { asset: String },
    /// A pixel canvas with its committed strokes.
    Canvas { strokes: Vec<CanvasStroke<F>> },
}

/// One element of the scene.
#[derive(Debug, PartialEq)]
pub struct Element<F> {
    pub id: ElementId,
    pub bounds: WBounds<F>,
    pub seed: u64,
    pub style: ElementStyle<F>,
    pub kind: ElementKind<F>,
}

/// The value of a [`CanvasStroke`].
#[verifier::ext_equal]
pub ghost struct StrokeV<F> {
    pub points: Seq<WPoint<F>>,
    pub widths: Seq<F>,
    pub color: u32,
    pub width: F,
    pub brush: CanvasBrush,
    pub opacity: F,
}

/// The value of an [`ElementKind`].
#[verifier::ext_equal]
pub ghost enum KindV<F> {
    Rectangle,
    Ellipse,
    Diamond,
    Line { points: Seq<WPoint<F>> },
    Arrow { points: Seq<WPoint<F>>, end_arrowhead: bool, start_arrowhead: bool },
    Freedraw { points: Seq<WPoint<F>>, widths: Seq<F> },
    Polygon { points: Seq<WPoint<F>>, smooth: bool },
    Text {
        text: Seq<char>,
        font_size: F,
        font_family: Seq<char>,
        wrap_width: Option<F>,
        min_height: Option<F>,
        container_id: Option<ElementId>,
        text_align: TextAlign,
        anchor: Option<Seq<char>>,
    },
    Image { asset: Seq<char> },
    Canvas { strokes: Seq<StrokeV<F>> },
}

/// The value of an [`Element`].
#[verifier::ext_equal]
pub ghost struct ElementV<F> {
    pub id: ElementId,
    pub bounds: WBounds<F>,
    pub seed: u64,
    pub style: ElementStyle<F>,
    pub kind: KindV<F>,
}

impl<F> View for CanvasStroke<F> {
    type V = StrokeV<F>;

    open spec fn view(&self) -> StrokeV<F> {
        StrokeV {
            points: self.points@,
            widths: self.widths@,
            color: self.color,
            width: self.width,
            brush: self.brush,
            opacity: self.opacity,
        }
    }
}

/// The value of an optional string.
pub open spec fn opt_text(s: Option<String>) -> Option<Seq<char>> {
    match s {
        Some(t) => Some(t@),
        None => None,
    }
}

/// The values of a list of strokes.
pub open spec fn stroke_views<F>(s: Seq<CanvasStroke<F>>) -> Seq<StrokeV<F>> {
    Seq::new(s.len(), |i: int| s[i]@)
}

impl<F> View for ElementKind<F> {
    type V = KindV<F>;

    open spec fn view(&self) -> KindV<F> {
        match *self {
            ElementKind::Rectangle => KindV::Rectangle,
            ElementKind::Ellipse => KindV::Ellipse,
            ElementKind::Diamond => KindV::Diamond,
            ElementKind::Line { points } => KindV::Line { points: points@ },
            ElementKind::Arrow { points, end_arrowhead, start_arrowhead } => KindV::Arrow {
                points: points@,
                end_arrowhead,
                start_arrowhead,
            },
            ElementKind::Freedraw { points, widths } => KindV::Freedraw {
                points: points@,
                widths: widths@,
            },
            ElementKind::Polygon { points, smooth } => KindV::Polygon { points: points@, smooth },
            ElementKind::Text {
                text,
                font_size,
                font_family,
                wrap_width,
                min_height,
                container_id,
                text_align,
                anchor,
            } => KindV::Text {
                text: text@,
                font_size,
                font_family: font_family@,
                wrap_width,
                min_height,
                container_id,
                text_align,
                anchor: opt_text(anchor),
            },
            ElementKind::Image { asset } => KindV::Image { asset: asset@ },
            ElementKind::Canvas { strokes } => KindV::Canvas { strokes: stroke_views(strokes@) },
        }
    }
}

impl<F> View for Element<F> {
    type V = ElementV<F>;

    open spec fn view(&self) -> ElementV<F> {
        ElementV {
            id: self.id,
            bounds: self.bounds,
            seed: self.seed,
            style: self.style,
            kind: self.kind@,
        }
    }
}

impl<F> KindV<F> {
    /// The relative points of a point-based kind; empty for the others.
    pub open spec fn points(self) -> Seq<WPoint<F>> {
        match self {
            KindV::Line { points } => points,
            KindV::Arrow { points, .. } => points,
            KindV::Freedraw { points, .. } => points,
            KindV::Polygon { points, .. } => points,
            _ => Seq::empty(),
        }
    }

    /// The same kind over other points.
    pub open spec fn with_points(self, p: Seq<WPoint<F>>) -> KindV<F> {
        match self {
            KindV::Line { .. } => KindV::Line { points: p },
            KindV::Arrow { end_arrowhead, start_arrowhead, .. } => KindV::Arrow {
                points: p,
                end_arrowhead,
                start_arrowhead,
            },
            KindV::Freedraw { widths, .. } => KindV::Freedraw { points: p, widths },
            KindV::Polygon { smooth, .. } => KindV::Polygon { points: p, smooth },
            k => k,
        }
    }

    /// Whether the kind is given by a list of points.
    pub open spec fn point_based(self) -> bool {
        self is Line || self is Arrow || self is Freedraw || self is Polygon
    }

    /// Whether the kind can carry a bound label.
    pub open spec fn container(self) -> bool {
        self is Rectangle || self is Ellipse || self is Diamond || self is Arrow || self is Line
    }

    /// The container that a text is bound to.
    pub open spec fn bound_to(self) -> Option<ElementId> {
        match self {
            KindV::Text { container_id, .. } => container_id,
            _ => None,
        }
    }
}

/// Copies a list of copyable values.
pub fn copy_list<T: Copy>(v: &Vec<T>) -> (r: Vec<T>)
    ensures
        r@ == v@,
{
    let mut r: Vec<T> = Vec::new();
    let mut i: usize = 0;
    while i < v.len()
        invariant
            i <= v.len(),
            r@ == v@.take(i as int),
        decreases v.len() - i,
    {
        r.push(v[i]);
        i += 1;
        assert(v@.take(i as int) =~= v@.take(i - 1).push(v@[i - 1]));
    }
    assert(v@.take(v@.len() as int) =~= v@);
    r
}

impl<F: Copy> Clone for CanvasStroke<F> {
    fn clone(&self) -> (r: Self)
        ensures
            r@ == self@,
    {
        CanvasStroke {
            points: copy_list(&self.points),
            widths: copy_list(&self.widths),
            color: self.color,
            width: self.width,
            brush: self.brush,
            opacity: self.opacity,
        }
    }
}

fn copy_strokes<F: Copy>(v: &Vec<CanvasStroke<F>>) -> (r: Vec<CanvasStroke<F>>)
    ensures
        stroke_views(r@) == stroke_views(v@),
{
    let mut r: Vec<CanvasStroke<F>> = Vec::new();
    let mut i: usize = 0;
    while i < v.len()
        invariant
            i <= v.len(),
            r@.len() == i,
            forall|k: int| 0 <= k < i ==> (#[trigger] r@[k])@ == v@[k]@,
        decreases v.len() - i,
    {
        r.push(v[i].clone());
        i += 1;
    }
    assert(stroke_views(r@) =~= stroke_views(v@));
    r
}

impl<F: Copy> Clone for ElementKind<F> {
    fn clone(&self) -> (r: Self)
        ensures
            r@ == self@,
    {
        match self {
            ElementKind::Rectangle => ElementKind::Rectangle,
            ElementKind::Ellipse => ElementKind::Ellipse,
            ElementKind::Diamond => ElementKind::Diamond,
            ElementKind::Line { points } => ElementKind::Line { points: copy_list(points) },
            ElementKind::Arrow { points, end_arrowhead, start_arrowhead } => ElementKind::Arrow {
                points: copy_list(points),
                end_arrowhead: *end_arrowhead,
                start_arrowhead: *start_arrowhead,
            },
            ElementKind::Freedraw { points, widths } => ElementKind::Freedraw {
                points: copy_list(points),
                widths: copy_list(widths),
            },
            ElementKind::Polygon { points, smooth } => ElementKind::Polygon {
                points: copy_list(points),
                smooth: *smooth,
            },
            ElementKind::Text {
                text,
                font_size,
                font_family,
                wrap_width,
                min_height,
                container_id,
                text_align,
                anchor,
            } => ElementKind::Text {
                text: text.clone(),
                font_size: *font_size,
                font_family: font_family.clone(),
                wrap_width: *wrap_width,
                min_height: *min_height,
                container_id: *container_id,
                text_align: *text_align,
                anchor: match anchor {
                    Some(a) => Some(a.clone()),
                    None => None,
                },
            },
            ElementKind::Image { asset } => ElementKind::Image { asset: asset.clone() },
            ElementKind::Canvas { strokes } => ElementKind::Canvas {
                strokes: copy_strokes(strokes),
            },
        }
    }
}

impl<F: Copy> Clone for Element<F> {
    fn clone(&self) -> (r: Self)
        ensures
            r@ == self@,
    {
        Element {
            id: self.id,
            bounds: self.bounds,
            seed: self.seed,
            style: self.style,
            kind: self.kind.clone(),
        }
    }
}

/// The family of hand-drawn text.
pub const HANDWRITTEN_FONT: &'static str = "Excalifont";

/// The family of plain text.
pub const SYSTEM_FONT: &'static str = ".SystemUIFont";

/// The numbers that a fresh text element starts from: its font size, the
/// height of an empty line at that size, and zero.
#[derive(Clone, Copy, Debug)]
pub struct TextDefaults<F> {
    pub font_size: F,
    pub line_box: F,
    pub zero: F,
}

/// The outcomes of the geometric tests that decide whether a point hits an
/// element: inside the box grown by the tolerance, inside the polygon (the
/// rhombus of a diamond), within the stroke tolerance of the closed outline,
/// within it of the ellipse or its interior, within it of the open path.
#[derive(Clone, Copy, Debug)]
pub struct HitFacts {
    pub in_box: bool,
    pub in_polygon: bool,
    pub near_outline: bool,
    pub near_ellipse: bool,
    pub near_path: bool,
}

/// Whether an element of kind `k` is hit, given the outcomes of the tests.
pub open spec fn hit_spec<F>(k: KindV<F>, t: HitFacts) -> bool {
    match k {
        KindV::Polygon { .. } => t.in_polygon || t.near_outline,
        KindV::Diamond => t.in_polygon || t.near_outline || t.in_box,
        KindV::Ellipse => t.in_box || t.near_ellipse,
        KindV::Line { .. } => t.near_path,
        KindV::Arrow { .. } => t.near_path,
        KindV::Freedraw { .. } => t.near_path,
        _ => t.in_box,
    }
}

/// The points and widths of a stroke after the point `p` is inserted behind
/// segment `seg`. Widths that run parallel to the points stay parallel: the
/// new point takes the width of the point it displaces.
pub open spec fn insert_point_spec<F>(k: KindV<F>, seg: int, p: WPoint<F>) -> KindV<F> {
    match k {
        KindV::Freedraw { points, widths } => KindV::Freedraw {
            points: points.insert(seg + 1, p),
            widths: if widths.len() == points.len() {
                widths.insert(seg + 1, widths[seg + 1])
            } else {
                widths
            },
        },
        _ => k.with_points(k.points().insert(seg + 1, p)),
    }
}

/// The points and widths of a stroke after vertex `i` is removed.
pub open spec fn remove_point_spec<F>(k: KindV<F>, i: int) -> KindV<F> {
    match k {
        KindV::Freedraw { points, widths } => KindV::Freedraw {
            points: points.remove(i),
            widths: if widths.len() == points.len() {
                widths.remove(i)
            } else {
                widths
            },
        },
        _ => k.with_points(k.points().remove(i)),
    }
}

/// The number of segments between the points of a kind: an open path has one
/// fewer than points, a polygon one more, which closes it.
pub open spec fn segment_count<F>(k: KindV<F>) -> nat {
    if k is Polygon || k.points().len() == 0 {
        k.points().len()
    } else {
        (k.points().len() - 1) as nat
    }
}

impl<F: Copy> Element<F> {
    /// A new element with a random identity and seed.
    pub fn new(kind: ElementKind<F>, bounds: WBounds<F>, style: ElementStyle<F>) -> (r: Self)
        ensures
            is_random(r.id),
            seed_shaped(r.seed),
            r.bounds == bounds,
            r.style == style,
            r.kind == kind,
    {
        Element { id: ElementId::random(), bounds, seed: new_seed(), style, kind }
    }

    /// A new element with a given identity and a random seed.
    pub fn new_with_id(
        id: ElementId,
        kind: ElementKind<F>,
        bounds: WBounds<F>,
        style: ElementStyle<F>,
    ) -> (r: Self)
        ensures
            r.id == id,
            seed_shaped(r.seed),
            r.bounds == bounds,
            r.style == style,
            r.kind == kind,
    {
        Element { id, bounds, seed: new_seed(), style, kind }
    }

    /// A new free text at `origin`: hand-drawn family, left-aligned, not
    /// wrapped, one empty line high, and without roughness.
    pub fn new_text(
        origin: WPoint<F>,
        text: String,
        style: ElementStyle<F>,
        d: &TextDefaults<F>,
    ) -> (r: Self)
        ensures
            is_random(r.id),
            seed_shaped(r.seed),
            r.bounds == (WBounds { x: origin.x, y: origin.y, w: d.zero, h: d.line_box }),
            r.style == (ElementStyle { roughness: d.zero, ..style }),
            r.kind@ == (KindV::Text {
                text: text@,
                font_size: d.font_size,
                font_family: HANDWRITTEN_FONT@,
                wrap_width: None,
                min_height: None,
                container_id: None,
                text_align: TextAlign::Left,
                anchor: None,
            }),
    {
        let mut s: ElementStyle<F> = style;
        s.roughness = d.zero;
        Element::new(
            ElementKind::Text {
                text,
                font_size: d.font_size,
                font_family: HANDWRITTEN_FONT.to_owned(),
                wrap_width: None,
                min_height: None,
                container_id: None,
                text_align: TextAlign::Left,
                anchor: None,
            },
            WBounds { x: origin.x, y: origin.y, w: d.zero, h: d.line_box },
            s,
        )
    }

    /// Whether the element is given by a list of points.
    pub fn is_point_based(&self) -> (r: bool)
        ensures
            r == self@.kind.point_based(),
    {
        match &self.kind {
            ElementKind::Line { .. } => true,
            ElementKind::Arrow { .. } => true,
            ElementKind::Freedraw { .. } => true,
            ElementKind::Polygon { .. } => true,
            _ => false,
        }
    }

    /// Whether the element is a text.
    pub fn is_text(&self) -> (r: bool)
        ensures
            r == (self@.kind is Text),
    {
        match &self.kind {
            ElementKind::Text { .. } => true,
            _ => false,
        }
    }

    /// Whether the element is a polyline: a line or an arrow.
    pub fn is_linear(&self) -> (r: bool)
        ensures
            r == (self@.kind is Line || self@.kind is Arrow),
    {
        match &self.kind {
            ElementKind::Line { .. } => true,
            ElementKind::Arrow { .. } => true,
            _ => false,
        }
    }

    /// Whether the element can carry a bound label.
    pub fn is_container(&self) -> (r: bool)
        ensures
            r == self@.kind.container(),
    {
        match &self.kind {
            ElementKind::Rectangle => true,
            ElementKind::Ellipse => true,
            ElementKind::Diamond => true,
            ElementKind::Arrow { .. } => true,
            ElementKind::Line { .. } => true,
            _ => false,
        }
    }

    /// The container that this text labels.
    pub fn container_id(&self) -> (r: Option<ElementId>)
        ensures
            r == self@.kind.bound_to(),
    {
        match &self.kind {
            ElementKind::Text { container_id, .. } => *container_id,
            _ => None,
        }
    }

    /// The alignment of a text; left for everything else.
    pub fn text_align(&self) -> (r: TextAlign)
        ensures
            r == (match self@.kind {
                KindV::Text { text_align, .. } => text_align,
                _ => TextAlign::Left,
            }),
    {
        match &self.kind {
            ElementKind::Text { text_align, .. } => *text_align,
            _ => TextAlign::Left,
        }
    }

    /// The wrap width of a text.
    pub fn wrap_width(&self) -> (r: Option<F>)
        ensures
            r == (match self@.kind {
                KindV::Text { wrap_width, .. } => wrap_width,
                _ => None,
            }),
    {
        match &self.kind {
            ElementKind::Text { wrap_width, .. } => *wrap_width,
            _ => None,
        }
    }

    /// Whether the horizontal anchor of a text is its centre line.
    pub fn is_center_anchored(&self) -> (r: bool)
        ensures
            r == (self@.kind is Text && self@.kind->anchor == Some("center"@)),
    {
        match &self.kind {
            ElementKind::Text { anchor, .. } => match anchor {
                Some(a) => same_text(a.as_str(), "center"),
                None => false,
            },
            _ => false,
        }
    }

    /// The manual minimum height of a text.
    pub fn min_height(&self) -> (r: Option<F>)
        ensures
            r == (match self@.kind {
                KindV::Text { min_height, .. } => min_height,
                _ => None,
            }),
    {
        match &self.kind {
            ElementKind::Text { min_height, .. } => *min_height,
            _ => None,
        }
    }

    /// The family of a text; the plain family for everything else.
    pub fn font_family(&self) -> (r: String)
        ensures
            r@ == (match self@.kind {
                KindV::Text { font_family, .. } => font_family,
                _ => SYSTEM_FONT@,
            }),
    {
        match &self.kind {
            ElementKind::Text { font_family, .. } => font_family.clone(),
            _ => SYSTEM_FONT.to_owned(),
        }
    }

    /// The characters of a text.
    pub fn text(&self) -> (r: Option<String>)
        ensures
            opt_text(r) == (match self@.kind {
                KindV::Text { text, .. } => Some(text),
                _ => None,
            }),
    {
        match &self.kind {
            ElementKind::Text { text, .. } => Some(text.clone()),
            _ => None,
        }
    }

    /// The width ratios of a freehand stroke; empty for everything else.
    pub fn ink_widths(&self) -> (r: Vec<F>)
        ensures
            r@ == (match self@.kind {
                KindV::Freedraw { widths, .. } => widths,
                _ => Seq::empty(),
            }),
    {
        match &self.kind {
            ElementKind::Freedraw { widths, .. } => copy_list(widths),
            _ => Vec::new(),
        }
    }

    /// The relative points of a point-based element; empty for the others.
    pub fn relative_points(&self) -> (r: Vec<WPoint<F>>)
        ensures
            r@ == self@.kind.points(),
    {
        match &self.kind {
            ElementKind::Line { points } => copy_list(points),
            ElementKind::Arrow { points, .. } => copy_list(points),
            ElementKind::Freedraw { points, .. } => copy_list(points),
            ElementKind::Polygon { points, .. } => copy_list(points),
            _ => Vec::new(),
        }
    }

    /// Whether the path is tested against its spline instead of its chords:
    /// a curved line or arrow with at least two points.
    pub fn hit_follows_curve(&self) -> (r: bool)
        ensures
            r == (self@.style.line_type == LineType::Curved && (self@.kind is Line
                || self@.kind is Arrow) && self@.kind.points().len() >= 2),
    {
        match &self.kind {
            ElementKind::Line { points } => self.style.line_type == LineType::Curved
                && points.len() >= 2,
            ElementKind::Arrow { points, .. } => self.style.line_type == LineType::Curved
                && points.len() >= 2,
            _ => false,
        }
    }

    /// Whether the element is hit, given the outcomes of the geometric tests.
    pub fn hit_test(&self, t: HitFacts) -> (r: bool)
        ensures
            r == hit_spec(self@.kind, t),
            self@.kind is Line || self@.kind is Arrow || self@.kind is Freedraw ==> r == t.near_path,
            self@.kind is Rectangle || self@.kind is Text || self@.kind is Image || self@.kind
                is Canvas ==> r == t.in_box,
            self@.kind is Ellipse || self@.kind is Diamond ==> (t.in_box ==> r),
    {
        match &self.kind {
            ElementKind::Polygon { .. } => t.in_polygon || t.near_outline,
            ElementKind::Diamond => t.in_polygon || t.near_outline || t.in_box,
            ElementKind::Ellipse => t.in_box || t.near_ellipse,
            ElementKind::Line { .. } => t.near_path,
            ElementKind::Arrow { .. } => t.near_path,
            ElementKind::Freedraw { .. } => t.near_path,
            _ => t.in_box,
        }
    }

    /// The number of points of a point-based element; zero for the others.
    pub fn point_count(&self) -> (r: usize)
        ensures
            r == self@.kind.points().len(),
    {
        match &self.kind {
            ElementKind::Line { points } => points.len(),
            ElementKind::Arrow { points, .. } => points.len(),
            ElementKind::Freedraw { points, .. } => points.len(),
            ElementKind::Polygon { points, .. } => points.len(),
            _ => 0,
        }
    }

    /// Replaces the points of a point-based element and its box; nothing else
    /// changes, and nothing at all for the other kinds.
    pub fn replace_points(&mut self, points: Vec<WPoint<F>>, bounds: WBounds<F>)
        ensures
            final(self)@ == (if old(self)@.kind.point_based() {
                ElementV {
                    bounds,
                    kind: old(self)@.kind.with_points(points@),
                    ..old(self)@
                }
            } else {
                old(self)@
            }),
    {
        match &mut self.kind {
            ElementKind::Line { points: p } => {
                *p = points;
            },
            ElementKind::Arrow { points: p, .. } => {
                *p = points;
            },
            ElementKind::Freedraw { points: p, .. } => {
                *p = points;
            },
            ElementKind::Polygon { points: p, .. } => {
                *p = points;
            },
            _ => {
                return;
            },
        }
        self.bounds = bounds;
    }

    /// Sets vertex `index` to the relative point `p`. True when there was
    /// such a vertex; then the box has to be recomputed.
    pub fn set_point(&mut self, index: usize, p: WPoint<F>) -> (r: bool)
        ensures
            r == (index < old(self)@.kind.points().len()),
            final(self)@ == (if r {
                ElementV {
                    kind: old(self)@.kind.with_points(
                        old(self)@.kind.points().update(index as int, p),
                    ),
                    ..old(self)@
                }
            } else {
                old(self)@
            }),
    {
        match &mut self.kind {
            ElementKind::Line { points } => {
                if index < points.len() {
                    points[index] = p;
                    return true;
                }
                false
            },
            ElementKind::Arrow { points, .. } => {
                if index < points.len() {
                    points[index] = p;
                    return true;
                }
                false
            },
            ElementKind::Freedraw { points, .. } => {
                if index < points.len() {
                    points[index] = p;
                    return true;
                }
                false
            },
            ElementKind::Polygon { points, .. } => {
                if index < points.len() {
                    points[index] = p;
                    return true;
                }
                false
            },
            _ => false,
        }
    }

    /// The number of segments between the points; none for what has no points.
    pub fn segments(&self) -> (r: usize)
        ensures
            r == segment_count(self@.kind),
    {
        let n: usize = self.point_count();
        match &self.kind {
            ElementKind::Polygon { .. } => n,
            _ => if n == 0 {
                0
            } else {
                n - 1
            },
        }
    }

    /// Inserts the relative point `p` behind segment `seg`, as the new vertex
    /// `seg + 1`. True when there was such a segment; then the box has to be
    /// recomputed.
    pub fn insert_point_after(&mut self, seg: usize, p: WPoint<F>) -> (r: bool)
        ensures
            r == (seg < segment_count(old(self)@.kind)),
            final(self)@ == (if r {
                ElementV { kind: insert_point_spec(old(self)@.kind, seg as int, p), ..old(self)@ }
            } else {
                old(self)@
            }),
    {
        if seg >= self.segments() {
            return false;
        }
        match &mut self.kind {
            ElementKind::Line { points } => {
                points.insert(seg + 1, p);
            },
            ElementKind::Arrow { points, .. } => {
                points.insert(seg + 1, p);
            },
            ElementKind::Polygon { points, .. } => {
                points.insert(seg + 1, p);
            },
            ElementKind::Freedraw { points, widths } => {
                if widths.len() == points.len() {
                    let w: F = widths[seg + 1];
                    widths.insert(seg + 1, w);
                }
                points.insert(seg + 1, p);
            },
            _ => {},
        }
        true
    }

    /// Removes vertex `index` of a path that keeps at least two points.
    /// True when a vertex went; then the box has to be recomputed.
    pub fn remove_point(&mut self, index: usize) -> (r: bool)
        ensures
            r == (old(self)@.kind.points().len() > 2 && index < old(self)@.kind.points().len()),
            final(self)@ == (if r {
                ElementV { kind: remove_point_spec(old(self)@.kind, index as int), ..old(self)@ }
            } else {
                old(self)@
            }),
    {
        let n: usize = self.point_count();
        if n <= 2 || index >= n {
            return false;
        }
        match &mut self.kind {
            ElementKind::Line { points } => {
                points.remove(index);
            },
            ElementKind::Arrow { points, .. } => {
                points.remove(index);
            },
            ElementKind::Polygon { points, .. } => {
                points.remove(index);
            },
            ElementKind::Freedraw { points, widths } => {
                if widths.len() == points.len() {
                    widths.remove(index);
                }
                points.remove(index);
            },
            _ => {},
        }
        true
    }
}

/// Width ratios that run parallel to the points, or none at all.
pub open spec fn widths_fit<F>(k: KindV<F>) -> bool {
    k matches KindV::Freedraw { points, widths } ==> widths.len() == 0 || widths.len()
        == points.len()
}

/// Vertex edits keep the width ratios of a freehand stroke parallel to its
/// points, and a removal leaves at least two points.
pub proof fn law_point_edits_keep_widths_parallel<F>(k: KindV<F>, i: int, p: WPoint<F>)
    requires
        widths_fit(k),
        0 <= i < k.points().len(),
    ensures
        i < segment_count(k) ==> widths_fit(insert_point_spec(k, i, p)) && insert_point_spec(
            k,
            i,
            p,
        ).points() == k.points().insert(i + 1, p),
        k.points().len() > 2 ==> widths_fit(remove_point_spec(k, i)) && remove_point_spec(
            k,
            i,
        ).points().len() >= 2,
{
}

/// Removing the vertex that was just inserted gives the stroke back.
pub proof fn law_remove_undoes_insert<F>(k: KindV<F>, seg: int, p: WPoint<F>)
    requires
        widths_fit(k),
        0 <= seg < segment_count(k),
    ensures
        remove_point_spec(insert_point_spec(k, seg, p), seg + 1) == k,
{
    let ins = insert_point_spec(k, seg, p);
    assert(ins.points().remove(seg + 1) =~= k.points());
    if let KindV::Freedraw { points, widths } = k {
        if widths.len() == points.len() {
            assert(widths.insert(seg + 1, widths[seg + 1]).remove(seg + 1) =~= widths);
        }
    }
}

} // verus!
