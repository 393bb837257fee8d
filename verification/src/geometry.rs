//! How an element becomes paint: which geometry it has, which rough passes
//! make it up, and how each pass is coloured.

use vstd::prelude::*;
use crate::board::{Handle, PointTarget};
use crate::element::{Element, ElementKind, ElementStyle, ElementV, FillStyle, KindV, LineType, StrokeStyle};

verus! {

/// The outlines that a rough shape is drawn from.
#[derive(Clone, Copy, Debug, PartialEq, Eq, Structural)]
pub enum Outline {
    Rectangle,
    Ellipse,
    Diamond,
    Polygon,
    /// A closed spline through the points.
    Spline,
}

/// The world geometry of an element.
#[derive(Clone, Copy, Debug, PartialEq, Eq, Structural)]
pub enum WorldGeom {
    /// Nothing to paint.
    Empty,
    /// A closed shape, drawn by the passes of [`rough_passes`].
    Shape(Outline),
    /// A polyline or a curve through the points, with its arrowheads.
    Path { curved: bool, end_head: bool, start_head: bool },
    /// A freehand stroke of uniform width, in one or two wavy passes.
    Sampled { passes: usize },
    /// A freehand stroke of varying width, as a filled ribbon.
    Ribbon,
    /// A single point, as a filled dot.
    Dot,
}

/// The world geometry of an element; `tiny` says whether its box has no
/// extent, `bold` whether its roughness asks for a double stroke.
pub open spec fn geometry_of<F>(e: ElementV<F>, tiny: bool, bold: bool) -> WorldGeom {
    let n = e.kind.points().len();
    match e.kind {
        KindV::Rectangle => if tiny {
            WorldGeom::Empty
        } else {
            WorldGeom::Shape(Outline::Rectangle)
        },
        KindV::Ellipse => if tiny {
            WorldGeom::Empty
        } else {
            WorldGeom::Shape(Outline::Ellipse)
        },
        KindV::Diamond => if tiny {
            WorldGeom::Empty
        } else {
            WorldGeom::Shape(Outline::Diamond)
        },
        KindV::Polygon { smooth, .. } => if n < 3 {
            WorldGeom::Empty
        } else if smooth {
            WorldGeom::Shape(Outline::Spline)
        } else {
            WorldGeom::Shape(Outline::Polygon)
        },
        KindV::Freedraw { widths, .. } => if n == 0 {
            WorldGeom::Empty
        } else if n == 1 {
            WorldGeom::Dot
        } else if widths.len() > 0 {
            WorldGeom::Ribbon
        } else {
            WorldGeom::Sampled {
                passes: if bold {
                    2
                } else {
                    1
                },
            }
        },
        KindV::Line { .. } => if n == 0 {
            WorldGeom::Empty
        } else if n == 1 {
            WorldGeom::Dot
        } else {
            WorldGeom::Path {
                curved: e.style.line_type == LineType::Curved,
                end_head: false,
                start_head: false,
            }
        },
        KindV::Arrow { end_arrowhead, start_arrowhead, .. } => if n == 0 {
            WorldGeom::Empty
        } else if n == 1 {
            WorldGeom::Dot
        } else {
            WorldGeom::Path {
                curved: e.style.line_type == LineType::Curved,
                end_head: end_arrowhead,
                start_head: start_arrowhead,
            }
        },
        _ => WorldGeom::Empty,
    }
}

/// Chooses the world geometry of an element.
pub fn world_geometry<F: Copy>(el: &Element<F>, tiny: bool, bold: bool) -> (r: WorldGeom)
    ensures
        r == geometry_of(el@, tiny, bold),
        !tiny ==> (r == WorldGeom::Shape(Outline::Rectangle) <==> el@.kind is Rectangle),
        !tiny ==> (r == WorldGeom::Shape(Outline::Ellipse) <==> el@.kind is Ellipse),
        !tiny ==> (r == WorldGeom::Shape(Outline::Diamond) <==> el@.kind is Diamond),
        r is Path ==> el@.kind is Line || el@.kind is Arrow,
        r is Ribbon || r is Sampled ==> el@.kind is Freedraw,
{
    let n: usize = el.point_count();
    let curved: bool = el.style.line_type == LineType::Curved;
    match &el.kind {
        ElementKind::Rectangle => if tiny {
            WorldGeom::Empty
        } else {
            WorldGeom::Shape(Outline::Rectangle)
        },
        ElementKind::Ellipse => if tiny {
            WorldGeom::Empty
        } else {
            WorldGeom::Shape(Outline::Ellipse)
        },
        ElementKind::Diamond => if tiny {
            WorldGeom::Empty
        } else {
            WorldGeom::Shape(Outline::Diamond)
        },
        ElementKind::Polygon { smooth, .. } => if n < 3 {
            WorldGeom::Empty
        } else if *smooth {
            WorldGeom::Shape(Outline::Spline)
        } else {
            WorldGeom::Shape(Outline::Polygon)
        },
        ElementKind::Freedraw { widths, .. } => if n == 0 {
            WorldGeom::Empty
        } else if n == 1 {
            WorldGeom::Dot
        } else if widths.len() > 0 {
            WorldGeom::Ribbon
        } else {
            let passes: usize = if bold {
                2
            } else {
                1
            };
            WorldGeom::Sampled { passes }
        },
        ElementKind::Line { .. } => if n == 0 {
            WorldGeom::Empty
        } else if n == 1 {
            WorldGeom::Dot
        } else {
            WorldGeom::Path { curved, end_head: false, start_head: false }
        },
        ElementKind::Arrow { end_arrowhead, start_arrowhead, .. } => if n == 0 {
            WorldGeom::Empty
        } else if n == 1 {
            WorldGeom::Dot
        } else {
            WorldGeom::Path { curved, end_head: *end_arrowhead, start_head: *start_arrowhead }
        },
        _ => WorldGeom::Empty,
    }
}

/// What a rough pass draws.
#[derive(Clone, Copy, Debug, PartialEq, Eq, Structural)]
pub enum PassRole {
    /// The far copy of a soft shadow.
    FarShadow,
    /// The near copy of a soft shadow.
    NearShadow,
    /// The outline and, unless the washes fill it, the fill.
    Base { filled: bool },
    /// The second fill across the first.
    Cross,
    /// One of the three washes of a watercolour.
    Wash(u8),
    /// One of the two edges where the colour pools.
    Edge(u8),
}

/// Which parts of a generated pass are kept.
#[derive(Clone, Copy, Debug, PartialEq, Eq, Structural)]
pub enum Keep {
    All,
    /// Everything but the outline.
    Fill,
    /// The hachure lines of the fill.
    Sketch,
    /// The outline.
    Path,
}

/// What decides the colour and the width of a part.
#[derive(Clone, Copy, Debug, PartialEq, Eq, Structural)]
pub enum PaintRule {
    /// The element's style.
    Style,
    /// The element's colour at the width of its fill.
    FillWeight,
    /// The pass itself.
    Pass,
}

/// One rough pass: the seed it is generated with, what is kept of it, and what
/// colours the hachure lines and the outline.
#[derive(Clone, Copy, Debug, PartialEq, Eq, Structural)]
pub struct RoughPass {
    pub role: PassRole,
    pub seed: u64,
    pub keep: Keep,
    pub sketch: PaintRule,
    pub path: PaintRule,
}

/// A seed moved on by `k`, around the end of the range.
pub open spec fn moved_seed(seed: u64, k: u64) -> u64 {
    seed.wrapping_add(k)
}

/// A pass that paints by itself.
pub open spec fn own_pass(role: PassRole, seed: u64, keep: Keep) -> RoughPass {
    RoughPass { role, seed, keep, sketch: PaintRule::Pass, path: PaintRule::Pass }
}

/// The passes of a soft shadow, below everything else.
pub open spec fn shadow_passes(shadow: bool, seed: u64) -> Seq<RoughPass> {
    if shadow {
        seq![
            own_pass(PassRole::FarShadow, moved_seed(seed, 61), Keep::Fill),
            own_pass(PassRole::NearShadow, moved_seed(seed, 61), Keep::Fill),
        ]
    } else {
        Seq::empty()
    }
}

/// The base pass, as far as it is kept; its hachure lines have the width of the
/// fill.
pub open spec fn base_pass(filled: bool, fill: FillStyle, seed: u64, keep: Keep) -> RoughPass {
    RoughPass {
        role: PassRole::Base { filled: filled && fill != FillStyle::Watercolor },
        seed,
        keep,
        sketch: if filled {
            PaintRule::FillWeight
        } else {
            PaintRule::Style
        },
        path: PaintRule::Style,
    }
}

/// The passes above the shadow, fills before outlines: a solid fill has a
/// second one across it, a watercolour three washes and two edges.
pub open spec fn body_passes(filled: bool, fill: FillStyle, seed: u64) -> Seq<RoughPass> {
    if filled && fill == FillStyle::Solid {
        seq![
            base_pass(filled, fill, seed, Keep::Fill),
            RoughPass {
                role: PassRole::Cross,
                seed: moved_seed(seed, 1),
                keep: Keep::Sketch,
                sketch: PaintRule::Style,
                path: PaintRule::Style,
            },
            base_pass(filled, fill, seed, Keep::Path),
        ]
    } else if filled && fill == FillStyle::Watercolor {
        seq![
            own_pass(PassRole::Wash(0), moved_seed(seed, 7), Keep::Sketch),
            own_pass(PassRole::Wash(1), moved_seed(seed, 14), Keep::Sketch),
            own_pass(PassRole::Wash(2), moved_seed(seed, 21), Keep::Sketch),
            base_pass(filled, fill, seed, Keep::Path),
            own_pass(PassRole::Edge(0), moved_seed(seed, 28), Keep::Path),
            own_pass(PassRole::Edge(1), moved_seed(seed, 35), Keep::Path),
        ]
    } else {
        seq![base_pass(filled, fill, seed, Keep::All)]
    }
}

/// The passes of a closed shape in paint order.
pub open spec fn passes_of<F>(s: ElementStyle<F>, seed: u64) -> Seq<RoughPass> {
    shadow_passes(s.shadow is Some, seed) + body_passes(s.background is Some, s.fill_style, seed)
}

/// Makes the base pass.
fn base<F: Copy>(s: &ElementStyle<F>, seed: u64, keep: Keep) -> (r: RoughPass)
    ensures
        r == base_pass(s.background is Some, s.fill_style, seed, keep),
{
    let filled: bool = s.background.is_some();
    RoughPass {
        role: PassRole::Base { filled: filled && s.fill_style != FillStyle::Watercolor },
        seed,
        keep,
        sketch: if filled {
            PaintRule::FillWeight
        } else {
            PaintRule::Style
        },
        path: PaintRule::Style,
    }
}

/// Lists the passes of a closed shape in paint order.
pub fn rough_passes<F: Copy>(s: &ElementStyle<F>, seed: u64) -> (r: Vec<RoughPass>)
    ensures
        r@ == passes_of(*s, seed),
{
    let filled: bool = s.background.is_some();
    let mut r: Vec<RoughPass> = Vec::new();
    if s.shadow.is_some() {
        push_own(&mut r, PassRole::FarShadow, seed.wrapping_add(61), Keep::Fill);
        push_own(&mut r, PassRole::NearShadow, seed.wrapping_add(61), Keep::Fill);
    }
    assert(r@ =~= shadow_passes(s.shadow is Some, seed));
    let ghost below = r@;
    if filled && s.fill_style == FillStyle::Solid {
        r.push(base(s, seed, Keep::Fill));
        r.push(
            RoughPass {
                role: PassRole::Cross,
                seed: seed.wrapping_add(1),
                keep: Keep::Sketch,
                sketch: PaintRule::Style,
                path: PaintRule::Style,
            },
        );
        r.push(base(s, seed, Keep::Path));
    } else if filled && s.fill_style == FillStyle::Watercolor {
        push_own(&mut r, PassRole::Wash(0), seed.wrapping_add(7), Keep::Sketch);
        push_own(&mut r, PassRole::Wash(1), seed.wrapping_add(14), Keep::Sketch);
        push_own(&mut r, PassRole::Wash(2), seed.wrapping_add(21), Keep::Sketch);
        r.push(base(s, seed, Keep::Path));
        push_own(&mut r, PassRole::Edge(0), seed.wrapping_add(28), Keep::Path);
        push_own(&mut r, PassRole::Edge(1), seed.wrapping_add(35), Keep::Path);
    } else {
        r.push(base(s, seed, Keep::All));
    }
    assert(r@ =~= below + body_passes(filled, s.fill_style, seed));
    r
}

fn push_own(r: &mut Vec<RoughPass>, role: PassRole, seed: u64, keep: Keep)
    ensures
        final(r)@ == old(r)@.push(own_pass(role, seed, keep)),
{
    r.push(
        RoughPass { role, seed, keep, sketch: PaintRule::Pass, path: PaintRule::Pass },
    );
}

/// The parts of a generated drawing.
#[derive(Clone, Copy, Debug, PartialEq, Eq, Structural)]
pub enum OpPart {
    FillPath,
    FillSketch,
    Path,
}

/// The colour of a painted part.
#[derive(Clone, Copy, Debug, PartialEq, Eq, Structural)]
pub enum PaintColor {
    Stroke,
    Fill,
    Pass,
}

/// The line width of a painted part; none for a filled one.
#[derive(Clone, Copy, Debug, PartialEq, Eq, Structural)]
pub enum PaintWidth {
    Filled,
    Stroke,
    HalfStroke,
    FillWeight,
    Pass,
}

/// How a part is painted.
#[derive(Clone, Copy, Debug, PartialEq, Eq, Structural)]
pub struct PartPaint {
    pub color: PaintColor,
    pub width: PaintWidth,
    pub dashed: bool,
}

/// How a part of a pass is painted: the fill by the fill colour, hachure lines
/// at half the stroke width and outlines by the stroke, unless the rule says
/// otherwise; only outlines are dashed.
pub open spec fn part_paint_of(part: OpPart, p: RoughPass, stroke: StrokeStyle) -> PartPaint {
    match part {
        OpPart::FillPath => PartPaint {
            color: PaintColor::Fill,
            width: PaintWidth::Filled,
            dashed: false,
        },
        OpPart::FillSketch => PartPaint {
            color: if p.sketch == PaintRule::Pass {
                PaintColor::Pass
            } else {
                PaintColor::Fill
            },
            width: match p.sketch {
                PaintRule::Style => PaintWidth::HalfStroke,
                PaintRule::FillWeight => PaintWidth::FillWeight,
                PaintRule::Pass => PaintWidth::Pass,
            },
            dashed: false,
        },
        OpPart::Path => PartPaint {
            color: if p.path == PaintRule::Pass {
                PaintColor::Pass
            } else {
                PaintColor::Stroke
            },
            width: if p.path == PaintRule::Pass {
                PaintWidth::Pass
            } else {
                PaintWidth::Stroke
            },
            dashed: stroke == StrokeStyle::Dashed,
        },
    }
}

/// Whether a part of a pass is kept.
pub open spec fn kept(part: OpPart, keep: Keep) -> bool {
    match keep {
        Keep::All => true,
        Keep::Fill => part != OpPart::Path,
        Keep::Sketch => part == OpPart::FillSketch,
        Keep::Path => part == OpPart::Path,
    }
}

/// How a part of a pass is painted; none when it is not kept.
pub fn part_paint(part: OpPart, p: RoughPass, stroke: StrokeStyle) -> (r: Option<PartPaint>)
    ensures
        r == (if kept(part, p.keep) {
            Some(part_paint_of(part, p, stroke))
        } else {
            None
        }),
{
    let keep: bool = match p.keep {
        Keep::All => true,
        Keep::Fill => part != OpPart::Path,
        Keep::Sketch => part == OpPart::FillSketch,
        Keep::Path => part == OpPart::Path,
    };
    if !keep {
        return None;
    }
    Some(
        match part {
            OpPart::FillPath => PartPaint {
                color: PaintColor::Fill,
                width: PaintWidth::Filled,
                dashed: false,
            },
            OpPart::FillSketch => PartPaint {
                color: if p.sketch == PaintRule::Pass {
                    PaintColor::Pass
                } else {
                    PaintColor::Fill
                },
                width: match p.sketch {
                    PaintRule::Style => PaintWidth::HalfStroke,
                    PaintRule::FillWeight => PaintWidth::FillWeight,
                    PaintRule::Pass => PaintWidth::Pass,
                },
                dashed: false,
            },
            OpPart::Path => PartPaint {
                color: if p.path == PaintRule::Pass {
                    PaintColor::Pass
                } else {
                    PaintColor::Stroke
                },
                width: if p.path == PaintRule::Pass {
                    PaintWidth::Pass
                } else {
                    PaintWidth::Stroke
                },
                dashed: stroke == StrokeStyle::Dashed,
            },
        },
    )
}

/// The colour of the fill: the background, or the stroke where there is none.
pub fn fill_color<F: Copy>(s: &ElementStyle<F>) -> (r: u32)
    ensures
        r == (match s.background {
            Some(c) => c,
            None => s.stroke,
        }),
{
    match s.background {
        Some(c) => c,
        None => s.stroke,
    }
}

/// Twice the place of a handle on the selection box, as a fraction of its
/// width and height.
pub open spec fn handle_halves(h: Handle) -> (int, int) {
    match h {
        Handle::Nw => (0, 0),
        Handle::N => (1, 0),
        Handle::Ne => (2, 0),
        Handle::E => (2, 1),
        Handle::Se => (2, 2),
        Handle::S => (1, 2),
        Handle::Sw => (0, 2),
        Handle::W => (0, 1),
    }
}

impl Handle {
    /// Twice the place of the handle on the box, in halves of its width and
    /// height.
    pub fn fraction(self) -> (r: (u8, u8))
        ensures
            r.0 == handle_halves(self).0,
            r.1 == handle_halves(self).1,
    {
        match self {
            Handle::Nw => (0, 0),
            Handle::N => (1, 0),
            Handle::Ne => (2, 0),
            Handle::E => (2, 1),
            Handle::Se => (2, 2),
            Handle::S => (1, 2),
            Handle::Sw => (0, 2),
            Handle::W => (0, 1),
        }
    }

    /// Whether a drag of the handle changes the width and the height.
    pub fn resizes(self) -> (r: (bool, bool))
        ensures
            r.0 == (handle_halves(self).0 != 1),
            r.1 == (handle_halves(self).1 != 1),
    {
        let (x, y): (u8, u8) = self.fraction();
        (x != 1, y != 1)
    }
}

/// The handles in the order in which they are drawn and tested.
pub fn handles() -> (r: [Handle; 8])
    ensures
        r@ == seq![
            Handle::Nw,
            Handle::N,
            Handle::Ne,
            Handle::E,
            Handle::Se,
            Handle::S,
            Handle::Sw,
            Handle::W,
        ],
{
    [Handle::Nw, Handle::N, Handle::Ne, Handle::E, Handle::Se, Handle::S, Handle::Sw, Handle::W]
}

/// The control points of a polyline with `n` points: all vertices, then the
/// middle of every segment.
pub open spec fn targets_of(n: nat) -> Seq<PointTarget> {
    Seq::new(n, |i: int| PointTarget::Vertex(i as usize)) + Seq::new(
        if n == 0 {
            0
        } else {
            (n - 1) as nat
        },
        |i: int| PointTarget::Midpoint(i as usize),
    )
}

/// Lists the control points of a polyline with `n` points.
pub fn point_targets(n: usize) -> (r: Vec<PointTarget>)
    ensures
        r@ == targets_of(n as nat),
{
    let mut r: Vec<PointTarget> = Vec::new();
    let mut i: usize = 0;
    while i < n
        invariant
            i <= n,
            r@ == Seq::new(i as nat, |k: int| PointTarget::Vertex(k as usize)),
        decreases n - i,
    {
        r.push(PointTarget::Vertex(i));
        i += 1;
        assert(r@ =~= Seq::new(i as nat, |k: int| PointTarget::Vertex(k as usize)));
    }
    let ghost vertices = r@;
    let mut k: usize = 0;
    assert(r@ =~= vertices + Seq::new(0, |j: int| PointTarget::Midpoint(j as usize)));
    while n > 0 && k < n - 1
        invariant
            k <= n,
            n > 0 ==> k <= n - 1,
            n == 0 ==> k == 0,
            r@ == vertices + Seq::new(k as nat, |j: int| PointTarget::Midpoint(j as usize)),
        decreases n - k,
    {
        r.push(PointTarget::Midpoint(k));
        k += 1;
        assert(r@ =~= vertices + Seq::new(k as nat, |j: int| PointTarget::Midpoint(j as usize)));
    }
    r
}

/// Every handle has an opposite one: as far from the one edge as it is from the
/// other.
pub proof fn law_every_handle_has_an_opposite(h: Handle)
    ensures
        exists|o: Handle|
            #[trigger] handle_halves(o).0 == 2 - handle_halves(h).0 && handle_halves(o).1 == 2
                - handle_halves(h).1,
{
    let o = match h {
        Handle::Nw => Handle::Se,
        Handle::N => Handle::S,
        Handle::Ne => Handle::Sw,
        Handle::E => Handle::W,
        Handle::Se => Handle::Nw,
        Handle::S => Handle::N,
        Handle::Sw => Handle::Ne,
        Handle::W => Handle::E,
    };
    assert(handle_halves(o).0 == 2 - handle_halves(h).0);
}

/// A solid fill is drawn by two passes that keep their hachure lines, the
/// second across the first, and its outline above both.
pub proof fn law_solid_fills_are_crossed<F>(s: ElementStyle<F>, seed: u64)
    requires
        s.background is Some,
        s.fill_style == FillStyle::Solid,
    ensures
        ({
            let p = passes_of(s, seed);
            let n = p.len();
            &&& n >= 3
            &&& p[n - 3].role == PassRole::Base { filled: true }
            &&& p[n - 2].role == PassRole::Cross
            &&& kept(OpPart::FillSketch, p[n - 3].keep)
            &&& kept(OpPart::FillSketch, p[n - 2].keep)
            &&& p[n - 2].seed != p[n - 3].seed
            &&& kept(OpPart::Path, p[n - 1].keep)
        }),
{
    assert(seed.wrapping_add(1) != seed);
}

/// Whether a pass paints a fill.
pub open spec fn paints_fill(p: RoughPass) -> bool {
    (kept(OpPart::FillPath, p.keep) || kept(OpPart::FillSketch, p.keep)) && match p.role {
        PassRole::Base { filled } => filled,
        _ => true,
    }
}

/// A pass that keeps the outline comes before no pass that paints a fill:
/// fills are painted first, then strokes.
pub proof fn law_fills_come_before_strokes<F>(s: ElementStyle<F>, seed: u64, i: int, j: int)
    requires
        0 <= i < j < passes_of(s, seed).len(),
        kept(OpPart::Path, passes_of(s, seed)[i].keep),
    ensures
        !paints_fill(passes_of(s, seed)[j]),
{
    let below = shadow_passes(s.shadow is Some, seed);
    let body = body_passes(s.background is Some, s.fill_style, seed);
    let n = below.len();
    if i < n {
        assert(passes_of(s, seed)[i] == below[i]);
    } else {
        assert(passes_of(s, seed)[i] == body[i - n]);
        assert(passes_of(s, seed)[j] == body[j - n]);
    }
}

/// A shadow lies below everything else and is painted in its own dark colour,
/// whatever the fill.
pub proof fn law_shadows_keep_their_colour<F>(s: ElementStyle<F>, seed: u64)
    requires
        s.shadow is Some,
    ensures
        ({
            let p = passes_of(s, seed);
            &&& p[0].role == PassRole::FarShadow
            &&& p[1].role == PassRole::NearShadow
            &&& part_paint_of(OpPart::FillSketch, p[0], s.stroke_style).color == PaintColor::Pass
            &&& part_paint_of(OpPart::FillSketch, p[1], s.stroke_style).color == PaintColor::Pass
        }),
{
}

} // verus!
