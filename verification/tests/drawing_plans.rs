use boundless::board::{Handle, PointTarget};
use boundless::element::{
    Element, ElementKind, ElementStyle, FillStyle, LineType, Shadow, StrokeStyle, WBounds, WPoint,
};
use boundless::geometry::{
    fill_color, handles, part_paint, point_targets, rough_passes, world_geometry, Keep, OpPart,
    Outline, PaintColor, PaintRule, PaintWidth, PassRole, WorldGeom,
};
use boundless::raster::{canvas_side, get_pixel, put_pixel, rgb, stroke_seed, surface, Rng, SegGrid, SegRange};

fn style() -> ElementStyle<f64> {
    ElementStyle::plain(2.0, 1.0, 1.0)
}

fn at(x: f64, y: f64) -> WPoint<f64> {
    WPoint { x, y }
}

fn box_of(w: f64, h: f64) -> WBounds<f64> {
    WBounds { x: 0.0, y: 0.0, w, h }
}

fn stroke(points: Vec<WPoint<f64>>, widths: Vec<f64>) -> Element<f64> {
    Element::new(ElementKind::Freedraw { points, widths }, box_of(90.0, 0.0), style())
}

#[test]
fn generates_paths_for_all_shape_kinds() {
    let mut s = style();
    s.background = Some(0xa5d8ff);
    let b = box_of(100.0, 80.0);
    let wave: Vec<WPoint<f64>> =
        (0..20).map(|i| at(i as f64 * 5.0, (i as f64 * 0.7).sin() * 10.0)).collect();
    let kinds = vec![
        Element::new(ElementKind::Rectangle, b, s),
        Element::new(ElementKind::Ellipse, b, s),
        Element::new(ElementKind::Diamond, b, s),
        Element::new(
            ElementKind::Arrow {
                points: vec![at(0.0, 0.0), at(100.0, 60.0)],
                end_arrowhead: true,
                start_arrowhead: false,
            },
            b,
            s,
        ),
        Element::new(ElementKind::Freedraw { points: wave, widths: vec![] }, b, s),
    ];
    for el in &kinds {
        assert_ne!(world_geometry(el, false, true), WorldGeom::Empty);
    }
    assert_eq!(world_geometry(&kinds[1], false, false), WorldGeom::Shape(Outline::Ellipse));
    assert_eq!(world_geometry(&kinds[1], true, false), WorldGeom::Empty);
}

#[test]
fn curved_line_type_renders_for_lines_and_arrows() {
    let pts = || vec![at(0.0, 0.0), at(50.0, 40.0), at(100.0, 0.0)];
    let mut s = style();
    s.line_type = LineType::Curved;
    let b = box_of(100.0, 40.0);
    let line = Element::new(ElementKind::Line { points: pts() }, b, s);
    assert_eq!(
        world_geometry(&line, false, false),
        WorldGeom::Path { curved: true, end_head: false, start_head: false }
    );
    let arrow = Element::new(
        ElementKind::Arrow { points: pts(), end_arrowhead: true, start_arrowhead: true },
        b,
        s,
    );
    assert_eq!(
        world_geometry(&arrow, false, false),
        WorldGeom::Path { curved: true, end_head: true, start_head: true }
    );
}

#[test]
fn legacy_uniform_freedraw_keeps_the_rough_path() {
    let el = stroke(vec![at(0.0, 0.0), at(90.0, 0.0)], vec![]);
    assert_eq!(world_geometry(&el, false, false), WorldGeom::Sampled { passes: 1 });
    assert_eq!(world_geometry(&el, false, true), WorldGeom::Sampled { passes: 2 });
}

#[test]
fn single_point_freedraw_renders_a_pressure_scaled_dot() {
    let el = stroke(vec![at(0.0, 0.0)], vec![0.5]);
    assert_eq!(world_geometry(&el, true, false), WorldGeom::Dot);
}

#[test]
fn single_point_legacy_freedraw_renders_a_base_width_dot() {
    let el = stroke(vec![at(0.0, 0.0)], vec![]);
    assert_eq!(world_geometry(&el, true, false), WorldGeom::Dot);
}

#[test]
fn strokes_with_widths_are_ribbons() {
    let el = stroke(vec![at(0.0, 0.0), at(90.0, 0.0)], vec![1.0, 0.5]);
    assert_eq!(world_geometry(&el, false, true), WorldGeom::Ribbon);
    let none = stroke(vec![], vec![]);
    assert_eq!(world_geometry(&none, true, false), WorldGeom::Empty);
    let unplaced = stroke(vec![], vec![1.0]);
    assert_eq!(world_geometry(&unplaced, true, false), WorldGeom::Empty);
}

#[test]
fn polygons_need_three_points() {
    let poly = |n: usize, smooth: bool| {
        let points = (0..n).map(|i| at(i as f64, 0.0)).collect();
        Element::new(ElementKind::Polygon { points, smooth }, box_of(9.0, 9.0), style())
    };
    assert_eq!(world_geometry(&poly(2, false), false, false), WorldGeom::Empty);
    assert_eq!(world_geometry(&poly(3, false), false, false), WorldGeom::Shape(Outline::Polygon));
    assert_eq!(world_geometry(&poly(3, true), false, false), WorldGeom::Shape(Outline::Spline));
}

#[test]
fn solid_fill_ellipse_emits_fillpath() {
    let mut s = style();
    s.background = Some(0x4A5560);
    s.fill_style = FillStyle::Solid;
    s.opacity = 0.5;
    let passes = rough_passes(&s, 9);
    assert_eq!(passes.len(), 3, "base fill, cross fill and stroke");
    assert_eq!(passes[0].role, PassRole::Base { filled: true });
    assert_eq!(passes[1].role, PassRole::Cross);
    assert_eq!(passes[2].role, PassRole::Base { filled: true });
    assert_eq!((passes[0].seed, passes[1].seed), (9, 10));
    let fills = passes
        .iter()
        .filter(|p| part_paint(OpPart::FillSketch, **p, s.stroke_style).is_some())
        .count();
    assert!(fills >= 2, "solid fill must emit base + cross hachure passes");
    let strokes: Vec<bool> = passes
        .iter()
        .map(|p| part_paint(OpPart::Path, *p, s.stroke_style).is_some())
        .collect();
    assert_eq!(strokes, vec![false, false, true], "fills first, then the stroke");
}

#[test]
fn a_watercolour_is_washed_and_edged() {
    let mut s = style();
    s.background = Some(0x4A5560);
    s.fill_style = FillStyle::Watercolor;
    s.shadow = Some(Shadow { dx: 3.0, dy: 4.0 });
    let passes = rough_passes(&s, u64::MAX);
    let roles: Vec<PassRole> = passes.iter().map(|p| p.role).collect();
    assert_eq!(
        roles,
        vec![
            PassRole::FarShadow,
            PassRole::NearShadow,
            PassRole::Wash(0),
            PassRole::Wash(1),
            PassRole::Wash(2),
            PassRole::Base { filled: false },
            PassRole::Edge(0),
            PassRole::Edge(1),
        ]
    );
    assert_eq!(passes[0].seed, 60);
    assert_eq!(passes[2].seed, 6);
    assert_eq!(passes[7].keep, Keep::Path);
    assert_eq!(passes[0].sketch, PaintRule::Pass, "a shadow keeps its colour");
}

#[test]
fn an_unfilled_shape_has_one_pass() {
    let mut s = style();
    s.fill_style = FillStyle::Solid;
    s.stroke_style = StrokeStyle::Dashed;
    let passes = rough_passes(&s, 3);
    assert_eq!(passes.len(), 1);
    let outline = part_paint(OpPart::Path, passes[0], s.stroke_style).unwrap();
    assert_eq!(outline.color, PaintColor::Stroke);
    assert_eq!(outline.width, PaintWidth::Stroke);
    assert!(outline.dashed);
    let sketch = part_paint(OpPart::FillSketch, passes[0], s.stroke_style).unwrap();
    assert_eq!((sketch.width, sketch.dashed), (PaintWidth::HalfStroke, false));
    assert_eq!(fill_color(&s), 0x1e1e1e);
    s.background = Some(7);
    assert_eq!(fill_color(&s), 7);
}

/// A box resized by dragging `h` to `p`: the sides that the handle moves
/// follow the pointer, then the box is put the right way round.
fn resized(h: Handle, b: WBounds<f64>, p: WPoint<f64>) -> WBounds<f64> {
    let (fx, fy) = h.fraction();
    let (moves_x, moves_y) = h.resizes();
    let (ax, ay) = (
        b.x + b.w * (2 - fx) as f64 / 2.0,
        b.y + b.h * (2 - fy) as f64 / 2.0,
    );
    let (x0, x1) = if moves_x { (ax, p.x) } else { (b.x, b.x + b.w) };
    let (y0, y1) = if moves_y { (ay, p.y) } else { (b.y, b.y + b.h) };
    WBounds { x: x0.min(x1), y: y0.min(y1), w: (x1 - x0).abs(), h: (y1 - y0).abs() }
}

#[test]
fn handle_resize_keeps_anchor() {
    let original = box_of(100.0, 50.0);
    assert_eq!(
        resized(Handle::Se, original, at(150.0, 80.0)),
        WBounds { x: 0.0, y: 0.0, w: 150.0, h: 80.0 }
    );
    assert_eq!(
        resized(Handle::Nw, original, at(-20.0, 10.0)),
        WBounds { x: -20.0, y: 10.0, w: 120.0, h: 40.0 }
    );
    assert_eq!(
        resized(Handle::Se, original, at(-30.0, -10.0)),
        WBounds { x: -30.0, y: -10.0, w: 30.0, h: 10.0 }
    );
    assert_eq!(
        resized(Handle::N, original, at(999.0, -20.0)),
        WBounds { x: 0.0, y: -20.0, w: 100.0, h: 70.0 }
    );
}

#[test]
fn there_are_eight_handles() {
    let h = handles();
    assert_eq!(h.len(), 8);
    assert_eq!(h[0], Handle::Nw);
    assert_eq!(Handle::Se.fraction(), (2, 2));
    assert_eq!(Handle::W.fraction(), (0, 1));
    assert_eq!(Handle::W.resizes(), (true, false));
}

#[test]
fn vertices_come_before_midpoints() {
    let t = point_targets(3);
    assert_eq!(t.len(), 5);
    assert_eq!(t[0], PointTarget::Vertex(0));
    assert_eq!(t[2], PointTarget::Vertex(2));
    assert_eq!(t[3], PointTarget::Midpoint(0));
    assert_eq!(t[4], PointTarget::Midpoint(1));
    assert!(point_targets(0).is_empty());
}

#[test]
fn canvases_are_between_one_and_4096_pixels() {
    assert_eq!(canvas_side(0), 1);
    assert_eq!(canvas_side(200), 200);
    assert_eq!(canvas_side(9999), 4096);
}

#[test]
fn a_background_fills_the_surface() {
    let s = surface(4, 3, Some(0xfffaf0));
    assert_eq!(s.len(), 48);
    let p = get_pixel(&s, 4, 3, 3, 2).unwrap();
    assert_eq!((p[2], p[1], p[0], p[3]), (0xff, 0xfa, 0xf0, 0xff));
    assert!(surface(2, 2, None).iter().all(|b| *b == 0));
    assert_eq!(rgb(0x123456), (0x12, 0x34, 0x56));
}

#[test]
fn pixels_off_the_surface_are_dropped() {
    let mut s = surface(4, 3, None);
    put_pixel(&mut s, 4, 3, -1, 0, [9, 9, 9, 9]);
    put_pixel(&mut s, 4, 3, 4, 0, [9, 9, 9, 9]);
    put_pixel(&mut s, 4, 3, 0, 3, [9, 9, 9, 9]);
    assert!(s.iter().all(|b| *b == 0));
    put_pixel(&mut s, 4, 3, 1, 2, [1, 2, 3, 4]);
    assert_eq!(get_pixel(&s, 4, 3, 1, 2), Some([1, 2, 3, 4]));
    assert_eq!(get_pixel(&s, 4, 3, 1, -1), None);
    assert_eq!(&s[36..40], &[1, 2, 3, 4]);
}

#[test]
fn the_noise_repeats_for_a_seed() {
    let draw = |seed: u64| {
        let mut r = Rng::new(seed);
        (0..4).map(|_| r.next_bits()).collect::<Vec<u32>>()
    };
    assert_eq!(draw(5), draw(5));
    assert_ne!(draw(5), draw(6));
    assert_ne!(stroke_seed(42, 0, 2), stroke_seed(42, 1, 2));
}

#[test]
fn a_grid_cell_lists_the_segments_that_touch_it() {
    let ranges = vec![
        SegRange { c0: 0, c1: 1, r0: 0, r1: 0 },
        SegRange { c0: 1, c1: 2, r0: 0, r1: 1 },
        SegRange { c0: -5, c1: 0, r0: -5, r1: 9 },
    ];
    let g = SegGrid::build(3, 2, &ranges);
    assert_eq!(g.at(0, 0), vec![0, 2]);
    assert_eq!(g.at(1, 0), vec![0, 1]);
    assert_eq!(g.at(2, 1), vec![1]);
    assert_eq!(g.at(0, 1), vec![2]);
}
