use boundless::element::{
    Brush, Element, ElementKind, ElementStyle, FillStyle, HitFacts, LineType, StrokeStyle,
    TextAlign, TextDefaults, WBounds, WPoint, DEFAULT_STROKE,
};
use boundless::ids::{new_seed, ElementId};

fn style() -> ElementStyle<f64> {
    ElementStyle::plain(2.0, 1.0, 1.0)
}

fn at(x: f64, y: f64) -> WPoint<f64> {
    WPoint { x, y }
}

fn text(t: &str) -> Element<f64> {
    let d = TextDefaults { font_size: 20.0, line_box: 25.0, zero: 0.0 };
    Element::new_text(at(0.0, 0.0), t.to_string(), style(), &d)
}

fn dist(p: WPoint<f64>, a: WPoint<f64>, b: WPoint<f64>) -> f64 {
    let (dx, dy) = (b.x - a.x, b.y - a.y);
    let len = dx * dx + dy * dy;
    let t = if len == 0.0 {
        0.0
    } else {
        (((p.x - a.x) * dx + (p.y - a.y) * dy) / len).clamp(0.0, 1.0)
    };
    (p.x - a.x - t * dx).hypot(p.y - a.y - t * dy)
}

/// What a pointer at `p` finds out about an element given by its points.
fn facts(el: &Element<f64>, points: &[WPoint<f64>], p: WPoint<f64>, tol: f64) -> HitFacts {
    let b = el.bounds;
    let slack = tol.max(el.style.stroke_width / 2.0 + tol);
    let (cx, cy) = (b.x + b.w / 2.0, b.y + b.h / 2.0);
    let (rx, ry) = (b.w / 2.0, b.h / 2.0);
    let round = if rx > 0.0 && ry > 0.0 {
        ((p.x - cx) / rx).powi(2) + ((p.y - cy) / ry).powi(2) <= 1.0
    } else {
        false
    };
    HitFacts {
        in_box: p.x >= b.x - slack
            && p.x <= b.x + b.w + slack
            && p.y >= b.y - slack
            && p.y <= b.y + b.h + slack,
        in_polygon: false,
        near_outline: false,
        near_ellipse: round,
        near_path: points.windows(2).any(|s| dist(p, s[0], s[1]) <= slack),
    }
}

fn freedraw_with_widths() -> Element<f64> {
    Element::new(
        ElementKind::Freedraw {
            points: vec![at(0.0, 0.0), at(50.0, 0.0), at(50.0, 50.0)],
            widths: vec![0.5, 1.0, 0.8],
        },
        WBounds { x: 10.0, y: 10.0, w: 50.0, h: 50.0 },
        style(),
    )
}

fn line(points: Vec<WPoint<f64>>) -> Element<f64> {
    Element::new(
        ElementKind::Line { points },
        WBounds { x: 0.0, y: 0.0, w: 100.0, h: 40.0 },
        style(),
    )
}

#[test]
fn rect_hit_test_border_and_fill() {
    let mut el = Element::new(
        ElementKind::Rectangle,
        WBounds { x: 0.0, y: 0.0, w: 100.0, h: 50.0 },
        style(),
    );
    assert!(el.hit_test(facts(&el, &[], at(50.0, 25.0), 1.0)));
    assert!(el.hit_test(facts(&el, &[], at(1.0, 25.0), 1.0)));
    assert!(!el.hit_test(facts(&el, &[], at(200.0, 200.0), 1.0)));
    el.style.background = Some(0xff0000);
    assert!(el.hit_test(facts(&el, &[], at(50.0, 25.0), 1.0)));
}

#[test]
fn ellipse_hit_test() {
    let el = Element::new(
        ElementKind::Ellipse,
        WBounds { x: 0.0, y: 0.0, w: 100.0, h: 100.0 },
        style(),
    );
    assert!(el.hit_test(facts(&el, &[], at(50.0, 1.0), 1.5)));
    assert!(el.hit_test(facts(&el, &[], at(50.0, 50.0), 1.0)));
    assert!(!el.hit_test(facts(&el, &[], at(-5.0, -5.0), 1.0)));
}

#[test]
fn line_hit_test() {
    let points = vec![at(0.0, 0.0), at(100.0, 0.0)];
    let el = line(points.clone());
    assert!(el.hit_test(facts(&el, &points, at(50.0, 2.0), 1.0)));
    assert!(!el.hit_test(facts(&el, &points, at(50.0, 20.0), 1.0)));
}

#[test]
fn curved_line_hit_test_follows_the_spline_not_the_chord() {
    let points = vec![at(0.0, 0.0), at(50.0, 50.0), at(100.0, 0.0)];
    let mut curved = line(points.clone());
    curved.style.line_type = LineType::Curved;
    let straight = line(points.clone());
    assert!(curved.hit_follows_curve());
    assert!(!straight.hit_follows_curve());

    let sampled = vec![at(0.0, 0.0), at(21.875, 28.125), at(50.0, 50.0)];
    let on_curve = at(21.875, 28.125);
    assert!(curved.hit_test(facts(&curved, &sampled, on_curve, 1.0)));
    assert!(!straight.hit_test(facts(&straight, &points, on_curve, 1.0)));
}

#[test]
fn each_kind_is_hit_by_its_own_fact() {
    let b = WBounds { x: 0.0, y: 0.0, w: 9.0, h: 9.0 };
    let none = HitFacts {
        in_box: false,
        in_polygon: false,
        near_outline: false,
        near_ellipse: false,
        near_path: false,
    };
    let poly = |smooth: bool| {
        let points = vec![at(0.0, 0.0), at(9.0, 0.0), at(0.0, 9.0)];
        Element::new(ElementKind::Polygon { points, smooth }, b, style())
    };
    assert!(poly(false).hit_test(HitFacts { in_polygon: true, in_box: true, ..none }));
    assert!(poly(true).hit_test(HitFacts { near_outline: true, in_box: true, ..none }));
    assert!(!poly(false).hit_test(none));
    let img = Element::new(ElementKind::Image { asset: "a.png".to_string() }, b, style());
    assert!(img.hit_test(HitFacts { in_box: true, ..none }));
    assert!(!img.hit_test(HitFacts { near_path: true, ..none }));
}

#[test]
fn straight_is_the_default_line_type() {
    assert_eq!(style().line_type, LineType::Straight);
    assert_eq!(LineType::default(), LineType::Straight);
}

#[test]
fn a_plain_style_is_the_default_pen() {
    let s = style();
    assert_eq!(s.stroke, DEFAULT_STROKE);
    assert_eq!(s.background, None);
    assert_eq!(s.stroke_style, StrokeStyle::Solid);
    assert_eq!(s.fill_style, FillStyle::Hachure);
    assert!(!s.stroke_none && s.shadow.is_none() && s.brush.is_none());
    assert_eq!(Brush::default(), Brush::Ink);
    assert_eq!(TextAlign::default(), TextAlign::Left);
}

#[test]
fn bound_labels_name_their_container() {
    let mut label = text("标签");
    let container = Element::new(
        ElementKind::Rectangle,
        WBounds { x: 0.0, y: 0.0, w: 100.0, h: 80.0 },
        style(),
    );
    assert_eq!(label.container_id(), None);
    assert_eq!(label.text_align(), TextAlign::Left);
    if let ElementKind::Text { container_id, .. } = &mut label.kind {
        *container_id = Some(container.id);
    }
    assert!(label.is_text());
    assert_eq!(label.container_id(), Some(container.id));
    assert!(container.is_container() && !label.is_container());
}

#[test]
fn point_edits_keep_widths_parallel() {
    let mut el = freedraw_with_widths();

    assert!(el.insert_point_after(0, at(25.0, 0.0)));
    assert_eq!(el.ink_widths().len(), 4);
    assert_eq!(el.ink_widths()[1], 1.0);

    assert!(el.remove_point(1));
    assert_eq!(el.ink_widths().len(), 3);
    assert_eq!(el.ink_widths(), vec![0.5, 1.0, 0.8]);

    let mut uniform = Element::new(
        ElementKind::Freedraw { points: vec![at(0.0, 0.0), at(100.0, 0.0)], widths: vec![] },
        WBounds { x: 0.0, y: 0.0, w: 100.0, h: 0.0 },
        style(),
    );
    uniform.insert_point_after(0, at(50.0, 0.0));
    assert!(uniform.ink_widths().is_empty());
    uniform.remove_point(1);
    assert!(uniform.ink_widths().is_empty());
}

#[test]
fn rescale_leaves_widths_untouched() {
    let mut el = freedraw_with_widths();
    let points = vec![at(0.0, 0.0), at(100.0, 0.0), at(100.0, 100.0)];
    el.replace_points(points.clone(), WBounds { x: 20.0, y: 20.0, w: 100.0, h: 100.0 });
    assert_eq!(el.ink_widths(), vec![0.5, 1.0, 0.8]);
    assert_eq!(el.relative_points(), points);
    assert_eq!(el.bounds.w, 100.0);
}

#[test]
fn set_absolute_point_inside_bounds_keeps_origin() {
    let mut el = line(vec![at(0.0, 0.0), at(50.0, 20.0), at(100.0, 0.0)]);
    assert!(el.set_point(1, at(50.0, 10.0)));
    assert_eq!(el.relative_points(), vec![at(0.0, 0.0), at(50.0, 10.0), at(100.0, 0.0)]);
    assert_eq!((el.bounds.x, el.bounds.y), (0.0, 0.0));
}

#[test]
fn set_absolute_point_outside_bounds_moves_origin() {
    let mut el = line(vec![at(50.0, 50.0), at(100.0, 60.0)]);
    // The first vertex goes up and left past the box, which then encloses the
    // points (-20, -10) and (100, 60) exactly.
    let bounds = WBounds { x: -20.0, y: -10.0, w: 120.0, h: 70.0 };
    el.replace_points(vec![at(70.0, 60.0), at(120.0, 70.0)], bounds);
    assert!(el.set_point(0, at(0.0, 0.0)));
    let corner = (el.bounds.x, el.bounds.y);
    let abs: Vec<WPoint<f64>> =
        el.relative_points().iter().map(|p| at(p.x + corner.0, p.y + corner.1)).collect();
    assert_eq!(abs, vec![at(-20.0, -10.0), at(100.0, 60.0)]);
    assert_eq!((el.bounds.x, el.bounds.y), (-20.0, -10.0));
    assert_eq!((el.bounds.w, el.bounds.h), (120.0, 70.0));
}

#[test]
fn insert_absolute_point_after_bends_segment() {
    let mut el = line(vec![at(0.0, 0.0), at(100.0, 0.0)]);
    assert!(el.insert_point_after(0, at(50.0, 40.0)));
    assert_eq!(el.relative_points(), vec![at(0.0, 0.0), at(50.0, 40.0), at(100.0, 0.0)]);
    assert!(!el.insert_point_after(5, at(0.0, 0.0)));
    assert_eq!(el.point_count(), 3);
    assert!(!el.insert_point_after(2, at(0.0, 0.0)), "three points have two segments");
    assert_eq!(el.point_count(), 3);
}

#[test]
fn remove_point_keeps_at_least_two() {
    let mut el = line(vec![at(0.0, 0.0), at(50.0, 40.0), at(100.0, 0.0)]);
    assert!(el.remove_point(1));
    assert_eq!(el.relative_points(), vec![at(0.0, 0.0), at(100.0, 0.0)]);
    assert!(!el.remove_point(0));
    assert_eq!(el.relative_points().len(), 2);
    assert!(!el.remove_point(9));
    assert_eq!(el.relative_points().len(), 2);
}

#[test]
fn polygons_gain_and_lose_points() {
    let points = vec![at(0.0, 0.0), at(10.0, 0.0), at(10.0, 10.0)];
    let b = WBounds { x: 0.0, y: 0.0, w: 10.0, h: 10.0 };
    let mut el = Element::new(ElementKind::Polygon { points, smooth: true }, b, style());
    assert_eq!(el.segments(), 3);
    assert!(el.insert_point_after(2, at(0.0, 10.0)), "the closing segment");
    assert_eq!(el.relative_points()[3], at(0.0, 10.0));
    assert!(!el.insert_point_after(4, at(0.0, 0.0)));
    assert!(el.remove_point(0) && el.remove_point(0) && !el.remove_point(0));
    assert_eq!(el.relative_points(), vec![at(10.0, 10.0), at(0.0, 10.0)]);
}

#[test]
fn point_edits_noop_for_shapes() {
    let b = WBounds { x: 0.0, y: 0.0, w: 100.0, h: 50.0 };
    let mut el = Element::new(ElementKind::Rectangle, b, style());
    let before = el.clone();
    assert!(!el.set_point(0, at(5.0, 5.0)));
    assert!(!el.insert_point_after(0, at(5.0, 5.0)));
    assert!(!el.remove_point(0));
    el.replace_points(vec![at(1.0, 1.0)], WBounds { x: 1.0, y: 1.0, w: 1.0, h: 1.0 });
    assert_eq!(el, before);
    assert_eq!(el.bounds, b);
}

#[test]
fn a_new_text_takes_the_defaults() {
    let t = text("abc");
    assert_eq!(t.bounds, WBounds { x: 0.0, y: 0.0, w: 0.0, h: 25.0 });
    assert_eq!(t.font_family(), "Excalifont");
    assert_eq!(t.text(), Some("abc".to_string()));
    assert_eq!(t.wrap_width(), None);
    assert_eq!(t.min_height(), None);
    let r = freedraw_with_widths();
    assert_eq!(r.font_family(), ".SystemUIFont");
    assert_eq!(r.text(), None);
    assert!(r.is_point_based() && !r.is_linear());
}

#[test]
fn text_setters_change_one_thing_each() {
    let mut t = text("abc");
    t.set_text("xyz".to_string());
    t.set_font_size(40.0);
    t.set_font_family("Caveat".to_string());
    t.set_text_align(TextAlign::Right);
    t.set_text_box(Some(80.0), Some(60.0));
    t.move_to(at(7.0, 8.0));
    match &t.kind {
        ElementKind::Text { text, font_size, font_family, wrap_width, min_height, text_align, .. } => {
            assert_eq!(text, "xyz");
            assert_eq!(*font_size, 40.0);
            assert_eq!(font_family, "Caveat");
            assert_eq!((*wrap_width, *min_height), (Some(80.0), Some(60.0)));
            assert_eq!(*text_align, TextAlign::Right);
        }
        other => panic!("{other:?}"),
    }
    assert_eq!((t.bounds.x, t.bounds.y), (7.0, 8.0));
}

#[test]
fn ids_print_like_uuids() {
    let id = ElementId { value: 0x550e8400_e29b_41d4_a716_446655440000 };
    assert_eq!(id.to_text(), "550e8400-e29b-41d4-a716-446655440000");
    assert_eq!(id.short_text(), "550e8400");
    assert_eq!(id.bytes()[0], 0x55);
    assert_eq!(id.bytes()[15], 0x00);
    assert_eq!(id.bytes(), id.value.to_be_bytes());
    assert!(id.has_prefix("550e") && !id.has_prefix("550E"));
    assert_eq!(uuid::Uuid::from_u128(id.value).to_string(), id.to_text());
}

#[test]
fn random_ids_are_version_four() {
    let a = ElementId::random();
    let b = ElementId::random();
    assert_ne!(a, b);
    for id in [a, b] {
        assert_eq!(id.to_text().len(), 36);
        assert_eq!(id.to_text().as_bytes()[14], b'4');
        assert_eq!(uuid::Uuid::from_u128(id.value).get_version_num(), 4);
    }
    assert_ne!(new_seed(), new_seed());
    assert_eq!(new_seed() >> 62, 2);
}
