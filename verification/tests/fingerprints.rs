use boundless::cache::{RenderCache, TextCache};
use boundless::canvas_cache::{still_wet, CanvasCache, WET_MS};
use boundless::element::{
    Brush, CanvasBrush, CanvasStroke, Element, ElementKind, ElementStyle, FillStyle, LineType,
    Shadow, StrokeStyle, TextDefaults, WBounds, WPoint,
};
use boundless::fingerprint::{fingerprint, text_fingerprint, Fnv, FNV_OFFSET};
use boundless::scene::Scene;

fn bits(v: f64) -> u64 {
    v.to_bits()
}

fn at(x: f64, y: f64) -> WPoint<u64> {
    WPoint { x: bits(x), y: bits(y) }
}

fn bounds(x: f64, y: f64, w: f64, h: f64) -> WBounds<u64> {
    WBounds { x: bits(x), y: bits(y), w: bits(w), h: bits(h) }
}

fn style() -> ElementStyle<u64> {
    ElementStyle::plain(bits(2.0), bits(1.0), bits(1.0))
}

fn sample_element() -> Element<u64> {
    let mut el = Element::new(
        ElementKind::Freedraw {
            points: vec![at(0.0, 0.0), at(50.0, 0.0), at(50.0, 50.0)],
            widths: vec![],
        },
        bounds(10.0, 10.0, 50.0, 50.0),
        style(),
    );
    el.seed = 42;
    el
}

fn moved(el: &Element<u64>, x: f64, y: f64) -> Element<u64> {
    let mut r = el.clone();
    r.move_to(at(x, y));
    r
}

fn canvas_with(stroke: CanvasStroke<u64>) -> Element<u64> {
    let mut el = Element::new(
        ElementKind::Canvas { strokes: vec![stroke] },
        bounds(0.0, 0.0, 100.0, 100.0),
        style(),
    );
    el.seed = 42;
    el
}

fn horizontal_stroke(brush: CanvasBrush) -> CanvasStroke<u64> {
    CanvasStroke {
        points: vec![at(5.0, 50.0), at(95.0, 50.0)],
        widths: vec![],
        color: 0x0000ff,
        width: bits(8.0),
        brush,
        opacity: bits(1.0),
    }
}

fn add_stroke(el: &mut Element<u64>, stroke: CanvasStroke<u64>) {
    if let ElementKind::Canvas { strokes } = &mut el.kind {
        strokes.push(stroke);
    }
}

#[test]
fn fingerprint_is_stable_for_unchanged_element() {
    let el = sample_element();
    assert_eq!(fingerprint(&el), fingerprint(&el));
    assert_eq!(fingerprint(&el), fingerprint(&el.clone()));
}

#[test]
fn fingerprint_changes_on_move() {
    let el = sample_element();
    assert_ne!(fingerprint(&el), fingerprint(&moved(&el, 15.0, 17.0)));
}

#[test]
fn fingerprint_changes_on_restyle() {
    let mut el = sample_element();
    let before = fingerprint(&el);
    el.style.stroke_width = bits(9.0);
    assert_ne!(before, fingerprint(&el));
}

#[test]
fn fingerprint_changes_on_seed_change() {
    let mut el = sample_element();
    let before = fingerprint(&el);
    el.seed = 43;
    assert_ne!(before, fingerprint(&el));
}

#[test]
fn fingerprint_changes_for_every_style_field() {
    fn changed_by(f: impl FnOnce(&mut ElementStyle<u64>)) -> bool {
        let mut el = sample_element();
        let before = fingerprint(&el);
        f(&mut el.style);
        fingerprint(&el) != before
    }
    assert!(changed_by(|s| s.stroke = 0xff0000), "stroke");
    assert!(changed_by(|s| s.background = Some(0xa5d8ff)), "background set");
    assert!(changed_by(|s| s.stroke_width = bits(5.0)), "stroke_width");
    assert!(changed_by(|s| s.roughness = bits(2.5)), "roughness");
    assert!(changed_by(|s| s.stroke_style = StrokeStyle::Dashed), "stroke_style");
    assert!(changed_by(|s| s.line_type = LineType::Curved), "line_type");
    assert!(changed_by(|s| s.fill_style = FillStyle::Gradient), "fill_style");
    assert!(changed_by(|s| s.brush = Some(Brush::DryBrush)), "brush");
    assert!(changed_by(|s| s.hachure_gap = Some(bits(3.0))), "hachure_gap");
    assert!(changed_by(|s| s.fill_weight = Some(bits(2.0))), "fill_weight");
    assert!(changed_by(|s| s.hachure_angle = Some(bits(90.0))), "hachure_angle");
    assert!(changed_by(|s| s.dry_density = Some(bits(0.3))), "dry_density");
    assert!(changed_by(|s| s.dry_width = Some(bits(1.5))), "dry_width");
    assert!(changed_by(|s| s.opacity = bits(0.5)), "opacity");
    assert!(changed_by(|s| s.shadow = Some(Shadow { dx: bits(6.0), dy: bits(8.0) })), "shadow");
}

#[test]
fn fingerprint_changes_on_shadow_move() {
    let mut el = sample_element();
    el.style.shadow = Some(Shadow { dx: bits(6.0), dy: bits(8.0) });
    let before = fingerprint(&el);
    el.style.shadow = Some(Shadow { dx: bits(7.0), dy: bits(8.0) });
    assert_ne!(before, fingerprint(&el));
}

#[test]
fn fingerprint_changes_on_in_bounds_vertex_edit() {
    let mut el = Element::new(
        ElementKind::Freedraw {
            points: vec![at(0.0, 0.0), at(10.0, 0.0), at(10.0, 10.0), at(0.0, 10.0)],
            widths: vec![],
        },
        bounds(0.0, 0.0, 10.0, 10.0),
        style(),
    );
    let before = fingerprint(&el);
    let b = el.bounds;
    assert!(el.set_point(3, at(5.0, 5.0)));
    assert_eq!(el.bounds, b);
    assert_ne!(before, fingerprint(&el), "in-bounds vertex edit must invalidate");
}

#[test]
fn fingerprint_changes_on_text_content() {
    let d = TextDefaults { font_size: bits(20.0), line_box: bits(25.0), zero: bits(0.0) };
    let mut el = Element::new_text(at(0.0, 0.0), "hello".to_string(), style(), &d);
    let before = fingerprint(&el);
    el.set_text("world".to_string());
    assert_ne!(before, fingerprint(&el));
}

#[test]
fn fingerprint_changes_on_canvas_stroke_fields() {
    let mk = |brush: CanvasBrush, color: u32, width: f64| {
        let mut el = Element::new(
            ElementKind::Canvas {
                strokes: vec![CanvasStroke {
                    points: vec![at(0.0, 0.0), at(50.0, 20.0)],
                    widths: vec![bits(0.5), bits(1.0)],
                    color,
                    width: bits(width),
                    brush,
                    opacity: bits(1.0),
                }],
            },
            bounds(0.0, 0.0, 100.0, 80.0),
            style(),
        );
        el.seed = 7;
        el
    };
    let base = fingerprint(&mk(CanvasBrush::Ink, 0x000000, 4.0));
    assert_ne!(base, fingerprint(&mk(CanvasBrush::Watercolor, 0x000000, 4.0)), "brush");
    assert_ne!(base, fingerprint(&mk(CanvasBrush::Ink, 0xff0000, 4.0)), "color");
    assert_ne!(base, fingerprint(&mk(CanvasBrush::Ink, 0x000000, 5.0)), "width");

    let mut el = mk(CanvasBrush::Ink, 0x000000, 4.0);
    let before = fingerprint(&el);
    add_stroke(
        &mut el,
        CanvasStroke {
            points: vec![at(1.0, 1.0), at(2.0, 2.0)],
            widths: vec![],
            color: 0x000000,
            width: bits(4.0),
            brush: CanvasBrush::Ink,
            opacity: bits(1.0),
        },
    );
    assert_ne!(before, fingerprint(&el), "appended stroke");
}

#[test]
fn geometry_cache_hits_until_fingerprint_changes() {
    let mut cache: RenderCache<&str> = RenderCache::new();
    let el = sample_element();
    assert_eq!(cache.geometry(&el), None);
    cache.store(&el, "first");
    assert_eq!(cache.geometry(&el), Some(&"first"));
    assert_eq!(cache.geometry(&el), Some(&"first"));

    let other = moved(&el, 13.0, 13.0);
    assert_eq!(cache.geometry(&other), None);
    cache.store(&other, "third");
    assert_eq!(cache.geometry(&other), Some(&"third"));
    assert_eq!(cache.geometry(&el), None);
}

#[test]
fn bounds_are_part_of_every_fingerprint() {
    let a = Element::new(
        ElementKind::Freedraw { points: vec![at(0.0, 0.0)], widths: vec![] },
        bounds(0.0, 0.0, 0.0, 0.0),
        style(),
    );
    let b = moved(&a, 10.0, 0.0);
    assert_ne!(fingerprint(&a), fingerprint(&b));
}

#[test]
fn text_fingerprint_covers_every_shaping_input() {
    let black = [bits(0.0), bits(0.0), bits(0.0), bits(1.0)];
    let red = [bits(0.0), bits(1.0), bits(0.5), bits(1.0)];
    let fp = |t: &str, size: f64, family: &str, wrap: Option<f64>, color: [u64; 4], zoom: f64| {
        text_fingerprint(t, bits(size), family, wrap.map(bits), color, bits(zoom))
    };
    let base = fp("abc", 20.0, "Excalifont", None, black, 1.0);
    assert_eq!(base, fp("abc", 20.0, "Excalifont", None, black, 1.0));
    assert_ne!(base, fp("abd", 20.0, "Excalifont", None, black, 1.0));
    assert_ne!(base, fp("abc", 21.0, "Excalifont", None, black, 1.0));
    assert_ne!(base, fp("abc", 20.0, "KaiTi", None, black, 1.0));
    assert_ne!(base, fp("abc", 20.0, "Excalifont", Some(40.0), black, 1.0));
    assert_ne!(base, fp("abc", 20.0, "Excalifont", None, red, 1.0));
    assert_ne!(base, fp("abc", 20.0, "Excalifont", None, black, 2.0));
}

#[test]
fn hashing_is_fnv_one_a() {
    let h = Fnv::new();
    assert_eq!(h.finish(), FNV_OFFSET);
    let mut h = Fnv::new();
    h.write(b"a");
    assert_eq!(h.finish(), 0xaf63dc4c8601ec8c);
    let mut h = Fnv::new();
    h.write(b"foobar");
    assert_eq!(h.finish(), 0x85944171f73967e8);
}

#[test]
fn neighbouring_strings_do_not_run_together() {
    let mut a = Fnv::new();
    a.write_str("ab");
    a.write_str("c");
    let mut b = Fnv::new();
    b.write_str("a");
    b.write_str("bc");
    assert_ne!(a.finish(), b.finish());
    let mut c = Fnv::new();
    c.write_opt(None);
    let mut d = Fnv::new();
    d.write_opt(Some(0));
    assert_ne!(c.finish(), d.finish());
}

#[test]
fn shaped_text_is_found_by_its_fingerprint() {
    let mut cache: TextCache<u8> = TextCache::new();
    assert_eq!(cache.shaped(7), None);
    cache.store(7, 1);
    cache.store(8, 2);
    assert_eq!(cache.shaped(7), Some(&1));
    assert_eq!(cache.shaped(8), Some(&2));
    cache.store(7, 3);
    assert_eq!(cache.shaped(7), Some(&3));
}

#[test]
fn a_full_text_cache_starts_over() {
    let mut cache: TextCache<u64> = TextCache::new();
    for k in 0..8192 {
        cache.store(k, k);
    }
    assert_eq!(cache.shaped(0), Some(&0));
    cache.store(9000, 1);
    assert_eq!(cache.shaped(9000), Some(&1));
    assert_eq!(cache.shaped(0), None);
}

#[test]
fn cache_hits_until_fingerprint_changes_then_stales_old() {
    let mut cache: CanvasCache<u32> = CanvasCache::new();
    let el = canvas_with(horizontal_stroke(CanvasBrush::Ink));
    cache.store(&el, 1);
    assert_eq!(cache.image(&el), Some(&1), "hit is stable");

    let mut changed = el.clone();
    add_stroke(&mut changed, horizontal_stroke(CanvasBrush::Ink));
    assert_eq!(cache.image(&changed), None, "new stroke re-rasterizes");
    cache.store(&changed, 2);
    let stale = cache.take_stale();
    assert_eq!(stale, vec![1], "replaced texture is stale");
    assert!(cache.take_stale().is_empty(), "stale drains once");

    let mut scene = Scene::new();
    scene.add(changed.clone());
    cache.retain_scene(&scene);
    assert!(cache.take_stale().is_empty(), "still alive: not stale");
    let empty: Scene<u64> = Scene::new();
    cache.retain_scene(&empty);
    assert_eq!(cache.take_stale().len(), 1, "gone from scene");
    assert_eq!(cache.image(&changed), None);
}

#[test]
fn image_animated_lifecycle_without_living_2_5s() {
    let mut cache: CanvasCache<&str> = CanvasCache::new();
    let mut el = canvas_with(horizontal_stroke(CanvasBrush::Ink));
    let id = el.id;
    assert!(cache.image_animated(&el, 1000).is_none());

    cache.stroke_committed(id, 0, CanvasBrush::Ink, 1000);
    assert!(cache.image_animated(&el, 1000).is_none(), "ink does not animate");
    assert!(cache.take_stale().is_empty());

    cache.stroke_committed(id, 1, CanvasBrush::Watercolor, 1000);
    add_stroke(&mut el, horizontal_stroke(CanvasBrush::Watercolor));
    let commits = cache.image_animated(&el, 1000).unwrap();
    assert_eq!(commits, vec![None, Some(1000)]);
    cache.push_frame(id, "f1");
    assert!(cache.take_stale().is_empty(), "first frame stales nothing");
    assert!(cache.image_animated(&el, 3499).is_some());
    cache.push_frame(id, "f2");
    assert_eq!(cache.take_stale(), vec!["f1"], "frame N-1 goes stale on frame N");

    assert_eq!(WET_MS, 2500);
    assert!(cache.image_animated(&el, 1000 + WET_MS + 50).is_none());
    assert_eq!(cache.take_stale(), vec!["f2"], "last frame flushed");
    assert!(cache.wet_strokes(&el).is_none(), "wet state cleared");
    assert!(cache.image_animated(&el, 1000 + WET_MS + 60).is_none());
    assert!(cache.image_animated(&el, 1000).is_none());
    assert!(cache.take_stale().is_empty(), "flushed once");
}

#[test]
fn loaded_strokes_never_animate() {
    let mut cache: CanvasCache<u8> = CanvasCache::new();
    let mut el = canvas_with(horizontal_stroke(CanvasBrush::Ink));
    add_stroke(&mut el, horizontal_stroke(CanvasBrush::Watercolor));
    cache.stroke_committed(el.id, 1, CanvasBrush::Watercolor, 50);
    assert_eq!(cache.image_animated(&el, 60), Some(vec![None, Some(50)]));
    cache.seed_wet(el.id, 1, &[CanvasBrush::DryBrush, CanvasBrush::Watercolor], 70);
    assert_eq!(cache.wet_strokes(&el), Some(vec![None, None]), "the list is cut to the strokes");
    add_stroke(&mut el, horizontal_stroke(CanvasBrush::Watercolor));
    assert_eq!(cache.wet_strokes(&el), Some(vec![None, None, Some(70)]));
}

#[test]
fn strokes_are_wet_for_the_drying_time() {
    assert!(!still_wet(&vec![], 0));
    assert!(!still_wet(&vec![None], 0));
    assert!(still_wet(&vec![None, Some(10)], 10 + WET_MS - 1));
    assert!(!still_wet(&vec![None, Some(10)], 10 + WET_MS));
    assert!(still_wet(&vec![Some(10)], 5));
}

#[test]
fn a_change_within_four_bytes_changes_the_fingerprint() {
    let mut el = sample_element();
    let before = fingerprint(&el);
    let x = el.bounds.x;
    el.bounds.x = x ^ 0x0008_0400_0000_0000;
    assert_ne!(before, fingerprint(&el), "the upper half of a number");
    el.bounds.x = x ^ 0xffff_ffff;
    assert_ne!(before, fingerprint(&el), "the lower half of a number");
    el.bounds.x = x;
    el.style.stroke ^= 0xff00ff;
    assert_ne!(before, fingerprint(&el));
}

#[test]
fn one_changed_byte_changes_the_fingerprint() {
    let mut el = sample_element();
    el.seed = 42;
    let before = fingerprint(&el);
    assert_eq!(before, fingerprint(&el.clone()));
    el.seed = 43;
    assert_ne!(before, fingerprint(&el));
    el.seed = 42;
    el.style.fill_style = FillStyle::Dense;
    assert_ne!(before, fingerprint(&el));
}
