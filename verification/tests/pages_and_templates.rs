use boundless::element::{
    Element, ElementKind, ElementStyle, Shadow, TextAlign, WBounds, WPoint,
};
use boundless::ids::ElementId;
use boundless::pages::{page_at, push_page, Page, PageRatio};
use boundless::templates::{
    by_name, check_savable, check_stamp, copy_with_ids, first_line_of, missing_message, overlap_warnings,
    rotate_element, sanitize_name, stamp, summary_texts, template_path, ComicTemplate, StampError,
    TemplateKind, TemplateSummary, Turned,
};

const PAGE_GAP: f64 = 240.0;

fn rect(x: f64, y: f64, w: f64, h: f64, fill: Option<u32>) -> Element<f64> {
    let mut style = ElementStyle::plain(2.0, 1.0, 1.0);
    style.shadow = Some(Shadow { dx: 10.0, dy: 12.0 });
    style.background = fill;
    Element::new(ElementKind::Rectangle, WBounds { x, y, w, h }, style)
}

fn bound_label(container: &Element<f64>, text: &str) -> Element<f64> {
    let b = container.bounds;
    Element::new(
        ElementKind::Text {
            text: text.to_string(),
            font_size: 20.0,
            font_family: "Caveat".to_string(),
            wrap_width: Some(b.w - 12.0),
            min_height: None,
            container_id: Some(container.id),
            text_align: TextAlign::Center,
            anchor: None,
        },
        WBounds { x: b.x + 10.0, y: b.y + 10.0, w: b.w - 20.0, h: 25.0 },
        ElementStyle::plain(2.0, 0.0, 1.0),
    )
}

fn sample_template() -> ComicTemplate<f64> {
    let head = rect(100.0, 100.0, 80.0, 80.0, Some(0xffd8a8));
    let body = rect(110.0, 190.0, 120.0, 90.0, Some(0xa5d8ff));
    let label = bound_label(&head, "小明");
    ComicTemplate {
        name: "小明".to_string(),
        kind: TemplateKind::Character,
        elements: vec![head, body, label],
    }
}

fn shifted(elements: &[Element<f64>], dx: f64, dy: f64) -> Vec<Element<f64>> {
    elements
        .iter()
        .map(|e| {
            let mut e = e.clone();
            e.bounds.x += dx;
            e.bounds.y += dy;
            e
        })
        .collect()
}

/// How much of the smaller of two elements is covered, where that is telling.
fn overlap(a: &Element<f64>, b: &Element<f64>) -> Option<String> {
    let (p, q) = (a.bounds, b.bounds);
    if p.w < 40.0 || p.h < 40.0 || q.w < 40.0 || q.h < 40.0 {
        return None;
    }
    let (s, t) = ((p.w * p.h).max(1.0), (q.w * q.h).max(1.0));
    let (small, big) = if s <= t { (s, t) } else { (t, s) };
    let iw = (p.x + p.w).min(q.x + q.w) - p.x.max(q.x);
    let ih = (p.y + p.h).min(q.y + q.h) - p.y.max(q.y);
    if big / small > 6.0 || iw <= 0.0 || ih <= 0.0 || iw * ih / small < 0.5 {
        return None;
    }
    Some(format!("{:.0}", iw * ih / small * 100.0))
}

fn warnings(existing: Vec<Element<f64>>, incoming: Vec<Element<f64>>) -> Vec<String> {
    let table: Vec<Vec<Option<String>>> = incoming
        .iter()
        .map(|n| existing.iter().map(|e| overlap(n, e)).collect())
        .collect();
    overlap_warnings(&existing, &incoming, &table)
}

fn next_page(pages: &mut Vec<Page<f64>>, title: Option<&str>, ratio: PageRatio) -> usize {
    let x = match pages.last() {
        Some(p) => p.x + p.w + PAGE_GAP,
        None => 0.0,
    };
    let (w, h) = ratio.size();
    let at = WBounds { x, y: 0.0, w: w as f64, h: h as f64 };
    push_page(pages, title.map(|t| t.to_string()), at)
}

#[test]
fn pages_grow_horizontally_without_overlap() {
    let mut pages: Vec<Page<f64>> = Vec::new();
    for r in [PageRatio::Ratio16_9, PageRatio::Ratio9_16, PageRatio::Ratio4_3] {
        next_page(&mut pages, None, r);
    }
    assert_eq!(pages.len(), 3);
    assert_eq!((pages[0].x, pages[0].y), (0.0, 0.0));
    assert_eq!(pages[0].w, 1600.0);
    assert_eq!(pages[1].x, 1600.0 + PAGE_GAP);
    assert_eq!(pages[2].x, pages[1].x + pages[1].w + PAGE_GAP);
    assert!(pages.iter().all(|p| p.y == 0.0));
    for i in 0..pages.len() {
        for j in i + 1..pages.len() {
            let (a, b) = (pages[i].bounds(), pages[j].bounds());
            assert!(a.x + a.w < b.x, "pages {i} and {j} overlap");
        }
    }
    assert_eq!(pages[1].title, "第 2 页");
}

#[test]
fn titled_pages_keep_the_title() {
    let mut pages: Vec<Page<f64>> = Vec::new();
    let n = next_page(&mut pages, Some("  封面  "), PageRatio::Ratio16_9);
    assert_eq!(pages[0].title, "封面");
    assert_eq!(n, 1);
    let n = next_page(&mut pages, Some("  "), PageRatio::Ratio16_9);
    assert_eq!(pages[1].title, "第 2 页");
    assert_eq!(n, 2);
}

#[test]
fn page_at_finds_containing_page() {
    let mut pages: Vec<Page<f64>> = Vec::new();
    next_page(&mut pages, None, PageRatio::Ratio16_9);
    next_page(&mut pages, None, PageRatio::Ratio16_9);
    let find = |x: f64, y: f64| {
        let inside: Vec<bool> = pages
            .iter()
            .map(|p| x >= p.x && x <= p.x + p.w && y >= p.y && y <= p.y + p.h)
            .collect();
        page_at(&inside)
    };
    assert_eq!(find(800.0, 450.0), Some(0));
    assert_eq!(find(1600.0 + PAGE_GAP + 100.0, 100.0), Some(1));
    assert_eq!(find(1600.0 + PAGE_GAP / 2.0, 100.0), None);
    assert_eq!(page_at(&vec![true, true]), Some(0));
}

#[test]
fn every_size_has_its_ratio() {
    for (r, label, w, h) in [
        (PageRatio::Ratio16_9, "16:9", 16, 9),
        (PageRatio::Ratio4_3, "4:3", 4, 3),
        (PageRatio::Ratio9_16, "9:16", 9, 16),
        (PageRatio::Ratio3_4, "3:4", 3, 4),
        (PageRatio::Ratio1_1, "1:1", 1, 1),
    ] {
        assert_eq!(r.label(), label);
        assert_eq!(PageRatio::parse(label), Some(r));
        assert_eq!(r.size().0 * h, r.size().1 * w);
    }
    assert_eq!(PageRatio::Ratio1_1.size(), (1280, 1280));
}

#[test]
fn load_missing_template_gives_guidance() {
    let err = missing_message("不存在");
    assert!(err.contains("list_templates"), "{err}");
    assert!(err.starts_with("模板「不存在」不存在"));
}

#[test]
fn stamp_translates_and_remaps_container() {
    let t = sample_template();
    assert_eq!(check_stamp(&t, true, true, true), Ok(()));
    let stamped = stamp(&shifted(&t.elements, 900.0, 400.0));
    assert_eq!(stamped.len(), 3);
    let head = &stamped[0];
    assert!((head.bounds.x - 1000.0).abs() < 1e-9);
    assert!((head.bounds.y - 500.0).abs() < 1e-9);
    assert!((head.bounds.w - 80.0).abs() < 1e-9);
    assert_ne!(head.id, t.elements[0].id);
    let label = &stamped[2];
    match &label.kind {
        ElementKind::Text { container_id: Some(cid), .. } => assert_eq!(*cid, head.id),
        other => panic!("期望绑定标签，实际 {other:?}"),
    }
}

#[test]
fn stamp_orphan_label_degrades_to_standalone() {
    let mut t = sample_template();
    t.elements.remove(0);
    let stamped = stamp(&t.elements);
    match &stamped[1].kind {
        ElementKind::Text { container_id, .. } => assert_eq!(*container_id, None),
        other => panic!("期望文本，实际 {other:?}"),
    }
}

#[test]
fn stamp_rejects_bad_scale_rotation_and_empty() {
    let t = sample_template();
    let scale_ok = |s: f64| s.is_finite() && (0.05..=8.0).contains(&s);
    let rotation_ok = |r: f64| r.is_finite() && r.abs() <= 45.0;
    let check = |s: f64, r: f64, x: f64| {
        check_stamp(&t, scale_ok(s), rotation_ok(r), x.is_finite())
    };
    assert_eq!(check(0.01, 0.0, 0.0), Err(StampError::Scale));
    assert_eq!(check(f64::NAN, 0.0, 0.0), Err(StampError::Scale));
    assert_eq!(check(1.0, 90.0, 0.0), Err(StampError::Rotation));
    assert_eq!(check(1.0, f64::NAN, 0.0), Err(StampError::Rotation));
    assert_eq!(check(1.0, 0.0, f64::INFINITY), Err(StampError::Coordinates));
    let empty: ComicTemplate<f64> =
        ComicTemplate { name: "空".to_string(), kind: TemplateKind::Prop, elements: vec![] };
    assert_eq!(check_stamp(&empty, true, true, true), Err(StampError::Empty));
    assert_eq!(
        check_savable(&empty),
        Err("模板不能为空（至少要有一个元素）".to_string())
    );
    assert_eq!(check_savable(&t), Ok(()));
}

#[test]
fn stamp_rotation_tilts_shapes_keeps_text_level() {
    let t = sample_template();
    let (s, c) = 20f64.to_radians().sin_cos();
    let shadow = Shadow { dx: 10.0 * c - 12.0 * s, dy: 10.0 * s + 12.0 * c };
    let corners = |e: &Element<f64>| {
        let b = e.bounds;
        let (cx, cy) = (b.w / 2.0, b.h / 2.0);
        [(-cx, -cy), (cx, -cy), (cx, cy), (-cx, cy)]
            .iter()
            .map(|(x, y)| WPoint { x: x * c - y * s, y: x * s + y * c })
            .collect::<Vec<WPoint<f64>>>()
    };
    let turned: Vec<Element<f64>> = t
        .elements
        .iter()
        .map(|e| rotate_element(e, Turned { bounds: e.bounds, points: corners(e), shadow }))
        .collect();
    let stamped = stamp(&turned);
    let head = &stamped[0];
    match &head.kind {
        ElementKind::Polygon { points, smooth } => {
            assert_eq!(points.len(), 4);
            assert!(!*smooth);
            let ys: Vec<f64> = points.iter().map(|p| p.y).collect();
            let span = ys.iter().cloned().fold(f64::MIN, f64::max)
                - ys.iter().cloned().fold(f64::INFINITY, f64::min);
            assert!(span > 80.0, "y 跨度 {span} 应大于原边长 80");
        }
        other => panic!("期望旋转后的多边形，实际 {other:?}"),
    }
    match &stamped[2].kind {
        ElementKind::Text { text, container_id: Some(cid), .. } => {
            assert_eq!(text, "小明");
            assert_eq!(*cid, head.id);
        }
        other => panic!("期望绑定文本，实际 {other:?}"),
    }
    let expect_dx = 10.0 * c - 12.0 * s;
    assert!((head.style.shadow.unwrap().dx - expect_dx).abs() < 1e-6);
    assert!(stamped[2].style.shadow.is_none());
}

#[test]
fn a_turned_ellipse_is_smooth() {
    let el = Element::new(
        ElementKind::Ellipse,
        WBounds { x: 0.0, y: 0.0, w: 4.0, h: 4.0 },
        ElementStyle::plain(2.0, 1.0, 1.0),
    );
    let points = vec![WPoint { x: 0.0, y: 0.0 }; 24];
    let b = WBounds { x: 1.0, y: 1.0, w: 5.0, h: 5.0 };
    let r = rotate_element(&el, Turned { bounds: b, points, shadow: Shadow { dx: 1.0, dy: 1.0 } });
    assert!(matches!(&r.kind, ElementKind::Polygon { smooth: true, points } if points.len() == 24));
    assert_eq!(r.bounds, b);
    assert_eq!(r.id, el.id);
}

#[test]
fn turned_texts_keep_their_size() {
    let t = sample_template();
    let text = &t.elements[2];
    let to = WBounds { x: 5.0, y: 6.0, w: 99.0, h: 98.0 };
    let shadow = Shadow { dx: 0.0, dy: 0.0 };
    let r = rotate_element(text, Turned { bounds: to, points: vec![], shadow });
    assert_eq!((r.bounds.x, r.bounds.y), (5.0, 6.0));
    assert_eq!((r.bounds.w, r.bounds.h), (text.bounds.w, text.bounds.h));
    assert_eq!((r.seed, &r.kind), (text.seed, &text.kind));
}

#[test]
fn summaries_are_listed_by_name() {
    let summary = |name: &str| TemplateSummary {
        name: name.to_string(),
        kind: TemplateKind::Prop,
        element_count: 1,
        w: 1.0,
        h: 1.0,
        texts: vec![],
    };
    let sorted = by_name(vec![summary("小明"), summary("a b"), summary("b"), summary("a")]);
    let names: Vec<&str> = sorted.iter().map(|s| s.name.as_str()).collect();
    assert_eq!(names, vec!["a", "a b", "b", "小明"]);
    assert!(by_name(Vec::<TemplateSummary<f64>>::new()).is_empty());
    let t = sample_template();
    assert_eq!(t.clone().elements, t.elements);
}

#[test]
fn copies_take_the_given_ids() {
    let t = sample_template();
    let ids: Vec<ElementId> = (1..4).map(|value| ElementId { value }).collect();
    let copies = copy_with_ids(&t.elements, &ids);
    assert_eq!(copies.iter().map(|e| e.id).collect::<Vec<_>>(), ids);
    assert_eq!(copies[2].container_id(), Some(ids[0]));
    assert_eq!(copies[1].bounds, t.elements[1].bounds);
}

#[test]
fn overlap_warnings_catches_buried_same_scale_shapes() {
    let window = rect(90.0, 90.0, 100.0, 120.0, Some(0xa5d8ff));
    let head = rect(100.0, 100.0, 80.0, 80.0, Some(0xffd8a8));
    let head_id = head.id.short_text();
    let hints = warnings(vec![window], vec![head]);
    assert_eq!(hints.len(), 1);
    assert!(hints[0].contains("100%"), "{}", hints[0]);
    assert!(hints[0].contains("update_element"), "{}", hints[0]);
    assert!(hints[0].contains(&format!("新矩形 {head_id} 与既有矩形")), "{}", hints[0]);
}

#[test]
fn overlap_warnings_ignores_normal_composition() {
    let ground = Element::new(
        ElementKind::Line { points: vec![WPoint { x: 0.0, y: 0.0 }, WPoint { x: 700.0, y: 0.0 }] },
        WBounds { x: 0.0, y: 500.0, w: 700.0, h: 0.0 },
        ElementStyle::plain(2.0, 1.0, 1.0),
    );
    let body = rect(100.0, 360.0, 100.0, 140.0, None);
    assert!(warnings(vec![ground], vec![body.clone()]).is_empty());

    let backdrop = rect(0.0, 0.0, 700.0, 420.0, Some(0xf5efdc));
    assert!(warnings(vec![backdrop], vec![body.clone()]).is_empty());

    let label = bound_label(&body, "字");
    assert!(warnings(vec![body.clone()], vec![label.clone()]).is_empty());
    let told = vec![vec![Some("100".to_string())]];
    assert!(overlap_warnings(&vec![body.clone()], &vec![label], &told).is_empty());

    let elsewhere = rect(900.0, 100.0, 80.0, 80.0, None);
    assert!(warnings(vec![body], vec![elsewhere]).is_empty());
}

#[test]
fn overlap_warnings_caps_at_three() {
    let existing: Vec<Element<f64>> =
        (0..5).map(|i| rect(100.0 + i as f64 * 5.0, 100.0, 200.0, 150.0, None)).collect();
    let hints = warnings(existing, vec![rect(105.0, 105.0, 150.0, 100.0, None)]);
    assert_eq!(hints.len(), 3);
}

#[test]
fn a_summary_fits_on_a_line() {
    let t = sample_template();
    let s: TemplateSummary<f64> = TemplateSummary {
        name: t.name.clone(),
        kind: t.kind,
        element_count: t.elements.len(),
        w: 130.0,
        h: 180.0,
        texts: summary_texts(&t.elements),
    };
    assert_eq!(s.texts, vec!["小明".to_string()]);
    assert_eq!(s.one_line("130", "180"), "小明（角色）3 个元素 130×180，文字：小明");
    assert_eq!(first_line_of("ab\r\ncd"), "ab");
    assert_eq!(first_line_of("\nab"), "");
}

#[test]
fn names_become_file_names() {
    assert_eq!(template_path("小明"), "小明.json");
    assert_eq!(sanitize_name("  a\tb  ").unwrap(), "ab");
    assert_eq!(TemplateKind::parse("角色"), Some(TemplateKind::Character));
    assert_eq!(TemplateKind::parse("scene"), Some(TemplateKind::Scene));
    assert_eq!(TemplateKind::parse("物件"), Some(TemplateKind::Prop));
    assert_eq!(TemplateKind::parse("人"), None);
    assert_eq!(TemplateKind::Scene.label(), "场景");
}
