use boundless::element::{Element, ElementKind, ElementStyle, HitFacts, WBounds, WPoint};
use boundless::history::{History, HISTORY_LIMIT};
use boundless::ids::ElementId;
use boundless::scene::Scene;
use boundless::scene_file::{Camera, SceneFile, SceneFileError, SCENE_TYPE, SCENE_VERSION};

fn style() -> ElementStyle<f64> {
    ElementStyle::plain(2.0, 1.0, 1.0)
}

fn bounds(x: f64, y: f64, w: f64, h: f64) -> WBounds<f64> {
    WBounds { x, y, w, h }
}

fn rect() -> Element<f64> {
    Element::new(ElementKind::Rectangle, bounds(0.0, 0.0, 10.0, 10.0), style())
}

fn camera() -> Camera<f64> {
    Camera { x: 0.0, y: 0.0, zoom: 1.0 }
}

fn ids_of(scene: &Scene<f64>) -> Vec<ElementId> {
    scene.elements.iter().map(|e| e.id).collect()
}

fn scene_with_ids(n: usize) -> (Scene<f64>, Vec<ElementId>) {
    let mut scene = Scene::new();
    let mut ids = Vec::new();
    for _ in 0..n {
        ids.push(scene.add(rect()));
    }
    (scene, ids)
}

/// What a pointer at `p` finds out about a rectangle, with `tol` as slack.
fn facts(el: &Element<f64>, p: WPoint<f64>, tol: f64) -> HitFacts {
    let b = el.bounds;
    let near = |lo: f64, hi: f64, v: f64, t: f64| v >= lo - t && v <= hi + t;
    let t = tol.max(el.style.stroke_width / 2.0 + tol);
    let in_box = near(b.x, b.x + b.w, p.x, t) && near(b.y, b.y + b.h, p.y, t);
    HitFacts { in_box, in_polygon: in_box, near_outline: false, near_ellipse: false, near_path: false }
}

fn hit(scene: &Scene<f64>, x: f64, y: f64) -> Option<ElementId> {
    let all: Vec<HitFacts> =
        scene.elements.iter().map(|e| facts(e, WPoint { x, y }, 1.0)).collect();
    scene.hit_test(&all)
}

#[test]
fn undo_redo_roundtrip() {
    let mut scene = Scene::new();
    let mut history = History::new();

    history.record(&scene);
    scene.add(rect());
    assert_eq!(scene.elements.len(), 1);

    history.record(&scene);
    scene.add(rect());
    assert_eq!(scene.elements.len(), 2);

    assert!(history.undo(&mut scene));
    assert_eq!(scene.elements.len(), 1);
    assert!(history.undo(&mut scene));
    assert_eq!(scene.elements.len(), 0);
    assert!(!history.undo(&mut scene));

    assert!(history.redo(&mut scene));
    assert!(history.redo(&mut scene));
    assert_eq!(scene.elements.len(), 2);
    assert!(!history.redo(&mut scene));
}

#[test]
fn new_mutation_clears_redo() {
    let mut scene = Scene::new();
    let mut history = History::new();
    history.record(&scene);
    scene.add(rect());
    assert!(history.undo(&mut scene));
    history.record(&scene);
    scene.add(rect());
    assert!(!history.can_redo());
}

#[test]
fn undo_gives_back_the_same_elements() {
    let (mut scene, ids) = scene_with_ids(3);
    let before = scene.elements.clone();
    let mut history = History::new();
    history.record(&scene);
    scene.remove(ids[1]);
    scene.move_to_front(&[ids[0]]);
    let after = scene.elements.clone();
    assert!(history.undo(&mut scene));
    assert_eq!(scene.elements, before);
    assert!(history.redo(&mut scene));
    assert_eq!(scene.elements, after);
}

#[test]
fn the_oldest_step_falls_off() {
    let mut scene = Scene::new();
    let mut history = History::new();
    for _ in 0..HISTORY_LIMIT + 7 {
        history.record(&scene);
        scene.add(rect());
    }
    let mut steps = 0;
    while history.undo(&mut scene) {
        steps += 1;
    }
    assert_eq!(HISTORY_LIMIT, 100);
    assert_eq!(steps, 100);
    assert_eq!(scene.elements.len(), 7);
}

#[test]
fn scene_file_roundtrip_and_validation() {
    let mut scene = Scene::new();
    scene.add(Element::new(ElementKind::Diamond, bounds(0.0, 0.0, 40.0, 40.0), style()));
    let file = SceneFile::new(&scene, camera());
    let parsed = file.accept().unwrap();
    assert_eq!(parsed.elements.len(), 1);

    let blank = |format: &str, version: u32| SceneFile::<f64> {
        format: format.to_string(),
        version,
        camera: camera(),
        elements: vec![],
        show_grid: false,
        background: None,
    };
    assert!(blank("other", 1).accept().is_err());
    assert!(blank("boundless-scene", 99).accept().is_err());
}

#[test]
fn scene_file_errors_name_what_they_found() {
    let mut file = SceneFile::new(&Scene::<f64>::new(), camera());
    assert_eq!(file.format, SCENE_TYPE);
    assert_eq!(file.version, SCENE_VERSION);
    file.format = "other\"x".to_string();
    match file.accept() {
        Err(e) => {
            assert_eq!(e, SceneFileError::WrongType("other\"x".to_string()));
            assert_eq!(e.message(), "不是 boundless 场景文件 (type = \"other\\\"x\")");
        }
        Ok(_) => panic!("another type was accepted"),
    }
    let mut file = SceneFile::new(&Scene::<f64>::new(), camera());
    file.version = 2;
    match file.accept() {
        Err(e) => {
            assert_eq!(e, SceneFileError::TooNew(2));
            assert_eq!(e.message(), "场景文件版本 2 高于当前支持的 1");
        }
        Ok(_) => panic!("a newer version was accepted"),
    }
    let mut file = SceneFile::new(&Scene::<f64>::new(), camera());
    file.version = 0;
    assert!(file.accept().is_ok());
}

#[test]
fn a_copied_scene_file_holds_the_same() {
    let (scene, _) = scene_with_ids(2);
    let file = SceneFile::new(&scene, camera());
    let copy = file.clone();
    assert_eq!((copy.format, copy.version), (file.format, file.version));
    assert_eq!(copy.elements, file.elements);
}

#[test]
fn hit_test_returns_topmost() {
    let mut scene = Scene::new();
    let mut filled = style();
    filled.background = Some(0xff0000);
    let bottom =
        scene.add(Element::new(ElementKind::Rectangle, bounds(0.0, 0.0, 100.0, 100.0), filled));
    let top =
        scene.add(Element::new(ElementKind::Rectangle, bounds(10.0, 10.0, 100.0, 100.0), filled));
    assert_eq!(hit(&scene, 50.0, 50.0), Some(top));
    assert_eq!(hit(&scene, 5.0, 5.0), Some(bottom));
    assert_eq!(hit(&scene, 500.0, 500.0), None);
}

#[test]
fn find_by_id_prefix_matches_short_prefix_and_full_id() {
    let mut scene = Scene::new();
    let id = scene.add(rect());
    let full = id.to_text();
    let prefix = &full[..8];

    assert_eq!(scene.find_by_id_prefix(prefix), Some(id));
    assert_eq!(scene.find_by_id_prefix(&full), Some(id));
    assert_eq!(scene.find_by_id_prefix("deadbeef"), None);
}

#[test]
fn a_prefix_finds_the_lowest_match() {
    let mut scene: Scene<f64> = Scene::new();
    let a = ElementId { value: 0x11111111_2222_3333_4444_555555555555 };
    let b = ElementId { value: 0x11111111_ffff_3333_4444_555555555555 };
    for id in [a, b] {
        scene.add(Element::new_with_id(
            id,
            ElementKind::Ellipse,
            bounds(0.0, 0.0, 1.0, 1.0),
            style(),
        ));
    }
    assert_eq!(scene.find_by_id_prefix("11111111"), Some(a));
    assert_eq!(scene.find_by_id_prefix("11111111-f"), Some(b));
    assert_eq!(scene.find_by_id_prefix(""), Some(a));
    assert_eq!(scene.find_by_id_prefix("11111111-2222-3333-4444-5555555555550"), None);
}

#[test]
fn move_to_front_and_send_to_back_preserve_relative_order() {
    let (mut scene, ids) = scene_with_ids(4);
    scene.move_to_front(&[ids[1], ids[3]]);
    assert_eq!(ids_of(&scene), vec![ids[0], ids[2], ids[1], ids[3]]);
    scene.send_to_back(&[ids[1], ids[3]]);
    assert_eq!(ids_of(&scene), vec![ids[1], ids[3], ids[0], ids[2]]);
}

#[test]
fn bring_forward_and_send_backward_shift_group_one_layer() {
    let (mut scene, ids) = scene_with_ids(5);
    scene.bring_forward(&[ids[1], ids[3]]);
    assert_eq!(ids_of(&scene), vec![ids[0], ids[2], ids[1], ids[4], ids[3]]);
    scene.send_backward(&[ids[1], ids[3]]);
    assert_eq!(ids_of(&scene), vec![ids[0], ids[1], ids[2], ids[3], ids[4]]);
}

#[test]
fn can_front_back_forward_backward_at_boundaries() {
    let (mut scene, ids) = scene_with_ids(4);

    assert!(!scene.can_back(&[ids[0]]) && !scene.can_backward(&[ids[0]]));
    assert!(scene.can_front(&[ids[0]]) && scene.can_forward(&[ids[0]]));

    assert!(!scene.can_front(&[ids[3]]) && !scene.can_forward(&[ids[3]]));
    assert!(scene.can_back(&[ids[3]]) && scene.can_backward(&[ids[3]]));

    scene.move_to_front(&[ids[0]]);
    assert!(!scene.can_front(&[ids[0]]) && !scene.can_forward(&[ids[0]]));
}

#[test]
fn what_is_offered_is_what_moves() {
    let (scene, ids) = scene_with_ids(4);
    for mask in 0..16 {
        let picked: Vec<ElementId> =
            (0..4).filter(|k| mask & (1 << k) != 0).map(|k| ids[k]).collect();
        let before = ids_of(&scene);
        let mut a = Scene { elements: scene.elements.clone() };
        a.bring_forward(&picked);
        assert_eq!(ids_of(&a) != before, scene.can_forward(&picked), "forward {mask}");
        let mut b = Scene { elements: scene.elements.clone() };
        b.send_backward(&picked);
        assert_eq!(ids_of(&b) != before, scene.can_backward(&picked), "backward {mask}");
        let mut c = Scene { elements: scene.elements.clone() };
        c.move_to_front(&picked);
        assert_eq!(ids_of(&c) != before, scene.can_front(&picked), "front {mask}");
        let mut d = Scene { elements: scene.elements.clone() };
        d.send_to_back(&picked);
        assert_eq!(ids_of(&d) != before, scene.can_back(&picked), "back {mask}");
    }
}

#[test]
fn repeated_and_unknown_ids_offer_no_more() {
    let (scene, ids) = scene_with_ids(2);
    assert!(!scene.can_front(&[ids[1], ids[1]]));
    assert!(!scene.can_back(&[ids[0], ids[0]]));
    assert!(!scene.can_front(&[ids[1], ElementId { value: 7 }]));
    assert!(scene.can_front(&[ids[0], ids[0]]));
    assert!(scene.can_back(&[ids[1], ids[1]]));
}

#[test]
fn undos_give_the_newest_hundred_back() {
    let mut h: History<f64> = History::new();
    let mut scene: Scene<f64> = Scene::new();
    for _ in 0..105 {
        h.record(&scene);
        scene.add(rect());
    }
    for k in 1..=100 {
        assert!(h.undo(&mut scene));
        assert_eq!(scene.elements.len(), 105 - k);
    }
    assert!(!h.undo(&mut scene));
    assert_eq!(scene.elements.len(), 5);
}

#[test]
fn removing_and_getting_go_by_id() {
    let (mut scene, ids) = scene_with_ids(3);
    assert_eq!(scene.index_of(ids[2]), Some(2));
    assert!(scene.contains(ids[1]));
    let gone = scene.remove(ids[1]).unwrap();
    assert_eq!(gone.id, ids[1]);
    assert!(scene.get(ids[1]).is_none());
    assert!(scene.remove(ids[1]).is_none());
    assert_eq!(ids_of(&scene), vec![ids[0], ids[2]]);
    scene.get_mut(ids[2]).unwrap().seed = 5;
    assert_eq!(scene.get(ids[2]).unwrap().seed, 5);
    assert_eq!(scene.elements_in(&vec![false, true]), vec![ids[2]]);
}
