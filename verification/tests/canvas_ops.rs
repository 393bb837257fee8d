use boundless::board::BoardView;
use boundless::board_text::{Fresh, LabelBox};
use boundless::canvas_op::{BoxShape, CanvasOp, CanvasOpError, CanvasStyle, MindmapPen};
use boundless::element::{
    Brush, Element, ElementKind, ElementStyle, FillStyle, LineType, Shadow, StrokeStyle, TextAlign,
    WBounds, WPoint,
};
use boundless::ids::ElementId;
use boundless::mindmap::MindmapNodeInput;
use boundless::mindmap_layout::{LinkPath, NodeBox};

fn style() -> ElementStyle<f64> {
    ElementStyle::plain(2.0, 1.0, 1.0)
}

fn board() -> BoardView<f64> {
    BoardView::new(style(), 20.0)
}

fn at(x: f64, y: f64) -> WPoint<f64> {
    WPoint { x, y }
}

fn label() -> LabelBox<f64> {
    LabelBox { at: at(5.0, 6.0), wrap: 88.0, zero: 0.0, line_box: 25.0 }
}

fn unset() -> CanvasStyle<f64> {
    CanvasStyle {
        stroke: None,
        background: None,
        stroke_width: None,
        roughness: None,
        stroke_style: None,
        opacity: None,
        line_type: None,
        fill_style: None,
        shadow: None,
        brush: None,
        hachure_gap: None,
        fill_weight: None,
        hachure_angle: None,
    }
}

fn id(n: u32) -> ElementId {
    ElementId { value: (n as u128) << 96 }
}

fn fresh(n: usize) -> Vec<Fresh> {
    (0..n).map(|k| Fresh { id: ElementId { value: 1000 + k as u128 }, seed: 50 + k as u64 }).collect()
}

fn shape(shape: BoxShape, positive: bool, text: Option<&str>) -> CanvasOp<f64> {
    CanvasOp::Shape {
        shape,
        bounds: WBounds { x: 1.0, y: 2.0, w: 100.0, h: 50.0 },
        positive,
        style: unset(),
        text: text.map(|t| t.to_string()),
        label: label(),
    }
}

fn run(b: &mut BoardView<f64>, op: CanvasOp<f64>, pre: Option<ElementId>) -> Result<String, CanvasOpError> {
    b.apply_canvas_op_with(op, pre, &fresh(8))
}

fn answer(r: Result<String, CanvasOpError>) -> String {
    match r {
        Ok(t) => t,
        Err(CanvasOpError::InvalidArgs(t)) => format!("args: {t}"),
        Err(CanvasOpError::Internal(t)) => format!("internal: {t}"),
        Err(CanvasOpError::NotFound(t)) => format!("missing: {t}"),
    }
}

fn untouched(b: &BoardView<f64>) -> bool {
    b.scene.elements.is_empty() && !b.dirty && !b.history.can_undo()
}

#[test]
fn shapes_are_added_with_their_label() {
    let mut b = board();
    let r = run(&mut b, shape(BoxShape::Rectangle, true, Some("标签")), Some(id(0xabcdef01)));
    assert_eq!(answer(r), "已添加矩形 id=abcdef01");
    assert_eq!(b.scene.elements.len(), 2);
    let el = &b.scene.elements[0];
    assert_eq!(el.id, id(0xabcdef01));
    assert_eq!(el.kind, ElementKind::Rectangle);
    assert_eq!(el.bounds, WBounds { x: 1.0, y: 2.0, w: 100.0, h: 50.0 });
    assert_eq!(el.seed, 50);
    let l = &b.scene.elements[1];
    assert_eq!(l.container_id(), Some(el.id));
    assert_eq!(l.text(), Some("标签".to_string()));
    assert_eq!(l.text_align(), TextAlign::Center);
    assert_eq!(l.wrap_width(), Some(88.0));
    assert_eq!(l.id, ElementId { value: 1001 });
    assert!(b.dirty);
    assert_eq!(b.pending_measure, vec![l.id]);
    assert!(b.undo());
    assert!(b.scene.elements.is_empty());
    assert!(!b.undo());
}

#[test]
fn each_shape_has_its_answer_and_refusal() {
    for (s, good, bad) in [
        (BoxShape::Rectangle, "已添加矩形 id=00000007", "args: 矩形宽高必须为正数"),
        (BoxShape::Ellipse, "已添加椭圆 id=00000007", "args: 椭圆宽高必须为正数"),
        (BoxShape::Diamond, "已添加菱形 id=00000007", "args: 菱形宽高必须为正数"),
    ] {
        let mut b = board();
        assert_eq!(answer(run(&mut b, shape(s, false, None), Some(id(7)))), bad);
        assert!(untouched(&b));
        assert_eq!(answer(run(&mut b, shape(s, true, None), None)), "internal: 内部错误：缺少元素 ID");
        assert!(untouched(&b));
        assert_eq!(answer(run(&mut b, shape(s, true, Some("")), Some(id(7)))), good);
        assert_eq!(b.scene.elements.len(), 1, "a blank label is no label");
    }
}

#[test]
fn polygons_and_paths_need_enough_points() {
    let b0 = WBounds { x: 0.0, y: 0.0, w: 9.0, h: 9.0 };
    let poly = |n: usize, finite: bool| CanvasOp::Polygon {
        points: (0..n).map(|k| at(k as f64, 0.0)).collect(),
        bounds: b0,
        finite,
        style: unset(),
    };
    let line = |n: usize| CanvasOp::Line {
        points: (0..n).map(|k| at(k as f64, 0.0)).collect(),
        bounds: b0,
        style: unset(),
        text: None,
        label: label(),
    };
    let arrow = |n: usize| CanvasOp::Arrow {
        points: (0..n).map(|k| at(k as f64, 0.0)).collect(),
        bounds: b0,
        start_arrowhead: false,
        end_arrowhead: true,
        style: unset(),
        text: None,
        label: label(),
    };
    let mut b = board();
    assert_eq!(answer(run(&mut b, poly(2, true), Some(id(1)))), "args: 多边形至少需要三个有限坐标点");
    assert_eq!(answer(run(&mut b, poly(3, false), Some(id(1)))), "args: 多边形至少需要三个有限坐标点");
    assert_eq!(answer(run(&mut b, line(1), Some(id(1)))), "args: 至少需要两个坐标点");
    assert_eq!(answer(run(&mut b, arrow(1), Some(id(1)))), "args: 至少需要两个坐标点");
    assert!(untouched(&b));
    assert_eq!(answer(run(&mut b, poly(3, true), Some(id(1)))), "已添加多边形 id=00000001");
    assert_eq!(b.scene.elements[0].style.fill_style, FillStyle::Solid);
    assert_eq!(answer(run(&mut b, line(2), Some(id(2)))), "已添加直线 id=00000002");
    assert_eq!(answer(run(&mut b, arrow(2), Some(id(3)))), "已添加箭头 id=00000003");
    assert!(matches!(
        &b.scene.elements[2].kind,
        ElementKind::Arrow { end_arrowhead: true, start_arrowhead: false, points } if points.len() == 2
    ));
}

#[test]
fn texts_inherit_what_is_left_open() {
    let mut b = board();
    b.text_align = TextAlign::Right;
    let text = |family: Option<&str>, align: Option<TextAlign>| CanvasOp::Text {
        bounds: WBounds { x: 3.0, y: 4.0, w: 60.0, h: 25.0 },
        text: "你好".to_string(),
        font_size: 30.0,
        align,
        font_family: family.map(|f| f.to_string()),
        wrap_width: Some(70.0),
        style: unset(),
        zero: 0.0,
    };
    let r = run(&mut b, text(None, None), Some(id(9)));
    assert_eq!(answer(r), "已添加文本 id=00000009");
    let el = b.scene.elements[0].clone();
    assert_eq!(el.text_align(), TextAlign::Right);
    assert_eq!(el.font_family(), "Excalifont");
    assert_eq!(el.wrap_width(), Some(70.0));
    assert_eq!(b.pending_measure, vec![id(9)]);
    run(&mut b, text(Some("KaiTi"), Some(TextAlign::Center)), Some(id(10))).unwrap();
    assert_eq!(b.scene.elements[1].font_family(), "KaiTi");
    assert_eq!(b.scene.elements[1].text_align(), TextAlign::Center);
}

#[test]
fn the_background_is_named_in_hex() {
    let mut b = board();
    let r = run(&mut b, CanvasOp::SetBackground { color: Some(0xfff) }, None);
    assert_eq!(answer(r), "画布底色已设为 #000fff");
    assert_eq!(b.canvas_background, Some(0xfff));
    assert!(!b.history.can_undo());
    let r = run(&mut b, CanvasOp::SetBackground { color: None }, None);
    assert_eq!(answer(r), "画布底色已恢复白色");
    assert_eq!(b.canvas_background, None);
}

#[test]
fn deleting_takes_labels_along() {
    let mut b = board();
    run(&mut b, shape(BoxShape::Ellipse, true, Some("x")), Some(id(0xaa000000))).unwrap();
    run(&mut b, shape(BoxShape::Diamond, true, None), Some(id(0xbb000000))).unwrap();
    b.selection = vec![id(0xbb000000)];
    let r = run(&mut b, CanvasOp::DeleteElement { id: "zz".to_string() }, None);
    assert_eq!(answer(r), "missing: 找不到元素 id=zz");
    assert_eq!(b.scene.elements.len(), 3);
    let r = run(&mut b, CanvasOp::DeleteElement { id: "aa0".to_string() }, None);
    assert_eq!(answer(r), "已删除元素 id=aa000000");
    assert_eq!(b.scene.elements.iter().map(|e| e.id).collect::<Vec<_>>(), vec![id(0xbb000000)]);
    assert_eq!(b.selection, vec![id(0xbb000000)]);
    let r = run(&mut b, CanvasOp::Clear, None);
    assert_eq!(answer(r), "已清空画布");
    assert!(b.scene.elements.is_empty() && b.selection.is_empty());
    b.undo();
    assert_eq!(b.scene.elements.len(), 1);
}

#[test]
fn updates_change_what_they_name() {
    let mut b = board();
    run(&mut b, shape(BoxShape::Rectangle, true, None), Some(id(0xaa000000))).unwrap();
    let update = |who: &str, text: Option<&str>, n: usize| CanvasOp::UpdateElement {
        id: who.to_string(),
        x: Some(70.0),
        y: None,
        text: text.map(|t| t.to_string()),
        style: CanvasStyle { stroke: Some(0xff), ..unset() },
        font_size: None,
        placed: vec![at(0.0, 0.0); n],
        label: label(),
    };
    let r = run(&mut b, update("cc", None, 0), None);
    assert_eq!(answer(r), "missing: 找不到元素 id=cc");
    let r = run(&mut b, update("aa", Some("新"), 1), None);
    assert_eq!(answer(r), "已更新元素 id=aa000000");
    assert_eq!(b.scene.elements[0].bounds.x, 70.0);
    assert_eq!(b.scene.elements[0].bounds.y, 2.0);
    assert_eq!(b.scene.elements[0].style.stroke, 0xff);
    assert_eq!(b.scene.elements.len(), 2);
    assert_eq!(b.scene.elements[1].text(), Some("新".to_string()));
    let r = run(&mut b, update("aa", Some("旧"), 2), None);
    assert!(r.is_ok());
    assert_eq!(b.scene.elements.len(), 2, "an existing label is rewritten");
    assert_eq!(b.scene.elements[1].text(), Some("旧".to_string()));
}

#[test]
fn a_mindmap_is_one_step() {
    let leaf = |t: &str| MindmapNodeInput::new(t.to_string(), vec![]);
    let root = MindmapNodeInput::new("根".to_string(), vec![leaf("甲"), leaf("乙")]);
    let boxes = vec![
        NodeBox { bounds: WBounds { x: 0.0, y: 0.0, w: 9.0, h: 9.0 }, label: label() };
        3
    ];
    let path = || LinkPath {
        points: vec![at(0.0, 0.0), at(1.0, 0.0), at(2.0, 0.0)],
        bounds: WBounds { x: 0.0, y: 0.0, w: 2.0, h: 0.0 },
    };
    let pen = MindmapPen {
        root_width: 3.0,
        branch_width: 2.5,
        leaf_width: 2.0,
        link_width: 2.0,
        roughness: 1.0,
        opacity: 1.0,
    };
    let mut b = board();
    let op = CanvasOp::Mindmap { root, boxes, paths: vec![path(), path()], pen };
    let r = run(&mut b, op, Some(id(0x12345678)));
    assert_eq!(answer(r), "已添加思维导图（3 个节点）id=12345678");
    assert_eq!(b.scene.elements.len(), 8);
    assert_eq!(b.scene.elements.iter().filter(|e| e.is_text()).count(), 3);
    assert!(b.scene.contains(id(0x12345678)));
    assert!(b.undo());
    assert!(b.scene.elements.is_empty() && !b.history.can_undo());
}

#[test]
fn drawn_identities_differ() {
    let mut b = board();
    b.apply_canvas_op(shape(BoxShape::Rectangle, true, Some("a")), Some(id(1))).unwrap();
    b.apply_canvas_op(shape(BoxShape::Rectangle, true, Some("b")), Some(id(2))).unwrap();
    let ids: Vec<ElementId> = b.scene.elements.iter().map(|e| e.id).collect();
    assert_eq!(ids.len(), 4);
    assert_ne!(ids[1], ids[3]);
    assert_ne!(b.scene.elements[0].seed, b.scene.elements[2].seed);
}

#[test]
fn a_style_overrides_field_by_field() {
    let base = style();
    assert_eq!(unset().merge_into(base), base);
    let all = CanvasStyle {
        stroke: Some(1),
        background: Some(2),
        stroke_width: Some(3.0),
        roughness: Some(4.0),
        stroke_style: Some(StrokeStyle::Dashed),
        opacity: Some(0.5),
        line_type: Some(LineType::Curved),
        fill_style: Some(FillStyle::Dense),
        shadow: Some(Shadow { dx: 1.0, dy: 2.0 }),
        brush: Some(Brush::Pencil),
        hachure_gap: Some(5.0),
        fill_weight: Some(6.0),
        hachure_angle: Some(7.0),
    };
    let r = all.merge_into(base);
    assert_eq!((r.stroke, r.background), (1, Some(2)));
    assert_eq!((r.stroke_width, r.roughness, r.opacity), (3.0, 4.0, 0.5));
    assert_eq!((r.stroke_style, r.line_type, r.fill_style), (StrokeStyle::Dashed, LineType::Curved, FillStyle::Dense));
    assert_eq!((r.hachure_gap, r.fill_weight, r.hachure_angle), (Some(5.0), Some(6.0), Some(7.0)));
    assert_eq!(r.brush, Some(Brush::Pencil));
    assert_eq!(r.shadow, Some(Shadow { dx: 1.0, dy: 2.0 }));
}

#[test]
fn elements_keep_the_boards_style() {
    let mut b = board();
    b.style.stroke = 0x123456;
    run(&mut b, shape(BoxShape::Rectangle, true, None), Some(id(1))).unwrap();
    let el: &Element<f64> = &b.scene.elements[0];
    assert_eq!(el.style.stroke, 0x123456);
}
