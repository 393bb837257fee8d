use boundless::board::{
    ActiveTool, BoardView, CancelStep, ContextMenuState, DragState, LayerOp, Modifiers,
};
use boundless::board_actions::{wheel_step, CursorStyle, EditKey, WheelStep};
use boundless::board_labels::text_extent;
use boundless::board_style::{StyleChange, TextChange};
use boundless::board_text::{Fresh, LabelBox, Measured, LABEL_BACKGROUND};
use boundless::element::{
    Element, ElementKind, ElementStyle, FillStyle, LineType, TextAlign, WBounds, WPoint,
};
use boundless::ids::ElementId;
use boundless::scene_file::Camera;

fn style() -> ElementStyle<f64> {
    ElementStyle::plain(2.0, 1.0, 1.0)
}

fn board() -> BoardView<f64> {
    BoardView::new(style(), 20.0)
}

fn at(x: f64, y: f64) -> WPoint<f64> {
    WPoint { x, y }
}

fn fresh(n: u128) -> Fresh {
    Fresh { id: ElementId { value: n }, seed: n as u64 }
}

fn label_box() -> LabelBox<f64> {
    LabelBox { at: at(5.0, 6.0), wrap: 88.0, zero: 0.0, line_box: 25.0 }
}

fn measured(w: f64, h: f64) -> Measured<f64> {
    Measured { w, h, placed: at(-1.0, -2.0) }
}

fn add(b: &mut BoardView<f64>, n: u128, kind: ElementKind<f64>) -> ElementId {
    let id = ElementId { value: n };
    b.scene.add(Element::new_with_id(
        id,
        kind,
        WBounds { x: 0.0, y: 0.0, w: 10.0, h: 10.0 },
        style(),
    ));
    id
}

fn add_text(b: &mut BoardView<f64>, n: u128, text: &str) -> ElementId {
    let el = b.new_text_element(at(1.0, 2.0), text.to_string(), 0.0, 25.0, fresh(n));
    b.scene.add(el)
}

const PLAIN: Modifiers = Modifiers { ctrl: false, shift: false };

#[test]
fn a_new_board_is_empty() {
    let b = board();
    assert!(b.scene.elements.is_empty() && b.selection.is_empty());
    assert_eq!(b.tool, ActiveTool::Select);
    assert!(matches!(b.drag, DragState::Idle));
    assert!(!b.dirty && b.editing.is_none() && b.draft.is_none());
    assert_eq!(b.text_align, TextAlign::Left);
    assert_eq!(b.text_font_family, "Excalifont");
}

#[test]
fn deleting_the_selection_is_one_step() {
    let mut b = board();
    let r = add(&mut b, 1, ElementKind::Rectangle);
    let e = add(&mut b, 2, ElementKind::Ellipse);
    b.add_bound_label(r, "标签".to_string(), label_box(), fresh(3));
    b.selection = vec![r];
    b.delete_selection();
    assert_eq!(b.scene.elements.iter().map(|e| e.id).collect::<Vec<_>>(), vec![e]);
    assert!(b.selection.is_empty() && b.dirty);
    assert!(b.undo());
    assert_eq!(b.scene.elements.len(), 3);
    assert!(!b.undo());
    b.delete_selection();
    assert!(!b.history.can_undo(), "nothing selected, nothing recorded");
}

#[test]
fn layer_moves_that_change_nothing_are_not_recorded() {
    let mut b = board();
    let r = add(&mut b, 1, ElementKind::Rectangle);
    let e = add(&mut b, 2, ElementKind::Ellipse);
    b.selection = vec![e];
    b.reorder_layers(LayerOp::ToFront);
    assert!(!b.history.can_undo());
    b.reorder_layers(LayerOp::Backward);
    assert_eq!(b.scene.elements[0].id, e);
    assert!(b.undo());
    assert_eq!(b.scene.elements[0].id, r);
    assert!(b.redo());
    assert_eq!(b.scene.elements[0].id, e);
}

#[test]
fn undo_drops_dead_selections() {
    let mut b = board();
    b.record();
    let r = add(&mut b, 1, ElementKind::Rectangle);
    b.selection = vec![r];
    assert!(b.undo());
    assert!(b.selection.is_empty());
}

#[test]
fn escape_backs_out_one_thing_at_a_time() {
    let mut b = board();
    let r = add(&mut b, 1, ElementKind::Rectangle);
    b.selection = vec![r];
    b.context_menu = Some(ContextMenuState { position: at(0.0, 0.0), vertex: None });
    assert_eq!(b.cancel(true, true), CancelStep::MenuClosed);
    assert!(b.context_menu.is_none());
    assert_eq!(b.cancel(true, true), CancelStep::Cleared);
    assert!(b.selection.is_empty());
    assert_eq!(b.cancel(true, true), CancelStep::LeaveFullscreen);
    assert_eq!(b.cancel(false, true), CancelStep::Unzoom);
    assert_eq!(b.cancel(false, false), CancelStep::Nothing);
}

#[test]
fn editing_changes_the_text_once() {
    let mut b = board();
    let t = add_text(&mut b, 5, "旧");
    b.start_editing(t, false);
    assert!(b.editing.is_some());
    assert_eq!(b.cancel(false, false), CancelStep::CommitEdit);
    assert_eq!(b.commit_editing("旧", measured(10.0, 25.0)), None);
    assert!(b.editing.is_none());
    assert!(!b.history.can_undo(), "an unchanged text is no step");
    b.start_editing(t, false);
    b.commit_editing("新的", measured(40.0, 25.0));
    assert_eq!(b.scene.get(t).unwrap().text(), Some("新的".to_string()));
    assert_eq!(b.scene.get(t).unwrap().bounds.w, 40.0);
    assert!(b.undo());
    assert_eq!(b.scene.get(t).unwrap().text(), Some("旧".to_string()));
}

#[test]
fn a_new_text_left_blank_vanishes() {
    let mut b = board();
    b.record();
    let t = add_text(&mut b, 5, "");
    b.start_editing(t, true);
    assert_eq!(b.commit_editing("   ", measured(0.0, 25.0)), None);
    assert!(b.scene.elements.is_empty());
    let t = add_text(&mut b, 6, "");
    b.start_editing(t, true);
    assert_eq!(b.commit_editing("好", measured(20.0, 25.0)), Some(t));
    b.select_fresh(t);
    assert_eq!(b.selection, vec![t]);
}

#[test]
fn a_container_has_one_label() {
    let mut b = board();
    let r = add(&mut b, 1, ElementKind::Rectangle);
    assert_eq!(b.label_of(r), None);
    b.edit_container_label(r, label_box(), fresh(7));
    let l = ElementId { value: 7 };
    assert_eq!(b.label_of(r), Some(l));
    assert_eq!(b.container_of_label(l), Some(r));
    b.commit_editing("一", measured(20.0, 25.0));
    assert_eq!(b.scene.get(l).unwrap().bounds.x, -1.0, "a label is centred");
    b.edit_container_label(r, label_box(), fresh(8));
    assert_eq!(b.scene.elements.len(), 2);
    assert_eq!(b.editing.as_ref().unwrap().element_id, l);
}

#[test]
fn escape_selects_what_the_edit_created() {
    let mut b = board();
    let r = add(&mut b, 1, ElementKind::Rectangle);
    b.edit_container_label(r, label_box(), fresh(7));
    b.escape_edit("一", measured(20.0, 25.0));
    assert_eq!(b.selection, vec![r], "a label selects its container");
    assert_eq!(b.tool, ActiveTool::Select);
    assert!(b.editing.is_none());
}

#[test]
fn labels_on_lines_cover_them() {
    let b = board();
    let on_line = b.new_label(ElementId { value: 1 }, "a".to_string(), label_box(), true, fresh(2));
    assert_eq!(on_line.style.background, Some(LABEL_BACKGROUND));
    let inside = b.new_label(ElementId { value: 1 }, "a".to_string(), label_box(), false, fresh(2));
    assert_eq!(inside.style.background, None);
}

#[test]
fn style_changes_reach_the_selection() {
    let mut b = board();
    let r = add(&mut b, 1, ElementKind::Rectangle);
    let e = add(&mut b, 2, ElementKind::Ellipse);
    b.selection = vec![r];
    b.apply_shape_style(StyleChange::Stroke(0xff));
    assert_eq!(b.scene.get(r).unwrap().style.stroke, 0xff);
    assert_ne!(b.scene.get(e).unwrap().style.stroke, 0xff);
    assert_eq!(b.style.stroke, 0xff, "the next shape is drawn like it");
    b.apply_shape_style(StyleChange::Fill(FillStyle::Dense));
    b.apply_shape_style(StyleChange::Line(LineType::Curved));
    b.apply_shape_style(StyleChange::Background(Some(3)));
    b.apply_shape_style(StyleChange::StrokeWidth(4.0));
    b.apply_shape_style(StyleChange::Roughness(0.0));
    let s = b.scene.get(r).unwrap().style;
    assert_eq!((s.fill_style, s.line_type, s.background), (FillStyle::Dense, LineType::Curved, Some(3)));
    assert_eq!((s.stroke_width, s.roughness), (4.0, 0.0));
}

#[test]
fn repeated_text_choices_leave_no_step() {
    let mut b = board();
    let t = add_text(&mut b, 5, "字");
    b.selection = vec![t];
    b.apply_style_to_text(&TextChange::Size(40.0));
    assert!(b.history.can_undo());
    assert!(matches!(b.scene.get(t).unwrap().kind, ElementKind::Text { font_size, .. } if font_size == 40.0));
    b.undo();
    b.set_text_align(TextAlign::Center);
    assert_eq!(b.scene.get(t).unwrap().text_align(), TextAlign::Center);
    b.undo();
    assert!(!b.history.can_undo());
    b.apply_style_to_text(&TextChange::Align(TextAlign::Left));
    assert!(!b.history.can_undo());
    b.set_text_font("KaiTi");
    assert_eq!(b.text_font_family, "KaiTi");
    assert_eq!(b.scene.get(t).unwrap().font_family(), "KaiTi");
}

#[test]
fn toggles_turn_round() {
    let mut b = board();
    let (taper, grid) = (b.pen_taper, b.show_grid);
    b.toggle_taper();
    b.toggle_grid();
    assert_eq!((b.pen_taper, b.show_grid), (!taper, !grid));
    b.toggle_menu(2);
    assert_eq!(b.menubar_open, Some(2));
    b.toggle_menu(2);
    assert_eq!(b.menubar_open, None);
}

#[test]
fn inserted_text_goes_to_the_given_place() {
    let mut b = board();
    b.insert_text("ab\nc".to_string(), at(3.0, 4.0), 40.0, 50.0, 0.0, fresh(9));
    let el = &b.scene.elements[0];
    assert_eq!(el.bounds, WBounds { x: 3.0, y: 4.0, w: 40.0, h: 50.0 });
    assert_eq!(el.text(), Some("ab\nc".to_string()));
    b.insert_ai_text("x".to_string(), at(0.0, 0.0), 1.0, 1.0, 0.0);
    assert_eq!(b.scene.elements.len(), 2);
    assert!(b.undo() && b.undo() && !b.undo());
}

#[test]
fn an_extent_counts_lines_and_characters() {
    assert_eq!(text_extent("ab\n你好吗\nc"), (3, 3));
    assert_eq!(text_extent("ab\r\ncdef\n"), (2, 4));
    assert_eq!(text_extent(""), (1, 1));
}

#[test]
fn deleting_a_vertex_keeps_a_line_whole() {
    let mut b = board();
    let l = add(
        &mut b,
        1,
        ElementKind::Line { points: vec![at(0.0, 0.0), at(5.0, 5.0), at(10.0, 0.0)] },
    );
    b.selection = vec![l];
    let abs = vec![at(0.0, 0.0), at(5.0, 5.0), at(10.0, 0.0)];
    let flat = WBounds { x: 0.0, y: 0.0, w: 10.0, h: 0.0 };
    b.delete_vertex(1, abs, flat, &vec![0.0]);
    let el = b.scene.get(l).unwrap();
    assert_eq!(el.relative_points(), vec![at(0.0, 0.0), at(10.0, 0.0)]);
    assert_eq!(el.bounds, flat);
    b.delete_vertex(0, vec![at(0.0, 0.0), at(10.0, 0.0)], flat, &vec![0.0]);
    assert_eq!(b.scene.get(l).unwrap().point_count(), 2);
}

#[test]
fn saving_and_opening_keep_the_scene() {
    let mut b = board();
    add(&mut b, 1, ElementKind::Diamond);
    b.toggle_grid();
    b.canvas_background = Some(0xfafafa);
    let before = b.scene.elements.clone();
    assert_eq!(b.save_path(false), None);
    let file = b.scene_file(Camera { x: 1.0, y: 2.0, zoom: 3.0 });
    assert_eq!(file.camera.zoom, 3.0);
    b.finish_save("a.boundless".to_string(), None);
    assert!(!b.dirty);
    assert_eq!(b.save_path(false), Some("a.boundless".to_string()));
    assert_eq!(b.save_path(true), None);

    let mut other = board();
    add(&mut other, 7, ElementKind::Ellipse);
    let show = b.show_grid;
    other.finish_open("a.boundless".to_string(), file.accept().unwrap());
    assert_eq!(other.scene.elements, before);
    assert_eq!(other.show_grid, show);
    assert_eq!(other.canvas_background, Some(0xfafafa));
    assert!(!other.history.can_undo() && !other.dirty);

    other.dirty = true;
    other.finish_save("b".to_string(), Some("磁盘已满".to_string()));
    assert!(other.dirty);
    assert!(other.notice.as_ref().unwrap().contains("磁盘已满"));
    other.fail_open("坏文件");
    assert!(other.notice.as_ref().unwrap().contains("坏文件"));
}

#[test]
fn the_wheel_zooms_or_pans() {
    let ctrl = Modifiers { ctrl: true, shift: false };
    let shift = Modifiers { ctrl: false, shift: true };
    assert_eq!(wheel_step(true, PLAIN, false), WheelStep::Ignored);
    assert_eq!(wheel_step(false, ctrl, false), WheelStep::Zoom);
    assert_eq!(wheel_step(false, PLAIN, false), WheelStep::Pan);
    assert_eq!(wheel_step(false, shift, true), WheelStep::PanByX);
    assert_eq!(wheel_step(false, shift, false), WheelStep::PanByY);
}

#[test]
fn keys_edit_the_text_box() {
    let mut b = board();
    assert_eq!(b.edit_key("enter", PLAIN), None);
    let t = add_text(&mut b, 5, "字");
    b.start_editing(t, false);
    let ctrl = Modifiers { ctrl: true, shift: false };
    let shift = Modifiers { ctrl: false, shift: true };
    assert_eq!(b.edit_key("backspace", PLAIN), Some(EditKey::Backspace));
    assert_eq!(b.edit_key("left", shift), Some(EditKey::Left { extend: true }));
    assert_eq!(b.edit_key("home", PLAIN), Some(EditKey::Home { extend: false }));
    assert_eq!(b.edit_key("a", ctrl), Some(EditKey::SelectAll));
    assert_eq!(b.edit_key("a", PLAIN), None);
    assert_eq!(b.cursor_style(), CursorStyle::IBeam);
}

#[test]
fn tools_have_their_cursor() {
    let mut b = board();
    b.set_tool(ActiveTool::Rectangle);
    assert_eq!(b.cursor_style(), CursorStyle::Crosshair);
    b.set_tool(ActiveTool::Hand);
    assert_eq!(b.cursor_style(), CursorStyle::PointingHand);
    b.set_tool(ActiveTool::Select);
    assert_eq!(b.cursor_style(), CursorStyle::Arrow);
}
