use boundless::board::{ActiveTool, BoardView, DragState, Handle, Modifiers, PointTarget};
use boundless::board_down::{DownStep, InkStart};
use boundless::board_drag::{MoveFacts, PointerMove};
use boundless::board_move::{DraftFacts, Resized};
use boundless::board_press::Press;
use boundless::board_text::{Fresh, LabelBox, Measured};
use boundless::board_up::Release;
use boundless::element::{Element, ElementKind, ElementStyle, HitFacts, WBounds, WPoint};
use boundless::ids::ElementId;
use boundless::ink::SampleFacts;
use boundless::paint::{caret_place, clicked_byte, range_parts, LinePart, PaintItem};
use boundless::wrap::Span;

const PLAIN: Modifiers = Modifiers { ctrl: false, shift: false };
const SHIFT: Modifiers = Modifiers { ctrl: false, shift: true };

fn at(x: f64, y: f64) -> WPoint<f64> {
    WPoint { x, y }
}

fn area(x: f64, y: f64, w: f64, h: f64) -> WBounds<f64> {
    WBounds { x, y, w, h }
}

fn board() -> BoardView<f64> {
    BoardView::new(ElementStyle::plain(2.0, 1.0, 1.0), 20.0)
}

fn add(b: &mut BoardView<f64>, n: u128, kind: ElementKind<f64>) -> ElementId {
    b.scene.add(Element::new_with_id(
        ElementId { value: n },
        kind,
        area(n as f64 * 100.0, 0.0, 50.0, 50.0),
        ElementStyle::plain(2.0, 1.0, 1.0),
    ))
}

fn line() -> ElementKind<f64> {
    ElementKind::Line { points: vec![at(0.0, 0.0), at(50.0, 0.0)] }
}

/// A pointer that touches element `hit` only.
fn hits(b: &BoardView<f64>, hit: Option<usize>) -> Vec<HitFacts> {
    (0..b.scene.elements.len())
        .map(|k| {
            let on = hit == Some(k);
            HitFacts { in_box: on, in_polygon: on, near_outline: on, near_ellipse: on, near_path: on }
        })
        .collect()
}

fn label() -> LabelBox<f64> {
    LabelBox { at: at(1.0, 1.0), wrap: 30.0, zero: 0.0, line_box: 25.0 }
}

fn press(b: &BoardView<f64>, hit: Option<usize>, modifiers: Modifiers) -> Press<f64> {
    Press {
        world: at(10.0, 10.0),
        screen: at(20.0, 20.0),
        modifiers,
        clicks: 1,
        point: None,
        handle: None,
        selection_box: area(0.0, 0.0, 50.0, 50.0),
        in_selection: false,
        hits: hits(b, hit),
        label: label(),
        fresh: Fresh { id: ElementId { value: 900 }, seed: 90 },
    }
}

fn ink() -> InkStart<f64> {
    InkStart {
        zoom: 1.0,
        min_dist: 2.0,
        origin: at(0.0, 0.0),
        pressure: 0.55,
        at: 0.0,
        hardware: false,
        facts: sample(10.0, 10.0),
    }
}

fn sample(x: f64, y: f64) -> SampleFacts<f64> {
    SampleFacts { too_close: false, advanced: true, blended: 0.5, smoothed: at(x, y), width: 0.7 }
}

fn step(facts: MoveFacts<f64>) -> PointerMove<f64> {
    PointerMove { over_panel: false, modifiers: PLAIN, world: at(15.0, 17.0), screen: at(1.0, 1.0), facts }
}

fn draft(bounds: WBounds<f64>) -> DraftFacts<f64> {
    DraftFacts {
        bounds,
        points: vec![at(0.0, 0.0), at(5.0, 7.0)],
        line_box: 25.0,
        zero: 0.0,
        id: ElementId { value: 800 },
    }
}

fn release(dragged: bool) -> Release<f64> {
    Release {
        over_panel: false,
        click_draft: draft(area(10.0, 10.0, 0.0, 0.0)),
        dragged,
        zero_length: false,
        corner: at(10.0, 10.0),
        wrap: 40.0,
        zero: 0.0,
        line_box: 25.0,
        points: vec![at(0.0, 0.0), at(5.0, 7.0)],
        bounds: area(10.0, 10.0, 5.0, 7.0),
        fresh: Fresh { id: ElementId { value: 901 }, seed: 91 },
    }
}

fn down(b: &mut BoardView<f64>, hit: Option<usize>, m: Modifiers) {
    let p = press(b, hit, m);
    b.left_down_act(&p, ink(), false);
}

#[test]
fn a_click_selects_and_shift_adds() {
    let mut b = board();
    let r = add(&mut b, 1, ElementKind::Rectangle);
    let e = add(&mut b, 2, ElementKind::Ellipse);
    down(&mut b, Some(0), PLAIN);
    assert_eq!(b.selection, vec![r]);
    assert!(matches!(b.drag, DragState::Moving { recorded: false, .. }));
    b.on_left_up(&release(false));
    assert!(matches!(b.drag, DragState::Idle));
    let p = press(&b, Some(1), SHIFT);
    b.select_down(&p);
    assert_eq!(b.selection, vec![r, e]);
    b.on_left_up(&release(false));
    let p = press(&b, Some(0), SHIFT);
    b.select_down(&p);
    assert_eq!(b.selection, vec![e], "shift again takes it out");
    b.on_left_up(&release(false));
    down(&mut b, None, PLAIN);
    assert!(b.selection.is_empty());
    assert!(matches!(b.drag, DragState::Marquee { .. }));
    assert!(!b.history.can_undo());
}

#[test]
fn a_drag_is_one_step_and_carries_labels() {
    let mut b = board();
    let r = add(&mut b, 1, ElementKind::Rectangle);
    add(&mut b, 2, ElementKind::Ellipse);
    b.add_bound_label(r, "字".to_string(), label(), Fresh { id: ElementId { value: 3 }, seed: 3 });
    let before: Vec<WBounds<f64>> = b.scene.elements.iter().map(|e| e.bounds).collect();
    down(&mut b, Some(0), PLAIN);
    let corners = |d: f64| before.iter().map(|c| vec![at(c.x + d, c.y + d)]).collect::<Vec<_>>();
    b.on_mouse_move(step(MoveFacts::Shift { moved: false, corners: corners(0.0) }));
    assert!(!b.history.can_undo(), "nothing moved yet");
    b.on_mouse_move(step(MoveFacts::Shift { moved: true, corners: corners(5.0) }));
    b.on_mouse_move(step(MoveFacts::Shift { moved: true, corners: corners(9.0) }));
    b.on_left_up(&release(true));
    assert_eq!(b.scene.elements[0].bounds.x, before[0].x + 9.0);
    assert_eq!(b.scene.elements[1].bounds, before[1]);
    assert_eq!(b.scene.elements[2].bounds.x, before[2].x + 9.0);
    assert!(b.undo());
    assert_eq!(b.scene.elements[0].bounds, before[0]);
    assert!(!b.history.can_undo());
}

#[test]
fn what_is_selected_twice_moves_twice() {
    let mut b = board();
    let r = add(&mut b, 1, ElementKind::Rectangle);
    let e = add(&mut b, 2, ElementKind::Ellipse);
    let before: Vec<WBounds<f64>> = b.scene.elements.iter().map(|e| e.bounds).collect();
    down(&mut b, Some(0), PLAIN);
    b.selection = vec![r, e, r];
    assert_eq!(b.movers(), vec![2, 1]);
    let corners: Vec<Vec<WPoint<f64>>> = before
        .iter()
        .map(|c| vec![at(c.x + 5.0, c.y + 3.0), at(c.x + 10.0, c.y + 6.0)])
        .collect();
    b.on_mouse_move(step(MoveFacts::Shift { moved: true, corners }));
    assert_eq!(b.scene.elements[0].bounds.x, before[0].x + 10.0);
    assert_eq!(b.scene.elements[0].bounds.y, before[0].y + 6.0);
    assert_eq!(b.scene.elements[1].bounds.x, before[1].x + 5.0);
    assert_eq!(b.scene.elements[1].bounds.y, before[1].y + 3.0);
}

#[test]
fn a_rubber_band_adds_to_what_was_selected() {
    let mut b = board();
    let r = add(&mut b, 1, ElementKind::Rectangle);
    let e = add(&mut b, 2, ElementKind::Ellipse);
    b.selection = vec![e];
    let p = press(&b, None, SHIFT);
    b.select_down(&p);
    b.on_mouse_move(step(MoveFacts::Band { inside: vec![true, true] }));
    assert_eq!(b.selection, vec![e, r]);
    b.on_mouse_move(step(MoveFacts::Band { inside: vec![false, false] }));
    assert_eq!(b.selection, vec![e]);
    assert!(b.build_paint(&vec![true, true]).rubber_band);
}

#[test]
fn drawing_a_shape_adds_and_selects_it() {
    let mut b = board();
    b.set_tool(ActiveTool::Ellipse);
    down(&mut b, None, PLAIN);
    assert!(matches!(b.drag, DragState::Drawing { .. }));
    b.on_mouse_move(step(MoveFacts::Draw { draft: draft(area(10.0, 10.0, 5.0, 7.0)) }));
    assert!(b.draft.is_some() && b.scene.elements.is_empty());
    assert!(b.build_paint(&vec![]).draft);
    b.on_left_up(&release(true));
    assert_eq!(b.scene.elements.len(), 1);
    assert_eq!(b.scene.elements[0].kind, ElementKind::Ellipse);
    assert_eq!(b.scene.elements[0].bounds, area(10.0, 10.0, 5.0, 7.0));
    assert_eq!(b.selection, vec![ElementId { value: 800 }]);
    assert_eq!(b.tool, ActiveTool::Select);
    assert!(b.undo() && !b.history.can_undo());
}

#[test]
fn a_line_without_length_is_dropped() {
    let mut b = board();
    b.set_tool(ActiveTool::Line);
    down(&mut b, None, PLAIN);
    b.on_mouse_move(step(MoveFacts::Draw { draft: draft(area(10.0, 10.0, 0.0, 0.0)) }));
    let mut e = release(false);
    e.zero_length = true;
    b.on_left_up(&e);
    assert!(b.scene.elements.is_empty() && b.draft.is_none());
    assert!(!b.history.can_undo());
}

#[test]
fn a_pen_stroke_keeps_its_widths() {
    let mut b = board();
    b.set_tool(ActiveTool::Pen);
    down(&mut b, None, PLAIN);
    b.on_mouse_move(step(MoveFacts::Ink { at: 10.0, hardware: false, facts: sample(15.0, 17.0) }));
    assert!(b.build_paint(&vec![]).stroke);
    b.on_left_up(&release(true));
    let el = &b.scene.elements[0];
    assert_eq!(el.ink_widths(), vec![0.7, 0.7]);
    assert_eq!(el.relative_points(), vec![at(0.0, 0.0), at(5.0, 7.0)]);
    assert!(b.selection.is_empty());
    assert_eq!(b.tool, ActiveTool::Pen, "the pen stays in hand");
}

#[test]
fn the_text_tool_opens_an_edit() {
    let mut b = board();
    b.set_tool(ActiveTool::Text);
    down(&mut b, None, PLAIN);
    b.on_left_up(&release(false));
    assert_eq!(b.scene.elements.len(), 1);
    let e = b.editing.as_ref().unwrap();
    assert!(e.is_new);
    assert_eq!(e.element_id, ElementId { value: 901 });
    let plan = b.build_paint(&vec![true]);
    assert!(plan.items.is_empty() && plan.editing && plan.edit_frame);
    let m = Measured { w: 9.0, h: 25.0, placed: at(0.0, 0.0) };
    assert_eq!(b.left_down_begin(false, false, true, "字", m), DownStep::MoveCaret);
    assert_eq!(b.left_down_begin(false, false, false, "字", m), DownStep::FreshSelected);
    assert_eq!(b.scene.elements[0].text(), Some("字".to_string()));
}

#[test]
fn presses_over_chrome_are_ignored() {
    let mut b = board();
    let m = Measured { w: 9.0, h: 25.0, placed: at(0.0, 0.0) };
    assert_eq!(b.left_down_begin(false, true, false, "", m), DownStep::Ignored);
    assert_eq!(b.left_down_begin(false, false, false, "", m), DownStep::Act);
    b.on_middle_down(true, at(0.0, 0.0));
    assert!(matches!(b.drag, DragState::Idle));
    b.on_middle_down(false, at(3.0, 4.0));
    assert!(matches!(b.drag, DragState::Panning { .. }));
    b.on_mouse_move(step(MoveFacts::Pan));
    assert!(matches!(b.drag, DragState::Panning { last } if last == at(1.0, 1.0)));
    b.on_middle_up();
    assert!(matches!(b.drag, DragState::Idle));
}

#[test]
fn a_right_click_opens_the_menu_on_what_it_hits() {
    let mut b = board();
    let r = add(&mut b, 1, ElementKind::Rectangle);
    let p = press(&b, Some(0), PLAIN);
    b.on_right_down(false, None, &p);
    assert_eq!(b.selection, vec![r]);
    assert!(b.context_menu.is_some());
    let mut empty = board();
    let p = press(&empty, None, PLAIN);
    empty.on_right_down(false, None, &p);
    assert!(empty.context_menu.is_none());
}

#[test]
fn shift_sketches_and_control_pans_with_any_tool() {
    let mut b = board();
    b.set_tool(ActiveTool::Rectangle);
    down(&mut b, None, SHIFT);
    assert!(b.temp_pen && matches!(b.drag, DragState::Freedraw { .. }));
    b.on_left_up(&release(true));
    assert!(!b.temp_pen);
    assert_eq!(b.tool, ActiveTool::Rectangle);
    assert!(matches!(b.scene.elements[0].kind, ElementKind::Freedraw { .. }));
    down(&mut b, None, Modifiers { ctrl: true, shift: false });
    assert!(b.temp_pan && matches!(b.drag, DragState::Panning { .. }));
    b.on_left_up(&release(true));
    assert!(!b.temp_pan);
}

#[test]
fn a_dragged_midpoint_bends_the_line() {
    let mut b = board();
    let l = add(&mut b, 1, line());
    b.selection = vec![l];
    assert_eq!(b.selected_line_id(), Some(l));
    let mut p = press(&b, Some(0), PLAIN);
    p.point = Some(PointTarget::Midpoint(0));
    b.select_down(&p);
    assert!(matches!(b.drag, DragState::EditingPoint { .. }));
    let bend = |y: f64, changed: bool| MoveFacts::Point {
        points: vec![at(0.0, 0.0), at(50.0, 0.0)],
        at: at(25.0, y),
        bounds: area(100.0, 0.0, 50.0, y),
        changed,
        wraps: vec![0.0],
    };
    b.on_mouse_move(step(bend(10.0, true)));
    b.on_mouse_move(step(bend(20.0, true)));
    let el = b.scene.get(l).unwrap();
    assert_eq!(el.relative_points(), vec![at(0.0, 0.0), at(25.0, 20.0), at(50.0, 0.0)]);
    assert_eq!(el.bounds.h, 20.0);
    assert_eq!(b.build_paint(&vec![true]).marked_point, Some(PointTarget::Vertex(1)));
    b.on_left_up(&release(true));
    assert!(b.undo());
    assert_eq!(b.scene.get(l).unwrap().point_count(), 2);
    assert!(!b.history.can_undo());
}

#[test]
fn a_dragged_handle_resizes() {
    let mut b = board();
    let r = add(&mut b, 1, ElementKind::Rectangle);
    b.selection = vec![r];
    let mut p = press(&b, Some(0), PLAIN);
    p.handle = Some(Handle::Se);
    b.select_down(&p);
    assert!(matches!(b.drag, DragState::Resizing { handle: Handle::Se, .. }));
    let to = area(100.0, 0.0, 80.0, 90.0);
    let part = Resized { bounds: to, points: vec![], font_size: 20.0, wrap: 0.0, height: 0.0 };
    b.on_mouse_move(step(MoveFacts::Resize { parts: vec![part], wraps: vec![0.0] }));
    assert_eq!(b.scene.get(r).unwrap().bounds, to);
    b.on_left_up(&release(true));
    assert!(b.undo());
    assert_eq!(b.scene.get(r).unwrap().bounds, area(100.0, 0.0, 50.0, 50.0));
}

#[test]
fn erasing_is_one_step() {
    let mut b = board();
    let r = add(&mut b, 1, ElementKind::Rectangle);
    add(&mut b, 2, ElementKind::Ellipse);
    b.add_bound_label(r, "字".to_string(), label(), Fresh { id: ElementId { value: 3 }, seed: 3 });
    b.set_tool(ActiveTool::Eraser);
    let p = press(&b, Some(0), PLAIN);
    b.left_down_act(&p, ink(), true);
    assert_eq!(b.scene.elements.len(), 1, "a shape goes with its label");
    let h = hits(&b, Some(0));
    b.on_mouse_move(step(MoveFacts::Erase { hits: h }));
    assert!(b.scene.elements.is_empty());
    b.on_left_up(&release(true));
    assert!(b.undo());
    assert_eq!(b.scene.elements.len(), 3);
    assert!(!b.history.can_undo());
}

#[test]
fn hovering_notes_what_is_below() {
    let mut b = board();
    let r = add(&mut b, 1, ElementKind::Rectangle);
    let h = hits(&b, Some(0));
    assert!(b.hover(None, None, &h, false));
    assert!(b.hover_over_element);
    b.selection = vec![r];
    let h = hits(&b, None);
    assert!(b.hover(None, Some(Handle::N), &h, false));
    assert_eq!(b.hover_handle, Some(Handle::N));
    assert!(!b.hover_over_element);
}

#[test]
fn hidden_elements_are_not_painted() {
    let mut b = board();
    add(&mut b, 1, ElementKind::Rectangle);
    let el = b.new_text_element(
        at(0.0, 0.0),
        "字".to_string(),
        0.0,
        25.0,
        Fresh { id: ElementId { value: 2 }, seed: 2 },
    );
    let t = b.scene.add(el);
    let plan = b.build_paint(&vec![true, true]);
    assert_eq!(plan.items, vec![PaintItem::Path(0), PaintItem::Text(1)]);
    assert_eq!(b.build_paint(&vec![false, true]).items, vec![PaintItem::Text(1)]);
    b.selection = vec![t];
    assert!(b.build_paint(&vec![true, true]).frame);
}

#[test]
fn pending_texts_are_measured_once() {
    let mut b = board();
    b.insert_text(
        "字".to_string(),
        at(0.0, 0.0),
        1.0,
        1.0,
        0.0,
        Fresh { id: ElementId { value: 2 }, seed: 2 },
    );
    let t = ElementId { value: 2 };
    assert_eq!(b.pending_measure, vec![t]);
    let req = b.measure_request(t).unwrap();
    assert_eq!((req.text.as_str(), req.font_size), ("字", 20.0));
    b.measure_pending(&vec![Measured { w: 33.0, h: 44.0, placed: at(0.0, 0.0) }]);
    assert!(b.pending_measure.is_empty());
    let bounds = b.scene.get(t).unwrap().bounds;
    assert_eq!((bounds.w, bounds.h), (33.0, 44.0));
    assert!(b.measure_request(ElementId { value: 77 }).is_none());
}

#[test]
fn ranges_fall_apart_by_lines() {
    let lines = vec![Span { start: 0, end: 5 }, Span { start: 6, end: 9 }];
    let parts = range_parts(&lines, 3, 8, false);
    assert_eq!(
        parts,
        vec![LinePart { line: 0, start: 3, end: 5 }, LinePart { line: 1, start: 0, end: 2 }]
    );
    assert_eq!(caret_place(&lines, 7), Some((1, 1)));
    assert_eq!(caret_place(&lines, 5), Some((0, 5)));
    assert_eq!(clicked_byte(&lines, 1, Some(2)), 8);
    assert_eq!(clicked_byte(&lines, 1, None), 9);
}
