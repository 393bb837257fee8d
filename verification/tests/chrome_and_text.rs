use boundless::board::{ActiveTool, BoardView, LayerOp};
use boundless::chrome::{
    menu_bar_labels, menu_text, surface_colors, tool_label, toolbar_tools, MenuAction, MenuRow,
};
use boundless::context::{style_summary, StyleNumbers};
use boundless::element::{Element, ElementKind, ElementStyle, FillStyle, TextAlign, WBounds};
use boundless::ids::ElementId;
use boundless::keymap::{board_action, BoardAction};
use boundless::settings::{settings_to_save, AiSettings, Section, SettingsPage};
use boundless::style_bar::{background_colors, fill_styles, stroke_colors};
use boundless::text::{
    chars_of, color_string, decimal_text, is_control, is_whitespace, joined, same_text,
    starts_with, string_of, trim_text,
};
use boundless::update_flow::{banner, BannerAction, CheckResult, UpdateState};
use boundless::wrap::{byte_offsets, line_byte_spans, paragraphs, utf8_len, Span, Wrapper};

fn board() -> BoardView<f64> {
    BoardView::new(ElementStyle::plain(2.0, 1.0, 1.0), 20.0)
}

fn add(b: &mut BoardView<f64>, n: u128, kind: ElementKind<f64>) -> ElementId {
    let id = ElementId { value: n };
    b.scene.add(Element::new_with_id(
        id,
        kind,
        WBounds { x: 0.0, y: 0.0, w: 10.0, h: 10.0 },
        ElementStyle::plain(2.0, 1.0, 1.0),
    ));
    id
}

#[test]
fn white_space_and_controls_are_those_of_unicode() {
    for n in 0..=0x10ffffu32 {
        if let Some(c) = char::from_u32(n) {
            assert_eq!(is_whitespace(c), c.is_whitespace(), "{n:x}");
            assert_eq!(is_control(c), c.is_control(), "{n:x}");
            assert_eq!(utf8_len(c), c.len_utf8(), "{n:x}");
        }
    }
}

#[test]
fn strings_and_characters_go_round() {
    let s = "a你\n🎨";
    assert_eq!(chars_of(s), vec!['a', '你', '\n', '🎨']);
    assert_eq!(string_of(&chars_of(s)), s);
    assert_eq!(trim_text(" \u{3000}你 好\t"), "你 好");
    assert_eq!(joined("ab", "cd"), "abcd");
    assert!(same_text("ab", "ab") && !same_text("ab", "abc"));
    assert!(starts_with("abc", "ab") && !starts_with("ab", "abc"));
    assert_eq!(decimal_text(0), "0");
    assert_eq!(decimal_text(u64::MAX), u64::MAX.to_string());
    assert_eq!(color_string(0xff), "#0000ff");
    assert_eq!(color_string(0xa5d8ff), "#a5d8ff");
    assert_eq!(color_string(0x12345678), "#12345678");
}

/// Wraps a paragraph at `limit` characters a line.
fn wrapped(text: &str, limit: usize) -> Vec<Span> {
    let mut w = Wrapper::new(text);
    while let Some(s) = w.candidate() {
        w.answer(s.end - s.start > limit);
    }
    w.finish()
}

fn lines(text: &str, limit: usize) -> Vec<String> {
    let v: Vec<char> = text.chars().collect();
    wrapped(text, limit).iter().map(|s| v[s.start..s.end].iter().collect()).collect()
}

#[test]
fn lines_break_at_spaces_where_they_can() {
    assert_eq!(lines("hello", 10), vec!["hello"]);
    assert_eq!(lines("", 4), vec![""]);
    assert_eq!(lines("abcdef", 3), vec!["abc", "def"]);
    assert_eq!(lines("abc defgh", 3), vec!["abc", "def", "gh"]);
    assert_eq!(lines("a bc d", 1), vec!["a", "b", "c", "d"]);
    assert_eq!(lines("aa  bb", 3), vec!["aa ", "bb"]);
    let w = lines("hello wide world", 8);
    assert_eq!(w[0].trim_end(), "hello");
    assert_eq!(w.concat().replace(' ', ""), "hellowideworld");
}

#[test]
fn every_line_fits_or_holds_one_character() {
    let text = "the quick brown fox  jumps over the lazy dog";
    for limit in 1..20 {
        for line in lines(text, limit) {
            let n = line.chars().count();
            assert!(n >= 1 && (n <= limit || n == 1), "{line:?} at {limit}");
        }
    }
    // A wide character that no longer fits behind the break starts a line.
    let widths = [1usize, 1, 2, 9];
    let mut w = Wrapper::new("a bX");
    while let Some(s) = w.candidate() {
        w.answer(widths[s.start..s.end].iter().sum::<usize>() > 10);
    }
    let spans = w.finish();
    assert_eq!(
        spans.iter().map(|s| (s.start, s.end)).collect::<Vec<_>>(),
        vec![(0, 2), (2, 3), (3, 4)]
    );
}

#[test]
fn spans_are_bytes_of_the_whole_text() {
    let text = chars_of("你好\nab");
    assert_eq!(byte_offsets(&text), vec![0, 3, 6, 7, 8, 9]);
    assert_eq!(paragraphs(&text), vec![Span { start: 0, end: 2 }, Span { start: 3, end: 5 }]);
    let wraps = vec![vec![Span { start: 0, end: 2 }], vec![Span { start: 0, end: 2 }]];
    assert_eq!(
        line_byte_spans(&text, &wraps),
        vec![Span { start: 0, end: 6 }, Span { start: 7, end: 9 }]
    );
}

#[test]
fn the_toolbar_names_every_tool() {
    let tools = toolbar_tools();
    assert_eq!(tools[0], ActiveTool::Select);
    let mut names: Vec<&str> = tools.iter().map(|t| tool_label(*t)).collect();
    names.sort();
    names.dedup();
    assert_eq!(names.len(), 10);
    assert_eq!(menu_bar_labels().len(), 4);
    assert_eq!(surface_colors()[0], None);
    assert_eq!(stroke_colors()[0], 0x1e1e1e);
    assert_eq!(background_colors()[0], None);
    let mut b = board();
    b.style.stroke = 0x2f9e44;
    b.style.background = Some(0xffc9c9);
    b.style.fill_style = FillStyle::Solid;
    let bar = b.style_bar();
    assert_eq!(bar.strokes, [false, false, true, false, false]);
    assert_eq!(bar.fills, [false, true, false, false, false]);
    assert_eq!(bar.fill_styles, (false, true));
    assert_eq!(fill_styles(), [FillStyle::Hachure, FillStyle::Solid]);
    b.set_tool(ActiveTool::Pen);
    assert!(b.tool_active(ActiveTool::Pen) && !b.tool_active(ActiveTool::Select));
}

#[test]
fn menus_grey_out_what_cannot_be_done() {
    let mut b = board();
    assert!(b.menu_dropdown().is_none() && b.context_menu_rows().is_none());
    let r = add(&mut b, 1, ElementKind::Rectangle);
    add(&mut b, 2, ElementKind::Ellipse);
    b.selection = vec![r];
    b.toggle_menu(1);
    let rows = b.menu_dropdown().unwrap();
    assert!(rows.iter().any(|row| *row == MenuRow::Row { action: MenuAction::Undo, enabled: true }));
    b.context_menu = Some(boundless::board::ContextMenuState {
        position: boundless::element::WPoint { x: 0.0, y: 0.0 },
        vertex: None,
    });
    let rows = b.context_menu_rows().unwrap();
    let layer = |op: LayerOp, enabled: bool| MenuRow::Row { action: MenuAction::Layer(op), enabled };
    assert!(rows.contains(&layer(LayerOp::ToFront, true)));
    assert!(rows.contains(&layer(LayerOp::ToBack, false)));
    assert!(menu_text(MenuAction::Undo).1.is_some());
}

#[test]
fn the_status_line_names_the_file() {
    let mut b = board();
    assert_eq!(b.notice_text(None), "");
    b.dirty = true;
    assert_eq!(b.notice_text(None), "未保存 •");
    b.file_path = Some("/tmp/a.boundless".to_string());
    assert_eq!(b.notice_text(Some("a.boundless")), "a.boundless •");
    b.dirty = false;
    assert_eq!(b.notice_text(None), "untitled");
    b.notice = Some("已打开".to_string());
    assert_eq!(b.notice_text(Some("a.boundless")), "a.boundless\u{3000}已打开");
}

#[test]
fn one_selected_element_is_described() {
    let mut b = board();
    assert!(b.element_info().is_none());
    let r = add(&mut b, 0xab << 120, ElementKind::Rectangle);
    b.selection = vec![r];
    let info = b.element_info().unwrap();
    assert_eq!(info.short_id, "ab000000");
    assert_eq!(info.full_id, r.to_text());
    assert_eq!(info.text, None);
    let shot = b.element_snapshot();
    assert_eq!(shot.len(), 1);
    assert_eq!(shot[0].id, "ab000000");
}

#[test]
fn the_style_bar_follows_the_selection() {
    let mut b = board();
    assert!(!b.style_bar().show);
    b.set_tool(ActiveTool::Text);
    let bar = b.style_bar();
    assert!(bar.show && bar.text_options);
    b.set_tool(ActiveTool::Rectangle);
    let bar = b.style_bar();
    assert!(bar.show && bar.shape_options && bar.background);
    b.text_align = TextAlign::Right;
    b.set_tool(ActiveTool::Text);
    assert_eq!(b.style_bar().aligns, (false, false, true));
    assert!(ActiveTool::Pen.is_drawing() && !ActiveTool::Select.is_drawing());
}

#[test]
fn the_context_names_the_style() {
    let mut s: ElementStyle<f64> = ElementStyle::plain(2.0, 1.0, 1.0);
    let n = StyleNumbers {
        width: "2".to_string(),
        roughness: "1".to_string(),
        opacity_percent: None,
    };
    let plain = style_summary(&s, &n);
    assert!(plain.contains("#1e1e1e"), "{plain}");
    s.background = Some(0xa5d8ff);
    s.fill_style = FillStyle::Solid;
    let filled = style_summary(&s, &n);
    assert!(filled.contains("#a5d8ff"), "{filled}");
    assert_ne!(plain, filled);
    let b = board();
    let c = b.runtime_context("可见区域", &vec![], &n);
    assert!(c.contains("可见区域"), "{c}");
}

#[test]
fn keys_run_actions_outside_inputs() {
    assert_eq!(board_action("ctrl-z", false), Some(BoardAction::Undo));
    assert_eq!(board_action("ctrl-s", false), Some(BoardAction::Save));
    assert_eq!(board_action("delete", false), Some(BoardAction::DeleteSelection));
    assert_eq!(board_action("escape", false), Some(BoardAction::Cancel));
    assert_eq!(board_action("r", false), Some(BoardAction::Tool(ActiveTool::Rectangle)));
    assert_eq!(board_action("r", true), None);
    assert_eq!(board_action("f13", false), None);
}

fn ai(base: &str, key: &str, model: &str) -> AiSettings {
    AiSettings {
        base_url: base.to_string(),
        api_key: key.to_string(),
        model: model.to_string(),
        reasoning_effort: "low".to_string(),
    }
}

#[test]
fn blank_settings_fall_back() {
    let stored = ai("http://old", "k0", "m0");
    let defaults = ai("http://default", "", "m-default");
    let s = settings_to_save("  ", " k1 ", "", &stored, &defaults);
    assert_eq!(s.base_url, "http://default");
    assert_eq!(s.api_key, "k1");
    assert_eq!(s.model, "m-default");
    assert_eq!(s.reasoning_effort, "low");
    let s = settings_to_save(" http://x ", "", " m ", &stored, &defaults);
    assert_eq!((s.base_url.as_str(), s.model.as_str()), ("http://x", "m"));
}

#[test]
fn the_settings_page_tells_what_happened() {
    let mut p = SettingsPage::new();
    assert_eq!(p.active, Section::AiModel);
    assert_eq!(Section::all().len(), 2);
    p.saved(Some("只读"));
    assert!(p.notice.as_ref().unwrap().is_error);
    assert!(p.notice.as_ref().unwrap().text.contains("只读"));
    p.saved(None);
    assert!(!p.notice.as_ref().unwrap().is_error);
    p.pick(Section::Workspace);
    assert_eq!(p.active, Section::Workspace);
    p.open();
    assert!(p.notice.is_none());
    assert_ne!(Section::AiModel.label(), Section::Workspace.label());
}

#[test]
fn silent_checks_stay_silent() {
    let mut s = UpdateState::Idle;
    assert!(s.begin_check());
    assert!(matches!(s, UpdateState::Checking));
    assert!(!s.begin_check(), "one check at a time");
    s.finish_check(CheckResult::Failed("断网".to_string()), true);
    assert!(matches!(s, UpdateState::Idle));
    s.begin_check();
    s.finish_check(CheckResult::Failed("断网".to_string()), false);
    assert!(matches!(&s, UpdateState::Error { message } if message == "断网"));
    assert!(banner(&s, "1.0").unwrap().text.contains("断网"));
    s.dismiss();
    assert!(banner(&s, "1.0").is_none());
}

#[test]
fn an_update_is_downloaded_then_installed() {
    let mut s = UpdateState::Idle;
    s.begin_check();
    s.finish_check(CheckResult::Newer, false);
    s.progress(40);
    assert!(matches!(s, UpdateState::Downloading { percent: 40 }));
    assert!(banner(&s, "1.0").unwrap().text.contains("40%"));
    s.finish_download("2.0".to_string(), "修复".to_string(), Ok("x.zip".to_string()));
    let shown = banner(&s, "1.0").unwrap();
    assert!(shown.text.contains("2.0"));
    assert_eq!(shown.action, Some(BannerAction::Restart));
    assert_eq!(s.begin_install(), Some("x.zip".to_string()));
    assert!(matches!(s, UpdateState::Installing));
    assert_eq!(s.begin_install(), None);
    s.fail_install("占用".to_string());
    assert_eq!(banner(&s, "1.0").unwrap().action, Some(BannerAction::Dismiss));
    let mut t = UpdateState::Checking;
    t.finish_check(CheckResult::Current, false);
    assert!(banner(&t, "1.0").unwrap().text.contains("1.0"));
}
