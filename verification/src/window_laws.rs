//! What the window around the canvas offers, and that it is what it says.

use vstd::prelude::*;
use crate::board::{
    layer_applies, ActiveTool, BoardV, CancelStep, DragV, Handle, LayerOp, Modifiers, PointTarget,
};
use crate::board_actions::{
    edit_key_of, handle_cursor, wheel_of, CursorStyle, EditKey, WheelStep,
};
use crate::board_style::align_of;
use crate::chrome::{
    dropdown_rows, kind_label_of, kind_name_of, menu_text_of, tool_label_of, MenuAction, MenuRow,
};
use crate::element::{ElementV, KindV, TextAlign};
use crate::ids::ElementId;
use crate::keymap::{binding_of, tool_key_of, BoardAction};
use crate::scene::{has_id, place_of};
use crate::settings::field_or;
use crate::style_bar::{first_line, first_size, offered_fills, offered_strokes};
use crate::text::trim_spec;
use crate::update_flow::{after_check, banner_of, BannerAction, CheckResult, UpdateState};

verus! {

/// While a text is edited the cursor is a text cursor, whatever the tool.
pub proof fn law_editing_shows_the_text_cursor<F>(b: BoardV<F>)
    ensures
        b.editing is Some <==> b.cursor() == CursorStyle::IBeam,
{
}

/// A drag shows what it does: a hand while it pans, moves or drags a point, the
/// arrows of its handle while it resizes, a cross while a temporary stroke is
/// drawn. While nothing is dragged, the shift key hints a stroke and the control
/// key a pan, and else the tool decides.
pub proof fn law_the_cursor_shows_the_gesture<F>(b: BoardV<F>)
    requires
        b.editing is None,
    ensures
        b.drag is Panning || b.drag is Moving || b.drag is EditingPoint ==> b.cursor()
            == CursorStyle::PointingHand,
        b.drag matches DragV::Resizing { handle, .. } ==> b.cursor() == handle_cursor(handle),
        b.drag is Freedraw && b.temp_pen ==> b.cursor() == CursorStyle::Crosshair,
        b.drag is Idle && b.modifiers.shift && b.tool != ActiveTool::Pen ==> b.cursor()
            == CursorStyle::Crosshair,
        b.drag is Idle && !b.modifiers.shift && b.modifiers.ctrl ==> b.cursor()
            == CursorStyle::PointingHand || b.tool == ActiveTool::Hand,
        b.drag is Idle && !b.modifiers.shift && !b.modifiers.ctrl ==> b.cursor() == b.tool_cursor(),
        b.drag is Drawing || b.drag is Marquee || b.drag is Erasing ==> b.cursor()
            == b.tool_cursor(),
{
}

/// Drawing tools and the text tool show a cross, the hand and the eraser a hand.
/// The select tool shows what is under the pointer: a hand over a control point or
/// an element, the arrows of a handle over it, and an arrow over nothing.
pub proof fn law_the_cursor_shows_the_tool<F>(b: BoardV<F>)
    ensures
        b.tool == ActiveTool::Rectangle || b.tool == ActiveTool::Diamond || b.tool
            == ActiveTool::Ellipse || b.tool == ActiveTool::Arrow || b.tool == ActiveTool::Line
            || b.tool == ActiveTool::Pen || b.tool == ActiveTool::Text ==> b.tool_cursor()
            == CursorStyle::Crosshair,
        b.tool == ActiveTool::Hand || b.tool == ActiveTool::Eraser ==> b.tool_cursor()
            == CursorStyle::PointingHand,
        b.tool == ActiveTool::Select && b.hover_point is Some ==> b.tool_cursor()
            == CursorStyle::PointingHand,
        b.tool == ActiveTool::Select && b.hover_point is None && b.hover_handle is Some
            ==> b.tool_cursor() == handle_cursor(b.hover_handle->Some_0),
        b.tool == ActiveTool::Select && b.hover_point is None && b.hover_handle is None
            && b.hover_over_element ==> b.tool_cursor() == CursorStyle::PointingHand,
        b.tool == ActiveTool::Select && b.hover_point is None && b.hover_handle is None
            && !b.hover_over_element ==> b.tool_cursor() == CursorStyle::Arrow,
{
}

/// The top and the bottom handle resize up and down, the left and the right one to
/// the sides; a corner shows a hand.
pub proof fn law_handles_show_their_direction(h: Handle)
    ensures
        handle_cursor(h) == CursorStyle::ResizeUpDown <==> crate::geometry::handle_halves(h).0 == 1,
        handle_cursor(h) == CursorStyle::ResizeLeftRight <==> crate::geometry::handle_halves(h).1
            == 1,
        handle_cursor(h) == CursorStyle::PointingHand <==> h == Handle::Nw || h == Handle::Ne || h
            == Handle::Se || h == Handle::Sw,
{
}

/// Only the select tool hovers. A control point of the selected line is hovered
/// before a handle, and a handle before an element.
pub proof fn law_only_the_select_tool_hovers<F>(
    b: BoardV<F>,
    point: Option<PointTarget>,
    handle: Option<Handle>,
    hit: bool,
    inside: bool,
)
    ensures
        ({
            let a = b.hovered(point, handle, hit, inside);
            let line = b.selected_line() is Some;
            &&& b.tool != ActiveTool::Select ==> a.hover_point is None && a.hover_handle is None
                && !a.hover_over_element
            &&& b.tool == ActiveTool::Select && line ==> a.hover_point == point
            &&& b.tool == ActiveTool::Select && !line ==> a.hover_point is None
            &&& b.tool == ActiveTool::Select && a.hover_point is None && b.has_box()
                ==> a.hover_handle == handle
            &&& a.hover_point is Some || !b.has_box() ==> a.hover_handle is None
            &&& b.tool == ActiveTool::Select && a.hover_point is None && a.hover_handle is None
                ==> a.hover_over_element == (hit || (b.has_box() && inside))
            &&& a.hover_point is Some || a.hover_handle is Some ==> !a.hover_over_element
            &&& a == (BoardV {
                hover_point: a.hover_point,
                hover_handle: a.hover_handle,
                hover_over_element: a.hover_over_element,
                ..b
            })
        }),
{
}

/// A letter of a shortcut as the key names write it.
pub open spec fn lower(c: char) -> char {
    if c == 'C' {
        'c'
    } else if c == 'S' {
        's'
    } else if c == 'Z' {
        'z'
    } else if c == 'O' {
        'o'
    } else if c == 'D' {
        'd'
    } else if c == '+' {
        '-'
    } else {
        c
    }
}

/// The key name of a shortcut as it is shown.
pub open spec fn key_name(shortcut: Seq<char>) -> Seq<char> {
    Seq::new(shortcut.len(), |i: int| lower(shortcut[i]))
}

proof fn lemma_key_names()
    ensures
        key_name("Ctrl+Z"@) == "ctrl-z"@,
        key_name("Ctrl+Shift+Z"@) == "ctrl-shift-z"@,
        key_name("Ctrl+S"@) == "ctrl-s"@,
        key_name("Ctrl+O"@) == "ctrl-o"@,
        key_name("Ctrl+="@) == "ctrl-="@,
        key_name("Ctrl+-"@) == "ctrl--"@,
        key_name("Ctrl+0"@) == "ctrl-0"@,
        key_name("Delete"@) == "delete"@,
        key_name("Ctrl+Shift+]"@) == "ctrl-shift-]"@,
        key_name("Ctrl+Shift+["@) == "ctrl-shift-["@,
        key_name("Ctrl+]"@) == "ctrl-]"@,
        key_name("Ctrl+["@) == "ctrl-["@,
{
    reveal_strlit("Ctrl+Z");
    reveal_strlit("Ctrl+Shift+Z");
    reveal_strlit("Ctrl+S");
    reveal_strlit("Ctrl+O");
    reveal_strlit("Ctrl+=");
    reveal_strlit("Ctrl+-");
    reveal_strlit("Ctrl+0");
    reveal_strlit("Delete");
    reveal_strlit("Ctrl+Shift+]");
    reveal_strlit("Ctrl+Shift+[");
    reveal_strlit("Ctrl+]");
    reveal_strlit("Ctrl+[");
    reveal_strlit("ctrl-z");
    reveal_strlit("ctrl-shift-z");
    reveal_strlit("ctrl-s");
    reveal_strlit("ctrl-o");
    reveal_strlit("ctrl-=");
    reveal_strlit("ctrl--");
    reveal_strlit("ctrl-0");
    reveal_strlit("delete");
    reveal_strlit("ctrl-shift-]");
    reveal_strlit("ctrl-shift-[");
    reveal_strlit("ctrl-]");
    reveal_strlit("ctrl-[");
    assert(key_name("Ctrl+Z"@) =~= "ctrl-z"@);
    assert(key_name("Ctrl+Shift+Z"@) =~= "ctrl-shift-z"@);
    assert(key_name("Ctrl+S"@) =~= "ctrl-s"@);
    assert(key_name("Ctrl+O"@) =~= "ctrl-o"@);
    assert(key_name("Ctrl+="@) =~= "ctrl-="@);
    assert(key_name("Ctrl+-"@) =~= "ctrl--"@);
    assert(key_name("Ctrl+0"@) =~= "ctrl-0"@);
    assert(key_name("Delete"@) =~= "delete"@);
    assert(key_name("Ctrl+Shift+]"@) =~= "ctrl-shift-]"@);
    assert(key_name("Ctrl+Shift+["@) =~= "ctrl-shift-["@);
    assert(key_name("Ctrl+]"@) =~= "ctrl-]"@);
    assert(key_name("Ctrl+["@) =~= "ctrl-["@);
}

proof fn lemma_bound_keys()
    ensures
        binding_of("ctrl-z"@) == Some((BoardAction::Undo, true)),
        binding_of("ctrl-shift-z"@) == Some((BoardAction::Redo, true)),
        binding_of("ctrl-y"@) == Some((BoardAction::Redo, true)),
        binding_of("ctrl-s"@) == Some((BoardAction::Save, true)),
        binding_of("ctrl-o"@) == Some((BoardAction::Open, true)),
        binding_of("ctrl-="@) == Some((BoardAction::ZoomIn, true)),
        binding_of("ctrl--"@) == Some((BoardAction::ZoomOut, true)),
        binding_of("ctrl-0"@) == Some((BoardAction::ZoomReset, true)),
        binding_of("ctrl-b"@) == Some((BoardAction::ToggleAi, true)),
        binding_of("delete"@) == Some((BoardAction::DeleteSelection, false)),
        binding_of("backspace"@) == Some((BoardAction::DeleteSelection, false)),
        binding_of("escape"@) == Some((BoardAction::Cancel, false)),
        binding_of("ctrl-shift-]"@) == Some((BoardAction::Layer(LayerOp::ToFront), false)),
        binding_of("ctrl-shift-["@) == Some((BoardAction::Layer(LayerOp::ToBack), false)),
        binding_of("ctrl-]"@) == Some((BoardAction::Layer(LayerOp::Forward), false)),
        binding_of("ctrl-["@) == Some((BoardAction::Layer(LayerOp::Backward), false)),
{
    reveal_strlit("ctrl-z");
    reveal_strlit("ctrl-shift-z");
    reveal_strlit("ctrl-y");
    reveal_strlit("ctrl-s");
    reveal_strlit("ctrl-o");
    reveal_strlit("ctrl-=");
    reveal_strlit("ctrl--");
    reveal_strlit("ctrl-0");
    reveal_strlit("ctrl-b");
    reveal_strlit("delete");
    reveal_strlit("backspace");
    reveal_strlit("escape");
    reveal_strlit("ctrl-shift-]");
    reveal_strlit("ctrl-shift-[");
    reveal_strlit("ctrl-]");
    reveal_strlit("ctrl-[");
    assert("ctrl-z"@[5] == 'z' && "ctrl-y"@[5] == 'y' && "ctrl-s"@[5] == 's' && "ctrl-o"@[5] == 'o'
        && "ctrl-="@[5] == '=' && "ctrl--"@[5] == '-' && "ctrl-0"@[5] == '0' && "ctrl-b"@[5] == 'b'
        && "ctrl-]"@[5] == ']' && "ctrl-["@[5] == '[' && "delete"@[5] == 'e' && "escape"@[5] == 'e');
    assert("ctrl-shift-z"@[11] == 'z' && "ctrl-shift-]"@[11] == ']' && "ctrl-shift-["@[11] == '[');
    assert("delete"@[0] == 'd' && "escape"@[0] == 'e');
    assert("ctrl-z"@.len() == 6 && "ctrl-y"@.len() == 6 && "ctrl-s"@.len() == 6 && "ctrl-o"@.len()
        == 6 && "ctrl-="@.len() == 6 && "ctrl--"@.len() == 6 && "ctrl-0"@.len() == 6
        && "ctrl-b"@.len() == 6 && "ctrl-]"@.len() == 6 && "ctrl-["@.len() == 6 && "delete"@.len()
        == 6 && "escape"@.len() == 6 && "backspace"@.len() == 9 && "ctrl-shift-z"@.len() == 12
        && "ctrl-shift-]"@.len() == 12 && "ctrl-shift-["@.len() == 12);
}

/// What a menu row does when it is chosen, as a key would ask for it.
pub open spec fn same_as_key(a: MenuAction) -> Option<BoardAction> {
    match a {
        MenuAction::Layer(op) => Some(BoardAction::Layer(op)),
        MenuAction::DeleteSelection => Some(BoardAction::DeleteSelection),
        MenuAction::Open => Some(BoardAction::Open),
        MenuAction::Save => Some(BoardAction::Save),
        MenuAction::Undo => Some(BoardAction::Undo),
        MenuAction::Redo => Some(BoardAction::Redo),
        MenuAction::ZoomIn => Some(BoardAction::ZoomIn),
        MenuAction::ZoomOut => Some(BoardAction::ZoomOut),
        MenuAction::ZoomReset => Some(BoardAction::ZoomReset),
        _ => None,
    }
}

/// The shortcut that a menu row shows is the key that does the same.
pub proof fn law_menus_show_the_right_keys(a: MenuAction)
    requires
        same_as_key(a) is Some,
    ensures
        menu_text_of(a).1 matches Some(shortcut) && (binding_of(key_name(shortcut)) matches Some(
            bound,
        ) && bound.0 == same_as_key(a)->Some_0),
{
    lemma_key_names();
    lemma_bound_keys();
}

/// Undo, redo, saving, opening, zooming and the panel work from text fields too;
/// deleting, cancelling, the layers and the tools do not. Control and y is another
/// way to redo, backspace another to delete.
pub proof fn law_typing_keys_stay_out_of_text_fields(key: Seq<char>)
    ensures
        binding_of(key) matches Some((action, everywhere)) ==> everywhere == (action
            == BoardAction::Undo || action == BoardAction::Redo || action == BoardAction::Save
            || action == BoardAction::Open || action == BoardAction::ZoomIn || action
            == BoardAction::ZoomOut || action == BoardAction::ZoomReset || action
            == BoardAction::ToggleAi),
        binding_of("ctrl-y"@) == binding_of("ctrl-shift-z"@),
        binding_of("backspace"@) == binding_of("delete"@),
        binding_of("escape"@) matches Some((a, _)) && a == BoardAction::Cancel,
        binding_of("ctrl-b"@) matches Some((a, _)) && a == BoardAction::ToggleAi,
{
    lemma_bound_keys();
}

/// Every tool has one key, a letter: v, h, r, d, o, a, l, p, t and e in the order
/// of the toolbar.
pub proof fn law_tools_have_their_letters(key: Seq<char>)
    ensures
        tool_key_of(key) is Some ==> key.len() == 1,
        key.len() == 1 ==> {
            let c = key[0];
            &&& c == 'v' <==> tool_key_of(key) == Some(ActiveTool::Select)
            &&& c == 'h' <==> tool_key_of(key) == Some(ActiveTool::Hand)
            &&& c == 'r' <==> tool_key_of(key) == Some(ActiveTool::Rectangle)
            &&& c == 'd' <==> tool_key_of(key) == Some(ActiveTool::Diamond)
            &&& c == 'o' <==> tool_key_of(key) == Some(ActiveTool::Ellipse)
            &&& c == 'a' <==> tool_key_of(key) == Some(ActiveTool::Arrow)
            &&& c == 'l' <==> tool_key_of(key) == Some(ActiveTool::Line)
            &&& c == 'p' <==> tool_key_of(key) == Some(ActiveTool::Pen)
            &&& c == 't' <==> tool_key_of(key) == Some(ActiveTool::Text)
            &&& c == 'e' <==> tool_key_of(key) == Some(ActiveTool::Eraser)
        },
{
    reveal_strlit("v");
    reveal_strlit("h");
    reveal_strlit("r");
    reveal_strlit("d");
    reveal_strlit("o");
    reveal_strlit("a");
    reveal_strlit("l");
    reveal_strlit("p");
    reveal_strlit("t");
    reveal_strlit("e");
    if key.len() == 1 {
        assert(key =~= seq![key[0]]);
        assert("v"@ =~= seq!['v'] && "h"@ =~= seq!['h'] && "r"@ =~= seq!['r'] && "d"@ =~= seq!['d']
            && "o"@ =~= seq!['o'] && "a"@ =~= seq!['a'] && "l"@ =~= seq!['l'] && "p"@ =~= seq!['p']
            && "t"@ =~= seq!['t'] && "e"@ =~= seq!['e']);
        assert(seq![key[0]][0] == key[0]);
    }
}

/// A tool key chooses its tool.
pub proof fn law_a_tool_key_chooses_its_tool(key: Seq<char>)
    ensures
        tool_key_of(key) matches Some(t) ==> binding_of(key) == Some((BoardAction::Tool(t), false)),
        (binding_of(key) matches Some((BoardAction::Tool(t), _)) ==> tool_key_of(key) == Some(t)),
{
    law_tools_have_their_letters(key);
    lemma_bound_keys();
    reveal_strlit("ctrl-z");
    reveal_strlit("ctrl-shift-z");
    reveal_strlit("ctrl-y");
    reveal_strlit("ctrl-s");
    reveal_strlit("ctrl-o");
    reveal_strlit("ctrl-=");
    reveal_strlit("ctrl--");
    reveal_strlit("ctrl-0");
    reveal_strlit("ctrl-b");
    reveal_strlit("delete");
    reveal_strlit("backspace");
    reveal_strlit("escape");
    reveal_strlit("ctrl-shift-]");
    reveal_strlit("ctrl-shift-[");
    reveal_strlit("ctrl-]");
    reveal_strlit("ctrl-[");
}

/// While a text is edited, escape commits, enter breaks the line, and the arrows,
/// home and end move the caret, extending the selection with the shift key;
/// control and a selects all. Every other key types.
pub proof fn law_edit_keys_do_what_they_say(key: Seq<char>, m: Modifiers)
    ensures
        edit_key_of("escape"@, m) == Some(EditKey::Commit),
        edit_key_of("enter"@, m) == Some(EditKey::NewLine),
        edit_key_of("backspace"@, m) == Some(EditKey::Backspace),
        edit_key_of("delete"@, m) == Some(EditKey::Delete),
        edit_key_of("left"@, m) == Some(EditKey::Left { extend: m.shift }),
        edit_key_of("right"@, m) == Some(EditKey::Right { extend: m.shift }),
        edit_key_of("up"@, m) == Some(EditKey::Up { extend: m.shift }),
        edit_key_of("down"@, m) == Some(EditKey::Down { extend: m.shift }),
        edit_key_of("home"@, m) == Some(EditKey::Home { extend: m.shift }),
        edit_key_of("end"@, m) == Some(EditKey::End { extend: m.shift }),
        edit_key_of("a"@, m) == (if m.ctrl {
            Some(EditKey::SelectAll)
        } else {
            None
        }),
        key.len() == 1 && !(m.ctrl && key[0] == 'a') ==> edit_key_of(key, m) is None,
{
    reveal_strlit("escape");
    reveal_strlit("enter");
    reveal_strlit("backspace");
    reveal_strlit("delete");
    reveal_strlit("left");
    reveal_strlit("right");
    reveal_strlit("up");
    reveal_strlit("down");
    reveal_strlit("home");
    reveal_strlit("end");
    reveal_strlit("a");
    assert("escape"@[0] == 'e' && "delete"@[0] == 'd' && "left"@[0] == 'l' && "home"@[0] == 'h'
        && "down"@[0] == 'd' && "enter"@[0] == 'e' && "right"@[0] == 'r');
    assert("escape"@.len() == 6 && "enter"@.len() == 5 && "backspace"@.len() == 9 && "delete"@.len()
        == 6 && "left"@.len() == 4 && "right"@.len() == 5 && "up"@.len() == 2 && "down"@.len() == 4
        && "home"@.len() == 4 && "end"@.len() == 3 && "a"@.len() == 1);
    assert("a"@[0] == 'a');
}

/// A drawing tool is called after the kind that it draws.
pub proof fn law_tools_are_called_after_their_kind<F>(p: Seq<crate::element::WPoint<F>>)
    ensures
        tool_label_of(ActiveTool::Rectangle) == kind_label_of(KindV::<F>::Rectangle),
        tool_label_of(ActiveTool::Ellipse) == kind_label_of(KindV::<F>::Ellipse),
        tool_label_of(ActiveTool::Diamond) == kind_label_of(KindV::<F>::Diamond),
        tool_label_of(ActiveTool::Line) == kind_label_of(KindV::Line { points: p }),
        tool_label_of(ActiveTool::Arrow) == kind_label_of(
            KindV::Arrow { points: p, end_arrowhead: true, start_arrowhead: false },
        ),
{
}

/// Elements of different kinds have different names.
pub proof fn law_kinds_have_their_own_names<F>(a: KindV<F>, b: KindV<F>)
    requires
        kind_name_of(a) == kind_name_of(b),
    ensures
        a is Rectangle == b is Rectangle,
        a is Ellipse == b is Ellipse,
        a is Diamond == b is Diamond,
        a is Line == b is Line,
        a is Arrow == b is Arrow,
        a is Freedraw == b is Freedraw,
        a is Polygon == b is Polygon,
        a is Text == b is Text,
        a is Image == b is Image,
        a is Canvas == b is Canvas,
        a is Rectangle ==> kind_name_of(a) == "rectangle"@,
        a is Text ==> kind_name_of(a) == "text"@,
{
    reveal_strlit("rectangle");
    reveal_strlit("ellipse");
    reveal_strlit("diamond");
    reveal_strlit("arrow");
    reveal_strlit("line");
    reveal_strlit("text");
    reveal_strlit("freedraw");
    reveal_strlit("polygon");
    reveal_strlit("image");
    reveal_strlit("canvas");
    assert("rectangle"@[0] == 'r' && "ellipse"@[0] == 'e' && "diamond"@[0] == 'd' && "arrow"@[0]
        == 'a' && "line"@[0] == 'l' && "text"@[0] == 't' && "freedraw"@[0] == 'f' && "polygon"@[0]
        == 'p' && "image"@[0] == 'i' && "canvas"@[0] == 'c');
}

/// A tool is marked when it is the tool, the hand also while the canvas is panned
/// or the control key asks for it, the pen also while a temporary stroke is drawn
/// or the shift key asks for it.
pub proof fn law_the_tool_in_use_is_marked<F>(b: BoardV<F>, t: ActiveTool)
    ensures
        b.tool_marked(b.tool),
        b.temp_pan ==> b.tool_marked(ActiveTool::Hand),
        b.temp_pen ==> b.tool_marked(ActiveTool::Pen),
        b.modifiers.ctrl && b.editing is None && b.drag is Idle ==> b.tool_marked(ActiveTool::Hand),
        b.modifiers.shift && b.editing is None && b.drag is Idle ==> b.tool_marked(ActiveTool::Pen),
        t != b.tool && t != ActiveTool::Hand && t != ActiveTool::Pen ==> !b.tool_marked(t),
        !b.temp_pan && !b.temp_pen && !b.modifiers.ctrl && !b.modifiers.shift ==> (b.tool_marked(t)
            <==> t == b.tool),
        (b.editing is Some || !(b.drag is Idle)) && !b.temp_pan && !b.temp_pen ==> (b.tool_marked(t)
            <==> t == b.tool),
{
}

/// The context menu offers each layer move once, enabled when it applies, and
/// deleting, enabled when something is selected; on a vertex it offers to delete
/// that first. It is there exactly when it is open.
pub proof fn law_the_context_menu_offers_what_applies<F>(b: BoardV<F>, op: LayerOp)
    ensures
        b.context_rows() is Some <==> b.context_menu is Some,
        b.context_rows() matches Some(rows) ==> {
            let v = b.context_menu->Some_0.vertex;
            &&& rows.contains(
                MenuRow::Row {
                    action: MenuAction::Layer(op),
                    enabled: layer_applies(op, b.scene, b.selection),
                },
            )
            &&& rows.contains(
                MenuRow::Row {
                    action: MenuAction::DeleteSelection,
                    enabled: b.selection.len() > 0,
                },
            )
            &&& v matches Some(i) ==> rows[0] == (MenuRow::Row {
                action: MenuAction::DeleteVertex(i),
                enabled: true,
            }) && rows.len() == 8
            &&& v is None ==> rows.len() == 6
        },
{
    if let Some(rows) = b.context_rows() {
        let n: int = if b.context_menu->Some_0.vertex is Some {
            2
        } else {
            0
        };
        assert(rows[n] == b.layer_row(LayerOp::ToFront));
        assert(rows[n + 1] == b.layer_row(LayerOp::Forward));
        assert(rows[n + 2] == b.layer_row(LayerOp::Backward));
        assert(rows[n + 3] == b.layer_row(LayerOp::ToBack));
        assert(rows[n + 5] == (MenuRow::Row {
            action: MenuAction::DeleteSelection,
            enabled: b.selection.len() > 0,
        }));
    }
}

/// The menus offer opening, saving and quitting; undo and redo; zooming in, out and
/// back; and the check for updates. All their rows are enabled, and there are four
/// menus.
pub proof fn law_the_menus_offer_everything(i: int, k: int)
    ensures
        dropdown_rows(i) is Some <==> 0 <= i < 4,
        (dropdown_rows(i) matches Some(rows) && 0 <= k < rows.len()) ==> (
        dropdown_rows(i)->Some_0[k] matches MenuRow::Row { enabled, .. } ==> enabled),
        ({
            let (file, edit, view, help) = (
                dropdown_rows(0)->Some_0,
                dropdown_rows(1)->Some_0,
                dropdown_rows(2)->Some_0,
                dropdown_rows(3)->Some_0,
            );
            &&& offers(file, MenuAction::Open) && offers(file, MenuAction::Save) && offers(
                file,
                MenuAction::Quit,
            )
            &&& offers(edit, MenuAction::Undo) && offers(edit, MenuAction::Redo)
            &&& offers(view, MenuAction::ZoomIn) && offers(view, MenuAction::ZoomOut) && offers(
                view,
                MenuAction::ZoomReset,
            )
            &&& offers(help, MenuAction::CheckForUpdates)
        }),
{
    let (file, edit) = (dropdown_rows(0)->Some_0, dropdown_rows(1)->Some_0);
    let (view, help) = (dropdown_rows(2)->Some_0, dropdown_rows(3)->Some_0);
    assert(file[0] == enabled_row(MenuAction::Open));
    assert(file[1] == enabled_row(MenuAction::Save));
    assert(file[3] == enabled_row(MenuAction::Quit));
    assert(edit[0] == enabled_row(MenuAction::Undo));
    assert(edit[1] == enabled_row(MenuAction::Redo));
    assert(view[0] == enabled_row(MenuAction::ZoomIn));
    assert(view[1] == enabled_row(MenuAction::ZoomOut));
    assert(view[3] == enabled_row(MenuAction::ZoomReset));
    assert(help[0] == enabled_row(MenuAction::CheckForUpdates));
}

/// The row of an action that can be chosen.
pub open spec fn enabled_row(a: MenuAction) -> MenuRow {
    MenuRow::Row { action: a, enabled: true }
}

/// Whether a menu offers an action.
pub open spec fn offers(rows: Seq<MenuRow>, a: MenuAction) -> bool {
    rows.contains(enabled_row(a))
}

/// A saved board remembers its file and is clean; a failed save leaves it as it
/// was. Either way a notice ends with the path or the reason.
pub proof fn law_saving_cleans_the_board<F>(
    b: BoardV<F>,
    path: Seq<char>,
    failure: Option<Seq<char>>,
)
    ensures
        ({
            let a = b.saved(path, failure);
            &&& failure is None ==> a.file_path == Some(path) && !a.dirty && a.notice is Some
                && crate::op_laws::ends_with(a.notice->Some_0, path)
            &&& failure matches Some(e) ==> a.file_path == b.file_path && a.dirty == b.dirty
                && a.notice is Some && crate::op_laws::ends_with(a.notice->Some_0, e)
            &&& a.scene == b.scene && a.history == b.history && a.selection == b.selection
        }),
{
    assert(("已保存到 "@ + path).skip("已保存到 "@.len() as int) =~= path);
    if let Some(e) = failure {
        assert(("保存失败: "@ + e).skip("保存失败: "@.len() as int) =~= e);
    }
}

/// An opened file replaces the scene, its grid and its surface, with nothing
/// selected, nothing to undo and nothing unsaved.
pub proof fn law_opening_replaces_the_board<F>(
    b: BoardV<F>,
    path: Seq<char>,
    elements: Seq<ElementV<F>>,
    show_grid: bool,
    background: Option<u32>,
)
    ensures
        ({
            let a = b.opened(path, elements, show_grid, background);
            &&& a.scene == elements && a.show_grid == show_grid && a.canvas_background == background
            &&& a.selection.len() == 0 && a.history.undo.len() == 0 && a.history.redo.len() == 0
            &&& a.file_path == Some(path) && !a.dirty
            &&& a.notice is Some && crate::op_laws::ends_with(a.notice->Some_0, path)
            &&& a.style == b.style && a.tool == b.tool
        }),
{
    assert(("已打开 "@ + path).skip("已打开 "@.len() as int) =~= path);
}

/// An unsaved change is marked behind the file's name; what there is to notice
/// follows.
pub proof fn law_the_notice_marks_unsaved_changes<F>(b: BoardV<F>, name: Seq<char>)
    ensures
        b.file_path is Some && !b.dirty && b.notice is None ==> b.notice_line(Some(name)) == name,
        b.file_path is Some && b.dirty && b.notice is None ==> b.notice_line(Some(name)) == name
            + " •"@,
        b.file_path is None && !b.dirty ==> b.notice_line(Some(name)) == (match b.notice {
            Some(n) => n,
            None => Seq::empty(),
        }),
        b.notice matches Some(n) ==> crate::op_laws::ends_with(b.notice_line(Some(name)), n),
{
    reveal_strlit("未保存 •");
    if let Some(n) = b.notice {
        let line = b.notice_line(Some(name));
        assert(line.skip(line.len() - n.len()) =~= n);
    }
}

/// The bar shows while something can be drawn, written or restyled.
pub proof fn law_the_bar_shows_when_it_has_a_use<F>(b: BoardV<F>)
    ensures
        b.selection.len() > 0 ==> b.bar_shows(),
        b.selection.len() == 0 ==> (b.bar_shows() <==> b.tool == ActiveTool::Rectangle || b.tool
            == ActiveTool::Diamond || b.tool == ActiveTool::Ellipse || b.tool == ActiveTool::Arrow
            || b.tool == ActiveTool::Line || b.tool == ActiveTool::Pen || b.tool
            == ActiveTool::Text),
{
}

/// Whether every selected element is there and a text.
pub open spec fn texts_only<F>(b: BoardV<F>) -> bool {
    b.selection.len() > 0 && forall|i: int|
        0 <= i < b.selection.len() ==> has_id(b.scene, #[trigger] b.selection[i])
            && b.scene[place_of(b.scene, b.selection[i])].kind is Text
}

/// Whether a single shape, line or arrow is selected.
pub open spec fn one_container<F>(b: BoardV<F>) -> bool {
    b.selection.len() == 1 && has_id(b.scene, b.selection[0]) && {
        let k = b.scene[place_of(b.scene, b.selection[0])].kind;
        k is Rectangle || k is Ellipse || k is Diamond || k is Line || k is Arrow
    }
}

/// The text settings are offered with the text tool and the tools of shapes that
/// take a label, for selected texts, and for a single container. The shape settings
/// are offered unless only texts are meant; labels stand for their containers.
pub proof fn law_settings_are_offered_for_what_they_change<F>(b: BoardV<F>)
    ensures
        b.text_options() <==> b.tool == ActiveTool::Text || b.tool == ActiveTool::Rectangle || b.tool
            == ActiveTool::Ellipse || b.tool == ActiveTool::Diamond || texts_only(b)
            || one_container(b),
        b.shape_options() <==> (b.tool != ActiveTool::Text && !texts_only(b))
            || crate::board_labels::labels_only(b.scene, b.selection),
{
    assert(b.only_text() == texts_only(b)) by {
        if texts_only(b) {
            assert forall|i: int| 0 <= i < b.selection.len() implies has_id(
                b.scene,
                #[trigger] b.selection[i],
            ) && crate::style_bar::text_p::<F>()(
                b.scene[place_of(b.scene, b.selection[i])].kind,
            ) by {}
        }
        if b.only_text() {
            assert forall|i: int| 0 <= i < b.selection.len() implies has_id(
                b.scene,
                #[trigger] b.selection[i],
            ) && b.scene[place_of(b.scene, b.selection[i])].kind is Text by {
                assert(crate::style_bar::text_p::<F>()(
                    b.scene[place_of(b.scene, b.selection[i])].kind,
                ));
            }
        }
    }
}

/// The line settings are offered with the shape settings, for the line and arrow
/// tools and for a selected line or arrow. The fill settings are not offered where
/// only lines, arrows and strokes are meant.
pub proof fn law_line_and_fill_settings_are_offered_where_they_apply<F>(b: BoardV<F>, i: int)
    requires
        b.shape_options(),
    ensures
        b.tool == ActiveTool::Line || b.tool == ActiveTool::Arrow ==> b.line_options(),
        0 <= i < b.selection.len() && has_id(b.scene, b.selection[i]) && (b.scene[place_of(
            b.scene,
            b.selection[i],
        )].kind is Line || b.scene[place_of(b.scene, b.selection[i])].kind is Arrow)
            ==> b.line_options(),
        b.line_options() && b.tool != ActiveTool::Line && b.tool != ActiveTool::Arrow ==> exists|
            j: int,
        |
            0 <= j < b.selection.len() && has_id(b.scene, #[trigger] b.selection[j]) && (
            b.scene[place_of(b.scene, b.selection[j])].kind is Line || b.scene[place_of(
                b.scene,
                b.selection[j],
            )].kind is Arrow),
        b.selection.len() == 0 && (b.tool == ActiveTool::Line || b.tool == ActiveTool::Arrow || b.tool
            == ActiveTool::Pen) ==> !b.background_options(),
        b.selection.len() == 0 && b.tool != ActiveTool::Line && b.tool != ActiveTool::Arrow && b.tool
            != ActiveTool::Pen ==> b.background_options(),
        !crate::board_labels::labels_only(b.scene, b.selection) && 0 <= i < b.selection.len()
            && has_id(b.scene, b.selection[i]) && (b.scene[place_of(
            b.scene,
            b.selection[i],
        )].kind is Rectangle || b.scene[place_of(b.scene, b.selection[i])].kind is Ellipse
            || b.scene[place_of(b.scene, b.selection[i])].kind is Diamond) ==> b.background_options(),
{
    let p = crate::style_bar::line_p::<F>();
    if b.line_options() && b.tool != ActiveTool::Line && b.tool != ActiveTool::Arrow {
        let j = choose|j: int|
            0 <= j < b.selection.len() && has_id(b.scene, #[trigger] b.selection[j]) && p(
                b.scene[place_of(b.scene, b.selection[j])].kind,
            );
        assert(has_id(b.scene, b.selection[j]));
    }
    if 0 <= i < b.selection.len() && has_id(b.scene, b.selection[i]) && p(
        b.scene[place_of(b.scene, b.selection[i])].kind,
    ) {
        assert(crate::style_bar::some_kind(b.scene, b.selection, p));
    }
    if 0 <= i < b.selection.len() && has_id(b.scene, b.selection[i]) && !(
    crate::style_bar::path_p::<F>()(b.scene[place_of(b.scene, b.selection[i])].kind)) {
        assert(!crate::style_bar::live_kinds(
            b.scene,
            b.selection,
            crate::style_bar::path_p::<F>(),
        ));
    }
}

/// The offered colours are marked exactly where they are the board's, so at most
/// one of them is.
pub proof fn law_the_current_colours_are_marked<F>(b: BoardV<F>, i: int, j: int)
    requires
        0 <= i < 5,
        0 <= j < 5,
    ensures
        b.stroke_marks()[i] <==> b.style.stroke == offered_strokes()[i],
        b.fill_marks()[i] <==> b.style.background == offered_fills()[i],
        b.stroke_marks()[i] && b.stroke_marks()[j] ==> i == j,
        b.fill_marks()[i] && b.fill_marks()[j] ==> i == j,
        offered_fills()[0] is None,
        offered_strokes()[0] == crate::element::DEFAULT_STROKE,
{
}

/// The marked font size is that of the first text the bar speaks of, or the
/// default; so the marked line type is that of the first selected line or arrow,
/// or the board's.
pub proof fn law_the_first_text_is_marked<F>(s: Seq<ElementV<F>>, ids: Seq<ElementId>, k: int)
    requires
        0 <= k < ids.len(),
        forall|i: int|
            0 <= i < k ==> !(has_id(s, #[trigger] ids[i]) && s[place_of(s, ids[i])].kind is Text),
        has_id(s, ids[k]),
        s[place_of(s, ids[k])].kind is Text,
    ensures
        first_size(s, ids) == Some(s[place_of(s, ids[k])].kind->font_size),
    decreases k,
{
    if k > 0 {
        let u = ids.skip(1);
        assert forall|i: int| 0 <= i < k - 1 implies !(has_id(s, #[trigger] u[i]) && s[place_of(
            s,
            u[i],
        )].kind is Text) by {
            assert(u[i] == ids[i + 1]);
        }
        assert(u[k - 1] == ids[k]);
        law_the_first_text_is_marked(s, u, k - 1);
        assert(!(has_id(s, ids[0]) && s[place_of(s, ids[0])].kind is Text));
    }
}

/// The line type of the first selected line or arrow is the marked one.
pub proof fn law_the_first_line_is_marked<F>(s: Seq<ElementV<F>>, ids: Seq<ElementId>, k: int)
    requires
        0 <= k < ids.len(),
        forall|i: int|
            0 <= i < k ==> !(has_id(s, #[trigger] ids[i]) && (s[place_of(s, ids[i])].kind is Line
                || s[place_of(s, ids[i])].kind is Arrow)),
        has_id(s, ids[k]),
        s[place_of(s, ids[k])].kind is Line || s[place_of(s, ids[k])].kind is Arrow,
    ensures
        first_line(s, ids) == Some(s[place_of(s, ids[k])].style.line_type),
    decreases k,
{
    if k > 0 {
        let u = ids.skip(1);
        assert forall|i: int| 0 <= i < k - 1 implies !(has_id(s, #[trigger] u[i]) && (s[place_of(
            s,
            u[i],
        )].kind is Line || s[place_of(s, u[i])].kind is Arrow)) by {
            assert(u[i] == ids[i + 1]);
        }
        assert(u[k - 1] == ids[k]);
        law_the_first_line_is_marked(s, u, k - 1);
        assert(!(has_id(s, ids[0]) && (s[place_of(s, ids[0])].kind is Line || s[place_of(
            s,
            ids[0],
        )].kind is Arrow)));
    }
}

/// Without a text among what it speaks of, the bar marks the defaults.
pub proof fn law_defaults_are_marked_without_a_text<F>(b: BoardV<F>, family: Seq<char>, a: TextAlign)
    requires
        b.panel_texts().len() == 0,
    ensures
        b.marked_size() == b.text_font_size,
        b.family_marked(family) <==> b.text_font_family == family,
        b.align_marked(a) <==> b.text_align == a,
        b.selection.len() == 0 ==> b.marked_line() == b.style.line_type,
{
}

/// A family or an alignment is marked when one of the texts has it.
pub proof fn law_settings_of_selected_texts_are_marked<F>(b: BoardV<F>, i: int)
    requires
        0 <= i < b.panel_texts().len(),
        has_id(b.scene, b.panel_texts()[i]),
        b.scene[place_of(b.scene, b.panel_texts()[i])].kind is Text,
    ensures
        ({
            let k = b.scene[place_of(b.scene, b.panel_texts()[i])].kind;
            b.family_marked(k->font_family) && b.align_marked(k->text_align)
        }),
{
    let k = b.scene[place_of(b.scene, b.panel_texts()[i])].kind;
    assert(crate::style_bar::family_p::<F>(k->font_family)(k));
    assert(align_of(k) == k->text_align);
    assert(crate::style_bar::align_p::<F>(k->text_align)(k));
}

/// A field that is left blank takes its default; what is written is kept without
/// the white space around it.
pub proof fn law_blank_fields_take_their_default(value: Seq<char>, default: Seq<char>)
    ensures
        trim_spec(value).len() == 0 ==> field_or(value, default) == default,
        trim_spec(value).len() > 0 ==> field_or(value, default) == trim_spec(value),
{
}

/// A newer version is downloaded at once, with or without a notice; a check that
/// finds none or fails says so only when it was asked for.
pub proof fn law_checks_report_when_asked(r: CheckResult, silent: bool)
    ensures
        r is Newer ==> after_check(r, silent) == (UpdateState::Downloading { percent: 0 }),
        r is Abandoned ==> after_check(r, silent) is Idle,
        silent && !(r is Newer) ==> after_check(r, silent) is Idle,
        !silent && r is Current ==> after_check(r, silent) is UpToDate,
        !silent && r is Failed ==> (after_check(r, silent) matches UpdateState::Error { message }
            && message == r->Failed_0),
{
}

/// The banner shows while an update is downloaded, ready, installed or failed, and
/// after a check that was asked for; it offers a restart exactly when an update is
/// ready, and to be dismissed exactly when there is nothing left to do.
pub proof fn law_the_banner_offers_what_is_left_to_do(s: UpdateState, current: Seq<char>)
    ensures
        banner_of(s, current) is None <==> s is Idle || s is Checking,
        banner_of(s, current) matches Some((_, a)) ==> {
            &&& a == Some(BannerAction::Restart) <==> s is Ready
            &&& a == Some(BannerAction::Dismiss) <==> s is UpToDate || s is Error
            &&& a is None <==> s is Downloading || s is Installing
        },
        s is UpToDate ==> crate::op_laws::ends_with(banner_of(s, current)->Some_0.0, current),
        s matches UpdateState::Error { message } ==> crate::op_laws::ends_with(
            banner_of(s, current)->Some_0.0,
            message@,
        ),
        s.under_way() <==> s is Checking || s is Downloading || s is Installing || s is Ready,
{
    assert(("已是最新版本 v"@ + current).skip("已是最新版本 v"@.len() as int) =~= current);
    if let UpdateState::Error { message } = s {
        assert(("更新失败："@ + message@).skip("更新失败："@.len() as int) =~= message@);
    }
}

/// The other kinds have their names too.
pub proof fn law_kinds_are_named_in_english<F>(k: KindV<F>)
    ensures
        k is Ellipse ==> kind_name_of(k) == "ellipse"@,
        k is Diamond ==> kind_name_of(k) == "diamond"@,
        k is Line ==> kind_name_of(k) == "line"@,
        k is Arrow ==> kind_name_of(k) == "arrow"@,
        k is Freedraw ==> kind_name_of(k) == "freedraw"@,
        k is Polygon ==> kind_name_of(k) == "polygon"@,
        k is Image ==> kind_name_of(k) == "image"@,
        k is Canvas ==> kind_name_of(k) == "canvas"@,
        k is Text ==> kind_label_of(k) == tool_label_of(ActiveTool::Text),
{
}

/// A snapshot shows an element as it is: the beginning of its identity, the name of
/// its kind, its box, and its characters when it is a text.
pub proof fn law_snapshots_show_elements_as_they_are<F>(
    s: crate::chrome::ElementSnapshot<F>,
    e: ElementV<F>,
)
    requires
        crate::chrome::shows(s, e),
    ensures
        s.id@ == crate::ids::hyphenated(e.id.value).take(8),
        s.kind@ == kind_name_of(e.kind),
        s.bounds == e.bounds,
        e.kind is Text ==> (s.text matches Some(t) && t@ == e.kind->Text_text),
        !(e.kind is Text) ==> s.text is None,
{
}

/// Whether a text holds another.
pub open spec fn holds_text(s: Seq<char>, t: Seq<char>, at: int) -> bool {
    0 <= at && at + t.len() <= s.len() && s.subrange(at, at + t.len()) == t
}

/// The context tells every element's summary under its number, in paint order.
pub proof fn law_the_context_numbers_every_element(summaries: Seq<String>, n: nat, k: nat)
    requires
        k < n <= summaries.len(),
    ensures
        exists|at: int| #[trigger]
            holds_text(
                crate::context::numbered(summaries, n),
                crate::text::decimal((k + 1) as nat) + ". "@ + summaries[k as int]@ + "\n"@,
                at,
            ),
    decreases n,
{
    let s = crate::context::numbered(summaries, n);
    let t = crate::text::decimal((k + 1) as nat) + ". "@ + summaries[k as int]@ + "\n"@;
    let head = crate::context::numbered(summaries, (n - 1) as nat);
    if k == n - 1 {
        assert(s =~= head + t);
        assert(s.subrange(head.len() as int, head.len() as int + t.len()) =~= t);
        assert(holds_text(s, t, head.len() as int));
    } else {
        law_the_context_numbers_every_element(summaries, (n - 1) as nat, k);
        let at = choose|at: int| #[trigger] holds_text(head, t, at);
        assert(s.subrange(at, at + t.len()) =~= head.subrange(at, at + t.len()));
        assert(holds_text(s, t, at));
    }
}

/// The context tells how many elements there are, or that there are none.
pub proof fn law_the_context_counts_the_elements(summaries: Seq<String>)
    ensures
        summaries.len() == 0 ==> crate::context::contents_text(summaries)
            == "画布为空，尚无任何元素。\n"@,
        summaries.len() > 0 ==> holds_text(
            crate::context::contents_text(summaries),
            "画布现有 "@ + crate::text::decimal(summaries.len()) + " 个元素：\n"@,
            0,
        ) && crate::op_laws::ends_with(
            crate::context::contents_text(summaries),
            crate::context::numbered(summaries, summaries.len()),
        ),
{
    if summaries.len() > 0 {
        let s = crate::context::contents_text(summaries);
        let t = "画布现有 "@ + crate::text::decimal(summaries.len()) + " 个元素：\n"@;
        let r = crate::context::numbered(summaries, summaries.len());
        assert(s =~= t + r);
        assert(s.subrange(0, t.len() as int) =~= t);
        assert(s.skip(s.len() - r.len()) =~= r);
    }
}

/// A note is shown by its first line, cut with an ellipsis when it is too long, and
/// not at all when it is blank.
pub proof fn law_notes_are_shown_by_their_first_line(notes: Seq<char>)
    ensures
        ({
            let line = crate::update_flow::note_line(notes);
            let part = crate::update_flow::note_part(notes);
            let long = crate::wrap::bytes_before(line, line.len()) > crate::update_flow::NOTE_BYTES;
            &&& line == trim_spec(crate::templates::first_line(notes))
            &&& line.len() == 0 ==> part.len() == 0
            &&& line.len() > 0 && !long ==> crate::op_laws::ends_with(part, line)
            &&& line.len() > 0 && long ==> part.last() == '…' && holds_text(
                part,
                crate::update_flow::clipped(line, crate::update_flow::NOTE_BYTES as nat),
                5,
            )
        }),
{
    reveal_strlit("  ·  ");
    reveal_strlit("…");
    let line = crate::update_flow::note_line(notes);
    let part = crate::update_flow::note_part(notes);
    let cut = crate::update_flow::clipped(line, crate::update_flow::NOTE_BYTES as nat);
    let long = crate::wrap::bytes_before(line, line.len()) > crate::update_flow::NOTE_BYTES;
    if line.len() > 0 {
        if long {
            assert(part.subrange(5int, 5int + cut.len()) =~= cut);
        } else {
            assert(part.skip(part.len() - line.len()) =~= line);
        }
    }
}

/// The style is told with its stroke colour, its width, its roughness, whether it
/// is dashed, its fill and its opacity, in this order.
pub proof fn law_the_context_tells_the_style<F>(
    s: crate::element::ElementStyle<F>,
    n: crate::context::StyleNumbers,
)
    ensures
        ({
            let line = crate::context::style_line(s, n);
            let head = "当前样式：描边 "@;
            let color = crate::text::color_text(s.stroke);
            &&& holds_text(line, color, head.len() as int)
            &&& holds_text(line, n.width@, (head + color + "、线宽 "@).len() as int)
            &&& holds_text(
                line,
                n.roughness@,
                (head + color + "、线宽 "@ + n.width@ + "、粗糙度 "@).len() as int,
            )
            &&& s.stroke_style == crate::element::StrokeStyle::Dashed ==> holds_text(
                line,
                "虚线"@,
                (head + color + "、线宽 "@ + n.width@ + "、粗糙度 "@ + n.roughness@
                    + "、"@).len() as int,
            )
            &&& s.stroke_style == crate::element::StrokeStyle::Solid ==> holds_text(
                line,
                "实线"@,
                (head + color + "、线宽 "@ + n.width@ + "、粗糙度 "@ + n.roughness@
                    + "、"@).len() as int,
            )
            &&& n.opacity_percent matches Some(p) ==> crate::op_laws::ends_with(line, p@ + "%"@)
            &&& n.opacity_percent is None ==> crate::op_laws::ends_with(line, "不透明"@)
        }),
{
    let line = crate::context::style_line(s, n);
    let head = "当前样式：描边 "@;
    let color = crate::text::color_text(s.stroke);
    let a = head.len() as int;
    let b = (head + color + "、线宽 "@).len() as int;
    let c = (head + color + "、线宽 "@ + n.width@ + "、粗糙度 "@).len() as int;
    let d = (head + color + "、线宽 "@ + n.width@ + "、粗糙度 "@ + n.roughness@ + "、"@).len() as int;
    assert(line.subrange(a, a + color.len()) =~= color);
    assert(line.subrange(b, b + n.width@.len()) =~= n.width@);
    assert(line.subrange(c, c + n.roughness@.len()) =~= n.roughness@);
    let dash = match s.stroke_style {
        crate::element::StrokeStyle::Solid => "实线"@,
        crate::element::StrokeStyle::Dashed => "虚线"@,
    };
    assert(line.subrange(d, d + dash.len()) =~= dash);
    match n.opacity_percent {
        Some(p) => {
            let t = p@ + "%"@;
            assert(line.skip(line.len() - t.len()) =~= t);
        },
        None => {
            assert(line.skip(line.len() - "不透明"@.len()) =~= "不透明"@);
        },
    }
}

/// A turn of the wheel zooms exactly with the control key, pans sideways with the
/// shift key and any way without one; over the panel the canvas stays.
pub proof fn law_the_wheel_pans_and_zooms(over_panel: bool, m: Modifiers, x: bool)
    ensures
        wheel_of(over_panel, m, x) == WheelStep::Ignored <==> over_panel,
        wheel_of(over_panel, m, x) == WheelStep::Zoom <==> !over_panel && m.ctrl,
        wheel_of(over_panel, m, x) == WheelStep::Pan <==> !over_panel && !m.ctrl && !m.shift,
        wheel_of(over_panel, m, x) == WheelStep::PanByX <==> !over_panel && !m.ctrl && m.shift && x,
        wheel_of(over_panel, m, x) == WheelStep::PanByY <==> !over_panel && !m.ctrl && m.shift && !x,
{
}

/// A cancel request closes the open menu and nothing else; else it leaves an edit
/// to be committed; else it drops the drag, the draft and the selection. The window
/// is asked to change only when there was nothing of that. The scene stays.
pub proof fn law_cancelling_takes_the_innermost<F>(b: BoardV<F>, full: bool, max: bool)
    ensures
        ({
            let (a, r) = (b.cancelled(), b.cancel_step(full, max));
            let open = b.context_menu is Some;
            let idle = b.drag is Idle && b.draft is None && b.selection.len() == 0;
            &&& a.scene == b.scene && a.history == b.history && a.tool == b.tool && a.editing
                == b.editing
            &&& open <==> r == CancelStep::MenuClosed
            &&& a.context_menu is None
            &&& open ==> a.selection == b.selection && a.drag == b.drag
            &&& !open && b.editing is Some <==> r == CancelStep::CommitEdit
            &&& !open && b.editing is Some ==> a == b
            &&& !open && b.editing is None ==> a.drag is Idle && a.draft is None
                && a.selection.len() == 0
            &&& !open && b.editing is None && !idle <==> r == CancelStep::Cleared
            &&& !open && b.editing is None && idle && full <==> r == CancelStep::LeaveFullscreen
            &&& !open && b.editing is None && idle && !full && max <==> r == CancelStep::Unzoom
        }),
{
}

} // verus!
