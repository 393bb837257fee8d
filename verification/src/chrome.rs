//! The bars and menus around the canvas: what they offer and what is marked.

use vstd::prelude::*;
use crate::board::{layer_applies, ActiveTool, BoardV, BoardView, DragState, LayerOp};
use crate::element::{opt_text, Element, ElementKind, ElementV, KindV, WBounds};
use crate::ids::hyphenated;
use crate::scene::{has_id, place_of};
use crate::text::joined;

verus! {

/// The tools in the order of the toolbar.
pub fn toolbar_tools() -> (r: [ActiveTool; 10])
    ensures
        r@ == seq![
            ActiveTool::Select,
            ActiveTool::Hand,
            ActiveTool::Rectangle,
            ActiveTool::Diamond,
            ActiveTool::Ellipse,
            ActiveTool::Arrow,
            ActiveTool::Line,
            ActiveTool::Pen,
            ActiveTool::Text,
            ActiveTool::Eraser,
        ],
{
    [
        ActiveTool::Select,
        ActiveTool::Hand,
        ActiveTool::Rectangle,
        ActiveTool::Diamond,
        ActiveTool::Ellipse,
        ActiveTool::Arrow,
        ActiveTool::Line,
        ActiveTool::Pen,
        ActiveTool::Text,
        ActiveTool::Eraser,
    ]
}

/// The label of a tool.
pub open spec fn tool_label_of(t: ActiveTool) -> Seq<char> {
    match t {
        ActiveTool::Select => "选择"@,
        ActiveTool::Hand => "抓手"@,
        ActiveTool::Rectangle => "矩形"@,
        ActiveTool::Diamond => "菱形"@,
        ActiveTool::Ellipse => "椭圆"@,
        ActiveTool::Arrow => "箭头"@,
        ActiveTool::Line => "直线"@,
        ActiveTool::Pen => "画笔"@,
        ActiveTool::Text => "文本"@,
        ActiveTool::Eraser => "橡皮"@,
    }
}

/// The label of a tool.
pub fn tool_label(t: ActiveTool) -> (r: &'static str)
    ensures
        r@ == tool_label_of(t),
{
    match t {
        ActiveTool::Select => "选择",
        ActiveTool::Hand => "抓手",
        ActiveTool::Rectangle => "矩形",
        ActiveTool::Diamond => "菱形",
        ActiveTool::Ellipse => "椭圆",
        ActiveTool::Arrow => "箭头",
        ActiveTool::Line => "直线",
        ActiveTool::Pen => "画笔",
        ActiveTool::Text => "文本",
        ActiveTool::Eraser => "橡皮",
    }
}

/// What a row of a menu does.
#[derive(Clone, Copy, Debug, PartialEq, Eq, Structural)]
pub enum MenuAction {
    DeleteVertex(usize),
    Layer(LayerOp),
    DeleteSelection,
    Open,
    Save,
    Quit,
    Undo,
    Redo,
    ZoomIn,
    ZoomOut,
    ZoomReset,
    CheckForUpdates,
}

/// A row of a menu: its action and whether it can be picked, or a separator.
#[derive(Clone, Copy, Debug, PartialEq, Eq, Structural)]
pub enum MenuRow {
    Row { action: MenuAction, enabled: bool },
    Separator,
}

/// The label of a menu row and its shortcut.
pub open spec fn menu_text_of(a: MenuAction) -> (Seq<char>, Option<Seq<char>>) {
    match a {
        MenuAction::DeleteVertex(_) => ("删除顶点"@, None),
        MenuAction::Layer(LayerOp::ToFront) => ("置于顶层"@, Some("Ctrl+Shift+]"@)),
        MenuAction::Layer(LayerOp::Forward) => ("上移一层"@, Some("Ctrl+]"@)),
        MenuAction::Layer(LayerOp::Backward) => ("下移一层"@, Some("Ctrl+["@)),
        MenuAction::Layer(LayerOp::ToBack) => ("置于底层"@, Some("Ctrl+Shift+["@)),
        MenuAction::DeleteSelection => ("删除"@, Some("Delete"@)),
        MenuAction::Open => ("打开场景…"@, Some("Ctrl+O"@)),
        MenuAction::Save => ("保存场景"@, Some("Ctrl+S"@)),
        MenuAction::Quit => ("退出 Boundless"@, Some("Ctrl+Q"@)),
        MenuAction::Undo => ("撤销"@, Some("Ctrl+Z"@)),
        MenuAction::Redo => ("重做"@, Some("Ctrl+Shift+Z"@)),
        MenuAction::ZoomIn => ("放大"@, Some("Ctrl+="@)),
        MenuAction::ZoomOut => ("缩小"@, Some("Ctrl+-"@)),
        MenuAction::ZoomReset => ("重置缩放"@, Some("Ctrl+0"@)),
        MenuAction::CheckForUpdates => ("检查更新…"@, None),
    }
}

/// The label of a menu row and its shortcut.
pub fn menu_text(a: MenuAction) -> (r: (&'static str, Option<&'static str>))
    ensures
        r.0@ == menu_text_of(a).0,
        match r.1 {
            Some(s) => menu_text_of(a).1 == Some(s@),
            None => menu_text_of(a).1 is None,
        },
{
    match a {
        MenuAction::DeleteVertex(_) => ("删除顶点", None),
        MenuAction::Layer(LayerOp::ToFront) => ("置于顶层", Some("Ctrl+Shift+]")),
        MenuAction::Layer(LayerOp::Forward) => ("上移一层", Some("Ctrl+]")),
        MenuAction::Layer(LayerOp::Backward) => ("下移一层", Some("Ctrl+[")),
        MenuAction::Layer(LayerOp::ToBack) => ("置于底层", Some("Ctrl+Shift+[")),
        MenuAction::DeleteSelection => ("删除", Some("Delete")),
        MenuAction::Open => ("打开场景…", Some("Ctrl+O")),
        MenuAction::Save => ("保存场景", Some("Ctrl+S")),
        MenuAction::Quit => ("退出 Boundless", Some("Ctrl+Q")),
        MenuAction::Undo => ("撤销", Some("Ctrl+Z")),
        MenuAction::Redo => ("重做", Some("Ctrl+Shift+Z")),
        MenuAction::ZoomIn => ("放大", Some("Ctrl+=")),
        MenuAction::ZoomOut => ("缩小", Some("Ctrl+-")),
        MenuAction::ZoomReset => ("重置缩放", Some("Ctrl+0")),
        MenuAction::CheckForUpdates => ("检查更新…", None),
    }
}

/// A row that can be picked.
pub open spec fn on(action: MenuAction) -> MenuRow {
    MenuRow::Row { action, enabled: true }
}

/// The rows of menu `i` of the in-app menu bar: file, edit, view and help.
pub open spec fn dropdown_rows(i: int) -> Option<Seq<MenuRow>> {
    if i == 0 {
        Some(
            seq![
                on(MenuAction::Open),
                on(MenuAction::Save),
                MenuRow::Separator,
                on(MenuAction::Quit),
            ],
        )
    } else if i == 1 {
        Some(seq![on(MenuAction::Undo), on(MenuAction::Redo)])
    } else if i == 2 {
        Some(
            seq![
                on(MenuAction::ZoomIn),
                on(MenuAction::ZoomOut),
                MenuRow::Separator,
                on(MenuAction::ZoomReset),
            ],
        )
    } else if i == 3 {
        Some(seq![on(MenuAction::CheckForUpdates)])
    } else {
        None
    }
}

/// The value of an optional list of rows.
pub open spec fn opt_rows(r: Option<Vec<MenuRow>>) -> Option<Seq<MenuRow>> {
    match r {
        Some(v) => Some(v@),
        None => None,
    }
}

/// The labels of the in-app menu bar.
pub fn menu_bar_labels() -> (r: [&'static str; 4])
    ensures
        r@[0]@ == "文件"@,
        r@[1]@ == "编辑"@,
        r@[2]@ == "视图"@,
        r@[3]@ == "帮助"@,
{
    ["文件", "编辑", "视图", "帮助"]
}

/// The surface colours on offer: white board, green and black chalkboard.
pub fn surface_colors() -> (r: [Option<u32>; 3])
    ensures
        r@ == seq![None::<u32>, Some(0x2A5240u32), Some(0x1F1F1Fu32)],
{
    [None, Some(0x2A5240), Some(0x1F1F1F)]
}

impl<F> BoardV<F> {
    /// Whether a tool is marked in the toolbar: the active one, and the hand
    /// or the pen while a held key pans or sketches, or is about to.
    pub open spec fn tool_marked(self, t: ActiveTool) -> bool {
        let ctrl = self.modifiers.ctrl && self.editing is None && self.drag is Idle;
        let shift = self.modifiers.shift && self.editing is None && self.drag is Idle;
        self.tool == t || ((self.temp_pan || ctrl) && t == ActiveTool::Hand) || ((self.temp_pen
            || shift) && t == ActiveTool::Pen)
    }

    /// The row of a layer move, which can be picked when the move applies.
    pub open spec fn layer_row(self, op: LayerOp) -> MenuRow {
        MenuRow::Row {
            action: MenuAction::Layer(op),
            enabled: layer_applies(op, self.scene, self.selection),
        }
    }

    /// The rows of the context menu: the vertex it was opened on, the layer
    /// moves and the deletion.
    pub open spec fn context_rows(self) -> Option<Seq<MenuRow>> {
        match self.context_menu {
            None => None,
            Some(m) => {
                let vertex = match m.vertex {
                    Some(i) => seq![on(MenuAction::DeleteVertex(i)), MenuRow::Separator],
                    None => Seq::empty(),
                };
                Some(
                    vertex + seq![
                        self.layer_row(LayerOp::ToFront),
                        self.layer_row(LayerOp::Forward),
                        self.layer_row(LayerOp::Backward),
                        self.layer_row(LayerOp::ToBack),
                        MenuRow::Separator,
                        MenuRow::Row {
                            action: MenuAction::DeleteSelection,
                            enabled: self.selection.len() > 0,
                        },
                    ],
                )
            },
        }
    }

    /// The text of the notice bar: the file name with a mark for unsaved
    /// changes, and the message behind a wide space.
    pub open spec fn notice_line(self, file_name: Option<Seq<char>>) -> Seq<char> {
        let head = if self.file_path is Some {
            let name = match file_name {
                Some(n) => n,
                None => "untitled"@,
            };
            if self.dirty {
                name + " •"@
            } else {
                name
            }
        } else if self.dirty {
            "未保存 •"@
        } else {
            Seq::empty()
        };
        match self.notice {
            Some(n) => if head.len() > 0 {
                head + "　"@ + n
            } else {
                n
            },
            None => head,
        }
    }
}

/// The name of a kind towards the assistant.
pub open spec fn kind_name_of<F>(k: KindV<F>) -> Seq<char> {
    match k {
        KindV::Rectangle => "rectangle"@,
        KindV::Ellipse => "ellipse"@,
        KindV::Diamond => "diamond"@,
        KindV::Arrow { .. } => "arrow"@,
        KindV::Line { .. } => "line"@,
        KindV::Text { .. } => "text"@,
        KindV::Freedraw { .. } => "freedraw"@,
        KindV::Polygon { .. } => "polygon"@,
        KindV::Image { .. } => "image"@,
        KindV::Canvas { .. } => "canvas"@,
    }
}

/// The label of a kind in the information card.
pub open spec fn kind_label_of<F>(k: KindV<F>) -> Seq<char> {
    match k {
        KindV::Rectangle => "矩形"@,
        KindV::Ellipse => "椭圆"@,
        KindV::Diamond => "菱形"@,
        KindV::Arrow { .. } => "箭头"@,
        KindV::Line { .. } => "直线"@,
        KindV::Text { .. } => "文本"@,
        KindV::Freedraw { .. } => "手绘"@,
        KindV::Polygon { .. } => "多边形"@,
        KindV::Image { .. } => "图片"@,
        KindV::Canvas { .. } => "画布"@,
    }
}

/// The text of a kind.
pub open spec fn shown_text<F>(k: KindV<F>) -> Option<Seq<char>> {
    match k {
        KindV::Text { text, .. } => Some(text),
        _ => None,
    }
}

/// An element as the assistant sees it.
#[derive(Debug)]
pub struct ElementSnapshot<F> {
    pub id: String,
    pub kind: &'static str,
    pub text: Option<String>,
    pub bounds: WBounds<F>,
}

/// Whether a snapshot shows an element.
pub open spec fn shows<F>(s: ElementSnapshot<F>, e: ElementV<F>) -> bool {
    s.id@ == hyphenated(e.id.value).take(8) && s.kind@ == kind_name_of(e.kind) && opt_text(s.text)
        == shown_text(e.kind) && s.bounds == e.bounds
}

fn kind_name<F: Copy>(k: &ElementKind<F>) -> (r: &'static str)
    ensures
        r@ == kind_name_of(k@),
{
    match k {
        ElementKind::Rectangle => "rectangle",
        ElementKind::Ellipse => "ellipse",
        ElementKind::Diamond => "diamond",
        ElementKind::Arrow { .. } => "arrow",
        ElementKind::Line { .. } => "line",
        ElementKind::Text { .. } => "text",
        ElementKind::Freedraw { .. } => "freedraw",
        ElementKind::Polygon { .. } => "polygon",
        ElementKind::Image { .. } => "image",
        ElementKind::Canvas { .. } => "canvas",
    }
}

fn kind_label<F: Copy>(k: &ElementKind<F>) -> (r: &'static str)
    ensures
        r@ == kind_label_of(k@),
{
    match k {
        ElementKind::Rectangle => "矩形",
        ElementKind::Ellipse => "椭圆",
        ElementKind::Diamond => "菱形",
        ElementKind::Arrow { .. } => "箭头",
        ElementKind::Line { .. } => "直线",
        ElementKind::Text { .. } => "文本",
        ElementKind::Freedraw { .. } => "手绘",
        ElementKind::Polygon { .. } => "多边形",
        ElementKind::Image { .. } => "图片",
        ElementKind::Canvas { .. } => "画布",
    }
}

/// What the information card says of the one selected element.
#[derive(Debug)]
pub struct ElementInfo<F> {
    pub label: &'static str,
    pub short_id: String,
    pub full_id: String,
    pub bounds: WBounds<F>,
    pub text: Option<String>,
}

impl<F: Copy> BoardView<F> {
    /// Whether a tool is marked in the toolbar.
    pub fn tool_active(&self, t: ActiveTool) -> (r: bool)
        ensures
            r == self@.tool_marked(t),
    {
        let idle: bool = match &self.drag {
            DragState::Idle => true,
            _ => false,
        };
        let ready: bool = self.editing.is_none() && idle;
        self.tool == t || ((self.temp_pan || (self.modifiers.ctrl && ready)) && t
            == ActiveTool::Hand) || ((self.temp_pen || (self.modifiers.shift && ready)) && t
            == ActiveTool::Pen)
    }

    fn menu_layer_row(&self, op: LayerOp) -> (r: MenuRow)
        ensures
            r == self@.layer_row(op),
    {
        let enabled: bool = match op {
            LayerOp::ToFront => self.scene.can_front(self.selection.as_slice()),
            LayerOp::ToBack => self.scene.can_back(self.selection.as_slice()),
            LayerOp::Forward => self.scene.can_forward(self.selection.as_slice()),
            LayerOp::Backward => self.scene.can_backward(self.selection.as_slice()),
        };
        MenuRow::Row { action: MenuAction::Layer(op), enabled }
    }

    /// The rows of the open context menu.
    pub fn context_menu_rows(&self) -> (r: Option<Vec<MenuRow>>)
        ensures
            opt_rows(r) == self@.context_rows(),
    {
        match self.context_menu {
            None => None,
            Some(m) => {
                let mut rows: Vec<MenuRow> = Vec::new();
                if let Some(i) = m.vertex {
                    rows.push(MenuRow::Row { action: MenuAction::DeleteVertex(i), enabled: true });
                    rows.push(MenuRow::Separator);
                }
                rows.push(self.menu_layer_row(LayerOp::ToFront));
                rows.push(self.menu_layer_row(LayerOp::Forward));
                rows.push(self.menu_layer_row(LayerOp::Backward));
                rows.push(self.menu_layer_row(LayerOp::ToBack));
                rows.push(MenuRow::Separator);
                rows.push(
                    MenuRow::Row {
                        action: MenuAction::DeleteSelection,
                        enabled: self.selection.len() > 0,
                    },
                );
                assert(rows@ =~= self@.context_rows()->Some_0);
                Some(rows)
            },
        }
    }

    /// The rows of the open menu of the in-app menu bar.
    pub fn menu_dropdown(&self) -> (r: Option<Vec<MenuRow>>)
        ensures
            opt_rows(r) == (match self@.menubar_open {
                Some(i) => dropdown_rows(i as int),
                None => None,
            }),
    {
        let open: Option<usize> = self.menubar_open;
        let i: usize = match open {
            Some(i) => i,
            None => {
                return None;
            },
        };
        let mut rows: Vec<MenuRow> = Vec::new();
        if i == 0 {
            rows.push(MenuRow::Row { action: MenuAction::Open, enabled: true });
            rows.push(MenuRow::Row { action: MenuAction::Save, enabled: true });
            rows.push(MenuRow::Separator);
            rows.push(MenuRow::Row { action: MenuAction::Quit, enabled: true });
        } else if i == 1 {
            rows.push(MenuRow::Row { action: MenuAction::Undo, enabled: true });
            rows.push(MenuRow::Row { action: MenuAction::Redo, enabled: true });
        } else if i == 2 {
            rows.push(MenuRow::Row { action: MenuAction::ZoomIn, enabled: true });
            rows.push(MenuRow::Row { action: MenuAction::ZoomOut, enabled: true });
            rows.push(MenuRow::Separator);
            rows.push(MenuRow::Row { action: MenuAction::ZoomReset, enabled: true });
        } else if i == 3 {
            rows.push(MenuRow::Row { action: MenuAction::CheckForUpdates, enabled: true });
        } else {
            return None;
        }
        assert(rows@ =~= dropdown_rows(i as int)->Some_0);
        Some(rows)
    }

    /// The text of the notice bar; `file_name` is the last part of the path.
    pub fn notice_text(&self, file_name: Option<&str>) -> (r: String)
        ensures
            r@ == self@.notice_line(
                match file_name {
                    Some(n) => Some(n@),
                    None => None,
                },
            ),
    {
        let head: String = if self.file_path.is_some() {
            let name: &str = match file_name {
                Some(n) => n,
                None => "untitled",
            };
            if self.dirty {
                joined(name, " •")
            } else {
                name.to_owned()
            }
        } else if self.dirty {
            "未保存 •".to_owned()
        } else {
            String::new()
        };
        match &self.notice {
            Some(n) => if head.as_str().is_empty() {
                n.clone()
            } else {
                let spaced: String = joined(head.as_str(), "　");
                joined(spaced.as_str(), n.as_str())
            },
            None => head,
        }
    }

    /// What the information card says: only for a single selected element.
    pub fn element_info(&self) -> (r: Option<ElementInfo<F>>)
        ensures
            match r {
                Some(i) => self@.selection.len() == 1 && has_id(self@.scene, self@.selection[0])
                    && {
                    let e = self@.scene[place_of(self@.scene, self@.selection[0])];
                    i.label@ == kind_label_of(e.kind) && i.short_id@ == hyphenated(
                        e.id.value,
                    ).take(8) && i.full_id@ == hyphenated(e.id.value) && i.bounds == e.bounds
                        && opt_text(i.text) == shown_text(e.kind)
                },
                None => self@.selection.len() != 1 || !has_id(self@.scene, self@.selection[0]),
            },
    {
        if self.selection.len() != 1 {
            return None;
        }
        match self.scene.get(self.selection[0]) {
            Some(el) => Some(
                ElementInfo {
                    label: kind_label(&el.kind),
                    short_id: el.id.short_text(),
                    full_id: el.id.to_text(),
                    bounds: el.bounds,
                    text: el.text(),
                },
            ),
            None => None,
        }
    }

    /// All elements as the assistant sees them, in paint order.
    pub fn element_snapshot(&self) -> (r: Vec<ElementSnapshot<F>>)
        ensures
            r@.len() == self@.scene.len(),
            forall|i: int| 0 <= i < r@.len() ==> shows(#[trigger] r@[i], self@.scene[i]),
    {
        let mut r: Vec<ElementSnapshot<F>> = Vec::new();
        let mut i: usize = 0;
        while i < self.scene.elements.len()
            invariant
                i <= self.scene.elements.len(),
                r@.len() == i,
                forall|k: int| 0 <= k < i ==> shows(#[trigger] r@[k], self@.scene[k]),
            decreases self.scene.elements.len() - i,
        {
            let el: &Element<F> = &self.scene.elements[i];
            assert(self@.scene[i as int] == el@);
            r.push(
                ElementSnapshot {
                    id: el.id.short_text(),
                    kind: kind_name(&el.kind),
                    text: el.text(),
                    bounds: el.bounds,
                },
            );
            i += 1;
        }
        r
    }
}

/// A greyed row of the context menu is a layer move that would do nothing.
pub proof fn law_greyed_layer_rows_do_nothing<F>(b: BoardV<F>, op: LayerOp)
    ensures
        b.layer_row(op) == (MenuRow::Row { action: MenuAction::Layer(op), enabled: false })
            ==> b.reordered(op) == b,
{
}

} // verus!
