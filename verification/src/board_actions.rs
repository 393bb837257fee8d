//! The cursor, the keys of the text editor, the wheel, and the scene file.

use vstd::prelude::*;
use crate::board::{ActiveTool, BoardV, BoardView, DragState, DragV, Handle, Modifiers};
use crate::board_text::Measured;
use crate::element::ElementV;
use crate::history::{History, HistoryV};
use crate::scene::views;
use crate::scene_file::{Camera, SceneFile, SCENE_TYPE, SCENE_VERSION};
use crate::text::{joined, same_text};

verus! {

/// The cursors that the canvas shows.
#[derive(Clone, Copy, Debug, PartialEq, Eq, Structural)]
pub enum CursorStyle {
    Arrow,
    IBeam,
    Crosshair,
    PointingHand,
    ResizeUpDown,
    ResizeLeftRight,
}

/// The cursor over a resize handle.
pub open spec fn handle_cursor(h: Handle) -> CursorStyle {
    match h {
        Handle::N | Handle::S => CursorStyle::ResizeUpDown,
        Handle::E | Handle::W => CursorStyle::ResizeLeftRight,
        _ => CursorStyle::PointingHand,
    }
}

fn cursor_for_handle(h: Handle) -> (r: CursorStyle)
    ensures
        r == handle_cursor(h),
{
    match h {
        Handle::N => CursorStyle::ResizeUpDown,
        Handle::S => CursorStyle::ResizeUpDown,
        Handle::E => CursorStyle::ResizeLeftRight,
        Handle::W => CursorStyle::ResizeLeftRight,
        _ => CursorStyle::PointingHand,
    }
}

impl<F> BoardV<F> {
    /// The cursor of the active tool, when no drag and no gesture has its own.
    pub open spec fn tool_cursor(self) -> CursorStyle {
        match self.tool {
            ActiveTool::Hand => CursorStyle::PointingHand,
            ActiveTool::Select => if self.hover_point is Some {
                CursorStyle::PointingHand
            } else if self.hover_handle is Some {
                handle_cursor(self.hover_handle->Some_0)
            } else if self.hover_over_element {
                CursorStyle::PointingHand
            } else {
                CursorStyle::Arrow
            },
            ActiveTool::Eraser => CursorStyle::PointingHand,
            _ => CursorStyle::Crosshair,
        }
    }

    /// The cursor that the canvas shows: the caret while a text is edited,
    /// then the drag or the gesture that a held key announces, then the tool.
    pub open spec fn cursor(self) -> CursorStyle {
        if self.editing is Some {
            CursorStyle::IBeam
        } else {
            match self.drag {
                DragV::Freedraw { .. } => if self.temp_pen {
                    CursorStyle::Crosshair
                } else {
                    self.tool_cursor()
                },
                DragV::Idle => if self.modifiers.shift && self.tool != ActiveTool::Pen {
                    CursorStyle::Crosshair
                } else if self.modifiers.ctrl && self.tool != ActiveTool::Hand {
                    CursorStyle::PointingHand
                } else {
                    self.tool_cursor()
                },
                DragV::Panning { .. } => CursorStyle::PointingHand,
                DragV::Moving { .. } => CursorStyle::PointingHand,
                DragV::EditingPoint { .. } => CursorStyle::PointingHand,
                DragV::Resizing { handle, .. } => handle_cursor(handle),
                _ => self.tool_cursor(),
            }
        }
    }
}

/// What a turn of the wheel does.
#[derive(Clone, Copy, Debug, PartialEq, Eq, Structural)]
pub enum WheelStep {
    Ignored,
    Zoom,
    /// A horizontal pan by the horizontal turn.
    PanByX,
    /// A horizontal pan by the vertical turn.
    PanByY,
    Pan,
}

/// What a turn of the wheel does: nothing over the panel, zoom with ctrl, and
/// with shift a horizontal pan, by the vertical turn when there is no
/// horizontal one.
pub fn wheel_step(over_panel: bool, m: Modifiers, turns_x: bool) -> (r: WheelStep)
    ensures
        r == (if over_panel {
            WheelStep::Ignored
        } else if m.ctrl {
            WheelStep::Zoom
        } else if m.shift && turns_x {
            WheelStep::PanByX
        } else if m.shift {
            WheelStep::PanByY
        } else {
            WheelStep::Pan
        }),
        r == wheel_of(over_panel, m, turns_x),
{
    if over_panel {
        WheelStep::Ignored
    } else if m.ctrl {
        WheelStep::Zoom
    } else if m.shift {
        if turns_x {
            WheelStep::PanByX
        } else {
            WheelStep::PanByY
        }
    } else {
        WheelStep::Pan
    }
}

/// What a key does to the edited text. Moves extend the selection when shift
/// is held.
#[derive(Clone, Copy, Debug, PartialEq, Eq, Structural)]
pub enum EditKey {
    Commit,
    NewLine,
    Backspace,
    Delete,
    Left { extend: bool },
    Right { extend: bool },
    Up { extend: bool },
    Down { extend: bool },
    Home { extend: bool },
    End { extend: bool },
    SelectAll,
}

/// What a turn of the wheel does.
pub open spec fn wheel_of(over_panel: bool, m: Modifiers, turns_x: bool) -> WheelStep {
    if over_panel {
        WheelStep::Ignored
    } else if m.ctrl {
        WheelStep::Zoom
    } else if m.shift && turns_x {
        WheelStep::PanByX
    } else if m.shift {
        WheelStep::PanByY
    } else {
        WheelStep::Pan
    }
}

/// What a key does to the edited text; keys that type a character are left to
/// the text input.
pub open spec fn edit_key_of(key: Seq<char>, m: Modifiers) -> Option<EditKey> {
    let extend = m.shift;
    if key == "escape"@ {
        Some(EditKey::Commit)
    } else if key == "enter"@ {
        Some(EditKey::NewLine)
    } else if key == "backspace"@ {
        Some(EditKey::Backspace)
    } else if key == "delete"@ {
        Some(EditKey::Delete)
    } else if key == "left"@ {
        Some(EditKey::Left { extend })
    } else if key == "right"@ {
        Some(EditKey::Right { extend })
    } else if key == "up"@ {
        Some(EditKey::Up { extend })
    } else if key == "down"@ {
        Some(EditKey::Down { extend })
    } else if key == "home"@ {
        Some(EditKey::Home { extend })
    } else if key == "end"@ {
        Some(EditKey::End { extend })
    } else if key == "a"@ && m.ctrl {
        Some(EditKey::SelectAll)
    } else {
        None
    }
}


impl<F> BoardV<F> {
    /// The board after it was saved to `path`, or after that failed.
    pub open spec fn saved(self, path: Seq<char>, failure: Option<Seq<char>>) -> Self {
        match failure {
            None => BoardV {
                file_path: Some(path),
                dirty: false,
                notice: Some("已保存到 "@ + path),
                ..self
            },
            Some(e) => BoardV { notice: Some("保存失败: "@ + e), ..self },
        }
    }

    /// The board after a scene file was opened from `path`.
    pub open spec fn opened(
        self,
        path: Seq<char>,
        elements: Seq<ElementV<F>>,
        show_grid: bool,
        background: Option<u32>,
    ) -> Self {
        BoardV {
            scene: elements,
            show_grid,
            canvas_background: background,
            selection: Seq::empty(),
            history: HistoryV::empty(),
            file_path: Some(path),
            dirty: false,
            notice: Some("已打开 "@ + path),
            ..self
        }
    }
}

impl<F: Copy> BoardView<F> {
    /// The cursor that the canvas shows.
    pub fn cursor_style(&self) -> (r: CursorStyle)
        ensures
            r == self@.cursor(),
    {
        if self.editing.is_some() {
            return CursorStyle::IBeam;
        }
        match &self.drag {
            DragState::Freedraw { .. } => {
                if self.temp_pen {
                    return CursorStyle::Crosshair;
                }
            },
            DragState::Idle => {
                if self.modifiers.shift && self.tool != ActiveTool::Pen {
                    return CursorStyle::Crosshair;
                }
                if self.modifiers.ctrl && self.tool != ActiveTool::Hand {
                    return CursorStyle::PointingHand;
                }
            },
            DragState::Panning { .. } => {
                return CursorStyle::PointingHand;
            },
            DragState::Moving { .. } => {
                return CursorStyle::PointingHand;
            },
            DragState::EditingPoint { .. } => {
                return CursorStyle::PointingHand;
            },
            DragState::Resizing { handle, .. } => {
                return cursor_for_handle(*handle);
            },
            _ => {},
        }
        match self.tool {
            ActiveTool::Hand => CursorStyle::PointingHand,
            ActiveTool::Select => {
                if self.hover_point.is_some() {
                    return CursorStyle::PointingHand;
                }
                match self.hover_handle {
                    Some(h) => cursor_for_handle(h),
                    None => if self.hover_over_element {
                        CursorStyle::PointingHand
                    } else {
                        CursorStyle::Arrow
                    },
                }
            },
            ActiveTool::Eraser => CursorStyle::PointingHand,
            _ => CursorStyle::Crosshair,
        }
    }

    /// What a key does to the text that is edited; nothing when none is.
    pub fn edit_key(&self, key: &str, m: Modifiers) -> (r: Option<EditKey>)
        ensures
            r == (if self@.editing is Some {
                edit_key_of(key@, m)
            } else {
                None
            }),
    {
        if self.editing.is_none() {
            return None;
        }
        let extend: bool = m.shift;
        if same_text(key, "escape") {
            Some(EditKey::Commit)
        } else if same_text(key, "enter") {
            Some(EditKey::NewLine)
        } else if same_text(key, "backspace") {
            Some(EditKey::Backspace)
        } else if same_text(key, "delete") {
            Some(EditKey::Delete)
        } else if same_text(key, "left") {
            Some(EditKey::Left { extend })
        } else if same_text(key, "right") {
            Some(EditKey::Right { extend })
        } else if same_text(key, "up") {
            Some(EditKey::Up { extend })
        } else if same_text(key, "down") {
            Some(EditKey::Down { extend })
        } else if same_text(key, "home") {
            Some(EditKey::Home { extend })
        } else if same_text(key, "end") {
            Some(EditKey::End { extend })
        } else if m.ctrl && same_text(key, "a") {
            Some(EditKey::SelectAll)
        } else {
            None
        }
    }

    /// The escape key in the edited text: commits it and selects a text that
    /// the edit created, or its container when it is a label.
    pub fn escape_edit(&mut self, text: &str, m: Measured<F>)
        ensures
            final(self)@ == (match old(self)@.commit_result(text@) {
                Some(id) => old(self)@.committed(text@, m).fresh_selected(id),
                None => old(self)@.committed(text@, m),
            }),
    {
        match self.commit_editing(text, m) {
            Some(id) => {
                self.select_fresh(id);
            },
            None => {},
        }
    }

    /// The path to save to without asking: none when another one was asked
    /// for or none is known.
    pub fn save_path(&self, save_as: bool) -> (r: Option<String>)
        ensures
            match r {
                Some(p) => !save_as && self@.file_path == Some(p@),
                None => save_as || self@.file_path is None,
            },
    {
        if save_as {
            return None;
        }
        match &self.file_path {
            Some(p) => Some(p.clone()),
            None => None,
        }
    }

    /// The scene file of the board.
    pub fn scene_file(&self, camera: Camera<F>) -> (r: SceneFile<F>)
        ensures
            r.format@ == SCENE_TYPE@,
            r.version == SCENE_VERSION,
            r.camera == camera,
            views(r.elements@) == self@.scene,
            r.show_grid == self@.show_grid,
            r.background == self@.canvas_background,
    {
        let mut file: SceneFile<F> = SceneFile::new(&self.scene, camera);
        file.show_grid = self.show_grid;
        file.background = self.canvas_background;
        file
    }

    /// Notes that the scene file was written, or why it was not.
    pub fn finish_save(&mut self, path: String, failure: Option<String>)
        ensures
            final(self)@ == old(self)@.saved(path@, crate::element::opt_text(failure)),
    {
        match failure {
            None => {
                self.notice = Some(joined("已保存到 ", path.as_str()));
                self.file_path = Some(path);
                self.dirty = false;
            },
            Some(e) => {
                self.notice = Some(joined("保存失败: ", e.as_str()));
            },
        }
    }

    /// Takes over an opened scene file; the camera is the caller's.
    pub fn finish_open(&mut self, path: String, file: SceneFile<F>)
        ensures
            final(self)@ == old(self)@.opened(
                path@,
                views(file.elements@),
                file.show_grid,
                file.background,
            ),
    {
        self.scene.restore(file.elements);
        self.show_grid = file.show_grid;
        self.canvas_background = file.background;
        self.selection = Vec::new();
        self.history = History::new();
        self.notice = Some(joined("已打开 ", path.as_str()));
        self.file_path = Some(path);
        self.dirty = false;
        assert(self@ =~= old(self)@.opened(
            path@,
            views(file.elements@),
            file.show_grid,
            file.background,
        ));
    }

    /// Notes why a scene file could not be opened.
    pub fn fail_open(&mut self, reason: &str)
        ensures
            final(self)@ == (BoardV { notice: Some("打开失败: "@ + reason@), ..old(self)@ }),
    {
        self.notice = Some(joined("打开失败: ", reason));
    }
}

/// Opening what was just saved gives back the scene, the grid and the surface
/// colour, from an empty history and without a pending change.
pub proof fn law_open_gives_back_what_was_saved<F>(
    b: BoardV<F>,
    other: BoardV<F>,
    path: Seq<char>,
)
    ensures
        ({
            let o = other.opened(path, b.scene, b.show_grid, b.canvas_background);
            &&& o.scene == b.scene
            &&& o.show_grid == b.show_grid
            &&& o.canvas_background == b.canvas_background
            &&& !o.dirty
            &&& o.file_path == b.saved(path, None).file_path
            &&& o.undone() == o
            &&& o.redone() == o
        }),
{
}

} // verus!
