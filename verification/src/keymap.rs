//! The key bindings of the board.

use vstd::prelude::*;
use crate::board::{ActiveTool, LayerOp};
use crate::text::same_text;

verus! {

/// What a key binding does.
#[derive(Clone, Copy, Debug, PartialEq, Eq, Structural)]
pub enum BoardAction {
    Undo,
    Redo,
    Save,
    Open,
    DeleteSelection,
    Cancel,
    Layer(LayerOp),
    ZoomIn,
    ZoomOut,
    ZoomReset,
    ToggleAi,
    Tool(ActiveTool),
}

/// The action of a keystroke, and whether it still acts while an input field
/// has the focus: commands with ctrl do, single keys and layer moves do not.
pub open spec fn binding_of(key: Seq<char>) -> Option<(BoardAction, bool)> {
    if key == "ctrl-z"@ {
        Some((BoardAction::Undo, true))
    } else if key == "ctrl-shift-z"@ || key == "ctrl-y"@ {
        Some((BoardAction::Redo, true))
    } else if key == "ctrl-s"@ {
        Some((BoardAction::Save, true))
    } else if key == "ctrl-o"@ {
        Some((BoardAction::Open, true))
    } else if key == "ctrl-="@ {
        Some((BoardAction::ZoomIn, true))
    } else if key == "ctrl--"@ {
        Some((BoardAction::ZoomOut, true))
    } else if key == "ctrl-0"@ {
        Some((BoardAction::ZoomReset, true))
    } else if key == "ctrl-b"@ {
        Some((BoardAction::ToggleAi, true))
    } else if key == "delete"@ || key == "backspace"@ {
        Some((BoardAction::DeleteSelection, false))
    } else if key == "escape"@ {
        Some((BoardAction::Cancel, false))
    } else if key == "ctrl-shift-]"@ {
        Some((BoardAction::Layer(LayerOp::ToFront), false))
    } else if key == "ctrl-shift-["@ {
        Some((BoardAction::Layer(LayerOp::ToBack), false))
    } else if key == "ctrl-]"@ {
        Some((BoardAction::Layer(LayerOp::Forward), false))
    } else if key == "ctrl-["@ {
        Some((BoardAction::Layer(LayerOp::Backward), false))
    } else {
        match tool_key_of(key) {
            Some(t) => Some((BoardAction::Tool(t), false)),
            None => None,
        }
    }
}

/// The tool of a letter.
pub open spec fn tool_key_of(key: Seq<char>) -> Option<ActiveTool> {
    if key == "v"@ {
        Some(ActiveTool::Select)
    } else if key == "h"@ {
        Some(ActiveTool::Hand)
    } else if key == "r"@ {
        Some(ActiveTool::Rectangle)
    } else if key == "d"@ {
        Some(ActiveTool::Diamond)
    } else if key == "o"@ {
        Some(ActiveTool::Ellipse)
    } else if key == "a"@ {
        Some(ActiveTool::Arrow)
    } else if key == "l"@ {
        Some(ActiveTool::Line)
    } else if key == "p"@ {
        Some(ActiveTool::Pen)
    } else if key == "t"@ {
        Some(ActiveTool::Text)
    } else if key == "e"@ {
        Some(ActiveTool::Eraser)
    } else {
        None
    }
}

fn tool_key(key: &str) -> (r: Option<ActiveTool>)
    ensures
        r == tool_key_of(key@),
{
    if same_text(key, "v") {
        Some(ActiveTool::Select)
    } else if same_text(key, "h") {
        Some(ActiveTool::Hand)
    } else if same_text(key, "r") {
        Some(ActiveTool::Rectangle)
    } else if same_text(key, "d") {
        Some(ActiveTool::Diamond)
    } else if same_text(key, "o") {
        Some(ActiveTool::Ellipse)
    } else if same_text(key, "a") {
        Some(ActiveTool::Arrow)
    } else if same_text(key, "l") {
        Some(ActiveTool::Line)
    } else if same_text(key, "p") {
        Some(ActiveTool::Pen)
    } else if same_text(key, "t") {
        Some(ActiveTool::Text)
    } else if same_text(key, "e") {
        Some(ActiveTool::Eraser)
    } else {
        None
    }
}

/// The action of a keystroke on the board; `in_input` says whether an input
/// field has the focus.
pub fn board_action(key: &str, in_input: bool) -> (r: Option<BoardAction>)
    ensures
        r == (match binding_of(key@) {
            Some((a, always)) => if always || !in_input {
                Some(a)
            } else {
                None
            },
            None => None,
        }),
{
    if same_text(key, "ctrl-z") {
        return Some(BoardAction::Undo);
    }
    if same_text(key, "ctrl-shift-z") || same_text(key, "ctrl-y") {
        return Some(BoardAction::Redo);
    }
    if same_text(key, "ctrl-s") {
        return Some(BoardAction::Save);
    }
    if same_text(key, "ctrl-o") {
        return Some(BoardAction::Open);
    }
    if same_text(key, "ctrl-=") {
        return Some(BoardAction::ZoomIn);
    }
    if same_text(key, "ctrl--") {
        return Some(BoardAction::ZoomOut);
    }
    if same_text(key, "ctrl-0") {
        return Some(BoardAction::ZoomReset);
    }
    if same_text(key, "ctrl-b") {
        return Some(BoardAction::ToggleAi);
    }
    if in_input {
        return None;
    }
    if same_text(key, "delete") || same_text(key, "backspace") {
        return Some(BoardAction::DeleteSelection);
    }
    if same_text(key, "escape") {
        return Some(BoardAction::Cancel);
    }
    if same_text(key, "ctrl-shift-]") {
        return Some(BoardAction::Layer(LayerOp::ToFront));
    }
    if same_text(key, "ctrl-shift-[") {
        return Some(BoardAction::Layer(LayerOp::ToBack));
    }
    if same_text(key, "ctrl-]") {
        return Some(BoardAction::Layer(LayerOp::Forward));
    }
    if same_text(key, "ctrl-[") {
        return Some(BoardAction::Layer(LayerOp::Backward));
    }
    match tool_key(key) {
        Some(t) => Some(BoardAction::Tool(t)),
        None => None,
    }
}

} // verus!
