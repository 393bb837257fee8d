# boundless

The logic of an infinite hand-drawn whiteboard, written in Verus: every function
under `src/` carries a contract, and Verus proves it. What is believed instead is
short: three calls of the `uuid` crate in `src/ids.rs`, and `String::push` and the
quoted form of a string from the standard library, each with a doc comment that
says what is claimed of it.

## Layout

- `src/element.rs`, `text_element.rs`, `scene.rs`, `history.rs`, `scene_file.rs`:
  elements, the scene in paint order, undo and redo, and the header of a file.
- `src/board*.rs`, `paint.rs`, `chrome.rs`, `style_bar.rs`, `keymap.rs`,
  `settings.rs`, `update_flow.rs`: the board as a state machine, from pointer
  and key events to its next state, and what is shown of it.
- `src/canvas_op.rs`, `canvas_apply.rs`, `canvas_dispatch.rs`, `context.rs`:
  the drawing operations of an assistant.
- `src/geometry.rs`, `ink.rs`, `pen.rs`, `raster.rs`, `fingerprint.rs`,
  `cache.rs`, `canvas_cache.rs`, `wrap.rs`: plans of drawings, strokes, pixels,
  caches and line breaking.
- `src/mindmap*.rs`, `pages.rs`, `templates.rs`: mind maps, comic pages and
  templates.
- `src/*_laws.rs` and the functions named `law_*`: what holds across functions.
- `app/`: the window around the library, files and everything in floating point.
- `tests/`: the library run on concrete values.

Coordinates are a type parameter of the library: it carries them and never
computes with them. Outcomes of numeric tests come in as plain values.
