//! Verified logic of an infinite whiteboard.

pub mod board;
pub mod board_actions;
pub mod board_down;
pub mod board_drag;
pub mod board_labels;
pub mod board_laws;
pub mod board_move;
pub mod board_press;
pub mod board_style;
pub mod board_text;
pub mod board_up;
pub mod cache;
pub mod canvas_cache;
pub mod canvas_cache_laws;
pub mod canvas_apply;
pub mod canvas_dispatch;
pub mod canvas_op;
pub mod chrome;
pub mod context;
pub mod edit_laws;
pub mod element;
pub mod element_laws;
pub mod fingerprint;
pub mod fingerprint_laws;
pub mod geometry;
pub mod gesture_laws;
pub mod history;
pub mod ids;
pub mod ink;
pub mod input_laws;
pub mod keymap;
pub mod mindmap;
pub mod mindmap_layout;
pub mod mindmap_laws;
pub mod mindmap_plan;
pub mod op_laws;
pub mod pages;
pub mod paint;
pub mod paint_laws;
pub mod pen;
pub mod raster;
pub mod scene;
pub mod scene_file;
pub mod scene_laws;
pub mod settings;
pub mod shape_laws;
pub mod stack_laws;
pub mod style_bar;
pub mod templates;
pub mod text;
pub mod text_element;
pub mod text_laws;
pub mod update_flow;
pub mod window_laws;
pub mod wrap;
