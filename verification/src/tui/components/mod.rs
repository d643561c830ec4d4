//! Components: each renders itself to lines for a given width and takes keys.
pub mod spacer;
pub mod lines_component;
pub mod dynamic_lines;
pub mod pad;
pub mod truncated_text;
pub mod text;
pub mod loader;
pub mod cancellable_loader;
pub mod select_list;
pub mod line_ops;
pub mod input;
pub mod paste_marker;
pub mod editor_model;
pub mod editor_layout;
pub mod editor;
pub mod diff;
pub mod markdown;
pub mod table;
pub mod list;
