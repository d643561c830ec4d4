//! The terminal UI layer.
pub mod strs;
pub mod unicode;
pub mod util;
pub mod sgr;
pub mod wrap;
pub mod kill_ring;
pub mod undo_stack;
pub mod visual_truncate;
pub mod terminal_colors;
pub mod image;
pub mod theme;
pub mod keys;
pub mod word_nav;
pub mod overlay;
pub mod composite;
pub mod focusable;
pub mod component;
pub mod render;
pub mod display;
pub mod model_selector;
pub mod screen;
pub mod terminal;
pub mod keybindings;
pub mod autocomplete;
pub mod components;
