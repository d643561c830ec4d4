//! Terminal user interface toolkit: text measurement and wrapping with ANSI
//! styling, word navigation, kill ring and undo history, terminal colour
//! reports, image data URLs and the building blocks of the components.
pub mod tui;
pub mod ui;
pub mod types;
