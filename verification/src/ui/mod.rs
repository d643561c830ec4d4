//! The application's user interface pieces.
pub mod theme;
pub mod help;
