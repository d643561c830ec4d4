//! Focus: which component has the keyboard, and the marker a focused
//! component leaves where its text cursor is.
use vstd::prelude::*;

verus! {

/// Components that show a text cursor and take focus.
pub trait Focusable {
    fn set_focused(&mut self, focused: bool);

    fn focused(&self) -> bool;
}

/// Zero-width APC sequence marking the cursor position; the screen finds
/// and strips it, then puts the hardware cursor there.
pub const CURSOR_MARKER: &'static str = "\x1b_pi:c\x07";

/// The component that has focus.
#[derive(PartialEq, Eq, Structural, Clone, Copy, Debug)]
pub enum FocusTarget {
    /// No component has focus.
    Unfocused,
    /// The editor has focus.
    Editor,
    /// The overlay with this id has focus.
    Overlay(u64),
}

} // verus!
