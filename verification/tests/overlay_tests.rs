use rab::tui::composite::composite_line_at;
use rab::tui::overlay::{resolve_anchor_col, resolve_anchor_row, OverlayAnchor};
use rab::tui::util::visible_width;

const RESET: &str = "\x1b[0m\x1b]8;;\x07";

#[test]
fn anchor_rows_centre_top_bottom() {
    assert_eq!(resolve_anchor_row(OverlayAnchor::Center, 4, 20, 1), 9);
    assert_eq!(resolve_anchor_row(OverlayAnchor::TopRight, 4, 20, 1), 1);
    assert_eq!(resolve_anchor_row(OverlayAnchor::BottomLeft, 4, 20, 1), 17);
    // an overlay taller than the room sits at the margin
    assert_eq!(resolve_anchor_row(OverlayAnchor::BottomCenter, 30, 20, 2), 2);
}

#[test]
fn anchor_cols_centre_left_right() {
    assert_eq!(resolve_anchor_col(OverlayAnchor::Center, 10, 80, 0), 35);
    assert_eq!(resolve_anchor_col(OverlayAnchor::LeftCenter, 10, 80, 3), 3);
    assert_eq!(resolve_anchor_col(OverlayAnchor::RightCenter, 10, 80, 3), 73);
    assert_eq!(resolve_anchor_col(OverlayAnchor::TopCenter, 81, 80, 0), 0);
}

#[test]
fn composite_keeps_base_around_overlay() {
    let r = composite_line_at("abcdefghij", "XYZ", 2, 3, 10);
    assert_eq!(r, format!("ab{}XYZ{}fghij", RESET, RESET));
    assert_eq!(visible_width(&r), 10);
}

#[test]
fn composite_pads_a_short_base_and_overlay() {
    let r = composite_line_at("ab", "X", 4, 2, 8);
    assert_eq!(r, format!("ab  {}X {}  ", RESET, RESET));
    assert_eq!(visible_width(&r), 8);
}
