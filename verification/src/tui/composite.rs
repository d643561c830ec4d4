//! Compositing an overlay line into a base line at a column: what lies
//! before and after the overlay's columns is kept, the gaps are filled with
//! spaces, and each part is closed with a reset.
use crate::tui::overlay::sat_sub;
use crate::tui::strs::{push_repeat, push_str, repeat_char};
use crate::tui::util::{column_slice, extract_segments, slice_by_column, visible_width, visible_width_of};
use vstd::prelude::*;

verus! {

/// The reset written after each part of a composited line: SGR reset, then
/// the end of any hyperlink.
pub open spec fn segment_reset() -> Seq<char> {
    "\x1b[0m\x1b]8;;\x07"@
}

/// The larger of two numbers.
pub open spec fn max_nat(a: nat, b: nat) -> nat {
    if a >= b {
        a
    } else {
        b
    }
}

/// The base line's columns before `start_col`, and their width; nothing
/// where they reach past `start_col` (a wide character across it).
pub open spec fn before_part(base: Seq<char>, start_col: nat) -> (Seq<char>, nat) {
    let b = column_slice(base, 0, start_col as int).unwrap();
    if visible_width_of(b) > start_col {
        (seq![], 0)
    } else {
        (b, visible_width_of(b))
    }
}

/// The line before the final cut: the part before, padded to `start_col`,
/// a reset, the overlay cut to `ow` columns and padded to them, a reset,
/// the base line's columns after the overlay, padded so that the whole
/// takes `total` columns.
pub open spec fn composed(base: Seq<char>, overlay: Seq<char>, start_col: nat, ow: nat, total: nat) -> Seq<char> {
    let after_start = start_col + ow;
    let (before, bw) = before_part(base, start_col);
    let after = column_slice(base, after_start as int, sat_sub(total, after_start) as int).unwrap();
    let aw = visible_width_of(after);
    let ov = column_slice(overlay, 0, ow as int).unwrap();
    let ovw = visible_width_of(ov);
    let after_target = sat_sub(total, max_nat(bw, start_col) + max_nat(ovw, ow));
    before + repeat_char(' ', sat_sub(start_col, bw)) + segment_reset() + ov + repeat_char(' ', sat_sub(ow, ovw))
        + segment_reset() + after + repeat_char(' ', sat_sub(after_target, aw))
}

/// The composited line: `composed`, cut to `total` columns where wider.
pub open spec fn composited(base: Seq<char>, overlay: Seq<char>, start_col: nat, ow: nat, total: nat) -> Seq<char> {
    let r = composed(base, overlay, start_col, ow, total);
    if visible_width_of(r) > total {
        column_slice(r, 0, total as int).unwrap()
    } else {
        r
    }
}

/// The inputs on which compositing is defined: every column slice it takes
/// exists and every width it measures fits in `usize`.
pub open spec fn composite_ok(base: Seq<char>, overlay: Seq<char>, start_col: nat, ow: nat, total: nat) -> bool {
    let after_start = start_col + ow;
    let after_len = sat_sub(total, after_start);
    &&& after_start + after_len <= usize::MAX
    &&& column_slice(base, 0, start_col as int) is Some
    &&& column_slice(base, after_start as int, after_len as int) is Some
    &&& visible_width_of(column_slice(base, 0, start_col as int).unwrap()) <= usize::MAX
    &&& visible_width_of(column_slice(base, after_start as int, after_len as int).unwrap()) <= usize::MAX
    &&& column_slice(overlay, 0, ow as int) is Some
    &&& visible_width_of(column_slice(overlay, 0, ow as int).unwrap()) <= usize::MAX
    &&& max_nat(before_part(base, start_col).1, start_col) + max_nat(
        visible_width_of(column_slice(overlay, 0, ow as int).unwrap()),
        ow,
    ) <= usize::MAX
    &&& visible_width_of(composed(base, overlay, start_col, ow, total)) <= usize::MAX
    &&& visible_width_of(composed(base, overlay, start_col, ow, total)) > total ==> column_slice(
        composed(base, overlay, start_col, ow, total),
        0,
        total as int,
    ) is Some
}

/// Splice an overlay line into a base line at column `start_col`, the
/// overlay taking `overlay_width` columns of a line `total_width` wide.
pub fn composite_line_at(base_line: &str, overlay_line: &str, start_col: usize, overlay_width: usize, total_width: usize) -> (r: String)
    requires
        start_col + overlay_width <= usize::MAX,
        composite_ok(base_line@, overlay_line@, start_col as nat, overlay_width as nat, total_width as nat),
    ensures
        r@ == composited(base_line@, overlay_line@, start_col as nat, overlay_width as nat, total_width as nat),
{
    let after_start = start_col + overlay_width;
    let after_len = if total_width >= after_start { total_width - after_start } else { 0 };
    let (before, before_width, after, after_width) = extract_segments(base_line, start_col, after_start, after_len, true);
    let overlay = slice_by_column(overlay_line, 0, overlay_width);
    let overlay_vis = visible_width(overlay.as_str());
    let before_pad = if start_col >= before_width { start_col - before_width } else { 0 };
    let overlay_pad = if overlay_width >= overlay_vis { overlay_width - overlay_vis } else { 0 };
    let actual_before_width = if before_width >= start_col { before_width } else { start_col };
    let actual_overlay_width = if overlay_vis >= overlay_width { overlay_vis } else { overlay_width };
    let used = actual_before_width + actual_overlay_width;
    let after_target = if total_width >= used { total_width - used } else { 0 };
    let after_pad = if after_target >= after_width { after_target - after_width } else { 0 };
    let mut result = String::new();
    push_str(&mut result, before.as_str());
    push_repeat(&mut result, ' ', before_pad);
    push_str(&mut result, "\x1b[0m\x1b]8;;\x07");
    push_str(&mut result, overlay.as_str());
    push_repeat(&mut result, ' ', overlay_pad);
    push_str(&mut result, "\x1b[0m\x1b]8;;\x07");
    push_str(&mut result, after.as_str());
    push_repeat(&mut result, ' ', after_pad);
    assert(result@ =~= composed(base_line@, overlay_line@, start_col as nat, overlay_width as nat, total_width as nat));
    let rw = visible_width(result.as_str());
    if rw > total_width {
        slice_by_column(result.as_str(), 0, total_width)
    } else {
        result
    }
}

} // verus!
