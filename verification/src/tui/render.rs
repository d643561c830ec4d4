//! Scrolling of the message view.
use vstd::prelude::*;

verus! {

/// The scroll position of a view of `viewport` rows over `total_lines`
/// lines, and whether it now follows the bottom. Following the bottom, the
/// view shows the last lines; otherwise the offset is kept, clamped to the
/// last possible one, and reaching that one follows the bottom again.
pub fn resolve_scroll(total_lines: usize, viewport: usize, scroll_offset: usize, auto_scroll: bool) -> (r: (
    usize,
    bool,
))
    ensures
        ({
            let max_scroll = if total_lines > viewport { total_lines - viewport } else { 0 };
            if auto_scroll {
                r == (max_scroll as usize, true)
            } else {
                let clamped = if scroll_offset < max_scroll { scroll_offset as int } else { max_scroll };
                r == (clamped as usize, clamped >= max_scroll)
            }
        }),
{
    let max_scroll = if total_lines > viewport { total_lines - viewport } else { 0 };
    if auto_scroll {
        (max_scroll, true)
    } else {
        let clamped = if scroll_offset < max_scroll { scroll_offset } else { max_scroll };
        (clamped, clamped >= max_scroll)
    }
}

} // verus!
