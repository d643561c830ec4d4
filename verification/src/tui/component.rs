//! Every renderable element of the UI, and render caching: the key that
//! decides whether a cached render is still valid, and the cached lines.
use crate::tui::keys::KeyEvent;
use crate::tui::keybindings::strs_view;
use crate::tui::strs::{push_repeat, repeat_char};
use crate::tui::util::{visible_width_checked, visible_width_of};
use vstd::prelude::*;

verus! {

/// Two renders with the same key produce the same lines.
#[derive(PartialEq, Eq, Structural, Clone, Copy, Debug)]
pub struct RenderCacheKey {
    /// Viewport width.
    pub width: usize,
    /// Whether the component is expanded.
    pub expanded: bool,
    /// A hash of further state.
    pub state_hash: u64,
}

/// A cached render.
#[derive(Clone, Debug)]
pub struct RenderCache {
    /// The key the lines were rendered under.
    pub key: RenderCacheKey,
    /// The rendered lines.
    pub lines: Vec<String>,
}

impl RenderCache {
    /// The cached lines, where they were rendered under `key`.
    pub fn lines_for(&self, key: &RenderCacheKey) -> (r: Option<&Vec<String>>)
        ensures
            r == (if self.key == *key { Some(&self.lines) } else { None }),
    {
        if self.key == *key {
            Some(&self.lines)
        } else {
            None
        }
    }
}

/// A line padded with spaces to `width` columns where it is narrower.
pub open spec fn padded_line(l: Seq<char>, width: nat) -> Seq<char> {
    if visible_width_of(l) < width {
        l + repeat_char(' ', (width - visible_width_of(l)) as nat)
    } else {
        l
    }
}

/// Each line padded to `width` columns.
pub open spec fn padded_lines(lines: Seq<Seq<char>>, width: nat) -> Seq<Seq<char>> {
    lines.map_values(|l: Seq<char>| padded_line(l, width))
}

/// Pads each line with spaces to `width` visible columns.
pub fn pad_lines(lines: &Vec<String>, width: usize) -> (r: Vec<String>)
    ensures
        strs_view(r@) == padded_lines(strs_view(lines@), width as nat),
{
    let ghost lv = strs_view(lines@);
    let mut out: Vec<String> = Vec::new();
    let mut i: usize = 0;
    while i < lines.len()
        invariant
            i <= lines@.len(),
            lv == strs_view(lines@),
            strs_view(out@) == padded_lines(lv.take(i as int), width as nat),
        decreases lines.len() - i,
    {
        let ghost before = strs_view(out@);
        let mut line = crate::tui::strs::string_from_str(lines[i].as_str());
        match visible_width_checked(&crate::tui::strs::str_chars(lines[i].as_str())) {
            Some(vw) => {
                if vw < width {
                    push_repeat(&mut line, ' ', width - vw);
                }
            },
            None => {},
        }
        assert(line@ == padded_line(lv[i as int], width as nat));
        out.push(line);
        i = i + 1;
        assert(strs_view(out@) =~= before.push(padded_line(lv[i - 1], width as nat)));
        assert(padded_lines(lv.take(i as int), width as nat) =~= padded_lines(lv.take(i - 1), width as nat).push(
            padded_line(lv[i - 1], width as nat),
        ));
    }
    assert(lv.take(lines@.len() as int) =~= lv);
    out
}

/// Every renderable UI element. Implemented by the users of the library
/// for their own elements; nothing is relied on of what the methods do.
pub trait Component {
    /// The lines for a viewport of `width` columns; a line is meant to be no
    /// wider than `width`.
    fn render(&mut self, width: usize) -> Vec<String>;

    /// The lines of `render`, each padded with spaces to `width` columns.
    fn render_padded(&mut self, width: usize) -> (r: Vec<String>)
        default_ensures
            exists|lines: Seq<Seq<char>>| #[trigger] padded_lines(lines, width as nat) == strs_view(r@),
    {
        let lines = self.render(width);
        let r = pad_lines(&lines, width);
        assert(padded_lines(strs_view(lines@), width as nat) == strs_view(r@));
        r
    }

    /// Handles a key; returns whether it was consumed.
    fn handle_input(&mut self, key: &KeyEvent) -> bool {
        false
    }

    /// Handles a bracketed paste.
    fn handle_paste(&mut self, text: &str) {
    }

    /// Marks the element as needing a new render.
    fn invalidate(&mut self) {
    }

    /// Whether the element changed without being invalidated.
    fn is_dirty(&self) -> bool {
        false
    }

    /// Clears the changed flag after a render.
    fn clear_dirty(&mut self) {
    }

    /// The key of the element's current state, where its renders can be
    /// cached.
    fn cache_key(&self, width: usize) -> Option<RenderCacheKey> {
        None
    }

    /// The element's own cached render, if any.
    fn get_cached_render(&self) -> Option<&RenderCache> {
        None
    }

    /// Stores a render in the element's own cache.
    fn set_cached_render(&mut self, cache: RenderCache) {
    }

    /// Whether the element wants focus.
    fn is_focusable(&self) -> bool {
        false
    }

    /// Expands or collapses the element.
    fn set_expanded(&mut self, expanded: bool) {
    }

    /// Shows or hides thinking blocks.
    fn set_hide_thinking(&mut self, hide: bool) {
    }
}

} // verus!
