//! Multi-line editor: editing by grapheme clusters and paste markers,
//! kill ring, undo, history, large-paste markers, word wrapping with a
//! scrolling view, and an autocomplete list.
use crate::tui::components::editor_model::{
    backspaced, byte_col, cur, deleted_forward, exit_hist, history_added, inserted, joined, killed_to_line_end,
    killed_to_line_start, killed_word_left, killed_word_right, lemma_split_nonempty, marker_flags, merged_up,
    moved_left_text, moved_right_text, newline_added, normalized, pushed_undo, recalled_newer, recalled_older, saved_wf,
    snap, snap_wf, text_wf, typed_char, undone_text, with_text, word_left_in, word_right_in, yank_pop_fits,
    yank_popped_text, yanked_text, JumpDirection, Snap, TextView,
};
use crate::tui::components::input::{ws_text, EditAction};
use crate::tui::components::line_ops::{byte_offset_of, clone_chars, char_index_of_byte, next_cluster, next_cluster_len, splice, splice_chars};
use crate::tui::components::paste_marker::{find_unit_after, find_unit_before, is_marker, is_paste_marker_chars, snap_paste_marker, snapped, unit_after, unit_before};
use crate::tui::autocomplete::{AutocompleteItem, AutocompleteProvider, NoAutocomplete};
use crate::tui::keybindings::{
    bindings_map, default_entries, key_id_matches_any, strs_view, Keybindings, ACTION_EDITOR_CURSOR_DOWN,
    ACTION_EDITOR_CURSOR_LEFT, ACTION_EDITOR_CURSOR_LINE_END, ACTION_EDITOR_CURSOR_LINE_START, ACTION_EDITOR_CURSOR_RIGHT,
    ACTION_EDITOR_CURSOR_UP, ACTION_EDITOR_CURSOR_WORD_LEFT, ACTION_EDITOR_CURSOR_WORD_RIGHT,
    ACTION_EDITOR_DELETE_CHAR_BACKWARD, ACTION_EDITOR_DELETE_CHAR_FORWARD, ACTION_EDITOR_DELETE_TO_LINE_END,
    ACTION_EDITOR_DELETE_TO_LINE_START, ACTION_EDITOR_DELETE_WORD_BACKWARD, ACTION_EDITOR_DELETE_WORD_FORWARD,
    ACTION_EDITOR_JUMP_BACKWARD, ACTION_EDITOR_JUMP_FORWARD, ACTION_EDITOR_PAGE_DOWN, ACTION_EDITOR_PAGE_UP,
    ACTION_EDITOR_UNDO, ACTION_EDITOR_YANK, ACTION_EDITOR_YANK_POP, ACTION_INPUT_NEW_LINE, ACTION_INPUT_SUBMIT,
    ACTION_INPUT_TAB, ACTION_SELECT_CANCEL, ACTION_SELECT_CONFIRM, ACTION_SELECT_DOWN, ACTION_SELECT_UP,
};
use crate::tui::keys::{is_printable, key_event_to_string, key_text, KeyEvent};
use crate::tui::kill_ring::{pushed, rotated, KillRing};
use crate::tui::sgr::{split_chars, split_on};
use crate::tui::strs::{byte_len, chars_byte_len, push_chars, str_byte_len, str_chars, string_from_chars, string_from_str, sub_chars, trim_bounds, trim_ws};
use crate::tui::undo_stack::UndoStack;
use crate::tui::unicode::{grapheme_clusters, graphemes, views};
use crate::tui::util::append_chars;
use crate::tui::word_nav::chars_within;
use vstd::prelude::*;

verus! {

broadcast use vstd::string::group_string_axioms;

/// A saved state of the text.
pub struct EditorSnapshot {
    pub lines: Vec<Vec<char>>,
    pub cursor_line: usize,
    pub cursor_col: usize,
}

/// The snapshot as values.
pub open spec fn snap_view(s: EditorSnapshot) -> Snap {
    (views(s.lines@), s.cursor_line as nat, s.cursor_col as nat)
}

/// A copy of lines of characters.
pub fn copy_lines_chars(ls: &Vec<Vec<char>>) -> (r: Vec<Vec<char>>)
    ensures
        views(r@) == views(ls@),
{
    let mut r: Vec<Vec<char>> = Vec::new();
    let mut i: usize = 0;
    while i < ls.len()
        invariant
            0 <= i <= ls.len(),
            views(r@) =~= views(ls@).take(i as int),
        decreases ls.len() - i,
    {
        let ghost before = r@;
        r.push(clone_chars(&ls[i]));
        assert(views(r@) =~= views(before).push(ls@[i as int]@));
        assert(views(ls@).take(i + 1) =~= views(ls@).take(i as int).push(ls@[i as int]@));
        i = i + 1;
    }
    assert(views(ls@).take(ls.len() as int) =~= views(ls@));
    r
}

impl Clone for EditorSnapshot {
    fn clone(&self) -> (r: Self)
        ensures
            snap_view(r) == snap_view(*self),
    {
        EditorSnapshot { lines: copy_lines_chars(&self.lines), cursor_line: self.cursor_line, cursor_col: self.cursor_col }
    }
}

/// How the editor draws its parts: decorations around the text.
pub struct EditorTheme {
    pub border: crate::tui::components::select_list::Decoration,
}

impl Default for EditorTheme {
    fn default() -> (t: Self)
        ensures
            t.border.before@ == ""@,
            t.border.after@ == ""@,
    {
        EditorTheme { border: crate::tui::components::select_list::Decoration::new("", "") }
    }
}

/// Editor layout options.
pub struct EditorOptions {
    pub padding_x: usize,
    pub max_visible_lines: usize,
}

impl Default for EditorOptions {
    fn default() -> (o: Self)
        ensures
            o.padding_x == 1,
            o.max_visible_lines == 10,
    {
        EditorOptions { padding_x: 1, max_visible_lines: 10 }
    }
}

/// The multi-line editor.
pub struct Editor<P> {
    lines: Vec<Vec<char>>,
    cursor_line: usize,
    cursor_col: usize,
    padding_x: usize,
    max_visible_lines: usize,
    scroll_offset: usize,
    theme: EditorTheme,
    focused: bool,
    kill_ring: KillRing,
    undo_stack: UndoStack<EditorSnapshot>,
    history: Vec<Vec<char>>,
    history_index: i64,
    history_draft: Option<EditorSnapshot>,
    preferred_col: Option<usize>,
    last_width: usize,
    last_action: Option<EditAction>,
    pub disable_submit: bool,
    jump_mode: Option<JumpDirection>,
    /// Large pastes kept aside behind their markers, as (id, content) in the
    /// order they were made, so that the ids increase along the vector and
    /// expansion, which wants the highest id first, walks it from the end.
    pastes: Vec<(u32, Vec<char>)>,
    paste_counter: u32,
    pub just_submitted: bool,
    terminal_rows: usize,
    autocomplete_max_visible: usize,
    autocomplete_list: Option<crate::tui::components::select_list::SelectList>,
    pub autocomplete_active: bool,
    autocomplete_prefix: Vec<char>,
    submitted: Vec<String>,
    /// Whether each change of the text is reported.
    on_change: bool,
    /// The texts reported after changes, oldest first, until taken.
    changes: Vec<String>,
    keybindings: Keybindings,
    /// How the rules above and below the text are drawn.
    pub border_color: crate::tui::components::select_list::Decoration,
    autocomplete_provider: Option<P>,
    last_autocomplete_trigger: std::time::Instant,
}

/// The views of the pastes.
pub open spec fn pastes_view(p: Seq<(u32, Vec<char>)>) -> Seq<(u32, Seq<char>)> {
    p.map_values(|e: (u32, Vec<char>)| (e.0, e.1@))
}

impl<P: AutocompleteProvider> Editor<P> {
    /// The text state.
    pub closed spec fn text(&self) -> TextView {
        TextView {
            lines: views(self.lines@),
            line: self.cursor_line as nat,
            col: self.cursor_col as nat,
            kill: self.kill_ring@,
            undo: self.undo_stack@.map_values(|s: EditorSnapshot| snap_view(s)),
            history: views(self.history@),
            history_index: self.history_index as int,
            draft: match self.history_draft {
                Some(d) => Some(snap_view(d)),
                None => None,
            },
            last: self.last_action,
            preferred: match self.preferred_col {
                Some(p) => Some(p as nat),
                None => None,
            },
            scroll: self.scroll_offset as nat,
            pastes: pastes_view(self.pastes@),
            paste_counter: self.paste_counter,
        }
    }

    /// The editor's invariant: a valid cursor, valid saved states, and a
    /// history index within the history.
    pub closed spec fn wf(&self) -> bool {
        &&& text_wf(self.text())
        &&& saved_wf(self.text())
        &&& -1 <= self.text().history_index < self.text().history.len()
        &&& self.text().history.len() <= 100
        &&& (self.autocomplete_list matches Some(l) ==> crate::tui::components::select_list::window_ok(l@))
    }

    /// How the rules are drawn.
    pub closed spec fn border(&self) -> crate::tui::components::select_list::Decoration {
        self.border_color
    }

    /// The autocomplete list drawn under the box, where one is showing.
    pub closed spec fn autocomplete_lines(&self, width: nat) -> Seq<Seq<char>> {
        match self.autocomplete_list {
            Some(l) => if self.autocomplete_active {
                crate::tui::components::select_list::select_render(l@, l.theme(), width)
            } else {
                seq![]
            },
            None => seq![],
        }
    }

    /// Terminal rows, padding, the width of the last layout, focus.
    pub closed spec fn layout(&self) -> (nat, nat, nat, bool) {
        (self.terminal_rows as nat, self.padding_x as nat, self.last_width as nat, self.focused)
    }

    /// The texts submitted, oldest first.
    pub closed spec fn submissions(&self) -> Seq<Seq<char>> {
        strs_view(self.submitted@)
    }

    /// The texts reported after changes and not taken yet.
    pub closed spec fn changes(&self) -> Seq<Seq<char>> {
        strs_view(self.changes@)
    }

    /// Whether changes of the text are reported.
    pub closed spec fn reports_changes(&self) -> bool {
        self.on_change
    }

    /// The keybindings.
    pub closed spec fn bindings(&self) -> Map<Seq<char>, Seq<Seq<char>>> {
        self.keybindings@
    }

    /// The text: the lines joined with newlines.
    pub fn get_text(&self) -> (r: String)
        requires
            self.wf(),
        ensures
            r@ == joined(self.text().lines),
    {
        let mut r = String::new();
        let mut i: usize = 0;
        while i < self.lines.len()
            invariant
                0 <= i <= self.lines.len(),
                self.lines.len() >= 1,
                r@ == joined(views(self.lines@).take(i as int)),
            decreases self.lines.len() - i,
        {
            let ghost before = r@;
            if i > 0 {
                crate::tui::strs::push_char(&mut r, '\n');
            }
            push_chars(&mut r, &self.lines[i]);
            proof {
                let t = views(self.lines@).take(i + 1);
                assert(t.drop_last() =~= views(self.lines@).take(i as int));
                assert(t.last() == self.lines@[i as int]@);
                if i == 0 {
                    assert(views(self.lines@).take(0) =~= Seq::<Seq<char>>::empty());
                }
            }
            i = i + 1;
        }
        assert(views(self.lines@).take(self.lines.len() as int) =~= views(self.lines@));
        r
    }

    /// The lines.
    pub fn get_lines(&self) -> (r: Vec<String>)
        ensures
            strs_view(r@) == self.text().lines,
    {
        let mut r: Vec<String> = Vec::new();
        let mut i: usize = 0;
        while i < self.lines.len()
            invariant
                0 <= i <= self.lines.len(),
                strs_view(r@) =~= views(self.lines@).take(i as int),
            decreases self.lines.len() - i,
        {
            let ghost before = strs_view(r@);
            r.push(string_from_chars(&self.lines[i]));
            assert(strs_view(r@) =~= before.push(self.lines@[i as int]@));
            assert(views(self.lines@).take(i + 1) =~= views(self.lines@).take(i as int).push(self.lines@[i as int]@));
            i = i + 1;
        }
        assert(views(self.lines@).take(self.lines.len() as int) =~= views(self.lines@));
        r
    }

    /// The cursor: line and byte column.
    pub fn get_cursor(&self) -> (r: (usize, usize))
        requires
            self.wf(),
        ensures
            r == (self.text().line as usize, byte_col(self.text()) as usize),
    {
        let l = &self.lines[self.cursor_line];
        let s = string_from_chars(l);
        let _n = str_byte_len(s.as_str());
        (self.cursor_line, byte_offset_of(l, self.cursor_col))
    }

    /// Put the cursor on `line` at byte column `col` (rounded down to a
    /// character, and kept within the text).
    pub fn set_cursor(&mut self, line: usize, col: usize)
        requires
            old(self).wf(),
        ensures
            final(self).wf(),
            final(self).text() == (TextView {
                line: if line < old(self).text().lines.len() { line as nat } else { (old(self).text().lines.len() - 1) as nat },
                col: chars_within(
                    old(self).text().lines[if line < old(self).text().lines.len() { line as int } else { old(self).text().lines.len() - 1 }],
                    col as int,
                ) as nat,
                ..old(self).text()
            }),
            final(self).layout() == old(self).layout(),
            final(self).submissions() == old(self).submissions(),
            log_kept(*final(self), *old(self)),
            final(self).bindings() == old(self).bindings(),
    {
        let l = if line < self.lines.len() { line } else { self.lines.len() - 1 };
        let c = char_index_of_byte(&self.lines[l], col);
        self.cursor_line = l;
        self.cursor_col = c;
    }

    /// The terminal height the view is sized from.
    pub fn set_terminal_rows(&mut self, rows: usize)
        ensures
            final(self).text() == old(self).text(),
            final(self).wf() == old(self).wf(),
            final(self).layout() == (rows as nat, old(self).layout().1, old(self).layout().2, old(self).layout().3),
    {
        self.terminal_rows = rows;
    }

    /// The horizontal padding.
    pub fn set_padding_x(&mut self, padding: usize)
        ensures
            final(self).text() == old(self).text(),
            final(self).wf() == old(self).wf(),
            final(self).layout() == (old(self).layout().0, padding as nat, old(self).layout().2, old(self).layout().3),
    {
        self.padding_x = padding;
    }

    /// Most items the autocomplete list shows, from 3 to 20.
    pub fn set_autocomplete_max_visible(&mut self, max: usize)
        ensures
            final(self).text() == old(self).text(),
            final(self).wf() == old(self).wf(),
            final(self).autocomplete_limit() == (if max < 3 { 3 } else if max > 20 { 20 } else { max }),
    {
        self.autocomplete_max_visible = if max < 3 { 3 } else if max > 20 { 20 } else { max };
    }

    /// Most items the autocomplete list shows.
    pub closed spec fn autocomplete_limit(&self) -> usize {
        self.autocomplete_max_visible
    }

    /// Use these keybindings.
    pub fn set_keybindings(&mut self, kb: Keybindings)
        ensures
            final(self).text() == old(self).text(),
            final(self).wf() == old(self).wf(),
            final(self).bindings() == kb@,
    {
        self.keybindings = kb;
    }

    /// The submitted texts, taken out.
    pub fn take_submitted(&mut self) -> (r: Vec<String>)
        ensures
            strs_view(r@) == old(self).submissions(),
            final(self).submissions().len() == 0,
            final(self).text() == old(self).text(),
            final(self).wf() == old(self).wf(),
    {
        let mut r: Vec<String> = Vec::new();
        std::mem::swap(&mut r, &mut self.submitted);
        assert(strs_view(self.submitted@) =~= Seq::<Seq<char>>::empty());
        r
    }

    /// Report each change of the text from now on: after every change the
    /// text is kept, in order, until `take_changes`.
    pub fn set_on_change(&mut self)
        ensures
            final(self).reports_changes(),
            final(self).changes() == old(self).changes(),
            final(self).text() == old(self).text(),
            final(self).wf() == old(self).wf(),
            final(self).submissions() == old(self).submissions(),
    {
        self.on_change = true;
    }

    /// The texts reported after changes, taken out.
    pub fn take_changes(&mut self) -> (r: Vec<String>)
        ensures
            strs_view(r@) == old(self).changes(),
            final(self).changes().len() == 0,
            final(self).reports_changes() == old(self).reports_changes(),
            final(self).text() == old(self).text(),
            final(self).wf() == old(self).wf(),
            final(self).submissions() == old(self).submissions(),
    {
        let mut r: Vec<String> = Vec::new();
        std::mem::swap(&mut r, &mut self.changes);
        assert(strs_view(self.changes@) =~= Seq::<Seq<char>>::empty());
        r
    }

    /// After a change: where changes are reported, keep the text.
    fn report_change(&mut self)
        requires
            old(self).wf(),
        ensures
            final(self).wf(),
            final(self).text() == old(self).text(),
            final(self).layout() == old(self).layout(),
            final(self).submissions() == old(self).submissions(),
            final(self).bindings() == old(self).bindings(),
            same_setup(*final(self), *old(self)),
            ac_kept(*final(self), *old(self)),
            final(self).reports_changes() == old(self).reports_changes(),
            final(self).changes() == reported(*old(self), joined(old(self).text().lines)),
    {
        if self.on_change {
            let t = self.get_text();
            let ghost before = self.changes@;
            self.changes.push(t);
            assert(strs_view(self.changes@) =~= strs_view(before).push(t@));
        }
    }

    fn snapshot(&self) -> (s: EditorSnapshot)
        ensures
            snap_view(s) == snap(self.text()),
    {
        EditorSnapshot { lines: copy_lines_chars(&self.lines), cursor_line: self.cursor_line, cursor_col: self.cursor_col }
    }

    /// Save the text for undo.
    pub fn push_undo(&mut self)
        requires
            old(self).wf(),
        ensures
            final(self).wf(),
            final(self).text() == pushed_undo(old(self).text()),
            final(self).layout() == old(self).layout(),
            final(self).submissions() == old(self).submissions(),
            log_kept(*final(self), *old(self)),
            final(self).bindings() == old(self).bindings(),
            same_setup(*final(self), *old(self)),
            ac_kept(*final(self), *old(self)),
    {
        let s = self.snapshot();
        let ghost before = self.undo_stack@;
        self.undo_stack.push(&s);
        proof {
            let last = self.undo_stack@.last();
            assert(snap_view(last) == snap_view(s));
            assert(self.undo_stack@ =~= before.push(last));
            assert(self.text().undo =~= old(self).text().undo.push(snap(old(self).text())));
            assert forall|i: int| 0 <= i < self.text().undo.len() implies snap_wf(#[trigger] self.text().undo[i]) by {
                if i < old(self).text().undo.len() {
                    assert(self.text().undo[i] == old(self).text().undo[i]);
                }
            }
        }
    }

    /// Restore the last saved text.
    pub fn undo(&mut self)
        requires
            old(self).wf(),
        ensures
            final(self).wf(),
            final(self).text() == undone_text(old(self).text()),
            final(self).layout() == old(self).layout(),
            final(self).submissions() == old(self).submissions(),
            log_kept(*final(self), *old(self)),
            final(self).bindings() == old(self).bindings(),
    {
        let ghost before = self.undo_stack@;
        match self.undo_stack.pop() {
            Some(s) => {
                proof {
                    assert(snap_wf(old(self).text().undo[old(self).text().undo.len() - 1]));
                }
                self.lines = s.lines;
                self.cursor_line = s.cursor_line;
                self.cursor_col = s.cursor_col;
                self.preferred_col = None;
                proof {
                    assert(self.text().undo =~= old(self).text().undo.drop_last());
                    assert forall|i: int| 0 <= i < self.text().undo.len() implies snap_wf(#[trigger] self.text().undo[i]) by {
                        assert(self.text().undo[i] == old(self).text().undo[i]);
                    }
                }
            },
            None => {},
        }
    }

    fn exit_history(&mut self)
        requires
            old(self).wf(),
        ensures
            final(self).wf(),
            final(self).text() == exit_hist(old(self).text()),
            final(self).layout() == old(self).layout(),
            final(self).submissions() == old(self).submissions(),
            log_kept(*final(self), *old(self)),
            final(self).bindings() == old(self).bindings(),
            same_setup(*final(self), *old(self)),
            ac_kept(*final(self), *old(self)),
    {
        self.history_index = -1;
        self.history_draft = None;
        self.last_action = None;
    }

    /// Insert `text` at the cursor; newlines split the line.
    pub fn insert_text_internal(&mut self, text: &str)
        requires
            old(self).wf(),
        ensures
            final(self).wf(),
            final(self).text() == inserted(old(self).text(), text@),
            final(self).layout() == old(self).layout(),
            final(self).submissions() == old(self).submissions(),
            log_kept(*final(self), *old(self)),
            final(self).bindings() == old(self).bindings(),
            same_setup(*final(self), *old(self)),
            ac_kept(*final(self), *old(self)),
    {
        let t = str_chars(text);
        if t.len() == 0 {
            return;
        }
        let n = normalize_exec(&t);
        let parts = split_chars(&n, '\n');
        proof {
            lemma_split_nonempty(n@, '\n');
        }
        let ghost v = self.text();
        let line = &self.lines[self.cursor_line];
        let before = sub_chars(line, 0, self.cursor_col);
        let after = sub_chars(line, self.cursor_col, line.len());
        assert(before@ =~= cur(v).take(v.col as int));
        assert(after@ =~= cur(v).skip(v.col as int));
        if parts.len() == 1 {
            assert(parts@[0]@ == n@) by {
                assert(views(parts@)[0] == parts@[0]@);
                lemma_split_single(n@, '\n');
            }
            let mut nl = before;
            append_chars(&mut nl, &n);
            append_chars(&mut nl, &after);
            let ghost newlen = nl@.len();
            let nlen = nl.len();
            self.lines.set(self.cursor_line, nl);
            self.cursor_col = self.cursor_col + n.len();
            self.preferred_col = None;
            assert(self.text().lines =~= v.lines.update(v.line as int, before@ + n@ + after@));
        } else {
            let k = parts.len();
            let mut new_lines: Vec<Vec<char>> = Vec::new();
            let mut i: usize = 0;
            while i < self.cursor_line
                invariant
                    0 <= i <= self.cursor_line,
                    self.cursor_line < self.lines.len(),
                    views(new_lines@) =~= views(self.lines@).take(i as int),
                decreases self.cursor_line - i,
            {
                let ghost b = views(new_lines@);
                new_lines.push(clone_chars(&self.lines[i]));
                assert(views(new_lines@) =~= b.push(self.lines@[i as int]@));
                assert(views(self.lines@).take(i + 1) =~= views(self.lines@).take(i as int).push(self.lines@[i as int]@));
                i = i + 1;
            }
            let mut first = before;
            append_chars(&mut first, &parts[0]);
            let ghost b0 = views(new_lines@);
            new_lines.push(first);
            let mut j: usize = 1;
            assert(views(parts@)[0] == parts@[0]@);
            assert(views(new_lines@) =~= b0.push(before@ + views(parts@)[0]));
            let ghost head = views(new_lines@);
            while j < k - 1
                invariant
                    1 <= j <= k - 1,
                    k == parts.len(),
                    views(new_lines@) =~= head + views(parts@).subrange(1, j as int),
                decreases k - 1 - j,
            {
                let ghost b = views(new_lines@);
                new_lines.push(clone_chars(&parts[j]));
                assert(views(new_lines@) =~= b.push(parts@[j as int]@));
                assert(views(parts@).subrange(1, j + 1) =~= views(parts@).subrange(1, j as int).push(parts@[j as int]@));
                j = j + 1;
            }
            let mut last = clone_chars(&parts[k - 1]);
            let last_len = last.len();
            append_chars(&mut last, &after);
            let ghost b1 = views(new_lines@);
            new_lines.push(last);
            assert(views(parts@).last() == parts@[k - 1]@);
            assert(views(new_lines@) =~= b1.push(views(parts@).last() + after@));
            let mut m = self.cursor_line + 1;
            let ghost mid = views(new_lines@);
            while m < self.lines.len()
                invariant
                    self.cursor_line + 1 <= m <= self.lines.len(),
                    views(new_lines@) =~= mid + views(self.lines@).subrange(self.cursor_line + 1, m as int),
                decreases self.lines.len() - m,
            {
                let ghost b = views(new_lines@);
                new_lines.push(clone_chars(&self.lines[m]));
                assert(views(new_lines@) =~= b.push(self.lines@[m as int]@));
                assert(views(self.lines@).subrange(self.cursor_line + 1, m + 1) =~= views(self.lines@).subrange(
                    self.cursor_line + 1,
                    m as int,
                ).push(self.lines@[m as int]@));
                m = m + 1;
            }
            assert(views(self.lines@).subrange(self.cursor_line + 1, self.lines.len() as int) =~= v.lines.skip(v.line + 1int));
            assert(new_lines@.len() == self.cursor_line + k + (self.lines.len() - self.cursor_line - 1));
            let _nl = new_lines.len();
            self.cursor_line = self.cursor_line + (k - 1);
            self.cursor_col = last_len;
            self.preferred_col = None;
            let ghost nv = views(new_lines@);
            self.lines = new_lines;
            assert(nv =~= v.lines.take(v.line as int) + seq![before@ + views(parts@)[0]] + views(parts@).subrange(
                1,
                k - 1,
            ) + seq![views(parts@).last() + after@] + v.lines.skip(v.line + 1int));
            assert(nv[self.cursor_line as int] == views(parts@).last() + after@);
        }
    }
}

impl<P: AutocompleteProvider> Editor<P> {
    fn set_cur_line(&mut self, l: Vec<char>)
        requires
            old(self).wf(),
        ensures
            final(self).text() == (TextView { lines: old(self).text().lines.update(old(self).text().line as int, l@), ..old(self).text() }),
            final(self).layout() == old(self).layout(),
            final(self).submissions() == old(self).submissions(),
            log_kept(*final(self), *old(self)),
            final(self).bindings() == old(self).bindings(),
            final(self).autocomplete_list == old(self).autocomplete_list,
    {
        self.lines.set(self.cursor_line, l);
        assert(self.text().lines =~= old(self).text().lines.update(old(self).text().line as int, l@));
    }

    /// Join line `i` onto line `i - 1`.
    fn merge_up(&mut self, i: usize)
        requires
            0 < i < old(self).lines.len(),
        ensures
            final(self).text() == (TextView { lines: merged_up(old(self).text().lines, i as int), ..old(self).text() }),
            final(self).layout() == old(self).layout(),
            final(self).submissions() == old(self).submissions(),
            log_kept(*final(self), *old(self)),
            final(self).bindings() == old(self).bindings(),
            final(self).autocomplete_list == old(self).autocomplete_list,
    {
        let ghost ls = self.text().lines;
        let mut joined_line = clone_chars(&self.lines[i - 1]);
        append_chars(&mut joined_line, &self.lines[i]);
        self.lines.set(i - 1, joined_line);
        let _removed = self.lines.remove(i);
        assert(self.text().lines =~= merged_up(ls, i as int));
    }

    /// Type one character: leaves history, saves for undo, inserts.
    pub fn insert_character(&mut self, ch: &str)
        requires
            old(self).wf(),
        ensures
            final(self).wf(),
            final(self).text() == typed_char(old(self).text(), ch@),
            final(self).layout() == old(self).layout(),
            final(self).submissions() == old(self).submissions(),
            log_kept(*final(self), *old(self)),
            final(self).bindings() == old(self).bindings(),
            same_setup(*final(self), *old(self)),
            ac_kept(*final(self), *old(self)),
    {
        self.exit_history();
        let t = str_chars(ch);
        let ws = t.len() == 1 && (t[0] == ' ' || t[0] == '\t');
        proof {
            if t@ == seq![' '] || t@ == seq!['\t'] {
                assert(t@.len() == 1);
            }
            if ws {
                assert(t@ =~= seq![t@[0]]);
            }
        }
        if ws || self.last_action != Some(EditAction::TypeWord) {
            self.push_undo();
        }
        self.last_action = Some(EditAction::TypeWord);
        self.insert_text_internal(ch);
    }

    /// Split the line at the cursor.
    pub fn add_newline(&mut self)
        requires
            old(self).wf(),
        ensures
            final(self).wf(),
            final(self).text() == newline_added(old(self).text()),
            final(self).layout() == old(self).layout(),
            final(self).submissions() == old(self).submissions(),
            log_kept(*final(self), *old(self)),
            final(self).bindings() == old(self).bindings(),
    {
        self.exit_history();
        self.push_undo();
        let ghost v = old(self).text();
        let line = clone_chars(&self.lines[self.cursor_line]);
        let before = sub_chars(&line, 0, self.cursor_col);
        let after = sub_chars(&line, self.cursor_col, line.len());
        let nl = self.lines.len();
        assert(self.cursor_line < nl);
        self.lines.set(self.cursor_line, before);
        self.lines.insert(self.cursor_line + 1, after);
        self.cursor_line = self.cursor_line + 1;
        self.cursor_col = 0;
        self.preferred_col = None;
        assert(self.text().lines =~= v.lines.take(v.line as int) + seq![cur(v).take(v.col as int), cur(v).skip(v.col as int)]
            + v.lines.skip(v.line + 1int));
    }

    /// Backspace: delete the unit before the cursor, or join with the line above.
    pub fn backspace(&mut self)
        requires
            old(self).wf(),
        ensures
            final(self).wf(),
            final(self).text() == backspaced(old(self).text()),
            final(self).layout() == old(self).layout(),
            final(self).submissions() == old(self).submissions(),
            log_kept(*final(self), *old(self)),
            final(self).bindings() == old(self).bindings(),
    {
        self.exit_history();
        if self.cursor_col > 0 {
            self.push_undo();
            match find_unit_before(&self.lines[self.cursor_line], self.cursor_col) {
                Some((a, b)) => {
                    let nl = splice_chars(&self.lines[self.cursor_line], a, b, &[]);
                    self.set_cur_line(nl);
                    self.cursor_col = a;
                    self.preferred_col = None;
                },
                None => {},
            }
        } else if self.cursor_line > 0 {
            self.push_undo();
            let prev_len = self.lines[self.cursor_line - 1].len();
            self.merge_up(self.cursor_line);
            self.cursor_line = self.cursor_line - 1;
            self.cursor_col = prev_len;
            self.preferred_col = None;
        }
    }

    /// Delete: remove the unit after the cursor, or join the line below.
    pub fn delete_forward(&mut self)
        requires
            old(self).wf(),
        ensures
            final(self).wf(),
            final(self).text() == deleted_forward(old(self).text()),
            final(self).layout() == old(self).layout(),
            final(self).submissions() == old(self).submissions(),
            log_kept(*final(self), *old(self)),
            final(self).bindings() == old(self).bindings(),
    {
        self.exit_history();
        if self.cursor_col < self.lines[self.cursor_line].len() {
            self.push_undo();
            match find_unit_after(&self.lines[self.cursor_line], self.cursor_col) {
                Some((a, b)) => {
                    let nl = splice_chars(&self.lines[self.cursor_line], a, b, &[]);
                    self.set_cur_line(nl);
                },
                None => {},
            }
        } else if self.lines.len() - self.cursor_line > 1 {
            self.push_undo();
            self.merge_up(self.cursor_line + 1);
        }
    }

    fn kill(&mut self, text: &[char], prepend: bool)
        requires
            old(self).wf(),
        ensures
            final(self).wf(),
            final(self).text() == (TextView {
                kill: pushed(old(self).text().kill, text@, prepend, old(self).text().last == Some(EditAction::Kill)),
                last: Some(EditAction::Kill),
                ..old(self).text()
            }),
            final(self).layout() == old(self).layout(),
            final(self).submissions() == old(self).submissions(),
            log_kept(*final(self), *old(self)),
            final(self).bindings() == old(self).bindings(),
            final(self).autocomplete_list == old(self).autocomplete_list,
    {
        let accumulate = self.last_action == Some(EditAction::Kill);
        let s = string_from_chars(text);
        self.kill_ring.push(s.as_str(), prepend, accumulate);
        self.last_action = Some(EditAction::Kill);
    }

    /// Kill to the start of the line (or the line break before it).
    pub fn delete_to_line_start(&mut self)
        requires
            old(self).wf(),
        ensures
            final(self).wf(),
            final(self).text() == killed_to_line_start(old(self).text()),
            final(self).layout() == old(self).layout(),
            final(self).submissions() == old(self).submissions(),
            log_kept(*final(self), *old(self)),
            final(self).bindings() == old(self).bindings(),
    {
        self.exit_history();
        if self.cursor_col > 0 {
            self.push_undo();
            let line = clone_chars(&self.lines[self.cursor_line]);
            let deleted = sub_chars(&line, 0, self.cursor_col);
            self.kill(&deleted, true);
            let rest = sub_chars(&line, self.cursor_col, line.len());
            self.set_cur_line(rest);
            self.cursor_col = 0;
            self.preferred_col = None;
        } else if self.cursor_line > 0 {
            self.push_undo();
            let nl = vec!['\n'];
            assert(nl@ =~= seq!['\n']);
            self.kill(&nl, true);
            let prev_len = self.lines[self.cursor_line - 1].len();
            self.merge_up(self.cursor_line);
            self.cursor_line = self.cursor_line - 1;
            self.cursor_col = prev_len;
            self.preferred_col = None;
        }
    }

    /// Kill to the end of the line (or the line break after it).
    pub fn delete_to_line_end(&mut self)
        requires
            old(self).wf(),
        ensures
            final(self).wf(),
            final(self).text() == killed_to_line_end(old(self).text()),
            final(self).layout() == old(self).layout(),
            final(self).submissions() == old(self).submissions(),
            log_kept(*final(self), *old(self)),
            final(self).bindings() == old(self).bindings(),
    {
        self.exit_history();
        if self.cursor_col < self.lines[self.cursor_line].len() {
            self.push_undo();
            let line = clone_chars(&self.lines[self.cursor_line]);
            let deleted = sub_chars(&line, self.cursor_col, line.len());
            self.kill(&deleted, false);
            let rest = sub_chars(&line, 0, self.cursor_col);
            self.set_cur_line(rest);
        } else if self.lines.len() - self.cursor_line > 1 {
            self.push_undo();
            let nl = vec!['\n'];
            assert(nl@ =~= seq!['\n']);
            self.kill(&nl, false);
            self.merge_up(self.cursor_line + 1);
        }
    }
}

impl<P: AutocompleteProvider> Editor<P> {
    /// Kill the word before the cursor (paste markers count as one word).
    pub fn delete_word_backward(&mut self)
        requires
            old(self).wf(),
        ensures
            final(self).wf(),
            final(self).text() == killed_word_left(old(self).text()),
            final(self).layout() == old(self).layout(),
            final(self).submissions() == old(self).submissions(),
            log_kept(*final(self), *old(self)),
            final(self).bindings() == old(self).bindings(),
    {
        self.exit_history();
        if self.cursor_col == 0 {
            return;
        }
        let line = clone_chars(&self.lines[self.cursor_line]);
        let nc = word_left_of(&line, self.cursor_col);
        if nc < self.cursor_col {
            self.push_undo();
            let deleted = sub_chars(&line, nc, self.cursor_col);
            self.kill(&deleted, true);
            let nl = splice_chars(&line, nc, self.cursor_col, &[]);
            self.set_cur_line(nl);
            self.cursor_col = nc;
            self.preferred_col = None;
        }
    }

    /// Kill the word after the cursor.
    pub fn delete_word_forward(&mut self)
        requires
            old(self).wf(),
        ensures
            final(self).wf(),
            final(self).text() == killed_word_right(old(self).text()),
            final(self).layout() == old(self).layout(),
            final(self).submissions() == old(self).submissions(),
            log_kept(*final(self), *old(self)),
            final(self).bindings() == old(self).bindings(),
    {
        self.exit_history();
        if self.cursor_col >= self.lines[self.cursor_line].len() {
            return;
        }
        let line = clone_chars(&self.lines[self.cursor_line]);
        let nc = word_right_of(&line, self.cursor_col);
        if nc > self.cursor_col {
            self.push_undo();
            let deleted = sub_chars(&line, self.cursor_col, nc);
            self.kill(&deleted, false);
            let nl = splice_chars(&line, self.cursor_col, nc, &[]);
            self.set_cur_line(nl);
        }
    }

    /// Insert the most recent kill at the cursor.
    pub fn yank(&mut self)
        requires
            old(self).wf(),
        ensures
            final(self).wf(),
            final(self).text() == yanked_text(old(self).text()),
            final(self).layout() == old(self).layout(),
            final(self).submissions() == old(self).submissions(),
            log_kept(*final(self), *old(self)),
            final(self).bindings() == old(self).bindings(),
    {
        self.exit_history();
        let t = match self.kill_ring.peek() {
            Some(t) => str_chars(t),
            None => {
                return;
            },
        };
        self.push_undo();
        let line = clone_chars(&self.lines[self.cursor_line]);
        let nl = splice_chars(&line, self.cursor_col, self.cursor_col, &t);
        assert(nl@.len() == self.cursor_col + t@.len() + (line@.len() - self.cursor_col));
        let _l = nl.len();
        self.set_cur_line(nl);
        self.cursor_col = self.cursor_col + t.len();
        self.last_action = Some(EditAction::Yank);
    }

    /// Replace the text just yanked with the next older kill.
    pub fn yank_pop(&mut self)
        requires
            old(self).wf(),
            yank_pop_fits(old(self).text()),
        ensures
            final(self).wf(),
            final(self).text() == yank_popped_text(old(self).text()),
            final(self).layout() == old(self).layout(),
            final(self).submissions() == old(self).submissions(),
            log_kept(*final(self), *old(self)),
            final(self).bindings() == old(self).bindings(),
    {
        if self.last_action != Some(EditAction::Yank) || self.kill_ring.len() <= 1 {
            return;
        }
        self.push_undo();
        let pb = match self.kill_ring.peek() {
            Some(t) => str_byte_len(t),
            None => 0,
        };
        let line = clone_chars(&self.lines[self.cursor_line]);
        let s = string_from_chars(&line);
        let _n = str_byte_len(s.as_str());
        let b = byte_offset_of(&line, self.cursor_col);
        let a = if b >= pb { char_index_of_byte(&line, b - pb) } else { self.cursor_col };
        proof {
            if b >= pb {
                crate::tui::components::input::lemma_chars_within_mono(line@, (b - pb) as int, b as int);
                crate::tui::components::input::lemma_chars_within_take(line@, self.cursor_col as int);
            }
        }
        let l2 = splice_chars(&line, a, self.cursor_col, &[]);
        self.kill_ring.rotate();
        let t = match self.kill_ring.peek() {
            Some(t) => str_chars(t),
            None => Vec::new(),
        };
        let nl = splice_chars(&l2, a, a, &t);
        assert(nl@.len() == a + t@.len() + (l2@.len() - a));
        let _l = nl.len();
        self.set_cur_line(nl);
        self.cursor_col = a + t.len();
        self.last_action = Some(EditAction::Yank);
    }

    /// Move one unit left, onto the end of the line above at the start.
    pub fn move_left(&mut self)
        requires
            old(self).wf(),
        ensures
            final(self).wf(),
            final(self).text() == moved_left_text(old(self).text()),
            final(self).layout() == old(self).layout(),
            final(self).submissions() == old(self).submissions(),
            log_kept(*final(self), *old(self)),
            final(self).bindings() == old(self).bindings(),
    {
        self.last_action = None;
        if self.cursor_col > 0 {
            let line = clone_chars(&self.lines[self.cursor_line]);
            let pre = sub_chars(&line, 0, self.cursor_col);
            assert(pre@ =~= line@.take(self.cursor_col as int));
            let gs = graphemes(&pre);
            if gs.len() > 0 {
                let ghost gv = views(gs@);
                proof {
                    assert(gv.last() == gs@[gs.len() - 1]@);
                    gv.lemma_flatten_and_flatten_alt_are_equivalent();
                    assert(gv.flatten_alt() == gv.drop_last().flatten_alt() + gv.last());
                }
                let n = gs[gs.len() - 1].len();
                assert(n == gv.last().len());
                let c = snap_paste_marker(&line, self.cursor_col - n, true);
                self.cursor_col = c;
                self.preferred_col = None;
            }
        } else if self.cursor_line > 0 {
            self.cursor_line = self.cursor_line - 1;
            self.cursor_col = self.lines[self.cursor_line].len();
            self.preferred_col = None;
        }
    }

    /// Move one unit right, onto the start of the line below at the end.
    pub fn move_right(&mut self)
        requires
            old(self).wf(),
        ensures
            final(self).wf(),
            final(self).text() == moved_right_text(old(self).text()),
            final(self).layout() == old(self).layout(),
            final(self).submissions() == old(self).submissions(),
            log_kept(*final(self), *old(self)),
            final(self).bindings() == old(self).bindings(),
    {
        self.last_action = None;
        if self.cursor_col < self.lines[self.cursor_line].len() {
            let line = clone_chars(&self.lines[self.cursor_line]);
            let n = next_cluster(&line, self.cursor_col);
            let c = snap_paste_marker(&line, self.cursor_col + n, false);
            self.cursor_col = c;
            self.preferred_col = None;
        } else if self.lines.len() - self.cursor_line > 1 {
            self.cursor_line = self.cursor_line + 1;
            self.cursor_col = 0;
            self.preferred_col = None;
        }
    }

    /// Move to the start of the line.
    pub fn move_to_line_start(&mut self)
        requires
            old(self).wf(),
        ensures
            final(self).wf(),
            final(self).text() == (TextView { last: None, col: 0, preferred: None, ..old(self).text() }),
            final(self).layout() == old(self).layout(),
            final(self).submissions() == old(self).submissions(),
            log_kept(*final(self), *old(self)),
            final(self).bindings() == old(self).bindings(),
    {
        self.last_action = None;
        self.cursor_col = 0;
        self.preferred_col = None;
    }

    /// Move to the end of the line.
    pub fn move_to_line_end(&mut self)
        requires
            old(self).wf(),
        ensures
            final(self).wf(),
            final(self).text() == (TextView {
                last: None,
                col: cur(old(self).text()).len(),
                preferred: None,
                ..old(self).text()
            }),
            final(self).layout() == old(self).layout(),
            final(self).submissions() == old(self).submissions(),
            log_kept(*final(self), *old(self)),
            final(self).bindings() == old(self).bindings(),
    {
        self.last_action = None;
        self.cursor_col = self.lines[self.cursor_line].len();
        self.preferred_col = None;
    }

    fn set_text_internal(&mut self, text: &[char])
        requires
            old(self).wf(),
        ensures
            final(self).wf(),
            final(self).text() == with_text(old(self).text(), text@),
            final(self).layout() == old(self).layout(),
            final(self).submissions() == old(self).submissions(),
            log_kept(*final(self), *old(self)),
            final(self).bindings() == old(self).bindings(),
            same_setup(*final(self), *old(self)),
            ac_kept(*final(self), *old(self)),
    {
        if text.len() == 0 {
            self.lines = vec![Vec::new()];
            assert(self.text().lines =~= seq![Seq::<char>::empty()]);
        } else {
            self.lines = split_chars(text, '\n');
            proof {
                lemma_split_nonempty(text@, '\n');
            }
        }
        self.cursor_line = self.lines.len() - 1;
        self.cursor_col = self.lines[self.cursor_line].len();
        self.scroll_offset = 0;
        self.preferred_col = None;
    }

    /// Replace the text; undo can bring the old one back.
    pub fn set_text(&mut self, text: &str)
        requires
            old(self).wf(),
        ensures
            final(self).wf(),
            final(self).text() == with_text(
                if joined(old(self).text().lines) != text@ {
                    pushed_undo(exit_hist(old(self).text()))
                } else {
                    exit_hist(old(self).text())
                },
                text@,
            ),
            final(self).layout() == old(self).layout(),
            final(self).submissions() == old(self).submissions(),
            final(self).bindings() == old(self).bindings(),
            ac_closed(*final(self)),
            same_setup(*final(self), *old(self)),
            final(self).reports_changes() == old(self).reports_changes(),
            final(self).changes() == reported(*old(self), text@),
    {
        self.clear_autocomplete_state();
        self.exit_history();
        let current = self.get_text();
        let t = str_chars(text);
        let cc = str_chars(current.as_str());
        if !crate::tui::image::chars_eq(&cc, &t) {
            self.push_undo();
        }
        self.set_text_internal(&t);
        self.report_change();
        proof {
            crate::tui::components::editor_model::law_set_text_then_get_text(
                if joined(old(self).text().lines) != text@ {
                    pushed_undo(exit_hist(old(self).text()))
                } else {
                    exit_hist(old(self).text())
                },
                text@,
            );
        }
    }

    fn clear_autocomplete_state(&mut self)
        ensures
            final(self).text() == old(self).text(),
            final(self).layout() == old(self).layout(),
            final(self).submissions() == old(self).submissions(),
            log_kept(*final(self), *old(self)),
            final(self).bindings() == old(self).bindings(),
            old(self).wf() ==> final(self).wf(),
            final(self).autocomplete_list is None,
            !final(self).autocomplete_active,
            final(self).autocomplete_prefix@.len() == 0,
            same_setup(*final(self), *old(self)),
    {
        self.autocomplete_active = false;
        self.autocomplete_list = None;
        self.autocomplete_prefix = Vec::new();
    }

    /// Remember a submitted text in the history.
    pub fn add_to_history(&mut self, text: &str)
        requires
            old(self).wf(),
        ensures
            final(self).wf(),
            final(self).text() == history_added(old(self).text(), text@),
            final(self).layout() == old(self).layout(),
            final(self).submissions() == old(self).submissions(),
            log_kept(*final(self), *old(self)),
            final(self).bindings() == old(self).bindings(),
    {
        let t = str_chars(text);
        let (a, b) = trim_bounds(&t);
        let trimmed = sub_chars(&t, a, b);
        assert(trimmed@ =~= trim_ws(text@));
        if trimmed.len() == 0 {
            return;
        }
        if self.history.len() > 0 && crate::tui::image::chars_eq(&self.history[0], &trimmed) {
            return;
        }
        let ghost h = self.text().history;
        self.history.insert(0, trimmed);
        assert(views(self.history@) =~= seq![trim_ws(text@)] + h);
        if self.history.len() > 100 {
            let _last = self.history.pop();
            assert(views(self.history@) =~= (seq![trim_ws(text@)] + h).drop_last());
        }
        self.history_index = -1;
    }

    /// Insert text at the cursor as one undoable edit.
    pub fn insert_text_at_cursor(&mut self, text: &str)
        requires
            old(self).wf(),
        ensures
            final(self).wf(),
            final(self).text() == inserted(pushed_undo(exit_hist(old(self).text())), text@),
            final(self).layout() == old(self).layout(),
            final(self).submissions() == old(self).submissions(),
            final(self).bindings() == old(self).bindings(),
            ac_closed(*final(self)),
            same_setup(*final(self), *old(self)),
            final(self).reports_changes() == old(self).reports_changes(),
            final(self).changes() == reported(*old(self), joined(final(self).text().lines)),
    {
        self.clear_autocomplete_state();
        self.exit_history();
        self.push_undo();
        self.insert_text_internal(text);
        self.report_change();
    }

    /// Up in history.
    pub fn recall_older(&mut self)
        requires
            old(self).wf(),
        ensures
            final(self).wf(),
            final(self).text() == recalled_older(old(self).text()),
            final(self).layout() == old(self).layout(),
            final(self).submissions() == old(self).submissions(),
            log_kept(*final(self), *old(self)),
            final(self).bindings() == old(self).bindings(),
    {
        if self.history.len() == 0 {
            return;
        }
        let idx: usize = if self.history_index < 0 { 0 } else { (self.history_index + 1) as usize };
        if idx >= self.history.len() {
            return;
        }
        if self.history_index < 0 {
            self.history_draft = Some(self.snapshot());
        }
        let text = clone_chars(&self.history[idx]);
        self.set_text_internal(&text);
        self.cursor_col = 0;
        self.history_index = idx as i64;
    }

    /// Down in history.
    pub fn recall_newer(&mut self)
        requires
            old(self).wf(),
        ensures
            final(self).wf(),
            final(self).text() == recalled_newer(old(self).text()),
            final(self).layout() == old(self).layout(),
            final(self).submissions() == old(self).submissions(),
            log_kept(*final(self), *old(self)),
            final(self).bindings() == old(self).bindings(),
    {
        if self.history_index < 0 {
            return;
        }
        if self.history_index == 0 {
            let mut draft: Option<EditorSnapshot> = None;
            std::mem::swap(&mut draft, &mut self.history_draft);
            match draft {
                Some(d) => {
                    self.lines = d.lines;
                    self.cursor_line = d.cursor_line;
                    self.cursor_col = d.cursor_col;
                    self.preferred_col = None;
                },
                None => {
                    let e: Vec<char> = Vec::new();
                    self.set_text_internal(&e);
                },
            }
            self.history_index = -1;
        } else {
            let idx = (self.history_index - 1) as usize;
            let text = clone_chars(&self.history[idx]);
            self.set_text_internal(&text);
            self.history_index = idx as i64;
        }
    }
}

/// One word backward in a line, paste markers atomic.
pub fn word_left_of(line: &[char], c: usize) -> (r: usize)
    requires
        c <= line.len(),
    ensures
        r == word_left_in(line@, c as int),
        r <= c,
{
    let s = string_from_chars(line);
    let _n = str_byte_len(s.as_str());
    let b = byte_offset_of(line, c);
    if b == 0 {
        return 0;
    }
    let prefix = sub_chars(line, 0, c);
    proof {
        crate::tui::components::input::lemma_chars_within_take(line@, c as int);
        crate::tui::strs::lemma_byte_len_prefix_le(line@, c as int);
    }
    assert(prefix@ =~= crate::tui::word_nav::prefix_bytes(line@, b as int));
    let segs = crate::tui::word_nav::default_segment(&prefix);
    let flags = marker_flags_exec(&segs);
    proof {
        crate::tui::word_nav::lemma_seg_text_bytes(crate::tui::word_nav::seg_views(segs@));
    }
    let r = crate::tui::word_nav::find_word_backward_in(&segs, &flags, b);
    proof {
        crate::tui::components::input::lemma_chars_within_mono(line@, r as int, b as int);
    }
    char_index_of_byte(line, r)
}

/// One word forward in a line, paste markers atomic.
pub fn word_right_of(line: &[char], c: usize) -> (r: usize)
    requires
        c <= line.len(),
    ensures
        r == word_right_in(line@, c as int),
        c <= r <= line.len(),
{
    let s = string_from_chars(line);
    let total = str_byte_len(s.as_str());
    let b = byte_offset_of(line, c);
    proof {
        crate::tui::components::input::lemma_chars_within_take(line@, c as int);
        crate::tui::strs::lemma_byte_len_prefix_le(line@, c as int);
    }
    if b >= total {
        proof {
            crate::tui::strs::lemma_byte_len_prefix_le(line@, c as int);
        }
        return line.len();
    }
    let suffix = sub_chars(line, c, line.len());
    assert(suffix@ =~= crate::tui::word_nav::suffix_bytes(line@, b as int));
    let segs = crate::tui::word_nav::default_segment(&suffix);
    let flags = marker_flags_exec(&segs);
    proof {
        crate::tui::word_nav::lemma_seg_text_bytes(crate::tui::word_nav::seg_views(segs@));
        assert(line@.take(c as int) + line@.skip(c as int) =~= line@);
        crate::tui::strs::lemma_byte_len_concat(line@.take(c as int), line@.skip(c as int));
    }
    let r = crate::tui::word_nav::find_word_forward_in(&segs, &flags, b);
    proof {
        crate::tui::components::input::lemma_chars_within_mono(line@, b as int, r as int);
    }
    char_index_of_byte(line, r)
}

fn marker_flags_exec(segs: &Vec<crate::tui::word_nav::WordSegment>) -> (f: Vec<bool>)
    ensures
        f@ == marker_flags(crate::tui::word_nav::seg_views(segs@)),
{
    let mut f: Vec<bool> = Vec::new();
    let mut i: usize = 0;
    while i < segs.len()
        invariant
            0 <= i <= segs.len(),
            f@ =~= marker_flags(crate::tui::word_nav::seg_views(segs@)).take(i as int),
        decreases segs.len() - i,
    {
        let t = str_chars(segs[i].text.as_str());
        f.push(is_paste_marker_chars(&t));
        i = i + 1;
    }
    f
}

proof fn lemma_split_single(s: Seq<char>, c: char)
    requires
        split_on(s, c).len() == 1,
    ensures
        split_on(s, c)[0] == s,
{
    let k = crate::tui::sgr::first_index_of(s, c);
    if !(k >= s.len() || k < 0) {
        lemma_split_nonempty(s.skip(k + 1), c);
    }
}

fn normalize_exec(t: &[char]) -> (r: Vec<char>)
    ensures
        r@ == normalized(t@),
{
    let mut r: Vec<char> = Vec::new();
    let mut i: usize = 0;
    assert(t@.skip(0) =~= t@);
    while i < t.len()
        invariant
            0 <= i <= t.len(),
            r@ + normalized(t@.skip(i as int)) == normalized(t@),
        decreases t.len() - i,
    {
        let ghost s = t@.skip(i as int);
        if t[i] == '\r' && i + 1 < t.len() && t[i + 1] == '\n' {
            r.push('\n');
            assert(s.skip(2) =~= t@.skip(i + 2));
            i = i + 2;
        } else if t[i] == '\t' {
            r.push(' ');
            r.push(' ');
            r.push(' ');
            r.push(' ');
            assert(s.drop_first() =~= t@.skip(i + 1));
            i = i + 1;
        } else {
            r.push(t[i]);
            assert(s.drop_first() =~= t@.skip(i + 1));
            i = i + 1;
        }
    }
    assert(t@.skip(t.len() as int) =~= Seq::<char>::empty());
    assert(r@ + Seq::<char>::empty() =~= r@);
    r
}


// ---------------------------------------------------------------------------
// Pasting
// ---------------------------------------------------------------------------

/// Whether a character beyond ASCII is a decimal digit (Unicode general
/// category Nd), as the `regex` crate's Unicode tables say; these count for
/// `\d` in a pattern along with `0`..`9`.
pub uninterp spec fn unicode_decimal_digit(c: char) -> bool;

/// A character that `\d` matches: an ASCII digit, or a character beyond
/// ASCII that `nd` (the decimal digits beyond ASCII) holds of.
pub open spec fn regex_digit(c: char, nd: spec_fn(char) -> bool) -> bool {
    ('0' <= c && c <= '9') || ((c as u32) >= 128 && nd(c))
}

/// The number of digits from index `i` on.
pub open spec fn digit_run(t: Seq<char>, i: int, nd: spec_fn(char) -> bool) -> int
    decreases t.len() - i,
{
    if 0 <= i < t.len() && regex_digit(t[i], nd) {
        1 + digit_run(t, i + 1, nd)
    } else {
        0
    }
}

/// The length of the CSI-u sequence `ESC [ digits ; 5 u` that starts the
/// text, if one does: all the digits there are, then `;5u`.
pub open spec fn csi_u_at_start(t: Seq<char>, nd: spec_fn(char) -> bool) -> Option<int> {
    if t.len() >= 2 && t[0] == '\x1b' && t[1] == '[' {
        let k = digit_run(t, 2, nd);
        if k >= 1 && t.len() >= 5 + k && t[2 + k] == ';' && t[3 + k] == '5' && t[4 + k] == 'u' {
            Some(5 + k)
        } else {
            None
        }
    } else {
        None
    }
}

/// The CSI-u decoding of a text, with `nd` for the decimal digits beyond
/// ASCII: from left to right, each `ESC [ digits ; 5 u` replaced by what
/// `ctrl_text` makes of its digits, the rest kept.
pub open spec fn csi_u_decoded_with(t: Seq<char>, nd: spec_fn(char) -> bool) -> Seq<char>
    decreases t.len(),
{
    if t.len() == 0 {
        seq![]
    } else {
        match csi_u_at_start(t, nd) {
            Some(n) => if 0 < n <= t.len() {
                ctrl_text(t.subrange(2, n - 3), t.take(n)) + csi_u_decoded_with(t.skip(n), nd)
            } else {
                t
            },
            None => seq![t[0]] + csi_u_decoded_with(t.skip(1), nd),
        }
    }
}

/// The CSI-u decoding of a pasted text, with the Unicode decimal digits.
pub open spec fn csi_u_decoded(t: Seq<char>) -> Seq<char> {
    csi_u_decoded_with(t, |c: char| unicode_decimal_digit(c))
}

/// A text without an escape character decodes to itself.
pub proof fn lemma_csi_u_plain(t: Seq<char>, nd: spec_fn(char) -> bool)
    requires
        !t.contains('\x1b'),
    ensures
        csi_u_decoded_with(t, nd) == t,
    decreases t.len(),
{
    if t.len() > 0 {
        assert(t[0] != '\x1b') by {
            if t[0] == '\x1b' {
                assert(t.contains('\x1b'));
            }
        }
        assert(!t.skip(1).contains('\x1b')) by {
            if t.skip(1).contains('\x1b') {
                let i = choose|i: int| 0 <= i < t.skip(1).len() && t.skip(1)[i] == '\x1b';
                assert(t[i + 1] == '\x1b');
            }
        }
        lemma_csi_u_plain(t.skip(1), nd);
        assert(seq![t[0]] + t.skip(1) =~= t);
    }
}

/// `str::parse::<u32>`, read as 0 where it fails.
pub open spec fn parsed_u32_or_zero(s: Seq<char>) -> nat {
    let d = crate::tui::sgr::digits_part(s);
    if d.len() == 0 || !crate::tui::sgr::all_digits(d) || crate::tui::sgr::decimal_value(d) > u32::MAX {
        0
    } else {
        crate::tui::sgr::decimal_value(d)
    }
}

/// The text that a CSI-u sequence with the code `digits` stands for: the
/// control character of Ctrl+letter for `a`..`z` and `A`..`Z`, else the
/// sequence `whole` itself.
pub open spec fn ctrl_text(digits: Seq<char>, whole: Seq<char>) -> Seq<char> {
    let n = parsed_u32_or_zero(digits);
    if 97 <= n <= 122 {
        seq![((n - 96) as u32) as char]
    } else if 65 <= n <= 90 {
        seq![((n - 64) as u32) as char]
    } else {
        whole
    }
}

/// `str::parse::<u32>` on characters, 0 where it fails.
pub fn parse_u32_or_zero(s: &[char]) -> (r: u32)
    ensures
        r == parsed_u32_or_zero(s@),
{
    let start: usize = if s.len() > 0 && s[0] == '+' { 1 } else { 0 };
    let d = sub_chars(s, start, s.len());
    assert(d@ =~= crate::tui::sgr::digits_part(s@));
    if d.len() == 0 {
        return 0;
    }
    let mut k: usize = 0;
    while k < d.len()
        invariant
            0 <= k <= d.len(),
            d@ == crate::tui::sgr::digits_part(s@),
            forall|i: int| 0 <= i < k ==> '0' <= #[trigger] d@[i] && d@[i] <= '9',
        decreases d.len() - k,
    {
        if !('0' <= d[k] && d[k] <= '9') {
            assert(!crate::tui::sgr::all_digits(d@));
            return 0;
        }
        k = k + 1;
    }
    let mut v: u64 = 0;
    let mut k: usize = 0;
    while k < d.len()
        invariant
            0 <= k <= d.len(),
            d@ == crate::tui::sgr::digits_part(s@),
            crate::tui::sgr::all_digits(d@),
            v == crate::tui::sgr::decimal_value(d@.take(k as int)),
            v <= u32::MAX,
        decreases d.len() - k,
    {
        assert(d@.take(k + 1).drop_last() =~= d@.take(k as int));
        let digit = (d[k] as u64) - 48;
        let nv = v * 10 + digit;
        assert(d@.take(k + 1).last() == d@[k as int]);
        assert(crate::tui::sgr::decimal_value(d@.take(k + 1)) == nv);
        if nv > 0xffff_ffffu64 {
            proof {
                crate::tui::sgr::lemma_decimal_prefix_le(d@, k + 1);
            }
            return 0;
        }
        v = nv;
        k = k + 1;
    }
    assert(d@.take(d.len() as int) =~= d@);
    v as u32
}

/// The replacement for one CSI-u sequence `whole` with the code `digits`.
pub fn ctrl_char_for(digits: &str, whole: &str) -> (r: String)
    ensures
        r@ == ctrl_text(digits@, whole@),
{
    let d = str_chars(digits);
    let n = parse_u32_or_zero(&d);
    let mut r = String::new();
    if 97 <= n && n <= 122 {
        let c = char_of_code(n - 96);
        crate::tui::strs::push_char(&mut r, c);
    } else if 65 <= n && n <= 90 {
        let c = char_of_code(n - 64);
        crate::tui::strs::push_char(&mut r, c);
    } else {
        return string_from_str(whole);
    }
    r
}

/// The character with a code below 32.
fn char_of_code(n: u32) -> (c: char)
    requires
        n < 32,
    ensures
        c == n as char,
{
    let b = n as u8;
    b as char
}

/// Decodes the CSI-u sequences that terminals write for control bytes inside
/// a bracketed paste, by `regex::Regex::replace_all` with the pattern
/// `\x1b\[(\d+);5u`, each match replaced by what the verified
/// `ctrl_char_for` returns for its digits. Trusted: that `replace_all` takes
/// the leftmost matches that do not overlap, from left to right, which is
/// `csi_u_decoded`; which characters beyond ASCII `\d` accepts is left to
/// the crate's tables (`unicode_decimal_digit`).
#[verifier::external_body]
fn decode_csi_u(text: &str) -> (r: String)
    ensures
        r@ == csi_u_decoded_with(text@, |c: char| unicode_decimal_digit(c)),
{
    let re = regex::Regex::new(r"\x1b\[(\d+);5u").unwrap();
    re.replace_all(text, |caps: &regex::Captures| ctrl_char_for(&caps[1], &caps[0])).to_string()
}

/// `\r\n` and `\r` as `\n`, tabs as four spaces.
fn paste_normalize_exec(t: &[char]) -> (r: Vec<char>)
    ensures
        r@ == crate::tui::components::editor_model::paste_normalized(t@),
{
    let mut r: Vec<char> = Vec::new();
    let mut i: usize = 0;
    assert(t@.skip(0) =~= t@);
    while i < t.len()
        invariant
            0 <= i <= t.len(),
            r@ + crate::tui::components::editor_model::paste_normalized(t@.skip(i as int))
                == crate::tui::components::editor_model::paste_normalized(t@),
        decreases t.len() - i,
    {
        let ghost s = t@.skip(i as int);
        if t[i] == '\r' && i + 1 < t.len() && t[i + 1] == '\n' {
            r.push('\n');
            assert(s.skip(2) =~= t@.skip(i + 2));
            i = i + 2;
        } else if t[i] == '\r' {
            r.push('\n');
            assert(s.drop_first() =~= t@.skip(i + 1));
            i = i + 1;
        } else if t[i] == '\t' {
            r.push(' ');
            r.push(' ');
            r.push(' ');
            r.push(' ');
            assert(s.drop_first() =~= t@.skip(i + 1));
            i = i + 1;
        } else {
            r.push(t[i]);
            assert(s.drop_first() =~= t@.skip(i + 1));
            i = i + 1;
        }
    }
    assert(t@.skip(t.len() as int) =~= Seq::<char>::empty());
    assert(r@ + Seq::<char>::empty() =~= r@);
    r
}

/// Only newlines, spaces and characters from U+0020 on.
fn printable_only_exec(t: &[char]) -> (r: Vec<char>)
    ensures
        r@ == crate::tui::components::editor_model::printable_only(t@),
{
    let mut r: Vec<char> = Vec::new();
    let mut i: usize = 0;
    proof {
        reveal(Seq::filter);
        assert(t@.take(0) =~= Seq::<char>::empty());
    }
    while i < t.len()
        invariant
            0 <= i <= t.len(),
            r@ == t@.take(i as int).filter(|c: char| c == '\n' || c == ' ' || (c as u32) >= 32),
        decreases t.len() - i,
    {
        let c = t[i];
        proof {
            reveal(Seq::filter);
            assert(t@.take(i + 1).drop_last() =~= t@.take(i as int));
            assert(t@.take(i + 1).last() == c);
        }
        if c == '\n' || c == ' ' || (c as u32) >= 32 {
            r.push(c);
        }
        i = i + 1;
    }
    assert(t@.take(t.len() as int) =~= t@);
    r
}

/// The number of lines `str::lines` counts.
fn line_count_exec(t: &[char]) -> (n: usize)
    ensures
        n == crate::tui::components::editor_model::line_count(t@),
{
    if t.len() == 0 {
        return 0;
    }
    let mut n: usize = 0;
    let mut i: usize = 0;
    proof {
        reveal(Seq::filter);
        assert(t@.take(0) =~= Seq::<char>::empty());
    }
    while i < t.len()
        invariant
            0 <= i <= t.len(),
            n == t@.take(i as int).filter(|c: char| c == '\n').len(),
            n <= i,
            (i > 0 && t@[i - 1] != '\n') ==> n < i,
        decreases t.len() - i,
    {
        proof {
            reveal(Seq::filter);
            assert(t@.take(i + 1).drop_last() =~= t@.take(i as int));
            assert(t@.take(i + 1).last() == t@[i as int]);
        }
        if t[i] == '\n' {
            n = n + 1;
        }
        i = i + 1;
    }
    assert(t@.take(t.len() as int) =~= t@);
    if t[t.len() - 1] == '\n' {
        n
    } else {
        n + 1
    }
}

impl<P: AutocompleteProvider> Editor<P> {
    /// How many pastes are kept aside behind markers.
    pub fn paste_count(&self) -> (n: usize)
        ensures
            n == self.text().pastes.len(),
    {
        self.pastes.len()
    }

    /// Paste a text whose CSI-u sequences are already decoded: line endings
    /// and tabs normalized, control characters dropped, a space put before
    /// a path typed right after a word; a large paste (more than ten lines
    /// or a thousand bytes) is kept aside and a marker inserted for it.
    pub fn handle_decoded_paste(&mut self, decoded: &str)
        requires
            old(self).wf(),
            crate::tui::components::editor_model::paste_is_large(
                crate::tui::components::editor_model::paste_prepared(old(self).text(), decoded@),
            ) ==> old(self).text().paste_counter < u32::MAX,
        ensures
            final(self).wf(),
            final(self).text() == crate::tui::components::editor_model::pasted_text(old(self).text(), decoded@),
            final(self).layout() == old(self).layout(),
            final(self).submissions() == old(self).submissions(),
            final(self).bindings() == old(self).bindings(),
            final(self).reports_changes() == old(self).reports_changes(),
            final(self).changes() == reported(*old(self), joined(final(self).text().lines)),
    {
        self.clear_autocomplete_state();
        self.exit_history();
        self.push_undo();
        let d = str_chars(decoded);
        let n = paste_normalize_exec(&d);
        let f = printable_only_exec(&n);
        let path = f.len() > 0 && (f[0] == '/' || f[0] == '~' || f[0] == '.');
        let mut sp = false;
        if path && self.cursor_col > 0 {
            let c = self.lines[self.cursor_line][self.cursor_col - 1];
            sp = ('a' <= c && c <= 'z') || ('A' <= c && c <= 'Z') || ('0' <= c && c <= '9') || c == '_';
        }
        let mut prepared: Vec<char> = Vec::new();
        if sp {
            prepared.push(' ');
        }
        append_chars(&mut prepared, &f);
        assert(prepared@ =~= crate::tui::components::editor_model::paste_prepared(old(self).text(), decoded@));
        let lc = line_count_exec(&prepared);
        let ps = string_from_chars(&prepared);
        let total = str_byte_len(ps.as_str());
        let large = (if lc > 1 { lc } else { 1 }) > 10 || total > 1000;
        if large {
            let id = self.paste_counter + 1;
            self.paste_counter = id;
            let mut marker = String::new();
            crate::tui::strs::push_str(&mut marker, "[paste #");
            crate::tui::strs::push_decimal(&mut marker, id as usize);
            if lc > 10 {
                crate::tui::strs::push_str(&mut marker, " +");
                crate::tui::strs::push_decimal(&mut marker, lc);
                crate::tui::strs::push_str(&mut marker, " lines]");
            } else {
                crate::tui::strs::push_char(&mut marker, ' ');
                crate::tui::strs::push_decimal(&mut marker, total);
                crate::tui::strs::push_str(&mut marker, " chars]");
            }
            proof {
                reveal_strlit("[paste #");
                reveal_strlit(" +");
                reveal_strlit(" lines]");
                reveal_strlit(" chars]");
            }
            assert(marker@ =~= crate::tui::components::editor_model::paste_marker_text(id, prepared@));
            let ghost before = self.pastes@;
            self.pastes.push((id, prepared));
            assert(pastes_view(self.pastes@) =~= pastes_view(before).push((id, prepared@)));
            self.insert_text_internal(marker.as_str());
        } else {
            self.insert_text_internal(ps.as_str());
        }
        self.report_change();
    }

    /// Paste a text: CSI-u sequences decoded, then as `handle_decoded_paste`.
    pub fn handle_paste(&mut self, text: &str)
        requires
            old(self).wf(),
            old(self).text().paste_counter < u32::MAX,
        ensures
            final(self).wf(),
            final(self).text() == crate::tui::components::editor_model::pasted_text(old(self).text(), csi_u_decoded(text@)),
            !text@.contains('\x1b') ==> final(self).text() == crate::tui::components::editor_model::pasted_text(
                old(self).text(),
                text@,
            ),
            final(self).layout() == old(self).layout(),
            final(self).submissions() == old(self).submissions(),
            final(self).bindings() == old(self).bindings(),
            final(self).reports_changes() == old(self).reports_changes(),
            final(self).changes() == reported(*old(self), joined(final(self).text().lines)),
    {
        proof {
            if !text@.contains('\x1b') {
                lemma_csi_u_plain(text@, |c: char| unicode_decimal_digit(c));
            }
        }
        let decoded = decode_csi_u(text);
        self.handle_decoded_paste(decoded.as_str());
    }
}


// ---------------------------------------------------------------------------
// Markers expanded, submitting, paging, jumping
// ---------------------------------------------------------------------------

/// `r` with the markers `m` expanded to `content`.
fn expand_one_exec(r: &[char], m: &[char], content: &[char]) -> (out: Vec<char>)
    requires
        m.len() > 0,
    ensures
        out@ == crate::tui::components::editor_model::expand_one(r@, m@, content@),
{
    let mut out: Vec<char> = Vec::new();
    let mut rest = clone_chars(r);
    let close = vec![']'];
    assert(close@ =~= seq![']']);
    while rest.len() > 0
        invariant
            m.len() > 0,
            close@ == seq![']'],
            out@ + crate::tui::components::editor_model::expand_one(rest@, m@, content@)
                == crate::tui::components::editor_model::expand_one(r@, m@, content@),
        decreases rest.len(),
    {
        match crate::tui::components::paste_marker::find_from_exec(&rest, m, 0) {
            None => {
                append_chars(&mut out, &rest);
                return out;
            },
            Some(p) => {
                let end = match crate::tui::components::paste_marker::find_from_exec(&rest, &close, p) {
                    Some(e) => e + 1,
                    None => rest.len(),
                };
                let head = sub_chars(&rest, 0, p);
                append_chars(&mut out, &head);
                append_chars(&mut out, content);
                let tail = sub_chars(&rest, end, rest.len());
                assert(tail@ =~= rest@.skip(end as int));
                rest = tail;
            },
        }
    }
    proof {
        assert(crate::tui::components::editor_model::expand_one(rest@, m@, content@) =~= rest@) by {
            crate::tui::components::paste_marker::lemma_find_from_bounds(rest@, m@, 0);
        }
    }
    assert(out@ + rest@ =~= out@);
    out
}

/// `text` with the markers of `pastes` expanded, the newest paste first.
fn expand_all_exec(text: &[char], pastes: &Vec<(u32, Vec<char>)>) -> (r: Vec<char>)
    ensures
        r@ == crate::tui::components::editor_model::expand_all(text@, pastes_view(pastes@)),
{
    let mut r = clone_chars(text);
    let mut i = pastes.len();
    assert(pastes_view(pastes@).take(i as int) =~= pastes_view(pastes@));
    while i > 0
        invariant
            i <= pastes.len(),
            crate::tui::components::editor_model::expand_all(text@, pastes_view(pastes@))
                == crate::tui::components::editor_model::expand_all(r@, pastes_view(pastes@).take(i as int)),
        decreases i,
    {
        let id = pastes[i - 1].0;
        let mut m = String::new();
        crate::tui::strs::push_str(&mut m, "[paste #");
        crate::tui::strs::push_decimal(&mut m, id as usize);
        crate::tui::strs::push_char(&mut m, ' ');
        proof {
            reveal_strlit("[paste #");
        }
        let mc = str_chars(m.as_str());
        assert(mc@ == crate::tui::components::editor_model::marker_head(id) + seq![' ']);
        let ghost t = pastes_view(pastes@).take(i as int);
        assert(t.last() == (id, pastes@[i - 1].1@));
        assert(t.drop_last() =~= pastes_view(pastes@).take(i - 1));
        r = expand_one_exec(&r, &mc, &pastes[i - 1].1);
        i = i - 1;
    }
    assert(pastes_view(pastes@).take(0) =~= Seq::<(u32, Seq<char>)>::empty());
    r
}

/// After a submit: the text emptied, the pastes and the undo history
/// dropped, history browsing left.
pub open spec fn submitted_text(v: TextView) -> TextView {
    TextView {
        lines: seq![seq![]],
        line: 0,
        col: 0,
        scroll: 0,
        pastes: seq![],
        paste_counter: 0,
        undo: seq![],
        last: None,
        preferred: None,
        history_index: -1,
        draft: None,
        ..v
    }
}

/// The lines a page scrolls: 30% of the terminal rows, at least five.
pub open spec fn page_size_of(rows: nat) -> nat {
    if 3 * rows / 10 > 5 {
        3 * rows / 10
    } else {
        5
    }
}

/// The first index at or after `i` holding `c`, or -1.
pub open spec fn first_at_or_after(s: Seq<char>, c: char, i: int) -> int
    decreases s.len() - i,
{
    if i < 0 || i >= s.len() {
        -1
    } else if s[i] == c {
        i
    } else {
        first_at_or_after(s, c, i + 1)
    }
}

/// The last index before `i` holding `c`, or -1.
pub open spec fn last_before(s: Seq<char>, c: char, i: int) -> int
    decreases i,
{
    if i <= 0 || i > s.len() {
        -1
    } else if s[i - 1] == c {
        i - 1
    } else {
        last_before(s, c, i - 1)
    }
}

/// Where a forward jump to `c` lands: the first `c` from column `from` of
/// line `l`, then from the start of each later line.
pub open spec fn jump_forward_from(ls: Seq<Seq<char>>, c: char, l: int, from: int) -> Option<(int, int)>
    decreases ls.len() - l,
{
    if l < 0 || l >= ls.len() {
        None
    } else if first_at_or_after(ls[l], c, from) >= 0 {
        Some((l, first_at_or_after(ls[l], c, from)))
    } else {
        jump_forward_from(ls, c, l + 1, 0)
    }
}

/// Where a backward jump to `c` lands: the last `c` before column `before`
/// of line `l`, then the last one of each earlier line.
pub open spec fn jump_backward_from(ls: Seq<Seq<char>>, c: char, l: int, before: int) -> Option<(int, int)>
    decreases l + 1,
{
    if l < 0 || l >= ls.len() {
        None
    } else if last_before(ls[l], c, before) >= 0 {
        Some((l, last_before(ls[l], c, before)))
    } else if l == 0 {
        None
    } else {
        jump_backward_from(ls, c, l - 1, ls[l - 1].len() as int)
    }
}

/// A jump needs a one-byte character where its search starts: forward,
/// the character under the cursor; backward, the one before it.
pub open spec fn jump_ok(v: TextView, dir: JumpDirection) -> bool {
    match dir {
        JumpDirection::Forward => v.col < cur(v).len() && crate::tui::strs::utf8_width(cur(v)[v.col as int]) == 1,
        JumpDirection::Backward => v.col > 0 ==> crate::tui::strs::utf8_width(cur(v)[v.col - 1]) == 1,
    }
}

/// After a jump to `c`: forward skips the character under the cursor,
/// backward the one before it; no match leaves the cursor.
pub open spec fn jumped(v: TextView, c: char, dir: JumpDirection) -> TextView {
    let t = match dir {
        JumpDirection::Forward => jump_forward_from(v.lines, c, v.line as int, v.col + 1int),
        JumpDirection::Backward => jump_backward_from(v.lines, c, v.line as int, v.col - 1),
    };
    match t {
        Some((l, k)) => TextView { line: l as nat, col: k as nat, preferred: None, ..v },
        None => v,
    }
}

proof fn lemma_first_bounds(s: Seq<char>, c: char, i: int)
    ensures
        first_at_or_after(s, c, i) == -1 || (i <= first_at_or_after(s, c, i) < s.len() && s[first_at_or_after(s, c, i)] == c),
    decreases s.len() - i,
{
    if !(i < 0 || i >= s.len()) && s[i] != c {
        lemma_first_bounds(s, c, i + 1);
    }
}

proof fn lemma_last_bounds(s: Seq<char>, c: char, i: int)
    ensures
        last_before(s, c, i) == -1 || (0 <= last_before(s, c, i) < i && s[last_before(s, c, i)] == c),
    decreases i,
{
    if !(i <= 0 || i > s.len()) && s[i - 1] != c {
        lemma_last_bounds(s, c, i - 1);
    }
}

proof fn lemma_forward_bounds(ls: Seq<Seq<char>>, c: char, l: int, from: int)
    ensures
        match jump_forward_from(ls, c, l, from) {
            Some((a, k)) => 0 <= a < ls.len() && 0 <= k < ls[a].len(),
            None => true,
        },
    decreases ls.len() - l,
{
    if !(l < 0 || l >= ls.len()) {
        lemma_first_bounds(ls[l], c, from);
        if first_at_or_after(ls[l], c, from) < 0 {
            lemma_forward_bounds(ls, c, l + 1, 0);
        }
    }
}

proof fn lemma_backward_bounds(ls: Seq<Seq<char>>, c: char, l: int, before: int)
    ensures
        match jump_backward_from(ls, c, l, before) {
            Some((a, k)) => 0 <= a < ls.len() && 0 <= k < ls[a].len(),
            None => true,
        },
    decreases l + 1,
{
    if !(l < 0 || l >= ls.len()) {
        lemma_last_bounds(ls[l], c, before);
        if last_before(ls[l], c, before) < 0 && l != 0 {
            lemma_backward_bounds(ls, c, l - 1, ls[l - 1].len() as int);
        }
    }
}

fn first_at_or_after_exec(s: &[char], c: char, i: usize) -> (r: Option<usize>)
    ensures
        match r {
            Some(k) => k == first_at_or_after(s@, c, i as int),
            None => first_at_or_after(s@, c, i as int) == -1,
        },
{
    let mut k = i;
    while k < s.len()
        invariant
            i <= k,
            first_at_or_after(s@, c, i as int) == first_at_or_after(s@, c, k as int),
        decreases s.len() - k,
    {
        if s[k] == c {
            return Some(k);
        }
        k = k + 1;
    }
    None
}

fn last_before_exec(s: &[char], c: char, i: usize) -> (r: Option<usize>)
    requires
        i <= s.len(),
    ensures
        match r {
            Some(k) => k == last_before(s@, c, i as int),
            None => last_before(s@, c, i as int) == -1,
        },
{
    let mut k = i;
    while k > 0
        invariant
            k <= i <= s.len(),
            last_before(s@, c, i as int) == last_before(s@, c, k as int),
        decreases k,
    {
        if s[k - 1] == c {
            return Some(k - 1);
        }
        k = k - 1;
    }
    None
}

impl<P: AutocompleteProvider> Editor<P> {
    /// `text` with the paste markers expanded to what was pasted, the
    /// newest paste first; each marker runs from `[paste #N ` to the next `]`.
    pub fn expand_paste_markers(&self, text: &str) -> (r: String)
        ensures
            r@ == crate::tui::components::editor_model::expand_all(text@, self.text().pastes),
    {
        let t = str_chars(text);
        let e = expand_all_exec(&t, &self.pastes);
        string_from_chars(&e)
    }

    /// The text with the paste markers expanded.
    pub fn get_expanded_text(&self) -> (r: String)
        requires
            self.wf(),
        ensures
            r@ == crate::tui::components::editor_model::expand_all(joined(self.text().lines), self.text().pastes),
    {
        let t = self.get_text();
        self.expand_paste_markers(t.as_str())
    }

    /// Submit: the text, markers expanded, is handed on; the editor empties.
    fn submit(&mut self)
        requires
            old(self).wf(),
        ensures
            final(self).wf(),
            final(self).submissions() == old(self).submissions().push(
                crate::tui::components::editor_model::expand_all(joined(old(self).text().lines), old(self).text().pastes),
            ),
            final(self).text() == submitted_text(old(self).text()),
            final(self).layout() == old(self).layout(),
            final(self).just_submitted,
            final(self).bindings() == old(self).bindings(),
            log_kept(*final(self), *old(self)),
    {
        let result = self.get_expanded_text();
        self.lines = vec![Vec::new()];
        self.cursor_line = 0;
        self.cursor_col = 0;
        self.scroll_offset = 0;
        self.pastes = Vec::new();
        self.paste_counter = 0;
        self.undo_stack.clear();
        self.last_action = None;
        self.preferred_col = None;
        self.history_index = -1;
        self.history_draft = None;
        self.just_submitted = true;
        let ghost before = self.submitted@;
        self.submitted.push(result);
        assert(strs_view(self.submitted@) =~= strs_view(before).push(result@));
        assert(self.text().lines =~= seq![Seq::<char>::empty()]);
        assert(self.text().pastes =~= Seq::<(u32, Seq<char>)>::empty());
        assert(self.text().undo =~= Seq::<Snap>::empty());
    }

    /// The lines a page scrolls.
    fn page_size(&self) -> (n: usize)
        ensures
            n == page_size_of(self.layout().0),
    {
        let rows = self.terminal_rows;
        let p = rows / 10 * 3 + rows % 10 * 3 / 10;
        assert(p == 3 * rows / 10) by (nonlinear_arith)
            requires
                p == rows / 10 * 3 + rows % 10 * 3 / 10,
        {
            let q = rows / 10;
            let r = rows % 10;
            assert(rows == 10 * q + r);
            assert(3 * rows == 10 * (3 * q) + 3 * r);
        }
        if p > 5 {
            p
        } else {
            5
        }
    }

    /// Scroll a page up.
    fn page_up(&mut self)
        requires
            old(self).wf(),
        ensures
            final(self).wf(),
            final(self).text() == (TextView {
                scroll: if old(self).text().scroll >= page_size_of(old(self).layout().0) {
                    (old(self).text().scroll - page_size_of(old(self).layout().0)) as nat
                } else {
                    0
                },
                ..old(self).text()
            }),
            final(self).layout() == old(self).layout(),
            final(self).submissions() == old(self).submissions(),
            log_kept(*final(self), *old(self)),
            final(self).bindings() == old(self).bindings(),
    {
        let size = self.page_size();
        self.scroll_offset = if self.scroll_offset >= size { self.scroll_offset - size } else { 0 };
    }

    /// Scroll a page down.
    fn page_down(&mut self)
        requires
            old(self).wf(),
            old(self).text().scroll + page_size_of(old(self).layout().0) <= usize::MAX,
        ensures
            final(self).wf(),
            final(self).text() == (TextView {
                scroll: old(self).text().scroll + page_size_of(old(self).layout().0),
                ..old(self).text()
            }),
            final(self).layout() == old(self).layout(),
            final(self).submissions() == old(self).submissions(),
            log_kept(*final(self), *old(self)),
            final(self).bindings() == old(self).bindings(),
    {
        let size = self.page_size();
        self.scroll_offset = self.scroll_offset + size;
    }

    /// Jump to the next (or previous) occurrence of `ch`, across lines.
    fn jump_to_char(&mut self, ch: char, dir: JumpDirection)
        requires
            old(self).wf(),
            jump_ok(old(self).text(), dir),
        ensures
            final(self).wf(),
            final(self).text() == jumped(old(self).text(), ch, dir),
            final(self).layout() == old(self).layout(),
            final(self).submissions() == old(self).submissions(),
            log_kept(*final(self), *old(self)),
            final(self).bindings() == old(self).bindings(),
    {
        let ghost v = self.text();
        assert(views(self.lines@) == v.lines);
        assert(self.lines@[self.cursor_line as int]@ == cur(v));
        let t = match dir {
            JumpDirection::Forward => {
                let n = self.lines[self.cursor_line].len();
                assert(n == cur(v).len());
                assert(v.col < cur(v).len());
                jump_forward_target(&self.lines, ch, self.cursor_line, self.cursor_col + 1)
            },
            JumpDirection::Backward => {
                proof {
                    if v.col == 0 {
                        assert(last_before(v.lines[v.line as int], ch, -1) == -1);
                        assert(last_before(v.lines[v.line as int], ch, 0) == -1);
                    }
                }
                jump_backward_target(&self.lines, ch, self.cursor_line, if self.cursor_col > 0 { self.cursor_col - 1 } else { 0 })
            },
        };
        match t {
            Some((l, k)) => {
                self.cursor_line = l;
                self.cursor_col = k;
                self.preferred_col = None;
            },
            None => {},
        }
    }
}

/// Where a forward jump from line `l`, column `from`, lands.
fn jump_forward_target(lines: &Vec<Vec<char>>, ch: char, l0: usize, from0: usize) -> (r: Option<(usize, usize)>)
    requires
        l0 < lines.len(),
    ensures
        match r {
            Some((a, k)) => jump_forward_from(views(lines@), ch, l0 as int, from0 as int) == Some((a as int, k as int))
                && a < lines.len() && k < lines@[a as int].len(),
            None => jump_forward_from(views(lines@), ch, l0 as int, from0 as int) is None,
        },
{
    let ghost ls = views(lines@);
    proof {
        lemma_forward_bounds(ls, ch, l0 as int, from0 as int);
    }
    let mut l = l0;
    let mut from = from0;
    while l < lines.len()
        invariant
            ls == views(lines@),
            l <= lines.len(),
            jump_forward_from(ls, ch, l0 as int, from0 as int) == jump_forward_from(ls, ch, l as int, from as int),
        decreases lines.len() - l,
    {
        assert(ls[l as int] == lines@[l as int]@);
        proof {
            lemma_first_bounds(ls[l as int], ch, from as int);
        }
        match first_at_or_after_exec(&lines[l], ch, from) {
            Some(k) => {
                return Some((l, k));
            },
            None => {},
        }
        l = l + 1;
        from = 0;
    }
    None
}

/// Where a backward jump from line `l`, before column `before`, lands.
fn jump_backward_target(lines: &Vec<Vec<char>>, ch: char, l0: usize, before0: usize) -> (r: Option<(usize, usize)>)
    requires
        l0 < lines.len(),
        before0 <= lines@[l0 as int].len(),
    ensures
        match r {
            Some((a, k)) => jump_backward_from(views(lines@), ch, l0 as int, before0 as int) == Some((a as int, k as int))
                && a < lines.len() && k < lines@[a as int].len(),
            None => jump_backward_from(views(lines@), ch, l0 as int, before0 as int) is None,
        },
{
    let ghost ls = views(lines@);
    proof {
        lemma_backward_bounds(ls, ch, l0 as int, before0 as int);
    }
    let mut l = l0;
    let mut before = before0;
    loop
        invariant
            ls == views(lines@),
            l < lines.len(),
            before <= lines@[l as int].len(),
            jump_backward_from(ls, ch, l0 as int, before0 as int) == jump_backward_from(ls, ch, l as int, before as int),
        decreases l,
    {
        assert(ls[l as int] == lines@[l as int]@);
        proof {
            lemma_last_bounds(ls[l as int], ch, before as int);
        }
        match last_before_exec(&lines[l], ch, before) {
            Some(k) => {
                return Some((l, k));
            },
            None => {},
        }
        if l == 0 {
            return None;
        }
        l = l - 1;
        before = lines[l].len();
    }
}


impl<P: AutocompleteProvider> Editor<P> {
    /// Draw the editor at `width`: the box of visual lines with the cursor,
    /// scrolled to show it, and the autocomplete list under it. The width
    /// text was laid out in is kept for vertical moves.
    #[verifier::rlimit(60)]
    pub fn render(&mut self, width: usize) -> (r: Vec<String>)
        requires
            old(self).wf(),
            crate::tui::components::editor_layout::layout_ok(
                old(self).text().lines,
                crate::tui::components::editor_layout::render_widths(width as nat, old(self).layout().1).2 as int,
            ),
        ensures
            final(self).wf(),
            final(self).text() == old(self).text(),
            final(self).layout() == (
                old(self).layout().0,
                old(self).layout().1,
                crate::tui::components::editor_layout::render_widths(width as nat, old(self).layout().1).2,
                old(self).layout().3,
            ),
            final(self).autocomplete_lines(width as nat) == old(self).autocomplete_lines(width as nat),
            strs_view(r@) == crate::tui::components::editor_layout::editor_box(
                old(self).text().lines,
                old(self).text().line,
                old(self).text().col,
                old(self).text().scroll,
                old(self).layout().0,
                old(self).layout().1,
                old(self).layout().3,
                old(self).border(),
                width as nat,
            ) + old(self).autocomplete_lines(width as nat),
    {
        let (pad_x, cw, lw) = crate::tui::components::editor_layout::render_widths_exec(width, self.padding_x);
        self.last_width = lw;
        let ghost v = self.text();
        assert(views(self.lines@) == v.lines);
        let vls = crate::tui::components::editor_layout::layout_chars(&self.lines, lw, self.cursor_line, self.cursor_col);
        let ghost vv = crate::tui::components::editor_layout::vls_view(vls@);
        let total = if vls.len() > 1 { vls.len() } else { 1 };
        let cv = crate::tui::components::editor_layout::cursor_index(&vls);
        let mv = self.page_size();
        let scroll = crate::tui::components::editor_layout::view_scroll_exec(self.scroll_offset, cv, mv, total);
        let vend = if mv < total - scroll { scroll + mv } else { total };
        let avail = if vend < vls.len() { vend } else { vls.len() };
        let mut result: Vec<String> = Vec::new();
        let top = if scroll > 0 {
            let t = crate::tui::components::editor_layout::indicator_rule_exec('↑', scroll, width);
            self.border_color.apply(t.as_str())
        } else {
            let mut t = String::new();
            crate::tui::strs::push_repeat(&mut t, '─', width);
            self.border_color.apply(t.as_str())
        };
        result.push(top);
        let mut k = scroll;
        let ghost head = strs_view(result@);
        let ghost n: nat = if avail > scroll { (avail - scroll) as nat } else { 0 };
        let ghost body = Seq::new(
            n,
            |j: int| crate::tui::components::editor_layout::content_line(vv[scroll + j], v_focused(self), pad_x as nat, cw as nat),
        );
        while k < avail
            invariant
                vv == crate::tui::components::editor_layout::vls_view(vls@),
                avail <= vls.len(),
                scroll <= k,
                k <= avail || avail <= scroll,
                n == (if avail > scroll { (avail - scroll) as nat } else { 0nat }),
                body == Seq::new(
                    n,
                    |j: int| crate::tui::components::editor_layout::content_line(vv[scroll + j], v_focused(self), pad_x as nat, cw as nat),
                ),
                strs_view(result@) == head + body.take(k - scroll),
            decreases avail - k,
        {
            let line = crate::tui::components::editor_layout::content_line_exec(&vls[k], self.focused, pad_x, cw);
            let ghost before = strs_view(result@);
            result.push(line);
            assert(strs_view(result@) =~= before.push(line@));
            assert(vv[k as int] == crate::tui::components::editor_layout::vl_view(vls@[k as int]));
            assert(body.take(k + 1 - scroll) =~= body.take(k - scroll).push(body[k - scroll]));
            k = k + 1;
        }
        assert(body.take(if avail > scroll { avail - scroll } else { 0 }) =~= body);
        let below = total - vend;
        let bottom = if below > 0 {
            let t = crate::tui::components::editor_layout::indicator_rule_exec('↓', below, width);
            self.border_color.apply(t.as_str())
        } else {
            let mut t = String::new();
            crate::tui::strs::push_repeat(&mut t, '─', width);
            self.border_color.apply(t.as_str())
        };
        let ghost before_bottom = strs_view(result@);
        result.push(bottom);
        assert(strs_view(result@) =~= before_bottom.push(bottom@));
        if self.autocomplete_active {
            match &self.autocomplete_list {
                Some(list) => {
                    let extra = list.render(width);
                    let ghost b = strs_view(result@);
                    let mut j: usize = 0;
                    while j < extra.len()
                        invariant
                            0 <= j <= extra.len(),
                            strs_view(result@) == b + strs_view(extra@).take(j as int),
                        decreases extra.len() - j,
                    {
                        let e = string_from_str(extra[j].as_str());
                        let ghost pb = strs_view(result@);
                        result.push(e);
                        assert(strs_view(result@) =~= pb.push(extra@[j as int]@));
                        assert(strs_view(extra@).take(j + 1) =~= strs_view(extra@).take(j as int).push(extra@[j as int]@));
                        j = j + 1;
                    }
                    assert(strs_view(extra@).take(extra.len() as int) =~= strs_view(extra@));
                },
                None => {},
            }
        }
        assert(strs_view(result@) =~= crate::tui::components::editor_layout::editor_box(
            v.lines,
            v.line,
            v.col,
            v.scroll,
            self.terminal_rows as nat,
            self.padding_x as nat,
            self.focused,
            self.border_color,
            width as nat,
        ) + self.autocomplete_lines(width as nat));
        result
    }
}

/// Whether the editor has focus.
pub closed spec fn v_focused<P>(e: &Editor<P>) -> bool {
    e.focused
}


// ---------------------------------------------------------------------------
// Moving up and down by visual lines
// ---------------------------------------------------------------------------

/// The cursor moved from span `cur` to span `tgt` (see `vertical_target`),
/// rounded down to a character and moved out of a paste marker.
pub open spec fn moved_to_visual(v: TextView, sp: Seq<crate::tui::components::editor_layout::Span>, cur: int, tgt: int) -> TextView {
    let b = byte_col(v);
    let (mc, np) = crate::tui::components::editor_layout::vertical_target(sp, cur, tgt, b, v.preferred);
    let li = sp[tgt].0;
    let line = v.lines[li];
    let lb = byte_len(line) as int;
    let raw = sp[tgt].1 + mc;
    let cb = if raw < lb { raw } else { lb };
    let c = snapped(line, chars_within(line, cb), tgt < cur);
    TextView { line: li as nat, col: c as nat, preferred: np, ..v }
}

/// One visual line up or down in text laid out at `width`; nothing at the
/// first or last.
pub open spec fn vertically_moved(v: TextView, width: int, up: bool) -> TextView {
    let sp = crate::tui::components::editor_layout::spans_from(v.lines, 0, width);
    let cur = crate::tui::components::editor_layout::current_span_from(sp, v.line as int, byte_col(v), 0);
    if up {
        if cur == 0 {
            v
        } else {
            moved_to_visual(v, sp, cur, cur - 1)
        }
    } else {
        if cur + 1 >= sp.len() {
            v
        } else {
            moved_to_visual(v, sp, cur, cur + 1)
        }
    }
}

impl<P: AutocompleteProvider> Editor<P> {
    /// The cursor's byte column.
    fn cursor_byte(&self) -> (b: usize)
        requires
            self.wf(),
        ensures
            b == byte_col(self.text()),
    {
        let l = &self.lines[self.cursor_line];
        let s = string_from_chars(l);
        let _n = str_byte_len(s.as_str());
        byte_offset_of(l, self.cursor_col)
    }

    /// One visual line up (or down), in the width of the last layout.
    #[verifier::rlimit(40)]
    fn move_vertical(&mut self, up: bool)
        requires
            old(self).wf(),
            crate::tui::components::editor_layout::spans_ok(old(self).text().lines, old(self).layout().2 as int),
        ensures
            final(self).wf(),
            final(self).text() == vertically_moved(old(self).text(), old(self).layout().2 as int, up),
            final(self).layout() == old(self).layout(),
            final(self).submissions() == old(self).submissions(),
            log_kept(*final(self), *old(self)),
            final(self).bindings() == old(self).bindings(),
            final(self).autocomplete_list == old(self).autocomplete_list,
    {
        let ghost v = self.text();
        assert(views(self.lines@) == v.lines);
        let spans = crate::tui::components::editor_layout::build_visual_line_spans(&self.lines, self.last_width);
        let b = self.cursor_byte();
        let cur = crate::tui::components::editor_layout::find_current_visual_line(&spans, self.cursor_line, b);
        let tgt = if up {
            if cur == 0 {
                return;
            }
            cur - 1
        } else {
            if spans.len() == 0 || cur >= spans.len() - 1 {
                return;
            }
            cur + 1
        };
        let ghost sp = crate::tui::components::editor_layout::spans_view(spans@);
        let src_max = crate::tui::components::editor_layout::span_max_exec(&spans, cur);
        let tgt_max = crate::tui::components::editor_layout::span_max_exec(&spans, tgt);
        let too_short = tgt_max < b;
        let (mc, np): (usize, Option<usize>) = match self.preferred_col {
            Some(p) => {
                if b < src_max {
                    if too_short { (tgt_max, Some(b)) } else { (b, None) }
                } else if too_short || tgt_max < p {
                    (tgt_max, Some(p))
                } else {
                    (p, None)
                }
            },
            None => if too_short { (tgt_max, Some(b)) } else { (b, None) },
        };
        let (li, start, _len) = spans[tgt];
        assert(sp[tgt as int].0 == li);
        let line = clone_chars(&self.lines[li]);
        let ls = string_from_chars(&line);
        let lb = str_byte_len(ls.as_str());
        let cb = if start >= lb || mc >= lb - start { lb } else { start + mc };
        let c0 = char_index_of_byte(&line, cb);
        let c = snap_paste_marker(&line, c0, tgt < cur);
        self.cursor_line = li;
        self.cursor_col = c;
        self.preferred_col = np;
    }
}

impl Editor<NoAutocomplete> {
    /// Whether a segment is a paste marker: starts with `[paste #` and ends with `]`.
    pub fn is_paste_marker(segment: &str) -> (r: bool)
        ensures
            r == is_marker(segment@),
    {
        let t = str_chars(segment);
        is_paste_marker_chars(&t)
    }

    /// An empty editor.
    pub fn new(theme: EditorTheme, options: EditorOptions) -> (e: Self)
        ensures
            e.wf(),
            e.text().lines == seq![Seq::<char>::empty()],
            e.text().line == 0 && e.text().col == 0,
            e.text().kill.len() == 0 && e.text().undo.len() == 0 && e.text().history.len() == 0,
            e.text().history_index == -1 && e.text().draft is None && e.text().last is None,
            e.text().pastes.len() == 0 && e.text().paste_counter == 0 && e.text().scroll == 0,
            e.text().preferred is None,
            e.layout() == (24nat, options.padding_x as nat, 80nat, false),
            e.submissions().len() == 0,
            e.changes().len() == 0,
            !e.reports_changes(),
            e.bindings() == bindings_map(default_entries()),
    {
        let e = Editor {
            lines: vec![Vec::new()],
            cursor_line: 0,
            cursor_col: 0,
            padding_x: options.padding_x,
            max_visible_lines: if options.max_visible_lines > 3 { options.max_visible_lines } else { 3 },
            scroll_offset: 0,
            theme,
            focused: false,
            kill_ring: KillRing::new(),
            undo_stack: UndoStack::new(),
            history: Vec::new(),
            history_index: -1,
            history_draft: None,
            preferred_col: None,
            last_width: 80,
            last_action: None,
            disable_submit: false,
            jump_mode: None,
            pastes: Vec::new(),
            paste_counter: 0,
            just_submitted: false,
            terminal_rows: 24,
            autocomplete_max_visible: 5,
            autocomplete_list: None,
            autocomplete_active: false,
            autocomplete_prefix: Vec::new(),
            submitted: Vec::new(),
            on_change: false,
            changes: Vec::new(),
            keybindings: Keybindings::with_defaults(),
            border_color: crate::tui::components::select_list::Decoration::new("", ""),
            autocomplete_provider: None,
            last_autocomplete_trigger: crate::tui::components::loader::instant_now(),
        };
        assert(e.text().lines =~= seq![Seq::<char>::empty()]);
        assert(e.text().undo =~= Seq::<Snap>::empty());
        assert(e.text().history =~= Seq::<Seq<char>>::empty());
        assert(e.text().pastes =~= Seq::<(u32, Seq<char>)>::empty());
        assert(e.submissions() =~= Seq::<Seq<char>>::empty());
        assert(e.changes() =~= Seq::<Seq<char>>::empty());
        e
    }

}


// ---------------------------------------------------------------------------
// Autocomplete
// ---------------------------------------------------------------------------

/// The text of the cursor's line before the cursor.
pub open spec fn before_cursor(v: TextView) -> Seq<char> {
    cur(v).take(v.col as int)
}

/// The cursor is at the start of the message: on the first line, with
/// nothing but whitespace, or a lone `/`, before it.
pub open spec fn at_start_of_message(v: TextView) -> bool {
    v.line == 0 && (trim_ws(before_cursor(v)).len() == 0 || trim_ws(before_cursor(v)) == seq!['/'])
}

/// The cursor is in a slash command: on the first line, after a `/` that
/// starts the text (leading whitespace aside).
pub open spec fn in_slash_context(v: TextView) -> bool {
    v.line == 0 && crate::tui::strs::trim_start_ws(before_cursor(v)).len() > 0
        && crate::tui::strs::trim_start_ws(before_cursor(v))[0] == '/'
}

/// The last index before `i` where `s` holds `@` or `#`, or -1.
pub open spec fn last_marker_before(s: Seq<char>, i: int) -> int
    decreases i,
{
    if i <= 0 || i > s.len() {
        -1
    } else if s[i - 1] == '@' || s[i - 1] == '#' {
        i - 1
    } else {
        last_marker_before(s, i - 1)
    }
}

/// The last index before `i` where `s` holds whitespace, or -1.
pub open spec fn last_ws_before(s: Seq<char>, i: int) -> int
    decreases i,
{
    if i <= 0 || i > s.len() {
        -1
    } else if crate::tui::unicode::white_space(s[i - 1]) {
        i - 1
    } else {
        last_ws_before(s, i - 1)
    }
}

/// The token being completed: a slash command typed so far, else the text
/// from the last `@` or `#`, else the word before the cursor.
pub open spec fn autocomplete_prefix_of(v: TextView) -> Seq<char> {
    let b = before_cursor(v);
    if b.len() > 0 && b[0] == '/' && !b.contains(' ') {
        b
    } else if last_marker_before(b, b.len() as int) >= 0 {
        b.skip(last_marker_before(b, b.len() as int))
    } else if last_ws_before(b, b.len() as int) >= 0 {
        b.skip(last_ws_before(b, b.len() as int) + 1)
    } else {
        b
    }
}

/// `s` without leading `/`, `@` and `#`.
pub open spec fn trim_start_markers(s: Seq<char>) -> Seq<char>
    decreases s.len(),
{
    if s.len() > 0 && (s[0] == '/' || s[0] == '@' || s[0] == '#') {
        trim_start_markers(s.drop_first())
    } else {
        s
    }
}

/// The first item from `i` whose value is `p`, or -1.
pub open spec fn first_exact_from(items: Seq<crate::tui::components::select_list::SelectItem>, p: Seq<char>, i: int) -> int
    decreases items.len() - i,
{
    if i < 0 || i >= items.len() {
        -1
    } else if items[i].value@ == p {
        i
    } else {
        first_exact_from(items, p, i + 1)
    }
}

/// The first item from `i` whose value starts with `p`, or -1.
pub open spec fn first_prefixed_from(items: Seq<crate::tui::components::select_list::SelectItem>, p: Seq<char>, i: int) -> int
    decreases items.len() - i,
{
    if i < 0 || i >= items.len() {
        -1
    } else if crate::tui::strs::seq_starts_with(items[i].value@, p) {
        i
    } else {
        first_prefixed_from(items, p, i + 1)
    }
}

/// The item to preselect for `prefix`: an exact match, else the first
/// that starts with it, else the first.
pub open spec fn best_index(items: Seq<crate::tui::components::select_list::SelectItem>, prefix: Seq<char>) -> int {
    let p = trim_start_markers(prefix);
    if p.len() == 0 {
        0
    } else if first_exact_from(items, p, 0) >= 0 {
        first_exact_from(items, p, 0)
    } else if first_prefixed_from(items, p, 0) >= 0 {
        first_prefixed_from(items, p, 0)
    } else {
        0
    }
}

/// The item to preselect.
fn best_autocomplete_index(items: &Vec<crate::tui::components::select_list::SelectItem>, prefix: &[char]) -> (r: usize)
    ensures
        r == best_index(items@, prefix@),
{
    let mut a: usize = 0;
    assert(prefix@.skip(0) =~= prefix@);
    while a < prefix.len() && (prefix[a] == '/' || prefix[a] == '@' || prefix[a] == '#')
        invariant
            0 <= a <= prefix.len(),
            trim_start_markers(prefix@) == trim_start_markers(prefix@.skip(a as int)),
        decreases prefix.len() - a,
    {
        assert(prefix@.skip(a as int).drop_first() =~= prefix@.skip(a + 1));
        a = a + 1;
    }
    let p = sub_chars(prefix, a, prefix.len());
    assert(p@ =~= prefix@.skip(a as int));
    if p.len() == 0 {
        return 0;
    }
    assert(trim_start_markers(prefix@) == p@) by {
        if a < prefix.len() {
            assert(prefix@.skip(a as int)[0] == prefix@[a as int]);
        }
    }
    let mut first_prefix: Option<usize> = None;
    let mut i: usize = 0;
    while i < items.len()
        invariant
            0 <= i <= items.len(),
            p@ == trim_start_markers(prefix@),
            p@.len() > 0,
            first_exact_from(items@, p@, 0) == first_exact_from(items@, p@, i as int),
            match first_prefix {
                Some(k) => first_prefixed_from(items@, p@, 0) == k as int && k < i,
                None => first_prefixed_from(items@, p@, 0) == first_prefixed_from(items@, p@, i as int),
            },
        decreases items.len() - i,
    {
        let v = str_chars(items[i].value.as_str());
        if crate::tui::image::chars_eq(&v, &p) {
            return i;
        }
        if first_prefix.is_none() && crate::tui::strs::chars_start_with(&v, &p) {
            first_prefix = Some(i);
        }
        i = i + 1;
    }
    match first_prefix {
        Some(k) => k,
        None => 0,
    }
}

/// How the autocomplete list is drawn: the selection in reverse video and
/// teal with an arrow, other items, descriptions and the scroll line grey.
fn autocomplete_theme() -> (t: crate::tui::components::select_list::SelectListTheme)
    ensures
        t.selected_prefix.before@ == "\x1b[7m\x1b[38;2;138;190;183m→ "@,
        t.selected_prefix.after@ == "\x1b[27m\x1b[39m"@,
        t.selected_text.before@ == "\x1b[7m\x1b[38;2;138;190;183m"@,
        t.selected_text.after@ == "\x1b[27m\x1b[39m"@,
        t.normal_text.before@ == "\x1b[38;2;128;128;128m"@,
        t.normal_text.after@ == "\x1b[39m"@,
        t.description.before@ == "\x1b[38;2;128;128;128m"@,
        t.description.after@ == "\x1b[39m"@,
        t.scroll_info.before@ == "\x1b[38;2;128;128;128m"@,
        t.scroll_info.after@ == "\x1b[39m"@,
        t.no_match.before@ == ""@,
        t.no_match.after@ == ""@,
        t.hint.before@ == ""@,
        t.hint.after@ == ""@,
{
    crate::tui::components::select_list::SelectListTheme {
        selected_prefix: crate::tui::components::select_list::Decoration::new(
            "\x1b[7m\x1b[38;2;138;190;183m→ ",
            "\x1b[27m\x1b[39m",
        ),
        selected_text: crate::tui::components::select_list::Decoration::new(
            "\x1b[7m\x1b[38;2;138;190;183m",
            "\x1b[27m\x1b[39m",
        ),
        normal_text: crate::tui::components::select_list::Decoration::new("\x1b[38;2;128;128;128m", "\x1b[39m"),
        description: crate::tui::components::select_list::Decoration::new("\x1b[38;2;128;128;128m", "\x1b[39m"),
        scroll_info: crate::tui::components::select_list::Decoration::new("\x1b[38;2;128;128;128m", "\x1b[39m"),
        no_match: crate::tui::components::select_list::Decoration::new("", ""),
        hint: crate::tui::components::select_list::Decoration::new("", ""),
    }
}

/// Whether `s` holds `c`.
fn has_char(s: &[char], c: char) -> (r: bool)
    ensures
        r == s@.contains(c),
{
    let mut i: usize = 0;
    while i < s.len()
        invariant
            0 <= i <= s.len(),
            forall|k: int| 0 <= k < i ==> s@[k] != c,
        decreases s.len() - i,
    {
        if s[i] == c {
            return true;
        }
        i = i + 1;
    }
    false
}

/// The index of the first character of `s` that is not whitespace.
pub fn leading_ws_pub(s: &[char]) -> (i: usize)
    ensures
        i <= s.len(),
        crate::tui::strs::trim_start_ws(s@) == s@.skip(i as int),
{
    leading_ws(s)
}

/// The index of the first character of `s` that is not whitespace.
fn leading_ws(s: &[char]) -> (i: usize)
    ensures
        i <= s.len(),
        crate::tui::strs::trim_start_ws(s@) == s@.skip(i as int),
{
    let mut i: usize = 0;
    assert(s@.skip(0) =~= s@);
    while i < s.len() && crate::tui::unicode::is_whitespace(s[i])
        invariant
            0 <= i <= s.len(),
            crate::tui::strs::trim_start_ws(s@) == crate::tui::strs::trim_start_ws(s@.skip(i as int)),
        decreases s.len() - i,
    {
        assert(s@.skip(i as int).drop_first() =~= s@.skip(i + 1));
        i = i + 1;
    }
    if i < s.len() {
        assert(s@.skip(i as int)[0] == s@[i as int]);
    } else {
        assert(s@.skip(i as int) =~= Seq::<char>::empty());
    }
    i
}

impl<P: AutocompleteProvider> Editor<P> {
    /// Use `provider` for autocomplete.
    pub fn set_autocomplete_provider<Q: AutocompleteProvider>(self, provider: Q) -> (e: Editor<Q>)
        ensures
            e.text() == self.text(),
            e.wf() == self.wf(),
            e.layout() == self.layout(),
            e.submissions() == self.submissions(),
            e.changes() == self.changes(),
            e.reports_changes() == self.reports_changes(),
            e.bindings() == self.bindings(),
    {
        Editor {
            lines: self.lines,
            cursor_line: self.cursor_line,
            cursor_col: self.cursor_col,
            padding_x: self.padding_x,
            max_visible_lines: self.max_visible_lines,
            scroll_offset: self.scroll_offset,
            theme: self.theme,
            focused: self.focused,
            kill_ring: self.kill_ring,
            undo_stack: self.undo_stack,
            history: self.history,
            history_index: self.history_index,
            history_draft: self.history_draft,
            preferred_col: self.preferred_col,
            last_width: self.last_width,
            last_action: self.last_action,
            disable_submit: self.disable_submit,
            jump_mode: self.jump_mode,
            pastes: self.pastes,
            paste_counter: self.paste_counter,
            just_submitted: self.just_submitted,
            terminal_rows: self.terminal_rows,
            autocomplete_max_visible: self.autocomplete_max_visible,
            autocomplete_list: self.autocomplete_list,
            autocomplete_active: self.autocomplete_active,
            autocomplete_prefix: self.autocomplete_prefix,
            submitted: self.submitted,
            on_change: self.on_change,
            changes: self.changes,
            keybindings: self.keybindings,
            border_color: self.border_color,
            autocomplete_provider: Some(provider),
            last_autocomplete_trigger: self.last_autocomplete_trigger,
        }
    }

    /// Whether an autocomplete provider is set.
    pub closed spec fn has_provider(&self) -> bool {
        self.autocomplete_provider is Some
    }

    /// The autocomplete list, if one is open.
    pub closed spec fn ac_list(&self) -> Option<crate::tui::components::select_list::SelectView> {
        match self.autocomplete_list {
            Some(l) => Some(l@),
            None => None,
        }
    }

    /// Whether the autocomplete list shows.
    pub closed spec fn ac_active(&self) -> bool {
        self.autocomplete_active
    }

    /// Whether an autocomplete list is open.
    pub closed spec fn has_list(&self) -> bool {
        self.autocomplete_list is Some
    }

    /// The items of the open autocomplete list (none where it is closed).
    pub closed spec fn list_items(&self) -> Seq<crate::tui::components::select_list::SelectItem> {
        match self.autocomplete_list {
            Some(l) => l@.items,
            None => seq![],
        }
    }

    /// The selected entry of the open autocomplete list.
    pub closed spec fn list_selected(&self) -> nat {
        match self.autocomplete_list {
            Some(l) => l@.selected_index,
            None => 0,
        }
    }

    /// The text the autocomplete suggestions were made for.
    pub closed spec fn completion_prefix(&self) -> Seq<char> {
        self.autocomplete_prefix@
    }

    /// The pending jump, if jump mode is on.
    pub closed spec fn jump(&self) -> Option<JumpDirection> {
        self.jump_mode
    }

    /// Whether Enter adds a line in place of submitting.
    pub closed spec fn submit_disabled(&self) -> bool {
        self.disable_submit
    }

    /// Show `items` as the autocomplete list; none closes it.
    pub fn set_autocomplete(&mut self, items: Vec<crate::tui::components::select_list::SelectItem>)
        requires
            old(self).wf(),
        ensures
            final(self).wf(),
            final(self).text() == old(self).text(),
            final(self).layout() == old(self).layout(),
            final(self).submissions() == old(self).submissions(),
            log_kept(*final(self), *old(self)),
            final(self).bindings() == old(self).bindings(),
            items@.len() == 0 ==> !final(self).has_list() && !final(self).ac_active(),
            items@.len() > 0 ==> final(self).has_list() && final(self).ac_active(),
            final(self).list_items() == items@,
            items@.len() > 0 ==> final(self).list_selected() == (if best_index(items@, old(self).completion_prefix()) < items@.len() {
                best_index(items@, old(self).completion_prefix())
            } else {
                items@.len() - 1
            }),
    {
        self.set_autocomplete_with_layout(items);
    }

    fn set_autocomplete_with_layout(&mut self, items: Vec<crate::tui::components::select_list::SelectItem>)
        requires
            old(self).wf(),
        ensures
            final(self).wf(),
            final(self).text() == old(self).text(),
            final(self).layout() == old(self).layout(),
            final(self).submissions() == old(self).submissions(),
            log_kept(*final(self), *old(self)),
            final(self).bindings() == old(self).bindings(),
            items@.len() == 0 ==> final(self).autocomplete_list is None && !final(self).autocomplete_active,
            items@.len() > 0 ==> final(self).autocomplete_list is Some && final(self).autocomplete_active,
            final(self).list_items() == items@,
            items@.len() > 0 ==> final(self).list_selected() == (if best_index(items@, old(self).completion_prefix()) < items@.len() {
                best_index(items@, old(self).completion_prefix())
            } else {
                items@.len() - 1
            }),
            final(self).submitted == old(self).submitted,
            final(self).keybindings == old(self).keybindings,
            final(self).jump_mode == old(self).jump_mode,
            final(self).disable_submit == old(self).disable_submit,
            final(self).autocomplete_provider == old(self).autocomplete_provider,
            final(self).autocomplete_prefix == old(self).autocomplete_prefix,
            same_setup(*final(self), *old(self)),
    {
        if items.len() == 0 {
            self.autocomplete_active = false;
            self.autocomplete_list = None;
            return;
        }
        let best = best_autocomplete_index(&items, &self.autocomplete_prefix);
        let mut list = crate::tui::components::select_list::SelectList::new(items, self.autocomplete_max_visible, autocomplete_theme());
        list.set_selected_index(best);
        self.autocomplete_list = Some(list);
        self.autocomplete_active = true;
    }

    /// Close the autocomplete list.
    pub fn clear_autocomplete(&mut self)
        requires
            old(self).wf(),
        ensures
            final(self).wf(),
            final(self).text() == old(self).text(),
            final(self).layout() == old(self).layout(),
            final(self).submissions() == old(self).submissions(),
            log_kept(*final(self), *old(self)),
            final(self).bindings() == old(self).bindings(),
            !final(self).has_list(),
            !final(self).ac_active(),
    {
        self.clear_autocomplete_state();
    }

    /// The value of the selected autocomplete item, if a list is open.
    pub fn autocomplete_selected_value(&self) -> (r: Option<String>)
        requires
            self.wf(),
        ensures
            match self.ac_list() {
                Some(l) => match r {
                    Some(s) => l.filtered.len() > 0 && s@ == l.items[l.filtered[l.selected_index as int] as int].value@,
                    None => l.filtered.len() == 0,
                },
                None => r is None,
            },
    {
        match &self.autocomplete_list {
            Some(l) => match l.selected_item() {
                Some(item) => Some(string_from_str(item.value.as_str())),
                None => None,
            },
            None => None,
        }
    }

    /// Whether no autocomplete item is there to pick.
    pub fn autocomplete_is_empty(&self) -> (r: bool)
        ensures
            r == match self.ac_list() {
                Some(l) => l.items.len() == 0,
                None => true,
            },
    {
        match &self.autocomplete_list {
            Some(l) => l.len() == 0,
            None => true,
        }
    }

    /// The characters before the cursor.
    fn before_cursor_chars(&self) -> (b: Vec<char>)
        requires
            self.wf(),
        ensures
            b@ == before_cursor(self.text()),
    {
        let b = sub_chars(&self.lines[self.cursor_line], 0, self.cursor_col);
        assert(b@ =~= before_cursor(self.text()));
        b
    }

    /// Whether the cursor is at the start of the message.
    fn is_at_start_of_message(&self) -> (r: bool)
        requires
            self.wf(),
        ensures
            r == at_start_of_message(self.text()),
    {
        if self.cursor_line != 0 {
            return false;
        }
        let b = self.before_cursor_chars();
        let (x, y) = trim_bounds(&b);
        proof {
            if y - x == 1 {
                assert(b@.subrange(x as int, y as int) =~= seq![b@[x as int]]);
                assert(trim_ws(b@) =~= seq![b@[x as int]]);
                if b@[x as int] != '/' {
                    assert(trim_ws(b@)[0] != seq!['/'][0]);
                }
            }
        }
        y - x == 0 || (y - x == 1 && b[x] == '/')
    }

    /// Whether the cursor is in a slash command.
    fn is_in_slash_command_context(&self) -> (r: bool)
        requires
            self.wf(),
        ensures
            r == in_slash_context(self.text()),
    {
        if self.cursor_line != 0 {
            return false;
        }
        let b = self.before_cursor_chars();
        let i = leading_ws(&b);
        i < b.len() && b[i] == '/'
    }

    /// The token being completed.
    fn get_autocomplete_prefix(&self) -> (r: Vec<char>)
        requires
            self.wf(),
        ensures
            r@ == autocomplete_prefix_of(self.text()),
    {
        let b = self.before_cursor_chars();
        if b.len() > 0 && b[0] == '/' && !has_char(&b, ' ') {
            return b;
        }
        let ghost first = b@.len() > 0 && b@[0] == '/' && !b@.contains(' ');
        assert(!first);
        let mut i = b.len();
        while i > 0
            invariant
                b@ == before_cursor(self.text()),
                !(b@.len() > 0 && b@[0] == '/' && !b@.contains(' ')),
                i <= b.len(),
                last_marker_before(b@, b@.len() as int) == last_marker_before(b@, i as int),
            decreases i,
        {
            if b[i - 1] == '@' || b[i - 1] == '#' {
                let r = sub_chars(&b, i - 1, b.len());
                assert(r@ =~= b@.skip(i - 1));
                return r;
            }
            i = i - 1;
        }
        let mut j = b.len();
        while j > 0
            invariant
                b@ == before_cursor(self.text()),
                !(b@.len() > 0 && b@[0] == '/' && !b@.contains(' ')),
                last_marker_before(b@, b@.len() as int) < 0,
                j <= b.len(),
                last_ws_before(b@, b@.len() as int) == last_ws_before(b@, j as int),
            decreases j,
        {
            if crate::tui::unicode::is_whitespace(b[j - 1]) {
                let r = sub_chars(&b, j, b.len());
                assert(r@ =~= b@.skip(j as int));
                return r;
            }
            j = j - 1;
        }
        b
    }
}


/// The editor's settings and what it has handed on, which autocomplete

/// The autocomplete list is closed: no list, not showing, no prefix.
pub open spec fn ac_closed<P: AutocompleteProvider>(e: Editor<P>) -> bool {
    !e.has_list() && !e.ac_active() && e.completion_prefix().len() == 0
}

/// The autocomplete list shows some items and the text is as it was.
pub open spec fn ac_shown<P: AutocompleteProvider>(old: Editor<P>, e: Editor<P>) -> bool {
    e.has_list() && e.ac_active() && e.list_items().len() > 0 && e.text() == old.text()
}

/// Typing outside a slash command asks the provider at most every 20 ms.
pub open spec fn debounced(v: TextView) -> bool {
    before_cursor(v).len() > 0 && before_cursor(v)[0] != '/'
}

/// What asking the provider leaves: without a provider nothing changed;
/// with one the list closed or showing its suggestions, or, while typing
/// too soon after the last ask, nothing changed.
#[verifier::opaque]
pub open spec fn asked<P: AutocompleteProvider>(old: Editor<P>, e: Editor<P>, force: bool) -> bool {
    if !old.has_provider() {
        e == old
    } else {
        ac_closed(e) || ac_shown(old, e) || (!force && debounced(old.text()) && e == old)
    }
}

/// The cursor follows the start of a token: the second last character
/// before it, if any, is whitespace.
pub open spec fn at_token_boundary(b: Seq<char>) -> bool {
    b.len() < 2 || crate::tui::unicode::white_space(b[b.len() - 2])
}

/// A typed word character: one single-byte letter, digit, `-` or `_`.
pub open spec fn word_char_typed(c: Seq<char>) -> bool {
    c.len() == 1 && crate::tui::strs::utf8_width(c[0]) == 1 && (crate::tui::unicode::alphanumeric(c[0]) || c[0] == '-'
        || c[0] == '_')
}

/// Typing `c` asks the provider: while the list shows, a `/` starting the
/// message, an `@` or `#` starting a token, or a word character in a slash
/// command's name or after an `@` or `#`.
#[verifier::opaque]
pub open spec fn must_ask(v: TextView, active: bool, c: Seq<char>) -> bool {
    let b = before_cursor(v);
    ||| active
    ||| (c.len() == 1 && c[0] == '/' && at_start_of_message(v))
    ||| (c.len() == 1 && (c[0] == '@' || c[0] == '#') && at_token_boundary(b))
    ||| (word_char_typed(c) && ((in_slash_context(v) && !crate::tui::strs::trim_start_ws(b).contains(' '))
        || b.contains('@') || b.contains('#')))
}

/// Typing `c` may ask the provider: where it must, or where `c` is one of
/// the provider's own trigger characters starting a token.
#[verifier::opaque]
pub open spec fn may_ask(v: TextView, active: bool, c: Seq<char>) -> bool {
    ||| must_ask(v, active, c)
    ||| (c.len() == 1 && crate::tui::strs::utf8_width(c[0]) == 1 && c[0] != '/' && c[0] != '@' && c[0] != '#'
        && at_token_boundary(before_cursor(v)))
}

/// What typing left of the autocomplete list, `before` being the editor
/// before the key and `v` the text after it: closed, or showing some
/// suggestions; or, typing too soon after the last ask (`debounced`), as it
/// was before the key.
pub open spec fn typed_ask_outcome<P: AutocompleteProvider>(e: Editor<P>, before: Editor<P>, v: TextView) -> bool {
    ||| ac_closed(e)
    ||| (e.has_list() && e.ac_active() && e.list_items().len() > 0)
    ||| (debounced(v) && ac_kept(e, before))
}

/// The value of the selected entry of the autocomplete list, if any.
pub open spec fn selected_value<P: AutocompleteProvider>(e: Editor<P>) -> Option<Seq<char>> {
    match e.ac_list() {
        Some(l) => if l.filtered.len() > 0 {
            Some(l.items[l.filtered[l.selected_index as int] as int].value@)
        } else {
            None
        },
        None => None,
    }
}

/// The text after `set_text(t)`.
pub open spec fn text_set(v: TextView, t: Seq<char>) -> TextView {
    with_text(if joined(v.lines) != t { pushed_undo(exit_hist(v)) } else { exit_hist(v) }, t)
}

/// leaves alone.
pub closed spec fn same_setup<P>(a: Editor<P>, b: Editor<P>) -> bool {
    &&& a.submitted == b.submitted
    &&& a.keybindings == b.keybindings
    &&& a.jump_mode == b.jump_mode
    &&& a.disable_submit == b.disable_submit
    &&& a.autocomplete_provider == b.autocomplete_provider
    &&& a.terminal_rows == b.terminal_rows
    &&& a.padding_x == b.padding_x
    &&& a.last_width == b.last_width
    &&& a.focused == b.focused
    &&& a.border_color == b.border_color
    &&& a.just_submitted == b.just_submitted
}

/// The reported changes, and whether changes are reported, are the same.
pub closed spec fn log_kept<P>(a: Editor<P>, b: Editor<P>) -> bool {
    &&& a.changes@ == b.changes@
    &&& a.on_change == b.on_change
}

/// The changes reported after one more change that left the text `t`.
pub open spec fn reported<P: AutocompleteProvider>(e: Editor<P>, t: Seq<char>) -> Seq<Seq<char>> {
    if e.reports_changes() {
        e.changes().push(t)
    } else {
        e.changes()
    }
}

/// The autocomplete state of two editors is the same.
pub closed spec fn ac_kept<P>(a: Editor<P>, b: Editor<P>) -> bool {
    &&& a.autocomplete_list == b.autocomplete_list
    &&& a.autocomplete_active == b.autocomplete_active
    &&& a.autocomplete_prefix@ == b.autocomplete_prefix@
}

/// The text after a completion: the provider's lines, the cursor line kept
/// within them and its byte column rounded down to a character; no lines
/// leave the text as it was.
pub open spec fn completion_applied(v: TextView, nl: Seq<Seq<char>>, l: int, c: int) -> TextView {
    if nl.len() == 0 {
        v
    } else {
        let li = if l < nl.len() { l } else { nl.len() - 1 };
        TextView { lines: nl, line: li as nat, col: chars_within(nl[li], c) as nat, ..v }
    }
}

/// A key the autocomplete counts as part of a token: an ASCII letter,
/// digit, `-` or `_`.
pub open spec fn token_char(c: char) -> bool {
    crate::tui::strs::utf8_width(c) == 1 && (crate::tui::unicode::alphanumeric(c) || c == '-' || c == '_')
}

impl<P: AutocompleteProvider> Editor<P> {
    fn apply_completion_result(&mut self, nl: Vec<String>, l: usize, c: usize)
        requires
            old(self).wf(),
        ensures
            final(self).wf(),
            final(self).text() == completion_applied(old(self).text(), strs_view(nl@), l as int, c as int),
            final(self).layout() == old(self).layout(),
            final(self).submissions() == old(self).submissions(),
            log_kept(*final(self), *old(self)),
            final(self).bindings() == old(self).bindings(),
            same_setup(*final(self), *old(self)),
            final(self).autocomplete_list == old(self).autocomplete_list,
    {
        if nl.len() == 0 {
            return;
        }
        let mut lines: Vec<Vec<char>> = Vec::new();
        let mut i: usize = 0;
        while i < nl.len()
            invariant
                0 <= i <= nl.len(),
                views(lines@) =~= strs_view(nl@).take(i as int),
            decreases nl.len() - i,
        {
            let ghost b = views(lines@);
            lines.push(str_chars(nl[i].as_str()));
            assert(views(lines@) =~= b.push(nl@[i as int]@));
            assert(strs_view(nl@).take(i + 1) =~= strs_view(nl@).take(i as int).push(nl@[i as int]@));
            i = i + 1;
        }
        assert(strs_view(nl@).take(nl.len() as int) =~= strs_view(nl@));
        let li = if l < lines.len() { l } else { lines.len() - 1 };
        let col = char_index_of_byte(&lines[li], c);
        assert(views(lines@)[li as int] == lines@[li as int]@);
        self.lines = lines;
        self.cursor_line = li;
        self.cursor_col = col;
    }

    /// Ask the provider for suggestions and show them. Typing asks at most
    /// every 20 ms outside slash commands. Forced (Tab), a single
    /// suggestion is completed at once.
    fn trigger_autocomplete(&mut self, force: bool)
        requires
            old(self).wf(),
        ensures
            final(self).wf(),
            final(self).layout() == old(self).layout(),
            final(self).submissions() == old(self).submissions(),
            log_kept(*final(self), *old(self)),
            final(self).bindings() == old(self).bindings(),
            same_setup(*final(self), *old(self)),
            !force ==> final(self).text() == old(self).text(),
            final(self).text() == old(self).text() || exists|nl: Seq<Seq<char>>, l: int, c: int|
                final(self).text() == completion_applied(old(self).text(), nl, l, c),
            asked(*old(self), *final(self), force),
    {
        reveal(asked);
        if self.autocomplete_provider.is_none() {
            return;
        }
        if !force {
            let b = self.before_cursor_chars();
            let is_slash = b.len() > 0 && b[0] == '/';
            if !is_slash && b.len() > 0 {
                let elapsed = crate::tui::components::loader::millis_since(&self.last_autocomplete_trigger);
                if elapsed < 20 {
                    return;
                }
            }
        }
        self.last_autocomplete_trigger = crate::tui::components::loader::instant_now();
        let lines = self.get_lines();
        let b = self.cursor_byte();
        let sug = match &self.autocomplete_provider {
            Some(p) => p.get_suggestions(lines.as_slice(), self.cursor_line, b, force),
            None => None,
        };
        let sug = match sug {
            Some(s) => s,
            None => {
                self.clear_autocomplete_state();
                return;
            },
        };
        if sug.items.len() == 0 {
            self.clear_autocomplete_state();
            return;
        }
        if force && sug.items.len() == 1 {
            let r = match &self.autocomplete_provider {
                Some(p) => Some(p.apply_completion(lines.as_slice(), self.cursor_line, b, &sug.items[0], sug.prefix.as_str())),
                None => None,
            };
            match r {
                Some((nl, l, c)) => {
                    self.apply_completion_result(nl, l, c);
                },
                None => {},
            }
            self.clear_autocomplete_state();
            return;
        }
        let mut items: Vec<crate::tui::components::select_list::SelectItem> = Vec::new();
        let mut i: usize = 0;
        while i < sug.items.len()
            invariant
                i <= sug.items@.len(),
                items@.len() == i,
            decreases sug.items.len() - i,
        {
            let it = &sug.items[i];
            let si = crate::tui::components::select_list::SelectItem::new(it.value.as_str(), it.label.as_str());
            let si = match &it.description {
                Some(d) => si.with_description(d.as_str()),
                None => si,
            };
            items.push(si);
            i = i + 1;
        }
        self.set_autocomplete_with_layout(items);
        self.autocomplete_prefix = str_chars(sug.prefix.as_str());
    }

    /// Ask for suggestions now (as typing does).
    pub fn try_trigger_autocomplete(&mut self)
        requires
            old(self).wf(),
        ensures
            final(self).wf(),
            final(self).text() == old(self).text(),
            final(self).layout() == old(self).layout(),
            final(self).submissions() == old(self).submissions(),
            log_kept(*final(self), *old(self)),
            final(self).bindings() == old(self).bindings(),
            final(self).submissions() == old(self).submissions(),
            log_kept(*final(self), *old(self)),
            asked(*old(self), *final(self), false),
    {
        self.trigger_autocomplete(false);
    }

    /// Re-ask for suggestions where the list is showing.
    fn update_autocomplete_if_active(&mut self)
        requires
            old(self).wf(),
        ensures
            final(self).wf(),
            final(self).text() == old(self).text(),
            final(self).layout() == old(self).layout(),
            final(self).submissions() == old(self).submissions(),
            log_kept(*final(self), *old(self)),
            final(self).bindings() == old(self).bindings(),
            same_setup(*final(self), *old(self)),
            old(self).ac_active() ==> asked(*old(self), *final(self), false),
            !old(self).ac_active() ==> *final(self) == *old(self),
    {
        if self.autocomplete_active {
            self.trigger_autocomplete(false);
        }
    }

    /// After a deletion: where the list was closed, reopen it in a slash
    /// command or after an `@` or `#`.
    fn retrigger_autocomplete_dismissed(&mut self)
        requires
            old(self).wf(),
        ensures
            final(self).wf(),
            final(self).text() == old(self).text(),
            final(self).layout() == old(self).layout(),
            final(self).submissions() == old(self).submissions(),
            log_kept(*final(self), *old(self)),
            final(self).bindings() == old(self).bindings(),
            same_setup(*final(self), *old(self)),
            ({
                let b = before_cursor(old(self).text());
                if !old(self).ac_active() && (in_slash_context(old(self).text()) || b.contains('@') || b.contains('#')) {
                    asked(*old(self), *final(self), false)
                } else {
                    *final(self) == *old(self)
                }
            }),
    {
        if self.autocomplete_active {
            return;
        }
        if self.is_in_slash_command_context() {
            self.trigger_autocomplete(false);
            return;
        }
        let b = self.before_cursor_chars();
        if has_char(&b, '@') || has_char(&b, '#') {
            self.trigger_autocomplete(false);
        }
    }

    /// After a character is typed: open or refresh the list where the
    /// character starts or continues a completable token.
    fn update_autocomplete(&mut self, ch: &str)
        requires
            old(self).wf(),
        ensures
            final(self).wf(),
            final(self).text() == old(self).text(),
            final(self).layout() == old(self).layout(),
            final(self).submissions() == old(self).submissions(),
            log_kept(*final(self), *old(self)),
            final(self).bindings() == old(self).bindings(),
            same_setup(*final(self), *old(self)),
            must_ask(old(self).text(), old(self).ac_active(), ch@) ==> asked(*old(self), *final(self), false),
            asked(*old(self), *final(self), false) || *final(self) == *old(self),
            !may_ask(old(self).text(), old(self).ac_active(), ch@) ==> *final(self) == *old(self),
    {
        reveal(must_ask);
        reveal(may_ask);
        reveal(asked);
        if self.autocomplete_active {
            self.trigger_autocomplete(false);
            return;
        }
        let b = self.before_cursor_chars();
        let c = str_chars(ch);
        if c.len() == 1 && c[0] == '/' && self.is_at_start_of_message() {
            self.trigger_autocomplete(false);
            return;
        }
        let at_boundary = b.len() == 1 || b.len() < 2 || crate::tui::unicode::is_whitespace(b[b.len() - 2]);
        if c.len() == 1 && (c[0] == '@' || c[0] == '#') {
            if at_boundary {
                self.trigger_autocomplete(false);
                return;
            }
        }
        let tcs = match &self.autocomplete_provider {
            Some(p) => p.trigger_characters(),
            None => Vec::new(),
        };
        let mut k: usize = 0;
        while k < tcs.len()
            invariant
                self.wf(),
                same_setup(*self, *old(self)),
                self.text() == old(self).text(),
                self.layout() == old(self).layout(),
                *self == *old(self),
                b@ == before_cursor(old(self).text()),
                c@ == ch@,
                !old(self).ac_active(),
                at_boundary == at_token_boundary(before_cursor(old(self).text())),
            decreases tcs.len() - k,
        {
            let tc = tcs[k];
            proof {
                reveal(may_ask);
                reveal(asked);
            }
            if c.len() == 1 && c[0] == tc && crate::tui::strs::char_utf8_len(tc) == 1 && tc != '/' && tc != '@' && tc != '#' {
                if at_boundary {
                    self.trigger_autocomplete(false);
                    return;
                }
            }
            k = k + 1;
        }
        if c.len() == 1 && crate::tui::strs::char_utf8_len(c[0]) == 1 && (crate::tui::unicode::is_alphanumeric(c[0]) || c[0] == '-' || c[0] == '_') {
            if self.is_in_slash_command_context() {
                let i = leading_ws(&b);
                let rest = sub_chars(&b, i, b.len());
                if !has_char(&rest, ' ') {
                    self.trigger_autocomplete(false);
                    return;
                }
            }
            if has_char(&b, '@') || has_char(&b, '#') {
                self.trigger_autocomplete(false);
            }
        }
    }

    /// After a change of the text: refresh the list where it is showing.
    fn notify_change(&mut self)
        requires
            old(self).wf(),
        ensures
            final(self).wf(),
            final(self).text() == old(self).text(),
            final(self).layout() == old(self).layout(),
            final(self).submissions() == old(self).submissions(),
            log_kept(*final(self), *old(self)),
            final(self).bindings() == old(self).bindings(),
            same_setup(*final(self), *old(self)),
            old(self).ac_active() ==> asked(*old(self), *final(self), false),
            !old(self).ac_active() ==> *final(self) == *old(self),
    {
        if self.autocomplete_active {
            self.trigger_autocomplete(false);
        }
    }
}


// ---------------------------------------------------------------------------
// Keys
// ---------------------------------------------------------------------------

/// What a key does to the editor: the text after it (`None` where an
/// autocomplete provider decides), whether the key was used, whether the
/// text was submitted, and the texts reported as changes, in order.
pub struct EditorStep {
    pub text: Option<TextView>,
    pub consumed: bool,
    pub submitted: bool,
    pub notes: Seq<Seq<char>>,
}

/// Nothing but the text or nothing at all, no change reported.
pub open spec fn stepped(t: TextView, consumed: bool) -> EditorStep {
    EditorStep { text: Some(t), consumed, submitted: false, notes: seq![] }
}

/// A change of the text to `t`, reported once.
pub open spec fn changed_to(t: TextView) -> EditorStep {
    EditorStep { text: Some(t), consumed: true, submitted: false, notes: seq![joined(t.lines)] }
}

/// A change of the text to `t` where `happened`, reported once; else the
/// text `t` with nothing reported.
pub open spec fn changed_if(t: TextView, happened: bool) -> EditorStep {
    if happened {
        changed_to(t)
    } else {
        stepped(t, true)
    }
}

/// The cursor on the first visual line of the layout at `width`.
pub open spec fn first_visual(v: TextView, width: int) -> bool {
    crate::tui::components::editor_layout::cursor_index_from(
        crate::tui::components::editor_layout::text_layout(v.lines, width, v.line as int, v.col as int),
        0,
    ) == 0
}

/// The cursor on the last visual line of the layout at `width`.
pub open spec fn last_visual(v: TextView, width: int) -> bool {
    let vls = crate::tui::components::editor_layout::text_layout(v.lines, width, v.line as int, v.col as int);
    crate::tui::components::editor_layout::cursor_index_from(vls, 0) >= (if vls.len() > 0 { vls.len() - 1 } else { 0 })
}

/// No text: one empty line.
pub open spec fn text_empty(v: TextView) -> bool {
    v.lines.len() == 0 || (v.lines.len() == 1 && v.lines[0].len() == 0)
}

/// The cursor at the start of its line.
pub open spec fn at_line_start(v: TextView) -> TextView {
    TextView { last: None, col: 0, preferred: None, ..v }
}

/// The cursor at the end of its line.
pub open spec fn at_line_end(v: TextView) -> TextView {
    TextView { last: None, col: cur(v).len(), preferred: None, ..v }
}

/// Up: the previous history entry from the first visual line of an empty
/// text, while browsing history, or at the start of the line; the start
/// of the line from elsewhere on the first visual line; else a visual line up.
pub open spec fn up_step(v: TextView, width: int) -> TextView {
    if first_visual(v, width) && (text_empty(v) || v.history_index >= 0 || v.col == 0) {
        recalled_older(v)
    } else if first_visual(v, width) {
        at_line_start(v)
    } else {
        vertically_moved(v, width, true)
    }
}

/// Down: the next history entry from the last visual line while browsing
/// history; the end of the line from elsewhere on it; else a visual line down.
pub open spec fn down_step(v: TextView, width: int) -> TextView {
    if v.history_index >= 0 && last_visual(v, width) {
        recalled_newer(v)
    } else if last_visual(v, width) {
        at_line_end(v)
    } else {
        vertically_moved(v, width, false)
    }
}

/// A word left, paste markers whole.
pub open spec fn word_left_step(v: TextView) -> TextView {
    if v.col > 0 {
        TextView { col: word_left_in(cur(v), v.col as int) as nat, preferred: None, ..v }
    } else {
        v
    }
}

/// A word right, paste markers whole.
pub open spec fn word_right_step(v: TextView) -> TextView {
    if v.col < cur(v).len() {
        TextView { col: word_right_in(cur(v), v.col as int) as nat, preferred: None, ..v }
    } else {
        v
    }
}

/// A printable key with text.
pub open spec fn typed_key(key: KeyEvent) -> bool {
    key.code is Char && !key.modifiers.control && !key.modifiers.alt && key_text(key) is Some
}

/// The submit key: a new line where submitting is disabled, or after a
/// backslash (which it replaces); otherwise the text is submitted.
pub open spec fn submit_step(v: TextView, disable_submit: bool) -> EditorStep {
    if disable_submit {
        changed_to(newline_added(v))
    } else if v.col > 0 && cur(v)[v.col - 1] == '\\' {
        EditorStep {
            text: Some(newline_added(backspaced(v))),
            consumed: true,
            submitted: false,
            notes: seq![joined(backspaced(v).lines), joined(newline_added(backspaced(v)).lines)],
        }
    } else {
        EditorStep {
            text: Some(submitted_text(v)),
            consumed: true,
            submitted: true,
            notes: seq![joined(submitted_text(v).lines)],
        }
    }
}

/// The keys after jump mode and the autocomplete list had their say.
pub open spec fn main_step(
    v: TextView,
    kb: Map<Seq<char>, Seq<Seq<char>>>,
    key: KeyEvent,
    has_list: bool,
    has_provider: bool,
    disable_submit: bool,
    width: int,
    rows: nat,
) -> EditorStep {
    let m = |a: Seq<char>| key_id_matches_any(kb, key, a);
    if has_list && m(ACTION_SELECT_CANCEL@) {
        stepped(v, true)
    } else if has_list && (m(ACTION_SELECT_CONFIRM@) || m(ACTION_INPUT_TAB@)) {
        EditorStep { text: None, consumed: true, submitted: false, notes: seq![] }
    } else if has_list && (m(ACTION_SELECT_UP@) || m(ACTION_SELECT_DOWN@)) {
        stepped(v, true)
    } else if m(ACTION_INPUT_TAB@) && has_provider {
        EditorStep { text: None, consumed: true, submitted: false, notes: seq![] }
    } else if m(ACTION_INPUT_SUBMIT@) {
        submit_step(v, disable_submit)
    } else if m(ACTION_EDITOR_JUMP_FORWARD@) || m(ACTION_EDITOR_JUMP_BACKWARD@) {
        stepped(v, true)
    } else if typed_key(key) {
        changed_to(typed_char(v, key_text(key).unwrap()))
    } else if m(ACTION_EDITOR_CURSOR_LEFT@) {
        stepped(moved_left_text(v), true)
    } else if m(ACTION_EDITOR_CURSOR_RIGHT@) {
        stepped(moved_right_text(v), true)
    } else if m(ACTION_EDITOR_CURSOR_LINE_START@) {
        stepped(at_line_start(v), true)
    } else if m(ACTION_EDITOR_CURSOR_LINE_END@) {
        stepped(at_line_end(v), true)
    } else if m(ACTION_EDITOR_CURSOR_UP@) {
        stepped(up_step(v, width), true)
    } else if m(ACTION_EDITOR_CURSOR_DOWN@) {
        stepped(down_step(v, width), true)
    } else if m(ACTION_EDITOR_PAGE_UP@) {
        stepped(
            TextView {
                scroll: if v.scroll >= page_size_of(rows) { (v.scroll - page_size_of(rows)) as nat } else { 0 },
                ..v
            },
            true,
        )
    } else if m(ACTION_EDITOR_PAGE_DOWN@) {
        stepped(TextView { scroll: v.scroll + page_size_of(rows), ..v }, true)
    } else if m(ACTION_EDITOR_CURSOR_WORD_LEFT@) {
        stepped(word_left_step(v), true)
    } else if m(ACTION_EDITOR_CURSOR_WORD_RIGHT@) {
        stepped(word_right_step(v), true)
    } else if m(ACTION_EDITOR_DELETE_CHAR_BACKWARD@) {
        changed_to(backspaced(v))
    } else if m(ACTION_EDITOR_DELETE_CHAR_FORWARD@) {
        changed_to(deleted_forward(v))
    } else if m(ACTION_EDITOR_DELETE_WORD_BACKWARD@) {
        changed_if(killed_word_left(v), v.col > 0 && word_left_in(cur(v), v.col as int) < v.col)
    } else if m(ACTION_EDITOR_DELETE_WORD_FORWARD@) {
        changed_if(killed_word_right(v), v.col < cur(v).len() && word_right_in(cur(v), v.col as int) > v.col)
    } else if m(ACTION_EDITOR_DELETE_TO_LINE_START@) {
        changed_to(killed_to_line_start(v))
    } else if m(ACTION_EDITOR_DELETE_TO_LINE_END@) {
        changed_to(killed_to_line_end(v))
    } else if m(ACTION_EDITOR_YANK@) {
        changed_if(yanked_text(v), v.kill.len() > 0)
    } else if m(ACTION_EDITOR_YANK_POP@) {
        changed_if(yank_popped_text(v), v.last == Some(EditAction::Yank) && v.kill.len() > 1)
    } else if m(ACTION_EDITOR_UNDO@) {
        changed_to(undone_text(TextView { last: None, ..v }))
    } else if m(ACTION_INPUT_NEW_LINE@) {
        changed_to(newline_added(v))
    } else {
        stepped(v, false)
    }
}

/// What a key does: in jump mode, the jump keys cancel it and a printable
/// key jumps to its character; any other key leaves jump mode and is then
/// taken as usual.
pub open spec fn editor_step(
    v: TextView,
    kb: Map<Seq<char>, Seq<Seq<char>>>,
    key: KeyEvent,
    jump: Option<JumpDirection>,
    has_list: bool,
    has_provider: bool,
    disable_submit: bool,
    width: int,
    rows: nat,
) -> EditorStep {
    match jump {
        Some(dir) => if key_id_matches_any(kb, key, ACTION_EDITOR_JUMP_FORWARD@) || key_id_matches_any(
            kb,
            key,
            ACTION_EDITOR_JUMP_BACKWARD@,
        ) {
            stepped(v, true)
        } else if typed_key(key) {
            stepped(jumped(v, key_text(key).unwrap()[0], dir), true)
        } else {
            main_step(v, kb, key, has_list, has_provider, disable_submit, width, rows)
        },
        None => main_step(v, kb, key, has_list, has_provider, disable_submit, width, rows),
    }
}

/// The key accepts the selected item of the open list: it reaches the list
/// (no jump is pending, or the pending jump lets it through) and is confirm
/// or Tab, not cancel.
pub open spec fn confirming_key(
    kb: Map<Seq<char>, Seq<Seq<char>>>,
    key: KeyEvent,
    jump: Option<JumpDirection>,
    has_list: bool,
) -> bool {
    let m = |a: Seq<char>| key_id_matches_any(kb, key, a);
    &&& (jump is None || (!m(ACTION_EDITOR_JUMP_FORWARD@) && !m(ACTION_EDITOR_JUMP_BACKWARD@) && !typed_key(key)))
    &&& has_list
    &&& !m(ACTION_SELECT_CANCEL@)
    &&& (m(ACTION_SELECT_CONFIRM@) || m(ACTION_INPUT_TAB@))
}

/// What accepting the selected item of the list leaves, `before` being the
/// editor before: the list closed; with nothing selected the text as it
/// was; without a provider the text set to the slash command `/value `
/// (a change that is reported); with one, the text as the provider
/// completed it.
pub open spec fn confirm_outcome<P: AutocompleteProvider>(before: Editor<P>, e: Editor<P>) -> bool {
    &&& ac_closed(e)
    &&& selected_value(before) is None ==> e.text() == before.text()
    &&& (!before.has_provider() && selected_value(before) is Some) ==> e.text() == text_set(
        before.text(),
        seq!['/'] + selected_value(before).unwrap() + seq![' '],
    )
    &&& (before.has_provider() && selected_value(before) is Some) ==> exists|nl: Seq<Seq<char>>, l: int, c: int|
        e.text() == completion_applied(before.text(), nl, l, c)
    &&& e.changes() == if !before.has_provider() && selected_value(before) is Some {
        reported(before, seq!['/'] + selected_value(before).unwrap() + seq![' '])
    } else {
        before.changes()
    }
}

/// The key is typed as text: no jump is pending, neither the open list nor
/// Tab with a provider takes it, it is neither submit nor a jump key, and
/// it is a printable character.
pub open spec fn typing_key(
    kb: Map<Seq<char>, Seq<Seq<char>>>,
    key: KeyEvent,
    jump: Option<JumpDirection>,
    has_list: bool,
    has_provider: bool,
) -> bool {
    let m = |a: Seq<char>| key_id_matches_any(kb, key, a);
    &&& jump is None
    &&& !(has_list && (m(ACTION_SELECT_CANCEL@) || m(ACTION_SELECT_CONFIRM@) || m(ACTION_INPUT_TAB@) || m(
        ACTION_SELECT_UP@,
    ) || m(ACTION_SELECT_DOWN@)))
    &&& !(m(ACTION_INPUT_TAB@) && has_provider)
    &&& !m(ACTION_INPUT_SUBMIT@)
    &&& !m(ACTION_EDITOR_JUMP_FORWARD@)
    &&& !m(ACTION_EDITOR_JUMP_BACKWARD@)
    &&& typed_key(key)
}

/// The keys a step is defined for: those that move by visual lines need a
/// layout, yank-pop a yank to replace, page-down room to scroll, and a jump
/// a one-byte character where its search starts.
pub open spec fn editor_key_ok(
    v: TextView,
    kb: Map<Seq<char>, Seq<Seq<char>>>,
    key: KeyEvent,
    jump: Option<JumpDirection>,
    width: int,
    rows: nat,
) -> bool {
    &&& (key_id_matches_any(kb, key, ACTION_EDITOR_CURSOR_UP@) || key_id_matches_any(kb, key, ACTION_EDITOR_CURSOR_DOWN@))
        ==> crate::tui::components::editor_layout::spans_ok(v.lines, width)
    &&& key_id_matches_any(kb, key, ACTION_EDITOR_YANK_POP@) ==> yank_pop_fits(v)
    &&& key_id_matches_any(kb, key, ACTION_EDITOR_PAGE_DOWN@) ==> v.scroll + page_size_of(rows) <= usize::MAX
    &&& (jump is Some && typed_key(key)) ==> jump_ok(v, jump.unwrap())
}

impl<P: AutocompleteProvider> Editor<P> {
    /// Whether the cursor is on the first visual line.
    fn is_first_visual_line(&self) -> (r: bool)
        requires
            self.wf(),
            crate::tui::components::editor_layout::layout_ok(self.text().lines, self.layout().2 as int),
        ensures
            r == first_visual(self.text(), self.layout().2 as int),
    {
        assert(views(self.lines@) == self.text().lines);
        let vls = crate::tui::components::editor_layout::layout_chars(&self.lines, self.last_width, self.cursor_line, self.cursor_col);
        crate::tui::components::editor_layout::cursor_index(&vls) == 0
    }

    /// Whether the cursor is on the last visual line.
    fn is_last_visual_line(&self) -> (r: bool)
        requires
            self.wf(),
            crate::tui::components::editor_layout::layout_ok(self.text().lines, self.layout().2 as int),
        ensures
            r == last_visual(self.text(), self.layout().2 as int),
    {
        assert(views(self.lines@) == self.text().lines);
        let vls = crate::tui::components::editor_layout::layout_chars(&self.lines, self.last_width, self.cursor_line, self.cursor_col);
        let c = crate::tui::components::editor_layout::cursor_index(&vls);
        c >= (if vls.len() > 0 { vls.len() - 1 } else { 0 })
    }

    /// Whether the text is empty.
    fn is_empty(&self) -> (r: bool)
        ensures
            r == text_empty(self.text()),
    {
        let r = self.lines.len() == 0 || (self.lines.len() == 1 && self.lines[0].len() == 0);
        proof {
            if self.lines.len() == 1 {
                assert(self.text().lines[0] == self.lines@[0]@);
            }
        }
        r
    }

    /// Confirm the selected autocomplete item: the provider completes it,
    /// or without one the text becomes the slash command.
    fn confirm_autocomplete(&mut self)
        requires
            old(self).wf(),
        ensures
            final(self).wf(),
            final(self).layout() == old(self).layout(),
            final(self).submissions() == old(self).submissions(),
            final(self).bindings() == old(self).bindings(),
            ac_closed(*final(self)),
            selected_value(*old(self)) is None ==> final(self).text() == old(self).text(),
            !old(self).has_provider() ==> (selected_value(*old(self)) matches Some(v) ==> final(self).text() == text_set(
                old(self).text(),
                seq!['/'] + v + seq![' '],
            )),
            selected_value(*old(self)) is Some && old(self).has_provider() ==> exists|nl: Seq<Seq<char>>, l: int, c: int|
                final(self).text() == completion_applied(old(self).text(), nl, l, c),
            final(self).reports_changes() == old(self).reports_changes(),
            final(self).changes() == if !old(self).has_provider() && selected_value(*old(self)) is Some {
                reported(*old(self), seq!['/'] + selected_value(*old(self)).unwrap() + seq![' '])
            } else {
                old(self).changes()
            },
    {
        let val = match &self.autocomplete_list {
            Some(list) => match list.selected_item() {
                Some(item) => Some(string_from_str(item.value.as_str())),
                None => None,
            },
            None => None,
        };
        match val {
            Some(v) => {
                if self.autocomplete_provider.is_some() {
                    let prefix = if self.autocomplete_prefix.len() > 0 {
                        clone_chars(&self.autocomplete_prefix)
                    } else {
                        self.get_autocomplete_prefix()
                    };
                    let ps = string_from_chars(&prefix);
                    let item = AutocompleteItem {
                        value: string_from_str(v.as_str()),
                        label: string_from_str(v.as_str()),
                        description: None,
                    };
                    let lines = self.get_lines();
                    let b = self.cursor_byte();
                    let r = match &self.autocomplete_provider {
                        Some(p) => Some(p.apply_completion(lines.as_slice(), self.cursor_line, b, &item, ps.as_str())),
                        None => None,
                    };
                    match r {
                        Some((nl, l, c)) => {
                            self.apply_completion_result(nl, l, c);
                        },
                        None => {},
                    }
                } else {
                    let mut t = String::new();
                    crate::tui::strs::push_char(&mut t, '/');
                    crate::tui::strs::push_str(&mut t, v.as_str());
                    crate::tui::strs::push_char(&mut t, ' ');
                    assert(t@ =~= seq!['/'] + v@ + seq![' ']);
                    self.set_text(t.as_str());
                }
            },
            None => {},
        }
        self.clear_autocomplete_state();
    }

    /// The submit key, as `submit_step` says.
    fn submit_key(&mut self)
        requires
            old(self).wf(),
        ensures
            final(self).wf(),
            ({
                let st = submit_step(old(self).text(), old(self).submit_disabled());
                &&& st.text matches Some(t) && final(self).text() == t
                &&& final(self).submissions() == if st.submitted {
                    old(self).submissions().push(
                        crate::tui::components::editor_model::expand_all(joined(old(self).text().lines), old(self).text().pastes),
                    )
                } else {
                    old(self).submissions()
                }
                &&& final(self).changes() == old(self).changes() + if old(self).reports_changes() {
                    st.notes
                } else {
                    seq![]
                }
            }),
            final(self).reports_changes() == old(self).reports_changes(),
            final(self).layout() == old(self).layout(),
            final(self).bindings() == old(self).bindings(),
    {
        if self.disable_submit {
            self.add_newline();
            self.notify_change();
            self.report_change();
            return;
        }
        if self.cursor_col > 0 && self.lines[self.cursor_line][self.cursor_col - 1] == '\\' {
            self.backspace();
            self.notify_change();
            self.report_change();
            self.add_newline();
            self.notify_change();
            self.report_change();
            return;
        }
        self.submit();
        self.notify_change();
        self.report_change();
    }

    /// Type `s` at the cursor, then let the autocomplete list follow it.
    fn type_text(&mut self, s: &str)
        requires
            old(self).wf(),
        ensures
            final(self).wf(),
            final(self).text() == typed_char(old(self).text(), s@),
            final(self).layout() == old(self).layout(),
            final(self).submissions() == old(self).submissions(),
            final(self).bindings() == old(self).bindings(),
            (old(self).has_provider() && must_ask(typed_char(old(self).text(), s@), false, s@))
                ==> typed_ask_outcome(*final(self), *old(self), typed_char(old(self).text(), s@)),
            final(self).reports_changes() == old(self).reports_changes(),
            final(self).changes() == reported(*old(self), joined(typed_char(old(self).text(), s@).lines)),
    {
        self.insert_character(s);
        let ghost typed = *self;
        self.notify_change();
        self.report_change();
        let ghost mid = *self;
        self.update_autocomplete(s);
        proof {
            reveal(must_ask);
            reveal(asked);
            assert(mid.has_provider() == old(self).has_provider());
            assert(mid.text() == typed_char(old(self).text(), s@));
            assert(typed.ac_active() == old(self).ac_active());
        }
    }

    /// Handle a key: jump mode, the autocomplete list, submitting, typing,
    /// moving, deleting, killing and yanking, undo, as the keybindings say.
    #[verifier::rlimit(100)]
    #[verifier::spinoff_prover]
    pub fn handle_input(&mut self, key: &KeyEvent) -> (consumed: bool)
        requires
            old(self).wf(),
            editor_key_ok(old(self).text(), old(self).bindings(), *key, old(self).jump(), old(self).layout().2 as int, old(self).layout().0),
        ensures
            final(self).wf(),
            ({
                let st = editor_step(
                    old(self).text(),
                    old(self).bindings(),
                    *key,
                    old(self).jump(),
                    old(self).has_list(),
                    old(self).has_provider(),
                    old(self).submit_disabled(),
                    old(self).layout().2 as int,
                    old(self).layout().0,
                );
                &&& consumed == st.consumed
                &&& st.text matches Some(t) ==> final(self).text() == t
                &&& final(self).submissions() == if st.submitted {
                    old(self).submissions().push(
                        crate::tui::components::editor_model::expand_all(joined(old(self).text().lines), old(self).text().pastes),
                    )
                } else {
                    old(self).submissions()
                }
                &&& !confirming_key(old(self).bindings(), *key, old(self).jump(), old(self).has_list())
                    ==> final(self).changes() == old(self).changes() + if old(self).reports_changes() {
                    st.notes
                } else {
                    seq![]
                }
            }),
            final(self).reports_changes() == old(self).reports_changes(),
            (typing_key(old(self).bindings(), *key, old(self).jump(), old(self).has_list(), old(self).has_provider())
                && old(self).has_provider() && must_ask(
                typed_char(old(self).text(), key_text(*key).unwrap()),
                false,
                key_text(*key).unwrap(),
            )) ==> typed_ask_outcome(*final(self), *old(self), typed_char(old(self).text(), key_text(*key).unwrap())),
            confirming_key(old(self).bindings(), *key, old(self).jump(), old(self).has_list()) ==> confirm_outcome(
                *old(self),
                *final(self),
            ),
            final(self).layout() == old(self).layout(),
            final(self).bindings() == old(self).bindings(),
    {
        match self.jump_mode {
            Some(dir) => {
                if self.keybindings.matches(key, ACTION_EDITOR_JUMP_FORWARD) || self.keybindings.matches(key, ACTION_EDITOR_JUMP_BACKWARD) {
                    self.jump_mode = None;
                    return true;
                }
                if is_printable(key) {
                    match key_event_to_string(key) {
                        Some(s) => {
                            let cs = str_chars(s.as_str());
                            let ch = if cs.len() > 0 { cs[0] } else { ' ' };
                            self.jump_mode = None;
                            self.jump_to_char(ch, dir);
                            return true;
                        },
                        None => {},
                    }
                }
                self.jump_mode = None;
            },
            None => {},
        }
        if self.autocomplete_list.is_some() {
            if self.keybindings.matches(key, ACTION_SELECT_CANCEL) {
                self.clear_autocomplete_state();
                return true;
            }
            if self.keybindings.matches(key, ACTION_SELECT_CONFIRM) || self.keybindings.matches(key, ACTION_INPUT_TAB) {
                let ghost mid = *self;
                self.confirm_autocomplete();
                proof {
                    assert(selected_value(mid) == selected_value(*old(self)));
                    assert(mid.text() == old(self).text());
                    assert(mid.has_provider() == old(self).has_provider());
                }
                return true;
            }
            if self.keybindings.matches(key, ACTION_SELECT_UP) || self.keybindings.matches(key, ACTION_SELECT_DOWN) {
                let mut l = None;
                std::mem::swap(&mut l, &mut self.autocomplete_list);
                match l {
                    Some(mut list) => {
                        if self.keybindings.matches(key, ACTION_SELECT_UP) {
                            list.move_up();
                        } else {
                            list.move_down();
                        }
                        self.autocomplete_list = Some(list);
                    },
                    None => {},
                }
                return true;
            }
        }
        let ghost mid = *self;
        let consumed = self.plain_key(key);
        proof {
            assert(mid.text() == old(self).text());
            assert(mid.has_provider() == old(self).has_provider());
            assert(ac_kept(mid, *old(self)));
        }
        consumed
    }

    /// A key that neither a pending jump nor the open list takes.
    #[verifier::rlimit(100)]
    #[verifier::spinoff_prover]
    fn plain_key(&mut self, key: &KeyEvent) -> (consumed: bool)
        requires
            old(self).wf(),
            editor_key_ok(old(self).text(), old(self).bindings(), *key, None, old(self).layout().2 as int, old(self).layout().0),
            old(self).jump() is None,
            !(old(self).has_list() && (key_id_matches_any(old(self).bindings(), *key, ACTION_SELECT_CANCEL@)
                || key_id_matches_any(old(self).bindings(), *key, ACTION_SELECT_CONFIRM@) || key_id_matches_any(
                old(self).bindings(),
                *key,
                ACTION_INPUT_TAB@,
            ) || key_id_matches_any(old(self).bindings(), *key, ACTION_SELECT_UP@) || key_id_matches_any(
                old(self).bindings(),
                *key,
                ACTION_SELECT_DOWN@,
            ))),
        ensures
            final(self).wf(),
            ({
                let st = main_step(
                    old(self).text(),
                    old(self).bindings(),
                    *key,
                    old(self).has_list(),
                    old(self).has_provider(),
                    old(self).submit_disabled(),
                    old(self).layout().2 as int,
                    old(self).layout().0,
                );
                &&& consumed == st.consumed
                &&& st.text matches Some(t) ==> final(self).text() == t
                &&& final(self).submissions() == if st.submitted {
                    old(self).submissions().push(
                        crate::tui::components::editor_model::expand_all(joined(old(self).text().lines), old(self).text().pastes),
                    )
                } else {
                    old(self).submissions()
                }
                &&& final(self).changes() == old(self).changes() + if old(self).reports_changes() {
                    st.notes
                } else {
                    seq![]
                }
            }),
            final(self).reports_changes() == old(self).reports_changes(),
            (typing_key(old(self).bindings(), *key, None, old(self).has_list(), old(self).has_provider())
                && old(self).has_provider() && must_ask(
                typed_char(old(self).text(), key_text(*key).unwrap()),
                false,
                key_text(*key).unwrap(),
            )) ==> typed_ask_outcome(*final(self), *old(self), typed_char(old(self).text(), key_text(*key).unwrap())),
            final(self).layout() == old(self).layout(),
            final(self).bindings() == old(self).bindings(),
    {
        if self.keybindings.matches(key, ACTION_INPUT_TAB) && self.autocomplete_provider.is_some() {
            self.trigger_autocomplete(true);
            return true;
        }
        if self.keybindings.matches(key, ACTION_INPUT_SUBMIT) {
            self.submit_key();
            return true;
        }
        if self.keybindings.matches(key, ACTION_EDITOR_JUMP_FORWARD) {
            self.jump_mode = Some(JumpDirection::Forward);
            return true;
        }
        if self.keybindings.matches(key, ACTION_EDITOR_JUMP_BACKWARD) {
            self.jump_mode = Some(JumpDirection::Backward);
            return true;
        }
        if is_printable(key) {
            match key_event_to_string(key) {
                Some(s) => {
                    self.type_text(s.as_str());
                    return true;
                },
                None => {},
            }
        }
        self.handle_edit_key(key)
    }

    /// The keys for moving and editing.
    #[verifier::rlimit(100)]
    fn handle_edit_key(&mut self, key: &KeyEvent) -> (consumed: bool)
        requires
            old(self).wf(),
            editor_key_ok(old(self).text(), old(self).bindings(), *key, None, old(self).layout().2 as int, old(self).layout().0),
            !typed_key(*key),
            !key_id_matches_any(old(self).bindings(), *key, ACTION_INPUT_SUBMIT@),
            !key_id_matches_any(old(self).bindings(), *key, ACTION_EDITOR_JUMP_FORWARD@),
            !key_id_matches_any(old(self).bindings(), *key, ACTION_EDITOR_JUMP_BACKWARD@),
        ensures
            final(self).wf(),
            ({
                let st = main_step(
                    old(self).text(),
                    old(self).bindings(),
                    *key,
                    false,
                    false,
                    false,
                    old(self).layout().2 as int,
                    old(self).layout().0,
                );
                &&& consumed == st.consumed
                &&& st.text matches Some(t) ==> final(self).text() == t
                &&& final(self).changes() == old(self).changes() + if old(self).reports_changes() {
                    st.notes
                } else {
                    seq![]
                }
            }),
            final(self).reports_changes() == old(self).reports_changes(),
            final(self).submissions() == old(self).submissions(),
            final(self).layout() == old(self).layout(),
            final(self).bindings() == old(self).bindings(),
    {
        let kb = &self.keybindings;
        if kb.matches(key, ACTION_EDITOR_CURSOR_LEFT) {
            self.move_left();
            self.update_autocomplete_if_active();
            return true;
        }
        if self.keybindings.matches(key, ACTION_EDITOR_CURSOR_RIGHT) {
            self.move_right();
            self.update_autocomplete_if_active();
            return true;
        }
        if self.keybindings.matches(key, ACTION_EDITOR_CURSOR_LINE_START) {
            self.move_to_line_start();
            self.update_autocomplete_if_active();
            return true;
        }
        if self.keybindings.matches(key, ACTION_EDITOR_CURSOR_LINE_END) {
            self.move_to_line_end();
            self.update_autocomplete_if_active();
            return true;
        }
        if self.keybindings.matches(key, ACTION_EDITOR_CURSOR_UP) {
            let first = self.is_first_visual_line();
            if first && (self.is_empty() || self.history_index >= 0 || self.cursor_col == 0) {
                self.recall_older();
            } else if first {
                self.move_to_line_start();
            } else {
                self.move_vertical(true);
            }
            self.update_autocomplete_if_active();
            return true;
        }
        if self.keybindings.matches(key, ACTION_EDITOR_CURSOR_DOWN) {
            let last = self.is_last_visual_line();
            if self.history_index >= 0 && last {
                self.recall_newer();
            } else if last {
                self.move_to_line_end();
            } else {
                self.move_vertical(false);
            }
            self.update_autocomplete_if_active();
            return true;
        }
        if self.keybindings.matches(key, ACTION_EDITOR_PAGE_UP) {
            self.page_up();
            self.update_autocomplete_if_active();
            return true;
        }
        if self.keybindings.matches(key, ACTION_EDITOR_PAGE_DOWN) {
            self.page_down();
            self.update_autocomplete_if_active();
            return true;
        }
        if self.keybindings.matches(key, ACTION_EDITOR_CURSOR_WORD_LEFT) {
            if self.cursor_col > 0 {
                let line = clone_chars(&self.lines[self.cursor_line]);
                let c = word_left_of(&line, self.cursor_col);
                self.cursor_col = c;
                self.preferred_col = None;
            }
            self.update_autocomplete_if_active();
            return true;
        }
        if self.keybindings.matches(key, ACTION_EDITOR_CURSOR_WORD_RIGHT) {
            if self.cursor_col < self.lines[self.cursor_line].len() {
                let line = clone_chars(&self.lines[self.cursor_line]);
                let c = word_right_of(&line, self.cursor_col);
                self.cursor_col = c;
                self.preferred_col = None;
            }
            self.update_autocomplete_if_active();
            return true;
        }
        if self.keybindings.matches(key, ACTION_EDITOR_DELETE_CHAR_BACKWARD) {
            self.backspace();
            self.notify_change();
            self.report_change();
            return true;
        }
        if self.keybindings.matches(key, ACTION_EDITOR_DELETE_CHAR_FORWARD) {
            self.delete_forward();
            self.notify_change();
            self.report_change();
            self.retrigger_autocomplete_dismissed();
            return true;
        }
        if self.keybindings.matches(key, ACTION_EDITOR_DELETE_WORD_BACKWARD) {
            let go = self.cursor_col > 0 && word_left_of(self.lines[self.cursor_line].as_slice(), self.cursor_col) < self.cursor_col;
            self.delete_word_backward();
            if go {
                self.notify_change();
                self.report_change();
            }
            return true;
        }
        if self.keybindings.matches(key, ACTION_EDITOR_DELETE_WORD_FORWARD) {
            let go = self.cursor_col < self.lines[self.cursor_line].len() && word_right_of(
                self.lines[self.cursor_line].as_slice(),
                self.cursor_col,
            ) > self.cursor_col;
            self.delete_word_forward();
            if go {
                self.notify_change();
                self.report_change();
            }
            return true;
        }
        if self.keybindings.matches(key, ACTION_EDITOR_DELETE_TO_LINE_START) {
            self.delete_to_line_start();
            self.notify_change();
            self.report_change();
            return true;
        }
        if self.keybindings.matches(key, ACTION_EDITOR_DELETE_TO_LINE_END) {
            self.delete_to_line_end();
            self.notify_change();
            self.report_change();
            return true;
        }
        if self.keybindings.matches(key, ACTION_EDITOR_YANK) {
            let had = self.kill_ring.len() > 0;
            self.yank();
            if had {
                self.notify_change();
                self.report_change();
            }
            return true;
        }
        if self.keybindings.matches(key, ACTION_EDITOR_YANK_POP) {
            let go = self.last_action == Some(EditAction::Yank) && self.kill_ring.len() > 1;
            self.yank_pop();
            if go {
                self.notify_change();
                self.report_change();
            }
            return true;
        }
        if self.keybindings.matches(key, ACTION_EDITOR_UNDO) {
            self.last_action = None;
            self.undo();
            self.notify_change();
            self.report_change();
            return true;
        }
        if self.keybindings.matches(key, ACTION_INPUT_NEW_LINE) {
            self.add_newline();
            self.notify_change();
            self.report_change();
            return true;
        }
        false
    }
}

impl<P: AutocompleteProvider> crate::tui::focusable::Focusable for Editor<P> {
    fn set_focused(&mut self, focused: bool) {
        self.focused = focused;
    }

    fn focused(&self) -> bool {
        self.focused
    }
}

} // verus!
