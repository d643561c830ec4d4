//! The editor's text model: lines of characters and a cursor, and what
//! each edit does to them, as values.
use crate::tui::components::input::{ws_text, EditAction};
use crate::tui::components::line_ops::{next_cluster_len, splice};
use crate::tui::components::paste_marker::{is_marker, snapped, unit_after, unit_before};
use crate::tui::kill_ring::{pushed, rotated};
use crate::tui::sgr::{first_index_of, lemma_first_index_bound, split_on};
use crate::tui::strs::{byte_len, trim_ws};
use crate::tui::unicode::grapheme_clusters;
use crate::tui::word_nav::{bytes_of, chars_within, default_segments, prefix_bytes, suffix_bytes, word_backward, word_forward};
use vstd::prelude::*;

verus! {

/// A saved state of the text: lines, cursor line, cursor column.
pub type Snap = (Seq<Seq<char>>, nat, nat);

/// Direction of a character jump.
#[derive(PartialEq, Eq, Structural, Clone, Copy, Debug)]
pub enum JumpDirection {
    Forward,
    Backward,
}

/// The editor's text state; the cursor column is a character index.
pub struct TextView {
    pub lines: Seq<Seq<char>>,
    pub line: nat,
    pub col: nat,
    pub kill: Seq<Seq<char>>,
    pub undo: Seq<Snap>,
    pub history: Seq<Seq<char>>,
    pub history_index: int,
    pub draft: Option<Snap>,
    pub last: Option<EditAction>,
    pub preferred: Option<nat>,
    pub scroll: nat,
    pub pastes: Seq<(u32, Seq<char>)>,
    pub paste_counter: u32,
}

/// The cursor is on a line and within it; there is a line.
pub open spec fn text_wf(v: TextView) -> bool {
    &&& v.lines.len() >= 1
    &&& v.line < v.lines.len()
    &&& v.col <= v.lines[v.line as int].len()
}

/// The cursor's line.
pub open spec fn cur(v: TextView) -> Seq<char> {
    v.lines[v.line as int]
}

/// The cursor column in bytes.
pub open spec fn byte_col(v: TextView) -> int {
    byte_len(cur(v).take(v.col as int)) as int
}

/// The state saved for undo.
pub open spec fn snap(v: TextView) -> Snap {
    (v.lines, v.line, v.col)
}

/// With history browsing left.
pub open spec fn exit_hist(v: TextView) -> TextView {
    TextView { history_index: -1, draft: None, last: None, ..v }
}

/// With the state saved for undo.
pub open spec fn pushed_undo(v: TextView) -> TextView {
    TextView { undo: v.undo.push(snap(v)), ..v }
}

/// Lines joined with newlines.
pub open spec fn joined(ls: Seq<Seq<char>>) -> Seq<char>
    decreases ls.len(),
{
    if ls.len() == 0 {
        seq![]
    } else if ls.len() == 1 {
        ls[0]
    } else {
        joined(ls.drop_last()) + seq!['\n'] + ls.last()
    }
}

/// The lines of a text: one empty line for no text.
pub open spec fn text_lines(t: Seq<char>) -> Seq<Seq<char>> {
    if t.len() == 0 {
        seq![seq![]]
    } else {
        split_on(t, '\n')
    }
}

/// With the text replaced; the cursor at its end.
pub open spec fn with_text(v: TextView, t: Seq<char>) -> TextView {
    let ls = text_lines(t);
    TextView { lines: ls, line: (ls.len() - 1) as nat, col: ls.last().len(), scroll: 0, preferred: None, ..v }
}

/// `\r\n` as `\n`, tabs as four spaces.
pub open spec fn normalized(t: Seq<char>) -> Seq<char>
    decreases t.len(),
{
    if t.len() == 0 {
        seq![]
    } else if t[0] == '\r' && t.len() > 1 && t[1] == '\n' {
        seq!['\n'] + normalized(t.skip(2))
    } else if t[0] == '\t' {
        seq![' ', ' ', ' ', ' '] + normalized(t.drop_first())
    } else {
        seq![t[0]] + normalized(t.drop_first())
    }
}

/// With `t` inserted at the cursor; its newlines split the line.
pub open spec fn inserted(v: TextView, t: Seq<char>) -> TextView {
    if t.len() == 0 {
        v
    } else {
        let n = normalized(t);
        let parts = split_on(n, '\n');
        let line = cur(v);
        let before = line.take(v.col as int);
        let after = line.skip(v.col as int);
        if parts.len() == 1 {
            TextView { lines: v.lines.update(v.line as int, before + n + after), col: v.col + n.len(), preferred: None, ..v }
        } else {
            let mid = parts.subrange(1, parts.len() - 1);
            TextView {
                lines: v.lines.take(v.line as int) + seq![before + parts[0]] + mid + seq![parts.last() + after]
                    + v.lines.skip(v.line + 1int),
                line: (v.line + parts.len() - 1) as nat,
                col: parts.last().len(),
                preferred: None,
                ..v
            }
        }
    }
}

/// Typing `ch`: history left, undo saved, then inserted.
pub open spec fn typed_char(v: TextView, ch: Seq<char>) -> TextView {
    let v1 = exit_hist(v);
    let v2 = if ws_text(ch) || v1.last != Some(EditAction::TypeWord) { pushed_undo(v1) } else { v1 };
    inserted(TextView { last: Some(EditAction::TypeWord), ..v2 }, ch)
}

/// The line split at the cursor.
pub open spec fn newline_added(v: TextView) -> TextView {
    let v1 = pushed_undo(exit_hist(v));
    let line = cur(v);
    TextView {
        lines: v.lines.take(v.line as int) + seq![line.take(v.col as int), line.skip(v.col as int)] + v.lines.skip(
            v.line + 1int,
        ),
        line: v.line + 1,
        col: 0,
        preferred: None,
        ..v1
    }
}

/// The lines with line `i` joined onto line `i - 1`.
pub open spec fn merged_up(ls: Seq<Seq<char>>, i: int) -> Seq<Seq<char>> {
    ls.take(i - 1) + seq![ls[i - 1] + ls[i]] + ls.skip(i + 1)
}

/// Backspace: the unit before the cursor goes, or the line joins the previous one.
pub open spec fn backspaced(v: TextView) -> TextView {
    let v1 = exit_hist(v);
    if v.col > 0 {
        let v2 = pushed_undo(v1);
        match unit_before(cur(v), v.col as int) {
            Some((a, b)) => TextView {
                lines: v.lines.update(v.line as int, splice(cur(v), a, b, seq![])),
                col: a as nat,
                preferred: None,
                ..v2
            },
            None => v2,
        }
    } else if v.line > 0 {
        let v2 = pushed_undo(v1);
        TextView {
            lines: merged_up(v.lines, v.line as int),
            line: (v.line - 1) as nat,
            col: v.lines[v.line - 1].len(),
            preferred: None,
            ..v2
        }
    } else {
        v1
    }
}

/// Delete: the unit after the cursor goes, or the next line joins this one.
pub open spec fn deleted_forward(v: TextView) -> TextView {
    let v1 = exit_hist(v);
    if v.col < cur(v).len() {
        let v2 = pushed_undo(v1);
        match unit_after(cur(v), v.col as int) {
            Some((a, b)) => TextView { lines: v.lines.update(v.line as int, splice(cur(v), a, b, seq![])), ..v2 },
            None => v2,
        }
    } else if v.line + 1 < v.lines.len() {
        let v2 = pushed_undo(v1);
        TextView { lines: merged_up(v.lines, v.line + 1int), ..v2 }
    } else {
        v1
    }
}

/// Kill to the line start (or the line break before).
pub open spec fn killed_to_line_start(v: TextView) -> TextView {
    let v1 = exit_hist(v);
    let acc = v1.last == Some(EditAction::Kill);
    if v.col > 0 {
        let v2 = pushed_undo(v1);
        TextView {
            kill: pushed(v.kill, cur(v).take(v.col as int), true, acc),
            last: Some(EditAction::Kill),
            lines: v.lines.update(v.line as int, cur(v).skip(v.col as int)),
            col: 0,
            preferred: None,
            ..v2
        }
    } else if v.line > 0 {
        let v2 = pushed_undo(v1);
        TextView {
            kill: pushed(v.kill, seq!['\n'], true, acc),
            last: Some(EditAction::Kill),
            lines: merged_up(v.lines, v.line as int),
            line: (v.line - 1) as nat,
            col: v.lines[v.line - 1].len(),
            preferred: None,
            ..v2
        }
    } else {
        v1
    }
}

/// Kill to the line end (or the line break after).
pub open spec fn killed_to_line_end(v: TextView) -> TextView {
    let v1 = exit_hist(v);
    let acc = v1.last == Some(EditAction::Kill);
    if v.col < cur(v).len() {
        let v2 = pushed_undo(v1);
        TextView {
            kill: pushed(v.kill, cur(v).skip(v.col as int), false, acc),
            last: Some(EditAction::Kill),
            lines: v.lines.update(v.line as int, cur(v).take(v.col as int)),
            ..v2
        }
    } else if v.line + 1 < v.lines.len() {
        let v2 = pushed_undo(v1);
        TextView {
            kill: pushed(v.kill, seq!['\n'], false, acc),
            last: Some(EditAction::Kill),
            lines: merged_up(v.lines, v.line + 1int),
            ..v2
        }
    } else {
        v1
    }
}

/// Marker segments are atomic.
pub open spec fn marker_flags(segs: Seq<(Seq<char>, bool)>) -> Seq<bool> {
    segs.map_values(|s: (Seq<char>, bool)| is_marker(s.0))
}

/// One word backward in `line` from character `c`, paste markers atomic.
pub open spec fn word_left_in(line: Seq<char>, c: int) -> int {
    let b = byte_len(line.take(c)) as int;
    if b == 0 {
        0
    } else {
        let segs = default_segments(prefix_bytes(line, b));
        chars_within(line, word_backward(segs, marker_flags(segs), b))
    }
}

/// One word forward in `line` from character `c`, paste markers atomic.
pub open spec fn word_right_in(line: Seq<char>, c: int) -> int {
    let b = byte_len(line.take(c)) as int;
    if b >= byte_len(line) {
        line.len() as int
    } else {
        let segs = default_segments(suffix_bytes(line, b));
        chars_within(line, word_forward(segs, marker_flags(segs), b))
    }
}

/// Kill the word before the cursor.
pub open spec fn killed_word_left(v: TextView) -> TextView {
    let v1 = exit_hist(v);
    if v.col == 0 {
        v1
    } else {
        let nc = word_left_in(cur(v), v.col as int);
        if nc < v.col {
            let v2 = pushed_undo(v1);
            TextView {
                kill: pushed(v.kill, cur(v).subrange(nc, v.col as int), true, v1.last == Some(EditAction::Kill)),
                last: Some(EditAction::Kill),
                lines: v.lines.update(v.line as int, splice(cur(v), nc, v.col as int, seq![])),
                col: nc as nat,
                preferred: None,
                ..v2
            }
        } else {
            v1
        }
    }
}

/// Kill the word after the cursor.
pub open spec fn killed_word_right(v: TextView) -> TextView {
    let v1 = exit_hist(v);
    if v.col >= cur(v).len() {
        v1
    } else {
        let nc = word_right_in(cur(v), v.col as int);
        if nc > v.col {
            let v2 = pushed_undo(v1);
            TextView {
                kill: pushed(v.kill, cur(v).subrange(v.col as int, nc), false, v1.last == Some(EditAction::Kill)),
                last: Some(EditAction::Kill),
                lines: v.lines.update(v.line as int, splice(cur(v), v.col as int, nc, seq![])),
                ..v2
            }
        } else {
            v1
        }
    }
}

/// Yank the most recent kill at the cursor.
pub open spec fn yanked_text(v: TextView) -> TextView {
    let v1 = exit_hist(v);
    if v.kill.len() > 0 {
        let t = v.kill.last();
        let v2 = pushed_undo(v1);
        TextView {
            lines: v.lines.update(v.line as int, splice(cur(v), v.col as int, v.col as int, t)),
            col: v.col + t.len(),
            last: Some(EditAction::Yank),
            ..v2
        }
    } else {
        v1
    }
}

/// Yank-pop removes as many bytes before the cursor as the last yank had;
/// that must end on a character.
pub open spec fn yank_pop_fits(v: TextView) -> bool {
    (v.last == Some(EditAction::Yank) && v.kill.len() > 1 && byte_col(v) >= byte_len(v.kill.last()))
        ==> crate::tui::word_nav::char_boundary(cur(v), byte_col(v) - byte_len(v.kill.last()))
}

/// Replace the last yank with the next older kill.
pub open spec fn yank_popped_text(v: TextView) -> TextView {
    if v.last != Some(EditAction::Yank) || v.kill.len() <= 1 {
        v
    } else {
        let v1 = pushed_undo(v);
        let prev = v.kill.last();
        let a = if byte_col(v) >= byte_len(prev) {
            chars_within(cur(v), byte_col(v) - byte_len(prev))
        } else {
            v.col as int
        };
        let l2 = splice(cur(v), a, v.col as int, seq![]);
        let k2 = rotated(v.kill);
        let t = k2.last();
        TextView {
            lines: v.lines.update(v.line as int, splice(l2, a, a, t)),
            col: (a + t.len()) as nat,
            kill: k2,
            last: Some(EditAction::Yank),
            ..v1
        }
    }
}

/// Move one unit left (onto the previous line at its start).
pub open spec fn moved_left_text(v: TextView) -> TextView {
    let v0 = TextView { last: None, ..v };
    if v.col > 0 {
        let gs = grapheme_clusters(cur(v).take(v.col as int));
        if gs.len() > 0 {
            TextView { col: snapped(cur(v), v.col - gs.last().len(), true) as nat, preferred: None, ..v0 }
        } else {
            v0
        }
    } else if v.line > 0 {
        TextView { line: (v.line - 1) as nat, col: v.lines[v.line - 1].len(), preferred: None, ..v0 }
    } else {
        v0
    }
}

/// Move one unit right (onto the next line at its start).
pub open spec fn moved_right_text(v: TextView) -> TextView {
    let v0 = TextView { last: None, ..v };
    if v.col < cur(v).len() {
        TextView {
            col: snapped(cur(v), v.col + next_cluster_len(cur(v), v.col as int), false) as nat,
            preferred: None,
            ..v0
        }
    } else if v.line + 1 < v.lines.len() {
        TextView { line: v.line + 1, col: 0, preferred: None, ..v0 }
    } else {
        v0
    }
}

/// Remember a submitted text: trimmed, not twice in a row, newest first,
/// at most a hundred.
pub open spec fn history_added(v: TextView, text: Seq<char>) -> TextView {
    let t = trim_ws(text);
    if t.len() == 0 || (v.history.len() > 0 && v.history[0] == t) {
        v
    } else {
        let h = seq![t] + v.history;
        TextView { history: if h.len() > 100 { h.drop_last() } else { h }, history_index: -1, ..v }
    }
}

/// Up in history: the next older entry, the cursor at its start; the
/// draft is kept on the way in.
pub open spec fn recalled_older(v: TextView) -> TextView {
    let idx = if v.history_index < 0 { 0 } else { v.history_index + 1 };
    if v.history.len() == 0 || idx >= v.history.len() {
        v
    } else {
        let v1 = TextView { draft: if v.history_index < 0 { Some(snap(v)) } else { v.draft }, ..v };
        let v2 = with_text(v1, v.history[idx]);
        TextView { col: 0, history_index: idx, ..v2 }
    }
}

/// Down in history: the next newer entry, or the draft back.
pub open spec fn recalled_newer(v: TextView) -> TextView {
    if v.history_index < 0 {
        v
    } else {
        let idx = v.history_index - 1;
        if idx < 0 {
            match v.draft {
                Some(d) => TextView { lines: d.0, line: d.1, col: d.2, preferred: None, draft: None, history_index: -1, ..v },
                None => TextView { history_index: -1, ..with_text(v, seq![]) },
            }
        } else {
            TextView { history_index: idx, ..with_text(v, v.history[idx]) }
        }
    }
}

/// Restore the last saved state.
pub open spec fn undone_text(v: TextView) -> TextView {
    if v.undo.len() > 0 {
        let s = v.undo.last();
        TextView { lines: s.0, line: s.1, col: s.2, preferred: None, undo: v.undo.drop_last(), ..v }
    } else {
        v
    }
}

/// A saved state is a valid state.
pub open spec fn snap_wf(s: Snap) -> bool {
    s.0.len() >= 1 && s.1 < s.0.len() && s.2 <= s.0[s.1 as int].len()
}

/// Every saved state is valid.
pub open spec fn saved_wf(v: TextView) -> bool {
    &&& forall|i: int| 0 <= i < v.undo.len() ==> snap_wf(#[trigger] v.undo[i])
    &&& (v.draft matches Some(d) ==> snap_wf(d))
}

/// `\r\n` and `\r` as `\n`, tabs as four spaces.
pub open spec fn paste_normalized(t: Seq<char>) -> Seq<char>
    decreases t.len(),
{
    if t.len() == 0 {
        seq![]
    } else if t[0] == '\r' && t.len() > 1 && t[1] == '\n' {
        seq!['\n'] + paste_normalized(t.skip(2))
    } else if t[0] == '\r' {
        seq!['\n'] + paste_normalized(t.drop_first())
    } else if t[0] == '\t' {
        seq![' ', ' ', ' ', ' '] + paste_normalized(t.drop_first())
    } else {
        seq![t[0]] + paste_normalized(t.drop_first())
    }
}

/// Only newlines, spaces and characters from U+0020 on.
pub open spec fn printable_only(t: Seq<char>) -> Seq<char> {
    t.filter(|c: char| c == '\n' || c == ' ' || (c as u32) >= 32)
}

/// The number of lines `str::lines` counts.
pub open spec fn line_count(t: Seq<char>) -> nat {
    if t.len() == 0 {
        0
    } else {
        (t.filter(|c: char| c == '\n').len() + (if t.last() == '\n' { 0nat } else { 1nat })) as nat
    }
}

/// A character of a word, by its single byte: an ASCII letter, digit or `_`.
pub open spec fn word_byte(c: char) -> bool {
    ('a' <= c && c <= 'z') || ('A' <= c && c <= 'Z') || ('0' <= c && c <= '9') || c == '_'
}

/// The text a paste inserts: decoded, normalized, filtered, and with a
/// space before a path typed right after a word.
pub open spec fn paste_prepared(v: TextView, decoded: Seq<char>) -> Seq<char> {
    let f = printable_only(paste_normalized(decoded));
    let path = f.len() > 0 && (f[0] == '/' || f[0] == '~' || f[0] == '.');
    let sp = path && v.col > 0 && word_byte(cur(v)[v.col - 1]);
    (if sp { seq![' '] } else { seq![] }) + f
}

/// `[paste #N`
pub open spec fn marker_head(id: u32) -> Seq<char> {
    "[paste #"@ + crate::tui::strs::decimal(id as nat)
}

/// The marker for a large paste: its lines where more than ten, else its bytes.
pub open spec fn paste_marker_text(id: u32, prepared: Seq<char>) -> Seq<char> {
    let lc = line_count(prepared);
    if lc > 10 {
        marker_head(id) + " +"@ + crate::tui::strs::decimal(lc) + " lines]"@
    } else {
        marker_head(id) + seq![' '] + crate::tui::strs::decimal(byte_len(prepared)) + " chars]"@
    }
}

/// A paste is large: more than ten lines or more than a thousand bytes.
pub open spec fn paste_is_large(prepared: Seq<char>) -> bool {
    (if line_count(prepared) > 1 { line_count(prepared) } else { 1 }) > 10 || byte_len(prepared) > 1000
}

/// After a paste of text that decodes to `decoded`: large pastes are kept
/// aside behind a marker.
pub open spec fn pasted_text(v: TextView, decoded: Seq<char>) -> TextView {
    let v1 = pushed_undo(exit_hist(v));
    let prepared = paste_prepared(v, decoded);
    if paste_is_large(prepared) {
        let id = (v.paste_counter + 1) as u32;
        inserted(
            TextView { pastes: v.pastes.push((id, prepared)), paste_counter: id, ..v1 },
            paste_marker_text(id, prepared),
        )
    } else {
        inserted(v1, prepared)
    }
}

/// Every occurrence of `m` in `r`, up to the next `]` (or the end),
/// replaced by `content`, left to right.
pub open spec fn expand_one(r: Seq<char>, m: Seq<char>, content: Seq<char>) -> Seq<char>
    decreases r.len(),
{
    let p = crate::tui::components::paste_marker::find_from(r, m, 0);
    if p < 0 || m.len() == 0 {
        r
    } else {
        let e = crate::tui::components::paste_marker::find_from(r, seq![']'], p);
        let end = if e < 0 { r.len() as int } else { e + 1 };
        proof {
            crate::tui::components::paste_marker::lemma_find_from_bounds(r, m, 0);
            crate::tui::components::paste_marker::lemma_find_from_bounds(r, seq![']'], p);
        }
        r.take(p) + content + expand_one(r.skip(end), m, content)
    }
}

/// The markers of the pastes expanded, the newest paste first.
pub open spec fn expand_all(r: Seq<char>, pastes: Seq<(u32, Seq<char>)>) -> Seq<char>
    decreases pastes.len(),
{
    if pastes.len() == 0 {
        r
    } else {
        let p = pastes.last();
        expand_all(expand_one(r, marker_head(p.0) + seq![' '], p.1), pastes.drop_last())
    }
}

/// `ls` has no line left out: it joins back to the text it came from.
pub proof fn lemma_split_nonempty(s: Seq<char>, c: char)
    ensures
        split_on(s, c).len() >= 1,
{
}

proof fn lemma_joined_cons(a: Seq<char>, rest: Seq<Seq<char>>)
    requires
        rest.len() >= 1,
    ensures
        joined(seq![a] + rest) == a + seq!['\n'] + joined(rest),
    decreases rest.len(),
{
    let all = seq![a] + rest;
    if rest.len() == 1 {
        assert(all.drop_last() =~= seq![a]);
        assert(all.last() == rest[0]);
        assert(joined(seq![a]) == a);
        assert(joined(rest) == rest[0]);
    } else {
        lemma_joined_cons(a, rest.drop_last());
        assert(all.drop_last() =~= seq![a] + rest.drop_last());
        assert(joined(all) =~= a + seq!['\n'] + joined(rest));
    }
}

/// Splitting a text at its newlines and joining the pieces with newlines
/// gives the text back.
pub proof fn lemma_joined_split(s: Seq<char>)
    ensures
        joined(split_on(s, '\n')) == s,
    decreases s.len(),
{
    lemma_first_index_bound(s, '\n');
    let k = first_index_of(s, '\n');
    if k < s.len() {
        lemma_joined_split(s.skip(k + 1));
        lemma_split_nonempty(s.skip(k + 1), '\n');
        lemma_joined_cons(s.take(k), split_on(s.skip(k + 1), '\n'));
        assert(s =~= s.take(k) + seq!['\n'] + s.skip(k + 1));
    }
}

/// Setting a text and reading it back gives that text.
pub proof fn law_set_text_then_get_text(v: TextView, t: Seq<char>)
    ensures
        joined(with_text(v, t).lines) == t,
{
    if t.len() == 0 {
        assert(joined(seq![Seq::<char>::empty()]) == Seq::<char>::empty());
        assert(t =~= Seq::<char>::empty());
    } else {
        lemma_joined_split(t);
    }
}

/// Undo after an edit that saved the state brings back the text and the
/// cursor from before it.
pub proof fn law_undo_restores(v: TextView, edited: TextView)
    requires
        edited.undo == exit_hist(v).undo.push(snap(v)),
    ensures
        undone_text(edited).lines == v.lines,
        undone_text(edited).line == v.line,
        undone_text(edited).col == v.col,
        undone_text(edited).undo == v.undo,
{
    assert(edited.undo.drop_last() =~= v.undo);
}

/// Killing to the end of the line and yanking at once puts the line back
/// as it was, with the cursor at its end.
pub proof fn law_kill_then_yank_restores(v: TextView)
    requires
        text_wf(v),
        v.col < cur(v).len(),
    ensures
        yanked_text(killed_to_line_end(v)).lines == v.lines,
        yanked_text(killed_to_line_end(v)).col == cur(v).len(),
{
    let k = killed_to_line_end(v);
    let line = cur(v);
    assert(k.kill.last() == line.skip(v.col as int));
    assert(cur(k) == line.take(v.col as int));
    assert(crate::tui::components::line_ops::splice(cur(k), v.col as int, v.col as int, k.kill.last()) =~= line);
    assert(v.lines.update(v.line as int, line) =~= v.lines);
}


/// Killing to the line start with the cursor at column `c > 0` takes the
/// line's first `c` characters onto the kill ring and leaves the rest: the
/// killed text followed by the new line is the old line, the cursor goes to
/// column 0 of the same line and the other lines stay. Yanking at once puts
/// the line back, with the cursor where it was.
pub proof fn law_kill_to_line_start(v: TextView)
    requires
        text_wf(v),
        v.col > 0,
    ensures
        killed_to_line_start(v).line == v.line,
        killed_to_line_start(v).col == 0,
        killed_to_line_start(v).lines.len() == v.lines.len(),
        forall|i: int|
            0 <= i < v.lines.len() && i != v.line ==> #[trigger] killed_to_line_start(v).lines[i] == v.lines[i],
        killed_to_line_start(v).kill.last().len() == v.col,
        killed_to_line_start(v).kill.last() + cur(killed_to_line_start(v)) == cur(v),
        yanked_text(killed_to_line_start(v)).lines == v.lines,
        yanked_text(killed_to_line_start(v)).col == v.col,
{
    let k = killed_to_line_start(v);
    let line = cur(v);
    assert(k.kill.last() == line.take(v.col as int));
    assert(cur(k) == line.skip(v.col as int));
    assert(line.take(v.col as int) + line.skip(v.col as int) =~= line);
    assert(crate::tui::components::line_ops::splice(cur(k), 0, 0, k.kill.last()) =~= line);
    assert(v.lines.update(v.line as int, line) =~= v.lines);
}

} // verus!
