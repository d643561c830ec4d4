//! The differential renderer: it keeps the previous frame and emits the
//! smallest ANSI update that turns the terminal into the new frame.
use crate::tui::components::paste_marker::{find_from, find_from_exec, lemma_find_from_bounds};
use crate::tui::focusable::CURSOR_MARKER;
use crate::tui::strs::{decimal, push_decimal, push_str, str_chars, string_from_chars, sub_chars};
use crate::tui::util::{visible_width_checked, visible_width_of};
use vstd::prelude::*;
use vstd::seq_lib::lemma_concat_associative;

verus! {

broadcast use vstd::string::group_string_axioms;

/// What a screen remembers of the terminal, as values.
pub struct ScreenView {
    /// The lines of the last frame.
    pub lines: Seq<Seq<char>>,
    pub width: nat,
    pub height: nat,
    pub cursor_row: nat,
    /// The row the terminal's cursor is on.
    pub hw_row: nat,
    /// The first content line shown in the terminal.
    pub viewport_top: nat,
    /// The most lines drawn since the last clearing redraw.
    pub max_lines: nat,
    pub redraws: nat,
    pub clear_on_shrink: bool,
    pub sync: bool,
}

/// `a - b`, or 0 where `b > a`.
pub open spec fn sat_sub(a: int, b: int) -> nat {
    if a >= b { (a - b) as nat } else { 0 }
}

pub open spec fn clear_all() -> Seq<char> {
    "\x1b[2J\x1b[H\x1b[3J"@
}

pub open spec fn sync_begin_seq() -> Seq<char> {
    "\x1b[?2026h"@
}

pub open spec fn sync_end_seq() -> Seq<char> {
    "\x1b[?2026l"@
}

pub open spec fn crlf() -> Seq<char> {
    "\r\n"@
}

pub open spec fn clear_line() -> Seq<char> {
    "\x1b[2K"@
}

/// Cursor down `n` rows.
pub open spec fn down(n: nat) -> Seq<char> {
    "\x1b["@ + decimal(n) + seq!['B']
}

/// Cursor up `n` rows.
pub open spec fn up(n: nat) -> Seq<char> {
    "\x1b["@ + decimal(n) + seq!['A']
}

/// A vertical cursor move by `n` rows (down where positive).
pub open spec fn vmove(n: int) -> Seq<char> {
    if n > 0 {
        down(n as nat)
    } else if n < 0 {
        up((-n) as nat)
    } else {
        seq![]
    }
}

/// `body` between the synchronized-output markers, where they are on.
pub open spec fn synced(sync: bool, body: Seq<char>) -> Seq<char> {
    (if sync { sync_begin_seq() } else { seq![] }) + body + (if sync { sync_end_seq() } else { seq![] })
}

/// The lines joined by `\r\n`.
pub open spec fn joined_crlf(lines: Seq<Seq<char>>) -> Seq<char>
    decreases lines.len(),
{
    if lines.len() == 0 {
        seq![]
    } else if lines.len() == 1 {
        lines[0]
    } else {
        joined_crlf(lines.drop_last()) + crlf() + lines.last()
    }
}

/// What a full redraw writes.
pub open spec fn full_output(sync: bool, clear: bool, lines: Seq<Seq<char>>) -> Seq<char> {
    (if clear { clear_all() } else { seq![] }) + synced(sync, joined_crlf(lines))
}

/// The state after a full redraw.
pub open spec fn full_state(v: ScreenView, lines: Seq<Seq<char>>, clear: bool, w: nat, h: nat) -> ScreenView {
    let n = lines.len();
    ScreenView {
        lines,
        width: w,
        height: h,
        cursor_row: sat_sub(n as int, 1),
        hw_row: sat_sub(n as int, 1),
        viewport_top: sat_sub(if h >= n { h as int } else { n as int }, h as int),
        max_lines: if n == 0 {
            0
        } else if clear || v.max_lines < n {
            n
        } else {
            v.max_lines
        },
        redraws: v.redraws + 1,
        ..v
    }
}

/// `n` lines cleared one after another, moving down between them.
pub open spec fn clear_rows(n: nat) -> Seq<char>
    decreases n,
{
    if n == 0 {
        seq![]
    } else if n == 1 {
        "\r"@ + clear_line()
    } else {
        clear_rows((n - 1) as nat) + down(1) + "\r"@ + clear_line()
    }
}

/// `s` with every occurrence of `p` taken out, left to right.
pub open spec fn remove_all(s: Seq<char>, p: Seq<char>) -> Seq<char>
    decreases s.len(),
{
    let k = find_from(s, p, 0);
    if p.len() == 0 || k < 0 {
        s
    } else {
        proof {
            lemma_find_from_bounds(s, p, 0);
        }
        s.take(k) + remove_all(s.skip(k + p.len()), p)
    }
}

/// The lowest row below `r` and at or above `top` that holds the cursor
/// marker, with the marker's index in it.
pub open spec fn marker_scan(lines: Seq<Seq<char>>, top: int, r: int) -> Option<(int, int)>
    decreases r - top,
{
    if r <= top || r > lines.len() {
        None
    } else {
        let k = find_from(lines[r - 1], CURSOR_MARKER@, 0);
        if k >= 0 {
            Some((r - 1, k))
        } else {
            marker_scan(lines, top, r - 1)
        }
    }
}

/// The lines with the cursor marker of the last `height` lines taken out,
/// and where it was: the row and the visible column.
pub open spec fn extracted(lines: Seq<Seq<char>>, height: nat) -> (Seq<Seq<char>>, Option<(nat, nat)>) {
    match marker_scan(lines, sat_sub(lines.len() as int, height as int) as int, lines.len() as int) {
        None => (lines, None),
        Some((row, k)) => {
            let line = lines[row];
            (
                lines.update(row, line.take(k) + line.skip(k + CURSOR_MARKER@.len())),
                Some((row as nat, visible_width_of(line.take(k)))),
            )
        },
    }
}


/// The line at `i`, or the empty line past the end.
pub open spec fn padded(ls: Seq<Seq<char>>, i: int) -> Seq<char> {
    if 0 <= i < ls.len() { ls[i] } else { seq![] }
}

pub open spec fn span_len(old: Seq<Seq<char>>, new: Seq<Seq<char>>) -> int {
    if old.len() >= new.len() { old.len() as int } else { new.len() as int }
}

/// The first index at or after `i` where the two frames differ.
pub open spec fn first_diff_from(old: Seq<Seq<char>>, new: Seq<Seq<char>>, i: int) -> Option<nat>
    decreases span_len(old, new) - i,
{
    if i < 0 || i >= span_len(old, new) {
        None
    } else if padded(old, i) != padded(new, i) {
        Some(i as nat)
    } else {
        first_diff_from(old, new, i + 1)
    }
}

/// The last index below `i` where the two frames differ.
pub open spec fn last_diff_below(old: Seq<Seq<char>>, new: Seq<Seq<char>>, i: int) -> Option<nat>
    decreases i,
{
    if i <= 0 {
        None
    } else if padded(old, i - 1) != padded(new, i - 1) {
        Some((i - 1) as nat)
    } else {
        last_diff_below(old, new, i - 1)
    }
}

/// `k` line feeds.
pub open spec fn crlf_times(k: nat) -> Seq<char>
    decreases k,
{
    if k == 0 { seq![] } else { crlf_times((k - 1) as nat) + crlf() }
}

/// Lines `first` to `end - 1`, each cleared and rewritten without markers.
pub open spec fn changed_lines(lines: Seq<Seq<char>>, first: int, end: int) -> Seq<char>
    decreases end - first,
{
    if end <= first {
        seq![]
    } else if end == first + 1 {
        clear_line() + remove_all(lines[first], CURSOR_MARKER@)
    } else {
        changed_lines(lines, first, end - 1) + crlf() + clear_line() + remove_all(lines[end - 1], CURSOR_MARKER@)
    }
}

/// The update when every change lies past the end of the new frame: the
/// rows left over are cleared.
pub open spec fn deleted_step(
    v: ScreenView,
    lines: Seq<Seq<char>>,
    cursor: Option<(nat, nat)>,
    w: nat,
    h: nat,
) -> (ScreenView, Seq<char>) {
    let n = lines.len();
    let p = v.lines.len();
    let pvt = v.viewport_top;
    let target = sat_sub(n as int, 1);
    let extra = sat_sub(p as int, n as int);
    if target < pvt || extra > h {
        (full_state(v, lines, true, w, h), full_output(v.sync, true, lines))
    } else {
        let line_diff = (target - pvt) - sat_sub(v.hw_row as int, pvt as int);
        let move_back = sat_sub(extra as int, 1) + if n == 0 { 0nat } else { 1nat };
        let body = vmove(line_diff) + "\r"@ + (if extra > 0 && n > 0 { down(1) } else { seq![] })
            + clear_rows(extra) + (if move_back > 0 { up(move_back) } else { seq![] });
        (
            ScreenView {
                cursor_row: target,
                hw_row: match cursor {
                    Some((r, _)) => r,
                    None => target,
                },
                lines,
                viewport_top: pvt,
                height: h,
                ..v
            },
            synced(v.sync, body),
        )
    }
}

/// The row the update starts from: the line above an appended line, so
/// that a line feed opens it.
pub open spec fn move_target(v: ScreenView, n: nat, first: nat) -> nat {
    if n > v.lines.len() && first == v.lines.len() && first > 0 { (first - 1) as nat } else { first }
}

/// What comes before the changed lines: a scroll where the first of them
/// lies below the viewport, then the move to it; with the viewport top
/// after the scroll.
pub open spec fn change_lead(v: ScreenView, n: nat, first: nat, h: nat) -> (Seq<char>, nat) {
    let p = v.lines.len();
    let pvt = v.viewport_top;
    let mt = move_target(v, n, first);
    let bottom = pvt + h - 1;
    let scrolls = mt > bottom;
    let rel = sat_sub(v.hw_row as int, pvt as int);
    let csr0: nat = if rel <= h - 1 { rel } else { (h - 1) as nat };
    let to_bottom = (h - 1 - csr0) as nat;
    let scroll = (mt - bottom) as nat;
    let out1 = if scrolls {
        (if to_bottom > 0 { down(to_bottom) } else { seq![] }) + crlf_times(scroll)
    } else {
        seq![]
    };
    let hw1: nat = if scrolls { mt } else { v.hw_row };
    let vt1: nat = if scrolls { pvt + scroll } else { pvt };
    let ld = sat_sub(mt as int, vt1 as int) - sat_sub(hw1 as int, vt1 as int);
    (out1 + vmove(ld) + (if n > p && first == p { crlf() } else { "\r"@ }), vt1)
}

/// The last line rewritten.
pub open spec fn render_end(n: nat, last: nat) -> nat {
    if last <= n - 1 { last } else { (n - 1) as nat }
}

/// The rows a shorter frame leaves, cleared, and the move back.
pub open spec fn change_tail(n: nat, p: nat, end: nat) -> Seq<char> {
    if n < p {
        down((n - end) as nat) + clear_rows((p - n) as nat) + up((p - n) as nat)
    } else {
        seq![]
    }
}

/// The update that rewrites lines `first` to `last` in place.
pub open spec fn change_step(
    v: ScreenView,
    lines: Seq<Seq<char>>,
    cursor: Option<(nat, nat)>,
    w: nat,
    h: nat,
    first: nat,
    last: nat,
) -> (ScreenView, Seq<char>) {
    let n = lines.len();
    let p = v.lines.len();
    let lead = change_lead(v, n, first, h);
    let end = render_end(n, last);
    let body = lead.0 + changed_lines(lines, first as int, end + 1int);
    if n < p && p - n > h {
        (full_state(v, lines, true, w, h), synced(v.sync, body) + full_output(v.sync, true, lines))
    } else {
        let nc: nat = match cursor {
            Some((r, _)) => r,
            None => sat_sub(n as int, 1),
        };
        let low = sat_sub(nc as int, h - 1);
        (
            ScreenView {
                cursor_row: nc,
                hw_row: nc,
                max_lines: if v.max_lines >= n { v.max_lines } else { n },
                lines,
                viewport_top: if lead.1 >= low { lead.1 } else { low },
                height: h,
                width: w,
                ..v
            },
            synced(v.sync, body + change_tail(n, p, end)),
        )
    }
}

/// Where two frames differ: the first and the last changed index, where
/// an appended empty line counts as a change; `None` where nothing changed.
pub open spec fn changes(old: Seq<Seq<char>>, new: Seq<Seq<char>>) -> Option<(nat, nat)> {
    let fc = first_diff_from(old, new, 0);
    if fc is None && !(new.len() > old.len()) {
        None
    } else {
        match fc {
            Some(f) => Some(
                (
                    f,
                    match last_diff_below(old, new, span_len(old, new)) {
                        Some(l) => l,
                        None => f,
                    },
                ),
            ),
            None => Some((old.len(), (new.len() - 1) as nat)),
        }
    }
}

/// The update of a frame of the same size as the last one.
pub open spec fn diff_step(
    v: ScreenView,
    lines: Seq<Seq<char>>,
    cursor: Option<(nat, nat)>,
    w: nat,
    h: nat,
) -> (ScreenView, Seq<char>) {
    match changes(v.lines, lines) {
        None => (ScreenView { height: h, ..v }, seq![]),
        Some((first, last)) => if first >= lines.len() {
            deleted_step(v, lines, cursor, w, h)
        } else if first < v.viewport_top {
            (full_state(v, lines, true, w, h), full_output(v.sync, true, lines))
        } else {
            change_step(v, lines, cursor, w, h, first, last)
        },
    }
}

/// What rendering a frame does: the state after it and what it writes.
pub open spec fn render_step(v: ScreenView, raw: Seq<Seq<char>>, w: nat, h: nat) -> (ScreenView, Seq<char>) {
    let lines = extracted(raw, h).0;
    let cursor = extracted(raw, h).1;
    let width_changed = v.width != 0 && v.width != w;
    let height_changed = v.height != 0 && v.height != h;
    if v.lines.len() == 0 && !width_changed && !height_changed {
        (full_state(v, lines, false, w, h), full_output(v.sync, false, lines))
    } else if width_changed || height_changed || (v.clear_on_shrink && lines.len() < v.max_lines) {
        (full_state(v, lines, true, w, h), full_output(v.sync, true, lines))
    } else {
        diff_step(v, lines, cursor, w, h)
    }
}

/// Whether the column of the cursor marker fits a `usize`.
pub open spec fn marker_col_fits(lines: Seq<Seq<char>>, height: nat) -> bool {
    match marker_scan(lines, sat_sub(lines.len() as int, height as int) as int, lines.len() as int) {
        None => true,
        Some((row, k)) => visible_width_of(lines[row].take(k)) <= usize::MAX,
    }
}

fn push_down(buf: &mut String, n: usize)
    ensures
        final(buf)@ == old(buf)@ + down(n as nat),
{
    push_str(buf, "\x1b[");
    push_decimal(buf, n);
    push_str(buf, "B");
    proof {
        reveal_strlit("B");
    }
    assert(final(buf)@ =~= old(buf)@ + down(n as nat));
}

fn push_up(buf: &mut String, n: usize)
    ensures
        final(buf)@ == old(buf)@ + up(n as nat),
{
    push_str(buf, "\x1b[");
    push_decimal(buf, n);
    push_str(buf, "A");
    proof {
        reveal_strlit("A");
    }
    assert(final(buf)@ =~= old(buf)@ + up(n as nat));
}

/// Appends a vertical move by `a - b` rows.
fn push_vmove(buf: &mut String, a: usize, b: usize)
    ensures
        final(buf)@ == old(buf)@ + vmove(a - b),
{
    if a > b {
        push_down(buf, a - b);
    } else if b > a {
        push_up(buf, b - a);
    } else {
        assert(final(buf)@ =~= old(buf)@ + vmove(a - b));
    }
}

fn push_sync_begin(buf: &mut String, sync: bool)
    ensures
        final(buf)@ == old(buf)@ + (if sync { sync_begin_seq() } else { seq![] }),
{
    if sync {
        push_str(buf, "\x1b[?2026h");
    } else {
        assert(final(buf)@ =~= old(buf)@ + seq![]);
    }
}

fn push_sync_end(buf: &mut String, sync: bool)
    ensures
        final(buf)@ == old(buf)@ + (if sync { sync_end_seq() } else { seq![] }),
{
    if sync {
        push_str(buf, "\x1b[?2026l");
    } else {
        assert(final(buf)@ =~= old(buf)@ + seq![]);
    }
}

fn push_clear_rows(buf: &mut String, n: usize)
    ensures
        final(buf)@ == old(buf)@ + clear_rows(n as nat),
{
    let ghost start = buf@;
    let mut i: usize = 0;
    while i < n
        invariant
            i <= n,
            buf@ == start + clear_rows(i as nat),
        decreases n - i,
    {
        if i > 0 {
            push_down(buf, 1);
        }
        push_str(buf, "\r\x1b[2K");
        proof {
            reveal_strlit("\r\x1b[2K");
            reveal_strlit("\r");
            reveal_strlit("\x1b[2K");
        }
        i = i + 1;
        assert(buf@ =~= start + clear_rows(i as nat));
    }
}

fn push_crlf_times(buf: &mut String, n: usize)
    ensures
        final(buf)@ == old(buf)@ + crlf_times(n as nat),
{
    let ghost start = buf@;
    let mut i: usize = 0;
    while i < n
        invariant
            i <= n,
            buf@ == start + crlf_times(i as nat),
        decreases n - i,
    {
        push_str(buf, "\r\n");
        i = i + 1;
        assert(buf@ =~= start + crlf_times(i as nat));
    }
}

/// The views of the strings.
pub open spec fn line_views(v: Seq<String>) -> Seq<Seq<char>> {
    v.map_values(|s: String| s@)
}

fn push_joined_crlf(buf: &mut String, lines: &Vec<String>)
    ensures
        final(buf)@ == old(buf)@ + joined_crlf(line_views(lines@)),
{
    let ghost start = buf@;
    let ghost all = line_views(lines@);
    let mut i: usize = 0;
    while i < lines.len()
        invariant
            i <= lines@.len(),
            all == line_views(lines@),
            buf@ == start + joined_crlf(all.take(i as int)),
        decreases lines.len() - i,
    {
        if i > 0 {
            push_str(buf, "\r\n");
        }
        push_str(buf, lines[i].as_str());
        proof {
            let t = all.take(i + 1);
            assert(t.drop_last() =~= all.take(i as int));
            if i == 0 {
                assert(all.take(0) =~= Seq::<Seq<char>>::empty());
            }
        }
        i = i + 1;
        assert(buf@ =~= start + joined_crlf(all.take(i as int)));
    }
    assert(all.take(lines@.len() as int) =~= all);
}

/// `s` without any cursor marker.
fn remove_marker(s: &String) -> (r: String)
    ensures
        r@ == remove_all(s@, CURSOR_MARKER@),
{
    let chars = str_chars(s.as_str());
    let marker = str_chars(CURSOR_MARKER);
    let mut out = String::new();
    let mut pos: usize = 0;
    proof {
        reveal_strlit("\x1b_pi:c\x07");
        assert(chars@.skip(0) =~= chars@);
        assert(out@ + remove_all(chars@, marker@) =~= remove_all(chars@, marker@));
    }
    while pos <= chars.len()
        invariant
            pos <= chars@.len(),
            chars@ == s@,
            marker@ == CURSOR_MARKER@,
            marker@.len() == 7,
            out@ + remove_all(chars@.skip(pos as int), marker@) == remove_all(s@, CURSOR_MARKER@),
        decreases chars.len() - pos,
    {
        let rest = sub_chars(&chars, pos, chars.len());
        match find_from_exec(&rest, &marker, 0) {
            Some(k) => {
                proof {
                    assert(rest@ =~= chars@.skip(pos as int));
                }
                let before = sub_chars(&rest, 0, k);
                crate::tui::strs::push_chars(&mut out, &before);
                proof {
                    assert(before@ =~= rest@.take(k as int));
                    assert(rest@.skip(k + 7) =~= chars@.skip(pos + k + 7));
                }
                pos = pos + k + 7;
            },
            None => {
                proof {
                    assert(rest@ =~= chars@.skip(pos as int));
                }
                crate::tui::strs::push_chars(&mut out, &rest);
                return out;
            },
        }
    }
    out
}

/// Appends lines `first` to `end - 1`, each cleared and rewritten
/// without markers.
fn push_changed_lines(buf: &mut String, lines: &Vec<String>, first: usize, end: usize)
    requires
        first < end <= lines@.len(),
    ensures
        final(buf)@ == old(buf)@ + changed_lines(line_views(lines@), first as int, end as int),
{
    let ghost lv = line_views(lines@);
    let ghost start = buf@;
    let mut i = first;
    assert(changed_lines(lv, first as int, first as int) =~= Seq::<char>::empty());
    assert(buf@ =~= start + changed_lines(lv, first as int, first as int));
    while i < end
        invariant
            first <= i <= end <= lines@.len(),
            lv == line_views(lines@),
            buf@ == start + changed_lines(lv, first as int, i as int),
        decreases end - i,
    {
        if i > first {
            push_str(buf, "\r\n");
        }
        push_str(buf, "\x1b[2K");
        let clean = remove_marker(&lines[i]);
        push_str(buf, clean.as_str());
        i = i + 1;
        proof {
            assert(lv[i - 1] == lines@[i - 1]@);
            assert(buf@ =~= start + changed_lines(lv, first as int, i as int));
        }
    }
}

/// Appends the clearing of the rows a shorter frame leaves.
fn push_change_tail(buf: &mut String, n: usize, p: usize, render_end: usize)
    requires
        render_end < n,
    ensures
        final(buf)@ == old(buf)@ + change_tail(n as nat, p as nat, render_end as nat),
{
    let ghost b = buf@;
    if n < p {
        let extra = p - n;
        push_down(buf, n - render_end);
        push_clear_rows(buf, extra);
        push_up(buf, extra);
        assert(buf@ =~= b + change_tail(n as nat, p as nat, render_end as nat));
    } else {
        assert(buf@ =~= b + change_tail(n as nat, p as nat, render_end as nat));
    }
}

/// Appends the UTF-8 bytes of `s`.
pub(crate) fn emit(out: &mut Vec<u8>, s: &String)
    ensures
        final(out)@ == old(out)@ + vstd::utf8::encode_utf8(s@),
{
    let bytes = s.as_str().as_bytes();
    out.extend_from_slice(bytes);
    assert(final(out)@ =~= old(out)@ + vstd::utf8::encode_utf8(s@));
}

proof fn lemma_first_diff_at(old: Seq<Seq<char>>, new: Seq<Seq<char>>, f: int, i: int)
    requires
        0 <= i <= f < span_len(old, new),
        padded(old, f) != padded(new, f),
        forall|j: int| i <= j < f ==> padded(old, j) == padded(new, j),
    ensures
        first_diff_from(old, new, i) == Some(f as nat),
    decreases f - i,
{
    if i < f {
        lemma_first_diff_at(old, new, f, i + 1);
    }
}

proof fn lemma_no_diff_from(old: Seq<Seq<char>>, new: Seq<Seq<char>>, i: int)
    requires
        0 <= i,
        forall|j: int| i <= j < span_len(old, new) ==> padded(old, j) == padded(new, j),
    ensures
        first_diff_from(old, new, i) is None,
    decreases span_len(old, new) - i,
{
    if i < span_len(old, new) {
        lemma_no_diff_from(old, new, i + 1);
    }
}

proof fn lemma_last_diff_at(old: Seq<Seq<char>>, new: Seq<Seq<char>>, l: int, i: int)
    requires
        0 <= l < i,
        padded(old, l) != padded(new, l),
        forall|j: int| l < j < i ==> padded(old, j) == padded(new, j),
    ensures
        last_diff_below(old, new, i) == Some(l as nat),
    decreases i,
{
    if i - 1 > l {
        lemma_last_diff_at(old, new, l, i - 1);
    }
}

/// The cursor position as values.
pub open spec fn cursor_view(c: Option<(usize, usize)>) -> Option<(nat, nat)> {
    match c {
        Some((r, k)) => Some((r as nat, k as nat)),
        None => None,
    }
}

/// Bounds that the screen keeps: the rows it tracks lie within the last
/// frame, and a frame leaves room for any terminal height.
pub open spec fn screen_wf(v: ScreenView) -> bool {
    &&& v.viewport_top <= v.lines.len()
    &&& v.hw_row <= v.lines.len()
    &&& v.cursor_row <= v.lines.len()
    &&& v.lines.len() + 65536 <= usize::MAX
    &&& v.width <= u16::MAX
    &&& v.height <= u16::MAX
}

/// The differential renderer: it keeps the previous frame and emits minimal
/// ANSI updates.
pub struct Screen {
    prev_lines: Vec<String>,
    prev_width: u16,
    prev_height: u16,
    cursor_row: usize,
    hardware_cursor_row: usize,
    prev_viewport_top: usize,
    max_lines_rendered: usize,
    full_redraw_count: usize,
    clear_on_shrink: bool,
    /// Whether to use the synchronized-output markers (`\x1b[?2026h` and
    /// `\x1b[?2026l`), which keep a differential render from flickering.
    use_sync_output: bool,
}

impl View for Screen {
    type V = ScreenView;

    closed spec fn view(&self) -> ScreenView {
        ScreenView {
            lines: line_views(self.prev_lines@),
            width: self.prev_width as nat,
            height: self.prev_height as nat,
            cursor_row: self.cursor_row as nat,
            hw_row: self.hardware_cursor_row as nat,
            viewport_top: self.prev_viewport_top as nat,
            max_lines: self.max_lines_rendered as nat,
            redraws: self.full_redraw_count as nat,
            clear_on_shrink: self.clear_on_shrink,
            sync: self.use_sync_output,
        }
    }
}

/// What `finalize` writes: the cursor goes one line past the content.
pub open spec fn finalize_output(v: ScreenView) -> Seq<char> {
    if v.lines.len() == 0 {
        seq![]
    } else {
        vmove(v.lines.len() - v.hw_row) + crlf()
    }
}

impl Screen {
    pub fn new() -> (s: Self)
        ensures
            s@ == (ScreenView {
                lines: seq![],
                width: 0,
                height: 0,
                cursor_row: 0,
                hw_row: 0,
                viewport_top: 0,
                max_lines: 0,
                redraws: 0,
                clear_on_shrink: true,
                sync: true,
            }),
            screen_wf(s@),
    {
        let s = Screen {
            prev_lines: Vec::new(),
            prev_width: 0,
            prev_height: 0,
            cursor_row: 0,
            hardware_cursor_row: 0,
            prev_viewport_top: 0,
            max_lines_rendered: 0,
            full_redraw_count: 0,
            clear_on_shrink: true,
            use_sync_output: true,
        };
        assert(s@.lines =~= Seq::<Seq<char>>::empty());
        s
    }

    /// Viewport top position (first visible line in terminal).
    pub fn prev_viewport_top(&self) -> (r: usize)
        ensures
            r == self@.viewport_top,
    {
        self.prev_viewport_top
    }

    /// The current hardware cursor row tracking.
    pub fn hardware_cursor_row(&self) -> (r: usize)
        ensures
            r == self@.hw_row,
    {
        self.hardware_cursor_row
    }

    /// Whether a shrinking frame forces a full redraw.
    pub fn clear_on_shrink(&self) -> (r: bool)
        ensures
            r == self@.clear_on_shrink,
    {
        self.clear_on_shrink
    }

    pub fn prev_width(&self) -> (r: usize)
        ensures
            r == self@.width,
    {
        self.prev_width as usize
    }

    pub fn prev_height(&self) -> (r: usize)
        ensures
            r == self@.height,
    {
        self.prev_height as usize
    }

    pub fn full_redraw_count(&self) -> (r: usize)
        ensures
            r == self@.redraws,
    {
        self.full_redraw_count
    }

    /// Total number of lines in the last rendered frame.
    pub fn total_lines(&self) -> (r: usize)
        ensures
            r == self@.lines.len(),
    {
        self.prev_lines.len()
    }

    pub fn set_clear_on_shrink(&mut self, enabled: bool)
        ensures
            final(self)@ == (ScreenView { clear_on_shrink: enabled, ..old(self)@ }),
    {
        self.clear_on_shrink = enabled;
    }

    /// Enables or disables the synchronized-output markers.
    pub fn set_use_sync_output(&mut self, enabled: bool)
        ensures
            final(self)@ == (ScreenView { sync: enabled, ..old(self)@ }),
    {
        self.use_sync_output = enabled;
    }

    /// Moves the cursor to one line past all rendered content, so that what
    /// the shell prints after the program exits starts on a fresh line.
    pub fn finalize(&mut self, out: &mut Vec<u8>)
        requires
            screen_wf(old(self)@),
        ensures
            final(self)@ == old(self)@,
            final(out)@ == old(out)@ + vstd::utf8::encode_utf8(finalize_output(old(self)@)),
    {
        if self.prev_lines.len() == 0 {
            assert(final(out)@ =~= old(out)@ + vstd::utf8::encode_utf8(seq![]));
            return;
        }
        let mut buf = String::new();
        push_vmove(&mut buf, self.prev_lines.len(), self.hardware_cursor_row);
        push_str(&mut buf, "\r\n");
        emit(out, &buf);
        assert(buf@ =~= finalize_output(old(self)@));
    }

    /// Finds the cursor marker in the last `height` lines, strips it and
    /// returns its row and visible column: the lowest line that holds one
    /// wins.
    pub fn extract_cursor_marker(&self, lines: &mut Vec<String>, height: usize) -> (r: Option<(usize, usize)>)
        requires
            marker_col_fits(line_views(old(lines)@), height as nat),
        ensures
            line_views(final(lines)@) == extracted(line_views(old(lines)@), height as nat).0,
            cursor_view(r) == extracted(line_views(old(lines)@), height as nat).1,
    {
        let ghost ls = line_views(lines@);
        let top = if lines.len() >= height { lines.len() - height } else { 0 };
        let marker = str_chars(CURSOR_MARKER);
        let mut row = lines.len();
        proof {
            reveal_strlit("\x1b_pi:c\x07");
        }
        while row > top
            invariant
                top <= row <= lines@.len(),
                top == sat_sub(lines@.len() as int, height as int),
                ls == line_views(lines@),
                lines@ == old(lines)@,
                marker@ == CURSOR_MARKER@,
                marker@.len() == 7,
                ls == line_views(old(lines)@),
                marker_col_fits(ls, height as nat),
                marker_scan(ls, top as int, lines@.len() as int) == marker_scan(ls, top as int, row as int),
            decreases row,
        {
            let line = str_chars(lines[row - 1].as_str());
            match find_from_exec(&line, &marker, 0) {
                Some(k) => {
                    let ml = marker.len();
                    let ll = line.len();
                    assert(k + ml <= ll);
                    let before = sub_chars(&line, 0, k);
                    let after = sub_chars(&line, k + ml, ll);
                    proof {
                        assert(ls[row - 1] == line@);
                        assert(before@ =~= line@.take(k as int));
                        assert(marker_scan(ls, top as int, row as int) == Some(((row - 1) as int, k as int)));
                    }
                    let col = match visible_width_checked(&before) {
                        Some(w) => w,
                        None => 0,
                    };
                    let mut joined = string_from_chars(&before);
                    crate::tui::strs::push_chars(&mut joined, &after);
                    let ghost old_lines = lines@;
                    lines.set(row - 1, joined);
                    proof {
                        assert(after@ =~= line@.skip(k + CURSOR_MARKER@.len()));
                        assert(line_views(lines@) =~= ls.update(row - 1, line@.take(k as int) + line@.skip(k + CURSOR_MARKER@.len())));
                    }
                    return Some((row - 1, col));
                },
                None => {},
            }
            row = row - 1;
        }
        assert(marker_scan(ls, top as int, row as int) is None);
        None
    }

    fn full_render(&mut self, lines: Vec<String>, out: &mut Vec<u8>, clear: bool, width: u16, height: u16)
        requires
            old(self)@.redraws < usize::MAX,
            lines@.len() + 65536 <= usize::MAX,
        ensures
            final(self)@ == full_state(old(self)@, line_views(lines@), clear, width as nat, height as nat),
            final(out)@ == old(out)@ + vstd::utf8::encode_utf8(
                full_output(old(self)@.sync, clear, line_views(lines@)),
            ),
            screen_wf(final(self)@),
    {
        self.full_redraw_count = self.full_redraw_count + 1;
        let mut buf = String::new();
        if clear {
            push_str(&mut buf, "\x1b[2J\x1b[H\x1b[3J");
        }
        push_sync_begin(&mut buf, self.use_sync_output);
        push_joined_crlf(&mut buf, &lines);
        push_sync_end(&mut buf, self.use_sync_output);
        emit(out, &buf);
        assert(buf@ =~= full_output(old(self)@.sync, clear, line_views(lines@)));
        let n = lines.len();
        self.cursor_row = if n == 0 { 0 } else { n - 1 };
        self.hardware_cursor_row = self.cursor_row;
        if n == 0 {
            self.max_lines_rendered = 0;
        } else if clear || self.max_lines_rendered < n {
            self.max_lines_rendered = n;
        }
        let h = height as usize;
        let buffer_len = if h >= n { h } else { n };
        self.prev_viewport_top = buffer_len - h;
        self.prev_lines = lines;
        self.prev_width = width;
        self.prev_height = height;
    }

    /// The first and the last changed line against the last frame.
    fn find_changes(&self, new: &Vec<String>) -> (r: Option<(usize, usize)>)
        ensures
            match r {
                Some((f, l)) => changes(self@.lines, line_views(new@)) == Some((f as nat, l as nat)) && f <= l
                    < span_len(self@.lines, line_views(new@)),
                None => changes(self@.lines, line_views(new@)) is None,
            },
    {
        let ghost old_v = self@.lines;
        let ghost new_v = line_views(new@);
        let p = self.prev_lines.len();
        let n = new.len();
        let max = if n > p { n } else { p };
        let mut first: Option<usize> = None;
        let mut last: usize = 0;
        let mut i: usize = 0;
        while i < max
            invariant
                i <= max,
                max == span_len(old_v, new_v),
                old_v == self@.lines,
                new_v == line_views(new@),
                p == old_v.len(),
                n == new_v.len(),
                match first {
                    None => forall|j: int| 0 <= j < i ==> padded(old_v, j) == padded(new_v, j),
                    Some(f) => {
                        &&& f <= last < i
                        &&& padded(old_v, f as int) != padded(new_v, f as int)
                        &&& padded(old_v, last as int) != padded(new_v, last as int)
                        &&& forall|j: int| 0 <= j < f ==> padded(old_v, j) == padded(new_v, j)
                        &&& forall|j: int| last < j < i ==> padded(old_v, j) == padded(new_v, j)
                    },
                },
            decreases max - i,
        {
            let differs = if i < p && i < n {
                self.prev_lines[i] != new[i]
            } else if i < p {
                !self.prev_lines[i].as_str().is_empty()
            } else {
                !new[i].as_str().is_empty()
            };
            proof {
                if i < p {
                    assert(old_v[i as int] == self.prev_lines@[i as int]@);
                    if self.prev_lines@[i as int]@.len() == 0 {
                        assert(self.prev_lines@[i as int]@ =~= Seq::<char>::empty());
                    }
                }
                if i < n {
                    assert(new_v[i as int] == new@[i as int]@);
                    if new@[i as int]@.len() == 0 {
                        assert(new@[i as int]@ =~= Seq::<char>::empty());
                    }
                }
                assert(differs == (padded(old_v, i as int) != padded(new_v, i as int)));
            }
            if differs {
                if first.is_none() {
                    first = Some(i);
                }
                last = i;
            }
            i = i + 1;
        }
        match first {
            Some(f) => {
                proof {
                    lemma_first_diff_at(old_v, new_v, f as int, 0);
                    lemma_last_diff_at(old_v, new_v, last as int, max as int);
                }
                Some((f, last))
            },
            None => {
                proof {
                    lemma_no_diff_from(old_v, new_v, 0);
                }
                if n > p {
                    Some((p, n - 1))
                } else {
                    None
                }
            },
        }
    }

    /// Clears the rows past the end of a shorter frame.
    #[verifier::rlimit(40)]
    fn render_deleted(
        &mut self,
        lines: Vec<String>,
        cursor: Option<(usize, usize)>,
        width: u16,
        height: u16,
        out: &mut Vec<u8>,
    )
        requires
            screen_wf(old(self)@),
            old(self)@.redraws < usize::MAX,
            height > 0,
            lines@.len() < old(self)@.lines.len(),
            match cursor {
                Some((r, _)) => r < lines@.len(),
                None => true,
            },
        ensures
            final(self)@ == deleted_step(old(self)@, line_views(lines@), cursor_view(cursor), width as nat, height as nat).0,
            final(out)@ == old(out)@ + vstd::utf8::encode_utf8(
                deleted_step(old(self)@, line_views(lines@), cursor_view(cursor), width as nat, height as nat).1,
            ),
            screen_wf(final(self)@),
    {
        let n = lines.len();
        let p = self.prev_lines.len();
        let h = height as usize;
        let pvt = self.prev_viewport_top;
        let target = if n > 0 { n - 1 } else { 0 };
        let extra = p - n;
        if target < pvt || extra > h {
            self.full_render(lines, out, true, width, height);
            return;
        }
        let sync = self.use_sync_output;
        let mut buf = String::new();
        push_sync_begin(&mut buf, sync);
        let ghost b0 = buf@;
        let ghost mut body: Seq<char> = seq![];
        assert(buf@ =~= b0 + body);
        let rel = if self.hardware_cursor_row >= pvt { self.hardware_cursor_row - pvt } else { 0 };
        push_vmove(&mut buf, target - pvt, rel);
        proof {
            lemma_concat_associative(b0, body, vmove(target - pvt - rel));
            body = body + vmove(target - pvt - rel);
        }
        push_str(&mut buf, "\r");
        proof {
            lemma_concat_associative(b0, body, "\r"@);
            body = body + "\r"@;
        }
        if extra > 0 && n > 0 {
            push_down(&mut buf, 1);
        }
        proof {
            let piece = if extra > 0 && n > 0 { down(1) } else { seq![] };
            assert(buf@ =~= (b0 + body) + piece);
            lemma_concat_associative(b0, body, piece);
            body = body + piece;
        }
        push_clear_rows(&mut buf, extra);
        proof {
            lemma_concat_associative(b0, body, clear_rows(extra as nat));
            body = body + clear_rows(extra as nat);
        }
        let move_back = if extra > 0 { extra - 1 } else { 0 } + if n == 0 { 0 } else { 1 };
        if move_back > 0 {
            push_up(&mut buf, move_back);
        }
        proof {
            let piece = if move_back > 0 { up(move_back as nat) } else { seq![] };
            assert(buf@ =~= (b0 + body) + piece);
            lemma_concat_associative(b0, body, piece);
            body = body + piece;
        }
        push_sync_end(&mut buf, sync);
        emit(out, &buf);
        proof {
            let d = deleted_step(old(self)@, line_views(lines@), cursor_view(cursor), width as nat, height as nat);
            assert(rel == sat_sub(old(self)@.hw_row as int, pvt as int));
            assert(d.1 == synced(sync, body));
        }
        self.cursor_row = target;
        self.hardware_cursor_row = match cursor {
            Some((r, _)) => r,
            None => target,
        };
        self.prev_lines = lines;
        self.prev_height = height;
    }

    /// Rewrites the changed lines in place, scrolling where they lie below
    /// the viewport, and clears the rows a shorter frame leaves.
    #[verifier::rlimit(100)]
    #[verifier::spinoff_prover]
    fn render_changes(
        &mut self,
        lines: Vec<String>,
        cursor: Option<(usize, usize)>,
        width: u16,
        height: u16,
        first: usize,
        last: usize,
        out: &mut Vec<u8>,
    )
        requires
            screen_wf(old(self)@),
            old(self)@.redraws < usize::MAX,
            height > 0,
            old(self)@.viewport_top <= first < lines@.len(),
            first <= last,
            lines@.len() + 65536 <= usize::MAX,
            match cursor {
                Some((r, _)) => r < lines@.len(),
                None => true,
            },
        ensures
            final(self)@ == change_step(
                old(self)@,
                line_views(lines@),
                cursor_view(cursor),
                width as nat,
                height as nat,
                first as nat,
                last as nat,
            ).0,
            final(out)@ == old(out)@ + vstd::utf8::encode_utf8(
                change_step(
                    old(self)@,
                    line_views(lines@),
                    cursor_view(cursor),
                    width as nat,
                    height as nat,
                    first as nat,
                    last as nat,
                ).1,
            ),
            screen_wf(final(self)@),
    {
        let ghost lv = line_views(lines@);
        let ghost v = self@;
        let n = lines.len();
        let p = self.prev_lines.len();
        let h = height as usize;
        let sync = self.use_sync_output;
        let mut buf = String::new();
        push_sync_begin(&mut buf, sync);
        let ghost b0 = buf@;
        let vt = self.push_change_lead(&mut buf, n, first, h);
        let ghost lead = change_lead(v, n as nat, first as nat, h as nat);
        let render_end = if last <= n - 1 { last } else { n - 1 };
        let end = render_end + 1;
        push_changed_lines(&mut buf, &lines, first, end);
        let ghost body = lead.0 + changed_lines(lv, first as int, end as int);
        proof {
            lemma_concat_associative(b0, lead.0, changed_lines(lv, first as int, end as int));
        }
        if n < p && p - n > h {
            push_sync_end(&mut buf, sync);
            emit(out, &buf);
            self.full_render(lines, out, true, width, height);
            proof {
                lemma_encode_concat(synced(sync, body), full_output(sync, true, lv));
                assert(out@ =~= old(out)@ + vstd::utf8::encode_utf8(synced(sync, body) + full_output(sync, true, lv)));
            }
            return;
        }
        push_change_tail(&mut buf, n, p, render_end);
        proof {
            let tail = change_tail(n as nat, p as nat, render_end as nat);
            lemma_concat_associative(b0, body, tail);
        }
        push_sync_end(&mut buf, sync);
        emit(out, &buf);
        self.settle_after_change(lines, cursor, width, height, vt);
    }

    /// Records a frame written in place: the cursor on the marker's row or
    /// the last line, the viewport top no lower than the scroll left it.
    fn settle_after_change(&mut self, lines: Vec<String>, cursor: Option<(usize, usize)>, width: u16, height: u16, vt: usize)
        requires
            height > 0,
            vt <= lines@.len(),
            lines@.len() + 65536 <= usize::MAX,
            match cursor {
                Some((r, _)) => r < lines@.len(),
                None => true,
            },
        ensures
            ({
                let n = lines@.len();
                let nc: nat = match cursor_view(cursor) {
                    Some((r, _)) => r,
                    None => sat_sub(n as int, 1),
                };
                let low = sat_sub(nc as int, height - 1);
                final(self)@ == (ScreenView {
                    cursor_row: nc,
                    hw_row: nc,
                    max_lines: if old(self)@.max_lines >= n { old(self)@.max_lines } else { n },
                    lines: line_views(lines@),
                    viewport_top: if vt >= low { vt as nat } else { low },
                    height: height as nat,
                    width: width as nat,
                    ..old(self)@
                })
            }),
            screen_wf(final(self)@),
    {
        let n = lines.len();
        let h = height as usize;
        let nc = match cursor {
            Some((r, _)) => r,
            None => if n > 0 { n - 1 } else { 0 },
        };
        self.cursor_row = nc;
        self.hardware_cursor_row = nc;
        if self.max_lines_rendered < n {
            self.max_lines_rendered = n;
        }
        self.prev_lines = lines;
        let low = if nc >= h - 1 { nc - (h - 1) } else { 0 };
        self.prev_viewport_top = if vt >= low { vt } else { low };
        self.prev_height = height;
        self.prev_width = width;
    }

    /// Appends the scroll and the move that come before the changed lines,
    /// and returns the viewport top after the scroll.
    #[verifier::rlimit(100)]
    #[verifier::spinoff_prover]
    fn push_change_lead(&self, buf: &mut String, n: usize, first: usize, h: usize) -> (vt: usize)
        requires
            screen_wf(self@),
            h > 0,
            h <= u16::MAX,
            self@.viewport_top <= first < n,
            n + 65536 <= usize::MAX,
        ensures
            final(buf)@ == old(buf)@ + change_lead(self@, n as nat, first as nat, h as nat).0,
            vt == change_lead(self@, n as nat, first as nat, h as nat).1,
            vt <= first,
    {
        let ghost b0 = buf@;
        let p = self.prev_lines.len();
        let pvt = self.prev_viewport_top;
        let appended = n > p;
        let mt = if appended && first == p && first > 0 { first - 1 } else { first };
        let bottom = pvt + h - 1;
        let mut vt = pvt;
        let mut hw = self.hardware_cursor_row;
        let ghost mut out1: Seq<char> = seq![];
        if mt > bottom {
            let scroll = mt - bottom;
            let rel = if hw >= pvt { hw - pvt } else { 0 };
            let csr = if rel <= h - 1 { rel } else { h - 1 };
            let to_bottom = h - 1 - csr;
            if to_bottom > 0 {
                push_down(buf, to_bottom);
            }
            push_crlf_times(buf, scroll);
            proof {
                out1 = (if to_bottom > 0 { down(to_bottom as nat) } else { seq![] }) + crlf_times(scroll as nat);
                assert(buf@ =~= b0 + out1);
            }
            hw = mt;
            vt = pvt + scroll;
        } else {
            assert(buf@ =~= b0 + out1);
        }
        let cur = if hw >= vt { hw - vt } else { 0 };
        let tgt = if mt >= vt { mt - vt } else { 0 };
        push_vmove(buf, tgt, cur);
        if appended && first == p {
            push_str(buf, "\r\n");
        } else {
            push_str(buf, "\r");
        }
        proof {
            let piece = if appended && first == p { crlf() } else { "\r"@ };
            assert(buf@ =~= b0 + (out1 + vmove(tgt - cur) + piece));
        }
        vt
    }

    /// Renders a frame with differential updates, writing to `out` what the
    /// terminal needs: a full redraw on the first frame, after a resize and
    /// where the frame shrank (if so configured); otherwise only the changed
    /// lines. The cursor marker is stripped; its (row, column) is returned.
    #[verifier::rlimit(40)]
    pub fn render(&mut self, new_lines: Vec<String>, width: u16, height: u16, out: &mut Vec<u8>) -> (r: Option<
        (usize, usize),
    >)
        requires
            screen_wf(old(self)@),
            old(self)@.redraws < usize::MAX,
            height > 0,
            new_lines@.len() + 65536 <= usize::MAX,
            marker_col_fits(line_views(new_lines@), height as nat),
        ensures
            final(self)@ == render_step(old(self)@, line_views(new_lines@), width as nat, height as nat).0,
            final(out)@ == old(out)@ + vstd::utf8::encode_utf8(
                render_step(old(self)@, line_views(new_lines@), width as nat, height as nat).1,
            ),
            cursor_view(r) == extracted(line_views(new_lines@), height as nat).1,
            screen_wf(final(self)@),
    {
        let ghost raw = line_views(new_lines@);
        let mut new_lines = new_lines;
        let cursor_pos = self.extract_cursor_marker(&mut new_lines, height as usize);
        proof {
            lemma_extracted_rows(raw, height as nat);
        }
        let width_changed = self.prev_width != 0 && self.prev_width != width;
        let height_changed = self.prev_height != 0 && self.prev_height != height;
        if self.prev_lines.len() == 0 && !width_changed && !height_changed {
            self.full_render(new_lines, out, false, width, height);
            return cursor_pos;
        }
        if width_changed || height_changed || (self.clear_on_shrink && new_lines.len() < self.max_lines_rendered) {
            self.full_render(new_lines, out, true, width, height);
            return cursor_pos;
        }
        match self.find_changes(&new_lines) {
            None => {
                self.prev_height = height;
                assert(final(out)@ =~= old(out)@ + vstd::utf8::encode_utf8(seq![]));
            },
            Some((first, last)) => {
                if first >= new_lines.len() {
                    self.render_deleted(new_lines, cursor_pos, width, height, out);
                } else if first < self.prev_viewport_top {
                    self.full_render(new_lines, out, true, width, height);
                } else {
                    self.render_changes(new_lines, cursor_pos, width, height, first, last, out);
                }
            },
        }
        cursor_pos
    }
}

/// Encoding a concatenation concatenates the encodings.
pub proof fn lemma_encode_concat(a: Seq<char>, b: Seq<char>)
    ensures
        vstd::utf8::encode_utf8(a + b) == vstd::utf8::encode_utf8(a) + vstd::utf8::encode_utf8(b),
    decreases a.len(),
{
    if a.len() == 0 {
        assert(a + b =~= b);
    } else {
        lemma_encode_concat(a.drop_first(), b);
        assert((a + b).drop_first() =~= a.drop_first() + b);
    }
}

proof fn lemma_marker_scan_bounds(lines: Seq<Seq<char>>, top: int, r: int)
    ensures
        match marker_scan(lines, top, r) {
            Some((row, k)) => top <= row < r <= lines.len() && 0 <= k,
            None => true,
        },
    decreases r - top,
{
    if !(r <= top || r > lines.len()) {
        let k = find_from(lines[r - 1], CURSOR_MARKER@, 0);
        if k < 0 {
            lemma_marker_scan_bounds(lines, top, r - 1);
        } else {
            lemma_find_from_bounds(lines[r - 1], CURSOR_MARKER@, 0);
        }
    }
}

/// Extraction keeps the number of lines, and the cursor it finds lies on
/// one of them.
proof fn lemma_extracted_rows(lines: Seq<Seq<char>>, height: nat)
    ensures
        extracted(lines, height).0.len() == lines.len(),
        match extracted(lines, height).1 {
            Some((r, _)) => r < lines.len(),
            None => true,
        },
{
    lemma_marker_scan_bounds(lines, sat_sub(lines.len() as int, height as int) as int, lines.len() as int);
}

proof fn lemma_no_changes_same(x: Seq<Seq<char>>)
    ensures
        changes(x, x) is None,
{
    lemma_no_diff_from(x, x, 0);
}

/// A screen that shows a frame, at the frame's size, writes nothing for it.
proof fn lemma_quiet(v1: ScreenView, raw: Seq<Seq<char>>, w: nat, h: nat)
    requires
        extracted(raw, h) == (raw, Option::<(nat, nat)>::None),
        v1.lines.len() > 0,
        v1.width == w || v1.width == 0,
        v1.height == h,
        !(v1.clear_on_shrink && raw.len() < v1.max_lines),
        changes(v1.lines, raw) is None,
    ensures
        render_step(v1, raw, w, h) == (v1, Seq::<char>::empty()),
{
    assert(diff_step(v1, raw, None, w, h) == (ScreenView { height: h, ..v1 }, Seq::<char>::empty()));
    assert((ScreenView { height: h, ..v1 }) == v1);
}

/// Rendering a frame twice in a row writes nothing the second time and
/// leaves the screen as it was: the differential renderer sends no update
/// where nothing changed. The frame is not empty and holds no cursor
/// marker in its last `h` lines; and a screen that shows nothing yet must
/// not keep a larger line count it would clear for (which only toggling
/// `clear_on_shrink` between frames leaves).
pub proof fn law_rerender_writes_nothing(v: ScreenView, raw: Seq<Seq<char>>, w: nat, h: nat)
    requires
        screen_wf(v),
        h > 0,
        raw.len() > 0,
        v.lines.len() == 0 && v.clear_on_shrink ==> v.max_lines <= raw.len(),
        marker_scan(raw, sat_sub(raw.len() as int, h as int) as int, raw.len() as int) is None,
    ensures
        render_step(render_step(v, raw, w, h).0, raw, w, h) == (render_step(v, raw, w, h).0, Seq::<char>::empty()),
{
    let v1 = render_step(v, raw, w, h).0;
    assert(extracted(raw, h) == (raw, Option::<(nat, nat)>::None));
    lemma_no_changes_same(raw);
    let width_changed = v.width != 0 && v.width != w;
    let height_changed = v.height != 0 && v.height != h;
    if v.lines.len() == 0 && !width_changed && !height_changed {
        assert(v1 == full_state(v, raw, false, w, h));
    } else if width_changed || height_changed || (v.clear_on_shrink && raw.len() < v.max_lines) {
        assert(v1 == full_state(v, raw, true, w, h));
    } else {
        match changes(v.lines, raw) {
            None => {
                assert(v1 == (ScreenView { height: h, ..v }));
                assert(v.lines.len() > 0);
            },
            Some((first, last)) => {
                if first >= raw.len() {
                    assert(v1 == deleted_step(v, raw, None, w, h).0);
                    assert(v1.max_lines == v.max_lines || v1.max_lines == raw.len());
                } else if first < v.viewport_top {
                    assert(v1 == full_state(v, raw, true, w, h));
                } else {
                    assert(v1 == change_step(v, raw, None, w, h, first, last).0);
                    assert(v1.max_lines >= raw.len());
                }
            },
        }
    }
    lemma_quiet(v1, raw, w, h);
}

} // verus!
