//! The editor's visual layout: logical lines wrapped to a width, with the
//! visual line that holds the cursor marked.
use crate::tui::strs::{str_chars, string_from_chars, sub_chars};
use crate::tui::unicode::views;
use crate::tui::util::{visible_width_chars, visible_width_of, visual_col_to_byte_offset, visual_col_walk, wrap_text_with_ansi};
use crate::tui::wrap::wrapped_text;
use crate::tui::components::line_ops::{char_index_of_byte, clone_chars};
use vstd::prelude::*;

verus! {

/// A visual line: its text, whether the cursor is on it, and the cursor's
/// character index in it.
pub type VisualLineView = (Seq<char>, bool, Option<nat>);

/// A visual line of the editor.
pub struct VisualLine {
    pub text: Vec<char>,
    pub has_cursor: bool,
    pub cursor_pos: Option<usize>,
}

/// The visual line as values.
pub open spec fn vl_view(v: VisualLine) -> VisualLineView {
    (
        v.text@,
        v.has_cursor,
        match v.cursor_pos {
            Some(p) => Some(p as nat),
            None => None,
        },
    )
}

/// The visual lines as values.
pub open spec fn vls_view(s: Seq<VisualLine>) -> Seq<VisualLineView> {
    s.map_values(|v: VisualLine| vl_view(v))
}

/// The total visible width of chunks.
pub open spec fn widths_total(cs: Seq<Seq<char>>) -> nat
    decreases cs.len(),
{
    if cs.len() == 0 {
        0
    } else {
        widths_total(cs.drop_last()) + visible_width_of(cs.last())
    }
}

/// A line can be laid out: its widths fit in `usize`, and where it is too
/// wide it wraps.
pub open spec fn line_layout_ok(line: Seq<char>, width: int) -> bool {
    &&& forall|k: int| 0 <= k <= line.len() ==> visible_width_of(#[trigger] line.take(k)) < usize::MAX
    &&& visible_width_of(line) > width ==> {
        &&& wrapped_text(line, width) is Some
        &&& widths_total(wrapped_text(line, width).unwrap()) < usize::MAX
    }
}

/// Every line can be laid out.
pub open spec fn layout_ok(lines: Seq<Seq<char>>, width: int) -> bool {
    forall|i: int| 0 <= i < lines.len() ==> line_layout_ok(#[trigger] lines[i], width)
}

/// The visual lines of the wrapped chunks `cs[k..]`, the first of them
/// starting at visible column `off`; the cursor, at visible column `cvis`,
/// is on the chunk that reaches past it, or on the last one.
pub open spec fn wrapped_layout(cs: Seq<Seq<char>>, k: int, off: int, is_cur: bool, cvis: int) -> Seq<VisualLineView>
    decreases cs.len() - k,
{
    if k < 0 || k >= cs.len() {
        seq![]
    } else {
        let end = off + visible_width_of(cs[k]);
        let in_chunk = is_cur && cvis >= off && (cvis < end || k == cs.len() - 1);
        let pos = if in_chunk {
            Some(visual_col_walk(cs[k], 0, 0, cvis - off) as nat)
        } else {
            None
        };
        seq![(cs[k], in_chunk, pos)] + wrapped_layout(cs, k + 1, end, is_cur, cvis)
    }
}

/// The visual lines of one logical line: itself where it fits, else its
/// wrapped chunks.
pub open spec fn line_layout(line: Seq<char>, width: int, is_cur: bool, col: int) -> Seq<VisualLineView> {
    if visible_width_of(line) <= width {
        seq![(line, is_cur, if is_cur { Some(col as nat) } else { None })]
    } else {
        wrapped_layout(
            wrapped_text(line, width).unwrap(),
            0,
            0,
            is_cur,
            if is_cur { visible_width_of(line.take(col)) as int } else { 0 },
        )
    }
}

/// The visual lines of `lines[i..]`.
pub open spec fn layout_from(lines: Seq<Seq<char>>, i: int, width: int, cl: int, cc: int) -> Seq<VisualLineView>
    decreases lines.len() - i,
{
    if i < 0 || i >= lines.len() {
        seq![]
    } else {
        line_layout(lines[i], width, i == cl, cc) + layout_from(lines, i + 1, width, cl, cc)
    }
}

/// What `layout_text` returns: one empty visual line with the cursor for
/// no text, else the visual lines of every logical line.
pub open spec fn text_layout(lines: Seq<Seq<char>>, width: int, cl: int, cc: int) -> Seq<VisualLineView> {
    if lines.len() == 0 || (lines.len() == 1 && lines[0].len() == 0) {
        seq![(seq![], true, Some(0nat))]
    } else {
        layout_from(lines, 0, width, cl, cc)
    }
}

proof fn lemma_widths_total_take(cs: Seq<Seq<char>>, k: int)
    requires
        0 <= k < cs.len(),
    ensures
        widths_total(cs.take(k + 1)) == widths_total(cs.take(k)) + visible_width_of(cs[k]),
        widths_total(cs.take(k + 1)) <= widths_total(cs),
    decreases cs.len() - k,
{
    assert(cs.take(k + 1).drop_last() =~= cs.take(k));
    if k + 1 < cs.len() {
        lemma_widths_total_take(cs, k + 1);
    } else {
        assert(cs.take(k + 1) =~= cs);
    }
}

/// The column walk ends within the text.
pub proof fn lemma_visual_col_walk_bounds(s: Seq<char>, i: int, vis: int, col: int)
    requires
        0 <= i,
    ensures
        0 <= visual_col_walk(s, i, vis, col) <= s.len(),
    decreases s.len() - i,
{
    if i >= s.len() {
    } else if s[i] == crate::tui::util::esc() && crate::tui::util::ansi_len_at(s, i) is Some {
        crate::tui::util::lemma_ansi_len_bounds(s, i);
        lemma_visual_col_walk_bounds(s, i + crate::tui::util::ansi_len_at(s, i).unwrap(), vis, col);
    } else {
        let g = crate::tui::unicode::grapheme_clusters(s.skip(i))[0];
        let gw = crate::tui::util::grapheme_width(g);
        if vis + gw > col {
        } else if g.len() == 0 || i + g.len() > s.len() {
        } else {
            lemma_visual_col_walk_bounds(s, i + g.len(), vis + gw, col);
        }
    }
}

/// The cursor's character index in a chunk, from its visible column.
fn chunk_cursor(chunk: &String, local: usize) -> (k: usize)
    ensures
        k == visual_col_walk(chunk@, 0, 0, local as int),
{
    let b = visual_col_to_byte_offset(chunk.as_str(), local);
    let cs = str_chars(chunk.as_str());
    proof {
        lemma_visual_col_walk_bounds(chunk@, 0, 0, local as int);
        crate::tui::components::input::lemma_chars_within_take(chunk@, visual_col_walk(chunk@, 0, 0, local as int));
    }
    char_index_of_byte(&cs, b)
}

/// The visual lines of one logical line.
fn line_layout_exec(line: &Vec<char>, width: usize, is_cur: bool, col: usize) -> (r: Vec<VisualLine>)
    requires
        line_layout_ok(line@, width as int),
        is_cur ==> col <= line.len(),
    ensures
        vls_view(r@) == line_layout(line@, width as int, is_cur, col as int),
{
    assert(line@.take(line@.len() as int) =~= line@);
    let lw = visible_width_chars(line);
    if lw <= width {
        let r = vec![VisualLine { text: clone_chars(line), has_cursor: is_cur, cursor_pos: if is_cur { Some(col) } else { None } }];
        assert(vls_view(r@) =~= line_layout(line@, width as int, is_cur, col as int));
        return r;
    }
    let s = string_from_chars(line);
    let wrapped = wrap_text_with_ansi(s.as_str(), width);
    let ghost cs = wrapped_text(line@, width as int).unwrap();
    assert(wrapped@.map_values(|l: String| l@) == cs);
    let cursor_vis: usize = if is_cur {
        let pre = sub_chars(line, 0, col);
        assert(pre@ =~= line@.take(col as int));
        visible_width_chars(&pre)
    } else {
        0
    };
    let mut result: Vec<VisualLine> = Vec::new();
    let mut off: usize = 0;
    let mut k: usize = 0;
    let n = wrapped.len();
    assert(cs.take(0) =~= Seq::<Seq<char>>::empty());
    while k < n
        invariant
            n == wrapped.len(),
            cs.len() == n,
            wrapped@.map_values(|l: String| l@) == cs,
            widths_total(cs) < usize::MAX,
            0 <= k <= n,
            off == widths_total(cs.take(k as int)),
            vls_view(result@) + wrapped_layout(cs, k as int, off as int, is_cur, cursor_vis as int)
                == wrapped_layout(cs, 0, 0, is_cur, cursor_vis as int),
        decreases n - k,
    {
        proof {
            lemma_widths_total_take(cs, k as int);
        }
        assert(cs[k as int] == wrapped@[k as int]@);
        let chunk = str_chars(wrapped[k].as_str());
        let cw = visible_width_chars(&chunk);
        let end = off + cw;
        let in_chunk = is_cur && cursor_vis >= off && (cursor_vis < end || k == n - 1);
        let pos = if in_chunk { Some(chunk_cursor(&wrapped[k], cursor_vis - off)) } else { None };
        let ghost before = vls_view(result@);
        result.push(VisualLine { text: chunk, has_cursor: in_chunk, cursor_pos: pos });
        assert(vls_view(result@) =~= before.push((cs[k as int], in_chunk, match pos { Some(p) => Some(p as nat), None => None })));
        off = end;
        k = k + 1;
    }
    assert(wrapped_layout(cs, n as int, off as int, is_cur, cursor_vis as int) =~= Seq::<VisualLineView>::empty());
    assert(vls_view(result@) + Seq::<VisualLineView>::empty() =~= vls_view(result@));
    result
}

/// Lay the lines out in visual lines of at most `max_width` columns,
/// marking the one that holds the cursor.
pub fn layout_chars(lines: &Vec<Vec<char>>, max_width: usize, cursor_line: usize, cursor_col: usize) -> (r: Vec<VisualLine>)
    requires
        layout_ok(views(lines@), max_width as int),
        cursor_line < lines.len() ==> cursor_col <= lines@[cursor_line as int].len(),
    ensures
        vls_view(r@) == text_layout(views(lines@), max_width as int, cursor_line as int, cursor_col as int),
{
    let ghost ls = views(lines@);
    if lines.len() == 0 || (lines.len() == 1 && lines[0].len() == 0) {
        let r = vec![VisualLine { text: Vec::new(), has_cursor: true, cursor_pos: Some(0) }];
        proof {
            if lines.len() == 1 {
                assert(ls[0] == lines@[0]@);
            }
        }
        assert(vls_view(r@) =~= text_layout(ls, max_width as int, cursor_line as int, cursor_col as int));
        return r;
    }
    let mut result: Vec<VisualLine> = Vec::new();
    let mut i: usize = 0;
    while i < lines.len()
        invariant
            ls == views(lines@),
            layout_ok(ls, max_width as int),
            cursor_line < lines.len() ==> cursor_col <= lines@[cursor_line as int].len(),
            0 <= i <= lines.len(),
            vls_view(result@) + layout_from(ls, i as int, max_width as int, cursor_line as int, cursor_col as int)
                == layout_from(ls, 0, max_width as int, cursor_line as int, cursor_col as int),
        decreases lines.len() - i,
    {
        assert(ls[i as int] == lines@[i as int]@);
        assert(line_layout_ok(ls[i as int], max_width as int));
        let part = line_layout_exec(&lines[i], max_width, i == cursor_line, cursor_col);
        let ghost before = vls_view(result@);
        let mut j: usize = 0;
        while j < part.len()
            invariant
                0 <= j <= part.len(),
                vls_view(result@) == before + vls_view(part@).take(j as int),
            decreases part.len() - j,
        {
            let v = &part[j];
            let t = clone_chars(&v.text);
            let ghost pv = vls_view(result@);
            result.push(VisualLine { text: t, has_cursor: v.has_cursor, cursor_pos: v.cursor_pos });
            assert(vls_view(result@) =~= pv.push(vl_view(part@[j as int])));
            assert(vls_view(part@).take(j + 1) =~= vls_view(part@).take(j as int).push(vl_view(part@[j as int])));
            j = j + 1;
        }
        assert(vls_view(part@).take(part.len() as int) =~= vls_view(part@));
        i = i + 1;
    }
    assert(layout_from(ls, lines.len() as int, max_width as int, cursor_line as int, cursor_col as int) =~= Seq::<VisualLineView>::empty());
    assert(vls_view(result@) + Seq::<VisualLineView>::empty() =~= vls_view(result@));
    result
}


// ---------------------------------------------------------------------------
// Drawing the box
// ---------------------------------------------------------------------------

/// The padding used, the content width, and the width text is laid out in:
/// the padding is at most half of what is left of the width after one
/// column; without padding one column is kept for the cursor.
pub open spec fn render_widths(width: nat, padding: nat) -> (nat, nat, nat) {
    let max_padding: nat = if width > 1 { ((width - 1) / 2) as nat } else { 0 };
    let pad_x = if padding < max_padding { padding } else { max_padding };
    let cw: nat = if width > 2 * pad_x { (width - 2 * pad_x) as nat } else { 1 };
    let lw: nat = if pad_x > 0 { cw } else { (cw - 1) as nat };
    (pad_x, cw, lw)
}

/// The index of the first visual line with the cursor, from `i`; 0 for none.
pub open spec fn cursor_index_from(vls: Seq<VisualLineView>, i: int) -> int
    decreases vls.len() - i,
{
    if i < 0 || i >= vls.len() {
        0
    } else if vls[i].1 {
        i
    } else {
        cursor_index_from(vls, i + 1)
    }
}

/// The first visible visual line: the scroll moved just enough to show the
/// cursor's line, then kept within the lines.
pub open spec fn view_scroll(scroll0: nat, cv: nat, mv: nat, total: nat) -> nat {
    let s1: nat = if cv < scroll0 {
        cv
    } else if cv >= scroll0 + mv {
        (cv - mv + 1) as nat
    } else {
        scroll0
    };
    let max_scroll: nat = if total > mv { (total - mv) as nat } else { 0 };
    if s1 < max_scroll { s1 } else { max_scroll }
}

/// A rule with a scroll indicator: `─── ↑ N more ` filled with rule up to the width.
pub open spec fn indicator_rule(arrow: char, count: nat, width: nat) -> Seq<char> {
    let ind = "─── "@ + seq![arrow, ' '] + crate::tui::strs::decimal(count) + " more "@;
    ind + if visible_width_of(ind) < width {
        crate::tui::strs::repeat_char('─', (width - visible_width_of(ind)) as nat)
    } else {
        seq![]
    }
}

/// The text drawn for a visual line, and its width: with the cursor, the
/// cluster under it is shown reversed (a reversed space at the end of the
/// line), after the cursor marker when focused.
pub open spec fn shown_line(vl: VisualLineView, focused: bool) -> (Seq<char>, nat) {
    let text = vl.0;
    let vw = visible_width_of(text);
    if vl.1 {
        let p: nat = match vl.2 {
            Some(p) => if p < text.len() { p } else { text.len() },
            None => 0,
        };
        let before = text.take(p as int);
        let after = text.skip(p as int);
        let marker = if focused { crate::tui::focusable::CURSOR_MARKER@ } else { seq![] };
        if after.len() > 0 {
            let g = crate::tui::unicode::grapheme_clusters(after)[0];
            (before + marker + "\x1b[7m"@ + g + "\x1b[0m"@ + after.skip(g.len() as int), vw)
        } else {
            (before + marker + "\x1b[7m \x1b[0m"@, vw + 1)
        }
    } else {
        (text, vw)
    }
}

/// A content line of the box: padding, the shown text, spaces up to the
/// content width, and the right padding, one column less where the cursor
/// ran into it.
pub open spec fn content_line(vl: VisualLineView, focused: bool, pad_x: nat, cw: nat) -> Seq<char> {
    let (display, lw) = shown_line(vl, focused);
    let in_pad = lw > cw && pad_x > 0;
    let padding = if lw < cw { crate::tui::strs::repeat_char(' ', (cw - lw) as nat) } else { seq![] };
    let right = if in_pad {
        crate::tui::strs::repeat_char(' ', (pad_x - 1) as nat)
    } else {
        crate::tui::strs::repeat_char(' ', pad_x)
    };
    crate::tui::strs::repeat_char(' ', pad_x) + display + padding + right
}

/// The editor's box: a top rule (with how many lines are above), the
/// visible visual lines, and a bottom rule (with how many are below).
pub open spec fn editor_box(
    lines: Seq<Seq<char>>,
    cl: nat,
    cc: nat,
    scroll0: nat,
    rows: nat,
    padding: nat,
    focused: bool,
    border: crate::tui::components::select_list::Decoration,
    width: nat,
) -> Seq<Seq<char>> {
    let (pad_x, cw, lw) = render_widths(width, padding);
    let vls = text_layout(lines, lw as int, cl as int, cc as int);
    let total: nat = if vls.len() > 1 { vls.len() } else { 1 };
    let cv = cursor_index_from(vls, 0) as nat;
    let mv = crate::tui::components::editor::page_size_of(rows);
    let scroll = view_scroll(scroll0, cv, mv, total);
    let vend: nat = if scroll + mv < total { scroll + mv } else { total };
    let avail: nat = if vend < vls.len() { vend } else { vls.len() };
    let top = if scroll > 0 {
        crate::tui::components::select_list::decorated(border, indicator_rule('↑', scroll, width))
    } else {
        crate::tui::components::select_list::decorated(border, crate::tui::strs::repeat_char('─', width))
    };
    let body = Seq::new(
        if avail > scroll { (avail - scroll) as nat } else { 0 },
        |k: int| content_line(vls[scroll + k], focused, pad_x, cw),
    );
    let below: nat = (total - vend) as nat;
    let bottom = if below > 0 {
        crate::tui::components::select_list::decorated(border, indicator_rule('↓', below, width))
    } else {
        crate::tui::components::select_list::decorated(border, crate::tui::strs::repeat_char('─', width))
    };
    seq![top] + body + seq![bottom]
}

/// The widths for drawing at `width` with `padding`.
pub fn render_widths_exec(width: usize, padding: usize) -> (r: (usize, usize, usize))
    ensures
        (r.0 as nat, r.1 as nat, r.2 as nat) == render_widths(width as nat, padding as nat),
{
    let max_padding = if width > 1 { (width - 1) / 2 } else { 0 };
    let pad_x = if padding < max_padding { padding } else { max_padding };
    let cw = if width > 2 * pad_x { width - 2 * pad_x } else { 1 };
    let lw = if pad_x > 0 { cw } else { cw - 1 };
    (pad_x, cw, lw)
}

/// The index of the first visual line with the cursor, 0 for none.
pub fn cursor_index(vls: &Vec<VisualLine>) -> (r: usize)
    ensures
        r == cursor_index_from(vls_view(vls@), 0),
{
    let ghost s = vls_view(vls@);
    let mut i: usize = 0;
    while i < vls.len()
        invariant
            s == vls_view(vls@),
            0 <= i <= vls.len(),
            cursor_index_from(s, 0) == cursor_index_from(s, i as int),
        decreases vls.len() - i,
    {
        assert(s[i as int].1 == vls@[i as int].has_cursor);
        if vls[i].has_cursor {
            return i;
        }
        i = i + 1;
    }
    0
}

/// The first visible visual line.
pub fn view_scroll_exec(scroll0: usize, cv: usize, mv: usize, total: usize) -> (r: usize)
    requires
        mv >= 1,
    ensures
        r == view_scroll(scroll0 as nat, cv as nat, mv as nat, total as nat),
{
    let s1 = if cv < scroll0 {
        cv
    } else if cv - scroll0 >= mv {
        cv - mv + 1
    } else {
        scroll0
    };
    let max_scroll = if total > mv { total - mv } else { 0 };
    if s1 < max_scroll { s1 } else { max_scroll }
}

/// A rule with a scroll indicator.
pub fn indicator_rule_exec(arrow: char, count: usize, width: usize) -> (r: String)
    ensures
        r@ == indicator_rule(arrow, count as nat, width as nat),
{
    let mut ind = String::new();
    crate::tui::strs::push_str(&mut ind, "─── ");
    crate::tui::strs::push_char(&mut ind, arrow);
    crate::tui::strs::push_char(&mut ind, ' ');
    crate::tui::strs::push_decimal(&mut ind, count);
    crate::tui::strs::push_str(&mut ind, " more ");
    proof {
        reveal_strlit("─── ");
        reveal_strlit(" more ");
    }
    assert(ind@ =~= "─── "@ + seq![arrow, ' '] + crate::tui::strs::decimal(count as nat) + " more "@);
    let cs = str_chars(ind.as_str());
    let mut r = crate::tui::strs::string_from_str(ind.as_str());
    match crate::tui::util::visible_width_checked(&cs) {
        Some(w) => {
            if w < width {
                crate::tui::strs::push_repeat(&mut r, '─', width - w);
            }
        },
        None => {},
    }
    assert(r@ =~= indicator_rule(arrow, count as nat, width as nat));
    r
}

/// A content line of the box.
pub fn content_line_exec(vl: &VisualLine, focused: bool, pad_x: usize, cw: usize) -> (r: String)
    requires
        pad_x <= usize::MAX,
    ensures
        r@ == content_line(vl_view(*vl), focused, pad_x as nat, cw as nat),
{
    let ghost v = vl_view(*vl);
    let text = &vl.text;
    let vw = crate::tui::util::visible_width_checked(text);
    let mut display = String::new();
    // `lw_big` stands for a width beyond `usize`.
    let mut lw: usize = 0;
    let mut lw_big = false;
    match vw {
        Some(w) => {
            lw = w;
        },
        None => {
            lw_big = true;
        },
    }
    if vl.has_cursor {
        let p: usize = match vl.cursor_pos {
            Some(p) => if p < text.len() { p } else { text.len() },
            None => 0,
        };
        let before = sub_chars(text, 0, p);
        let after = sub_chars(text, p, text.len());
        assert(before@ =~= text@.take(p as int));
        assert(after@ =~= text@.skip(p as int));
        crate::tui::strs::push_chars(&mut display, &before);
        if focused {
            crate::tui::strs::push_str(&mut display, crate::tui::focusable::CURSOR_MARKER);
        }
        if after.len() > 0 {
            let gs = crate::tui::unicode::graphemes(&after);
            proof {
                if gs@.len() == 0 {
                    assert(views(gs@) =~= Seq::<Seq<char>>::empty());
                }
                assert(views(gs@)[0] == gs@[0]@);
                crate::tui::util::lemma_first_cluster_prefix(views(gs@));
            }
            let g = &gs[0];
            let rest = sub_chars(&after, g.len(), after.len());
            assert(rest@ =~= after@.skip(g@.len() as int));
            crate::tui::strs::push_str(&mut display, "\x1b[7m");
            crate::tui::strs::push_chars(&mut display, g);
            crate::tui::strs::push_str(&mut display, "\x1b[0m");
            crate::tui::strs::push_chars(&mut display, &rest);
        } else {
            crate::tui::strs::push_str(&mut display, "\x1b[7m \x1b[0m");
            if !lw_big {
                if lw == usize::MAX {
                    lw_big = true;
                } else {
                    lw = lw + 1;
                }
            }
        }
    } else {
        crate::tui::strs::push_chars(&mut display, text);
    }
    proof {
        reveal_strlit("\x1b[7m");
        reveal_strlit("\x1b[0m");
        reveal_strlit("\x1b[7m \x1b[0m");
    }
    let ghost sl = shown_line(v, focused);
    assert(display@ =~= sl.0);
    assert(lw_big <==> sl.1 > usize::MAX);
    assert(!lw_big ==> lw == sl.1);
    let in_pad = (lw_big || lw > cw) && pad_x > 0;
    let mut r = crate::tui::strs::spaces(pad_x);
    crate::tui::strs::push_str(&mut r, display.as_str());
    if !lw_big && lw < cw {
        crate::tui::strs::push_repeat(&mut r, ' ', cw - lw);
    }
    if in_pad {
        crate::tui::strs::push_repeat(&mut r, ' ', pad_x - 1);
    } else {
        crate::tui::strs::push_repeat(&mut r, ' ', pad_x);
    }
    assert(r@ =~= content_line(v, focused, pad_x as nat, cw as nat));
    r
}


// ---------------------------------------------------------------------------
// Visual line spans, for moving up and down
// ---------------------------------------------------------------------------

/// A visual line as a span of a logical line: the line, the byte where it
/// starts, its length in bytes.
pub type Span = (int, int, int);

/// The total byte length of chunks.
pub open spec fn bytes_total(cs: Seq<Seq<char>>) -> nat
    decreases cs.len(),
{
    if cs.len() == 0 {
        0
    } else {
        bytes_total(cs.drop_last()) + crate::tui::strs::byte_len(cs.last())
    }
}

/// The lines can be laid out, and the spans of wrapped lines fit in `usize`.
pub open spec fn spans_ok(lines: Seq<Seq<char>>, width: int) -> bool {
    &&& layout_ok(lines, width)
    &&& forall|i: int|
        0 <= i < lines.len() && visible_width_of(#[trigger] lines[i]) > width ==> bytes_total(
            wrapped_text(lines[i], width).unwrap(),
        ) <= usize::MAX
}

/// The spans of the chunks `cs[k..]` of line `li`, starting at byte `pos`.
pub open spec fn chunk_spans(cs: Seq<Seq<char>>, li: int, k: int, pos: int) -> Seq<Span>
    decreases cs.len() - k,
{
    if k < 0 || k >= cs.len() {
        seq![]
    } else {
        seq![(li, pos, crate::tui::strs::byte_len(cs[k]) as int)] + chunk_spans(
            cs,
            li,
            k + 1,
            pos + crate::tui::strs::byte_len(cs[k]),
        )
    }
}

/// The spans of line `li`: one for an empty or fitting line, else one per
/// wrapped chunk, at the chunks' byte lengths.
pub open spec fn line_spans(line: Seq<char>, li: int, width: int) -> Seq<Span> {
    if line.len() == 0 {
        seq![(li, 0, 0)]
    } else if visible_width_of(line) <= width {
        seq![(li, 0, crate::tui::strs::byte_len(line) as int)]
    } else {
        chunk_spans(wrapped_text(line, width).unwrap(), li, 0, 0)
    }
}

/// The spans of `lines[i..]`.
pub open spec fn spans_from(lines: Seq<Seq<char>>, i: int, width: int) -> Seq<Span>
    decreases lines.len() - i,
{
    if i < 0 || i >= lines.len() {
        seq![]
    } else {
        line_spans(lines[i], i, width) + spans_from(lines, i + 1, width)
    }
}

/// The spans as values.
pub open spec fn spans_view(s: Seq<(usize, usize, usize)>) -> Seq<Span> {
    s.map_values(|t: (usize, usize, usize)| (t.0 as int, t.1 as int, t.2 as int))
}

/// The span holding the cursor (line `cl`, byte `b`), from `i`: the first
/// of its line that reaches it; the last span where none does.
pub open spec fn current_span_from(sp: Seq<Span>, cl: int, b: int, i: int) -> int
    decreases sp.len() - i,
{
    if i < 0 || i >= sp.len() {
        if sp.len() > 0 { sp.len() - 1 } else { 0 }
    } else if sp[i].0 == cl && (if b > sp[i].1 { b - sp[i].1 } else { 0 }) <= sp[i].2 {
        i
    } else {
        current_span_from(sp, cl, b, i + 1)
    }
}

/// The last column the cursor takes in span `i`: its end on the last span
/// of a line, one before elsewhere.
pub open spec fn span_max(sp: Seq<Span>, i: int) -> int {
    if i + 1 >= sp.len() || sp[i + 1].0 != sp[i].0 {
        sp[i].2
    } else if sp[i].2 > 0 {
        sp[i].2 - 1
    } else {
        0
    }
}

/// The column in the target span and the new preferred column: the
/// cursor keeps its column, falls back to the end of a short target and
/// remembers the column it wanted, and returns to that column where a
/// later line is long enough.
pub open spec fn vertical_target(sp: Seq<Span>, cur: int, tgt: int, b: int, pref: Option<nat>) -> (int, Option<nat>) {
    let src_max = span_max(sp, cur);
    let tgt_max = span_max(sp, tgt);
    let too_short = tgt_max < b;
    if pref is None || b < src_max {
        if too_short {
            (tgt_max, Some(b as nat))
        } else {
            (b, None)
        }
    } else {
        let p = pref.unwrap();
        if too_short || tgt_max < p {
            (tgt_max, pref)
        } else {
            (p as int, None)
        }
    }
}

proof fn lemma_bytes_total_take(cs: Seq<Seq<char>>, k: int)
    requires
        0 <= k < cs.len(),
    ensures
        bytes_total(cs.take(k + 1)) == bytes_total(cs.take(k)) + crate::tui::strs::byte_len(cs[k]),
        bytes_total(cs.take(k + 1)) <= bytes_total(cs),
    decreases cs.len() - k,
{
    assert(cs.take(k + 1).drop_last() =~= cs.take(k));
    if k + 1 < cs.len() {
        lemma_bytes_total_take(cs, k + 1);
    } else {
        assert(cs.take(k + 1) =~= cs);
    }
}

/// The spans of one line, appended.
fn push_line_spans(out: &mut Vec<(usize, usize, usize)>, line: &Vec<char>, li: usize, width: usize, n_lines: usize)
    requires
        li < n_lines,
        line_layout_ok(line@, width as int),
        visible_width_of(line@) > width ==> bytes_total(wrapped_text(line@, width as int).unwrap()) <= usize::MAX,
        forall|k: int| 0 <= k < old(out)@.len() ==> (#[trigger] old(out)@[k]).0 < n_lines,
    ensures
        spans_view(final(out)@) == spans_view(old(out)@) + line_spans(line@, li as int, width as int),
        forall|k: int| 0 <= k < final(out)@.len() ==> (#[trigger] final(out)@[k]).0 < n_lines,
{
    let ghost start = spans_view(out@);
    if line.len() == 0 {
        out.push((li, 0, 0));
        assert(spans_view(out@) =~= start + line_spans(line@, li as int, width as int));
        return;
    }
    assert(line@.take(line@.len() as int) =~= line@);
    let lw = visible_width_chars(line);
    let s = string_from_chars(line);
    if lw <= width {
        let n = crate::tui::strs::str_byte_len(s.as_str());
        out.push((li, 0, n));
        assert(spans_view(out@) =~= start + line_spans(line@, li as int, width as int));
        return;
    }
    let wrapped = wrap_text_with_ansi(s.as_str(), width);
    let ghost cs = wrapped_text(line@, width as int).unwrap();
    let mut pos: usize = 0;
    let mut k: usize = 0;
    let n = wrapped.len();
    assert(cs.take(0) =~= Seq::<Seq<char>>::empty());
    while k < n
        invariant
            n == wrapped.len(),
            cs.len() == n,
            wrapped@.map_values(|l: String| l@) == cs,
            bytes_total(cs) <= usize::MAX,
            li < n_lines,
            0 <= k <= n,
            pos == bytes_total(cs.take(k as int)),
            spans_view(out@) + chunk_spans(cs, li as int, k as int, pos as int) == start + chunk_spans(cs, li as int, 0, 0),
            forall|j: int| 0 <= j < out@.len() ==> (#[trigger] out@[j]).0 < n_lines,
        decreases n - k,
    {
        proof {
            lemma_bytes_total_take(cs, k as int);
        }
        assert(cs[k as int] == wrapped@[k as int]@);
        let len = crate::tui::strs::str_byte_len(wrapped[k].as_str());
        let ghost before = spans_view(out@);
        out.push((li, pos, len));
        assert(spans_view(out@) =~= before.push((li as int, pos as int, len as int)));
        pos = pos + len;
        k = k + 1;
    }
    assert(chunk_spans(cs, li as int, n as int, pos as int) =~= Seq::<Span>::empty());
    assert(spans_view(out@) + Seq::<Span>::empty() =~= spans_view(out@));
}

/// The spans of all lines.
pub fn build_visual_line_spans(lines: &Vec<Vec<char>>, width: usize) -> (r: Vec<(usize, usize, usize)>)
    requires
        spans_ok(views(lines@), width as int),
    ensures
        spans_view(r@) == spans_from(views(lines@), 0, width as int),
        forall|k: int| 0 <= k < r@.len() ==> (#[trigger] r@[k]).0 < lines.len(),
{
    let ghost ls = views(lines@);
    let mut out: Vec<(usize, usize, usize)> = Vec::new();
    let mut i: usize = 0;
    assert(spans_view(out@) =~= Seq::<Span>::empty());
    while i < lines.len()
        invariant
            ls == views(lines@),
            spans_ok(ls, width as int),
            0 <= i <= lines.len(),
            spans_view(out@) + spans_from(ls, i as int, width as int) == spans_from(ls, 0, width as int),
            forall|k: int| 0 <= k < out@.len() ==> (#[trigger] out@[k]).0 < lines.len(),
        decreases lines.len() - i,
    {
        assert(ls[i as int] == lines@[i as int]@);
        assert(line_layout_ok(ls[i as int], width as int));
        let ghost before = spans_view(out@);
        push_line_spans(&mut out, &lines[i], i, width, lines.len());
        assert(before + spans_from(ls, i as int, width as int) =~= before + line_spans(ls[i as int], i as int, width as int)
            + spans_from(ls, i + 1, width as int));
        i = i + 1;
    }
    assert(spans_from(ls, lines.len() as int, width as int) =~= Seq::<Span>::empty());
    assert(spans_view(out@) + Seq::<Span>::empty() =~= spans_view(out@));
    out
}

/// The span holding the cursor.
pub fn find_current_visual_line(sp: &Vec<(usize, usize, usize)>, cl: usize, b: usize) -> (r: usize)
    ensures
        r == current_span_from(spans_view(sp@), cl as int, b as int, 0),
        sp@.len() > 0 ==> r < sp@.len(),
{
    let ghost s = spans_view(sp@);
    let mut i: usize = 0;
    while i < sp.len()
        invariant
            s == spans_view(sp@),
            0 <= i <= sp.len(),
            current_span_from(s, cl as int, b as int, 0) == current_span_from(s, cl as int, b as int, i as int),
        decreases sp.len() - i,
    {
        let (li, start, len) = sp[i];
        let offset = if b > start { b - start } else { 0 };
        if li == cl && offset <= len {
            return i;
        }
        i = i + 1;
    }
    if sp.len() > 0 { sp.len() - 1 } else { 0 }
}

/// The last column the cursor takes in span `i`.
pub fn span_max_exec(sp: &Vec<(usize, usize, usize)>, i: usize) -> (r: usize)
    requires
        i < sp.len(),
    ensures
        r == span_max(spans_view(sp@), i as int),
{
    if i + 1 >= sp.len() || sp[i + 1].0 != sp[i].0 {
        sp[i].2
    } else if sp[i].2 > 0 {
        sp[i].2 - 1
    } else {
        0
    }
}


/// Lay the lines out in visual lines of at most `max_width` columns,
/// marking the one that holds the cursor (at byte column `cursor_col`,
/// rounded down to a character).
pub fn layout_text(lines: &[String], max_width: usize, cursor_line: usize, cursor_col: usize) -> (r: Vec<VisualLine>)
    requires
        layout_ok(lines@.map_values(|l: String| l@), max_width as int),
    ensures
        vls_view(r@) == text_layout(
            lines@.map_values(|l: String| l@),
            max_width as int,
            cursor_line as int,
            if cursor_line < lines@.len() { crate::tui::word_nav::chars_within(lines@[cursor_line as int]@, cursor_col as int) } else { 0 },
        ),
{
    let mut ls: Vec<Vec<char>> = Vec::new();
    let mut i: usize = 0;
    while i < lines.len()
        invariant
            0 <= i <= lines.len(),
            views(ls@) =~= lines@.map_values(|l: String| l@).take(i as int),
        decreases lines.len() - i,
    {
        let ghost b = views(ls@);
        ls.push(str_chars(lines[i].as_str()));
        assert(views(ls@) =~= b.push(lines@[i as int]@));
        assert(lines@.map_values(|l: String| l@).take(i + 1) =~= lines@.map_values(|l: String| l@).take(i as int).push(lines@[i as int]@));
        i = i + 1;
    }
    assert(lines@.map_values(|l: String| l@).take(lines.len() as int) =~= lines@.map_values(|l: String| l@));
    let c = if cursor_line < ls.len() { char_index_of_byte(&ls[cursor_line], cursor_col) } else { 0 };
    proof {
        assert(views(ls@).len() == lines@.len());
        if cursor_line < ls.len() {
            assert(views(ls@)[cursor_line as int] == ls@[cursor_line as int]@);
            assert(lines@.map_values(|l: String| l@)[cursor_line as int] == lines@[cursor_line as int]@);
        }
    }
    layout_chars(&ls, max_width, cursor_line, c)
}

} // verus!
