//! Laying out a (possibly nested) bulleted or numbered list in a width:
//! each item's marker, its paragraphs wrapped beside the marker, and nested
//! lists indented below it.
use crate::tui::components::table::{cell_wraps, mx, sat};
use crate::tui::keybindings::strs_view;
use crate::tui::strs::{decimal, push_decimal, push_repeat, push_str, repeat_char, string_from_str};
use crate::tui::theme::{styled, Style, StyleView};
use crate::tui::util::{visible_width, visible_width_of};
use crate::tui::wrap::{wrap_text_with_ansi, wrapped_text};
use vstd::prelude::*;

verus! {

/// A list: numbered from `start` (at least 1) where `ordered`, else
/// bulleted.
pub struct MdList {
    pub ordered: bool,
    pub start: usize,
    pub items: Vec<MdListItem>,
}

/// An item: a task box (`Some(done)`) or none, and its blocks.
pub struct MdListItem {
    pub task: Option<bool>,
    pub blocks: Vec<MdBlock>,
}

/// A block of an item: a paragraph of styled text, a nested list, or lines
/// of another block already laid out.
pub enum MdBlock {
    Paragraph(String),
    List(MdList),
    Lines(Vec<String>),
}

/// Four spaces per level of nesting, eight levels at most.
pub open spec fn indent_of(depth: nat) -> Seq<char> {
    repeat_char(' ', 4 * (if depth < 8 { depth } else { 8 }))
}

/// The marker of item `k` (counting from 1): its number and a dot, or a
/// dash; then the task box, if any.
pub open spec fn marker_of(l: MdList, k: nat, task: Option<bool>) -> Seq<char> {
    (if l.ordered {
        decimal((mx(l.start as nat, 1) + k - 1) as nat) + ". "@
    } else {
        "- "@
    }) + match task {
        Some(true) => "[x] "@,
        Some(false) => "[ ] "@,
        None => seq![],
    }
}

/// The lines laid out, the first prefixed by `bp` unless something of the
/// item came before (`any`), the others by `cp`.
pub open spec fn prefixed(ls: Seq<Seq<char>>, any: bool, bp: Seq<char>, cp: Seq<char>) -> Seq<Seq<char>>
    decreases ls.len(),
{
    if ls.len() == 0 {
        seq![]
    } else {
        prefixed(ls.drop_last(), any, bp, cp).push((if any || ls.len() > 1 { cp } else { bp }) + ls.last())
    }
}

/// The width beside an item's marker: what the bullet prefix leaves, at
/// least one column.
pub open spec fn item_width(width: nat, bp: Seq<char>) -> nat {
    mx(sat(width, visible_width_of(bp)), 1)
}

/// The lines of the first `k` items of a list at nesting `depth`.
pub open spec fn items_out(l: MdList, k: int, width: nat, depth: nat, bullet: StyleView) -> Seq<Seq<char>>
    decreases l, k,
{
    if k <= 0 || k > l.items.len() {
        seq![]
    } else {
        let item = l.items@[k - 1];
        let marker = marker_of(l, k as nat, item.task);
        let bp = indent_of(depth) + styled(bullet, marker);
        let cp = indent_of(depth) + repeat_char(' ', visible_width_of(marker));
        let out = blocks_out(item, item.blocks.len() as int, width, depth, bp, cp, bullet);
        items_out(l, k - 1, width, depth, bullet) + if out.1 {
            out.0
        } else {
            out.0.push(bp)
        }
    }
}

/// The lines of one block of an item, and whether any line of the item was
/// laid out by then (`any` before it): a nested list one level deeper, a
/// paragraph or other lines wrapped beside the marker.
pub open spec fn block_out(
    b: MdBlock,
    any: bool,
    width: nat,
    depth: nat,
    bp: Seq<char>,
    cp: Seq<char>,
    bullet: StyleView,
) -> (Seq<Seq<char>>, bool)
    decreases b, 0int,
{
    let iw = item_width(width, bp);
    match b {
        MdBlock::List(nl) => (items_out(nl, nl.items.len() as int, width, depth + 1, bullet), true),
        MdBlock::Paragraph(t) => {
            let ws = wrapped_text(t@, iw as int).unwrap();
            (prefixed(ws, any, bp, cp), any || ws.len() > 0)
        },
        MdBlock::Lines(ls) => {
            let ws = cell_wraps(strs_view(ls@), iw);
            (prefixed(ws, any, bp, cp), any || ws.len() > 0)
        },
    }
}

/// The lines of the first `m` blocks of an item, and whether any line was
/// laid out.
pub open spec fn blocks_out(
    item: MdListItem,
    m: int,
    width: nat,
    depth: nat,
    bp: Seq<char>,
    cp: Seq<char>,
    bullet: StyleView,
) -> (Seq<Seq<char>>, bool)
    decreases item, m,
{
    if m <= 0 || m > item.blocks.len() {
        (seq![], false)
    } else {
        let prev = blocks_out(item, m - 1, width, depth, bp, cp, bullet);
        let b = block_out(item.blocks@[m - 1], prev.1, width, depth, bp, cp, bullet);
        (prev.0 + b.0, b.1)
    }
}

/// The lines of a list at nesting `depth`, `width` columns wide, markers
/// styled with `bullet`.
pub open spec fn list_lines(l: MdList, width: nat, depth: nat, bullet: StyleView) -> Seq<Seq<char>> {
    items_out(l, l.items.len() as int, width, depth, bullet)
}

/// The first `k` items of a list can be laid out: numbers, depths and
/// widths fit in `usize`, and every paragraph and line wraps.
pub open spec fn items_ok(l: MdList, k: int, width: nat, depth: nat, bullet: StyleView) -> bool
    decreases l, k,
{
    if k <= 0 || k > l.items.len() {
        true
    } else {
        let item = l.items@[k - 1];
        let marker = marker_of(l, k as nat, item.task);
        let bp = indent_of(depth) + styled(bullet, marker);
        &&& items_ok(l, k - 1, width, depth, bullet)
        &&& mx(l.start as nat, 1) + l.items.len() <= usize::MAX
        &&& depth < usize::MAX
        &&& visible_width_of(marker) <= usize::MAX
        &&& visible_width_of(bp) <= usize::MAX
        &&& blocks_ok(item, item.blocks.len() as int, width, depth, bp, bullet)
    }
}

/// One block of an item can be laid out.
pub open spec fn block_ok(b: MdBlock, width: nat, depth: nat, bp: Seq<char>, bullet: StyleView) -> bool
    decreases b, 0int,
{
    let iw = item_width(width, bp);
    match b {
        MdBlock::List(nl) => items_ok(nl, nl.items.len() as int, width, depth + 1, bullet),
        MdBlock::Paragraph(t) => wrapped_text(t@, iw as int) is Some,
        MdBlock::Lines(ls) => forall|x: int| 0 <= x < ls.len() ==> wrapped_text(#[trigger] strs_view(ls@)[x], iw as int) is Some,
    }
}

/// The first `m` blocks of an item can be laid out.
pub open spec fn blocks_ok(item: MdListItem, m: int, width: nat, depth: nat, bp: Seq<char>, bullet: StyleView) -> bool
    decreases item, m,
{
    if m <= 0 || m > item.blocks.len() {
        true
    } else {
        &&& blocks_ok(item, m - 1, width, depth, bp, bullet)
        &&& block_ok(item.blocks@[m - 1], width, depth, bp, bullet)
    }
}

proof fn lemma_items_ok_prefix(l: MdList, n: int, k: int, width: nat, depth: nat, bullet: StyleView)
    requires
        0 <= k <= n <= l.items.len(),
        items_ok(l, n, width, depth, bullet),
    ensures
        items_ok(l, k, width, depth, bullet),
    decreases n - k,
{
    if k < n {
        lemma_items_ok_prefix(l, n - 1, k, width, depth, bullet);
    }
}

proof fn lemma_blocks_ok_prefix(item: MdListItem, n: int, m: int, width: nat, depth: nat, bp: Seq<char>, bullet: StyleView)
    requires
        0 <= m <= n <= item.blocks.len(),
        blocks_ok(item, n, width, depth, bp, bullet),
    ensures
        blocks_ok(item, m, width, depth, bp, bullet),
    decreases n - m,
{
    if m < n {
        lemma_blocks_ok_prefix(item, n - 1, m, width, depth, bp, bullet);
    }
}

/// Prefixing two runs of lines one after the other.
proof fn lemma_prefixed_concat(a: Seq<Seq<char>>, b: Seq<Seq<char>>, any: bool, bp: Seq<char>, cp: Seq<char>)
    ensures
        prefixed(a + b, any, bp, cp) == prefixed(a, any, bp, cp) + prefixed(b, any || a.len() > 0, bp, cp),
    decreases b.len(),
{
    if b.len() == 0 {
        assert(a + b =~= a);
    } else {
        lemma_prefixed_concat(a, b.drop_last(), any, bp, cp);
        assert((a + b).drop_last() =~= a + b.drop_last());
    }
}

/// Append each line of `ws` after its prefix, as `prefixed` says.
fn push_prefixed(out: &mut Vec<String>, ws: &Vec<String>, any: bool, bp: &String, cp: &String) -> (now_any: bool)
    ensures
        strs_view(final(out)@) == strs_view(old(out)@) + prefixed(strs_view(ws@), any, bp@, cp@),
        now_any == (any || ws.len() > 0),
{
    let ghost base = strs_view(out@);
    let ghost wv = strs_view(ws@);
    let mut i: usize = 0;
    while i < ws.len()
        invariant
            i <= ws.len(),
            wv == strs_view(ws@),
            strs_view(out@) == base + prefixed(wv.take(i as int), any, bp@, cp@),
        decreases ws.len() - i,
    {
        let mut line = if any || i > 0 { string_from_str(cp.as_str()) } else { string_from_str(bp.as_str()) };
        push_str(&mut line, ws[i].as_str());
        let ghost pv = strs_view(out@);
        out.push(line);
        proof {
            assert(strs_view(out@) =~= pv.push(line@));
            assert(wv.take(i + 1).drop_last() =~= wv.take(i as int));
            assert(wv[i as int] == ws@[i as int]@);
        }
        i = i + 1;
        assert(strs_view(out@) =~= base + prefixed(wv.take(i as int), any, bp@, cp@));
    }
    assert(wv.take(ws.len() as int) =~= wv);
    any || ws.len() > 0
}

/// Append the lines of one block of an item, as `block_out` says; returns
/// whether any line of the item was laid out.
fn render_block(
    out: &mut Vec<String>,
    b: &MdBlock,
    any: bool,
    width: usize,
    depth: usize,
    bp: &String,
    cp: &String,
    iw: usize,
    bullet: &Style,
) -> (now_any: bool)
    requires
        block_ok(*b, width as nat, depth as nat, bp@, bullet@),
        iw == item_width(width as nat, bp@),
        depth < usize::MAX,
    ensures
        strs_view(final(out)@) == strs_view(old(out)@) + block_out(*b, any, width as nat, depth as nat, bp@, cp@, bullet@).0,
        now_any == block_out(*b, any, width as nat, depth as nat, bp@, cp@, bullet@).1,
    decreases b,
{
    match b {
        MdBlock::List(nl) => {
            let sub = render_list(nl, width, depth + 1, bullet);
            let ghost pv = strs_view(out@);
            let mut j: usize = 0;
            while j < sub.len()
                invariant
                    j <= sub.len(),
                    strs_view(out@) == pv + strs_view(sub@).take(j as int),
                decreases sub.len() - j,
            {
                let x = string_from_str(sub[j].as_str());
                let ghost qv = strs_view(out@);
                out.push(x);
                assert(strs_view(out@) =~= qv.push(x@));
                assert(strs_view(sub@).take(j + 1) =~= strs_view(sub@).take(j as int).push(strs_view(sub@)[j as int]));
                j = j + 1;
            }
            assert(strs_view(sub@).take(sub.len() as int) =~= strs_view(sub@));
            true
        },
        MdBlock::Paragraph(t) => {
            let ws = wrap_text_with_ansi(t.as_str(), iw);
            push_prefixed(out, &ws, any, bp, cp)
        },
        MdBlock::Lines(ls) => {
            let ghost lv = strs_view(ls@);
            let ghost pv = strs_view(out@);
            let mut now = any;
            let mut x: usize = 0;
            assert(lv.take(0) =~= Seq::<Seq<char>>::empty());
            while x < ls.len()
                invariant
                    x <= ls.len(),
                    lv == strs_view(ls@),
                    forall|y: int| 0 <= y < ls.len() ==> wrapped_text(#[trigger] lv[y], iw as int) is Some,
                    strs_view(out@) == pv + prefixed(cell_wraps(lv.take(x as int), iw as nat), any, bp@, cp@),
                    now == (any || cell_wraps(lv.take(x as int), iw as nat).len() > 0),
                decreases ls.len() - x,
            {
                assert(lv[x as int] == ls@[x as int]@);
                let ws = wrap_text_with_ansi(ls[x].as_str(), iw);
                now = push_prefixed(out, &ws, now, bp, cp);
                proof {
                    assert(lv.take(x + 1).drop_last() =~= lv.take(x as int));
                    lemma_prefixed_concat(cell_wraps(lv.take(x as int), iw as nat), strs_view(ws@), any, bp@, cp@);
                }
                x = x + 1;
            }
            assert(lv.take(ls.len() as int) =~= lv);
            now
        },
    }
}

/// Lay out a list at nesting `depth` in `width` columns, its markers styled
/// with `bullet`, as `list_lines` says.
pub fn render_list(l: &MdList, width: usize, depth: usize, bullet: &Style) -> (r: Vec<String>)
    requires
        items_ok(*l, l.items.len() as int, width as nat, depth as nat, bullet@),
    ensures
        strs_view(r@) == list_lines(*l, width as nat, depth as nat, bullet@),
    decreases l,
{
    let mut out: Vec<String> = Vec::new();
    assert(strs_view(out@) =~= Seq::<Seq<char>>::empty());
    let mut k: usize = 0;
    while k < l.items.len()
        invariant
            k <= l.items.len(),
            items_ok(*l, l.items.len() as int, width as nat, depth as nat, bullet@),
            strs_view(out@) == items_out(*l, k as int, width as nat, depth as nat, bullet@),
        decreases l.items.len() - k,
    {
        proof {
            lemma_items_ok_prefix(*l, l.items.len() as int, k + 1, width as nat, depth as nat, bullet@);
        }
        let item = &l.items[k];
        let mut marker = String::new();
        if l.ordered {
            let first = if l.start > 1 { l.start } else { 1 };
            push_decimal(&mut marker, first + k);
            push_str(&mut marker, ". ");
        } else {
            push_str(&mut marker, "- ");
        }
        match item.task {
            Some(true) => push_str(&mut marker, "[x] "),
            Some(false) => push_str(&mut marker, "[ ] "),
            None => {},
        }
        assert(marker@ =~= marker_of(*l, (k + 1) as nat, item.task));
        let levels = if depth < 8 { depth } else { 8 };
        let mut bp = String::new();
        push_repeat(&mut bp, ' ', 4 * levels);
        let styled_marker = bullet.apply(marker.as_str());
        push_str(&mut bp, styled_marker.as_str());
        let mvw = visible_width(marker.as_str());
        let mut cp = String::new();
        push_repeat(&mut cp, ' ', 4 * levels);
        push_repeat(&mut cp, ' ', mvw);
        assert(bp@ =~= indent_of(depth as nat) + styled(bullet@, marker@));
        assert(cp@ =~= indent_of(depth as nat) + repeat_char(' ', visible_width_of(marker@)));
        let bpw = visible_width(bp.as_str());
        let iw = if width > bpw && width - bpw > 1 { width - bpw } else { 1 };
        assert(iw == item_width(width as nat, bp@));
        let ghost base = strs_view(out@);
        let mut any = false;
        let mut m: usize = 0;
        while m < item.blocks.len()
            invariant
                m <= item.blocks.len(),
                *item == l.items@[k as int],
                k < l.items.len(),
                depth < usize::MAX,
                iw == item_width(width as nat, bp@),
                blocks_ok(*item, item.blocks.len() as int, width as nat, depth as nat, bp@, bullet@),
                strs_view(out@) == base + blocks_out(*item, m as int, width as nat, depth as nat, bp@, cp@, bullet@).0,
                any == blocks_out(*item, m as int, width as nat, depth as nat, bp@, cp@, bullet@).1,
            decreases item.blocks.len() - m,
        {
            proof {
                lemma_blocks_ok_prefix(*item, item.blocks.len() as int, m + 1, width as nat, depth as nat, bp@, bullet@);
            }
            any = render_block(&mut out, &item.blocks[m], any, width, depth, &bp, &cp, iw, bullet);
            m = m + 1;
        }
        if !any {
            let ghost pv = strs_view(out@);
            out.push(bp);
            assert(strs_view(out@) =~= pv.push(bp@));
        }
        k = k + 1;
    }
    out
}

} // verus!
