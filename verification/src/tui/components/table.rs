//! Laying out a table of text cells in a width: column widths from what the
//! cells need, and the boxed lines of the table.
use crate::tui::keybindings::strs_view;
use crate::tui::strs::{push_repeat, push_str, repeat_char, str_chars, string_from_str};
use crate::tui::theme::{styled, Style};
use crate::tui::unicode::{is_whitespace, views, white_space};
use crate::tui::util::{visible_width, visible_width_of};
use crate::tui::wrap::{wrap_text_with_ansi, wrapped_text};
use vstd::prelude::*;

verus! {

/// The larger of two numbers.
pub open spec fn mx(a: nat, b: nat) -> nat {
    if a >= b {
        a
    } else {
        b
    }
}

/// `a - b`, or 0 where `b` is larger.
pub open spec fn sat(a: nat, b: nat) -> nat {
    if a >= b {
        (a - b) as nat
    } else {
        0
    }
}

/// The sum of a sequence of numbers.
pub open spec fn total(s: Seq<nat>) -> nat
    decreases s.len(),
{
    if s.len() == 0 {
        0
    } else {
        total(s.drop_last()) + s.last()
    }
}

/// What each column could grow by beyond its narrowest: natural width less
/// the longest word.
pub open spec fn potentials(natural: Seq<nat>, min_word: Seq<nat>) -> Seq<nat> {
    Seq::new(natural.len(), |i: int| sat(natural[i], min_word[i]))
}

/// A column's share of `extra` columns, in proportion to what it could
/// grow by; none where the product does not fit in `usize`.
pub open spec fn share(extra: nat, potential: nat, grow_potential: nat) -> nat {
    if grow_potential > 0 && extra * potential <= usize::MAX {
        extra * potential / grow_potential
    } else {
        0
    }
}

/// One more column each, from the left, to the columns still narrower than
/// their natural width, while `remaining` columns are left.
pub open spec fn bumped(w: Seq<nat>, natural: Seq<nat>, i: int, remaining: nat) -> Seq<nat>
    decreases w.len() - i,
{
    if i < 0 || i >= w.len() || remaining == 0 {
        w
    } else if w[i] < natural[i] {
        bumped(w.update(i, w[i] + 1), natural, i + 1, (remaining - 1) as nat)
    } else {
        bumped(w, natural, i + 1, remaining)
    }
}

/// The width of each column of a table `width` columns wide whose columns
/// want `natural` columns at most and `min_word` at least: natural widths
/// where they all fit; else the narrowest widths grown in proportion to what
/// each could use, then one more each from the left while room is left;
/// else the room shared out evenly.
pub open spec fn column_widths(natural: Seq<nat>, min_word: Seq<nat>, width: nat) -> Seq<nat> {
    let k = natural.len();
    let overhead = 3 * k + 1;
    let avail = sat(width, overhead);
    if total(natural) + overhead <= width {
        Seq::new(k, |i: int| mx(natural[i], min_word[i]))
    } else if total(min_word) <= avail {
        let extra = sat(avail, total(min_word));
        let gp = total(potentials(natural, min_word));
        let w = Seq::new(k, |i: int| min_word[i] + share(extra, sat(natural[i], min_word[i]), gp));
        bumped(w, natural, 0, sat(avail, total(w)))
    } else {
        Seq::new(k, |i: int| ((avail as int) / (k as int) + if i < (avail as int) % (k as int) { 1int } else { 0int }) as nat)
    }
}

proof fn lemma_total_push(s: Seq<nat>, x: nat)
    ensures
        total(s.push(x)) == total(s) + x,
{
    assert(s.push(x).drop_last() =~= s);
}

proof fn lemma_total_le(s: Seq<nat>, i: int)
    requires
        0 <= i < s.len(),
    ensures
        s[i] <= total(s),
    decreases s.len(),
{
    if i < s.len() - 1 {
        lemma_total_le(s.drop_last(), i);
    }
}

/// The sum of a vector, where it fits.
fn sum_of(v: &Vec<usize>) -> (r: usize)
    requires
        total(v@.map_values(|x: usize| x as nat)) <= usize::MAX,
    ensures
        r == total(v@.map_values(|x: usize| x as nat)),
{
    let ghost s = v@.map_values(|x: usize| x as nat);
    let mut acc: usize = 0;
    let mut i: usize = 0;
    while i < v.len()
        invariant
            i <= v.len(),
            s == v@.map_values(|x: usize| x as nat),
            total(s) <= usize::MAX,
            acc == total(s.take(i as int)),
        decreases v.len() - i,
    {
        proof {
            assert(s.take(i + 1) =~= s.take(i as int).push(s[i as int]));
            lemma_total_push(s.take(i as int), s[i as int]);
            lemma_total_prefix(s, i + 1);
        }
        acc = acc + v[i];
        i = i + 1;
    }
    assert(s.take(v.len() as int) =~= s);
    acc
}

/// The sum of a vector, in a type wide enough for any sum of `usize`s.
fn sum_wide(v: &Vec<usize>) -> (r: u128)
    ensures
        r == total(nats(v@)),
{
    let ghost s = nats(v@);
    let mut acc: u128 = 0;
    let mut i: usize = 0;
    while i < v.len()
        invariant
            i <= v.len(),
            s == nats(v@),
            acc == total(s.take(i as int)),
            acc <= i as int * (usize::MAX as int),
        decreases v.len() - i,
    {
        proof {
            assert(s.take(i + 1) =~= s.take(i as int).push(s[i as int]));
            lemma_total_push(s.take(i as int), s[i as int]);
            assert((i + 1) as int * (usize::MAX as int) == i as int * (usize::MAX as int) + usize::MAX as int)
                by (nonlinear_arith);
            assert(i as int * (usize::MAX as int) <= (usize::MAX as int) * (usize::MAX as int)) by (nonlinear_arith)
                requires
                    i <= usize::MAX,
            ;
            assert((usize::MAX as int) * (usize::MAX as int) + (usize::MAX as int) <= u128::MAX) by (nonlinear_arith)
                requires
                    usize::MAX <= 0xffff_ffff_ffff_ffff,
            ;
        }
        acc = acc + v[i] as u128;
        i = i + 1;
    }
    assert(s.take(v.len() as int) =~= s);
    acc
}

proof fn lemma_total_prefix(s: Seq<nat>, k: int)
    requires
        0 <= k <= s.len(),
    ensures
        total(s.take(k)) <= total(s),
    decreases s.len() - k,
{
    if k < s.len() {
        lemma_total_prefix(s, k + 1);
        assert(s.take(k + 1).drop_last() =~= s.take(k));
    } else {
        assert(s.take(k) =~= s);
    }
}

/// The natural-number view of a vector of widths.
pub open spec fn nats(v: Seq<usize>) -> Seq<nat> {
    v.map_values(|x: usize| x as nat)
}

/// Column widths for a table `width` columns wide, as `column_widths`
/// says.
pub fn compute_column_widths(natural: &Vec<usize>, min_word: &Vec<usize>, width: usize) -> (r: Vec<usize>)
    requires
        natural.len() == min_word.len(),
        natural.len() > 0,
        3 * natural.len() + 1 <= usize::MAX,
        total(nats(natural@)) + 3 * natural.len() + 1 <= usize::MAX,
        total(nats(min_word@)) <= usize::MAX,
    ensures
        nats(r@) == column_widths(nats(natural@), nats(min_word@), width as nat),
{
    let k = natural.len();
    let ghost n = nats(natural@);
    let ghost m = nats(min_word@);
    let overhead = 3 * k + 1;
    let avail = if width >= overhead { width - overhead } else { 0 };
    let total_natural = sum_of(natural);
    if total_natural + overhead <= width {
        let mut w: Vec<usize> = Vec::new();
        let mut i: usize = 0;
        while i < k
            invariant
                i <= k,
                k == natural.len(),
                k == min_word.len(),
                n == nats(natural@),
                m == nats(min_word@),
                w.len() == i,
                forall|j: int| 0 <= j < i ==> w@[j] as nat == mx(n[j], m[j]),
            decreases k - i,
        {
            let x = if natural[i] >= min_word[i] { natural[i] } else { min_word[i] };
            w.push(x);
            i = i + 1;
        }
        assert(nats(w@) =~= Seq::new(k as nat, |i: int| mx(n[i], m[i])));
        return w;
    }
    let min_total = sum_of(min_word);
    if min_total <= avail {
        let extra = avail - min_total;
        // what each column could grow by, and the sum of it
        let mut pots: Vec<usize> = Vec::new();
        let mut i: usize = 0;
        while i < k
            invariant
                i <= k,
                k == natural.len(),
                k == min_word.len(),
                n == nats(natural@),
                m == nats(min_word@),
                pots.len() == i,
                forall|j: int| 0 <= j < i ==> pots@[j] as nat == sat(n[j], m[j]),
            decreases k - i,
        {
            let p = if natural[i] >= min_word[i] { natural[i] - min_word[i] } else { 0 };
            pots.push(p);
            i = i + 1;
        }
        assert(nats(pots@) =~= potentials(n, m));
        proof {
            lemma_potentials_le(n, m);
            lemma_total_mono(potentials(n, m), n);
        }
        let gp = sum_of(&pots);
        assert(forall|j: int| 0 <= j < k ==> pots@[j] <= gp) by {
            assert forall|j: int| 0 <= j < k implies pots@[j] <= gp by {
                assert(potentials(n, m)[j] == pots@[j]);
            }
        }
        let mut w: Vec<usize> = Vec::new();
        let mut i: usize = 0;
        while i < k
            invariant
                i <= k,
                k == natural.len(),
                k == min_word.len(),
                k == pots.len(),
                n == nats(natural@),
                m == nats(min_word@),
                forall|j: int| 0 <= j < k ==> pots@[j] as nat == sat(n[j], m[j]),
                forall|j: int| 0 <= j < k ==> pots@[j] <= gp,
                w.len() == i,
                extra + total(m) == avail,
                extra <= avail,
                avail <= usize::MAX,
                forall|j: int| 0 <= j < i ==> w@[j] as nat == m[j] + share(extra as nat, sat(n[j], m[j]), gp as nat),
                forall|j: int| 0 <= j < i ==> w@[j] <= m[j] + extra,
            decreases k - i,
        {
            let g: usize = if gp > 0 {
                match extra.checked_mul(pots[i]) {
                    Some(p) => p / gp,
                    None => 0,
                }
            } else {
                0
            };
            proof {
                if gp > 0 && extra * pots@[i as int] <= usize::MAX {
                    assert((extra * pots@[i as int]) / (gp as int) <= extra) by (nonlinear_arith)
                        requires
                            pots@[i as int] <= gp,
                            gp > 0,
                    {
                    }
                }
            }
            assert(g <= extra);
            proof {
                lemma_total_le(m, i as int);
            }
            let x = min_word[i] + g;
            w.push(x);
            i = i + 1;
        }
        assert(nats(w@) =~= Seq::new(k as nat, |j: int| m[j] + share(extra as nat, sat(n[j], m[j]), gp as nat)));
        let allocated = sum_wide(&w);
        let mut remaining: usize = if (avail as u128) >= allocated { (avail as u128 - allocated) as usize } else { 0 };
        let ghost w0 = nats(w@);
        let mut i: usize = 0;
        while i < k
            invariant_except_break
                i <= k,
                k == natural.len(),
                k == w.len(),
                n == nats(natural@),
                bumped(w0, n, 0, sat(avail as nat, total(w0))) == bumped(nats(w@), n, i as int, remaining as nat),
            ensures
                nats(w@) == bumped(w0, n, 0, sat(avail as nat, total(w0))),
            decreases k - i,
        {
            if remaining == 0 {
                break;
            }
            if w[i] < natural[i] {
                let ghost before = nats(w@);
                let x = w[i] + 1;
                w.set(i, x);
                remaining = remaining - 1;
                assert(nats(w@) =~= before.update(i as int, before[i as int] + 1));
            }
            i = i + 1;
        }
        return w;
    }
    let base = avail / k;
    let rem = avail % k;
    let mut w: Vec<usize> = Vec::new();
    let mut i: usize = 0;
    while i < k
        invariant
            i <= k,
            k > 0,
            w.len() == i,
            base == avail / k,
            rem == avail % k,
            forall|j: int| 0 <= j < i ==> w@[j] as int == (avail as int) / (k as int) + if j < (avail as int) % (k as int) { 1int } else { 0int },
        decreases k - i,
    {
        proof {
            if i < rem {
                assert(base < usize::MAX) by (nonlinear_arith)
                    requires
                        base == avail / k,
                        rem == avail % k,
                        i < rem,
                        avail <= usize::MAX,
                        k > 0,
                {
                }
            }
        }
        let x = base + if i < rem { 1 } else { 0 };
        w.push(x);
        i = i + 1;
    }
    assert(nats(w@) =~= Seq::new(k as nat, |j: int| ((avail as int) / (k as int) + if j < (avail as int) % (k as int) { 1int } else { 0int }) as nat));
    w
}

proof fn lemma_total_mono(a: Seq<nat>, b: Seq<nat>)
    requires
        a.len() == b.len(),
        forall|i: int| 0 <= i < a.len() ==> a[i] <= b[i],
    ensures
        total(a) <= total(b),
    decreases a.len(),
{
    if a.len() > 0 {
        lemma_total_mono(a.drop_last(), b.drop_last());
    }
}

proof fn lemma_potentials_le(n: Seq<nat>, m: Seq<nat>)
    ensures
        forall|i: int| 0 <= i < n.len() ==> #[trigger] potentials(n, m)[i] <= total(potentials(n, m)),
{
    assert forall|i: int| 0 <= i < n.len() implies #[trigger] potentials(n, m)[i] <= total(potentials(n, m)) by {
        lemma_total_le(potentials(n, m), i);
    }
}

// ---------------------------------------------------------------------------
// What the cells need
// ---------------------------------------------------------------------------

/// The widest whitespace-separated word of `l[start..]`, the scan being at
/// `i` with the current word starting at `start`.
pub open spec fn word_max_from(l: Seq<char>, i: int, start: int) -> nat
    decreases l.len() - i,
{
    if i < 0 || i >= l.len() {
        if 0 <= start < l.len() {
            visible_width_of(l.subrange(start, l.len() as int))
        } else {
            0
        }
    } else if white_space(l[i]) {
        mx(
            if 0 <= start < i {
                visible_width_of(l.subrange(start, i))
            } else {
                0
            },
            word_max_from(l, i + 1, i + 1),
        )
    } else {
        word_max_from(l, i + 1, start)
    }
}

/// The width a line asks of its column at least: its widest word, but no
/// more than 30 and no less than 1.
pub open spec fn min_word_of(l: Seq<char>) -> nat {
    let w = word_max_from(l, 0, 0);
    mx(if w < 30 { w } else { 30 }, 1)
}

/// Every stretch of the line has a width that fits in `usize`.
pub open spec fn widths_fit(l: Seq<char>) -> bool {
    forall|a: int, b: int| 0 <= a <= b <= l.len() ==> visible_width_of(#[trigger] l.subrange(a, b)) <= usize::MAX
}

/// The widest word of a line, capped and floored as `min_word_of` says.
fn min_word_width(l: &Vec<char>) -> (r: usize)
    requires
        widths_fit(l@),
    ensures
        r == min_word_of(l@),
{
    let mut best: usize = 0;
    let mut start: usize = 0;
    let mut i: usize = 0;
    while i < l.len()
        invariant
            start <= i <= l.len(),
            widths_fit(l@),
            mx(best as nat, word_max_from(l@, i as int, start as int)) == word_max_from(l@, 0, 0),
        decreases l.len() - i,
    {
        if is_whitespace(l[i]) {
            let w: usize = if start < i {
                let word = crate::tui::strs::sub_chars(l, start, i);
                let ws = crate::tui::strs::string_from_chars(&word);
                assert(l@.subrange(start as int, i as int) == ws@);
                visible_width(ws.as_str())
            } else {
                0
            };
            if w > best {
                best = w;
            }
            start = i + 1;
        }
        i = i + 1;
    }
    let w: usize = if start < l.len() {
        let word = crate::tui::strs::sub_chars(l, start, l.len());
        let ws = crate::tui::strs::string_from_chars(&word);
        assert(l@.subrange(start as int, l.len() as int) == ws@);
        visible_width(ws.as_str())
    } else {
        0
    };
    if w > best {
        best = w;
    }
    let capped = if best < 30 { best } else { 30 };
    if capped > 1 { capped } else { 1 }
}

/// A table row: cells, each a list of lines.
pub open spec fn row_view(r: Seq<Vec<String>>) -> Seq<Seq<Seq<char>>> {
    r.map_values(|c: Vec<String>| strs_view(c@))
}

/// The rows of a table.
pub open spec fn rows_view(rs: Seq<Vec<Vec<String>>>) -> Seq<Seq<Seq<Seq<char>>>> {
    rs.map_values(|r: Vec<Vec<String>>| row_view(r@))
}

/// The widest line of column `i` over the rows, from `acc`.
pub open spec fn col_natural(rows: Seq<Seq<Seq<Seq<char>>>>, i: int, acc: nat) -> nat
    decreases rows.len(),
{
    if rows.len() == 0 {
        acc
    } else {
        let prev = col_natural(rows.drop_last(), i, acc);
        if 0 <= i < rows.last().len() {
            lines_natural(rows.last()[i], prev)
        } else {
            prev
        }
    }
}

/// The widest of the lines, from `acc`.
pub open spec fn lines_natural(ls: Seq<Seq<char>>, acc: nat) -> nat
    decreases ls.len(),
{
    if ls.len() == 0 {
        acc
    } else {
        mx(lines_natural(ls.drop_last(), acc), visible_width_of(ls.last()))
    }
}

/// The largest word need of column `i` over the rows, from `acc`.
pub open spec fn col_min_word(rows: Seq<Seq<Seq<Seq<char>>>>, i: int, acc: nat) -> nat
    decreases rows.len(),
{
    if rows.len() == 0 {
        acc
    } else {
        let prev = col_min_word(rows.drop_last(), i, acc);
        if 0 <= i < rows.last().len() {
            lines_min_word(rows.last()[i], prev)
        } else {
            prev
        }
    }
}

/// The largest word need of the lines, from `acc`.
pub open spec fn lines_min_word(ls: Seq<Seq<char>>, acc: nat) -> nat
    decreases ls.len(),
{
    if ls.len() == 0 {
        acc
    } else {
        mx(lines_min_word(ls.drop_last(), acc), min_word_of(ls.last()))
    }
}

/// Every line of every cell has widths that fit.
pub open spec fn cells_fit(rows: Seq<Seq<Seq<Seq<char>>>>) -> bool {
    forall|r: int, c: int, l: int|
        0 <= r < rows.len() && 0 <= c < rows[r].len() && 0 <= l < rows[r][c].len() ==> widths_fit(
            #[trigger] rows[r][c][l],
        )
}

/// The widest line of column `i` and its largest word need.
fn column_needs(rows: &Vec<&Vec<Vec<String>>>, i: usize) -> (r: (usize, usize))
    requires
        cells_fit(rows@.map_values(|x: &Vec<Vec<String>>| row_view(x@))),
    ensures
        r.0 == col_natural(rows@.map_values(|x: &Vec<Vec<String>>| row_view(x@)), i as int, 0),
        r.1 == col_min_word(rows@.map_values(|x: &Vec<Vec<String>>| row_view(x@)), i as int, 1),
{
    let ghost rv = rows@.map_values(|x: &Vec<Vec<String>>| row_view(x@));
    let mut n: usize = 0;
    let mut m: usize = 1;
    let mut k: usize = 0;
    while k < rows.len()
        invariant
            k <= rows.len(),
            rv == rows@.map_values(|x: &Vec<Vec<String>>| row_view(x@)),
            cells_fit(rv),
            n == col_natural(rv.take(k as int), i as int, 0),
            m == col_min_word(rv.take(k as int), i as int, 1),
        decreases rows.len() - k,
    {
        assert(rv.take(k + 1).drop_last() =~= rv.take(k as int));
        assert(rv.take(k + 1).last() == rv[k as int]);
        let row = rows[k];
        if i < row.len() {
            let cell = &row[i];
            let ghost cv = strs_view(cell@);
            assert(rv[k as int][i as int] == cv);
            let mut j: usize = 0;
            let ghost n0 = n as nat;
            let ghost m0 = m as nat;
            while j < cell.len()
                invariant
                    j <= cell.len(),
                    cv == strs_view(cell@),
                    forall|l: int| 0 <= l < cv.len() ==> widths_fit(#[trigger] cv[l]),
                    n == lines_natural(cv.take(j as int), n0),
                    m == lines_min_word(cv.take(j as int), m0),
                decreases cell.len() - j,
            {
                assert(cv.take(j + 1).drop_last() =~= cv.take(j as int));
                let lc = str_chars(cell[j].as_str());
                assert(lc@ == cv[j as int]);
                assert(widths_fit(lc@));
                assert(lc@.subrange(0, lc@.len() as int) =~= lc@);
                let vw = visible_width(cell[j].as_str());
                if vw > n {
                    n = vw;
                }
                let mw = min_word_width(&lc);
                if mw > m {
                    m = mw;
                }
                j = j + 1;
            }
            assert(cv.take(cell.len() as int) =~= cv);
        }
        k = k + 1;
    }
    assert(rv.take(rows.len() as int) =~= rv);
    (n, m)
}

// ---------------------------------------------------------------------------
// The lines of a row
// ---------------------------------------------------------------------------

/// The parts joined, with `sep` between each two.
pub open spec fn joined_sep(parts: Seq<Seq<char>>, sep: Seq<char>) -> Seq<char>
    decreases parts.len(),
{
    if parts.len() == 0 {
        seq![]
    } else if parts.len() == 1 {
        parts[0]
    } else {
        joined_sep(parts.drop_last(), sep) + sep + parts.last()
    }
}

/// The lines of a cell wrapped to `cw` columns, one line after another.
pub open spec fn cell_wraps(ls: Seq<Seq<char>>, cw: nat) -> Seq<Seq<char>>
    decreases ls.len(),
{
    if ls.len() == 0 {
        seq![]
    } else {
        cell_wraps(ls.drop_last(), cw) + wrapped_text(ls.last(), cw as int).unwrap()
    }
}

/// A cell wrapped to its column: its lines wrapped, or one empty line.
pub open spec fn wrapped_cell(ls: Seq<Seq<char>>, cw: nat) -> Seq<Seq<char>> {
    let w = cell_wraps(ls, cw);
    if w.len() == 0 {
        seq![seq![]]
    } else {
        w
    }
}

/// Line `j` of a wrapped cell, empty below its last.
pub open spec fn text_at(wc: Seq<Seq<char>>, j: int) -> Seq<char> {
    if 0 <= j < wc.len() {
        wc[j]
    } else {
        seq![]
    }
}

/// A cell's text padded to its column; in a header, styled bold.
pub open spec fn part_of(t: Seq<char>, cw: nat, header: bool, bold: crate::tui::theme::StyleView) -> Seq<char> {
    let p = t + repeat_char(' ', sat(cw, visible_width_of(t)));
    if header {
        styled(bold, p)
    } else {
        p
    }
}

/// The most lines of the wrapped cells, and at least one.
pub open spec fn max_lines(wcs: Seq<Seq<Seq<char>>>) -> nat
    decreases wcs.len(),
{
    if wcs.len() == 0 {
        1
    } else {
        mx(max_lines(wcs.drop_last()), wcs.last().len())
    }
}

/// Line `j` of a row: the parts between `│` rules.
pub open spec fn row_line(
    wcs: Seq<Seq<Seq<char>>>,
    ws: Seq<nat>,
    j: int,
    header: bool,
    bold: crate::tui::theme::StyleView,
) -> Seq<char> {
    "│ "@ + joined_sep(Seq::new(wcs.len(), |c: int| part_of(text_at(wcs[c], j), ws[c], header, bold)), " │ "@)
        + " │"@
}

/// The number of cells of a row that are laid out.
pub open spec fn shown_cells(cells: Seq<Seq<Seq<char>>>, num_cols: nat) -> nat {
    if cells.len() < num_cols {
        cells.len()
    } else {
        num_cols
    }
}

/// The cells of a row wrapped to their columns.
pub open spec fn wrapped_cells(cells: Seq<Seq<Seq<char>>>, ws: Seq<nat>, num_cols: nat) -> Seq<Seq<Seq<char>>> {
    Seq::new(shown_cells(cells, num_cols), |c: int| wrapped_cell(cells[c], ws[c]))
}

/// The lines of a row: none without cells; else as many as its tallest
/// wrapped cell, each holding every cell's line of that row.
pub open spec fn row_lines(
    cells: Seq<Seq<Seq<char>>>,
    ws: Seq<nat>,
    num_cols: nat,
    header: bool,
    bold: crate::tui::theme::StyleView,
) -> Seq<Seq<char>> {
    if cells.len() == 0 {
        seq![]
    } else {
        let wcs = wrapped_cells(cells, ws, num_cols);
        Seq::new(max_lines(wcs), |j: int| row_line(wcs, ws, j, header, bold))
    }
}

/// The cells of a row wrap, and their wrapped lines have widths that fit.
pub open spec fn row_ok(cells: Seq<Seq<Seq<char>>>, ws: Seq<nat>, num_cols: nat) -> bool {
    &&& shown_cells(cells, num_cols) <= ws.len()
    &&& forall|c: int, l: int|
        0 <= c < shown_cells(cells, num_cols) && 0 <= l < cells[c].len() ==> wrapped_text(
            #[trigger] cells[c][l],
            ws[c] as int,
        ) is Some
    &&& forall|c: int, j: int|
        0 <= c < shown_cells(cells, num_cols) && 0 <= j < wrapped_cell(cells[c], ws[c]).len() ==> visible_width_of(
            #[trigger] wrapped_cell(cells[c], ws[c])[j],
        ) <= usize::MAX
}

/// A cell's lines, each wrapped to `cw` columns.
fn wrap_cell(cell: &Vec<String>, cw: usize) -> (r: Vec<String>)
    requires
        forall|l: int| 0 <= l < cell.len() ==> wrapped_text(#[trigger] strs_view(cell@)[l], cw as int) is Some,
    ensures
        strs_view(r@) == wrapped_cell(strs_view(cell@), cw as nat),
{
    let ghost cv = strs_view(cell@);
    let mut out: Vec<String> = Vec::new();
    let mut l: usize = 0;
    while l < cell.len()
        invariant
            l <= cell.len(),
            cv == strs_view(cell@),
            forall|x: int| 0 <= x < cell.len() ==> wrapped_text(#[trigger] cv[x], cw as int) is Some,
            strs_view(out@) == cell_wraps(cv.take(l as int), cw as nat),
        decreases cell.len() - l,
    {
        assert(cv.take(l + 1).drop_last() =~= cv.take(l as int));
        assert(cv[l as int] == cell@[l as int]@);
        let w = wrap_text_with_ansi(cell[l].as_str(), cw);
        let ghost before = strs_view(out@);
        let mut k: usize = 0;
        while k < w.len()
            invariant
                k <= w.len(),
                strs_view(out@) == before + strs_view(w@).take(k as int),
            decreases w.len() - k,
        {
            let x = string_from_str(w[k].as_str());
            let ghost pv = strs_view(out@);
            out.push(x);
            assert(strs_view(out@) =~= pv.push(x@));
            assert(strs_view(w@).take(k + 1) =~= strs_view(w@).take(k as int).push(strs_view(w@)[k as int]));
            k = k + 1;
            assert(strs_view(out@) =~= before + strs_view(w@).take(k as int));
        }
        assert(strs_view(w@).take(w.len() as int) =~= strs_view(w@));
        assert(strs_view(w@) == wrapped_text(cv[l as int], cw as int).unwrap());
        l = l + 1;
    }
    assert(cv.take(cell.len() as int) =~= cv);
    if out.len() == 0 {
        out.push(String::new());
        assert(strs_view(out@) =~= seq![Seq::<char>::empty()]);
    }
    out
}

/// The lines of one row of the table, as `row_lines` says.
fn render_row(cells: &Vec<Vec<String>>, ws: &Vec<usize>, num_cols: usize, header: bool, bold: &Style) -> (r: Vec<String>)
    requires
        row_ok(row_view(cells@), nats(ws@), num_cols as nat),
    ensures
        strs_view(r@) == row_lines(row_view(cells@), nats(ws@), num_cols as nat, header, bold@),
{
    let ghost cv = row_view(cells@);
    if cells.len() == 0 {
        let r: Vec<String> = Vec::new();
        assert(strs_view(r@) =~= Seq::<Seq<char>>::empty());
        return r;
    }
    let nc = if cells.len() < num_cols { cells.len() } else { num_cols };
    let ghost wcs = wrapped_cells(cv, nats(ws@), num_cols as nat);
    let mut wrapped: Vec<Vec<String>> = Vec::new();
    let mut c: usize = 0;
    while c < nc
        invariant
            c <= nc,
            nc == shown_cells(cv, num_cols as nat),
            nc <= cells.len(),
            nc <= ws.len(),
            cv == row_view(cells@),
            wcs == wrapped_cells(cv, nats(ws@), num_cols as nat),
            row_ok(cv, nats(ws@), num_cols as nat),
            wrapped.len() == c,
            forall|x: int| 0 <= x < c ==> strs_view(#[trigger] wrapped@[x]@) == wcs[x],
        decreases nc - c,
    {
        assert(cv[c as int] == strs_view(cells@[c as int]@));
        assert forall|l: int| 0 <= l < cells@[c as int].len() implies wrapped_text(
            #[trigger] strs_view(cells@[c as int]@)[l],
            ws@[c as int] as int,
        ) is Some by {
            assert(cv[c as int][l] == strs_view(cells@[c as int]@)[l]);
        }
        let wc = wrap_cell(&cells[c], ws[c]);
        wrapped.push(wc);
        c = c + 1;
    }
    let ghost wv = wrapped@.map_values(|x: Vec<String>| strs_view(x@));
    assert(wv =~= wcs);
    // the tallest cell
    let mut most: usize = 1;
    let mut c: usize = 0;
    while c < nc
        invariant
            c <= nc,
            nc == wrapped.len(),
            wv == wrapped@.map_values(|x: Vec<String>| strs_view(x@)),
            most == max_lines(wv.take(c as int)),
        decreases nc - c,
    {
        assert(wv.take(c + 1).drop_last() =~= wv.take(c as int));
        assert(wv[c as int].len() == wrapped@[c as int].len());
        if wrapped[c].len() > most {
            most = wrapped[c].len();
        }
        c = c + 1;
    }
    assert(wv.take(nc as int) =~= wv);
    let ghost target = row_lines(cv, nats(ws@), num_cols as nat, header, bold@);
    let mut out: Vec<String> = Vec::new();
    let mut j: usize = 0;
    while j < most
        invariant
            j <= most,
            most == max_lines(wcs),
            nc == wrapped.len(),
            nc <= ws.len(),
            wv == wrapped@.map_values(|x: Vec<String>| strs_view(x@)),
            wv == wcs,
            wcs.len() == nc,
            cv.len() > 0,
            target == row_lines(cv, nats(ws@), num_cols as nat, header, bold@),
            target.len() == most,
            row_ok(cv, nats(ws@), num_cols as nat),
            nc == shown_cells(cv, num_cols as nat),
            wcs == wrapped_cells(cv, nats(ws@), num_cols as nat),
            strs_view(out@) == target.take(j as int),
        decreases most - j,
    {
        let ghost parts = Seq::new(nc as nat, |x: int| part_of(text_at(wcs[x], j as int), nats(ws@)[x], header, bold@));
        let mut line = String::new();
        push_str(&mut line, "│ ");
        let mut c: usize = 0;
        while c < nc
            invariant
                c <= nc,
                nc == wrapped.len(),
                nc <= ws.len(),
                wv == wrapped@.map_values(|x: Vec<String>| strs_view(x@)),
                wv == wcs,
                row_ok(cv, nats(ws@), num_cols as nat),
                nc == shown_cells(cv, num_cols as nat),
                wcs == wrapped_cells(cv, nats(ws@), num_cols as nat),
                parts == Seq::new(nc as nat, |x: int| part_of(text_at(wcs[x], j as int), nats(ws@)[x], header, bold@)),
                line@ == "│ "@ + joined_sep(parts.take(c as int), " │ "@),
            decreases nc - c,
        {
            if c > 0 {
                push_str(&mut line, " │ ");
            }
            let text: String = if j < wrapped[c].len() {
                string_from_str(wrapped[c][j].as_str())
            } else {
                String::new()
            };
            assert(text@ == text_at(wcs[c as int], j as int)) by {
                assert(wv[c as int] == strs_view(wrapped@[c as int]@));
            }
            proof {
                if j < wrapped@[c as int].len() {
                    assert(wcs[c as int] == wrapped_cell(cv[c as int], nats(ws@)[c as int]));
                    assert(visible_width_of(wrapped_cell(cv[c as int], nats(ws@)[c as int])[j as int]) <= usize::MAX);
                }
            }
            let vw = visible_width(text.as_str());
            let pad = if ws[c] >= vw { ws[c] - vw } else { 0 };
            let mut p = text;
            push_repeat(&mut p, ' ', pad);
            let part = if header {
                bold.apply(p.as_str())
            } else {
                p
            };
            assert(part@ == parts[c as int]);
            push_str(&mut line, part.as_str());
            proof {
                let pt = parts.take(c + 1);
                assert(pt.drop_last() =~= parts.take(c as int));
                if c == 0 {
                    assert(parts.take(0) =~= Seq::<Seq<char>>::empty());
                }
            }
            c = c + 1;
        }
        push_str(&mut line, " │");
        assert(parts.take(nc as int) =~= parts);
        assert(line@ == target[j as int]);
        let ghost pv = strs_view(out@);
        out.push(line);
        assert(strs_view(out@) =~= pv.push(target[j as int]));
        assert(target.take(j + 1) =~= target.take(j as int).push(target[j as int]));
        j = j + 1;
        assert(strs_view(out@) =~= target.take(j as int));
    }
    assert(target.take(most as int) =~= target);
    out
}

// ---------------------------------------------------------------------------
// The table
// ---------------------------------------------------------------------------

/// A horizontal rule over the columns: `l`, the columns' widths of `─`
/// joined at `m`, then `r`.
pub open spec fn border(ws: Seq<nat>, l: char, m: char, r: char) -> Seq<char> {
    seq![l, '─'] + joined_sep(Seq::new(ws.len(), |i: int| repeat_char('─', ws[i])), seq!['─', m, '─']) + seq!['─', r]
}

fn border_line(ws: &Vec<usize>, l: char, m: char, r: char) -> (out: String)
    ensures
        out@ == border(nats(ws@), l, m, r),
{
    let ghost parts = Seq::new(ws@.len(), |i: int| repeat_char('─', nats(ws@)[i]));
    let mut out = String::new();
    crate::tui::strs::push_char(&mut out, l);
    crate::tui::strs::push_char(&mut out, '─');
    let ghost head = out@;
    assert(head =~= seq![l, '─']);
    let mut i: usize = 0;
    while i < ws.len()
        invariant
            i <= ws.len(),
            head == seq![l, '─'],
            parts == Seq::new(ws@.len(), |i: int| repeat_char('─', nats(ws@)[i])),
            out@ == head + joined_sep(parts.take(i as int), seq!['─', m, '─']),
        decreases ws.len() - i,
    {
        if i > 0 {
            crate::tui::strs::push_char(&mut out, '─');
            crate::tui::strs::push_char(&mut out, m);
            crate::tui::strs::push_char(&mut out, '─');
        }
        push_repeat(&mut out, '─', ws[i]);
        proof {
            assert(parts.take(i + 1).drop_last() =~= parts.take(i as int));
            if i == 0 {
                assert(parts.take(0) =~= Seq::<Seq<char>>::empty());
            }
        }
        i = i + 1;
        assert(out@ =~= head + joined_sep(parts.take(i as int), seq!['─', m, '─']));
    }
    assert(parts.take(ws.len() as int) =~= parts);
    crate::tui::strs::push_char(&mut out, '─');
    crate::tui::strs::push_char(&mut out, r);
    assert(out@ =~= border(nats(ws@), l, m, r));
    out
}

/// The body rows' lines, a separator rule between each two rows.
pub open spec fn body_lines(
    body: Seq<Seq<Seq<Seq<char>>>>,
    ws: Seq<nat>,
    num_cols: nat,
    bold: crate::tui::theme::StyleView,
    sep: Seq<char>,
) -> Seq<Seq<char>>
    decreases body.len(),
{
    if body.len() == 0 {
        seq![]
    } else if body.len() == 1 {
        row_lines(body[0], ws, num_cols, false, bold)
    } else {
        body_lines(body.drop_last(), ws, num_cols, bold, sep) + seq![sep] + row_lines(body.last(), ws, num_cols, false, bold)
    }
}

/// What each column needs at most: its widest line.
pub open spec fn table_natural(rows: Seq<Seq<Seq<Seq<char>>>>, num_cols: nat) -> Seq<nat> {
    Seq::new(num_cols, |i: int| col_natural(rows, i, 0))
}

/// What each column needs at least: its widest word (see `min_word_of`).
pub open spec fn table_min_word(rows: Seq<Seq<Seq<Seq<char>>>>, num_cols: nat) -> Seq<nat> {
    Seq::new(num_cols, |i: int| col_min_word(rows, i, 1))
}

/// The column widths of a table with a header row and body rows.
pub open spec fn table_widths(
    header: Seq<Seq<Seq<char>>>,
    body: Seq<Seq<Seq<Seq<char>>>>,
    num_cols: nat,
    width: nat,
) -> Seq<nat> {
    let all = seq![header] + body;
    column_widths(table_natural(all, num_cols), table_min_word(all, num_cols), width)
}

/// The lines of a table `width` columns wide: nothing without columns,
/// without room for one column each between the rules, or without a header;
/// else a top rule, the header in bold, a rule, the body rows with rules
/// between them, and a bottom rule.
pub open spec fn table_lines(
    header: Seq<Seq<Seq<char>>>,
    body: Seq<Seq<Seq<Seq<char>>>>,
    num_cols: nat,
    width: nat,
    bold: crate::tui::theme::StyleView,
) -> Seq<Seq<char>> {
    if num_cols == 0 || sat(width, 3 * num_cols + 1) < num_cols || header.len() == 0 {
        seq![]
    } else {
        let ws = table_widths(header, body, num_cols, width);
        let sep = border(ws, '├', '┼', '┤');
        seq![border(ws, '┌', '┬', '┐')] + row_lines(header, ws, num_cols, true, bold) + seq![sep] + body_lines(
            body,
            ws,
            num_cols,
            bold,
            sep,
        ) + seq![border(ws, '└', '┴', '┘')]
    }
}

/// The inputs a table is laid out for: the sums of the column needs fit in
/// `usize`, every width measured fits, and every cell line wraps.
pub open spec fn table_ok(
    header: Seq<Seq<Seq<char>>>,
    body: Seq<Seq<Seq<Seq<char>>>>,
    num_cols: nat,
    width: nat,
) -> bool {
    let all = seq![header] + body;
    let ws = table_widths(header, body, num_cols, width);
    &&& 3 * num_cols + 1 <= usize::MAX
    &&& cells_fit(all)
    &&& total(table_natural(all, num_cols)) + 3 * num_cols + 1 <= usize::MAX
    &&& total(table_min_word(all, num_cols)) <= usize::MAX
    &&& row_ok(header, ws, num_cols)
    &&& forall|r: int| 0 <= r < body.len() ==> row_ok(#[trigger] body[r], ws, num_cols)
}

/// Lay out a table: a header row and body rows of cells (each a list of
/// lines), `num_cols` columns, in `width` columns, the header styled with
/// `bold`.
pub fn render_table(header: &Vec<Vec<String>>, body: &Vec<Vec<Vec<String>>>, num_cols: usize, width: usize, bold: &Style) -> (r: Vec<String>)
    requires
        table_ok(row_view(header@), rows_view(body@), num_cols as nat, width as nat),
    ensures
        strs_view(r@) == table_lines(row_view(header@), rows_view(body@), num_cols as nat, width as nat, bold@),
{
    let ghost hv = row_view(header@);
    let ghost bv = rows_view(body@);
    if num_cols == 0 {
        let r: Vec<String> = Vec::new();
        assert(strs_view(r@) =~= Seq::<Seq<char>>::empty());
        return r;
    }
    let overhead = 3 * num_cols + 1;
    let avail = if width >= overhead { width - overhead } else { 0 };
    if avail < num_cols || header.len() == 0 {
        let r: Vec<String> = Vec::new();
        assert(strs_view(r@) =~= Seq::<Seq<char>>::empty());
        return r;
    }
    let mut all: Vec<&Vec<Vec<String>>> = Vec::new();
    all.push(header);
    let mut i: usize = 0;
    while i < body.len()
        invariant
            i <= body.len(),
            bv == rows_view(body@),
            all@.map_values(|x: &Vec<Vec<String>>| row_view(x@)) == seq![hv] + bv.take(i as int),
            hv == row_view(header@),
        decreases body.len() - i,
    {
        let ghost pv = all@.map_values(|x: &Vec<Vec<String>>| row_view(x@));
        all.push(&body[i]);
        assert(all@.map_values(|x: &Vec<Vec<String>>| row_view(x@)) =~= pv.push(bv[i as int]));
        assert(bv.take(i + 1) =~= bv.take(i as int).push(bv[i as int]));
        i = i + 1;
    }
    assert(bv.take(body.len() as int) =~= bv);
    let ghost av = seq![hv] + bv;
    assert(all@.map_values(|x: &Vec<Vec<String>>| row_view(x@)) == av);
    let mut natural: Vec<usize> = Vec::new();
    let mut min_word: Vec<usize> = Vec::new();
    let mut c: usize = 0;
    while c < num_cols
        invariant
            c <= num_cols,
            all@.map_values(|x: &Vec<Vec<String>>| row_view(x@)) == av,
            cells_fit(av),
            natural.len() == c,
            min_word.len() == c,
            forall|x: int| 0 <= x < c ==> natural@[x] as nat == #[trigger] table_natural(av, num_cols as nat)[x],
            forall|x: int| 0 <= x < c ==> min_word@[x] as nat == #[trigger] table_min_word(av, num_cols as nat)[x],
        decreases num_cols - c,
    {
        let (n, m) = column_needs(&all, c);
        natural.push(n);
        min_word.push(m);
        c = c + 1;
    }
    assert(nats(natural@) =~= table_natural(av, num_cols as nat));
    assert(nats(min_word@) =~= table_min_word(av, num_cols as nat));
    let ws = compute_column_widths(&natural, &min_word, width);
    let ghost wv = nats(ws@);
    assert(wv == table_widths(hv, bv, num_cols as nat, width as nat));
    proof {
        assert(column_widths(nats(natural@), nats(min_word@), width as nat).len() == num_cols) by {
            lemma_column_widths_len(nats(natural@), nats(min_word@), width as nat);
        }
    }
    let sep = border_line(&ws, '├', '┼', '┤');
    let mut out: Vec<String> = Vec::new();
    let top = border_line(&ws, '┌', '┬', '┐');
    out.push(top);
    assert(strs_view(out@) =~= seq![border(wv, '┌', '┬', '┐')]);
    let head = render_row(header, &ws, num_cols, true, bold);
    let mut k: usize = 0;
    let ghost start = strs_view(out@);
    while k < head.len()
        invariant
            k <= head.len(),
            strs_view(out@) == start + strs_view(head@).take(k as int),
        decreases head.len() - k,
    {
        let x = string_from_str(head[k].as_str());
        let ghost pv = strs_view(out@);
        out.push(x);
        assert(strs_view(out@) =~= pv.push(x@));
        assert(strs_view(head@).take(k + 1) =~= strs_view(head@).take(k as int).push(strs_view(head@)[k as int]));
        k = k + 1;
    }
    assert(strs_view(head@).take(head.len() as int) =~= strs_view(head@));
    let sep2 = string_from_str(sep.as_str());
    let ghost pv0 = strs_view(out@);
    out.push(sep2);
    assert(strs_view(out@) =~= pv0.push(sep@));
    let ghost before_body = strs_view(out@);
    assert(before_body =~= seq![border(wv, '┌', '┬', '┐')] + row_lines(hv, wv, num_cols as nat, true, bold@) + seq![
        border(wv, '├', '┼', '┤'),
    ]);
    let mut ri: usize = 0;
    while ri < body.len()
        invariant
            ri <= body.len(),
            bv == rows_view(body@),
            wv == nats(ws@),
            sep@ == border(wv, '├', '┼', '┤'),
            forall|r: int| 0 <= r < bv.len() ==> row_ok(#[trigger] bv[r], wv, num_cols as nat),
            strs_view(out@) == before_body + body_lines(bv.take(ri as int), wv, num_cols as nat, bold@, sep@) + if 0 < ri
                < body.len() {
                seq![sep@]
            } else {
                seq![]
            },
        decreases body.len() - ri,
    {
        assert(bv[ri as int] == row_view(body@[ri as int]@));
        assert(row_ok(bv[ri as int], wv, num_cols as nat));
        let rl = render_row(&body[ri], &ws, num_cols, false, bold);
        let ghost mid = strs_view(out@);
        let mut k: usize = 0;
        while k < rl.len()
            invariant
                k <= rl.len(),
                strs_view(out@) == mid + strs_view(rl@).take(k as int),
            decreases rl.len() - k,
        {
            let x = string_from_str(rl[k].as_str());
            let ghost pv = strs_view(out@);
            out.push(x);
            assert(strs_view(out@) =~= pv.push(x@));
            assert(strs_view(rl@).take(k + 1) =~= strs_view(rl@).take(k as int).push(strs_view(rl@)[k as int]));
            k = k + 1;
        }
        assert(strs_view(rl@).take(rl.len() as int) =~= strs_view(rl@));
        proof {
            let bt = bv.take(ri + 1);
            assert(bt.drop_last() =~= bv.take(ri as int));
            assert(bt.last() == bv[ri as int]);
            if ri == 0 {
                assert(bt =~= seq![bv[0]]);
            }
        }
        if ri + 1 < body.len() {
            let ghost pv = strs_view(out@);
            out.push(string_from_str(sep.as_str()));
            assert(strs_view(out@) =~= pv.push(sep@));
        }
        ri = ri + 1;
        assert(strs_view(out@) =~= before_body + body_lines(bv.take(ri as int), wv, num_cols as nat, bold@, sep@) + if 0
            < ri < body.len() {
            seq![sep@]
        } else {
            seq![]
        });
    }
    assert(bv.take(body.len() as int) =~= bv);
    assert(strs_view(out@) =~= before_body + body_lines(bv, wv, num_cols as nat, bold@, sep@));
    let bottom = border_line(&ws, '└', '┴', '┘');
    let ghost pv = strs_view(out@);
    out.push(bottom);
    assert(strs_view(out@) =~= pv.push(bottom@));
    assert(strs_view(out@) =~= table_lines(hv, bv, num_cols as nat, width as nat, bold@));
    out
}

proof fn lemma_column_widths_len(natural: Seq<nat>, min_word: Seq<nat>, width: nat)
    requires
        natural.len() == min_word.len(),
        natural.len() > 0,
    ensures
        column_widths(natural, min_word, width).len() == natural.len(),
{
    let k = natural.len();
    let overhead = 3 * k + 1;
    let avail = sat(width, overhead);
    if total(natural) + overhead > width && total(min_word) <= avail {
        let extra = sat(avail, total(min_word));
        let gp = total(potentials(natural, min_word));
        let w = Seq::new(k, |i: int| min_word[i] + share(extra, sat(natural[i], min_word[i]), gp));
        lemma_bumped_len(w, natural, 0, sat(avail, total(w)));
    }
}

proof fn lemma_bumped_len(w: Seq<nat>, natural: Seq<nat>, i: int, remaining: nat)
    ensures
        bumped(w, natural, i, remaining).len() == w.len(),
    decreases w.len() - i,
{
    if !(i < 0 || i >= w.len() || remaining == 0) {
        if w[i] < natural[i] {
            lemma_bumped_len(w.update(i, w[i] + 1), natural, i + 1, (remaining - 1) as nat);
        } else {
            lemma_bumped_len(w, natural, i + 1, remaining);
        }
    }
}

} // verus!
