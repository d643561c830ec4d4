//! Selecting the last visual (wrapped) lines of a list of logical lines.
use crate::tui::strs::{decimal, push_decimal, push_str};
use crate::tui::util::{visible_width, visible_width_of};
use vstd::prelude::*;

verus! {

/// Visual rows a logical line takes at `width`: at least one, otherwise its
/// visible width divided by the width, rounded up.
pub open spec fn visual_rows(line: Seq<char>, width: nat) -> nat {
    if width == 0 {
        1
    } else {
        let vis = visible_width_of(line);
        if vis == 0 {
            1
        } else {
            ((vis + width - 1) / (width as int)) as nat
        }
    }
}

/// Count how many visual (wrapped) lines a single logical line occupies.
pub fn visual_line_count(line: &str, width: usize) -> (n: usize)
    requires
        visible_width_of(line@) <= usize::MAX,
    ensures
        n == visual_rows(line@, width as nat),
{
    if width == 0 {
        return 1;
    }
    let vis = visible_width(line);
    if vis == 0 {
        return 1;
    }
    let q = vis / width;
    if vis % width != 0 {
        assert(q < usize::MAX) by (nonlinear_arith)
            requires
                q == vis / width,
                vis % width != 0,
                width > 0,
                vis <= usize::MAX,
        ;
    }
    let r = if vis % width == 0 {
        q
    } else {
        q + 1
    };
    assert(r == (vis + width - 1) / (width as int)) by (nonlinear_arith)
        requires
            width > 0,
            q == vis / width,
            r == (if vis % width == 0 { q as int } else { q + 1 }),
    ;
    r
}

/// The rows of each line.
pub open spec fn rows_of(lines: Seq<&str>, width: nat) -> Seq<nat> {
    lines.map_values(|l: &str| visual_rows(l@, width))
}

/// Sum of a sequence of row counts.
pub open spec fn rows_sum(cs: Seq<nat>) -> nat
    decreases cs.len(),
{
    if cs.len() == 0 {
        0
    } else {
        rows_sum(cs.drop_last()) + cs.last()
    }
}

/// Walking back from line `k`, the first line kept within `budget` rows: the
/// walk stops at the first line that alone exceeds what is left.
pub open spec fn kept_start(cs: Seq<nat>, k: int, budget: int) -> int
    decreases k,
{
    if k <= 0 || k > cs.len() {
        if k > cs.len() {
            cs.len() as int
        } else {
            0
        }
    } else if cs[k - 1] > budget {
        k
    } else {
        kept_start(cs, k - 1, budget - cs[k - 1])
    }
}

/// Where the kept lines start, when the lines do not all fit.
pub open spec fn visual_start(lines: Seq<&str>, width: nat, max_visual_lines: nat) -> int {
    if lines.len() == 0 || max_visual_lines == 0 {
        lines.len() as int
    } else if rows_sum(rows_of(lines, width)) <= max_visual_lines {
        0
    } else {
        kept_start(rows_of(lines, width), lines.len() as int, max_visual_lines as int)
    }
}

proof fn lemma_kept_start_bounds(cs: Seq<nat>, k: int, budget: int)
    requires
        0 <= k <= cs.len(),
    ensures
        0 <= kept_start(cs, k, budget) <= k,
    decreases k,
{
    if k > 0 && cs[k - 1] <= budget {
        lemma_kept_start_bounds(cs, k - 1, budget - cs[k - 1]);
    }
}

proof fn lemma_rows_sum_prefix(cs: Seq<nat>, k: int)
    requires
        0 <= k <= cs.len(),
    ensures
        rows_sum(cs.take(k)) <= rows_sum(cs),
    decreases cs.len() - k,
{
    if k < cs.len() {
        lemma_rows_sum_prefix(cs, k + 1);
        assert(cs.take(k + 1).drop_last() =~= cs.take(k));
    } else {
        assert(cs.take(k) =~= cs);
    }
}

/// Select the last `max_visual_lines` visual lines from a list of logical
/// lines. Walks back from the end, counting the rows each line takes, and
/// stops at the first line that would exceed the budget. Returns the
/// selected lines and how many were hidden: every line that is not
/// selected counts as hidden, so with no rows allowed all of them are.
pub fn truncate_to_visual_lines<'a>(lines: &'a [&'a str], width: usize, max_visual_lines: usize) -> (r: (Vec<&'a str>, usize))
    requires
        forall|i: int| 0 <= i < lines@.len() ==> visible_width_of((#[trigger] lines@[i])@) <= usize::MAX,
        rows_sum(rows_of(lines@, width as nat)) <= usize::MAX,
    ensures
        ({
            let start = visual_start(lines@, width as nat, max_visual_lines as nat);
            &&& r.0@ == lines@.skip(start)
            &&& r.1 == start
        }),
{
    if lines.len() == 0 || max_visual_lines == 0 {
        assert(lines@.skip(lines@.len() as int) =~= Seq::<&str>::empty());
        return (Vec::new(), lines.len());
    }
    let ghost cs = rows_of(lines@, width as nat);
    let mut counts: Vec<usize> = Vec::new();
    let mut total: usize = 0;
    let mut i: usize = 0;
    while i < lines.len()
        invariant
            0 <= i <= lines.len(),
            cs == rows_of(lines@, width as nat),
            counts@.len() == i,
            forall|j: int| 0 <= j < i ==> counts@[j] == cs[j],
            total == rows_sum(cs.take(i as int)),
            rows_sum(cs) <= usize::MAX,
            forall|j: int| 0 <= j < lines@.len() ==> visible_width_of((#[trigger] lines@[j])@) <= usize::MAX,
        decreases lines.len() - i,
    {
        let c = visual_line_count(lines[i], width);
        proof {
            assert(cs.take(i + 1).drop_last() =~= cs.take(i as int));
            lemma_rows_sum_prefix(cs, i + 1);
        }
        counts.push(c);
        total = total + c;
        i = i + 1;
    }
    assert(cs.take(lines.len() as int) =~= cs);
    if total <= max_visual_lines {
        let mut all: Vec<&'a str> = Vec::new();
        let mut j: usize = 0;
        while j < lines.len()
            invariant
                0 <= j <= lines.len(),
                all@ == lines@.take(j as int),
            decreases lines.len() - j,
        {
            all.push(lines[j]);
            j = j + 1;
            assert(all@ =~= lines@.take(j as int));
        }
        assert(lines@.skip(0) =~= lines@.take(lines.len() as int));
        return (all, 0);
    }
    let mut budget = max_visual_lines;
    let mut start = lines.len();
    proof {
        lemma_kept_start_bounds(cs, lines.len() as int, max_visual_lines as int);
    }
    while start > 0
        invariant
            0 <= start <= lines.len(),
            counts@.len() == lines.len(),
            forall|j: int| 0 <= j < lines.len() ==> counts@[j] == cs[j],
            cs.len() == lines.len(),
            kept_start(cs, start as int, budget as int) == kept_start(cs, lines.len() as int, max_visual_lines as int),
        ensures
            kept_start(cs, lines.len() as int, max_visual_lines as int) == start,
        decreases start,
    {
        let vc = counts[start - 1];
        if vc > budget {
            break;
        }
        budget = budget - vc;
        start = start - 1;
    }
    let mut kept: Vec<&'a str> = Vec::new();
    let mut j: usize = start;
    while j < lines.len()
        invariant
            start <= j <= lines.len(),
            kept@ == lines@.subrange(start as int, j as int),
        decreases lines.len() - j,
    {
        kept.push(lines[j]);
        j = j + 1;
        assert(kept@ =~= lines@.subrange(start as int, j as int));
    }
    assert(lines@.skip(start as int) =~= lines@.subrange(start as int, lines.len() as int));
    (kept, start)
}

/// The hint about hidden lines.
pub open spec fn hidden_hint(hidden: nat, expand_key: Seq<char>) -> Seq<char> {
    if expand_key.len() == 0 {
        seq!['.', '.', '.', ' '] + decimal(hidden) + seq![
            ' ', 'e', 'a', 'r', 'l', 'i', 'e', 'r', ' ', 'l', 'i', 'n', 'e', 's'
        ]
    } else {
        seq!['.', '.', '.', ' ', '('] + decimal(hidden) + seq![
            ' ', 'e', 'a', 'r', 'l', 'i', 'e', 'r', ' ', 'l', 'i', 'n', 'e', 's', ',', ' '
        ] + expand_key + seq![' ', 't', 'o', ' ', 'e', 'x', 'p', 'a', 'n', 'd', ')']
    }
}

/// Format a hint about hidden lines, e.g. `"... (12 earlier lines, ctrl+o to expand)"`.
pub fn format_hidden_hint(hidden: usize, expand_key: &str) -> (r: String)
    ensures
        r@ == hidden_hint(hidden as nat, expand_key@),
{
    let mut r = String::new();
    if expand_key.is_empty() {
        let a = "... ";
        let b = " earlier lines";
        proof {
            reveal_strlit("... ");
            reveal_strlit(" earlier lines");
        }
        push_str(&mut r, a);
        push_decimal(&mut r, hidden);
        push_str(&mut r, b);
        assert(r@ =~= hidden_hint(hidden as nat, expand_key@));
    } else {
        let a = "... (";
        let b = " earlier lines, ";
        let c = " to expand)";
        proof {
            reveal_strlit("... (");
            reveal_strlit(" earlier lines, ");
            reveal_strlit(" to expand)");
        }
        push_str(&mut r, a);
        push_decimal(&mut r, hidden);
        push_str(&mut r, b);
        push_str(&mut r, expand_key);
        push_str(&mut r, c);
        assert(r@ =~= hidden_hint(hidden as nat, expand_key@));
    }
    r
}

} // verus!
