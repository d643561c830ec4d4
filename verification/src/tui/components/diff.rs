//! Unified diffs drawn with colours, and word diffs of changed lines.
use crate::tui::components::line_ops::clone_chars;
use crate::tui::strs::{push_chars, push_str, str_chars, string_from_chars, sub_chars, trim_start_ws};
use crate::tui::theme::{theme_key_name, Theme, ThemeKey};
use crate::tui::unicode::{alphanumeric, is_alphanumeric, views};
use vstd::prelude::*;

verus! {

/// A part of a word diff.
#[derive(Debug)]
pub enum Change {
    Equal(String),
    Removed(String),
    Added(String),
}

/// A part of a word diff, as values.
pub enum ChangeView {
    Equal(Seq<char>),
    Removed(Seq<char>),
    Added(Seq<char>),
}

/// The change as values.
pub open spec fn change_view(c: Change) -> ChangeView {
    match c {
        Change::Equal(t) => ChangeView::Equal(t@),
        Change::Removed(t) => ChangeView::Removed(t@),
        Change::Added(t) => ChangeView::Added(t@),
    }
}

/// The changes as values.
pub open spec fn changes_view(s: Seq<Change>) -> Seq<ChangeView> {
    s.map_values(|c: Change| change_view(c))
}

/// A character of a word: alphanumeric or `_`.
pub open spec fn word_char(c: char) -> bool {
    alphanumeric(c) || c == '_'
}

/// The tokens of `t[i..]`, after the word `cur` in progress and the
/// tokens `acc`: runs of word characters, and every other character alone.
pub open spec fn words_from(t: Seq<char>, i: int, cur: Seq<char>, acc: Seq<Seq<char>>) -> Seq<Seq<char>>
    decreases t.len() - i,
{
    if i < 0 || i >= t.len() {
        if cur.len() > 0 { acc.push(cur) } else { acc }
    } else if word_char(t[i]) {
        words_from(t, i + 1, cur.push(t[i]), acc)
    } else {
        let acc1 = if cur.len() > 0 { acc.push(cur) } else { acc };
        words_from(t, i + 1, seq![], acc1.push(seq![t[i]]))
    }
}

/// The tokens of a text.
pub open spec fn words(t: Seq<char>) -> Seq<Seq<char>> {
    words_from(t, 0, seq![], seq![])
}

/// The length of a longest common subsequence of `a[..i]` and `b[..j]`.
pub open spec fn lcs(a: Seq<Seq<char>>, b: Seq<Seq<char>>, i: nat, j: nat) -> nat
    decreases i + j,
{
    if i == 0 || j == 0 {
        0
    } else if a[i - 1] == b[j - 1] {
        lcs(a, b, (i - 1) as nat, (j - 1) as nat) + 1
    } else {
        let x = lcs(a, b, (i - 1) as nat, j);
        let y = lcs(a, b, i, (j - 1) as nat);
        if x >= y { x } else { y }
    }
}

/// The token-by-token diff of `a[..i]` and `b[..j]` along a longest common
/// subsequence, read back from the end: a common last token is kept, else
/// an added token where that keeps at least as long a common part, else a
/// removed one.
pub open spec fn backtrack(a: Seq<Seq<char>>, b: Seq<Seq<char>>, i: nat, j: nat) -> Seq<ChangeView>
    decreases i + j,
{
    if i == 0 && j == 0 {
        seq![]
    } else if i > 0 && j > 0 && a[i - 1] == b[j - 1] {
        backtrack(a, b, (i - 1) as nat, (j - 1) as nat).push(ChangeView::Equal(a[i - 1]))
    } else if j > 0 && (i == 0 || lcs(a, b, i, (j - 1) as nat) >= lcs(a, b, (i - 1) as nat, j)) {
        backtrack(a, b, i, (j - 1) as nat).push(ChangeView::Added(b[j - 1]))
    } else {
        backtrack(a, b, (i - 1) as nat, j).push(ChangeView::Removed(a[i - 1]))
    }
}

/// Two changes of the same kind, joined.
pub open spec fn joined_change(x: ChangeView, y: ChangeView) -> Option<ChangeView> {
    match (x, y) {
        (ChangeView::Equal(s), ChangeView::Equal(t)) => Some(ChangeView::Equal(s + t)),
        (ChangeView::Removed(s), ChangeView::Removed(t)) => Some(ChangeView::Removed(s + t)),
        (ChangeView::Added(s), ChangeView::Added(t)) => Some(ChangeView::Added(s + t)),
        _ => None,
    }
}

/// Consecutive changes of the same kind joined.
pub open spec fn merged(cs: Seq<ChangeView>) -> Seq<ChangeView>
    decreases cs.len(),
{
    if cs.len() == 0 {
        seq![]
    } else {
        let m = merged(cs.drop_last());
        if m.len() > 0 && joined_change(m.last(), cs.last()) is Some {
            m.drop_last().push(joined_change(m.last(), cs.last()).unwrap())
        } else {
            m.push(cs.last())
        }
    }
}

/// The word diff of two texts.
pub open spec fn word_diff(old: Seq<char>, new: Seq<char>) -> Seq<ChangeView> {
    let a = words(old);
    let b = words(new);
    merged(backtrack(a, b, a.len(), b.len()))
}

/// Split text into word tokens: runs of alphanumeric characters and `_`,
/// and every other character on its own.
pub fn split_words(text: &[char]) -> (r: Vec<Vec<char>>)
    ensures
        views(r@) == words(text@),
{
    let mut tokens: Vec<Vec<char>> = Vec::new();
    let mut current: Vec<char> = Vec::new();
    let mut i: usize = 0;
    assert(views(tokens@) =~= Seq::<Seq<char>>::empty());
    assert(current@ =~= Seq::<char>::empty());
    while i < text.len()
        invariant
            0 <= i <= text.len(),
            words(text@) == words_from(text@, i as int, current@, views(tokens@)),
        decreases text.len() - i,
    {
        let c = text[i];
        if is_alphanumeric(c) || c == '_' {
            current.push(c);
        } else {
            if current.len() > 0 {
                let ghost b = views(tokens@);
                let mut w: Vec<char> = Vec::new();
                std::mem::swap(&mut w, &mut current);
                tokens.push(w);
                assert(views(tokens@) =~= b.push(w@));
            }
            let ghost b2 = views(tokens@);
            let one = vec![c];
            assert(one@ =~= seq![c]);
            tokens.push(one);
            assert(views(tokens@) =~= b2.push(seq![c]));
            assert(current@ =~= Seq::<char>::empty());
        }
        i = i + 1;
    }
    if current.len() > 0 {
        let ghost b = views(tokens@);
        tokens.push(current);
        assert(views(tokens@) =~= b.push(current@));
    }
    tokens
}

proof fn lemma_lcs_le(a: Seq<Seq<char>>, b: Seq<Seq<char>>, i: nat, j: nat)
    ensures
        lcs(a, b, i, j) <= i,
    decreases i + j,
{
    if i == 0 || j == 0 {
    } else if a[i - 1] == b[j - 1] {
        lemma_lcs_le(a, b, (i - 1) as nat, (j - 1) as nat);
    } else {
        lemma_lcs_le(a, b, (i - 1) as nat, j);
        lemma_lcs_le(a, b, i, (j - 1) as nat);
    }
}

/// The table of longest common subsequence lengths.
fn lcs_table(a: &Vec<Vec<char>>, b: &Vec<Vec<char>>) -> (dp: Vec<Vec<usize>>)
    ensures
        dp@.len() == a.len() + 1,
        forall|i: int| 0 <= i <= a.len() ==> (#[trigger] dp@[i])@.len() == b.len() + 1,
        forall|i: int, j: int|
            0 <= i <= a.len() && 0 <= j <= b.len() ==> (#[trigger] dp@[i]@[j]) == lcs(views(a@), views(b@), i as nat, j as nat),
{
    let ghost va = views(a@);
    let ghost vb = views(b@);
    let n = a.len();
    let m = b.len();
    let mut dp: Vec<Vec<usize>> = Vec::new();
    let mut row0: Vec<usize> = Vec::new();
    row0.push(0);
    let mut j: usize = 0;
    while j < m
        invariant
            0 <= j <= m,
            m == b.len(),
            row0@.len() == j + 1,
            forall|k: int| 0 <= k <= j ==> row0@[k] == 0,
        decreases m - j,
    {
        row0.push(0);
        j = j + 1;
    }
    dp.push(row0);
    let mut i0: usize = 0;
    while i0 < n
        invariant
            0 <= i0 <= n,
            n == a.len(),
            m == b.len(),
            va == views(a@),
            vb == views(b@),
            dp@.len() == i0 + 1,
            forall|r: int| 0 <= r <= i0 ==> (#[trigger] dp@[r])@.len() == m + 1,
            forall|r: int, k: int| 0 <= r <= i0 && 0 <= k <= m ==> (#[trigger] dp@[r]@[k]) == lcs(va, vb, r as nat, k as nat),
        decreases n - i0,
    {
        let i = i0 + 1;
        let mut row: Vec<usize> = Vec::new();
        row.push(0);
        let mut j0: usize = 0;
        while j0 < m
            invariant
                1 <= i <= n,
                i == i0 + 1,
                0 <= j0 <= m,
                n == a.len(),
                m == b.len(),
                va == views(a@),
                vb == views(b@),
                dp@.len() == i,
                forall|r: int| 0 <= r < i ==> (#[trigger] dp@[r])@.len() == m + 1,
                forall|r: int, k: int| 0 <= r < i && 0 <= k <= m ==> (#[trigger] dp@[r]@[k]) == lcs(va, vb, r as nat, k as nat),
                row@.len() == j0 + 1,
                forall|k: int| 0 <= k <= j0 ==> (#[trigger] row@[k]) == lcs(va, vb, i as nat, k as nat),
            decreases m - j0,
        {
            let j = j0 + 1;
            assert(va[i - 1] == a@[i - 1]@);
            assert(vb[j - 1] == b@[j - 1]@);
            let v = if crate::tui::image::chars_eq(&a[i - 1], &b[j - 1]) {
                proof {
                    lemma_lcs_le(va, vb, (i - 1) as nat, (j - 1) as nat);
                }
                dp[i - 1][j - 1] + 1
            } else {
                let x = dp[i - 1][j];
                let y = row[j - 1];
                if x >= y { x } else { y }
            };
            row.push(v);
            j0 = j0 + 1;
        }
        dp.push(row);
        i0 = i0 + 1;
    }
    dp
}

/// Compute a word-level diff of two strings: the tokens along a longest
/// common subsequence, consecutive changes of a kind joined.
pub fn compute_word_diff(old: &str, new: &str) -> (r: Vec<Change>)
    ensures
        changes_view(r@) == word_diff(old@, new@),
{
    let a = split_words(&str_chars(old));
    let b = split_words(&str_chars(new));
    let ghost va = views(a@);
    let ghost vb = views(b@);
    let dp = lcs_table(&a, &b);
    let n = a.len();
    let m = b.len();
    // The changes from the end back.
    let mut temp: Vec<Change> = Vec::new();
    let mut i = n;
    let mut j = m;
    while i > 0 || j > 0
        invariant
            i <= n,
            j <= m,
            n == a.len(),
            m == b.len(),
            va == views(a@),
            vb == views(b@),
            dp@.len() == n + 1,
            forall|r: int| 0 <= r <= n ==> (#[trigger] dp@[r])@.len() == m + 1,
            forall|r: int, k: int| 0 <= r <= n && 0 <= k <= m ==> (#[trigger] dp@[r]@[k]) == lcs(va, vb, r as nat, k as nat),
            backtrack(va, vb, n as nat, m as nat) == backtrack(va, vb, i as nat, j as nat) + changes_view(temp@).reverse(),
        decreases i + j,
    {
        let ghost t0 = changes_view(temp@);
        if i > 0 && j > 0 && crate::tui::image::chars_eq(&a[i - 1], &b[j - 1]) {
            assert(va[i - 1] == a@[i - 1]@);
            assert(vb[j - 1] == b@[j - 1]@);
            temp.push(Change::Equal(string_from_chars(&a[i - 1])));
            i = i - 1;
            j = j - 1;
        } else if j > 0 && (i == 0 || dp[i][j - 1] >= dp[i - 1][j]) {
            proof {
                if i > 0 {
                    assert(va[i - 1] == a@[i - 1]@);
                    assert(vb[j - 1] == b@[j - 1]@);
                }
            }
            assert(vb[j - 1] == b@[j - 1]@);
            temp.push(Change::Added(string_from_chars(&b[j - 1])));
            j = j - 1;
        } else {
            assert(va[i - 1] == a@[i - 1]@);
            proof {
                if j > 0 {
                    assert(vb[j - 1] == b@[j - 1]@);
                }
            }
            temp.push(Change::Removed(string_from_chars(&a[i - 1])));
            i = i - 1;
        }
        assert(changes_view(temp@).reverse() =~= seq![changes_view(temp@).last()] + t0.reverse());
    }
    assert(changes_view(temp@).reverse() =~= backtrack(va, vb, n as nat, m as nat));
    // Forward order, with consecutive changes of a kind joined.
    let ghost fwd = changes_view(temp@).reverse();
    let mut merged_v: Vec<Change> = Vec::new();
    let mut k = temp.len();
    while k > 0
        invariant
            k <= temp.len(),
            fwd == changes_view(temp@).reverse(),
            changes_view(merged_v@) == merged(fwd.take(temp.len() - k)),
        decreases k,
    {
        let ghost before = changes_view(merged_v@);
        let idx = temp.len() - k;
        assert(fwd[idx as int] == change_view(temp@[k - 1]));
        assert(fwd.take(idx + 1).drop_last() =~= fwd.take(idx as int));
        let c = &temp[k - 1];
        let last_kind: u8 = if merged_v.len() == 0 {
            0
        } else {
            match &merged_v[merged_v.len() - 1] {
                Change::Equal(_) => 1,
                Change::Removed(_) => 2,
                Change::Added(_) => 3,
            }
        };
        let this_kind: u8 = match c {
            Change::Equal(_) => 1,
            Change::Removed(_) => 2,
            Change::Added(_) => 3,
        };
        if last_kind == this_kind {
            let last = merged_v.pop().unwrap();
            let joined = match (last, c) {
                (Change::Equal(mut s), Change::Equal(t)) => {
                    push_str(&mut s, t.as_str());
                    Change::Equal(s)
                },
                (Change::Removed(mut s), Change::Removed(t)) => {
                    push_str(&mut s, t.as_str());
                    Change::Removed(s)
                },
                (Change::Added(mut s), Change::Added(t)) => {
                    push_str(&mut s, t.as_str());
                    Change::Added(s)
                },
                (l, _) => l,
            };
            merged_v.push(joined);
            assert(changes_view(merged_v@) =~= before.drop_last().push(joined_change(before.last(), fwd[idx as int]).unwrap()));
        } else {
            let copy = match c {
                Change::Equal(t) => Change::Equal(crate::tui::strs::string_from_str(t.as_str())),
                Change::Removed(t) => Change::Removed(crate::tui::strs::string_from_str(t.as_str())),
                Change::Added(t) => Change::Added(crate::tui::strs::string_from_str(t.as_str())),
            };
            merged_v.push(copy);
            assert(changes_view(merged_v@) =~= before.push(fwd[idx as int]));
        }
        k = k - 1;
    }
    assert(fwd.take(temp.len() as int) =~= fwd);
    merged_v
}


// ---------------------------------------------------------------------------
// Drawing a unified diff
// ---------------------------------------------------------------------------

/// Tabs as three spaces.
pub open spec fn tabs_replaced(t: Seq<char>) -> Seq<char>
    decreases t.len(),
{
    if t.len() == 0 {
        seq![]
    } else {
        (if t[0] == '\t' { seq![' ', ' ', ' '] } else { seq![t[0]] }) + tabs_replaced(t.drop_first())
    }
}

/// The lines of a text as `str::lines` gives them: split at `\n`, a `\r`
/// before a `\n` dropped, no empty line after a final `\n`.
pub open spec fn str_lines(t: Seq<char>) -> Seq<Seq<char>> {
    if t.len() == 0 {
        seq![]
    } else {
        let parts = crate::tui::sgr::split_on(t, '\n');
        let body = if t.last() == '\n' { parts.drop_last() } else { parts };
        Seq::new(
            body.len(),
            |i: int|
                if i < parts.len() - 1 && body[i].len() > 0 && body[i].last() == '\r' {
                    body[i].drop_last()
                } else {
                    body[i]
                },
        )
    }
}

/// A unified diff header line: `---`, `+++` or `@@`.
pub open spec fn header_line(l: Seq<char>) -> bool {
    crate::tui::strs::seq_starts_with(l, seq!['-', '-', '-']) || crate::tui::strs::seq_starts_with(l, seq!['+', '+', '+'])
        || crate::tui::strs::seq_starts_with(l, seq!['@', '@'])
}

/// The end of the run of lines from `i` that start with `c`.
pub open spec fn run_end(ls: Seq<Seq<char>>, i: int, c: char) -> int
    decreases ls.len() - i,
{
    if 0 <= i < ls.len() && ls[i].len() > 0 && ls[i][0] == c {
        run_end(ls, i + 1, c)
    } else {
        i
    }
}

/// The text a change adds to the removed (or the added) line: common text
/// as it is; its own change reversed, after its leading whitespace.
pub open spec fn change_part<T: Theme>(th: T, c: ChangeView, removed: bool) -> Seq<char> {
    let own = |t: Seq<char>| {
        let tr = trim_start_ws(t);
        t.take(t.len() - tr.len()) + if tr.len() > 0 { th.inverse_text(tr) } else { seq![] }
    };
    match c {
        ChangeView::Equal(t) => t,
        ChangeView::Removed(t) => if removed { own(t) } else { seq![] },
        ChangeView::Added(t) => if removed { seq![] } else { own(t) },
    }
}

/// The removed (or added) line of a word diff.
pub open spec fn diff_side<T: Theme>(th: T, cs: Seq<ChangeView>, removed: bool) -> Seq<char>
    decreases cs.len(),
{
    if cs.len() == 0 {
        seq![]
    } else {
        diff_side(th, cs.drop_last(), removed) + change_part(th, cs.last(), removed)
    }
}

/// The two lines of a one-line change, with the changed words reversed.
pub open spec fn intra_lines<T: Theme>(th: T, old: Seq<char>, new: Seq<char>) -> Seq<Seq<char>> {
    let cs = word_diff(old, new);
    seq![
        th.fg_text(theme_key_name(ThemeKey::ToolDiffRemoved), seq!['-'] + diff_side(th, cs, true)),
        th.fg_text(theme_key_name(ThemeKey::ToolDiffAdded), seq!['+'] + diff_side(th, cs, false)),
    ]
}

/// The drawn lines of the diff lines `ls[i..]`: headers and empty lines
/// left out; a run of removed lines and the added lines after it drawn as
/// a word diff where each is one line, else each line in its colour;
/// added and context lines in theirs.
pub open spec fn render_from<T: Theme>(th: T, ls: Seq<Seq<char>>, i: int) -> Seq<Seq<char>>
    decreases ls.len() - i,
{
    if i < 0 || i >= ls.len() {
        seq![]
    } else {
        let line = ls[i];
        if header_line(line) || line.len() == 0 {
            render_from(th, ls, i + 1)
        } else if line[0] == '-' {
            let r_end = run_end(ls, i, '-');
            let a_end = run_end(ls, r_end, '+');
            if r_end <= i || a_end < r_end || a_end > ls.len() {
                seq![]
            } else {
                let removed = ls.subrange(i, r_end);
                let added = ls.subrange(r_end, a_end);
                (if removed.len() == 1 && added.len() == 1 {
                    intra_lines(th, tabs_replaced(removed[0].drop_first()), tabs_replaced(added[0].drop_first()))
                } else {
                    Seq::new(
                        removed.len(),
                        |k: int|
                            th.fg_text(
                                theme_key_name(ThemeKey::ToolDiffRemoved),
                                seq!['-'] + tabs_replaced(removed[k].drop_first()),
                            ),
                    ) + Seq::new(
                        added.len(),
                        |k: int| th.fg_text(theme_key_name(ThemeKey::ToolDiffAdded), seq!['+'] + tabs_replaced(added[k].drop_first())),
                    )
                }) + render_from(th, ls, a_end)
            }
        } else if line[0] == '+' {
            seq![th.fg_text(theme_key_name(ThemeKey::ToolDiffAdded), seq!['+'] + tabs_replaced(line.drop_first()))]
                + render_from(th, ls, i + 1)
        } else {
            seq![th.fg_text(theme_key_name(ThemeKey::ToolDiffContext), seq![' '] + tabs_replaced(line.drop_first()))]
                + render_from(th, ls, i + 1)
        }
    }
}

/// Every context line starts with a one-byte character (the drawing cuts
/// its first byte off).
pub open spec fn diff_ok(ls: Seq<Seq<char>>) -> bool {
    forall|i: int|
        0 <= i < ls.len() && !header_line(#[trigger] ls[i]) && ls[i].len() > 0 && ls[i][0] != '-' && ls[i][0] != '+'
            ==> crate::tui::strs::utf8_width(ls[i][0]) == 1
}

proof fn lemma_run_end_bounds(ls: Seq<Seq<char>>, i: int, c: char)
    requires
        0 <= i <= ls.len(),
    ensures
        i <= run_end(ls, i, c) <= ls.len(),
        forall|k: int| i <= k < run_end(ls, i, c) ==> ls[k].len() > 0 && ls[k][0] == c,
    decreases ls.len() - i,
{
    if 0 <= i < ls.len() && ls[i].len() > 0 && ls[i][0] == c {
        lemma_run_end_bounds(ls, i + 1, c);
    }
}

/// Tabs as three spaces.
fn replace_tabs(t: &[char]) -> (r: Vec<char>)
    ensures
        r@ == tabs_replaced(t@),
{
    let mut r: Vec<char> = Vec::new();
    let mut i: usize = 0;
    assert(t@.skip(0) =~= t@);
    while i < t.len()
        invariant
            0 <= i <= t.len(),
            r@ + tabs_replaced(t@.skip(i as int)) == tabs_replaced(t@),
        decreases t.len() - i,
    {
        assert(t@.skip(i as int).drop_first() =~= t@.skip(i + 1));
        if t[i] == '\t' {
            r.push(' ');
            r.push(' ');
            r.push(' ');
        } else {
            r.push(t[i]);
        }
        i = i + 1;
    }
    assert(t@.skip(t.len() as int) =~= Seq::<char>::empty());
    assert(r@ + Seq::<char>::empty() =~= r@);
    r
}

/// The lines of a text as `str::lines` gives them.
fn lines_of(text: &[char]) -> (r: Vec<Vec<char>>)
    ensures
        views(r@) == str_lines(text@),
{
    if text.len() == 0 {
        let r: Vec<Vec<char>> = Vec::new();
        assert(views(r@) =~= str_lines(text@));
        return r;
    }
    let parts = crate::tui::sgr::split_chars(text, '\n');
    let ghost pv = views(parts@);
    proof {
        crate::tui::components::editor_model::lemma_split_nonempty(text@, '\n');
    }
    let n = if text[text.len() - 1] == '\n' { parts.len() - 1 } else { parts.len() };
    let mut r: Vec<Vec<char>> = Vec::new();
    let mut i: usize = 0;
    while i < n
        invariant
            0 <= i <= n,
            n <= parts.len(),
            parts.len() >= 1,
            pv == views(parts@),
            pv == crate::tui::sgr::split_on(text@, '\n'),
            text@.len() > 0,
            n == (if text@.last() == '\n' { parts.len() - 1 } else { parts.len() as int }),
            views(r@) =~= str_lines(text@).take(i as int),
        decreases n - i,
    {
        let p = &parts[i];
        assert(pv[i as int] == p@);
        let l = if i < parts.len() - 1 && p.len() > 0 && p[p.len() - 1] == '\r' {
            sub_chars(p, 0, p.len() - 1)
        } else {
            clone_chars(p)
        };
        let ghost b = views(r@);
        r.push(l);
        assert(views(r@) =~= b.push(l@));
        assert(str_lines(text@).take(i + 1) =~= str_lines(text@).take(i as int).push(str_lines(text@)[i as int]));
        proof {
            let body = if text@.last() == '\n' { pv.drop_last() } else { pv };
            assert(body[i as int] == pv[i as int]);
            assert(l@ =~= str_lines(text@)[i as int]);
        }
        i = i + 1;
    }
    assert(str_lines(text@).take(n as int) =~= str_lines(text@));
    r
}

/// The lines of a text as `str::lines` gives them.
pub fn lines_of_text(text: &str) -> (r: Vec<Vec<char>>)
    ensures
        views(r@) == str_lines(text@),
{
    lines_of(&str_chars(text))
}

/// The removed (or added) line of a word diff.
fn diff_side_exec<T: Theme>(theme: &T, cs: &Vec<Change>, removed: bool) -> (r: String)
    ensures
        r@ == diff_side(*theme, changes_view(cs@), removed),
{
    let mut r = String::new();
    let mut i: usize = 0;
    while i < cs.len()
        invariant
            0 <= i <= cs.len(),
            r@ == diff_side(*theme, changes_view(cs@).take(i as int), removed),
        decreases cs.len() - i,
    {
        let ghost before = r@;
        assert(changes_view(cs@).take(i + 1).drop_last() =~= changes_view(cs@).take(i as int));
        let (text, own) = match &cs[i] {
            Change::Equal(t) => (t, false),
            Change::Removed(t) => (t, removed),
            Change::Added(t) => (t, !removed),
        };
        let is_equal = match &cs[i] {
            Change::Equal(_) => true,
            _ => false,
        };
        if is_equal {
            push_str(&mut r, text.as_str());
        } else if own {
            let tc = str_chars(text.as_str());
            let k = crate::tui::components::editor::leading_ws_pub(&tc);
            let ws = sub_chars(&tc, 0, k);
            let tr = sub_chars(&tc, k, tc.len());
            assert(tr@ =~= tc@.skip(k as int));
            assert(ws@ =~= tc@.take(tc@.len() - tr@.len()));
            push_chars(&mut r, &ws);
            if tr.len() > 0 {
                let inv = theme.inverse(string_from_chars(&tr).as_str());
                push_str(&mut r, inv.as_str());
            }
        }
        assert(r@ =~= before + change_part(*theme, changes_view(cs@)[i as int], removed));
        i = i + 1;
    }
    assert(changes_view(cs@).take(cs.len() as int) =~= changes_view(cs@));
    r
}

/// Draw a unified diff with coloured lines and word diffs of one-line changes.
pub fn render_diff<T: Theme>(diff_text: &str, theme: &T) -> (r: Vec<String>)
    requires
        diff_ok(str_lines(diff_text@)),
    ensures
        r@.map_values(|l: String| l@) == render_from(*theme, str_lines(diff_text@), 0),
{
    let ls = lines_of(&str_chars(diff_text));
    let ghost lv = views(ls@);
    let mut out: Vec<String> = Vec::new();
    let mut i: usize = 0;
    while i < ls.len()
        invariant
            0 <= i <= ls.len(),
            lv == views(ls@),
            lv == str_lines(diff_text@),
            diff_ok(lv),
            out@.map_values(|l: String| l@) + render_from(*theme, lv, i as int) == render_from(*theme, lv, 0),
        decreases ls.len() - i,
    {
        let ghost before = out@.map_values(|l: String| l@);
        let line = &ls[i];
        assert(lv[i as int] == line@);
        let header = crate::tui::strs::chars_start_with(line, &['-', '-', '-'])
            || crate::tui::strs::chars_start_with(line, &['+', '+', '+'])
            || crate::tui::strs::chars_start_with(line, &['@', '@']);
        proof {
            assert(['-', '-', '-']@ =~= seq!['-', '-', '-']);
            assert(['+', '+', '+']@ =~= seq!['+', '+', '+']);
            assert(['@', '@']@ =~= seq!['@', '@']);
        }
        if header || line.len() == 0 {
            i = i + 1;
        } else if line[0] == '-' {
            proof {
                lemma_run_end_bounds(lv, i as int, '-');
            }
            let mut r_end = i;
            while r_end < ls.len() && ls[r_end].len() > 0 && ls[r_end][0] == '-'
                invariant
                    i <= r_end <= ls.len(),
                    lv == views(ls@),
                    run_end(lv, i as int, '-') == run_end(lv, r_end as int, '-'),
                decreases ls.len() - r_end,
            {
                assert(lv[r_end as int] == ls@[r_end as int]@);
                r_end = r_end + 1;
            }
            proof {
                if r_end < ls.len() {
                    assert(lv[r_end as int] == ls@[r_end as int]@);
                }
                lemma_run_end_bounds(lv, r_end as int, '+');
            }
            let mut a_end = r_end;
            while a_end < ls.len() && ls[a_end].len() > 0 && ls[a_end][0] == '+'
                invariant
                    r_end <= a_end <= ls.len(),
                    lv == views(ls@),
                    run_end(lv, r_end as int, '+') == run_end(lv, a_end as int, '+'),
                decreases ls.len() - a_end,
            {
                assert(lv[a_end as int] == ls@[a_end as int]@);
                a_end = a_end + 1;
            }
            proof {
                if a_end < ls.len() {
                    assert(lv[a_end as int] == ls@[a_end as int]@);
                }
            }
            let ghost removed = lv.subrange(i as int, r_end as int);
            let ghost added = lv.subrange(r_end as int, a_end as int);
            let ghost part = if removed.len() == 1 && added.len() == 1 {
                intra_lines(*theme, tabs_replaced(removed[0].drop_first()), tabs_replaced(added[0].drop_first()))
            } else {
                Seq::new(
                    removed.len(),
                    |k: int|
                        theme.fg_text(theme_key_name(ThemeKey::ToolDiffRemoved), seq!['-'] + tabs_replaced(removed[k].drop_first())),
                ) + Seq::new(
                    added.len(),
                    |k: int| theme.fg_text(theme_key_name(ThemeKey::ToolDiffAdded), seq!['+'] + tabs_replaced(added[k].drop_first())),
                )
            };
            if r_end - i == 1 && a_end - r_end == 1 {
                let old = replace_tabs(&sub_chars(&ls[i], 1, ls[i].len()));
                let new = replace_tabs(&sub_chars(&ls[r_end], 1, ls[r_end].len()));
                proof {
                    assert(lv[i as int] == ls@[i as int]@);
                    assert(lv[r_end as int] == ls@[r_end as int]@);
                    assert(ls@[i as int]@.skip(1) =~= removed[0].drop_first());
                    assert(ls@[r_end as int]@.skip(1) =~= added[0].drop_first());
                }
                let os = string_from_chars(&old);
                let ns = string_from_chars(&new);
                let cs = compute_word_diff(os.as_str(), ns.as_str());
                let mut rl = String::new();
                crate::tui::strs::push_char(&mut rl, '-');
                let rs = diff_side_exec(theme, &cs, true);
                push_str(&mut rl, rs.as_str());
                let mut al = String::new();
                crate::tui::strs::push_char(&mut al, '+');
                let as_ = diff_side_exec(theme, &cs, false);
                push_str(&mut al, as_.as_str());
                let l1 = theme.fg_key(ThemeKey::ToolDiffRemoved, rl.as_str());
                let l2 = theme.fg_key(ThemeKey::ToolDiffAdded, al.as_str());
                out.push(l1);
                out.push(l2);
                assert(out@.map_values(|l: String| l@) =~= before + part);
            } else {
                let mut k = i;
                while k < r_end
                    invariant
                        i <= k <= r_end,
                        r_end <= ls.len(),
                        lv == views(ls@),
                        removed == lv.subrange(i as int, r_end as int),
                        forall|q: int| i <= q < r_end ==> lv[q].len() > 0 && lv[q][0] == '-',
                        out@.map_values(|l: String| l@) == before + Seq::new(
                            (k - i) as nat,
                            |q: int|
                                theme.fg_text(
                                    theme_key_name(ThemeKey::ToolDiffRemoved),
                                    seq!['-'] + tabs_replaced(removed[q].drop_first()),
                                ),
                        ),
                    decreases r_end - k,
                {
                    assert(lv[k as int] == ls@[k as int]@);
                    let content = replace_tabs(&sub_chars(&ls[k], 1, ls[k].len()));
                    assert(ls@[k as int]@.skip(1) =~= removed[k - i].drop_first());
                    let mut t = String::new();
                    crate::tui::strs::push_char(&mut t, '-');
                    push_chars(&mut t, &content);
                    let l = theme.fg_key(ThemeKey::ToolDiffRemoved, t.as_str());
                    let ghost pb = out@.map_values(|l: String| l@);
                    out.push(l);
                    assert(out@.map_values(|l: String| l@) =~= pb.push(l@));
                    k = k + 1;
                    assert(out@.map_values(|l: String| l@) =~= before + Seq::new(
                        (k - i) as nat,
                        |q: int|
                            theme.fg_text(theme_key_name(ThemeKey::ToolDiffRemoved), seq!['-'] + tabs_replaced(removed[q].drop_first())),
                    ));
                }
                let ghost mid = out@.map_values(|l: String| l@);
                let mut k = r_end;
                while k < a_end
                    invariant
                        r_end <= k <= a_end,
                        a_end <= ls.len(),
                        lv == views(ls@),
                        added == lv.subrange(r_end as int, a_end as int),
                        forall|q: int| r_end <= q < a_end ==> lv[q].len() > 0 && lv[q][0] == '+',
                        out@.map_values(|l: String| l@) == mid + Seq::new(
                            (k - r_end) as nat,
                            |q: int| theme.fg_text(theme_key_name(ThemeKey::ToolDiffAdded), seq!['+'] + tabs_replaced(added[q].drop_first())),
                        ),
                    decreases a_end - k,
                {
                    assert(lv[k as int] == ls@[k as int]@);
                    let content = replace_tabs(&sub_chars(&ls[k], 1, ls[k].len()));
                    assert(ls@[k as int]@.skip(1) =~= added[k - r_end].drop_first());
                    let mut t = String::new();
                    crate::tui::strs::push_char(&mut t, '+');
                    push_chars(&mut t, &content);
                    let l = theme.fg_key(ThemeKey::ToolDiffAdded, t.as_str());
                    let ghost pb = out@.map_values(|l: String| l@);
                    out.push(l);
                    assert(out@.map_values(|l: String| l@) =~= pb.push(l@));
                    k = k + 1;
                    assert(out@.map_values(|l: String| l@) =~= mid + Seq::new(
                        (k - r_end) as nat,
                        |q: int| theme.fg_text(theme_key_name(ThemeKey::ToolDiffAdded), seq!['+'] + tabs_replaced(added[q].drop_first())),
                    ));
                }
                assert(out@.map_values(|l: String| l@) =~= before + part);
            }
            i = a_end;
        } else if line[0] == '+' {
            let content = replace_tabs(&sub_chars(line, 1, line.len()));
            assert(line@.skip(1) =~= line@.drop_first());
            let mut t = String::new();
            crate::tui::strs::push_char(&mut t, '+');
            push_chars(&mut t, &content);
            let l = theme.fg_key(ThemeKey::ToolDiffAdded, t.as_str());
            out.push(l);
            assert(out@.map_values(|l: String| l@) =~= before.push(l@));
            i = i + 1;
        } else {
            let content = replace_tabs(&sub_chars(line, 1, line.len()));
            assert(line@.skip(1) =~= line@.drop_first());
            let mut t = String::new();
            crate::tui::strs::push_char(&mut t, ' ');
            push_chars(&mut t, &content);
            let l = theme.fg_key(ThemeKey::ToolDiffContext, t.as_str());
            out.push(l);
            assert(out@.map_values(|l: String| l@) =~= before.push(l@));
            i = i + 1;
        }
    }
    assert(out@.map_values(|l: String| l@) + Seq::<Seq<char>>::empty() =~= out@.map_values(|l: String| l@));
    out
}

/// The tokens put back together.
pub open spec fn concat_all(ts: Seq<Seq<char>>) -> Seq<char>
    decreases ts.len(),
{
    if ts.len() == 0 {
        seq![]
    } else {
        concat_all(ts.drop_last()) + ts.last()
    }
}

/// The text of a change on the old side: kept and removed parts.
pub open spec fn old_part(c: ChangeView) -> Seq<char> {
    match c {
        ChangeView::Equal(t) => t,
        ChangeView::Removed(t) => t,
        ChangeView::Added(_) => seq![],
    }
}

/// The text of a change on the new side: kept and added parts.
pub open spec fn new_part(c: ChangeView) -> Seq<char> {
    match c {
        ChangeView::Equal(t) => t,
        ChangeView::Removed(_) => seq![],
        ChangeView::Added(t) => t,
    }
}

/// The old text a diff shows.
pub open spec fn old_side(cs: Seq<ChangeView>) -> Seq<char>
    decreases cs.len(),
{
    if cs.len() == 0 {
        seq![]
    } else {
        old_side(cs.drop_last()) + old_part(cs.last())
    }
}

/// The new text a diff shows.
pub open spec fn new_side(cs: Seq<ChangeView>) -> Seq<char>
    decreases cs.len(),
{
    if cs.len() == 0 {
        seq![]
    } else {
        new_side(cs.drop_last()) + new_part(cs.last())
    }
}

proof fn lemma_words_from_concat(t: Seq<char>, i: int, cur: Seq<char>, acc: Seq<Seq<char>>)
    requires
        0 <= i <= t.len(),
    ensures
        concat_all(words_from(t, i, cur, acc)) == concat_all(acc) + cur + t.skip(i),
    decreases t.len() - i,
{
    if i >= t.len() {
        assert(t.skip(i) =~= Seq::<char>::empty());
        if cur.len() > 0 {
            assert(acc.push(cur).drop_last() =~= acc);
        }
        assert(concat_all(acc) + cur + t.skip(i) =~= concat_all(acc) + cur);
        assert(cur.len() == 0 ==> concat_all(acc) + cur =~= concat_all(acc));
    } else if word_char(t[i]) {
        lemma_words_from_concat(t, i + 1, cur.push(t[i]), acc);
        assert(concat_all(acc) + cur.push(t[i]) + t.skip(i + 1) =~= concat_all(acc) + cur + t.skip(i));
    } else {
        let acc1 = if cur.len() > 0 { acc.push(cur) } else { acc };
        lemma_words_from_concat(t, i + 1, seq![], acc1.push(seq![t[i]]));
        assert(acc1.push(seq![t[i]]).drop_last() =~= acc1);
        if cur.len() > 0 {
            assert(acc.push(cur).drop_last() =~= acc);
        }
        assert(concat_all(acc1) =~= concat_all(acc) + cur);
        assert(concat_all(acc1.push(seq![t[i]])) + Seq::<char>::empty() + t.skip(i + 1) =~= concat_all(acc) + cur + t.skip(i));
    }
}

proof fn lemma_backtrack_sides(a: Seq<Seq<char>>, b: Seq<Seq<char>>, i: nat, j: nat)
    requires
        i <= a.len(),
        j <= b.len(),
    ensures
        old_side(backtrack(a, b, i, j)) == concat_all(a.take(i as int)),
        new_side(backtrack(a, b, i, j)) == concat_all(b.take(j as int)),
    decreases i + j,
{
    if i == 0 && j == 0 {
        assert(a.take(0) =~= Seq::<Seq<char>>::empty());
        assert(b.take(0) =~= Seq::<Seq<char>>::empty());
    } else if i > 0 && j > 0 && a[i - 1] == b[j - 1] {
        lemma_backtrack_sides(a, b, (i - 1) as nat, (j - 1) as nat);
        assert(a.take(i as int).drop_last() =~= a.take(i - 1));
        assert(b.take(j as int).drop_last() =~= b.take(j - 1));
        let bt = backtrack(a, b, (i - 1) as nat, (j - 1) as nat);
        assert(bt.push(ChangeView::Equal(a[i - 1])).drop_last() =~= bt);
    } else if j > 0 && (i == 0 || lcs(a, b, i, (j - 1) as nat) >= lcs(a, b, (i - 1) as nat, j)) {
        lemma_backtrack_sides(a, b, i, (j - 1) as nat);
        assert(b.take(j as int).drop_last() =~= b.take(j - 1));
        let bt = backtrack(a, b, i, (j - 1) as nat);
        assert(bt.push(ChangeView::Added(b[j - 1])).drop_last() =~= bt);
        assert(old_side(bt) + Seq::<char>::empty() =~= old_side(bt));
    } else {
        lemma_backtrack_sides(a, b, (i - 1) as nat, j);
        assert(a.take(i as int).drop_last() =~= a.take(i - 1));
        let bt = backtrack(a, b, (i - 1) as nat, j);
        assert(bt.push(ChangeView::Removed(a[i - 1])).drop_last() =~= bt);
        assert(new_side(bt) + Seq::<char>::empty() =~= new_side(bt));
    }
}

proof fn lemma_merged_sides(cs: Seq<ChangeView>)
    ensures
        old_side(merged(cs)) == old_side(cs),
        new_side(merged(cs)) == new_side(cs),
    decreases cs.len(),
{
    if cs.len() > 0 {
        let m = merged(cs.drop_last());
        lemma_merged_sides(cs.drop_last());
        let x = cs.last();
        if m.len() > 0 && joined_change(m.last(), x) is Some {
            let jc = joined_change(m.last(), x).unwrap();
            let r = m.drop_last().push(jc);
            assert(r.drop_last() =~= m.drop_last());
            assert(old_part(jc) == old_part(m.last()) + old_part(x));
            assert(new_part(jc) == new_part(m.last()) + new_part(x));
            assert(old_side(r) =~= old_side(m) + old_part(x));
            assert(new_side(r) =~= new_side(m) + new_part(x));
        } else {
            assert(m.push(x).drop_last() =~= m);
        }
    }
}

/// A word diff shows both texts: its kept and removed parts make up the
/// old text, its kept and added parts the new one.
pub proof fn law_word_diff_sides(old: Seq<char>, new: Seq<char>)
    ensures
        old_side(word_diff(old, new)) == old,
        new_side(word_diff(old, new)) == new,
{
    let a = words(old);
    let b = words(new);
    lemma_words_from_concat(old, 0, seq![], seq![]);
    lemma_words_from_concat(new, 0, seq![], seq![]);
    assert(old.skip(0) =~= old);
    assert(new.skip(0) =~= new);
    assert(concat_all(Seq::<Seq<char>>::empty()) + Seq::<char>::empty() + old =~= old);
    assert(concat_all(Seq::<Seq<char>>::empty()) + Seq::<char>::empty() + new =~= new);
    lemma_backtrack_sides(a, b, a.len(), b.len());
    assert(a.take(a.len() as int) =~= a);
    assert(b.take(b.len() as int) =~= b);
    lemma_merged_sides(backtrack(a, b, a.len(), b.len()));
}

} // verus!

verus! {

/// The tokens `ia` of `a` and `ib` of `b` pair up into a common
/// subsequence: the same token at each pair, both index lists rising.
pub open spec fn common_subsequence(a: Seq<Seq<char>>, b: Seq<Seq<char>>, ia: Seq<int>, ib: Seq<int>) -> bool {
    &&& ia.len() == ib.len()
    &&& forall|t: int| 0 <= t < ia.len() ==> 0 <= #[trigger] ia[t] < a.len()
    &&& forall|t: int| 0 <= t < ib.len() ==> 0 <= #[trigger] ib[t] < b.len()
    &&& forall|t: int| #![trigger ia[t]] #![trigger ib[t]] 0 <= t < ia.len() ==> a[ia[t]] == b[ib[t]]
    &&& forall|s: int, t: int| 0 <= s < t < ia.len() ==> #[trigger] ia[s] < #[trigger] ia[t]
    &&& forall|s: int, t: int| 0 <= s < t < ib.len() ==> #[trigger] ib[s] < #[trigger] ib[t]
}

/// The number of kept tokens in a token-by-token diff.
pub open spec fn kept_tokens(cs: Seq<ChangeView>) -> nat
    decreases cs.len(),
{
    if cs.len() == 0 {
        0
    } else {
        kept_tokens(cs.drop_last()) + if cs.last() is Equal { 1nat } else { 0nat }
    }
}

/// The token-by-token diff of two texts, before runs of a kind are joined.
pub open spec fn token_diff(old: Seq<char>, new: Seq<char>) -> Seq<ChangeView> {
    backtrack(words(old), words(new), words(old).len(), words(new).len())
}

proof fn lemma_backtrack_kept(a: Seq<Seq<char>>, b: Seq<Seq<char>>, i: nat, j: nat)
    requires
        i <= a.len(),
        j <= b.len(),
    ensures
        kept_tokens(backtrack(a, b, i, j)) == lcs(a, b, i, j),
    decreases i + j,
{
    if i == 0 && j == 0 {
    } else if i > 0 && j > 0 && a[i - 1] == b[j - 1] {
        lemma_backtrack_kept(a, b, (i - 1) as nat, (j - 1) as nat);
        let bt = backtrack(a, b, (i - 1) as nat, (j - 1) as nat);
        assert(bt.push(ChangeView::Equal(a[i - 1])).drop_last() =~= bt);
    } else if j > 0 && (i == 0 || lcs(a, b, i, (j - 1) as nat) >= lcs(a, b, (i - 1) as nat, j)) {
        lemma_backtrack_kept(a, b, i, (j - 1) as nat);
        let bt = backtrack(a, b, i, (j - 1) as nat);
        assert(bt.push(ChangeView::Added(b[j - 1])).drop_last() =~= bt);
    } else {
        lemma_backtrack_kept(a, b, (i - 1) as nat, j);
        let bt = backtrack(a, b, (i - 1) as nat, j);
        assert(bt.push(ChangeView::Removed(a[i - 1])).drop_last() =~= bt);
    }
}

proof fn lemma_lcs_at_least(a: Seq<Seq<char>>, b: Seq<Seq<char>>, i: nat, j: nat, ia: Seq<int>, ib: Seq<int>)
    requires
        common_subsequence(a, b, ia, ib),
        i <= a.len(),
        j <= b.len(),
        forall|t: int| 0 <= t < ia.len() ==> #[trigger] ia[t] < i,
        forall|t: int| 0 <= t < ib.len() ==> #[trigger] ib[t] < j,
    ensures
        lcs(a, b, i, j) >= ia.len(),
    decreases i + j,
{
    let k = ia.len();
    if k == 0 {
    } else if i == 0 || j == 0 {
        assert(ia[0] < i);
        assert(ib[0] < j);
        assert(ia[0] >= 0);
        assert(ib[0] >= 0);
    } else {
        let ia1 = ia.drop_last();
        let ib1 = ib.drop_last();
        assert(common_subsequence(a, b, ia1, ib1)) by {
            assert forall|t: int| 0 <= t < ia1.len() implies 0 <= #[trigger] ia1[t] < a.len() by {
                assert(ia1[t] == ia[t]);
            }
            assert forall|t: int| 0 <= t < ib1.len() implies 0 <= #[trigger] ib1[t] < b.len() by {
                assert(ib1[t] == ib[t]);
            }
            assert forall|t: int| #![trigger ia1[t]] #![trigger ib1[t]] 0 <= t < ia1.len() implies a[ia1[t]]
                == b[ib1[t]] by {
                assert(ia1[t] == ia[t]);
                assert(ib1[t] == ib[t]);
            }
            assert forall|s: int, t: int| 0 <= s < t < ia1.len() implies #[trigger] ia1[s] < #[trigger] ia1[t] by {
                assert(ia1[s] == ia[s] && ia1[t] == ia[t]);
            }
            assert forall|s: int, t: int| 0 <= s < t < ib1.len() implies #[trigger] ib1[s] < #[trigger] ib1[t] by {
                assert(ib1[s] == ib[s] && ib1[t] == ib[t]);
            }
        }
        let li = ia[k - 1];
        let lj = ib[k - 1];
        assert(li < i && lj < j);
        if a[i - 1] == b[j - 1] {
            assert forall|t: int| 0 <= t < ia1.len() implies #[trigger] ia1[t] < i - 1 by {
                assert(ia1[t] == ia[t]);
                assert(ia[t] < ia[k - 1]);
            }
            assert forall|t: int| 0 <= t < ib1.len() implies #[trigger] ib1[t] < j - 1 by {
                assert(ib1[t] == ib[t]);
                assert(ib[t] < ib[k - 1]);
            }
            lemma_lcs_at_least(a, b, (i - 1) as nat, (j - 1) as nat, ia1, ib1);
        } else if li < i - 1 {
            assert forall|t: int| 0 <= t < ia.len() implies #[trigger] ia[t] < i - 1 by {
                if t < k - 1 {
                    assert(ia[t] < ia[k - 1]);
                }
            }
            lemma_lcs_at_least(a, b, (i - 1) as nat, j, ia, ib);
        } else {
            assert(li == i - 1);
            assert(a[li] == b[lj]);
            assert(lj != j - 1);
            assert forall|t: int| 0 <= t < ib.len() implies #[trigger] ib[t] < j - 1 by {
                if t < k - 1 {
                    assert(ib[t] < ib[k - 1]);
                }
            }
            lemma_lcs_at_least(a, b, i, (j - 1) as nat, ia, ib);
        }
    }
}

/// A word diff keeps as many tokens as it can: the word diff joins the runs
/// of a token-by-token diff whose kept tokens are at least as many as those
/// of any common subsequence of the two texts' tokens.
pub proof fn law_word_diff_keeps_longest(old: Seq<char>, new: Seq<char>, ia: Seq<int>, ib: Seq<int>)
    requires
        common_subsequence(words(old), words(new), ia, ib),
    ensures
        word_diff(old, new) == merged(token_diff(old, new)),
        kept_tokens(token_diff(old, new)) >= ia.len(),
{
    let a = words(old);
    let b = words(new);
    lemma_backtrack_kept(a, b, a.len(), b.len());
    lemma_lcs_at_least(a, b, a.len(), b.len(), ia, ib);
}

} // verus!
