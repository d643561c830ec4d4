//! Editing a line of characters by grapheme clusters: which cluster lies
//! before or after a cursor (a character index), and splicing.
use crate::tui::strs::{byte_len, chars_byte_len, lemma_byte_len_concat, lemma_byte_len_take, sub_chars};
use crate::tui::unicode::{grapheme_clusters, graphemes, views};
use crate::tui::util::append_chars;
use crate::tui::word_nav::{chars_within, count_chars_within};
use vstd::prelude::*;

verus! {

/// The leading clusters that end at or before character `c`: how many,
/// and how many characters they span.
pub open spec fn clusters_within(gs: Seq<Seq<char>>, c: int) -> (int, int)
    decreases gs.len(),
{
    if gs.len() == 0 || gs[0].len() > c {
        (0, 0)
    } else {
        let r = clusters_within(gs.drop_first(), c - gs[0].len());
        (r.0 + 1, r.1 + gs[0].len())
    }
}

/// The cluster that ends last at or before `c`, as (start, end), if any.
pub open spec fn cluster_before(line: Seq<char>, c: int) -> Option<(int, int)> {
    let gs = grapheme_clusters(line);
    let r = clusters_within(gs, c);
    if r.0 >= 1 {
        Some((r.1 - gs[r.0 - 1].len(), r.1))
    } else {
        None
    }
}

/// The first cluster that starts at or after `c`, as (start, end), if any.
pub open spec fn cluster_after(line: Seq<char>, c: int) -> Option<(int, int)> {
    let gs = grapheme_clusters(line);
    let r = clusters_within(gs, c);
    let k = if r.1 == c { r.0 } else { r.0 + 1 };
    let start = if r.1 == c { r.1 } else if r.0 < gs.len() { r.1 + gs[r.0].len() } else { r.1 };
    if 0 <= k < gs.len() {
        Some((start, start + gs[k].len()))
    } else {
        None
    }
}

/// The length of the first cluster of the text from `c` on (0 where none).
pub open spec fn next_cluster_len(line: Seq<char>, c: int) -> int {
    let gs = grapheme_clusters(line.skip(c));
    if gs.len() > 0 {
        gs[0].len() as int
    } else {
        0
    }
}

/// `line` with the characters from `a` up to `b` replaced by `t`.
pub open spec fn splice(line: Seq<char>, a: int, b: int, t: Seq<char>) -> Seq<char> {
    line.take(a) + t + line.skip(b)
}

proof fn lemma_clusters_within_bounds(gs: Seq<Seq<char>>, c: int)
    requires
        forall|i: int| 0 <= i < gs.len() ==> (#[trigger] gs[i]).len() > 0,
    ensures
        0 <= clusters_within(gs, c).0 <= gs.len(),
        clusters_within(gs, c).1 <= c || clusters_within(gs, c).0 == 0,
        clusters_within(gs, c).0 == 0 ==> clusters_within(gs, c).1 == 0,
        clusters_within(gs, c).1 == gs.take(clusters_within(gs, c).0).flatten().len(),
        clusters_within(gs, c).0 < gs.len() ==> clusters_within(gs, c).1 + gs[clusters_within(gs, c).0].len() > c,
    decreases gs.len(),
{
    if gs.len() > 0 && gs[0].len() <= c {
        assert forall|i: int| 0 <= i < gs.drop_first().len() implies (#[trigger] gs.drop_first()[i]).len() > 0 by {
            assert(gs.drop_first()[i] == gs[i + 1]);
        }
        lemma_clusters_within_bounds(gs.drop_first(), c - gs[0].len());
        let r = clusters_within(gs.drop_first(), c - gs[0].len());
        assert(gs.take(r.0 + 1).drop_first() =~= gs.drop_first().take(r.0));
        assert(gs.take(r.0 + 1)[0] == gs[0]);
    } else {
        assert(gs.take(0) =~= Seq::<Seq<char>>::empty());
    }
}

proof fn lemma_flatten_take_len(gs: Seq<Seq<char>>, k: int)
    requires
        0 <= k < gs.len(),
    ensures
        gs.take(k + 1).flatten().len() == gs.take(k).flatten().len() + gs[k].len(),
    decreases k,
{
    if k == 0 {
        assert(gs.take(1).drop_first() =~= Seq::<Seq<char>>::empty());
        assert(gs.take(0) =~= Seq::<Seq<char>>::empty());
    } else {
        lemma_flatten_take_len(gs.drop_first(), k - 1);
        assert(gs.take(k + 1).drop_first() =~= gs.drop_first().take(k));
        assert(gs.take(k).drop_first() =~= gs.drop_first().take(k - 1));
    }
}

/// The flattened clusters are the line.
pub proof fn lemma_flatten_len_le(gs: Seq<Seq<char>>, k: int)
    requires
        0 <= k <= gs.len(),
    ensures
        gs.take(k).flatten().len() <= gs.flatten().len(),
    decreases gs.len() - k,
{
    if k < gs.len() {
        lemma_flatten_take_len(gs, k);
        lemma_flatten_len_le(gs, k + 1);
    } else {
        assert(gs.take(k) =~= gs);
    }
}

/// Walks the clusters of `line` up to character `c`: returns the number of
/// clusters that end at or before `c`, the characters they span, and the
/// clusters.
pub fn clusters_up_to(line: &[char], c: usize) -> (r: (usize, usize, Vec<Vec<char>>))
    ensures
        views(r.2@) == grapheme_clusters(line@),
        views(r.2@).flatten() == line@,
        r.1 == views(r.2@).take(r.0 as int).flatten().len(),
        (r.0 as int, r.1 as int) == clusters_within(grapheme_clusters(line@), c as int),
        r.0 <= r.2@.len(),
        r.1 <= line@.len(),
        r.0 == 0 ==> r.1 == 0,
        r.1 <= c || r.0 == 0,
        r.0 < r.2@.len() ==> r.1 + r.2@[r.0 as int]@.len() > c,
        r.0 < r.2@.len() ==> r.1 + r.2@[r.0 as int]@.len() <= line@.len(),
        r.0 >= 1 ==> r.2@[r.0 - 1]@.len() <= r.1,
        forall|i: int| 0 <= i < r.2@.len() ==> (#[trigger] r.2@[i])@.len() > 0,
{
    let gs = graphemes(line);
    let ghost gv = views(gs@);
    assert forall|i: int| 0 <= i < gv.len() implies (#[trigger] gv[i]).len() > 0 by {
        assert(gv[i] == gs@[i]@);
    }
    proof {
        lemma_clusters_within_bounds(gv, c as int);
    }
    let mut n: usize = 0;
    let mut used: usize = 0;
    assert(gv.skip(0) =~= gv);
    while n < gs.len() && gs[n].len() <= c - used
        invariant
            0 <= n <= gs.len(),
            used <= c,
            gv == views(gs@),
            forall|i: int| 0 <= i < gv.len() ==> (#[trigger] gv[i]).len() > 0,
            used == gv.take(n as int).flatten().len(),
            gv.flatten() == line@,
            clusters_within(gv, c as int) == ({
                let r = clusters_within(gv.skip(n as int), c - used);
                (r.0 + n, r.1 + used)
            }),
        decreases gs.len() - n,
    {
        assert(gv[n as int] == gs@[n as int]@);
        assert(gv.skip(n as int).drop_first() =~= gv.skip(n + 1));
        assert(gv.skip(n as int)[0] == gv[n as int]);
        proof {
            lemma_flatten_take_len(gv, n as int);
            lemma_flatten_len_le(gv, n + 1);
        }
        used = used + gs[n].len();
        n = n + 1;
    }
    proof {
        if n < gs.len() {
            assert(gv[n as int] == gs@[n as int]@);
            assert(gv.skip(n as int)[0] == gv[n as int]);
            lemma_flatten_take_len(gv, n as int);
            lemma_flatten_len_le(gv, n + 1);
        } else {
            assert(gv.skip(n as int).len() == 0);
        }
        if n >= 1 {
            lemma_flatten_take_len(gv, n - 1);
            assert(gv[n - 1] == gs@[n - 1]@);
        }
        lemma_flatten_len_le(gv, n as int);
    }
    (n, used, gs)
}

/// The characters of `line` with `a..b` replaced by `t`.
pub fn splice_chars(line: &[char], a: usize, b: usize, t: &[char]) -> (r: Vec<char>)
    requires
        a <= b <= line.len(),
    ensures
        r@ == splice(line@, a as int, b as int, t@),
{
    let mut r = sub_chars(line, 0, a);
    append_chars(&mut r, t);
    let rest = sub_chars(line, b, line.len());
    append_chars(&mut r, &rest);
    assert(r@ =~= splice(line@, a as int, b as int, t@));
    r
}

/// The cluster before character `c`, as (start, end).
pub fn find_cluster_before(line: &[char], c: usize) -> (r: Option<(usize, usize)>)
    ensures
        match r {
            Some((a, b)) => cluster_before(line@, c as int) == Some((a as int, b as int)) && a < b <= line.len() && b <= c,
            None => cluster_before(line@, c as int) is None,
        },
{
    let (n, used, gs) = clusters_up_to(line, c);
    if n >= 1 {
        assert(gs@[n - 1]@ == views(gs@)[n - 1]);
        Some((used - gs[n - 1].len(), used))
    } else {
        None
    }
}

/// The cluster after character `c`, as (start, end).
pub fn find_cluster_after(line: &[char], c: usize) -> (r: Option<(usize, usize)>)
    ensures
        match r {
            Some((a, b)) => cluster_after(line@, c as int) == Some((a as int, b as int)) && a < b <= line.len() && c <= a,
            None => cluster_after(line@, c as int) is None,
        },
{
    let (n, used, gs) = clusters_up_to(line, c);
    let ghost gv = views(gs@);
    let ll = line.len();
    assert(ll == line@.len());
    if used == c {
        if n < gs.len() {
            assert(gs@[n as int]@ == gv[n as int]);
            assert(used + gs@[n as int]@.len() <= line@.len());
            let gl = gs[n].len();
            assert(gl == gs@[n as int]@.len());
            Some((used, used + gl))
        } else {
            None
        }
    } else {
        if n < gs.len() {
            assert(gs@[n as int]@ == gv[n as int]);
            assert(used + gs@[n as int]@.len() <= line@.len());
            let gl = gs[n].len();
            assert(gl == gs@[n as int]@.len());
            let start = used + gl;
            if n + 1 < gs.len() {
                assert(gs@[n + 1]@ == gv[n + 1]);
                proof {
                    lemma_flatten_take_len(gv, n as int);
                    lemma_flatten_take_len(gv, n + 1);
                    lemma_flatten_len_le(gv, n + 2);
                }
                assert(start + gs@[n + 1]@.len() <= line@.len());
                let gl2 = gs[n + 1].len();
                assert(gl2 == gs@[n + 1]@.len());
                Some((start, start + gl2))
            } else {
                None
            }
        } else {
            None
        }
    }
}

/// The length of the first cluster from character `c` on.
pub fn next_cluster(line: &[char], c: usize) -> (n: usize)
    requires
        c <= line.len(),
    ensures
        n == next_cluster_len(line@, c as int),
        c + n <= line.len(),
        c < line.len() ==> n > 0,
        n == 0 ==> grapheme_clusters(line@.skip(c as int)).len() == 0,
{
    let ll = line.len();
    assert(ll == line@.len());
    let rest = sub_chars(line, c, ll);
    assert(rest@ =~= line@.skip(c as int));
    let gs = graphemes(&rest);
    if gs.len() > 0 {
        proof {
            assert(views(gs@)[0] == gs@[0]@);
            assert(views(gs@).flatten() == views(gs@)[0] + views(gs@).drop_first().flatten());
            assert(gs@[0]@.len() > 0);
        }
        let g0 = gs[0].len();
        assert(g0 == gs@[0]@.len());
        g0
    } else {
        proof {
            assert(views(gs@) =~= Seq::<Seq<char>>::empty());
            assert(views(gs@).flatten() =~= Seq::<char>::empty());
        }
        0
    }
}

/// Character index of byte offset `b` of `line`, rounded down to a character.
pub fn char_index_of_byte(line: &[char], b: usize) -> (k: usize)
    ensures
        k as int == chars_within(line@, b as int),
        k <= line.len(),
{
    count_chars_within(line, b)
}

/// Byte offset of character index `k` of `line`.
pub fn byte_offset_of(line: &[char], k: usize) -> (b: usize)
    requires
        k <= line.len(),
        byte_len(line@) <= usize::MAX,
    ensures
        b == byte_len(line@.take(k as int)),
{
    let p = sub_chars(line, 0, k);
    proof {
        crate::tui::strs::lemma_byte_len_prefix_le(line@, k as int);
    }
    assert(p@ =~= line@.take(k as int));
    chars_byte_len(&p)
}

/// A copy of the characters.
pub fn clone_chars(v: &[char]) -> (r: Vec<char>)
    ensures
        r@ == v@,
{
    let r = sub_chars(v, 0, v.len());
    assert(r@ =~= v@);
    r
}

} // verus!
