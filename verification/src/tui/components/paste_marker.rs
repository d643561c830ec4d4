//! Paste markers: `[paste #N ...]` placeholders that stand in a line for a
//! large paste and move, delete and snap as one unit.
use crate::tui::strs::{matches_at, occurs_at, seq_ends_with, seq_starts_with, str_chars, sub_chars};
use crate::tui::unicode::{grapheme_clusters, graphemes, views};
use vstd::prelude::*;

verus! {

broadcast use vstd::string::group_string_axioms;

/// `[paste #`
pub open spec fn marker_open() -> Seq<char> {
    seq!['[', 'p', 'a', 's', 't', 'e', ' ', '#']
}

/// The first index at or after `i` where `p` occurs in `s`, or -1.
pub open spec fn find_from(s: Seq<char>, p: Seq<char>, i: int) -> int
    decreases s.len() + 1 - i,
{
    if i < 0 || i + p.len() > s.len() {
        -1
    } else if occurs_at(s, p, i) {
        i
    } else {
        find_from(s, p, i + 1)
    }
}

/// The marker spans of `line` from index `pos` on: each runs from a
/// `[paste #` to the next `]`, inclusive; the scan stops at an unclosed one.
pub open spec fn spans_from(line: Seq<char>, pos: int) -> Seq<(int, int)>
    decreases line.len() + 1 - pos,
{
    let st = find_from(line, marker_open(), pos);
    if pos < 0 || pos > line.len() || st < 0 {
        seq![]
    } else {
        let e = find_from(line, seq![']'], st);
        if e < 0 {
            seq![]
        } else {
            proof {
                lemma_find_from_bounds(line, marker_open(), pos);
                lemma_find_from_bounds(line, seq![']'], st);
            }
            seq![(st, e + 1)] + spans_from(line, e + 1)
        }
    }
}

pub proof fn lemma_find_from_bounds(s: Seq<char>, p: Seq<char>, i: int)
    ensures
        find_from(s, p, i) == -1 || (i <= find_from(s, p, i) && find_from(s, p, i) + p.len() <= s.len()),
    decreases s.len() + 1 - i,
{
    if !(i < 0 || i + p.len() > s.len()) && !occurs_at(s, p, i) {
        lemma_find_from_bounds(s, p, i + 1);
    }
}

/// The marker spans of a line.
pub open spec fn marker_spans(line: Seq<char>) -> Seq<(int, int)> {
    spans_from(line, 0)
}

/// The first span that ends at `c`.
pub open spec fn span_ending_at(sp: Seq<(int, int)>, c: int) -> Option<(int, int)>
    decreases sp.len(),
{
    if sp.len() == 0 {
        None
    } else if sp[0].1 == c {
        Some(sp[0])
    } else {
        span_ending_at(sp.drop_first(), c)
    }
}

/// The first span strictly around `c`.
pub open spec fn span_around(sp: Seq<(int, int)>, c: int) -> Option<(int, int)>
    decreases sp.len(),
{
    if sp.len() == 0 {
        None
    } else if sp[0].0 < c && c < sp[0].1 {
        Some(sp[0])
    } else {
        span_around(sp.drop_first(), c)
    }
}

/// The first span that starts at `c`.
pub open spec fn span_starting_at(sp: Seq<(int, int)>, c: int) -> Option<(int, int)>
    decreases sp.len(),
{
    if sp.len() == 0 {
        None
    } else if sp[0].0 == c {
        Some(sp[0])
    } else {
        span_starting_at(sp.drop_first(), c)
    }
}

/// The unit before `c`: a marker ending there or around it, else the last
/// cluster of the text before `c`; as (start, end).
pub open spec fn unit_before(line: Seq<char>, c: int) -> Option<(int, int)> {
    let sp = marker_spans(line);
    match span_ending_at(sp, c) {
        Some(s) => Some(s),
        None => match span_around(sp, c) {
            Some(s) => Some(s),
            None => {
                let gs = grapheme_clusters(line.take(c));
                if gs.len() > 0 {
                    Some((c - gs.last().len(), c))
                } else {
                    None
                }
            },
        },
    }
}

/// The unit after `c`: a marker starting there, else the first cluster of
/// the text from `c`; as (start, end).
pub open spec fn unit_after(line: Seq<char>, c: int) -> Option<(int, int)> {
    match span_starting_at(marker_spans(line), c) {
        Some(s) => Some(s),
        None => {
            let gs = grapheme_clusters(line.skip(c));
            if gs.len() > 0 {
                Some((c, c + gs[0].len()))
            } else {
                None
            }
        },
    }
}

/// `c` moved out of a marker it is inside: to its start when moving left,
/// to its end otherwise.
pub open spec fn snapped(line: Seq<char>, c: int, moving_left: bool) -> int {
    match span_around(marker_spans(line), c) {
        Some(s) => if moving_left { s.0 } else { s.1 },
        None => c,
    }
}

/// A segment that is a paste marker.
pub open spec fn is_marker(s: Seq<char>) -> bool {
    seq_starts_with(s, marker_open()) && seq_ends_with(s, seq![']'])
}

pub fn find_from_exec(s: &[char], p: &[char], i: usize) -> (r: Option<usize>)
    ensures
        match r {
            Some(k) => find_from(s@, p@, i as int) == k && i <= k && k + p@.len() <= s@.len(),
            None => find_from(s@, p@, i as int) == -1,
        },
{
    if p.len() == 0 {
        if i <= s.len() {
            assert(occurs_at(s@, p@, i as int)) by {
                assert(s@.subrange(i as int, i as int) =~= p@);
            }
            return Some(i);
        }
        return None;
    }
    let mut k = i;
    while k <= s.len() && p.len() <= s.len() - k
        invariant
            i <= k,
            p.len() >= 1,
            find_from(s@, p@, i as int) == find_from(s@, p@, k as int),
        decreases s.len() - k,
    {
        if matches_at(s, p, k) {
            return Some(k);
        }
        k = k + 1;
    }
    None
}

/// The marker spans of a line, in order.
pub fn find_marker_spans(line: &[char]) -> (r: Vec<(usize, usize)>)
    ensures
        r@.map_values(|p: (usize, usize)| (p.0 as int, p.1 as int)) == marker_spans(line@),
        forall|i: int| 0 <= i < r@.len() ==> (#[trigger] r@[i]).0 < r@[i].1 <= line@.len(),
{
    let open = vec!['[', 'p', 'a', 's', 't', 'e', ' ', '#'];
    let close = vec![']'];
    assert(open@ =~= marker_open());
    assert(close@ =~= seq![']']);
    let mut r: Vec<(usize, usize)> = Vec::new();
    let mut pos: usize = 0;
    loop
        invariant
            pos <= line.len(),
            open@ == marker_open(),
            close@ == seq![']'],
            r@.map_values(|p: (usize, usize)| (p.0 as int, p.1 as int)) + spans_from(line@, pos as int) == marker_spans(line@),
            forall|i: int| 0 <= i < r@.len() ==> (#[trigger] r@[i]).0 < r@[i].1 <= line@.len(),
        decreases line.len() - pos,
    {
        let ghost before = r@.map_values(|p: (usize, usize)| (p.0 as int, p.1 as int));
        match find_from_exec(line, &open, pos) {
            None => {
                assert(spans_from(line@, pos as int) =~= Seq::<(int, int)>::empty());
                assert(before + Seq::<(int, int)>::empty() =~= before);
                return r;
            },
            Some(st) => {
                match find_from_exec(line, &close, st) {
                    None => {
                        assert(spans_from(line@, pos as int) =~= Seq::<(int, int)>::empty());
                        assert(before + Seq::<(int, int)>::empty() =~= before);
                        return r;
                    },
                    Some(e) => {
                        r.push((st, e + 1));
                        assert(r@.map_values(|p: (usize, usize)| (p.0 as int, p.1 as int)) =~= before.push(
                            (st as int, e + 1),
                        ));
                        assert(before.push((st as int, e + 1)) + spans_from(line@, e + 1) =~= before + (seq![
                            (st as int, e + 1),
                        ] + spans_from(line@, e + 1)));
                        pos = e + 1;
                    },
                }
            },
        }
    }
}

fn span_ending_at_exec(sp: &Vec<(usize, usize)>, c: usize) -> (r: Option<(usize, usize)>)
    ensures
        match r {
            Some(s) => span_ending_at(sp@.map_values(|p: (usize, usize)| (p.0 as int, p.1 as int)), c as int) == Some(
                (s.0 as int, s.1 as int),
            ) && sp@.contains(s),
            None => span_ending_at(sp@.map_values(|p: (usize, usize)| (p.0 as int, p.1 as int)), c as int) is None,
        },
{
    let ghost spv = sp@.map_values(|p: (usize, usize)| (p.0 as int, p.1 as int));
    let mut i: usize = 0;
    assert(spv.skip(0) =~= spv);
    while i < sp.len()
        invariant
            0 <= i <= sp.len(),
            spv == sp@.map_values(|p: (usize, usize)| (p.0 as int, p.1 as int)),
            span_ending_at(spv, c as int) == span_ending_at(spv.skip(i as int), c as int),
        decreases sp.len() - i,
    {
        assert(spv.skip(i as int).drop_first() =~= spv.skip(i + 1));
        assert(spv.skip(i as int)[0] == spv[i as int]);
        if sp[i].1 == c {
            assert(sp@.contains(sp@[i as int]));
            return Some(sp[i]);
        }
        i = i + 1;
    }
    None
}

fn span_around_exec(sp: &Vec<(usize, usize)>, c: usize) -> (r: Option<(usize, usize)>)
    ensures
        match r {
            Some(s) => span_around(sp@.map_values(|p: (usize, usize)| (p.0 as int, p.1 as int)), c as int) == Some(
                (s.0 as int, s.1 as int),
            ) && sp@.contains(s),
            None => span_around(sp@.map_values(|p: (usize, usize)| (p.0 as int, p.1 as int)), c as int) is None,
        },
{
    let ghost spv = sp@.map_values(|p: (usize, usize)| (p.0 as int, p.1 as int));
    let mut i: usize = 0;
    assert(spv.skip(0) =~= spv);
    while i < sp.len()
        invariant
            0 <= i <= sp.len(),
            spv == sp@.map_values(|p: (usize, usize)| (p.0 as int, p.1 as int)),
            span_around(spv, c as int) == span_around(spv.skip(i as int), c as int),
        decreases sp.len() - i,
    {
        assert(spv.skip(i as int).drop_first() =~= spv.skip(i + 1));
        assert(spv.skip(i as int)[0] == spv[i as int]);
        if sp[i].0 < c && c < sp[i].1 {
            assert(sp@.contains(sp@[i as int]));
            return Some(sp[i]);
        }
        i = i + 1;
    }
    None
}

fn span_starting_at_exec(sp: &Vec<(usize, usize)>, c: usize) -> (r: Option<(usize, usize)>)
    ensures
        match r {
            Some(s) => span_starting_at(sp@.map_values(|p: (usize, usize)| (p.0 as int, p.1 as int)), c as int) == Some(
                (s.0 as int, s.1 as int),
            ) && sp@.contains(s),
            None => span_starting_at(sp@.map_values(|p: (usize, usize)| (p.0 as int, p.1 as int)), c as int) is None,
        },
{
    let ghost spv = sp@.map_values(|p: (usize, usize)| (p.0 as int, p.1 as int));
    let mut i: usize = 0;
    assert(spv.skip(0) =~= spv);
    while i < sp.len()
        invariant
            0 <= i <= sp.len(),
            spv == sp@.map_values(|p: (usize, usize)| (p.0 as int, p.1 as int)),
            span_starting_at(spv, c as int) == span_starting_at(spv.skip(i as int), c as int),
        decreases sp.len() - i,
    {
        assert(spv.skip(i as int).drop_first() =~= spv.skip(i + 1));
        assert(spv.skip(i as int)[0] == spv[i as int]);
        if sp[i].0 == c {
            assert(sp@.contains(sp@[i as int]));
            return Some(sp[i]);
        }
        i = i + 1;
    }
    None
}

/// The unit before character `c` of `line`.
pub fn find_unit_before(line: &[char], c: usize) -> (r: Option<(usize, usize)>)
    requires
        c <= line.len(),
    ensures
        match r {
            Some((a, b)) => unit_before(line@, c as int) == Some((a as int, b as int)) && a < b <= line.len(),
            None => unit_before(line@, c as int) is None,
        },
{
    let sp = find_marker_spans(line);
    match span_ending_at_exec(&sp, c) {
        Some(s) => {
            return Some(s);
        },
        None => {},
    }
    match span_around_exec(&sp, c) {
        Some(s) => {
            return Some(s);
        },
        None => {},
    }
    let pre = sub_chars(line, 0, c);
    assert(pre@ =~= line@.take(c as int));
    let gs = graphemes(&pre);
    if gs.len() > 0 {
        let ghost gv = views(gs@);
        proof {
            assert(gv.last() == gs@[gs.len() - 1]@);
            gv.lemma_flatten_and_flatten_alt_are_equivalent();
            assert(gv.flatten_alt() == gv.drop_last().flatten_alt() + gv.last());
            assert(gs@[gs.len() - 1]@.len() > 0);
        }
        let n = gs[gs.len() - 1].len();
        assert(n == gv.last().len());
        Some((c - n, c))
    } else {
        None
    }
}

/// The unit after character `c` of `line`.
pub fn find_unit_after(line: &[char], c: usize) -> (r: Option<(usize, usize)>)
    requires
        c <= line.len(),
    ensures
        match r {
            Some((a, b)) => unit_after(line@, c as int) == Some((a as int, b as int)) && a < b <= line.len() && a == c,
            None => unit_after(line@, c as int) is None,
        },
{
    let sp = find_marker_spans(line);
    match span_starting_at_exec(&sp, c) {
        Some(s) => {
            proof {
                lemma_span_starting_at(sp@.map_values(|p: (usize, usize)| (p.0 as int, p.1 as int)), c as int);
            }
            return Some(s);
        },
        None => {},
    }
    let n = crate::tui::components::line_ops::next_cluster(line, c);
    if n > 0 {
        Some((c, c + n))
    } else {
        None
    }
}

/// `c` moved out of a marker it is inside.
pub fn snap_paste_marker(line: &[char], c: usize, moving_left: bool) -> (r: usize)
    requires
        c <= line.len(),
    ensures
        r == snapped(line@, c as int, moving_left),
        r <= line.len(),
{
    let sp = find_marker_spans(line);
    match span_around_exec(&sp, c) {
        Some(s) => {
            proof {
                let k = choose|k: int| 0 <= k < sp@.len() && sp@[k] == s;
                assert(sp@[k].0 < sp@[k].1 <= line@.len());
            }
            if moving_left { s.0 } else { s.1 }
        },
        None => c,
    }
}

/// Whether a segment is a paste marker.
pub fn is_paste_marker_chars(s: &[char]) -> (r: bool)
    ensures
        r == is_marker(s@),
{
    let open = vec!['[', 'p', 'a', 's', 't', 'e', ' ', '#'];
    assert(open@ =~= marker_open());
    let close = vec![']'];
    assert(close@ =~= seq![']']);
    crate::tui::strs::chars_start_with(s, &open) && crate::tui::strs::chars_end_with(s, &close)
}

proof fn lemma_span_starting_at(sp: Seq<(int, int)>, c: int)
    ensures
        span_starting_at(sp, c) matches Some(s) ==> s.0 == c,
    decreases sp.len(),
{
    if sp.len() > 0 && sp[0].0 != c {
        lemma_span_starting_at(sp.drop_first(), c);
    }
}

} // verus!
