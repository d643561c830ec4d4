//! Word wrapping that keeps ANSI styling: lines are split into word, space
//! and CJK tokens, tokens are packed into visual lines of a given width,
//! over-long words are broken cluster by cluster, and the active SGR state is
//! re-established at the start of each continuation line.
use crate::tui::sgr::{
    first_index_of, sgr_active_codes, sgr_apply, sgr_line_end_reset, sgr_reset, sgr_update_from,
    split_on, AnsiState, SgrState,
};
use crate::tui::strs::{
    chars_start_with, seq_starts_with, str_chars, string_from_chars, sub_chars,
};
use crate::tui::unicode::{grapheme_clusters, graphemes, views};
use crate::tui::util::{
    ansi_len_at, append_chars, cjk_break, esc, extract_ansi_code_at, grapheme_width,
    grapheme_width_checked, is_cjk_break_chars, lemma_ansi_len_bounds, lemma_first_cluster_prefix,
    lemma_next_esc_bounds, next_esc, next_esc_exec, visible_width_checked, visible_width_of,
};
use vstd::prelude::*;

verus! {

broadcast use vstd::seq_lib::group_seq_properties;

// ---------------------------------------------------------------------------
// Tokens
// ---------------------------------------------------------------------------

/// Tokenizer state: tokens so far, the token being built, escape codes not
/// yet attached, and whether the token being built is spaces.
pub struct TokState {
    pub tokens: Seq<Seq<char>>,
    pub current: Seq<char>,
    pub pending: Seq<char>,
    pub cur_space: Option<bool>,
}

/// The start of a paste marker, which is kept as one token.
pub open spec fn paste_marker_start() -> Seq<char> {
    seq!['[', 'p', 'a', 's', 't', 'e', ' ', '#']
}

/// Ends the token being built, if any.
pub open spec fn tok_flush(st: TokState) -> TokState {
    if st.current.len() > 0 {
        TokState { tokens: st.tokens.push(st.current), current: seq![], cur_space: None, ..st }
    } else {
        st
    }
}

/// One cluster: CJK clusters are tokens of their own; otherwise a change
/// between spaces and non-spaces ends the token being built.
pub open spec fn tok_cluster(st: TokState, g: Seq<char>) -> TokState {
    let is_space = g == seq![' '];
    if !is_space && cjk_break(g) {
        let s1 = tok_flush(st);
        TokState { tokens: s1.tokens.push(s1.pending + g), pending: seq![], ..s1 }
    } else {
        let s1 = if st.cur_space matches Some(b) && b != is_space && st.current.len() > 0 {
            TokState { tokens: st.tokens.push(st.current), current: seq![], ..st }
        } else {
            st
        };
        TokState {
            current: s1.current + s1.pending + g,
            pending: seq![],
            cur_space: Some(is_space),
            ..s1
        }
    }
}

/// The tokenizer over a run of text without escape characters, from `pos`.
pub open spec fn tok_run(seg: Seq<char>, pos: int, st: TokState) -> TokState
    decreases seg.len() - pos,
{
    if pos < 0 || pos >= seg.len() {
        st
    } else {
        let rest = seg.skip(pos);
        let marker = seq_starts_with(rest, paste_marker_start());
        let k = first_index_of(rest, ']');
        if marker && 0 <= k < rest.len() {
            let s1 = tok_flush(st);
            tok_run(
                seg,
                pos + k + 1,
                TokState { tokens: s1.tokens.push(s1.pending + rest.take(k + 1)), pending: seq![], ..s1 },
            )
        } else {
            let s1 = if marker {
                tok_flush(st)
            } else {
                st
            };
            let g = grapheme_clusters(rest)[0];
            if g.len() == 0 || pos + g.len() > seg.len() {
                s1
            } else {
                tok_run(seg, pos + g.len(), tok_cluster(s1, g))
            }
        }
    }
}

/// The tokenizer over `s` from `i`: escape sequences wait to be attached to
/// the next visible content. `None` where an escape character starts no
/// sequence (no progress would be made).
pub open spec fn tok_walk(s: Seq<char>, i: int, st: TokState) -> Option<TokState>
    decreases s.len() - i,
{
    if i < 0 || i >= s.len() {
        Some(st)
    } else if s[i] == esc() {
        match ansi_len_at(s, i) {
            Some(n) => {
                proof {
                    lemma_ansi_len_bounds(s, i);
                }
                tok_walk(s, i + n, TokState { pending: st.pending + s.subrange(i, i + n), ..st })
            },
            None => None,
        }
    } else {
        let e = next_esc(s, i);
        proof {
            lemma_next_esc_bounds(s, i);
        }
        tok_walk(s, e, tok_run(s.subrange(i, e), 0, st))
    }
}

/// Attaches escape codes left at the end, then ends the last token.
pub open spec fn tok_finish(st: TokState) -> Seq<Seq<char>> {
    let s1 = if st.pending.len() > 0 {
        if st.current.len() > 0 {
            TokState { current: st.current + st.pending, ..st }
        } else if st.tokens.len() > 0 {
            TokState {
                tokens: st.tokens.update(st.tokens.len() - 1, st.tokens.last() + st.pending),
                ..st
            }
        } else {
            TokState { current: st.pending, ..st }
        }
    } else {
        st
    };
    if s1.current.len() > 0 {
        s1.tokens.push(s1.current)
    } else {
        s1.tokens
    }
}

/// The tokens of a line for wrapping.
pub open spec fn wrap_tokens(s: Seq<char>) -> Option<Seq<Seq<char>>> {
    match tok_walk(s, 0, TokState { tokens: seq![], current: seq![], pending: seq![], cur_space: None }) {
        Some(st) => Some(tok_finish(st)),
        None => None,
    }
}

/// The tokenizer state of exec values.
pub open spec fn tok_view(tokens: Seq<Vec<char>>, current: Seq<char>, pending: Seq<char>, cur_space: Option<bool>) -> TokState {
    TokState { tokens: views(tokens), current, pending, cur_space }
}

/// Ends the token being built, if any.
fn flush_token(tokens: &mut Vec<Vec<char>>, current: &mut Vec<char>, pending: &Vec<char>, cur_space: &mut Option<bool>)
    ensures
        tok_view(final(tokens)@, final(current)@, pending@, *final(cur_space)) == tok_flush(
            tok_view(old(tokens)@, old(current)@, pending@, *old(cur_space)),
        ),
{
    if current.len() > 0 {
        let c = sub_chars(current, 0, current.len());
        assert(c@ =~= current@);
        *current = Vec::new();
        tokens.push(c);
        *cur_space = None;
        assert(views(tokens@) =~= views(old(tokens)@).push(old(current)@));
        assert(current@ =~= Seq::<char>::empty());
    }
}

/// Adds one cluster to the tokens.
fn push_cluster(
    tokens: &mut Vec<Vec<char>>,
    current: &mut Vec<char>,
    pending: &mut Vec<char>,
    cur_space: &mut Option<bool>,
    g: &Vec<char>,
)
    ensures
        tok_view(final(tokens)@, final(current)@, final(pending)@, *final(cur_space)) == tok_cluster(
            tok_view(old(tokens)@, old(current)@, old(pending)@, *old(cur_space)),
            g@,
        ),
{
    let is_space = g.len() == 1 && g[0] == ' ';
    assert(is_space == (g@ == seq![' '])) by {
        if g@ == seq![' '] {
            assert(g@.len() == 1);
        }
        if is_space {
            assert(g@ =~= seq![' ']);
        }
    }
    if !is_space && is_cjk_break_chars(g) {
        flush_token(tokens, current, pending, cur_space);
        let mut tok = sub_chars(pending, 0, pending.len());
        append_chars(&mut tok, g);
        let ghost before = views(tokens@);
        tokens.push(tok);
        assert(views(tokens@) =~= before.push(tok@));
        *pending = Vec::new();
        assert(pending@ =~= Seq::<char>::empty());
    } else {
        let split = match *cur_space {
            Some(b) => b != is_space,
            None => false,
        };
        if split && current.len() > 0 {
            let c = sub_chars(current, 0, current.len());
            assert(c@ =~= current@);
            let ghost before = views(tokens@);
            tokens.push(c);
            assert(views(tokens@) =~= before.push(c@));
            *current = Vec::new();
        }
        let p = sub_chars(pending, 0, pending.len());
        append_chars(current, &p);
        *pending = Vec::new();
        assert(pending@ =~= Seq::<char>::empty());
        *cur_space = Some(is_space);
        append_chars(current, g);
    }
}

/// One step of the tokenizer over a run: a paste marker, or one cluster.
fn tok_run_step(
    seg: &Vec<char>,
    pos: usize,
    marker_start: &Vec<char>,
    tokens: &mut Vec<Vec<char>>,
    current: &mut Vec<char>,
    pending: &mut Vec<char>,
    cur_space: &mut Option<bool>,
) -> (next: usize)
    requires
        pos < seg.len(),
        marker_start@ == paste_marker_start(),
    ensures
        pos < next <= seg.len(),
        tok_run(seg@, pos as int, tok_view(old(tokens)@, old(current)@, old(pending)@, *old(cur_space)))
            == tok_run(seg@, next as int, tok_view(final(tokens)@, final(current)@, final(pending)@, *final(cur_space))),
{
    let rest = sub_chars(seg, pos, seg.len());
    assert(rest@ =~= seg@.skip(pos as int));
    let marker = chars_start_with(&rest, marker_start);
    let k = crate::tui::sgr::find_char_pub(&rest, ']');
    if marker && k < rest.len() {
        flush_token(tokens, current, pending, cur_space);
        let mut tok = sub_chars(pending, 0, pending.len());
        let piece = sub_chars(&rest, 0, k + 1);
        assert(piece@ =~= rest@.take(k + 1));
        append_chars(&mut tok, &piece);
        let ghost before = views(tokens@);
        tokens.push(tok);
        assert(views(tokens@) =~= before.push(tok@));
        *pending = Vec::new();
        assert(pending@ =~= Seq::<char>::empty());
        return pos + k + 1;
    }
    if marker {
        flush_token(tokens, current, pending, cur_space);
    }
    let gs = graphemes(&rest);
    proof {
        if gs@.len() == 0 {
            assert(views(gs@) =~= Seq::<Seq<char>>::empty());
        }
        assert(views(gs@)[0] == gs@[0]@);
        lemma_first_cluster_prefix(views(gs@));
    }
    let g = sub_chars(&gs[0], 0, gs[0].len());
    assert(g@ =~= gs@[0]@);
    push_cluster(tokens, current, pending, cur_space, &g);
    pos + g.len()
}

/// Split a line into tokens for word wrapping, keeping escape codes attached
/// to the visible content that follows them.
fn split_into_tokens(text: &[char]) -> (r: Vec<Vec<char>>)
    requires
        wrap_tokens(text@) is Some,
    ensures
        views(r@) == wrap_tokens(text@).unwrap(),
{
    let mut tokens: Vec<Vec<char>> = Vec::new();
    let mut current: Vec<char> = Vec::new();
    let mut pending: Vec<char> = Vec::new();
    let mut cur_space: Option<bool> = None;
    let marker_start: Vec<char> = vec!['[', 'p', 'a', 's', 't', 'e', ' ', '#'];
    assert(marker_start@ =~= paste_marker_start());
    assert(views(tokens@) =~= Seq::<Seq<char>>::empty());
    let ghost target = tok_walk(text@, 0, tok_view(tokens@, current@, pending@, cur_space));
    let mut i: usize = 0;
    while i < text.len()
        invariant
            0 <= i <= text.len(),
            marker_start@ == paste_marker_start(),
            target is Some,
            target == tok_walk(text@, 0, TokState { tokens: seq![], current: seq![], pending: seq![], cur_space: None }),
            target == tok_walk(text@, i as int, tok_view(tokens@, current@, pending@, cur_space)),
        decreases text.len() - i,
    {
        if text[i] == '\x1b' {
            match extract_ansi_code_at(text, i) {
                Some(n) => {
                    proof {
                        lemma_ansi_len_bounds(text@, i as int);
                    }
                    let code = sub_chars(text, i, i + n);
                    append_chars(&mut pending, &code);
                    i = i + n;
                    continue;
                },
                None => {
                    assert(false);
                    i = i + 1;
                    continue;
                },
            }
        }
        let e = next_esc_exec(text, i);
        proof {
            lemma_next_esc_bounds(text@, i as int);
        }
        let seg = sub_chars(text, i, e);
        let mut pos: usize = 0;
        while pos < seg.len()
            invariant
                0 <= pos <= seg.len(),
                seg@ == text@.subrange(i as int, e as int),
                i < e <= text.len(),
                marker_start@ == paste_marker_start(),
                target is Some,
                target == tok_walk(text@, e as int, tok_run(seg@, pos as int, tok_view(tokens@, current@, pending@, cur_space))),
            decreases seg.len() - pos,
        {
            pos = tok_run_step(&seg, pos, &marker_start, &mut tokens, &mut current, &mut pending, &mut cur_space);
        }
        i = e;
    }
    let ghost fin = tok_view(tokens@, current@, pending@, cur_space);
    assert(target == Some(fin));
    if pending.len() > 0 {
        if current.len() > 0 {
            append_chars(&mut current, &pending);
        } else if tokens.len() > 0 {
            let mut last = tokens.pop().unwrap();
            append_chars(&mut last, &pending);
            tokens.push(last);
        } else {
            current = pending;
        }
    }
    if current.len() > 0 {
        tokens.push(current);
    }
    proof {
        assert(views(tokens@) =~= tok_finish(fin));
    }
    tokens
}


// ---------------------------------------------------------------------------
// Breaking words that are wider than a line
// ---------------------------------------------------------------------------

/// State while breaking a long word: finished lines, the line being built,
/// its width, and the SGR state.
pub struct BreakState {
    pub lines: Seq<Seq<char>>,
    pub current: Seq<char>,
    pub cw: int,
    pub tracker: SgrState,
}

/// One cluster of a long word: when it does not fit on a non-empty line, the
/// line is closed (underline reset) and a new one opens with the active codes.
/// `None` where the cluster's width exceeds `usize`.
pub open spec fn brk_cluster(st: BreakState, g: Seq<char>, width: int) -> Option<BreakState> {
    let gw = grapheme_width(g);
    if gw > usize::MAX {
        None
    } else {
        let s1 = if st.cw + gw > width && st.cw > 0 {
            BreakState {
                lines: st.lines.push(st.current + sgr_line_end_reset(st.tracker)),
                current: sgr_active_codes(st.tracker),
                cw: 0,
                ..st
            }
        } else {
            st
        };
        Some(BreakState { current: s1.current + g, cw: s1.cw + gw, ..s1 })
    }
}

/// The clusters `gs[k..]` of a long word, one after another.
pub open spec fn brk_clusters(gs: Seq<Seq<char>>, k: int, st: BreakState, width: int) -> Option<BreakState>
    decreases gs.len() - k,
{
    if k < 0 || k >= gs.len() {
        Some(st)
    } else {
        match brk_cluster(st, gs[k], width) {
            Some(s1) => brk_clusters(gs, k + 1, s1, width),
            None => None,
        }
    }
}

/// A long word from `i`: leading escape sequences are copied and tracked,
/// then all the remaining clusters are laid out.
pub open spec fn brk_walk(w: Seq<char>, i: int, st: BreakState, width: int) -> Option<BreakState>
    decreases w.len() - i,
{
    if i < 0 || i >= w.len() {
        Some(st)
    } else if w[i] == esc() && ansi_len_at(w, i) is Some {
        proof {
            lemma_ansi_len_bounds(w, i);
        }
        let code = w.subrange(i, i + ansi_len_at(w, i).unwrap());
        brk_walk(
            w,
            i + code.len(),
            BreakState { current: st.current + code, tracker: sgr_update_from(st.tracker, code, 0), ..st },
            width,
        )
    } else {
        brk_clusters(grapheme_clusters(w.skip(i)), 0, st, width)
    }
}

/// The visual lines of a word wider than `width`, and the SGR state after it.
pub open spec fn broken_word(word: Seq<char>, width: int, tracker: SgrState) -> Option<(Seq<Seq<char>>, SgrState)> {
    match brk_walk(
        word,
        0,
        BreakState { lines: seq![], current: sgr_active_codes(tracker), cw: 0, tracker },
        width,
    ) {
        Some(st) => {
            let lines = if st.current.len() > 0 {
                st.lines.push(st.current)
            } else {
                st.lines
            };
            Some((if lines.len() == 0 { seq![seq![]] } else { lines }, st.tracker))
        },
        None => None,
    }
}

/// Break a word wider than `width` into visual lines.
fn break_long_word(word: &[char], width: usize, tracker: &mut AnsiState) -> (r: Vec<Vec<char>>)
    requires
        broken_word(word@, width as int, old(tracker)@) is Some,
    ensures
        views(r@) == broken_word(word@, width as int, old(tracker)@).unwrap().0,
        final(tracker)@ == broken_word(word@, width as int, old(tracker)@).unwrap().1,
{
    let mut lines: Vec<Vec<char>> = Vec::new();
    let mut current = tracker.active_codes();
    let mut cw: usize = 0;
    let ghost init = BreakState { lines: seq![], current: current@, cw: 0, tracker: tracker@ };
    assert(views(lines@) =~= Seq::<Seq<char>>::empty());
    let ghost target = brk_walk(word@, 0, init, width as int);
    let mut i: usize = 0;
    while i < word.len()
        invariant_except_break
            target == brk_walk(word@, i as int, BreakState { lines: views(lines@), current: current@, cw: cw as int, tracker: tracker@ }, width as int),
        invariant
            0 <= i <= word.len(),
            target is Some,
            target == brk_walk(word@, 0, init, width as int),
        ensures
            target == Some(BreakState { lines: views(lines@), current: current@, cw: cw as int, tracker: tracker@ }),
        decreases word.len() - i,
    {
        if word[i] == '\x1b' {
            match extract_ansi_code_at(word, i) {
                Some(n) => {
                    proof {
                        lemma_ansi_len_bounds(word@, i as int);
                    }
                    let code = sub_chars(word, i, i + n);
                    append_chars(&mut current, &code);
                    tracker.update(&code);
                    i = i + n;
                    continue;
                },
                None => {},
            }
        }
        let rest = sub_chars(word, i, word.len());
        assert(rest@ =~= word@.skip(i as int));
        let gs = graphemes(&rest);
        let ghost all = views(gs@);
        let mut k: usize = 0;
        while k < gs.len()
            invariant
                0 <= k <= gs.len(),
                all == views(gs@),
                target is Some,
                target == brk_clusters(all, k as int, BreakState { lines: views(lines@), current: current@, cw: cw as int, tracker: tracker@ }, width as int),
            decreases gs.len() - k,
        {
            assert(all[k as int] == gs@[k as int]@);
            let gw = match grapheme_width_checked(&gs[k]) {
                Some(w) => w,
                None => {
                    assert(false);
                    0
                },
            };
            if cw > 0 && (cw > width || gw > width - cw) {
                let end = tracker.line_end_reset();
                append_chars(&mut current, &end);
                let ghost before = views(lines@);
                let done = current;
                lines.push(done);
                assert(views(lines@) =~= before.push(done@));
                current = tracker.active_codes();
                cw = 0;
            }
            append_chars(&mut current, &gs[k]);
            cw = cw + gw;
            k = k + 1;
        }
        break;
    }
    let ghost fin = BreakState { lines: views(lines@), current: current@, cw: cw as int, tracker: tracker@ };
    if current.len() > 0 {
        let ghost before = views(lines@);
        let done = current;
        lines.push(done);
        assert(views(lines@) =~= before.push(done@));
    }
    if lines.len() == 0 {
        lines.push(Vec::new());
        assert(views(lines@) =~= seq![seq![]]);
    }
    lines
}


// ---------------------------------------------------------------------------
// Packing tokens into lines
// ---------------------------------------------------------------------------

/// Wrapping state: finished lines, the line being built, its width, and the
/// SGR state.
pub struct WrapState {
    pub lines: Seq<Seq<char>>,
    pub current: Seq<char>,
    pub cw: int,
    pub tracker: SgrState,
}

/// One token: a token wider than the line, a run of spaces as much as a
/// word, is broken on its own lines, so that no line is wider than `width`
/// where `width` is at least one column; a token that does not fit on a non-empty line starts a new line
/// (with the active codes); otherwise it is appended. `None` where a width
/// exceeds `usize`.
pub open spec fn wrap_token(st: WrapState, token: Seq<char>, width: int) -> Option<WrapState> {
    let tw = visible_width_of(token);
    if tw > usize::MAX {
        None
    } else if tw > width {
        let s1 = if st.current.len() > 0 {
            WrapState {
                lines: st.lines.push(st.current + sgr_line_end_reset(st.tracker)),
                current: seq![],
                cw: 0,
                ..st
            }
        } else {
            st
        };
        match broken_word(token, width, s1.tracker) {
            Some((broken, tr)) => {
                let last = broken.last();
                if visible_width_of(last) > usize::MAX {
                    None
                } else {
                    Some(WrapState {
                        lines: s1.lines + broken.drop_last(),
                        current: last,
                        cw: visible_width_of(last) as int,
                        tracker: tr,
                    })
                }
            },
            None => None,
        }
    } else {
        let s1 = if st.cw + tw > width && st.cw > 0 {
            WrapState {
                lines: st.lines.push(st.current + sgr_line_end_reset(st.tracker)),
                current: sgr_active_codes(st.tracker) + token,
                cw: tw as int,
                ..st
            }
        } else {
            WrapState { current: st.current + token, cw: st.cw + tw, ..st }
        };
        Some(WrapState { tracker: sgr_update_from(s1.tracker, token, 0), ..s1 })
    }
}

/// The tokens `ts[k..]`, one after another.
pub open spec fn wrap_fold(ts: Seq<Seq<char>>, k: int, st: WrapState, width: int) -> Option<WrapState>
    decreases ts.len() - k,
{
    if k < 0 || k >= ts.len() {
        Some(st)
    } else {
        match wrap_token(st, ts[k], width) {
            Some(s1) => wrap_fold(ts, k + 1, s1, width),
            None => None,
        }
    }
}

/// The visual lines of one logical line.
pub open spec fn wrapped_line(line: Seq<char>, width: int) -> Option<Seq<Seq<char>>> {
    if line.len() == 0 {
        Some(seq![seq![]])
    } else if visible_width_of(line) > usize::MAX {
        None
    } else if visible_width_of(line) <= width {
        Some(seq![line])
    } else {
        match wrap_tokens(line) {
            Some(ts) => match wrap_fold(
                ts,
                0,
                WrapState { lines: seq![], current: seq![], cw: 0, tracker: sgr_reset() },
                width,
            ) {
                Some(st) => {
                    let lines = if st.current.len() > 0 {
                        st.lines.push(st.current)
                    } else {
                        st.lines
                    };
                    Some(if lines.len() == 0 { seq![seq![]] } else { lines })
                },
                None => None,
            },
            None => None,
        }
    }
}

/// The exec wrapping state as values.
pub open spec fn wrap_view(lines: Seq<Vec<char>>, current: Seq<char>, cw: usize, tracker: SgrState) -> WrapState {
    WrapState { lines: views(lines), current, cw: cw as int, tracker }
}

/// Lays out one token.
fn wrap_token_step(
    token: &Vec<char>,
    width: usize,
    lines: &mut Vec<Vec<char>>,
    current: &mut Vec<char>,
    cw: &mut usize,
    tracker: &mut AnsiState,
)
    requires
        wrap_token(wrap_view(old(lines)@, old(current)@, *old(cw), old(tracker)@), token@, width as int) is Some,
    ensures
        wrap_token(wrap_view(old(lines)@, old(current)@, *old(cw), old(tracker)@), token@, width as int)
            == Some(wrap_view(final(lines)@, final(current)@, *final(cw), final(tracker)@)),
{
    let tw = match visible_width_checked(token) {
        Some(w) => w,
        None => {
            assert(false);
            0
        },
    };
    if tw > width {
        if current.len() > 0 {
            let end = tracker.line_end_reset();
            append_chars(current, &end);
            let done = sub_chars(current, 0, current.len());
            assert(done@ =~= current@);
            let ghost before = views(lines@);
            lines.push(done);
            assert(views(lines@) =~= before.push(done@));
            *current = Vec::new();
            *cw = 0;
        }
        let broken = break_long_word(token, width, tracker);
        let ghost bv = views(broken@);
        assert(bv.len() > 0);
        let last = broken.len() - 1;
        let mut j: usize = 0;
        let ghost before = views(lines@);
        while j < last
            invariant
                0 <= j <= last,
                last == broken.len() - 1,
                bv == views(broken@),
                views(lines@) == before + bv.take(j as int),
            decreases last - j,
        {
            let l = sub_chars(&broken[j], 0, broken[j].len());
            assert(l@ =~= bv[j as int]);
            let ghost pv = views(lines@);
            lines.push(l);
            assert(views(lines@) =~= pv.push(l@));
            assert(bv.take(j + 1) =~= bv.take(j as int).push(bv[j as int]));
            j = j + 1;
            assert(views(lines@) =~= before + bv.take(j as int));
        }
        assert(bv.take(last as int) =~= bv.drop_last());
        let l = sub_chars(&broken[last], 0, broken[last].len());
        assert(l@ =~= bv.last());
        *cw = match visible_width_checked(&l) {
            Some(w) => w,
            None => {
                assert(false);
                0
            },
        };
        *current = l;
        return;
    }
    if *cw > 0 && (*cw > width || tw > width - *cw) {
        let end = tracker.line_end_reset();
        let mut done = sub_chars(current, 0, current.len());
        append_chars(&mut done, &end);
        let ghost before = views(lines@);
        lines.push(done);
        assert(views(lines@) =~= before.push(done@));
        let mut next = tracker.active_codes();
        append_chars(&mut next, token);
        *current = next;
        *cw = tw;
    } else {
        append_chars(current, token);
        *cw = *cw + tw;
    }
    tracker.update(token);
}

/// Wraps one logical line.
fn wrap_single_line(line: &[char], width: usize) -> (r: Vec<Vec<char>>)
    requires
        wrapped_line(line@, width as int) is Some,
    ensures
        views(r@) == wrapped_line(line@, width as int).unwrap(),
{
    if line.len() == 0 {
        let r = vec![Vec::new()];
        assert(views(r@) =~= seq![seq![]]);
        return r;
    }
    let visible = match visible_width_checked(line) {
        Some(w) => w,
        None => {
            assert(false);
            0
        },
    };
    if visible <= width {
        let r = vec![sub_chars(line, 0, line.len())];
        assert(views(r@) =~= seq![line@]);
        return r;
    }
    let tokens = split_into_tokens(line);
    let ghost ts = views(tokens@);
    let mut lines: Vec<Vec<char>> = Vec::new();
    let mut current: Vec<char> = Vec::new();
    let mut cw: usize = 0;
    let mut tracker = AnsiState::new();
    assert(views(lines@) =~= Seq::<Seq<char>>::empty());
    let ghost target = wrap_fold(ts, 0, wrap_view(lines@, current@, cw, tracker@), width as int);
    let mut k: usize = 0;
    while k < tokens.len()
        invariant
            0 <= k <= tokens.len(),
            ts == views(tokens@),
            target is Some,
            target == wrap_fold(ts, k as int, wrap_view(lines@, current@, cw, tracker@), width as int),
        decreases tokens.len() - k,
    {
        assert(ts[k as int] == tokens@[k as int]@);
        wrap_token_step(&tokens[k], width, &mut lines, &mut current, &mut cw, &mut tracker);
        k = k + 1;
    }
    if current.len() > 0 {
        let ghost before = views(lines@);
        let done = current;
        lines.push(done);
        assert(views(lines@) =~= before.push(done@));
    }
    if lines.len() == 0 {
        lines.push(Vec::new());
        assert(views(lines@) =~= seq![seq![]]);
    }
    lines
}

/// The wrapped lines of the logical lines `ls[k..]`, each prefixed with the
/// codes that the previous logical line leaves active.
pub open spec fn wrap_lines_from(ls: Seq<Seq<char>>, k: int, codes: Seq<char>, acc: Seq<Seq<char>>, width: int) -> Option<Seq<Seq<char>>>
    decreases ls.len() - k,
{
    if k < 0 || k >= ls.len() {
        Some(acc)
    } else {
        match wrapped_line(codes + ls[k], width) {
            Some(w) => wrap_lines_from(
                ls,
                k + 1,
                sgr_active_codes(sgr_update_from(sgr_reset(), ls[k], 0)),
                acc + w,
                width,
            ),
            None => None,
        }
    }
}

/// What `wrap_text_with_ansi` returns; `None` on the inputs where wrapping
/// makes no progress (an escape character that starts no sequence) or a
/// width exceeds `usize`.
pub open spec fn wrapped_text(text: Seq<char>, width: int) -> Option<Seq<Seq<char>>> {
    if text.len() == 0 {
        Some(seq![seq![]])
    } else {
        match wrap_lines_from(split_on(text, '\n'), 0, seq![], seq![], width) {
            Some(r) => Some(if r.len() == 0 { seq![seq![]] } else { r }),
            None => None,
        }
    }
}

/// Word-wrap text preserving ANSI escape codes: each logical line is wrapped
/// on its own, continuation lines re-open the active styling, and a logical
/// line starts with the styling the previous one left active.
pub fn wrap_text_with_ansi(text: &str, width: usize) -> (r: Vec<String>)
    requires
        wrapped_text(text@, width as int) is Some,
    ensures
        r@.map_values(|l: String| l@) == wrapped_text(text@, width as int).unwrap(),
{
    let t = str_chars(text);
    if t.len() == 0 {
        let r = vec![String::new()];
        assert(r@.map_values(|l: String| l@) =~= seq![seq![]]);
        return r;
    }
    let input_lines = crate::tui::sgr::split_chars(&t, '\n');
    let ghost ls = views(input_lines@);
    let mut result: Vec<String> = Vec::new();
    let mut codes: Vec<char> = Vec::new();
    let ghost target = wrap_lines_from(ls, 0, codes@, result@.map_values(|l: String| l@), width as int);
    assert(result@.map_values(|l: String| l@) =~= Seq::<Seq<char>>::empty());
    let mut k: usize = 0;
    while k < input_lines.len()
        invariant
            0 <= k <= input_lines.len(),
            ls == views(input_lines@),
            target is Some,
            target == wrap_lines_from(ls, k as int, codes@, result@.map_values(|l: String| l@), width as int),
        decreases input_lines.len() - k,
    {
        assert(ls[k as int] == input_lines@[k as int]@);
        let mut line = sub_chars(&codes, 0, codes.len());
        append_chars(&mut line, &input_lines[k]);
        let wrapped = wrap_single_line(&line, width);
        let ghost before = result@.map_values(|l: String| l@);
        let mut j: usize = 0;
        while j < wrapped.len()
            invariant
                0 <= j <= wrapped.len(),
                result@.map_values(|l: String| l@) == before + views(wrapped@).take(j as int),
            decreases wrapped.len() - j,
        {
            let s = string_from_chars(&wrapped[j]);
            let ghost pv = result@.map_values(|l: String| l@);
            result.push(s);
            assert(result@.map_values(|l: String| l@) =~= pv.push(s@));
            assert(views(wrapped@)[j as int] == wrapped@[j as int]@);
            assert(views(wrapped@).take(j + 1) =~= views(wrapped@).take(j as int).push(views(wrapped@)[j as int]));
            j = j + 1;
            assert(result@.map_values(|l: String| l@) =~= before + views(wrapped@).take(j as int));
        }
        assert(views(wrapped@).take(j as int) =~= views(wrapped@));
        let mut tracker = AnsiState::new();
        tracker.update(&input_lines[k]);
        codes = tracker.active_codes();
        k = k + 1;
    }
    if result.len() == 0 {
        result.push(String::new());
        assert(result@.map_values(|l: String| l@) =~= seq![seq![]]);
    }
    result
}

} // verus!
