//! Text measurement for the terminal: ANSI escape sequences, column widths of
//! grapheme clusters, truncation, column slicing and word wrapping.
use crate::tui::strs::{byte_len, chars_byte_len, lemma_byte_len_concat, lemma_byte_len_ge_len, lemma_byte_len_prefix_le, push_chars, push_repeat, push_str, repeat_char, str_chars, string_from_chars, string_from_str, sub_chars};
use crate::tui::unicode::{char_width, control, graphemes, grapheme_clusters, is_control, table_width, views};
use vstd::prelude::*;

verus! {

broadcast use vstd::seq_lib::group_seq_properties;

// ---------------------------------------------------------------------------
// ANSI escape sequences
// ---------------------------------------------------------------------------

/// The escape character (0x1b).
pub open spec fn esc() -> char {
    '\x1b'
}

/// Whether `c` ends a CSI sequence (0x40..=0x7e).
pub open spec fn is_csi_final(c: char) -> bool {
    0x40 <= (c as u32) && (c as u32) <= 0x7e
}

/// The first index at or after `j` that holds a CSI final character, or `s.len()`.
pub open spec fn csi_final_from(s: Seq<char>, j: int) -> int
    decreases s.len() - j,
{
    if j < 0 || j >= s.len() {
        s.len() as int
    } else if is_csi_final(s[j]) {
        j
    } else {
        csi_final_from(s, j + 1)
    }
}

/// End (exclusive) of the first string terminator at or after `j`: BEL, or
/// ESC followed by a backslash.
pub open spec fn st_end_from(s: Seq<char>, j: int) -> Option<int>
    decreases s.len() - j,
{
    if j < 0 || j >= s.len() {
        None
    } else if s[j] == '\x07' {
        Some(j + 1)
    } else if s[j] == esc() && j + 1 < s.len() && s[j + 1] == '\\' {
        Some(j + 2)
    } else {
        st_end_from(s, j + 1)
    }
}

/// Length of the ANSI escape sequence that starts at `pos`: a CSI sequence
/// (`ESC [` up to a final character) or an OSC/APC sequence (`ESC ]` or
/// `ESC _` up to BEL or `ESC \`); `None` where none starts there.
pub open spec fn ansi_len_at(s: Seq<char>, pos: int) -> Option<int> {
    if pos < 0 || pos + 1 >= s.len() || s[pos] != esc() {
        None
    } else if s[pos + 1] == '[' {
        let k = csi_final_from(s, pos + 2);
        if k < s.len() {
            Some(k + 1 - pos)
        } else {
            None
        }
    } else if s[pos + 1] == ']' || s[pos + 1] == '_' {
        match st_end_from(s, pos + 2) {
            Some(e) => Some(e - pos),
            None => None,
        }
    } else {
        None
    }
}

pub proof fn lemma_csi_final_from_bounds(s: Seq<char>, j: int)
    requires
        0 <= j,
    ensures
        j <= csi_final_from(s, j) <= s.len() || (j > s.len() && csi_final_from(s, j) == s.len()),
        csi_final_from(s, j) < s.len() ==> is_csi_final(s[csi_final_from(s, j)]),
        forall|k: int| j <= k < csi_final_from(s, j) ==> !is_csi_final(#[trigger] s[k]),
    decreases s.len() - j,
{
    if j < s.len() && !is_csi_final(s[j]) {
        lemma_csi_final_from_bounds(s, j + 1);
    }
}

pub proof fn lemma_st_end_from_bounds(s: Seq<char>, j: int)
    requires
        0 <= j,
    ensures
        st_end_from(s, j) matches Some(e) ==> j + 1 <= e <= s.len(),
    decreases s.len() - j,
{
    if j < s.len() && !(s[j] == '\x07') && !(s[j] == esc() && j + 1 < s.len() && s[j + 1]
        == '\\') {
        lemma_st_end_from_bounds(s, j + 1);
    }
}

/// An escape sequence is at least two characters long and lies within `s`.
pub proof fn lemma_ansi_len_bounds(s: Seq<char>, pos: int)
    ensures
        ansi_len_at(s, pos) matches Some(n) ==> 2 <= n && pos + n <= s.len(),
{
    if pos >= 0 && pos + 1 < s.len() && s[pos] == esc() {
        lemma_csi_final_from_bounds(s, pos + 2);
        lemma_st_end_from_bounds(s, pos + 2);
    }
}

/// Length of the ANSI escape sequence at `pos`, if one starts there.
pub fn extract_ansi_code_at(s: &[char], pos: usize) -> (r: Option<usize>)
    ensures
        r matches Some(n) ==> ansi_len_at(s@, pos as int) == Some(n as int),
        r is None ==> ansi_len_at(s@, pos as int) is None,
{
    proof {
        lemma_ansi_len_bounds(s@, pos as int);
    }
    if pos >= s.len() || s[pos] != '\x1b' || pos + 1 >= s.len() {
        return None;
    }
    let next = s[pos + 1];
    if next == '[' {
        let mut j = pos + 2;
        while j < s.len() && !(0x40 <= (s[j] as u32) && (s[j] as u32) <= 0x7e)
            invariant
                pos + 2 <= j <= s.len(),
                csi_final_from(s@, pos + 2) == csi_final_from(s@, j as int),
            decreases s.len() - j,
        {
            j = j + 1;
        }
        if j < s.len() {
            return Some(j + 1 - pos);
        }
        return None;
    }
    if next == ']' || next == '_' {
        let mut j = pos + 2;
        while j < s.len()
            invariant
                pos + 2 <= j <= s.len(),
                st_end_from(s@, pos + 2) == st_end_from(s@, j as int),
                pos + 1 < s.len(),
                s@[pos as int] == esc(),
                s@[pos + 1] == ']' || s@[pos + 1] == '_',
            decreases s.len() - j,
        {
            if s[j] == '\x07' {
                return Some(j + 1 - pos);
            }
            if s[j] == '\x1b' && j + 1 < s.len() && s[j + 1] == '\\' {
                return Some(j + 2 - pos);
            }
            j = j + 1;
        }
        return None;
    }
    None
}

// ---------------------------------------------------------------------------
// Widths
// ---------------------------------------------------------------------------

/// Every character is printable ASCII (0x20..=0x7e).
pub open spec fn printable_ascii(s: Seq<char>) -> bool {
    forall|i: int| 0 <= i < s.len() ==> 0x20 <= (#[trigger] s[i] as u32) && (s[i] as u32) <= 0x7e
}

pub fn is_printable_ascii(s: &[char]) -> (r: bool)
    ensures
        r == printable_ascii(s@),
{
    let mut i: usize = 0;
    while i < s.len()
        invariant
            0 <= i <= s.len(),
            forall|k: int| 0 <= k < i ==> 0x20 <= (#[trigger] s@[k] as u32) && (s@[k] as u32) <= 0x7e,
        decreases s.len() - i,
    {
        let u = s[i] as u32;
        if !(0x20 <= u && u <= 0x7e) {
            return false;
        }
        i = i + 1;
    }
    true
}

/// Zero-width characters: the zero-width spaces and marks U+200B..U+200F,
/// the line and paragraph separators, bidi controls U+202A..U+202E, the word
/// joiners U+2060..U+2064, the BOM, control characters, and everything the
/// width tables give no columns.
pub open spec fn zero_width_char(c: char) -> bool {
    let u = c as u32;
    (0x200b <= u && u <= 0x200f) || (0x2028 <= u && u <= 0x2029) || (0x202a <= u && u <= 0x202e)
        || (0x2060 <= u && u <= 0x2064) || u == 0xfeff || control(c) || (u >= 0xa0
        && table_width(c) == 0)
}

fn is_zero_width_char(c: char) -> (r: bool)
    ensures
        r == zero_width_char(c),
{
    let u = c as u32;
    if (0x200b <= u && u <= 0x200f) || (0x2028 <= u && u <= 0x2029) || (0x202a <= u && u <= 0x202e)
        || (0x2060 <= u && u <= 0x2064) || u == 0xfeff {
        return true;
    }
    if is_control(c) {
        return true;
    }
    match char_width(c) {
        Some(w) => w == 0,
        None => false,
    }
}

/// Whether `g` contains the character `c`.
pub open spec fn has_char(g: Seq<char>, c: char) -> bool {
    exists|i: int| 0 <= i < g.len() && g[i] == c
}

fn contains_char(g: &[char], c: char) -> (r: bool)
    ensures
        r == has_char(g@, c),
{
    let mut i: usize = 0;
    while i < g.len()
        invariant
            0 <= i <= g.len(),
            forall|k: int| 0 <= k < i ==> g@[k] != c,
        decreases g.len() - i,
    {
        if g[i] == c {
            return true;
        }
        i = i + 1;
    }
    false
}

/// The heuristic for emoji: a first character in the pictograph, technical,
/// dingbat or star blocks, an emoji presentation selector, or more than two
/// characters (ZWJ sequences, skin tones).
pub open spec fn could_be_emoji(g: Seq<char>) -> bool {
    let cp: u32 = if g.len() > 0 {
        g[0] as u32
    } else {
        0
    };
    (0x1f000 <= cp && cp <= 0x1fbff) || (0x2300 <= cp && cp <= 0x23ff) || (0x2600 <= cp && cp
        <= 0x27bf) || (0x2b50 <= cp && cp <= 0x2b55) || has_char(g, '\u{FE0F}') || g.len() > 2
}

fn could_be_emoji_exec(g: &[char]) -> (r: bool)
    ensures
        r == could_be_emoji(g@),
{
    let cp: u32 = if g.len() > 0 {
        g[0] as u32
    } else {
        0
    };
    (0x1f000 <= cp && cp <= 0x1fbff) || (0x2300 <= cp && cp <= 0x23ff) || (0x2600 <= cp && cp
        <= 0x27bf) || (0x2b50 <= cp && cp <= 0x2b55) || contains_char(g, '\u{FE0F}') || g.len()
        > 2
}

/// Columns given by halfwidth/fullwidth forms (2) and the Thai and Lao AM
/// vowels (1) among the characters of `g`.
pub open spec fn forms_width(g: Seq<char>) -> nat
    decreases g.len(),
{
    if g.len() == 0 {
        0
    } else {
        let c = g.last() as u32;
        forms_width(g.drop_last()) + if 0xff00 <= c && c <= 0xffef {
            2nat
        } else if c == 0x0e33 || c == 0x0eb3 {
            1nat
        } else {
            0nat
        }
    }
}

proof fn lemma_forms_width_prefix(g: Seq<char>, i: int)
    requires
        0 <= i <= g.len(),
    ensures
        forms_width(g.take(i)) <= forms_width(g),
    decreases g.len() - i,
{
    if i < g.len() {
        lemma_forms_width_prefix(g, i + 1);
        assert(g.take(i + 1).drop_last() =~= g.take(i));
    } else {
        assert(g.take(i) =~= g);
    }
}

proof fn lemma_forms_width_bound(g: Seq<char>)
    ensures
        forms_width(g) <= 2 * g.len(),
    decreases g.len(),
{
    if g.len() > 0 {
        lemma_forms_width_bound(g.drop_last());
    }
}

/// Terminal columns taken by one grapheme cluster.
pub open spec fn grapheme_width(g: Seq<char>) -> nat {
    if g == seq!['\t'] {
        3
    } else if g.len() == 0 {
        0
    } else {
        let c = g[0];
        let u = c as u32;
        if zero_width_char(c) {
            0
        } else if could_be_emoji(g) {
            2
        } else if 0x1f1e6 <= u && u <= 0x1f1ff {
            2
        } else if u >= 0xa0 && table_width(c) > 0 {
            table_width(c) as nat
        } else if 0x20 <= u && u < 0x7f {
            1
        } else if forms_width(g) > 0 {
            forms_width(g)
        } else {
            2
        }
    }
}

/// A cluster takes at most 255 columns per character.
pub proof fn lemma_grapheme_width_bound(g: Seq<char>)
    ensures
        grapheme_width(g) <= 255 * g.len(),
{
    lemma_forms_width_bound(g);
}

/// Terminal columns of one grapheme cluster, or `None` where the count
/// exceeds `usize`.
pub fn grapheme_width_checked(g: &[char]) -> (w: Option<usize>)
    ensures
        w == (if grapheme_width(g@) <= usize::MAX {
            Some(grapheme_width(g@) as usize)
        } else {
            None
        }),
{
    if g.len() == 1 && g[0] == '\t' {
        assert(g@ =~= seq!['\t']);
        return Some(3);
    }
    assert(g@ != seq!['\t']) by {
        if g@ == seq!['\t'] {
            assert(g@.len() == 1 && g@[0] == '\t');
        }
    }
    if g.len() == 0 {
        return Some(0);
    }
    let c = g[0];
    if is_zero_width_char(c) {
        return Some(0);
    }
    if could_be_emoji_exec(g) {
        return Some(2);
    }
    let u = c as u32;
    if 0x1f1e6 <= u && u <= 0x1f1ff {
        return Some(2);
    }
    match char_width(c) {
        Some(w) => {
            if w > 0 {
                return Some(w);
            }
        },
        None => {},
    }
    assert(grapheme_width(g@) == if forms_width(g@) > 0 {
        forms_width(g@)
    } else {
        2
    });
    let mut w: usize = 0;
    let mut i: usize = 0;
    while i < g.len()
        invariant
            0 <= i <= g.len(),
            w == forms_width(g@.take(i as int)),
            grapheme_width(g@) == if forms_width(g@) > 0 {
                forms_width(g@)
            } else {
                2
            },
        decreases g.len() - i,
    {
        assert(g@.take(i + 1).drop_last() =~= g@.take(i as int));
        proof {
            lemma_forms_width_prefix(g@, i + 1);
        }
        let ch = g[i] as u32;
        if 0xff00 <= ch && ch <= 0xffef {
            if w > usize::MAX - 2 {
                return None;
            }
            w = w + 2;
        } else if ch == 0x0e33 || ch == 0x0eb3 {
            if w > usize::MAX - 1 {
                return None;
            }
            w = w + 1;
        }
        i = i + 1;
    }
    assert(g@.take(g.len() as int) =~= g@);
    if w > 0 {
        return Some(w);
    }
    Some(2)
}

/// Terminal columns of one grapheme cluster.
pub fn grapheme_width_of(g: &[char]) -> (w: usize)
    requires
        grapheme_width(g@) <= usize::MAX,
    ensures
        w == grapheme_width(g@),
{
    match grapheme_width_checked(g) {
        Some(w) => w,
        None => 0,
    }
}

/// Sum of the widths of a sequence of clusters.
pub open spec fn widths_sum(gs: Seq<Seq<char>>) -> nat
    decreases gs.len(),
{
    if gs.len() == 0 {
        0
    } else {
        widths_sum(gs.drop_last()) + grapheme_width(gs.last())
    }
}

/// The text that is measured: tabs become three spaces and ANSI escape
/// sequences are dropped (from index `i` on).
pub open spec fn width_text_from(s: Seq<char>, i: int) -> Seq<char>
    decreases s.len() - i,
{
    if i < 0 || i >= s.len() {
        seq![]
    } else if s[i] == '\t' {
        seq![' ', ' ', ' '] + width_text_from(s, i + 1)
    } else if s[i] == esc() && ansi_len_at(s, i) is Some {
        proof {
            lemma_ansi_len_bounds(s, i);
        }
        width_text_from(s, i + ansi_len_at(s, i).unwrap())
    } else {
        seq![s[i]] + width_text_from(s, i + 1)
    }
}

/// The visible width of `s` in terminal columns.
pub open spec fn visible_width_of(s: Seq<char>) -> nat {
    if s.len() == 0 {
        0
    } else if printable_ascii(s) {
        s.len()
    } else {
        widths_sum(grapheme_clusters(width_text_from(s, 0)))
    }
}

proof fn lemma_widths_sum_prefix(gs: Seq<Seq<char>>, k: int)
    requires
        0 <= k <= gs.len(),
    ensures
        widths_sum(gs.take(k)) <= widths_sum(gs),
    decreases gs.len() - k,
{
    if k < gs.len() {
        lemma_widths_sum_prefix(gs, k + 1);
        assert(gs.take(k + 1).drop_last() =~= gs.take(k));
    } else {
        assert(gs.take(k) =~= gs);
    }
}

/// Removes ANSI escapes and expands tabs.
fn width_text(s: &[char]) -> (t: Vec<char>)
    ensures
        t@ == width_text_from(s@, 0),
{
    let mut t: Vec<char> = Vec::new();
    let mut i: usize = 0;
    while i < s.len()
        invariant
            0 <= i <= s.len(),
            t@ + width_text_from(s@, i as int) == width_text_from(s@, 0),
        decreases s.len() - i,
    {
        if s[i] == '\t' {
            t.push(' ');
            t.push(' ');
            t.push(' ');
            i = i + 1;
        } else if s[i] == '\x1b' {
            match extract_ansi_code_at(s, i) {
                Some(n) => {
                    proof {
                        lemma_ansi_len_bounds(s@, i as int);
                    }
                    i = i + n;
                },
                None => {
                    t.push(s[i]);
                    i = i + 1;
                },
            }
        } else {
            t.push(s[i]);
            i = i + 1;
        }
    }
    t
}

/// Visible width of a character slice, or `None` where it exceeds `usize`.
pub fn visible_width_checked(s: &[char]) -> (w: Option<usize>)
    ensures
        w == (if visible_width_of(s@) <= usize::MAX {
            Some(visible_width_of(s@) as usize)
        } else {
            None
        }),
{
    if s.len() == 0 {
        return Some(0);
    }
    if is_printable_ascii(s) {
        return Some(s.len());
    }
    let t = width_text(s);
    let gs = graphemes(&t);
    let ghost all = views(gs@);
    let mut w: usize = 0;
    let mut k: usize = 0;
    while k < gs.len()
        invariant
            0 <= k <= gs.len(),
            all == views(gs@),
            all == grapheme_clusters(width_text_from(s@, 0)),
            visible_width_of(s@) == widths_sum(all),
            w == widths_sum(all.take(k as int)),
        decreases gs.len() - k,
    {
        proof {
            assert(all.take(k + 1).drop_last() =~= all.take(k as int));
            lemma_widths_sum_prefix(all, k + 1);
            lemma_widths_sum_push(all, k as int);
            assert(all[k as int] == gs@[k as int]@);
        }
        match grapheme_width_checked(&gs[k]) {
            Some(gw) => {
                if gw > usize::MAX - w {
                    return None;
                }
                w = w + gw;
            },
            None => {
                return None;
            },
        }
        k = k + 1;
    }
    assert(all.take(gs.len() as int) =~= all);
    Some(w)
}

/// Visible width of a character slice.
pub fn visible_width_chars(s: &[char]) -> (w: usize)
    requires
        visible_width_of(s@) <= usize::MAX,
    ensures
        w == visible_width_of(s@),
{
    match visible_width_checked(s) {
        Some(w) => w,
        None => 0,
    }
}

/// Calculate the visible width of a string in terminal columns.
/// ANSI escape codes take no columns, tabs take three, and each grapheme
/// cluster takes its width.
pub fn visible_width(str: &str) -> (w: usize)
    requires
        visible_width_of(str@) <= usize::MAX,
    ensures
        w == visible_width_of(str@),
{
    let s = str_chars(str);
    visible_width_chars(&s)
}

/// Whether a cluster is a space or a tab.
pub fn is_whitespace_char(grapheme: &str) -> (r: bool)
    ensures
        r == (grapheme@ == seq![' '] || grapheme@ == seq!['\t']),
{
    let g = str_chars(grapheme);
    let r = g.len() == 1 && (g[0] == ' ' || g[0] == '\t');
    proof {
        if r {
            assert(g@ =~= seq![g@[0]]);
        } else {
            assert(grapheme@ != seq![' '] && grapheme@ != seq!['\t']) by {
                if grapheme@ == seq![' '] || grapheme@ == seq!['\t'] {
                    assert(g@.len() == 1);
                }
            }
        }
    }
    r
}

/// CJK Unified Ideographs, Hiragana, Katakana, Hangul syllables, Bopomofo.
pub open spec fn cjk_break_char(c: char) -> bool {
    let u = c as u32;
    (0x4e00 <= u && u <= 0x9fff) || (0x3040 <= u && u <= 0x309f) || (0x30a0 <= u && u <= 0x30ff)
        || (0xac00 <= u && u <= 0xd7af) || (0x3100 <= u && u <= 0x312f)
}

/// Whether a cluster starts with a CJK character (and so wraps on its own).
pub open spec fn cjk_break(g: Seq<char>) -> bool {
    g.len() > 0 && cjk_break_char(g[0])
}

pub fn is_cjk_break_chars(g: &[char]) -> (r: bool)
    ensures
        r == cjk_break(g@),
{
    if g.len() == 0 {
        return false;
    }
    let u = g[0] as u32;
    (0x4e00 <= u && u <= 0x9fff) || (0x3040 <= u && u <= 0x309f) || (0x30a0 <= u && u <= 0x30ff)
        || (0xac00 <= u && u <= 0xd7af) || (0x3100 <= u && u <= 0x312f)
}

/// Whether a grapheme cluster is CJK (and so gets its own token when wrapping).
pub fn is_cjk_break(grapheme: &str) -> (r: bool)
    ensures
        r == cjk_break(grapheme@),
{
    let g = str_chars(grapheme);
    is_cjk_break_chars(&g)
}

/// The reset and hyperlink-close sequence appended to every output line.
pub open spec fn output_terminator() -> Seq<char> {
    seq!['\x1b', '[', '0', 'm', '\x1b', ']', '8', ';', ';', '\x07']
}

/// Appends a reset and a hyperlink close to a terminal output line.
pub fn normalize_terminal_output(line: &str) -> (r: String)
    ensures
        r@ == line@ + output_terminator(),
{
    let mut r = string_from_str(line);
    let tail = "\x1b[0m\x1b]8;;\x07";
    proof {
        reveal_strlit("\x1b[0m\x1b]8;;\x07");
    }
    push_str(&mut r, tail);
    assert(tail@ =~= output_terminator());
    r
}

} // verus!

verus! {

// ---------------------------------------------------------------------------
// Truncation
// ---------------------------------------------------------------------------

/// The reset sequence `ESC [ 0 m`.
pub open spec fn reset_seq() -> Seq<char> {
    seq!['\x1b', '[', '0', 'm']
}

/// End of the run of ANSI escape sequences that starts at `i`.
pub open spec fn ansi_run_end(s: Seq<char>, i: int) -> int
    decreases s.len() - i,
{
    if i < 0 || i >= s.len() {
        i
    } else if s[i] == esc() && ansi_len_at(s, i) is Some {
        proof {
            lemma_ansi_len_bounds(s, i);
        }
        ansi_run_end(s, i + ansi_len_at(s, i).unwrap())
    } else {
        i
    }
}

proof fn lemma_ansi_run_end_bounds(s: Seq<char>, i: int)
    requires
        0 <= i <= s.len(),
    ensures
        i <= ansi_run_end(s, i) <= s.len(),
    decreases s.len() - i,
{
    if i < s.len() && s[i] == esc() && ansi_len_at(s, i) is Some {
        lemma_ansi_len_bounds(s, i);
        lemma_ansi_run_end_bounds(s, i + ansi_len_at(s, i).unwrap());
    }
}

/// How many leading clusters of `gs` fit, one after another, in `budget` columns.
pub open spec fn fit_count(gs: Seq<Seq<char>>, budget: int) -> nat
    decreases gs.len(),
{
    if gs.len() == 0 {
        0
    } else if grapheme_width(gs[0]) <= budget {
        1 + fit_count(gs.drop_first(), budget - grapheme_width(gs[0]))
    } else {
        0
    }
}

proof fn lemma_fit_count_step(gs: Seq<Seq<char>>, k: int, budget: int)
    requires
        0 <= k < gs.len(),
    ensures
        fit_count(gs.skip(k), budget) == if grapheme_width(gs[k]) <= budget {
            1 + fit_count(gs.skip(k + 1), budget - grapheme_width(gs[k]))
        } else {
            0
        },
{
    assert(gs.skip(k).drop_first() =~= gs.skip(k + 1));
    assert(gs.skip(k)[0] == gs[k]);
}

proof fn lemma_widths_sum_push(gs: Seq<Seq<char>>, k: int)
    requires
        0 <= k < gs.len(),
    ensures
        widths_sum(gs.take(k + 1)) == widths_sum(gs.take(k)) + grapheme_width(gs[k]),
{
    assert(gs.take(k + 1).drop_last() =~= gs.take(k));
}

proof fn lemma_flatten_take_push(gs: Seq<Seq<char>>, k: int)
    requires
        0 <= k < gs.len(),
    ensures
        gs.take(k + 1).flatten() == gs.take(k).flatten() + gs[k],
{
    assert(gs.take(k + 1) =~= gs.take(k).push(gs[k]));
    gs.take(k).lemma_flatten_push(gs[k]);
}

/// The text kept by grapheme-wise truncation to `target` columns, with its
/// width: the leading escape sequences (only when some cluster is kept), then
/// the clusters of the rest that fit one after another.
pub open spec fn truncation_kept(s: Seq<char>, target: int) -> (Seq<char>, nat) {
    let i = ansi_run_end(s, 0);
    if i >= s.len() {
        (seq![], 0)
    } else {
        let gs = grapheme_clusters(s.skip(i));
        let k = fit_count(gs, target);
        if k == 0 {
            (seq![], 0)
        } else {
            (s.take(i) + gs.take(k as int).flatten(), widths_sum(gs.take(k as int)))
        }
    }
}

/// `n` spaces when `pad` is set, nothing otherwise.
pub open spec fn pad_spaces(pad: bool, n: int) -> Seq<char> {
    if pad && n > 0 {
        repeat_char(' ', n as nat)
    } else {
        seq![]
    }
}

/// What `truncate_to_width` returns.
pub open spec fn truncated(text: Seq<char>, max_width: nat, ellipsis: Seq<char>, pad: bool) -> Seq<
    char,
> {
    if max_width == 0 {
        seq![]
    } else if text.len() == 0 {
        pad_spaces(pad, max_width as int)
    } else {
        let tw = visible_width_of(text);
        let ew = visible_width_of(ellipsis);
        if tw <= max_width {
            text + pad_spaces(pad, max_width - tw)
        } else if ew >= max_width {
            pad_spaces(pad, max_width as int)
        } else {
            let target = max_width - ew;
            if printable_ascii(text) {
                let n = if target < text.len() {
                    target
                } else {
                    text.len() as int
                };
                text.take(n) + reset_seq() + ellipsis + reset_seq() + pad_spaces(
                    pad,
                    max_width - (n + ew),
                )
            } else {
                let (kept, kw) = truncation_kept(text, target);
                kept + reset_seq() + ellipsis + reset_seq() + pad_spaces(pad, max_width - (kw + ew))
            }
        }
    }
}

/// Appends `n` spaces when `pad` is set.
fn push_pad(s: &mut String, pad: bool, n: usize)
    ensures
        final(s)@ == old(s)@ + pad_spaces(pad, n as int),
{
    if pad && n > 0 {
        push_repeat(s, ' ', n);
    } else {
        assert(old(s)@ + pad_spaces(pad, n as int) =~= old(s)@);
    }
}

/// The kept text and its width for grapheme-wise truncation.
fn truncation_kept_exec(s: &[char], target: usize) -> (r: (Vec<char>, usize))
    ensures
        r.0@ == truncation_kept(s@, target as int).0,
        r.1 == truncation_kept(s@, target as int).1,
        r.1 <= target,
{
    let mut i: usize = 0;
    proof {
        lemma_ansi_run_end_bounds(s@, 0);
    }
    while i < s.len()
        invariant
            0 <= i <= s.len(),
            ansi_run_end(s@, i as int) == ansi_run_end(s@, 0),
        ensures
            ansi_run_end(s@, 0) == i,
        decreases s.len() - i,
    {
        if s[i] == '\x1b' {
            match extract_ansi_code_at(s, i) {
                Some(n) => {
                    proof {
                        lemma_ansi_len_bounds(s@, i as int);
                    }
                    i = i + n;
                    continue;
                },
                None => {},
            }
        }
        break;
    }
    if i >= s.len() {
        return (Vec::new(), 0);
    }
    let rest = sub_chars(s, i, s.len());
    assert(rest@ =~= s@.skip(i as int));
    let gs = graphemes(&rest);
    let ghost all = views(gs@);
    let mut kept: Vec<char> = Vec::new();
    let mut kw: usize = 0;
    let mut k: usize = 0;
    while k < gs.len()
        invariant_except_break
            fit_count(all, target as int) == k + fit_count(all.skip(k as int), target - kw),
        invariant
            0 <= k <= gs.len(),
            all == views(gs@),
            kept@ == all.take(k as int).flatten(),
            kw == widths_sum(all.take(k as int)),
            kw <= target,
        ensures
            fit_count(all, target as int) == k,
        decreases gs.len() - k,
    {
        proof {
            lemma_fit_count_step(all, k as int, target - kw);
            lemma_grapheme_width_bound(all[k as int]);
            assert(all[k as int] == gs@[k as int]@);
        }
        let gw = grapheme_width_of(&gs[k]);
        if gw > target - kw {
            break;
        }
        proof {
            lemma_widths_sum_push(all, k as int);
            lemma_flatten_take_push(all, k as int);
        }
        let mut j: usize = 0;
        let ghost before = kept@;
        while j < gs[k].len()
            invariant
                0 <= j <= gs@[k as int]@.len(),
                k < gs.len(),
                kept@ == before + gs@[k as int]@.take(j as int),
            decreases gs@[k as int]@.len() - j,
        {
            kept.push(gs[k][j]);
            j = j + 1;
            assert(kept@ =~= before + gs@[k as int]@.take(j as int));
        }
        assert(gs@[k as int]@.take(j as int) =~= gs@[k as int]@);
        kw = kw + gw;
        k = k + 1;
    }
    if k == 0 {
        return (Vec::new(), 0);
    }
    let mut out = sub_chars(s, 0, i);
    assert(out@ =~= s@.take(i as int));
    let mut j: usize = 0;
    let ghost before = out@;
    while j < kept.len()
        invariant
            0 <= j <= kept.len(),
            out@ == before + kept@.take(j as int),
        decreases kept.len() - j,
    {
        out.push(kept[j]);
        j = j + 1;
        assert(out@ =~= before + kept@.take(j as int));
    }
    assert(kept@.take(j as int) =~= kept@);
    (out, kw)
}

/// Truncate text to fit within a maximum visible width, adding the ellipsis
/// when something is cut, and optionally pad with spaces to the full width.
/// ANSI escape codes take no columns.
pub fn truncate_to_width(text: &str, max_width: usize, ellipsis: &str, pad: bool) -> (r: String)
    requires
        visible_width_of(text@) <= usize::MAX,
        visible_width_of(ellipsis@) <= usize::MAX,
    ensures
        r@ == truncated(text@, max_width as nat, ellipsis@, pad),
{
    if max_width == 0 {
        return String::new();
    }
    let t = str_chars(text);
    if t.len() == 0 {
        let mut r = String::new();
        push_pad(&mut r, pad, max_width);
        return r;
    }
    let text_width = visible_width_chars(&t);
    let ellipsis_width = visible_width(ellipsis);
    if text_width <= max_width {
        let mut r = string_from_str(text);
        push_pad(&mut r, pad, max_width - text_width);
        return r;
    }
    if ellipsis_width >= max_width {
        let mut r = String::new();
        push_pad(&mut r, pad, max_width);
        return r;
    }
    let target = max_width - ellipsis_width;
    let reset = "\x1b[0m";
    proof {
        reveal_strlit("\x1b[0m");
        assert(reset@ =~= reset_seq());
    }
    let mut r = String::new();
    if is_printable_ascii(&t) {
        let n = if target < t.len() {
            target
        } else {
            t.len()
        };
        let prefix = sub_chars(&t, 0, n);
        assert(prefix@ =~= t@.take(n as int));
        push_chars(&mut r, &prefix);
        push_str(&mut r, reset);
        push_str(&mut r, ellipsis);
        push_str(&mut r, reset);
        let visible = n + ellipsis_width;
        if visible < max_width {
            push_pad(&mut r, pad, max_width - visible);
        } else {
            assert(pad_spaces(pad, max_width - visible) =~= seq![]);
            assert(r@ + pad_spaces(pad, max_width - visible) =~= r@);
        }
        return r;
    }
    let (kept, kw) = truncation_kept_exec(&t, target);
    push_chars(&mut r, &kept);
    push_str(&mut r, reset);
    push_str(&mut r, ellipsis);
    push_str(&mut r, reset);
    let visible = kw + ellipsis_width;
    if visible < max_width {
        push_pad(&mut r, pad, max_width - visible);
    } else {
        assert(r@ + pad_spaces(pad, max_width - visible) =~= r@);
    }
    r
}

} // verus!

verus! {

// ---------------------------------------------------------------------------
// Column slicing
// ---------------------------------------------------------------------------

/// The first index at or after `i` that holds an escape character, or `s.len()`.
pub open spec fn next_esc(s: Seq<char>, i: int) -> int
    decreases s.len() - i,
{
    if i < 0 || i >= s.len() {
        s.len() as int
    } else if s[i] == esc() {
        i
    } else {
        next_esc(s, i + 1)
    }
}

pub proof fn lemma_next_esc_bounds(s: Seq<char>, i: int)
    requires
        0 <= i <= s.len(),
    ensures
        i <= next_esc(s, i) <= s.len(),
        forall|k: int| i <= k < next_esc(s, i) ==> #[trigger] s[k] != esc(),
        i < s.len() && s[i] != esc() ==> next_esc(s, i) > i,
    decreases s.len() - i,
{
    if i < s.len() && s[i] != esc() {
        lemma_next_esc_bounds(s, i + 1);
    }
}

/// Index of the next escape character at or after `i`.
pub fn next_esc_exec(s: &[char], i: usize) -> (e: usize)
    requires
        i <= s.len(),
    ensures
        e == next_esc(s@, i as int),
        i <= e <= s.len(),
{
    proof {
        lemma_next_esc_bounds(s@, i as int);
    }
    let mut e = i;
    while e < s.len() && s[e] != '\x1b'
        invariant
            i <= e <= s.len(),
            next_esc(s@, e as int) == next_esc(s@, i as int),
        decreases s.len() - e,
    {
        e = e + 1;
    }
    e
}

/// The column walk over the clusters `gs[k..]` of one text run: each cluster
/// that starts inside `[start, end)` and ends by `end` is copied out
/// (preceded by the escape codes held back before `start`); the walk stops
/// once the column reaches `end`. Gives whether it stopped, the column, the
/// held-back codes and the output; `None` where a column would overflow.
pub open spec fn slice_run_walk(
    gs: Seq<Seq<char>>,
    k: int,
    col: int,
    pending: Seq<char>,
    out: Seq<char>,
    start: int,
    end: int,
) -> Option<(bool, int, Seq<char>, Seq<char>)>
    decreases gs.len() - k,
{
    if k < 0 || k >= gs.len() {
        Some((false, col, pending, out))
    } else {
        let w = grapheme_width(gs[k]);
        if col + w > usize::MAX {
            None
        } else {
            let keep = start <= col && col < end && col + w <= end;
            let p2 = if keep {
                seq![]
            } else {
                pending
            };
            let o2 = if keep {
                out + pending + gs[k]
            } else {
                out
            };
            if col + w >= end {
                Some((true, col + w, p2, o2))
            } else {
                slice_run_walk(gs, k + 1, col + w, p2, o2, start, end)
            }
        }
    }
}

/// The column walk over `s` from index `i`: escape codes inside the range are
/// copied, those before it are held back, text runs between escape
/// characters are walked cluster by cluster. `None` where an escape
/// character starts no sequence (the walk would make no progress) or a
/// column would overflow.
pub open spec fn slice_walk(
    s: Seq<char>,
    i: int,
    col: int,
    pending: Seq<char>,
    out: Seq<char>,
    start: int,
    end: int,
) -> Option<Seq<char>>
    decreases s.len() - i,
{
    if i < 0 || i >= s.len() {
        Some(out)
    } else if s[i] == esc() {
        match ansi_len_at(s, i) {
            Some(n) => {
                proof {
                    lemma_ansi_len_bounds(s, i);
                }
                let code = s.subrange(i, i + n);
                if start <= col && col < end {
                    slice_walk(s, i + n, col, pending, out + code, start, end)
                } else if col < start {
                    slice_walk(s, i + n, col, pending + code, out, start, end)
                } else {
                    slice_walk(s, i + n, col, pending, out, start, end)
                }
            },
            None => None,
        }
    } else {
        let e = next_esc(s, i);
        proof {
            lemma_next_esc_bounds(s, i);
        }
        match slice_run_walk(grapheme_clusters(s.subrange(i, e)), 0, col, pending, out, start, end) {
            Some((done, c2, p2, o2)) => if done {
                Some(o2)
            } else {
                slice_walk(s, e, c2, p2, o2, start, end)
            },
            None => None,
        }
    }
}

/// The visible columns `[start_col, start_col + length)` of `line`, or `None`
/// on the inputs where extraction makes no progress or overflows.
pub open spec fn column_slice(line: Seq<char>, start_col: int, length: int) -> Option<Seq<char>> {
    if length == 0 {
        Some(seq![])
    } else {
        slice_walk(line, 0, 0, seq![], seq![], start_col, start_col + length)
    }
}

/// Appends the characters of `t` to the vector `v`.
pub fn append_chars(v: &mut Vec<char>, t: &[char])
    ensures
        final(v)@ == old(v)@ + t@,
{
    let ghost start = v@;
    let mut j: usize = 0;
    while j < t.len()
        invariant
            0 <= j <= t.len(),
            v@ == start + t@.take(j as int),
        decreases t.len() - j,
    {
        v.push(t[j]);
        j = j + 1;
        assert(v@ =~= start + t@.take(j as int));
    }
    assert(t@.take(j as int) =~= t@);
}

/// Extract a range of visible columns from a line of characters.
pub fn slice_by_column_chars(line: &[char], start_col: usize, length: usize) -> (r: Vec<char>)
    requires
        start_col + length <= usize::MAX,
        column_slice(line@, start_col as int, length as int) is Some,
    ensures
        r@ == column_slice(line@, start_col as int, length as int).unwrap(),
{
    if length == 0 {
        return Vec::new();
    }
    let end_col = start_col + length;
    let mut result: Vec<char> = Vec::new();
    let mut pending: Vec<char> = Vec::new();
    let mut col: usize = 0;
    let mut i: usize = 0;
    let ghost target = column_slice(line@, start_col as int, length as int);
    while i < line.len()
        invariant
            0 <= i <= line.len(),
            end_col == start_col + length,
            target is Some,
            target == column_slice(line@, start_col as int, length as int),
            target == slice_walk(line@, i as int, col as int, pending@, result@, start_col as int, end_col as int),
        decreases line.len() - i,
    {
        if line[i] == '\x1b' {
            match extract_ansi_code_at(line, i) {
                Some(n) => {
                    proof {
                        lemma_ansi_len_bounds(line@, i as int);
                    }
                    let code = sub_chars(line, i, i + n);
                    if start_col <= col && col < end_col {
                        append_chars(&mut result, &code);
                    } else if col < start_col {
                        append_chars(&mut pending, &code);
                    }
                    i = i + n;
                    continue;
                },
                None => {
                    assert(false);
                    return result;
                },
            }
        }
        let e = next_esc_exec(line, i);
        let seg = sub_chars(line, i, e);
        assert(seg@ == line@.subrange(i as int, e as int));
        let gs = graphemes(&seg);
        let ghost all = views(gs@);
        let ghost run0 = slice_run_walk(all, 0, col as int, pending@, result@, start_col as int, end_col as int);
        proof {
            lemma_next_esc_bounds(line@, i as int);
            assert(line@[i as int] != esc());
        }
        let mut k: usize = 0;
        while k < gs.len()
            invariant
                0 <= k <= gs.len(),
                all == views(gs@),
                end_col == start_col + length,
                target is Some,
                target == column_slice(line@, start_col as int, length as int),
                run0 == slice_run_walk(all, k as int, col as int, pending@, result@, start_col as int, end_col as int),
                run0 matches Some((done, c2, p2, o2)) && (if done {
                    target == Some(o2)
                } else {
                    target == slice_walk(line@, e as int, c2, p2, o2, start_col as int, end_col as int)
                }),
            decreases gs.len() - k,
        {
            proof {
                assert(all[k as int] == gs@[k as int]@);
            }
            let ghost pre = (col as int, pending@, result@);
            proof {
                assert(col + grapheme_width(all[k as int]) <= usize::MAX);
            }
            let w = grapheme_width_of(&gs[k]);
            let keep = start_col <= col && col < end_col && w <= end_col - col;
            if keep {
                append_chars(&mut result, &pending);
                pending = Vec::new();
                append_chars(&mut result, &gs[k]);
            }
            col = col + w;
            proof {
                if keep {
                    assert(result@ =~= pre.2 + pre.1 + all[k as int]);
                }
            }
            if col >= end_col {
                assert(slice_run_walk(all, k as int, pre.0, pre.1, pre.2, start_col as int, end_col as int)
                    == Some((true, col as int, pending@, result@)));
                return result;
            }
            k = k + 1;
        }
        i = e;
    }
    result
}

} // verus!

verus! {

/// Extract a range of visible columns from a line. Handles ANSI codes and
/// wide characters: a cluster is kept when it starts inside the range and
/// ends by its end; escape codes inside the range are kept, and those before
/// it are emitted in front of the first kept cluster.
pub fn slice_by_column(line: &str, start_col: usize, length: usize) -> (r: String)
    requires
        start_col + length <= usize::MAX,
        column_slice(line@, start_col as int, length as int) is Some,
    ensures
        r@ == column_slice(line@, start_col as int, length as int).unwrap(),
{
    let l = str_chars(line);
    let v = slice_by_column_chars(&l, start_col, length);
    string_from_chars(&v)
}

/// Slice text by visible columns, returning the extracted text and its width.
pub fn slice_with_width(line: &str, start_col: usize, length: usize) -> (r: (String, usize))
    requires
        start_col + length <= usize::MAX,
        column_slice(line@, start_col as int, length as int) is Some,
        visible_width_of(column_slice(line@, start_col as int, length as int).unwrap())
            <= usize::MAX,
    ensures
        r.0@ == column_slice(line@, start_col as int, length as int).unwrap(),
        r.1 == visible_width_of(r.0@),
{
    let text = slice_by_column(line, start_col, length);
    let width = visible_width(text.as_str());
    (text, width)
}

/// Extract the segments around an overlay: columns `[0, before_end)` and
/// `[after_start, after_start + after_len)`, each with its visible width. In
/// strict mode a "before" part wider than `before_end` is dropped.
pub fn extract_segments(
    line: &str,
    before_end: usize,
    after_start: usize,
    after_len: usize,
    strict: bool,
) -> (r: (String, usize, String, usize))
    requires
        after_start + after_len <= usize::MAX,
        column_slice(line@, 0, before_end as int) is Some,
        column_slice(line@, after_start as int, after_len as int) is Some,
        visible_width_of(column_slice(line@, 0, before_end as int).unwrap()) <= usize::MAX,
        visible_width_of(column_slice(line@, after_start as int, after_len as int).unwrap())
            <= usize::MAX,
    ensures
        ({
            let before = column_slice(line@, 0, before_end as int).unwrap();
            let after = column_slice(line@, after_start as int, after_len as int).unwrap();
            let bw = visible_width_of(before);
            &&& r.2@ == after
            &&& r.3 == visible_width_of(after)
            &&& if strict && bw > before_end {
                r.0@ == Seq::<char>::empty() && r.1 == 0
            } else {
                r.0@ == before && r.1 == bw
            }
        }),
{
    let (before, before_width) = slice_with_width(line, 0, before_end);
    let (after, after_width) = slice_with_width(line, after_start, after_len);
    if strict && before_width > before_end {
        return (String::new(), 0, after, after_width);
    }
    (before, before_width, after, after_width)
}

// ---------------------------------------------------------------------------
// Visual columns to byte offsets
// ---------------------------------------------------------------------------

/// Character index at which the column walk from `i` passes `visual_col`:
/// escape sequences are skipped, and the first cluster of the rest is added
/// while the running width stays within `visual_col`. (Clusters are never
/// empty and never overrun the text; the walk ends at `s.len()` were one to.)
pub open spec fn visual_col_walk(s: Seq<char>, i: int, vis: int, visual_col: int) -> int
    decreases s.len() - i,
{
    if i < 0 || i >= s.len() {
        s.len() as int
    } else if s[i] == esc() && ansi_len_at(s, i) is Some {
        proof {
            lemma_ansi_len_bounds(s, i);
        }
        visual_col_walk(s, i + ansi_len_at(s, i).unwrap(), vis, visual_col)
    } else {
        let g = grapheme_clusters(s.skip(i))[0];
        let gw = grapheme_width(g);
        if vis + gw > visual_col {
            i
        } else if g.len() == 0 || i + g.len() > s.len() {
            s.len() as int
        } else {
            visual_col_walk(s, i + g.len(), vis + gw, visual_col)
        }
    }
}

/// The forms counted by `forms_width` take three bytes each.
proof fn lemma_forms_width_le_bytes(g: Seq<char>)
    ensures
        forms_width(g) <= byte_len(g),
    decreases g.len(),
{
    if g.len() > 0 {
        lemma_forms_width_le_bytes(g.drop_last());
    }
}

/// A cluster is no wider than 255 columns or than its byte length.
pub proof fn lemma_grapheme_width_le_bytes(g: Seq<char>)
    ensures
        grapheme_width(g) <= 255 || grapheme_width(g) <= byte_len(g),
{
    lemma_forms_width_le_bytes(g);
}

/// The first cluster is a prefix of the text it was cut from.
pub proof fn lemma_first_cluster_prefix(gs: Seq<Seq<char>>)
    requires
        gs.len() > 0,
    ensures
        gs.flatten() == gs[0] + gs.drop_first().flatten(),
{
}

/// Convert a visual column to a byte offset in `text`: the offset of the
/// first cluster that would cross the column, or the text's length.
pub fn visual_col_to_byte_offset(text: &str, visual_col: usize) -> (r: usize)
    ensures
        r == byte_len(text@.take(visual_col_walk(text@, 0, 0, visual_col as int))),
{
    let _total = crate::tui::strs::str_byte_len(text);
    let s = str_chars(text);
    if s.len() == 0 {
        assert(s@.take(0) =~= s@);
        return 0;
    }
    let mut vis: usize = 0;
    let mut i: usize = 0;
    while i < s.len()
        invariant
            0 <= i <= s.len(),
            s@ == text@,
            byte_len(s@) <= usize::MAX,
            vis <= visual_col,
            visual_col_walk(s@, 0, 0, visual_col as int) == visual_col_walk(
                s@,
                i as int,
                vis as int,
                visual_col as int,
            ),
        decreases s.len() - i,
    {
        if s[i] == '\x1b' {
            match extract_ansi_code_at(&s, i) {
                Some(n) => {
                    proof {
                        lemma_ansi_len_bounds(s@, i as int);
                    }
                    i = i + n;
                    continue;
                },
                None => {},
            }
        }
        let rest = sub_chars(&s, i, s.len());
        assert(rest@ =~= s@.skip(i as int));
        let gs = graphemes(&rest);
        proof {
            if gs@.len() == 0 {
                assert(views(gs@) =~= Seq::<Seq<char>>::empty());
            }
            assert(views(gs@)[0] == gs@[0]@);
            lemma_first_cluster_prefix(views(gs@));
            lemma_byte_len_concat(gs@[0]@, views(gs@).drop_first().flatten());
            lemma_byte_len_concat(s@.take(i as int), s@.skip(i as int));
            assert(s@.take(i as int) + s@.skip(i as int) =~= s@);
            lemma_grapheme_width_le_bytes(gs@[0]@);
        }
        let gw = grapheme_width_of(&gs[0]);
        if gw > visual_col - vis {
            let prefix = sub_chars(&s, 0, i);
            assert(prefix@ =~= s@.take(i as int));
            proof {
                lemma_byte_len_prefix_le(s@, i as int);
            }
            return chars_byte_len(&prefix);
        }
        proof {
            lemma_byte_len_ge_len(gs@[0]@);
            lemma_byte_len_ge_len(s@.skip(i as int));
        }
        vis = vis + gw;
        i = i + gs[0].len();
    }
    assert(s@.take(s.len() as int) =~= s@);
    chars_byte_len(&s)
}

} // verus!

pub use crate::tui::wrap::wrap_text_with_ansi;
