//! Word-wise cursor movement: the text is cut into segments of word
//! characters, of whitespace and of the rest (punctuation), and the cursor
//! jumps over whitespace and then one word, one run of punctuation, or one
//! atomic segment. Positions are byte offsets.
use crate::tui::strs::{
    byte_len, chars_byte_len, lemma_byte_len_concat, lemma_byte_len_take, str_byte_len, str_chars,
    sub_chars, utf8_width,
};
use crate::tui::unicode::{alphanumeric, grapheme_clusters, graphemes, is_alphanumeric, is_whitespace, views, white_space};
use crate::tui::strs::string_from_chars;
use vstd::prelude::*;
use vstd::string::StrSliceExecFns;

verus! {

broadcast use vstd::string::group_string_axioms;

/// A segment of text and whether it is a word.
#[derive(Debug, Clone)]
pub struct WordSegment {
    pub text: String,
    pub is_word: bool,
}

impl View for WordSegment {
    type V = (Seq<char>, bool);

    open spec fn view(&self) -> (Seq<char>, bool) {
        (self.text@, self.is_word)
    }
}

impl WordSegment {
    /// Byte length of the text.
    pub fn len(&self) -> (n: usize)
        ensures
            n == byte_len(self.text@),
    {
        str_byte_len(self.text.as_str())
    }

    /// The text is empty.
    pub fn is_empty(&self) -> (r: bool)
        ensures
            r == (self.text@.len() == 0),
    {
        let n = str_byte_len(self.text.as_str());
        proof {
            crate::tui::strs::lemma_byte_len_ge_len(self.text@);
        }
        n == 0
    }
}

/// Options for word movement: a segmenter to use in place of the grapheme
/// one, and a predicate naming segments that move as one unit.
pub struct WordNavigationOptions<S, A> {
    pub segment: Option<S>,
    pub is_atomic_segment: Option<A>,
}

impl<S, A> Default for WordNavigationOptions<S, A> {
    fn default() -> (o: Self)
        ensures
            o.segment is None,
            o.is_atomic_segment is None,
    {
        WordNavigationOptions { segment: None, is_atomic_segment: None }
    }
}

/// The views of a list of segments.
pub open spec fn seg_views(v: Seq<WordSegment>) -> Seq<(Seq<char>, bool)> {
    v.map_values(|s: WordSegment| s@)
}

/// The texts of segments, concatenated.
pub open spec fn seg_text(segs: Seq<(Seq<char>, bool)>) -> Seq<char>
    decreases segs.len(),
{
    if segs.len() == 0 {
        seq![]
    } else {
        seg_text(segs.drop_last()) + segs.last().0
    }
}

/// Bytes of the segments from index `a` up to (not including) `b`.
pub open spec fn bytes_of(segs: Seq<(Seq<char>, bool)>, a: int, b: int) -> nat
    decreases b - a,
{
    if a >= b {
        0
    } else {
        bytes_of(segs, a, b - 1) + byte_len(segs[b - 1].0)
    }
}

/// `. , ; : ! ? ( ) [ ] { } < > ' " + - * / \ | & % $ # @ ~ ` ^ =`
pub open spec fn punctuation(c: char) -> bool {
    c == '.' || c == ',' || c == ';' || c == ':' || c == '!' || c == '?' || c == '(' || c == ')'
        || c == '[' || c == ']' || c == '{' || c == '}' || c == '<' || c == '>' || c == '\''
        || c == '"' || c == '+' || c == '-' || c == '*' || c == '/' || c == '\\' || c == '|'
        || c == '&' || c == '%' || c == '$' || c == '#' || c == '@' || c == '~' || c == '`'
        || c == '^' || c == '='
}

/// Whether `c` is one of the punctuation characters word movement stops at.
pub fn is_ascii_punctuation(c: char) -> (r: bool)
    ensures
        r == punctuation(c),
{
    c == '.' || c == ',' || c == ';' || c == ':' || c == '!' || c == '?' || c == '(' || c == ')'
        || c == '[' || c == ']' || c == '{' || c == '}' || c == '<' || c == '>' || c == '\''
        || c == '"' || c == '+' || c == '-' || c == '*' || c == '/' || c == '\\' || c == '|'
        || c == '&' || c == '%' || c == '$' || c == '#' || c == '@' || c == '~' || c == '`'
        || c == '^' || c == '='
}

/// A segment that is not a word and holds only whitespace.
pub open spec fn ws_seg(s: (Seq<char>, bool)) -> bool {
    !s.1 && forall|i: int| 0 <= i < s.0.len() ==> white_space(#[trigger] s.0[i])
}

/// A segment that is neither atomic, a word, nor whitespace.
pub open spec fn plain_seg(segs: Seq<(Seq<char>, bool)>, at: Seq<bool>, i: int) -> bool {
    !at[i] && !segs[i].1 && !ws_seg(segs[i])
}

/// Start of the run of non-atomic whitespace segments that ends at `n`.
pub open spec fn ws_run_back(segs: Seq<(Seq<char>, bool)>, at: Seq<bool>, n: int) -> int
    decreases n,
{
    if n > 0 && !at[n - 1] && ws_seg(segs[n - 1]) {
        ws_run_back(segs, at, n - 1)
    } else {
        n
    }
}

/// Start of the run of plain segments that ends at `n`.
pub open spec fn plain_run_back(segs: Seq<(Seq<char>, bool)>, at: Seq<bool>, n: int) -> int
    decreases n,
{
    if n > 0 && plain_seg(segs, at, n - 1) {
        plain_run_back(segs, at, n - 1)
    } else {
        n
    }
}

/// End of the run of non-atomic whitespace segments that starts at `i`.
pub open spec fn ws_run_fwd(segs: Seq<(Seq<char>, bool)>, at: Seq<bool>, i: int) -> int
    decreases segs.len() - i,
{
    if 0 <= i < segs.len() && !at[i] && ws_seg(segs[i]) {
        ws_run_fwd(segs, at, i + 1)
    } else {
        i
    }
}

/// End of the run of plain segments that starts at `i`.
pub open spec fn plain_run_fwd(segs: Seq<(Seq<char>, bool)>, at: Seq<bool>, i: int) -> int
    decreases segs.len() - i,
{
    if 0 <= i < segs.len() && plain_seg(segs, at, i) {
        plain_run_fwd(segs, at, i + 1)
    } else {
        i
    }
}

/// Index of the last punctuation character, or -1.
pub open spec fn last_punct(t: Seq<char>) -> int
    decreases t.len(),
{
    if t.len() == 0 {
        -1
    } else if punctuation(t.last()) {
        t.len() - 1
    } else {
        last_punct(t.drop_last())
    }
}

/// Index of the first punctuation character, or the length.
pub open spec fn first_punct(t: Seq<char>) -> int
    decreases t.len(),
{
    if t.len() == 0 {
        0
    } else if punctuation(t[0]) {
        0
    } else {
        1 + first_punct(t.drop_first())
    }
}

/// Where the cursor lands after one word backward from byte `cursor`, the
/// text before it being cut into `segs` (with `at` marking atomic ones):
/// trailing whitespace is skipped, then one atomic segment, the part of a
/// word after its last punctuation grapheme, or a run of punctuation.
pub open spec fn word_backward(segs: Seq<(Seq<char>, bool)>, at: Seq<bool>, cursor: int) -> int {
    let n = segs.len() as int;
    let t = ws_run_back(segs, at, n);
    let pos = cursor - bytes_of(segs, t, n);
    if n == 0 {
        0
    } else if t == 0 {
        pos
    } else if t - 1 == 0 && ws_seg(segs[0]) {
        pos
    } else if at[t - 1] {
        pos - byte_len(segs[t - 1].0)
    } else if segs[t - 1].1 {
        let w = segs[t - 1].0;
        let k = last_punct(w);
        if k >= 0 {
            pos - (byte_len(w) - (byte_len(w.take(k)) + byte_len(grapheme_clusters(w.skip(k))[0])))
        } else {
            pos - byte_len(w)
        }
    } else {
        pos - bytes_of(segs, plain_run_back(segs, at, t), t)
    }
}

/// Where the cursor lands after one word forward from byte `cursor`, the
/// text after it being cut into `segs`: leading whitespace is skipped, then
/// one atomic segment, a word up to and including its first punctuation,
/// or a run of punctuation.
pub open spec fn word_forward(segs: Seq<(Seq<char>, bool)>, at: Seq<bool>, cursor: int) -> int {
    let i = ws_run_fwd(segs, at, 0);
    let pos = cursor + bytes_of(segs, 0, i);
    if i >= segs.len() {
        pos
    } else if at[i] {
        pos + byte_len(segs[i].0)
    } else if segs[i].1 {
        let w = segs[i].0;
        let k = first_punct(w);
        if k < w.len() {
            pos + byte_len(w.take(k)) + 1
        } else {
            pos + byte_len(w)
        }
    } else {
        pos + bytes_of(segs, i, plain_run_fwd(segs, at, i))
    }
}

/// Hiragana, katakana, CJK unified ideographs and Hangul syllables.
pub open spec fn cjk(c: char) -> bool {
    (0x4E00 <= (c as u32) && (c as u32) <= 0x9FFF) || (0x3040 <= (c as u32) && (c as u32) <= 0x309F)
        || (0x30A0 <= (c as u32) && (c as u32) <= 0x30FF) || (0xAC00 <= (c as u32) && (c as u32)
        <= 0xD7AF)
}

/// A grapheme with an alphanumeric or CJK character belongs to a word.
pub open spec fn word_grapheme(g: Seq<char>) -> bool {
    exists|i: int| 0 <= i < g.len() && (alphanumeric(g[i]) || cjk(g[i]))
}

/// A grapheme that is not part of a word and holds only whitespace.
pub open spec fn ws_grapheme(g: Seq<char>) -> bool {
    !word_grapheme(g) && forall|i: int| 0 <= i < g.len() ==> white_space(#[trigger] g[i])
}

/// Two graphemes of one kind: both word, both whitespace, or both neither
/// (punctuation and other symbols).
pub open spec fn same_kind(a: Seq<char>, b: Seq<char>) -> bool {
    word_grapheme(a) == word_grapheme(b) && ws_grapheme(a) == ws_grapheme(b)
}

/// Graphemes grouped into maximal runs of one kind: word graphemes,
/// whitespace, and the rest, so that whitespace never joins punctuation.
pub open spec fn runs(gs: Seq<Seq<char>>) -> Seq<(Seq<char>, bool)>
    decreases gs.len(),
{
    if gs.len() == 0 {
        seq![]
    } else {
        let prev = runs(gs.drop_last());
        let g = gs.last();
        let w = word_grapheme(g);
        if gs.len() > 1 && same_kind(gs[gs.len() - 2], g) {
            prev.drop_last().push((prev.last().0 + g, w))
        } else {
            prev.push((g, w))
        }
    }
}

proof fn lemma_runs_nonempty(gs: Seq<Seq<char>>)
    ensures
        gs.len() > 0 ==> runs(gs).len() > 0,
        gs.len() == 0 ==> runs(gs).len() == 0,
    decreases gs.len(),
{
    if gs.len() > 0 {
        lemma_runs_nonempty(gs.drop_last());
    }
}

/// The default segmentation of a text.
pub open spec fn default_segments(text: Seq<char>) -> Seq<(Seq<char>, bool)> {
    runs(grapheme_clusters(text))
}

/// Number of leading characters whose bytes add up to at most `b`.
pub open spec fn chars_within(s: Seq<char>, b: int) -> int
    decreases s.len(),
{
    if s.len() == 0 || utf8_width(s[0]) > b {
        0
    } else {
        1 + chars_within(s.drop_first(), b - utf8_width(s[0]))
    }
}

/// The characters before byte offset `b`.
pub open spec fn prefix_bytes(s: Seq<char>, b: int) -> Seq<char> {
    s.take(chars_within(s, b))
}

/// The characters from byte offset `b` on.
pub open spec fn suffix_bytes(s: Seq<char>, b: int) -> Seq<char> {
    s.skip(chars_within(s, b))
}

/// Byte offset `b` falls between two characters of `s` (or at an end).
pub open spec fn char_boundary(s: Seq<char>, b: int) -> bool {
    byte_len(prefix_bytes(s, b)) == b
}

/// No segment is atomic.
pub open spec fn none_atomic(n: nat) -> Seq<bool> {
    Seq::new(n, |i: int| false)
}

/// One word backward from byte `cursor` with the default segmentation.
pub open spec fn default_word_backward(text: Seq<char>, cursor: int) -> int {
    if cursor <= 0 {
        0
    } else {
        let c = if cursor < byte_len(text) { cursor } else { byte_len(text) as int };
        let segs = default_segments(prefix_bytes(text, c));
        word_backward(segs, none_atomic(segs.len()), c)
    }
}

/// One word forward from byte `cursor` with the default segmentation.
pub open spec fn default_word_forward(text: Seq<char>, cursor: int) -> int {
    if cursor >= byte_len(text) {
        byte_len(text) as int
    } else {
        let segs = default_segments(suffix_bytes(text, cursor));
        word_forward(segs, none_atomic(segs.len()), cursor)
    }
}

proof fn lemma_bytes_split(segs: Seq<(Seq<char>, bool)>, a: int, b: int, c: int)
    requires
        a <= b <= c,
    ensures
        bytes_of(segs, a, c) == bytes_of(segs, a, b) + bytes_of(segs, b, c),
    decreases c - b,
{
    if b < c {
        lemma_bytes_split(segs, a, b, c - 1);
    }
}

pub proof fn lemma_seg_text_bytes(segs: Seq<(Seq<char>, bool)>)
    ensures
        byte_len(seg_text(segs)) == bytes_of(segs, 0, segs.len() as int),
    decreases segs.len(),
{
    if segs.len() > 0 {
        lemma_seg_text_bytes(segs.drop_last());
        lemma_byte_len_concat(seg_text(segs.drop_last()), segs.last().0);
        lemma_bytes_prefix(segs, 0, segs.len() - 1);
    }
}

proof fn lemma_bytes_prefix(segs: Seq<(Seq<char>, bool)>, a: int, b: int)
    requires
        0 <= a <= b <= segs.len() - 1,
    ensures
        bytes_of(segs.drop_last(), a, b) == bytes_of(segs, a, b),
    decreases b - a,
{
    if a < b {
        lemma_bytes_prefix(segs, a, b - 1);
    }
}

proof fn lemma_runs_text(gs: Seq<Seq<char>>)
    ensures
        seg_text(runs(gs)) == gs.flatten_alt(),
    decreases gs.len(),
{
    if gs.len() > 0 {
        lemma_runs_text(gs.drop_last());
        lemma_runs_nonempty(gs.drop_last());
        let prev = runs(gs.drop_last());
        let g = gs.last();
        let w = word_grapheme(g);
        if gs.len() > 1 && same_kind(gs[gs.len() - 2], g) {
            let r = prev.drop_last().push((prev.last().0 + g, w));
            assert(r.drop_last() =~= prev.drop_last());
            assert(seg_text(prev) == seg_text(prev.drop_last()) + prev.last().0);
            assert(seg_text(r) =~= seg_text(prev) + g);
        } else {
            let r = prev.push((g, w));
            assert(r.drop_last() =~= prev);
        }
    }
}

/// Whether a grapheme belongs to a word.
fn is_word_grapheme(g: &[char]) -> (r: bool)
    ensures
        r == word_grapheme(g@),
{
    let mut i: usize = 0;
    while i < g.len()
        invariant
            0 <= i <= g.len(),
            forall|j: int| 0 <= j < i ==> !(alphanumeric(g@[j]) || cjk(g@[j])),
        decreases g.len() - i,
    {
        let c = g[i];
        let u = c as u32;
        if is_alphanumeric(c) || (0x4E00 <= u && u <= 0x9FFF) || (0x3040 <= u && u <= 0x309F) || (0x30A0
            <= u && u <= 0x30FF) || (0xAC00 <= u && u <= 0xD7AF) {
            return true;
        }
        i = i + 1;
    }
    false
}

/// Whether a grapheme holds only whitespace and no word character.
fn is_ws_grapheme(g: &[char]) -> (r: bool)
    ensures
        r == ws_grapheme(g@),
{
    if is_word_grapheme(g) {
        return false;
    }
    let mut i: usize = 0;
    while i < g.len()
        invariant
            0 <= i <= g.len(),
            forall|j: int| 0 <= j < i ==> white_space(#[trigger] g@[j]),
        decreases g.len() - i,
    {
        if !is_whitespace(g[i]) {
            return false;
        }
        i = i + 1;
    }
    true
}

/// The default segmentation: maximal runs of word graphemes, of whitespace
/// graphemes, and of the others.
pub fn default_segment(text: &[char]) -> (segs: Vec<WordSegment>)
    ensures
        seg_views(segs@) == default_segments(text@),
        seg_text(seg_views(segs@)) == text@,
{
    let gs = graphemes(text);
    let ghost gv = views(gs@);
    let mut segs: Vec<WordSegment> = Vec::new();
    let mut prev_word = false;
    let mut prev_ws = false;
    let mut i: usize = 0;
    while i < gs.len()
        invariant
            0 <= i <= gs.len(),
            gv == views(gs@),
            seg_views(segs@) == runs(gv.take(i as int)),
            i > 0 ==> prev_word == word_grapheme(gv[i - 1]) && prev_ws == ws_grapheme(gv[i - 1]),
        decreases gs.len() - i,
    {
        let g = &gs[i];
        assert(g@ == gv[i as int]);
        let w = is_word_grapheme(g);
        let ws = is_ws_grapheme(g);
        let ghost prev = seg_views(segs@);
        assert(gv.take(i + 1).drop_last() =~= gv.take(i as int));
        assert(gv.take(i + 1).last() == gv[i as int]);
        proof {
            lemma_runs_nonempty(gv.take(i as int));
            if i > 0 {
                assert(gv.take(i + 1)[i - 1] == gv[i - 1]);
            }
        }
        if i > 0 && prev_word == w && prev_ws == ws {
            let last = segs.pop().unwrap();
            assert(seg_views(segs@) =~= prev.drop_last());
            let mut t = last.text;
            crate::tui::strs::push_chars(&mut t, g);
            segs.push(WordSegment { text: t, is_word: w });
            assert(seg_views(segs@) =~= prev.drop_last().push((prev.last().0 + gv[i as int], w)));
        } else {
            segs.push(WordSegment { text: string_from_chars(g), is_word: w });
            assert(seg_views(segs@) =~= prev.push((gv[i as int], w)));
        }
        prev_word = w;
        prev_ws = ws;
        i = i + 1;
    }
    assert(gv.take(gs.len() as int) =~= gv);
    proof {
        lemma_runs_text(gv);
        gv.lemma_flatten_and_flatten_alt_are_equivalent();
    }
    segs
}

/// The segment is whitespace and not a word.
fn is_whitespace_segment(seg: &WordSegment) -> (r: bool)
    ensures
        r == ws_seg(seg@),
{
    if seg.is_word {
        return false;
    }
    let cs = str_chars(seg.text.as_str());
    let mut i: usize = 0;
    while i < cs.len()
        invariant
            0 <= i <= cs.len(),
            cs@ == seg.text@,
            forall|j: int| 0 <= j < i ==> white_space(#[trigger] cs@[j]),
        decreases cs.len() - i,
    {
        if !is_whitespace(cs[i]) {
            assert(!white_space(seg@.0[i as int]));
            return false;
        }
        i = i + 1;
    }
    true
}

/// Index of the last punctuation character.
fn find_last_punct(t: &[char]) -> (r: Option<usize>)
    ensures
        match r {
            Some(k) => k as int == last_punct(t@) && k < t.len(),
            None => last_punct(t@) < 0,
        },
{
    let mut i: usize = t.len();
    assert(t@.take(t.len() as int) =~= t@);
    while i > 0
        invariant
            0 <= i <= t.len(),
            last_punct(t@) == last_punct(t@.take(i as int)),
        decreases i,
    {
        assert(t@.take(i as int).drop_last() =~= t@.take(i - 1));
        if is_ascii_punctuation(t[i - 1]) {
            return Some(i - 1);
        }
        i = i - 1;
    }
    None
}

/// Index of the first punctuation character, or the length.
fn find_first_punct(t: &[char]) -> (k: usize)
    ensures
        k as int == first_punct(t@),
        k <= t.len(),
        k < t.len() ==> punctuation(t@[k as int]),
{
    let mut i: usize = 0;
    assert(t@.skip(0) =~= t@);
    while i < t.len()
        invariant
            0 <= i <= t.len(),
            first_punct(t@) == i + first_punct(t@.skip(i as int)),
        decreases t.len() - i,
    {
        assert(t@.skip(i as int).drop_first() =~= t@.skip(i + 1));
        if is_ascii_punctuation(t[i]) {
            return i;
        }
        i = i + 1;
    }
    i
}

/// One word backward from byte `cursor`, given the segments of the text
/// before the cursor (their bytes add up to `cursor`) and which of them are
/// atomic.
pub fn find_word_backward_in(segments: &[WordSegment], atomic: &[bool], cursor: usize) -> (r: usize)
    requires
        atomic.len() == segments.len(),
        bytes_of(seg_views(segments@), 0, segments.len() as int) == cursor,
    ensures
        r == word_backward(seg_views(segments@), atomic@, cursor as int),
        r <= cursor,
{
    let ghost sv = seg_views(segments@);
    let n = segments.len();
    if n == 0 {
        return 0;
    }
    proof {
        lemma_bytes_split(sv, 0, n as int, n as int);
    }
    let mut pos = cursor;
    let mut i = n;
    while i > 0 && !atomic[i - 1] && is_whitespace_segment(&segments[i - 1])
        invariant
            0 <= i <= n,
            n == segments.len(),
            n == atomic.len(),
            sv == seg_views(segments@),
            bytes_of(sv, 0, n as int) == cursor,
            pos == bytes_of(sv, 0, i as int),
            ws_run_back(sv, atomic@, n as int) == ws_run_back(sv, atomic@, i as int),
        decreases i,
    {
        assert(sv[i - 1] == segments@[i - 1]@);
        let l = segments[i - 1].len();
        pos = pos - l;
        i = i - 1;
    }
    proof {
        if i > 0 {
            assert(sv[i - 1] == segments@[i - 1]@);
        }
        lemma_bytes_split(sv, 0, i as int, n as int);
    }
    if i == 0 {
        return pos;
    }
    let k = i - 1;
    assert(sv[k as int] == segments@[k as int]@);
    if k == 0 && is_whitespace_segment(&segments[0]) {
        return pos;
    }
    let seg_len = segments[k].len();
    if atomic[k] {
        return pos - seg_len;
    }
    if segments[k].is_word {
        let w = str_chars(segments[k].text.as_str());
        match find_last_punct(&w) {
            Some(p) => {
                let before = sub_chars(&w, 0, p);
                let suffix = sub_chars(&w, p, w.len());
                let gs = graphemes(&suffix);
                proof {
                    assert(w@.take(p as int) + w@.skip(p as int) =~= w@);
                    lemma_byte_len_concat(w@.take(p as int), w@.skip(p as int));
                    assert(suffix@ =~= w@.skip(p as int));
                    if gs.len() == 0 {
                        assert(views(gs@).flatten() =~= Seq::<char>::empty());
                    }
                    assert(views(gs@).flatten() == views(gs@)[0] + views(gs@).drop_first().flatten());
                    lemma_byte_len_concat(views(gs@)[0], views(gs@).drop_first().flatten());
                    assert(gs@[0]@ == views(gs@)[0]);
                }
                let g0 = chars_byte_len(&gs[0]);
                let b = chars_byte_len(&before);
                assert(before@ =~= w@.take(p as int));
                return pos - (seg_len - (b + g0));
            },
            None => {
                return pos - seg_len;
            },
        }
    }
    pos = pos - seg_len;
    let mut j = k;
    assert(plain_seg(sv, atomic@, k as int));
    while j > 0 && !atomic[j - 1] && !segments[j - 1].is_word && !is_whitespace_segment(&segments[j - 1])
        invariant
            0 <= j <= k,
            k < n,
            n == segments.len(),
            n == atomic.len(),
            sv == seg_views(segments@),
            pos == bytes_of(sv, 0, j as int),
            plain_run_back(sv, atomic@, k + 1) == plain_run_back(sv, atomic@, j as int),
        decreases j,
    {
        assert(sv[j - 1] == segments@[j - 1]@);
        let l = segments[j - 1].len();
        pos = pos - l;
        j = j - 1;
    }
    proof {
        if j > 0 {
            assert(sv[j - 1] == segments@[j - 1]@);
        }
        lemma_bytes_split(sv, 0, j as int, k + 1);
    }
    pos
}

/// One word forward from byte `cursor`, given the segments of the text
/// after the cursor and which of them are atomic.
pub fn find_word_forward_in(segments: &[WordSegment], atomic: &[bool], cursor: usize) -> (r: usize)
    requires
        atomic.len() == segments.len(),
        cursor + bytes_of(seg_views(segments@), 0, segments.len() as int) <= usize::MAX,
    ensures
        r == word_forward(seg_views(segments@), atomic@, cursor as int),
        cursor <= r <= cursor + bytes_of(seg_views(segments@), 0, segments.len() as int),
{
    let ghost sv = seg_views(segments@);
    let n = segments.len();
    let mut pos = cursor;
    let mut i: usize = 0;
    while i < n && !atomic[i] && is_whitespace_segment(&segments[i])
        invariant
            0 <= i <= n,
            n == segments.len(),
            n == atomic.len(),
            sv == seg_views(segments@),
            cursor + bytes_of(sv, 0, n as int) <= usize::MAX,
            pos == cursor + bytes_of(sv, 0, i as int),
            ws_run_fwd(sv, atomic@, 0) == ws_run_fwd(sv, atomic@, i as int),
        decreases n - i,
    {
        assert(sv[i as int] == segments@[i as int]@);
        proof {
            lemma_bytes_split(sv, 0, i + 1, n as int);
        }
        let l = segments[i].len();
        pos = pos + l;
        i = i + 1;
    }
    proof {
        if i < n {
            assert(sv[i as int] == segments@[i as int]@);
        }
        lemma_bytes_split(sv, 0, i as int, n as int);
    }
    if i >= n {
        return pos;
    }
    proof {
        lemma_bytes_split(sv, 0, i + 1, n as int);
    }
    let seg_len = segments[i].len();
    if atomic[i] {
        return pos + seg_len;
    }
    if segments[i].is_word {
        let w = str_chars(segments[i].text.as_str());
        let k = find_first_punct(&w);
        if k < w.len() {
            let before = sub_chars(&w, 0, k);
            assert(before@ =~= w@.take(k as int));
            proof {
                lemma_byte_len_take(w@, k as int);
                crate::tui::strs::lemma_byte_len_prefix_le(w@, k + 1);
            }
            let b = chars_byte_len(&before);
            return pos + b + 1;
        } else {
            return pos + seg_len;
        }
    }
    let mut j = i;
    while j < n && !atomic[j] && !segments[j].is_word && !is_whitespace_segment(&segments[j])
        invariant
            i <= j <= n,
            n == segments.len(),
            n == atomic.len(),
            sv == seg_views(segments@),
            cursor + bytes_of(sv, 0, n as int) <= usize::MAX,
            pos == cursor + bytes_of(sv, 0, j as int),
            plain_run_fwd(sv, atomic@, i as int) == plain_run_fwd(sv, atomic@, j as int),
        decreases n - j,
    {
        assert(sv[j as int] == segments@[j as int]@);
        proof {
            lemma_bytes_split(sv, 0, j + 1, n as int);
        }
        let l = segments[j].len();
        pos = pos + l;
        j = j + 1;
    }
    proof {
        if j < n {
            assert(sv[j as int] == segments@[j as int]@);
        }
        lemma_bytes_split(sv, 0, i as int, j as int);
        lemma_bytes_split(sv, 0, j as int, n as int);
    }
    pos
}

/// Number of leading characters of `s` that fit in `b` bytes.
pub fn count_chars_within(s: &[char], b: usize) -> (k: usize)
    ensures
        k as int == chars_within(s@, b as int),
        k <= s.len(),
        byte_len(s@.take(k as int)) <= b,
{
    let mut k: usize = 0;
    let mut left: usize = b;
    assert(s@.skip(0) =~= s@);
    assert(s@.take(0) =~= Seq::<char>::empty());
    while k < s.len()
        invariant
            0 <= k <= s.len(),
            left + byte_len(s@.take(k as int)) == b,
            chars_within(s@, b as int) == k + chars_within(s@.skip(k as int), left as int),
        decreases s.len() - k,
    {
        let w = crate::tui::strs::char_utf8_len(s[k]);
        assert(s@.skip(k as int)[0] == s@[k as int]);
        if w > left {
            return k;
        }
        assert(s@.skip(k as int).drop_first() =~= s@.skip(k + 1));
        proof {
            lemma_byte_len_take(s@, k as int);
        }
        left = left - w;
        k = k + 1;
    }
    k
}

/// The number of segments that are not atomic: all flags false.
fn no_atomic(n: usize) -> (v: Vec<bool>)
    ensures
        v@ == none_atomic(n as nat),
{
    let mut v: Vec<bool> = Vec::new();
    let mut i: usize = 0;
    while i < n
        invariant
            0 <= i <= n,
            v@ =~= none_atomic(i as nat),
        decreases n - i,
    {
        v.push(false);
        i = i + 1;
    }
    v
}

/// Find the cursor position after moving one word backward from byte
/// offset `cursor` in `text`: trailing whitespace is skipped, then one word
/// (stopping after its last punctuation) or one run of punctuation.
pub fn find_word_backward(text: &str, cursor: usize) -> (r: usize)
    requires
        cursor >= byte_len(text@) || char_boundary(text@, cursor as int),
    ensures
        r == default_word_backward(text@, cursor as int),
{
    if cursor == 0 {
        return 0;
    }
    let total = str_byte_len(text);
    let c = if cursor < total { cursor } else { total };
    let cs = str_chars(text);
    let k = count_chars_within(&cs, c);
    let prefix = sub_chars(&cs, 0, k);
    assert(prefix@ =~= prefix_bytes(text@, c as int));
    proof {
        if cursor >= total {
            crate::tui::strs::lemma_byte_len_ge_len(text@);
            lemma_chars_within_all(text@);
            assert(text@.take(text@.len() as int) =~= text@);
        }
    }
    let segs = default_segment(&prefix);
    let at = no_atomic(segs.len());
    proof {
        lemma_seg_text_bytes(seg_views(segs@));
    }
    find_word_backward_in(&segs, &at, c)
}

/// Find the cursor position after moving one word forward from byte offset
/// `cursor` in `text`: leading whitespace is skipped, then one word
/// (stopping after its first punctuation) or one run of punctuation.
pub fn find_word_forward(text: &str, cursor: usize) -> (r: usize)
    requires
        cursor >= byte_len(text@) || char_boundary(text@, cursor as int),
    ensures
        r == default_word_forward(text@, cursor as int),
{
    let total = str_byte_len(text);
    if cursor >= total {
        return total;
    }
    let cs = str_chars(text);
    let k = count_chars_within(&cs, cursor);
    let suffix = sub_chars(&cs, k, cs.len());
    assert(suffix@ =~= suffix_bytes(text@, cursor as int));
    let segs = default_segment(&suffix);
    let at = no_atomic(segs.len());
    proof {
        lemma_seg_text_bytes(seg_views(segs@));
        assert(cs@.take(k as int) + cs@.skip(k as int) =~= cs@);
        lemma_byte_len_concat(cs@.take(k as int), cs@.skip(k as int));
    }
    find_word_forward_in(&segs, &at, cursor)
}

proof fn lemma_chars_within_all(s: Seq<char>)
    ensures
        chars_within(s, byte_len(s) as int) == s.len(),
    decreases s.len(),
{
    if s.len() > 0 {
        lemma_byte_len_first(s);
        lemma_chars_within_all(s.drop_first());
    }
}

proof fn lemma_byte_len_first(s: Seq<char>)
    requires
        s.len() > 0,
    ensures
        byte_len(s) == utf8_width(s[0]) + byte_len(s.drop_first()),
{
    assert(seq![s[0]] + s.drop_first() =~= s);
    lemma_byte_len_concat(seq![s[0]], s.drop_first());
    let one = seq![s[0]];
    assert(one.drop_last() =~= Seq::<char>::empty());
    assert(byte_len(Seq::<char>::empty()) == 0);
    assert(one.last() == s[0]);
    assert(byte_len(one) == byte_len(one.drop_last()) + utf8_width(one.last()));
}

/// The segmenter can be called on any text, and its segments concatenate
/// back to that text.
pub open spec fn segmenter_ok<S: Fn(&str) -> Vec<WordSegment>>(f: S) -> bool {
    &&& forall|t: &str| call_requires(f, (t,))
    &&& forall|t: &str, v: Vec<WordSegment>| call_ensures(f, (t,), v) ==> seg_text(seg_views(v@)) == t@
}

/// The atomic-segment predicate can be called on any text.
pub open spec fn predicate_ok<A: Fn(&str) -> bool>(g: A) -> bool {
    forall|t: &str| call_requires(g, (t,))
}

fn segments_of<S, A>(t: &str, options: &WordNavigationOptions<S, A>) -> (r: (Vec<WordSegment>, Vec<bool>))
    where
        S: Fn(&str) -> Vec<WordSegment>,
        A: Fn(&str) -> bool,
    requires
        options.segment matches Some(f) ==> segmenter_ok(f),
        options.is_atomic_segment matches Some(g) ==> predicate_ok(g),
    ensures
        seg_text(seg_views(r.0@)) == t@,
        r.1.len() == r.0.len(),
        options.segment is None ==> seg_views(r.0@) == default_segments(t@),
        options.is_atomic_segment is None ==> r.1@ == none_atomic(r.0.len() as nat),
{
    let segs = match &options.segment {
        Some(f) => f(t),
        None => {
            let cs = str_chars(t);
            default_segment(&cs)
        },
    };
    let mut at: Vec<bool> = Vec::new();
    let mut i: usize = 0;
    while i < segs.len()
        invariant
            0 <= i <= segs.len(),
            at.len() == i,
            options.is_atomic_segment matches Some(g) ==> predicate_ok(g),
            options.is_atomic_segment is None ==> at@ =~= none_atomic(i as nat),
        decreases segs.len() - i,
    {
        let a = match &options.is_atomic_segment {
            Some(g) => g(segs[i].text.as_str()),
            None => false,
        };
        at.push(a);
        i = i + 1;
    }
    (segs, at)
}

/// One word backward with custom segmentation and atomic segments.
pub fn find_word_backward_with<S, A>(text: &str, cursor: usize, options: &WordNavigationOptions<S, A>) -> (r: usize)
    where
        S: Fn(&str) -> Vec<WordSegment>,
        A: Fn(&str) -> bool,
    requires
        cursor >= byte_len(text@) || char_boundary(text@, cursor as int),
        options.segment matches Some(f) ==> segmenter_ok(f),
        options.is_atomic_segment matches Some(g) ==> predicate_ok(g),
    ensures
        r <= cursor,
        options.segment is None && options.is_atomic_segment is None ==> r == default_word_backward(
            text@,
            cursor as int,
        ),
{
    if cursor == 0 {
        return 0;
    }
    let total = str_byte_len(text);
    let c = if cursor < total { cursor } else { total };
    let cs = str_chars(text);
    let k = count_chars_within(&cs, c);
    let prefix = text.substring_char(0, k);
    assert(prefix@ =~= prefix_bytes(text@, c as int));
    proof {
        if cursor >= total {
            crate::tui::strs::lemma_byte_len_ge_len(text@);
            lemma_chars_within_all(text@);
            assert(text@.take(text@.len() as int) =~= text@);
        }
    }
    let (segs, at) = segments_of(prefix, options);
    proof {
        lemma_seg_text_bytes(seg_views(segs@));
    }
    find_word_backward_in(&segs, &at, c)
}

/// One word forward with custom segmentation and atomic segments.
pub fn find_word_forward_with<S, A>(text: &str, cursor: usize, options: &WordNavigationOptions<S, A>) -> (r: usize)
    where
        S: Fn(&str) -> Vec<WordSegment>,
        A: Fn(&str) -> bool,
    requires
        cursor >= byte_len(text@) || char_boundary(text@, cursor as int),
        options.segment matches Some(f) ==> segmenter_ok(f),
        options.is_atomic_segment matches Some(g) ==> predicate_ok(g),
    ensures
        cursor <= byte_len(text@) ==> cursor <= r <= byte_len(text@),
        options.segment is None && options.is_atomic_segment is None ==> r == default_word_forward(
            text@,
            cursor as int,
        ),
{
    let total = str_byte_len(text);
    if cursor >= total {
        return total;
    }
    let cs = str_chars(text);
    let k = count_chars_within(&cs, cursor);
    let suffix = text.substring_char(k, cs.len());
    assert(suffix@ =~= suffix_bytes(text@, cursor as int));
    let (segs, at) = segments_of(suffix, options);
    proof {
        lemma_seg_text_bytes(seg_views(segs@));
        assert(cs@.take(k as int) + cs@.skip(k as int) =~= cs@);
        lemma_byte_len_concat(cs@.take(k as int), cs@.skip(k as int));
    }
    find_word_forward_in(&segs, &at, cursor)
}

} // verus!
