//! The SGR (Select Graphic Rendition) state that word wrapping carries from
//! one visual line to the next: bold, underline and the colours.
use crate::tui::strs::{push_chars, sub_chars};
use crate::tui::unicode::views;
use crate::tui::util::{ansi_len_at, esc, extract_ansi_code_at, lemma_ansi_len_bounds};
use vstd::prelude::*;

verus! {

broadcast use vstd::seq_lib::group_seq_properties;

/// The rendition state as values.
pub struct SgrState {
    pub bold: bool,
    pub underline: bool,
    pub fg: Option<Seq<char>>,
    pub bg: Option<Seq<char>>,
}

/// Nothing set.
pub open spec fn sgr_reset() -> SgrState {
    SgrState { bold: false, underline: false, fg: None, bg: None }
}

/// Value of a string of ASCII digits.
pub open spec fn decimal_value(d: Seq<char>) -> nat
    decreases d.len(),
{
    if d.len() == 0 {
        0
    } else {
        decimal_value(d.drop_last()) * 10 + ((d.last() as u32) - 48) as nat
    }
}

/// Every character is an ASCII digit.
pub open spec fn all_digits(d: Seq<char>) -> bool {
    forall|i: int| 0 <= i < d.len() ==> '0' <= #[trigger] d[i] && d[i] <= '9'
}

/// The digits part of a number: without one leading `+`.
pub open spec fn digits_part(s: Seq<char>) -> Seq<char> {
    if s.len() > 0 && s[0] == '+' {
        s.drop_first()
    } else {
        s
    }
}

/// `str::parse::<u8>`: an optional `+` and then decimal digits of a value up to 255.
pub open spec fn parse_u8(s: Seq<char>) -> Option<u8> {
    let d = digits_part(s);
    if d.len() == 0 || !all_digits(d) || decimal_value(d) > 255 {
        None
    } else {
        Some(decimal_value(d) as u8)
    }
}

/// The decimal digit character for `d < 10`.
pub open spec fn digit_char(d: int) -> char {
    (48 + d) as char
}

/// Decimal representation of a byte (`u8::to_string`).
pub open spec fn u8_decimal(n: u8) -> Seq<char> {
    let v = n as int;
    if v >= 100 {
        seq![digit_char(v / 100), digit_char((v / 10) % 10), digit_char(v % 10)]
    } else if v >= 10 {
        seq![digit_char(v / 10), digit_char(v % 10)]
    } else {
        seq![digit_char(n as int)]
    }
}

/// Index of the first `c` in `s`, or `s.len()`.
pub open spec fn first_index_of(s: Seq<char>, c: char) -> int
    decreases s.len(),
{
    if s.len() == 0 {
        0
    } else if s[0] == c {
        0
    } else {
        1 + first_index_of(s.drop_first(), c)
    }
}

/// `str::split(c)`: the pieces between occurrences of `c`.
pub open spec fn split_on(s: Seq<char>, c: char) -> Seq<Seq<char>>
    decreases s.len(),
{
    let k = first_index_of(s, c);
    if k >= s.len() || k < 0 {
        seq![s]
    } else {
        seq![s.take(k)] + split_on(s.skip(k + 1), c)
    }
}

/// The pieces joined with `;`.
pub open spec fn join_semi(ps: Seq<Seq<char>>) -> Seq<char>
    decreases ps.len(),
{
    if ps.len() == 0 {
        seq![]
    } else if ps.len() == 1 {
        ps[0]
    } else {
        join_semi(ps.drop_last()) + seq![';'] + ps.last()
    }
}

/// The parameters of one SGR sequence applied from index `i` on.
pub open spec fn sgr_params(st: SgrState, ps: Seq<Seq<char>>, i: int) -> SgrState
    decreases ps.len() - i,
{
    if i < 0 || i >= ps.len() {
        st
    } else {
        match parse_u8(ps[i]) {
            None => sgr_params(st, ps, i + 1),
            Some(v) => {
                if v == 0 {
                    sgr_params(sgr_reset(), ps, i + 1)
                } else if v == 1 {
                    sgr_params(SgrState { bold: true, ..st }, ps, i + 1)
                } else if v == 4 {
                    sgr_params(SgrState { underline: true, ..st }, ps, i + 1)
                } else if v == 22 {
                    sgr_params(SgrState { bold: false, ..st }, ps, i + 1)
                } else if v == 24 {
                    sgr_params(SgrState { underline: false, ..st }, ps, i + 1)
                } else if (30 <= v && v <= 37) || (90 <= v && v <= 97) {
                    sgr_params(SgrState { fg: Some(u8_decimal(v)), ..st }, ps, i + 1)
                } else if (40 <= v && v <= 47) || (100 <= v && v <= 107) {
                    sgr_params(SgrState { bg: Some(u8_decimal(v)), ..st }, ps, i + 1)
                } else if v == 38 || v == 48 {
                    let ext = if i + 1 < ps.len() && ps[i + 1] == seq!['5'] && i + 2 < ps.len() {
                        3int
                    } else if i + 1 < ps.len() && ps[i + 1] == seq!['2'] && i + 4 < ps.len() {
                        5int
                    } else {
                        0int
                    };
                    if ext == 0 {
                        sgr_params(st, ps, i + 1)
                    } else if v == 38 {
                        sgr_params(
                            SgrState { fg: Some(join_semi(ps.subrange(i, i + ext))), ..st },
                            ps,
                            i + ext,
                        )
                    } else {
                        sgr_params(
                            SgrState { bg: Some(join_semi(ps.subrange(i, i + ext))), ..st },
                            ps,
                            i + ext,
                        )
                    }
                } else if v == 39 {
                    sgr_params(SgrState { fg: None, ..st }, ps, i + 1)
                } else if v == 49 {
                    sgr_params(SgrState { bg: None, ..st }, ps, i + 1)
                } else {
                    sgr_params(st, ps, i + 1)
                }
            },
        }
    }
}

/// The state after one escape sequence: only SGR sequences (`ESC [ ... m`)
/// act; an empty or `0` parameter list resets.
pub open spec fn sgr_apply(st: SgrState, code: Seq<char>) -> SgrState {
    if code.len() < 4 || code.last() != 'm' {
        st
    } else {
        let inner = code.subrange(2, code.len() - 1);
        if inner.len() == 0 || inner == seq!['0'] {
            sgr_reset()
        } else {
            sgr_params(st, split_on(inner, ';'), 0)
        }
    }
}

/// The state after the escape sequences of `s` from index `i` on.
pub open spec fn sgr_update_from(st: SgrState, s: Seq<char>, i: int) -> SgrState
    decreases s.len() - i,
{
    if i < 0 || i >= s.len() {
        st
    } else if s[i] == esc() && ansi_len_at(s, i) is Some {
        proof {
            lemma_ansi_len_bounds(s, i);
        }
        let n = ansi_len_at(s, i).unwrap();
        sgr_update_from(sgr_apply(st, s.subrange(i, i + n)), s, i + n)
    } else {
        sgr_update_from(st, s, i + 1)
    }
}

/// The parameter list of the codes that are set.
pub open spec fn sgr_codes(st: SgrState) -> Seq<Seq<char>> {
    (if st.bold {
        seq![seq!['1']]
    } else {
        seq![]
    }) + (if st.underline {
        seq![seq!['4']]
    } else {
        seq![]
    }) + (match st.fg {
        Some(f) => seq![f],
        None => seq![],
    }) + (match st.bg {
        Some(b) => seq![b],
        None => seq![],
    })
}

/// One SGR sequence that re-establishes the state, or nothing.
pub open spec fn sgr_active_codes(st: SgrState) -> Seq<char> {
    let codes = sgr_codes(st);
    if codes.len() == 0 {
        seq![]
    } else {
        seq![esc(), '['] + join_semi(codes) + seq!['m']
    }
}

/// At the end of a visual line only underline is closed (so backgrounds run on).
pub open spec fn sgr_line_end_reset(st: SgrState) -> Seq<char> {
    if st.underline {
        seq![esc(), '[', '2', '4', 'm']
    } else {
        seq![]
    }
}

/// Tracks bold, underline and colours across escape sequences.
pub struct AnsiState {
    pub bold: bool,
    pub underline: bool,
    pub fg_color: Option<Vec<char>>,
    pub bg_color: Option<Vec<char>>,
}

impl View for AnsiState {
    type V = SgrState;

    open spec fn view(&self) -> SgrState {
        SgrState {
            bold: self.bold,
            underline: self.underline,
            fg: match self.fg_color {
                Some(f) => Some(f@),
                None => None,
            },
            bg: match self.bg_color {
                Some(b) => Some(b@),
                None => None,
            },
        }
    }
}

/// Index of the first `c` in `s` (or its length).
fn find_char(s: &[char], c: char) -> (k: usize)
    ensures
        k == first_index_of(s@, c),
        k <= s.len(),
{
    let mut k: usize = 0;
    while k < s.len() && s[k] != c
        invariant
            0 <= k <= s.len(),
            first_index_of(s@, c) == k + first_index_of(s@.skip(k as int), c),
        decreases s.len() - k,
    {
        assert(s@.skip(k as int).drop_first() =~= s@.skip(k + 1));
        k = k + 1;
    }
    if k < s.len() {
        assert(s@.skip(k as int)[0] == c);
    } else {
        assert(s@.skip(k as int).len() == 0);
    }
    k
}

/// Index of the first `c` in `s` (or its length).
pub fn find_char_pub(s: &[char], c: char) -> (k: usize)
    ensures
        k == first_index_of(s@, c),
        k <= s.len(),
{
    find_char(s, c)
}

pub proof fn lemma_first_index_bound(s: Seq<char>, c: char)
    ensures
        0 <= first_index_of(s, c) <= s.len(),
        first_index_of(s, c) < s.len() ==> s[first_index_of(s, c)] == c,
    decreases s.len(),
{
    if s.len() > 0 && s[0] != c {
        lemma_first_index_bound(s.drop_first(), c);
    }
}

/// `str::split(c)` on characters.
pub fn split_chars(s: &[char], c: char) -> (ps: Vec<Vec<char>>)
    ensures
        views(ps@) == split_on(s@, c),
{
    let mut ps: Vec<Vec<char>> = Vec::new();
    let mut i: usize = 0;
    loop
        invariant
            0 <= i <= s.len(),
            views(ps@) + split_on(s@.skip(i as int), c) == split_on(s@, c),
        decreases s.len() - i,
    {
        let rest = sub_chars(s, i, s.len());
        assert(rest@ =~= s@.skip(i as int));
        let k = find_char(&rest, c);
        proof {
            lemma_first_index_bound(rest@, c);
        }
        let piece = sub_chars(&rest, 0, k);
        assert(piece@ =~= rest@.take(k as int));
        let ghost before = views(ps@);
        ps.push(piece);
        assert(views(ps@) =~= before.push(rest@.take(k as int)));
        if k >= rest.len() {
            assert(split_on(rest@, c) =~= seq![rest@]);
            assert(rest@.take(k as int) =~= rest@);
            assert(before + seq![rest@] =~= before.push(rest@));
            return ps;
        }
        assert(rest@.skip(k + 1) =~= s@.skip(i + k + 1));
        assert(before.push(rest@.take(k as int)) + split_on(s@.skip(i + k + 1), c) =~= before + (
        seq![rest@.take(k as int)] + split_on(rest@.skip(k + 1), c)));
        i = i + k + 1;
    }
}


pub proof fn lemma_decimal_prefix_le(d: Seq<char>, j: int)
    requires
        all_digits(d),
        0 <= j <= d.len(),
    ensures
        decimal_value(d.take(j)) <= decimal_value(d),
    decreases d.len() - j,
{
    if j < d.len() {
        lemma_decimal_prefix_le(d, j + 1);
        assert(d.take(j + 1).drop_last() =~= d.take(j));
        assert('0' <= d[j]);
    } else {
        assert(d.take(j) =~= d);
    }
}

/// `str::parse::<u8>` on characters.
pub fn parse_u8_chars(s: &[char]) -> (r: Option<u8>)
    ensures
        r == parse_u8(s@),
{
    let start: usize = if s.len() > 0 && s[0] == '+' {
        1
    } else {
        0
    };
    let d = sub_chars(s, start, s.len());
    assert(d@ =~= digits_part(s@));
    if d.len() == 0 {
        return None;
    }
    let mut k: usize = 0;
    while k < d.len()
        invariant
            0 <= k <= d.len(),
            d@ == digits_part(s@),
            forall|i: int| 0 <= i < k ==> '0' <= #[trigger] d@[i] && d@[i] <= '9',
        decreases d.len() - k,
    {
        if !('0' <= d[k] && d[k] <= '9') {
            assert(!all_digits(d@));
            return None;
        }
        k = k + 1;
    }
    let mut v: u32 = 0;
    let mut k: usize = 0;
    while k < d.len()
        invariant
            0 <= k <= d.len(),
            d@ == digits_part(s@),
            all_digits(d@),
            v == decimal_value(d@.take(k as int)),
            v <= 255,
        decreases d.len() - k,
    {
        assert(d@.take(k + 1).drop_last() =~= d@.take(k as int));
        let digit = (d[k] as u32) - 48;
        let nv = v * 10 + digit;
        assert(d@.take(k + 1).last() == d@[k as int]);
        assert(decimal_value(d@.take(k + 1)) == nv);
        if nv > 255 {
            proof {
                lemma_decimal_prefix_le(d@, k + 1);
            }
            assert(decimal_value(d@) > 255);
            return None;
        }
        v = nv;
        k = k + 1;
    }
    assert(d@.take(d.len() as int) =~= d@);
    Some(v as u8)
}

/// The digit character of `d < 10`.
fn digit_char_exec(d: u8) -> (c: char)
    requires
        d < 10,
    ensures
        c == digit_char(d as int),
{
    (48u8 + d) as char
}

/// `u8::to_string` as characters.
pub fn u8_to_decimal(n: u8) -> (r: Vec<char>)
    ensures
        r@ == u8_decimal(n),
{
    let mut r: Vec<char> = Vec::new();
    if n >= 100 {
        r.push(digit_char_exec(n / 100));
        r.push(digit_char_exec((n / 10) % 10));
        r.push(digit_char_exec(n % 10));
    } else if n >= 10 {
        r.push(digit_char_exec(n / 10));
        r.push(digit_char_exec(n % 10));
    } else {
        r.push(digit_char_exec(n));
    }
    assert(r@ =~= u8_decimal(n));
    r
}

/// The pieces `ps[a..b]` joined with `;`.
pub fn join_semi_range(ps: &Vec<Vec<char>>, a: usize, b: usize) -> (r: Vec<char>)
    requires
        a <= b <= ps.len(),
    ensures
        r@ == join_semi(views(ps@).subrange(a as int, b as int)),
{
    let mut r: Vec<char> = Vec::new();
    let mut k = a;
    while k < b
        invariant
            a <= k <= b <= ps.len(),
            r@ == join_semi(views(ps@).subrange(a as int, k as int)),
        decreases b - k,
    {
        let ghost prev = views(ps@).subrange(a as int, k as int);
        let ghost next = views(ps@).subrange(a as int, k + 1);
        assert(next.drop_last() =~= prev);
        assert(next.last() == ps@[k as int]@);
        if k > a {
            r.push(';');
        } else {
            assert(prev.len() == 0);
            assert(r@ =~= Seq::<char>::empty());
        }
        let mut j: usize = 0;
        let ghost before = r@;
        while j < ps[k].len()
            invariant
                0 <= j <= ps@[k as int]@.len(),
                a <= k < b <= ps.len(),
                r@ == before + ps@[k as int]@.take(j as int),
            decreases ps@[k as int]@.len() - j,
        {
            r.push(ps[k][j]);
            j = j + 1;
            assert(r@ =~= before + ps@[k as int]@.take(j as int));
        }
        assert(ps@[k as int]@.take(j as int) =~= ps@[k as int]@);
        k = k + 1;
        if k - 1 == a {
            assert(next.len() == 1);
            assert(r@ =~= next[0]);
        }
    }
    r
}

/// A fresh copy of a character vector.
fn copy_chars(v: &Vec<char>) -> (r: Vec<char>)
    ensures
        r@ == v@,
{
    sub_chars(v, 0, v.len())
}

/// Whether a piece is exactly the one character `c`.
fn is_single(p: &Vec<char>, c: char) -> (r: bool)
    ensures
        r == (p@ == seq![c]),
{
    let r = p.len() == 1 && p[0] == c;
    proof {
        if r {
            assert(p@ =~= seq![c]);
        }
    }
    r
}

impl AnsiState {
    /// Nothing set.
    pub fn new() -> (s: Self)
        ensures
            s@ == sgr_reset(),
    {
        AnsiState { bold: false, underline: false, fg_color: None, bg_color: None }
    }

    /// Applies the SGR parameters `ps[i..]`.
    fn apply_params(&mut self, ps: &Vec<Vec<char>>)
        ensures
            final(self)@ == sgr_params(old(self)@, views(ps@), 0),
    {
        let ghost all = views(ps@);
        let ghost target = sgr_params(self@, all, 0);
        let mut i: usize = 0;
        while i < ps.len()
            invariant
                0 <= i <= ps.len(),
                all == views(ps@),
                target == sgr_params(self@, all, i as int),
            decreases ps.len() - i,
        {
            assert(all[i as int] == ps@[i as int]@);
            match parse_u8_chars(&ps[i]) {
                None => {
                    i = i + 1;
                },
                Some(v) => {
                    if v == 0 {
                        self.bold = false;
                        self.underline = false;
                        self.fg_color = None;
                        self.bg_color = None;
                        i = i + 1;
                    } else if v == 1 {
                        self.bold = true;
                        i = i + 1;
                    } else if v == 4 {
                        self.underline = true;
                        i = i + 1;
                    } else if v == 22 {
                        self.bold = false;
                        i = i + 1;
                    } else if v == 24 {
                        self.underline = false;
                        i = i + 1;
                    } else if (30 <= v && v <= 37) || (90 <= v && v <= 97) {
                        self.fg_color = Some(u8_to_decimal(v));
                        i = i + 1;
                    } else if (40 <= v && v <= 47) || (100 <= v && v <= 107) {
                        self.bg_color = Some(u8_to_decimal(v));
                        i = i + 1;
                    } else if v == 38 || v == 48 {
                        let ext: usize = if ps.len() - i > 2 && is_single(&ps[i + 1], '5') {
                            3
                        } else if ps.len() - i > 4 && is_single(&ps[i + 1], '2') {
                            5
                        } else {
                            0
                        };
                        proof {
                            if i + 1 < ps.len() {
                                assert(all[i + 1] == ps@[i + 1]@);
                            }
                        }
                        if ext == 0 {
                            i = i + 1;
                        } else {
                            let joined = join_semi_range(ps, i, i + ext);
                            if v == 38 {
                                self.fg_color = Some(joined);
                            } else {
                                self.bg_color = Some(joined);
                            }
                            i = i + ext;
                        }
                    } else if v == 39 {
                        self.fg_color = None;
                        i = i + 1;
                    } else if v == 49 {
                        self.bg_color = None;
                        i = i + 1;
                    } else {
                        i = i + 1;
                    }
                },
            }
        }
    }

    /// Applies one escape sequence.
    pub fn process_ansi(&mut self, code: &[char])
        ensures
            final(self)@ == sgr_apply(old(self)@, code@),
    {
        if code.len() < 4 || code[code.len() - 1] != 'm' {
            return;
        }
        let inner = sub_chars(code, 2, code.len() - 1);
        if inner.len() == 0 || (inner.len() == 1 && inner[0] == '0') {
            proof {
                if inner.len() == 1 && inner@[0] == '0' {
                    assert(inner@ =~= seq!['0']);
                }
            }
            self.bold = false;
            self.underline = false;
            self.fg_color = None;
            self.bg_color = None;
            return;
        }
        assert(inner@ != seq!['0']) by {
            if inner@ == seq!['0'] {
                assert(inner@.len() == 1);
            }
        }
        let ps = split_chars(&inner, ';');
        self.apply_params(&ps);
    }

    /// Applies the escape sequences in `text`.
    pub fn update(&mut self, text: &[char])
        ensures
            final(self)@ == sgr_update_from(old(self)@, text@, 0),
    {
        let ghost target = sgr_update_from(self@, text@, 0);
        let mut i: usize = 0;
        while i < text.len()
            invariant
                0 <= i <= text.len(),
                target == sgr_update_from(self@, text@, i as int),
            decreases text.len() - i,
        {
            if text[i] == '\x1b' {
                match extract_ansi_code_at(text, i) {
                    Some(n) => {
                        proof {
                            lemma_ansi_len_bounds(text@, i as int);
                        }
                        let code = sub_chars(text, i, i + n);
                        self.process_ansi(&code);
                        i = i + n;
                        continue;
                    },
                    None => {},
                }
            }
            i = i + 1;
        }
    }

    /// One SGR sequence that re-establishes the current state, or nothing.
    pub fn active_codes(&self) -> (r: Vec<char>)
        ensures
            r@ == sgr_active_codes(self@),
    {
        let mut codes: Vec<Vec<char>> = Vec::new();
        let ghost st = self@;
        if self.bold {
            let one = vec!['1'];
            assert(one@ =~= seq!['1']);
            codes.push(one);
        }
        let ghost e1: Seq<Seq<char>> = if st.bold {
            seq![seq!['1']]
        } else {
            seq![]
        };
        assert(views(codes@) =~= e1);
        if self.underline {
            let four = vec!['4'];
            assert(four@ =~= seq!['4']);
            codes.push(four);
        }
        let ghost e2: Seq<Seq<char>> = e1 + if st.underline {
            seq![seq!['4']]
        } else {
            seq![]
        };
        assert(views(codes@) =~= e2);
        match &self.fg_color {
            Some(f) => {
                let c = copy_chars(f);
                codes.push(c);
            },
            None => {},
        }
        let ghost e3: Seq<Seq<char>> = e2 + match st.fg {
            Some(f) => seq![f],
            None => seq![],
        };
        assert(views(codes@) =~= e3);
        match &self.bg_color {
            Some(b) => {
                let c = copy_chars(b);
                codes.push(c);
            },
            None => {},
        }
        assert(views(codes@) =~= sgr_codes(self@));
        if codes.len() == 0 {
            return Vec::new();
        }
        let mut r: Vec<char> = vec!['\x1b', '['];
        let joined = join_semi_range(&codes, 0, codes.len());
        assert(views(codes@).subrange(0, codes.len() as int) =~= views(codes@));
        let mut j: usize = 0;
        let ghost before = r@;
        while j < joined.len()
            invariant
                0 <= j <= joined.len(),
                r@ == before + joined@.take(j as int),
            decreases joined.len() - j,
        {
            r.push(joined[j]);
            j = j + 1;
            assert(r@ =~= before + joined@.take(j as int));
        }
        assert(joined@.take(j as int) =~= joined@);
        r.push('m');
        assert(r@ =~= sgr_active_codes(self@));
        r
    }

    /// Closes underline at the end of a visual line.
    pub fn line_end_reset(&self) -> (r: Vec<char>)
        ensures
            r@ == sgr_line_end_reset(self@),
    {
        if self.underline {
            let r = vec!['\x1b', '[', '2', '4', 'm'];
            assert(r@ =~= sgr_line_end_reset(self@));
            r
        } else {
            Vec::new()
        }
    }
}

} // verus!
