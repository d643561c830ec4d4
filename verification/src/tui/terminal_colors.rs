//! Terminal colour scheme detection: OSC 11 background colour responses and
//! colour scheme reports (`ESC [ ? 997 ; n n`).
use crate::tui::strs::{
    byte_len, chars_end_with, chars_start_with, seq_ends_with, seq_starts_with, str_chars, sub_chars,
};
use crate::tui::unicode::{hex_digit, hex_value, is_whitespace};
use crate::tui::strs::{trim_end_ws, trim_start_ws, trim_ws};
use crate::tui::sgr::{split_chars, split_on};
use crate::tui::unicode::views;
use vstd::prelude::*;

verus! {

broadcast use vstd::seq_lib::group_seq_properties;

/// An RGB color.
#[derive(PartialEq, Eq, Structural, Clone, Copy, Debug)]
pub struct RgbColor {
    pub r: u8,
    pub g: u8,
    pub b: u8,
}

/// Detected terminal color scheme.
#[derive(PartialEq, Eq, Structural, Clone, Copy, Debug)]
pub enum TerminalColorScheme {
    Dark,
    Light,
}

/// `ESC ] 1 1 ;`, the start of an OSC 11 response.
pub open spec fn osc11_prefix() -> Seq<char> {
    seq!['\x1b', ']', '1', '1', ';']
}

/// Whether `data` is an OSC 11 response: the prefix, then BEL or `ESC \` at the end.
pub open spec fn osc11_response(data: Seq<char>) -> bool {
    seq_starts_with(data, osc11_prefix()) && (seq_ends_with(data, seq!['\x07'])
        || seq_ends_with(data, seq!['\x1b', '\\']))
}

/// Check if the data looks like an OSC 11 background color response.
pub fn is_osc11_background_color_response(data: &str) -> (r: bool)
    ensures
        r == osc11_response(data@),
{
    let d = str_chars(data);
    let prefix = vec!['\x1b', ']', '1', '1', ';'];
    assert(prefix@ =~= osc11_prefix());
    if !chars_start_with(&d, &prefix) {
        return false;
    }
    let bel = vec!['\x07'];
    let st = vec!['\x1b', '\\'];
    assert(bel@ =~= seq!['\x07']);
    assert(st@ =~= seq!['\x1b', '\\']);
    chars_end_with(&d, &bel) || chars_end_with(&d, &st)
}

/// `s` without the trailing characters that satisfy `strip`.
pub open spec fn trim_end_bel_backslash(s: Seq<char>) -> Seq<char>
    decreases s.len(),
{
    if s.len() > 0 && (s.last() == '\x07' || s.last() == '\\') {
        trim_end_bel_backslash(s.drop_last())
    } else {
        s
    }
}

/// `s` without trailing escape characters.
pub open spec fn trim_end_esc(s: Seq<char>) -> Seq<char>
    decreases s.len(),
{
    if s.len() > 0 && s.last() == '\x1b' {
        trim_end_esc(s.drop_last())
    } else {
        s
    }
}




/// Every character is an ASCII hexadecimal digit.
pub open spec fn all_hex(s: Seq<char>) -> bool {
    forall|i: int| 0 <= i < s.len() ==> (#[trigger] hex_value(s[i])) is Some
}

/// Value of a string of hexadecimal digits.
pub open spec fn hex_number(s: Seq<char>) -> nat
    decreases s.len(),
{
    if s.len() == 0 {
        0
    } else {
        hex_number(s.drop_last()) * 16 + hex_value(s.last()).unwrap()
    }
}

/// 16 to the power `n`.
pub open spec fn pow16(n: nat) -> nat
    decreases n,
{
    if n == 0 {
        1
    } else {
        16 * pow16((n - 1) as nat)
    }
}

/// A 16-bit style OSC channel scaled to a byte: `value * 255 / (16^len - 1)`.
/// The outer `None` marks the channels where that arithmetic overflows `usize`.
pub open spec fn osc_channel(c: Seq<char>) -> Option<Option<u8>> {
    if c.len() == 0 || !all_hex(c) {
        Some(None)
    } else if pow16(c.len()) > usize::MAX || hex_number(c) * 255 > usize::MAX {
        None
    } else {
        let max = (pow16(c.len()) - 1) as nat;
        Some(Some((hex_number(c) * 255 / max) as u8))
    }
}

/// `u8::from_str_radix(_, 16)`: an optional `+`, then hex digits of a value up to 255.
pub open spec fn parse_u8_hex(s: Seq<char>) -> Option<u8> {
    let d = if s.len() > 0 && s[0] == '+' {
        s.drop_first()
    } else {
        s
    };
    if d.len() == 0 || !all_hex(d) || hex_number(d) > 255 {
        None
    } else {
        Some(hex_number(d) as u8)
    }
}

/// Whether byte offset `b` falls between characters of `s`.
pub open spec fn byte_boundary(s: Seq<char>, b: nat) -> bool {
    exists|k: int| 0 <= k <= s.len() && byte_len(s.take(k)) == b
}

/// Every character is ASCII.
pub open spec fn ascii(s: Seq<char>) -> bool {
    forall|i: int| 0 <= i < s.len() ==> (#[trigger] s[i] as u32) < 0x80
}

/// Three channels, each parsed only if the earlier ones were.
pub open spec fn three_channels(
    a: Option<Option<u8>>,
    b: Option<Option<u8>>,
    c: Option<Option<u8>>,
) -> Option<Option<RgbColor>> {
    match a {
        None => None,
        Some(None) => Some(None),
        Some(Some(r)) => match b {
            None => None,
            Some(None) => Some(None),
            Some(Some(g)) => match c {
                None => None,
                Some(None) => Some(None),
                Some(Some(bb)) => Some(Some(RgbColor { r, g, b: bb })),
            },
        },
    }
}

/// A hex colour of 6 or 12 bytes (`#` optional). The outer `None` marks the
/// inputs where the byte slicing cuts a character or a channel overflows.
pub open spec fn hex_color(hex0: Seq<char>) -> Option<Option<RgbColor>> {
    let hex = if hex0.len() > 0 && hex0[0] == '#' {
        hex0.drop_first()
    } else {
        hex0
    };
    let n = byte_len(hex);
    if n == 6 {
        if !ascii(hex) {
            if byte_boundary(hex, 2) && byte_boundary(hex, 4) {
                Some(None)
            } else {
                None
            }
        } else {
            three_channels(
                Some(parse_u8_hex(hex.subrange(0, 2))),
                Some(parse_u8_hex(hex.subrange(2, 4))),
                Some(parse_u8_hex(hex.subrange(4, 6))),
            )
        }
    } else if n == 12 {
        if !ascii(hex) {
            if byte_boundary(hex, 4) && byte_boundary(hex, 8) {
                Some(None)
            } else {
                None
            }
        } else {
            three_channels(
                osc_channel(hex.subrange(0, 4)),
                osc_channel(hex.subrange(4, 8)),
                osc_channel(hex.subrange(8, 12)),
            )
        }
    } else {
        Some(None)
    }
}

/// The colour value of an OSC 11 response: after the prefix, without trailing
/// BEL, backslash and escape characters, trimmed.
pub open spec fn osc11_value(data: Seq<char>) -> Seq<char> {
    trim_ws(trim_end_esc(trim_end_bel_backslash(data.skip(5))))
}

/// What parsing an OSC 11 response gives: `#` hex colours, or
/// `rgb:`/`rgba:` with three or more `/`-separated channels. The outer `None`
/// marks the inputs on which the parse panics or overflows.
pub open spec fn osc11_color(data: Seq<char>) -> Option<Option<RgbColor>> {
    if !seq_starts_with(data, osc11_prefix()) {
        Some(None)
    } else {
        let value = osc11_value(data);
        if value.len() > 0 && value[0] == '#' {
            hex_color(value.drop_first())
        } else {
            let rgb = if seq_starts_with(value, seq!['r', 'g', 'b', ':']) {
                Some(value.skip(4))
            } else if seq_starts_with(value, seq!['r', 'g', 'b', 'a', ':']) {
                Some(value.skip(5))
            } else {
                None
            };
            match rgb {
                None => Some(None),
                Some(v) => {
                    let parts = split_on(v, '/');
                    if parts.len() < 3 {
                        Some(None)
                    } else {
                        three_channels(osc_channel(parts[0]), osc_channel(parts[1]), osc_channel(parts[2]))
                    }
                },
            }
        }
    }
}

proof fn lemma_hex_number_bound(s: Seq<char>)
    requires
        all_hex(s),
    ensures
        hex_number(s) < pow16(s.len()),
    decreases s.len(),
{
    if s.len() > 0 {
        lemma_hex_number_bound(s.drop_last());
        assert(all_hex(s.drop_last())) by {
            assert forall|i: int| 0 <= i < s.drop_last().len() implies (#[trigger] hex_value(s.drop_last()[i])) is Some by {
                assert(s.drop_last()[i] == s[i]);
            }
        }
        assert(hex_value(s[s.len() - 1]) is Some);
    }
}

proof fn lemma_pow16_pos(n: nat)
    ensures
        pow16(n) >= 1,
    decreases n,
{
    if n > 0 {
        lemma_pow16_pos((n - 1) as nat);
    }
}

proof fn lemma_pow16_mono(a: nat, b: nat)
    requires
        a <= b,
    ensures
        pow16(a) <= pow16(b),
        pow16(a) >= 1,
    decreases b,
{
    lemma_pow16_pos(a);
    if a < b {
        lemma_pow16_mono(a, (b - 1) as nat);
    }
}

/// Whether every character is an ASCII hex digit.
fn is_all_hex(s: &[char]) -> (r: bool)
    ensures
        r == all_hex(s@),
{
    let mut i: usize = 0;
    while i < s.len()
        invariant
            0 <= i <= s.len(),
            forall|k: int| 0 <= k < i ==> (#[trigger] hex_value(s@[k])) is Some,
        decreases s.len() - i,
    {
        if hex_digit(s[i]).is_none() {
            return false;
        }
        i = i + 1;
    }
    true
}

/// Value of hex digits, which must fit.
fn hex_number_exec(s: &[char]) -> (v: usize)
    requires
        all_hex(s@),
        pow16(s@.len()) <= usize::MAX,
    ensures
        v == hex_number(s@),
{
    let mut v: usize = 0;
    let mut i: usize = 0;
    proof {
        lemma_hex_number_bound(s@);
    }
    while i < s.len()
        invariant
            0 <= i <= s.len(),
            all_hex(s@),
            pow16(s@.len()) <= usize::MAX,
            v == hex_number(s@.take(i as int)),
            v < pow16(i as nat),
        decreases s.len() - i,
    {
        assert(s@.take(i + 1).drop_last() =~= s@.take(i as int));
        assert(hex_value(s@[i as int]) is Some);
        let d = match hex_digit(s[i]) {
            Some(d) => d,
            None => 0,
        };
        proof {
            lemma_pow16_mono((i + 1) as nat, s@.len());
            assert(v * 16 + d < pow16((i + 1) as nat)) by (nonlinear_arith)
                requires
                    v < pow16(i as nat),
                    d < 16,
                    pow16((i + 1) as nat) == 16 * pow16(i as nat),
            ;
        }
        v = v * 16 + (d as usize);
        i = i + 1;
    }
    assert(s@.take(s.len() as int) =~= s@);
    v
}

/// `16^n`, which must fit.
fn pow16_exec(n: usize) -> (p: usize)
    requires
        pow16(n as nat) <= usize::MAX,
    ensures
        p == pow16(n as nat),
{
    let mut p: usize = 1;
    let mut i: usize = 0;
    while i < n
        invariant
            0 <= i <= n,
            p == pow16(i as nat),
            pow16(n as nat) <= usize::MAX,
        decreases n - i,
    {
        proof {
            lemma_pow16_mono((i + 1) as nat, n as nat);
        }
        p = p * 16;
        i = i + 1;
    }
    p
}

/// Parse a single OSC hex channel scaled to a byte (e.g. `FFFF` gives 255).
fn parse_osc_hex_channel(channel: &[char]) -> (r: Option<u8>)
    requires
        osc_channel(channel@) is Some,
    ensures
        r == osc_channel(channel@).unwrap(),
{
    if channel.len() == 0 || !is_all_hex(channel) {
        return None;
    }
    let p = pow16_exec(channel.len());
    proof {
        lemma_pow16_mono(1, channel@.len());
    }
    let max = p - 1;
    let val = hex_number_exec(channel);
    proof {
        lemma_hex_number_bound(channel@);
    }
    let scaled = val * 255 / max;
    assert(scaled <= 255) by (nonlinear_arith)
        requires
            scaled as int == (val as int * 255) / (max as int),
            val <= max,
            max > 0,
    ;
    Some(scaled as u8)
}

/// `u8::from_str_radix(_, 16)` on ASCII text.
fn parse_u8_hex_exec(s: &[char]) -> (r: Option<u8>)
    ensures
        r == parse_u8_hex(s@),
{
    let start: usize = if s.len() > 0 && s[0] == '+' {
        1
    } else {
        0
    };
    let d = sub_chars(s, start, s.len());
    assert(d@ =~= (if s@.len() > 0 && s@[0] == '+' { s@.drop_first() } else { s@ }));
    if d.len() == 0 || !is_all_hex(&d) {
        return None;
    }
    let mut k: usize = 0;
    let mut v: usize = 0;
    while k < d.len()
        invariant
            0 <= k <= d.len(),
            d@ == (if s@.len() > 0 && s@[0] == '+' { s@.drop_first() } else { s@ }),
            all_hex(d@),
            v == hex_number(d@.take(k as int)),
            v <= 255,
        decreases d.len() - k,
    {
        assert(d@.take(k + 1).drop_last() =~= d@.take(k as int));
        assert(hex_value(d@[k as int]) is Some);
        let dig = match hex_digit(d[k]) {
            Some(x) => x,
            None => 0,
        };
        let nv = v * 16 + (dig as usize);
        if nv > 255 {
            proof {
                lemma_hex_prefix_le(d@, k + 1);
            }
            return None;
        }
        v = nv;
        k = k + 1;
    }
    assert(d@.take(d.len() as int) =~= d@);
    Some(v as u8)
}

proof fn lemma_hex_prefix_le(d: Seq<char>, j: int)
    requires
        all_hex(d),
        0 <= j <= d.len(),
    ensures
        hex_number(d.take(j)) <= hex_number(d),
    decreases d.len() - j,
{
    if j < d.len() {
        lemma_hex_prefix_le(d, j + 1);
        assert(d.take(j + 1).drop_last() =~= d.take(j));
    } else {
        assert(d.take(j) =~= d);
    }
}

/// Whether every character is ASCII.
fn is_ascii_chars(s: &[char]) -> (r: bool)
    ensures
        r == ascii(s@),
{
    let mut i: usize = 0;
    while i < s.len()
        invariant
            0 <= i <= s.len(),
            forall|k: int| 0 <= k < i ==> (#[trigger] s@[k] as u32) < 0x80,
        decreases s.len() - i,
    {
        if (s[i] as u32) >= 0x80 {
            return false;
        }
        i = i + 1;
    }
    true
}

proof fn lemma_ascii_byte_len(s: Seq<char>)
    requires
        ascii(s),
    ensures
        byte_len(s) == s.len(),
    decreases s.len(),
{
    if s.len() > 0 {
        assert(ascii(s.drop_last())) by {
            assert forall|i: int| 0 <= i < s.drop_last().len() implies (#[trigger] s.drop_last()[i] as u32) < 0x80 by {
                assert(s.drop_last()[i] == s[i]);
            }
        }
        lemma_ascii_byte_len(s.drop_last());
        assert((s[s.len() - 1] as u32) < 0x80);
    }
}

/// Parse a hex colour of 6 or 12 digits, with or without `#`.
fn parse_hex_color(hex0: &[char]) -> (r: Option<RgbColor>)
    requires
        hex_color(hex0@) is Some,
    ensures
        r == hex_color(hex0@).unwrap(),
{
    let start: usize = if hex0.len() > 0 && hex0[0] == '#' {
        1
    } else {
        0
    };
    let hex = sub_chars(hex0, start, hex0.len());
    assert(hex@ =~= (if hex0@.len() > 0 && hex0@[0] == '#' { hex0@.drop_first() } else { hex0@ }));
    proof {
        crate::tui::strs::lemma_byte_len_ge_len(hex@);
    }
    if hex.len() > 12 {
        return None;
    }
    proof {
        lemma_utf8_bounded(hex@);
    }
    let n = crate::tui::strs::chars_byte_len(&hex);
    if n != 6 && n != 12 {
        return None;
    }
    if !is_ascii_chars(&hex) {
        return None;
    }
    proof {
        lemma_ascii_byte_len(hex@);
    }
    if n == 6 {
        let r = parse_u8_hex_exec(&sub_chars(&hex, 0, 2));
        let r = match r { Some(v) => v, None => { return None; } };
        let g = parse_u8_hex_exec(&sub_chars(&hex, 2, 4));
        let g = match g { Some(v) => v, None => { return None; } };
        let b = parse_u8_hex_exec(&sub_chars(&hex, 4, 6));
        let b = match b { Some(v) => v, None => { return None; } };
        Some(RgbColor { r, g, b })
    } else {
        let r = parse_osc_hex_channel(&sub_chars(&hex, 0, 4));
        let r = match r { Some(v) => v, None => { return None; } };
        let g = parse_osc_hex_channel(&sub_chars(&hex, 4, 8));
        let g = match g { Some(v) => v, None => { return None; } };
        let b = parse_osc_hex_channel(&sub_chars(&hex, 8, 12));
        let b = match b { Some(v) => v, None => { return None; } };
        Some(RgbColor { r, g, b })
    }
}

proof fn lemma_utf8_bounded(s: Seq<char>)
    ensures
        byte_len(s) <= 4 * s.len(),
    decreases s.len(),
{
    if s.len() > 0 {
        lemma_utf8_bounded(s.drop_last());
    }
}

/// Removes the trailing characters for which `which` holds: 0 = BEL or
/// backslash, 1 = escape, 2 = whitespace.
fn trim_end_exec(s: &Vec<char>, which: u8) -> (r: Vec<char>)
    requires
        which <= 2,
    ensures
        which == 0 ==> r@ == trim_end_bel_backslash(s@),
        which == 1 ==> r@ == trim_end_esc(s@),
        which == 2 ==> r@ == trim_end_ws(s@),
{
    let mut n = s.len();
    assert(s@.take(s.len() as int) =~= s@);
    while n > 0
        invariant
            0 <= n <= s.len(),
            which <= 2,
            which == 0 ==> trim_end_bel_backslash(s@) == trim_end_bel_backslash(s@.take(n as int)),
            which == 1 ==> trim_end_esc(s@) == trim_end_esc(s@.take(n as int)),
            which == 2 ==> trim_end_ws(s@) == trim_end_ws(s@.take(n as int)),
        ensures
            which == 0 ==> trim_end_bel_backslash(s@) == s@.take(n as int),
            which == 1 ==> trim_end_esc(s@) == s@.take(n as int),
            which == 2 ==> trim_end_ws(s@) == s@.take(n as int),
        decreases n,
    {
        let c = s[n - 1];
        let strip = if which == 0 {
            c == '\x07' || c == '\\'
        } else if which == 1 {
            c == '\x1b'
        } else {
            is_whitespace(c)
        };
        if !strip {
            assert(s@.take(n as int).last() == c);
            break;
        }
        assert(s@.take(n as int).drop_last() =~= s@.take(n - 1));
        n = n - 1;
    }
    sub_chars(s, 0, n)
}

/// Removes leading whitespace.
fn trim_start_ws_exec(s: &Vec<char>) -> (r: Vec<char>)
    ensures
        r@ == trim_start_ws(s@),
{
    let mut i: usize = 0;
    while i < s.len() && is_whitespace(s[i])
        invariant
            0 <= i <= s.len(),
            trim_start_ws(s@) == trim_start_ws(s@.skip(i as int)),
        decreases s.len() - i,
    {
        assert(s@.skip(i as int).drop_first() =~= s@.skip(i + 1));
        i = i + 1;
    }
    let r = sub_chars(s, i, s.len());
    assert(r@ =~= s@.skip(i as int));
    r
}

/// Parse an OSC 11 background color response: `#RRGGBB`, `#RRRRGGGGBBBB`,
/// `rgb:RRRR/GGGG/BBBB` or `rgba:...`, terminated by BEL or `ESC \`.
pub fn parse_osc11_background_color(data: &str) -> (r: Option<RgbColor>)
    requires
        osc11_color(data@) is Some,
    ensures
        r == osc11_color(data@).unwrap(),
{
    let d = str_chars(data);
    let prefix = vec!['\x1b', ']', '1', '1', ';'];
    assert(prefix@ =~= osc11_prefix());
    if !chars_start_with(&d, &prefix) {
        return None;
    }
    let rest = sub_chars(&d, 5, d.len());
    assert(rest@ =~= d@.skip(5));
    let v1 = trim_end_exec(&rest, 0);
    let v2 = trim_end_exec(&v1, 1);
    let v3 = trim_end_exec(&v2, 2);
    let value = trim_start_ws_exec(&v3);
    if value.len() > 0 && value[0] == '#' {
        let hex = sub_chars(&value, 1, value.len());
        assert(hex@ =~= value@.drop_first());
        return parse_hex_color(&hex);
    }
    let rgb_prefix = vec!['r', 'g', 'b', ':'];
    let rgba_prefix = vec!['r', 'g', 'b', 'a', ':'];
    assert(rgb_prefix@ =~= seq!['r', 'g', 'b', ':']);
    assert(rgba_prefix@ =~= seq!['r', 'g', 'b', 'a', ':']);
    let rgb = if chars_start_with(&value, &rgb_prefix) {
        let v = sub_chars(&value, 4, value.len());
        assert(v@ =~= value@.skip(4));
        v
    } else if chars_start_with(&value, &rgba_prefix) {
        let v = sub_chars(&value, 5, value.len());
        assert(v@ =~= value@.skip(5));
        v
    } else {
        return None;
    };
    let parts = split_chars(&rgb, '/');
    if parts.len() < 3 {
        return None;
    }
    assert(views(parts@)[0] == parts@[0]@);
    assert(views(parts@)[1] == parts@[1]@);
    assert(views(parts@)[2] == parts@[2]@);
    let r = match parse_osc_hex_channel(&parts[0]) {
        Some(v) => v,
        None => {
            return None;
        },
    };
    let g = match parse_osc_hex_channel(&parts[1]) {
        Some(v) => v,
        None => {
            return None;
        },
    };
    let b = match parse_osc_hex_channel(&parts[2]) {
        Some(v) => v,
        None => {
            return None;
        },
    };
    Some(RgbColor { r, g, b })
}

/// `s` without trailing `n` characters.
pub open spec fn trim_end_n(s: Seq<char>) -> Seq<char>
    decreases s.len(),
{
    if s.len() > 0 && s.last() == 'n' {
        trim_end_n(s.drop_last())
    } else {
        s
    }
}

/// The colour scheme a report names: `ESC [ ? 997 ; 1 n` is dark and
/// `ESC [ ? 997 ; 2 n` is light (any number of trailing `n`).
pub open spec fn scheme_report(data: Seq<char>) -> Option<TerminalColorScheme> {
    let d = trim_end_n(data);
    if d == seq!['\x1b', '[', '?', '9', '9', '7', ';', '2'] {
        Some(TerminalColorScheme::Light)
    } else if d == seq!['\x1b', '[', '?', '9', '9', '7', ';', '1'] {
        Some(TerminalColorScheme::Dark)
    } else {
        None
    }
}

/// Parse a terminal color scheme report.
pub fn parse_terminal_color_scheme_report(data: &str) -> (r: Option<TerminalColorScheme>)
    ensures
        r == scheme_report(data@),
{
    let s = str_chars(data);
    let mut n = s.len();
    while n > 0 && s[n - 1] == 'n'
        invariant
            0 <= n <= s.len(),
            trim_end_n(s@) == trim_end_n(s@.take(n as int)),
        decreases n,
    {
        assert(s@.take(n as int).drop_last() =~= s@.take(n - 1));
        n = n - 1;
    }
    assert(s@.take(s.len() as int) =~= s@);
    let d = sub_chars(&s, 0, n);
    let light = vec!['\x1b', '[', '?', '9', '9', '7', ';', '2'];
    let dark = vec!['\x1b', '[', '?', '9', '9', '7', ';', '1'];
    assert(light@ =~= seq!['\x1b', '[', '?', '9', '9', '7', ';', '2']);
    assert(dark@ =~= seq!['\x1b', '[', '?', '9', '9', '7', ';', '1']);
    if d.len() == light.len() && chars_start_with(&d, &light) {
        assert(d@.take(8) =~= d@);
        Some(TerminalColorScheme::Light)
    } else if d.len() == dark.len() && chars_start_with(&d, &dark) {
        assert(d@.take(8) =~= d@);
        Some(TerminalColorScheme::Dark)
    } else {
        None
    }
}

/// Light when the relative luminance 0.2126 R + 0.7152 G + 0.0722 B (each
/// over 255) exceeds one half, i.e. 2126 R + 7152 G + 722 B > 1 275 000.
pub open spec fn scheme_of(bg: RgbColor) -> TerminalColorScheme {
    if 2126 * (bg.r as int) + 7152 * (bg.g as int) + 722 * (bg.b as int) > 1275000 {
        TerminalColorScheme::Light
    } else {
        TerminalColorScheme::Dark
    }
}

/// Determine the color scheme from a background color by luminance.
pub fn color_scheme_from_background(bg: &RgbColor) -> (r: TerminalColorScheme)
    ensures
        r == scheme_of(*bg),
{
    let lum: u32 = 2126 * (bg.r as u32) + 7152 * (bg.g as u32) + 722 * (bg.b as u32);
    if lum > 1275000 {
        TerminalColorScheme::Light
    } else {
        TerminalColorScheme::Dark
    }
}

/// The scheme report and the luminance rule agree on the extremes: black is
/// dark and white is light.
pub proof fn law_black_dark_white_light()
    ensures
        scheme_of(RgbColor { r: 0, g: 0, b: 0 }) == TerminalColorScheme::Dark,
        scheme_of(RgbColor { r: 255, g: 255, b: 255 }) == TerminalColorScheme::Light,
{
}

} // verus!
