//! Text fitting for the status lines: cutting a text to a number of
//! characters with an ellipsis, and right-aligning it.
use crate::tui::strs::{push_chars, push_char, str_chars, string_from_str, sub_chars};
use vstd::prelude::*;

verus! {

/// `s` cut to `max` characters: where longer, its first `max - 1` and `…`.
pub open spec fn truncated_chars(s: Seq<char>, max: nat) -> Seq<char> {
    if s.len() <= max {
        s
    } else {
        s.take(if max >= 1 { max - 1 } else { 0 }) + seq!['…']
    }
}

/// `s` right-aligned in `width` characters: spaces before it where it is
/// shorter.
pub open spec fn padded_left(s: Seq<char>, width: nat) -> Seq<char> {
    if s.len() >= width {
        s
    } else {
        Seq::new((width - s.len()) as nat, |i: int| ' ') + s
    }
}

/// Cut a text to `max` characters, ending a cut one with `…`.
pub fn truncate_str(s: &str, max: usize) -> (r: String)
    ensures
        r@ == truncated_chars(s@, max as nat),
{
    let c = str_chars(s);
    if c.len() <= max {
        return string_from_str(s);
    }
    let keep = if max >= 1 { max - 1 } else { 0 };
    let mut r = String::new();
    push_chars(&mut r, &sub_chars(&c, 0, keep));
    push_char(&mut r, '…');
    assert(r@ =~= truncated_chars(s@, max as nat));
    r
}

/// Right-align a text in `width` characters.
pub fn pad_right(s: &str, width: usize) -> (r: String)
    ensures
        r@ == padded_left(s@, width as nat),
{
    let c = str_chars(s);
    if c.len() >= width {
        return string_from_str(s);
    }
    let mut r = String::new();
    let n = width - c.len();
    let mut i: usize = 0;
    while i < n
        invariant
            i <= n,
            r@ == Seq::new(i as nat, |k: int| ' '),
        decreases n - i,
    {
        push_char(&mut r, ' ');
        i = i + 1;
        assert(r@ =~= Seq::new(i as nat, |k: int| ' '));
    }
    push_chars(&mut r, &c);
    assert(r@ =~= padded_left(s@, width as nat));
    r
}

} // verus!
