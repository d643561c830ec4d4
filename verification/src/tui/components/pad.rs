//! Padding of rendered lines to the full width.
use crate::tui::keybindings::strs_view;
use crate::tui::strs::{push_repeat, push_str, repeat_char, str_chars, string_from_str};
use crate::tui::util::{visible_width_checked, visible_width_of};
use vstd::prelude::*;

verus! {

broadcast use vstd::string::group_string_axioms;

/// `line` followed by spaces up to `width` visible columns, or `line` as it
/// is where it is already that wide.
pub open spec fn padded_to(line: Seq<char>, width: nat) -> Seq<char> {
    let vw = visible_width_of(line);
    if vw < width {
        line + repeat_char(' ', (width - vw) as nat)
    } else {
        line
    }
}

/// Pads `line` with spaces to `width` visible columns.
pub fn pad_to_width(line: String, width: usize) -> (r: String)
    ensures
        r@ == padded_to(line@, width as nat),
{
    let cs = str_chars(line.as_str());
    match visible_width_checked(&cs) {
        Some(vw) => {
            if vw < width {
                let mut r = line;
                push_repeat(&mut r, ' ', width - vw);
                r
            } else {
                line
            }
        },
        None => line,
    }
}

/// `n` copies of a line.
pub open spec fn copies(l: Seq<char>, n: nat) -> Seq<Seq<char>> {
    Seq::new(n, |i: int| l)
}

/// Pushes `n` copies of `l`.
pub fn push_copies(v: &mut Vec<String>, l: &str, n: usize)
    ensures
        strs_view(final(v)@) == strs_view(old(v)@) + copies(l@, n as nat),
{
    let mut i: usize = 0;
    while i < n
        invariant
            0 <= i <= n,
            strs_view(v@) =~= strs_view(old(v)@) + copies(l@, i as nat),
        decreases n - i,
    {
        let ghost before = v@;
        v.push(string_from_str(l));
        assert(strs_view(v@) =~= strs_view(before).push(l@));
        i = i + 1;
    }
}

/// The pieces concatenated.
pub fn concat3(a: &str, b: &str, c: &str) -> (r: String)
    ensures
        r@ == a@ + b@ + c@,
{
    let mut r = String::new();
    push_str(&mut r, a);
    push_str(&mut r, b);
    push_str(&mut r, c);
    assert(r@ =~= a@ + b@ + c@);
    r
}

} // verus!
