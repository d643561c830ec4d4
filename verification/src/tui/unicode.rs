//! Unicode facts the text layer needs: grapheme cluster boundaries and
//! column widths (from `unicode-segmentation` and `unicode-width`), and the
//! character classes of `std` that are a short table.
use unicode_segmentation::UnicodeSegmentation;
use unicode_width::UnicodeWidthChar;
use vstd::prelude::*;

verus! {

/// The extended grapheme clusters of `s`, in order (UAX #29).
pub uninterp spec fn grapheme_clusters(s: Seq<char>) -> Seq<Seq<char>>;

/// The width that `unicode-width`'s tables give a character at or above U+00A0.
pub uninterp spec fn table_width(c: char) -> u8;

/// Whether `char::is_alphanumeric` holds of `c` (Unicode Alphabetic or Numeric).
pub uninterp spec fn alphanumeric(c: char) -> bool;

/// The character sequences of a vector of character vectors.
pub open spec fn views(gs: Seq<Vec<char>>) -> Seq<Seq<char>> {
    gs.map_values(|g: Vec<char>| g@)
}

/// Splits `s` into extended grapheme clusters
/// (`UnicodeSegmentation::graphemes(_, true)`).
///
/// Trusted: the clusters are the named segmentation of `s`; the crate's
/// iterator yields consecutive non-empty substrings from the start of the
/// string to its end, so they are non-empty and concatenate back to `s`.
#[verifier::external_body]
pub fn graphemes(s: &[char]) -> (gs: Vec<Vec<char>>)
    ensures
        views(gs@) == grapheme_clusters(s@),
        views(gs@).flatten() == s@,
        forall|i: int| 0 <= i < gs@.len() ==> (#[trigger] gs@[i])@.len() > 0,
{
    let text: String = s.iter().collect();
    text.graphemes(true).map(|g| g.chars().collect()).collect()
}

/// Column width of a character (`UnicodeWidthChar::width`).
///
/// Trusted: as the crate's `single_char_width` reads, printable ASCII is one
/// column, the C0 and C1 control codes have no width, and every character
/// from U+00A0 up has the width its tables give.
#[verifier::external_body]
pub fn char_width(c: char) -> (w: Option<usize>)
    ensures
        w == (if (c as u32) >= 0xa0 {
            Some(table_width(c) as usize)
        } else if 0x20 <= (c as u32) && (c as u32) < 0x7f {
            Some(1usize)
        } else {
            None
        }),
{
    c.width()
}

/// Whether `c` is alphabetic or numeric (`char::is_alphanumeric`).
///
/// Trusted: the result is the named Unicode property of `c`.
#[verifier::external_body]
pub fn is_alphanumeric(c: char) -> (r: bool)
    ensures
        r == alphanumeric(c),
{
    c.is_alphanumeric()
}

/// Unicode general category Cc: U+0000..U+001F and U+007F..U+009F.
pub open spec fn control(c: char) -> bool {
    (c as u32) < 0x20 || (0x7f <= (c as u32) && (c as u32) < 0xa0)
}

/// `char::is_control`.
pub fn is_control(c: char) -> (r: bool)
    ensures
        r == control(c),
{
    let u = c as u32;
    u < 0x20 || (0x7f <= u && u < 0xa0)
}

/// The Unicode `White_Space` property (`char::is_whitespace`).
pub open spec fn white_space(c: char) -> bool {
    let u = c as u32;
    (0x09 <= u && u <= 0x0d) || u == 0x20 || u == 0x85 || u == 0xa0 || u == 0x1680 || (0x2000 <= u
        && u <= 0x200a) || u == 0x2028 || u == 0x2029 || u == 0x202f || u == 0x205f || u == 0x3000
}

/// `char::is_whitespace`.
pub fn is_whitespace(c: char) -> (r: bool)
    ensures
        r == white_space(c),
{
    let u = c as u32;
    (0x09 <= u && u <= 0x0d) || u == 0x20 || u == 0x85 || u == 0xa0 || u == 0x1680 || (0x2000 <= u
        && u <= 0x200a) || u == 0x2028 || u == 0x2029 || u == 0x202f || u == 0x205f || u == 0x3000
}

/// ASCII hexadecimal digit value.
pub open spec fn hex_value(c: char) -> Option<nat> {
    let u = c as u32;
    if 0x30 <= u && u <= 0x39 {
        Some((u - 0x30) as nat)
    } else if 0x41 <= u && u <= 0x46 {
        Some((u - 0x41 + 10) as nat)
    } else if 0x61 <= u && u <= 0x66 {
        Some((u - 0x61 + 10) as nat)
    } else {
        None
    }
}

/// Value of an ASCII hexadecimal digit (`char::to_digit(16)` on ASCII).
pub fn hex_digit(c: char) -> (r: Option<u32>)
    ensures
        r matches Some(v) ==> hex_value(c) == Some(v as nat),
        r is None ==> hex_value(c) is None,
{
    let u = c as u32;
    if 0x30 <= u && u <= 0x39 {
        Some(u - 0x30)
    } else if 0x41 <= u && u <= 0x46 {
        Some(u - 0x41 + 10)
    } else if 0x61 <= u && u <= 0x66 {
        Some(u - 0x61 + 10)
    } else {
        None
    }
}

/// ASCII lower-casing of one character (`char::to_ascii_lowercase`).
pub open spec fn ascii_lower(c: char) -> char {
    if 'A' <= c && c <= 'Z' {
        ((c as u32) + 32) as char
    } else {
        c
    }
}

/// `char::to_ascii_lowercase`.
pub fn to_ascii_lowercase(c: char) -> (r: char)
    ensures
        r == ascii_lower(c),
{
    if 'A' <= c && c <= 'Z' {
        let u = (c as u32) + 32;
        // an ASCII letter shifted by 32 is an ASCII letter
        assert(u < 0x80);
        u as u8 as char
    } else {
        c
    }
}

} // verus!
