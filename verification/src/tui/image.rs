//! Image helpers: supported file extensions, data URLs
//! (`data:image/...;base64,...`) and Kitty graphics protocol sequences.
use crate::tui::strs::{
    chars_contain, chars_start_with, push_decimal, push_str, seq_contains, seq_starts_with,
    str_chars, trim_bounds, trim_ws, decimal,
};
use crate::tui::sgr::first_index_of;
use crate::tui::unicode::ascii_lower;
use base64::Engine;
use vstd::prelude::*;

verus! {

broadcast use vstd::seq_lib::group_seq_properties;

/// The character of a base64 digit (standard alphabet).
pub open spec fn b64_digit(v: int) -> char {
    if v < 26 {
        (65 + v) as char
    } else if v < 52 {
        (97 + v - 26) as char
    } else if v < 62 {
        (48 + v - 52) as char
    } else if v == 62 {
        '+'
    } else {
        '/'
    }
}

/// Standard base64 with `=` padding.
pub open spec fn base64_of(b: Seq<u8>) -> Seq<char>
    decreases b.len(),
{
    if b.len() == 0 {
        seq![]
    } else {
        let b0 = b[0] as int;
        let b1 = if b.len() > 1 {
            b[1] as int
        } else {
            0
        };
        let b2 = if b.len() > 2 {
            b[2] as int
        } else {
            0
        };
        if b.len() == 1 {
            seq![b64_digit(b0 / 4), b64_digit((b0 % 4) * 16), '=', '=']
        } else if b.len() == 2 {
            seq![b64_digit(b0 / 4), b64_digit((b0 % 4) * 16 + b1 / 16), b64_digit((b1 % 16) * 4), '=']
        } else {
            seq![
                b64_digit(b0 / 4),
                b64_digit((b0 % 4) * 16 + b1 / 16),
                b64_digit((b1 % 16) * 4 + b2 / 64),
                b64_digit(b2 % 64),
            ] + base64_of(b.skip(3))
        }
    }
}

/// Base64 of `bytes` (`base64::engine::general_purpose::STANDARD.encode`).
///
/// Trusted: the engine uses the standard alphabet with padding, so the text
/// is the standard encoding; the crate panics where the encoded length
/// overflows `usize`, which the precondition rules out.
#[verifier::external_body]
fn base64_encode(bytes: &[u8]) -> (r: String)
    requires
        4 * ((bytes@.len() + 2) / 3) <= usize::MAX,
    ensures
        r@ == base64_of(bytes@),
{
    base64::engine::general_purpose::STANDARD.encode(bytes)
}

/// The MIME type of an image extension.
pub open spec fn mime_of(ext: Seq<char>) -> Seq<char> {
    if ext == seq!['p', 'n', 'g'] {
        seq!['i', 'm', 'a', 'g', 'e', '/', 'p', 'n', 'g']
    } else if ext == seq!['j', 'p', 'g'] || ext == seq!['j', 'p', 'e', 'g'] {
        seq!['i', 'm', 'a', 'g', 'e', '/', 'j', 'p', 'e', 'g']
    } else if ext == seq!['g', 'i', 'f'] {
        seq!['i', 'm', 'a', 'g', 'e', '/', 'g', 'i', 'f']
    } else if ext == seq!['w', 'e', 'b', 'p'] {
        seq!['i', 'm', 'a', 'g', 'e', '/', 'w', 'e', 'b', 'p']
    } else if ext == seq!['b', 'm', 'p'] {
        seq!['i', 'm', 'a', 'g', 'e', '/', 'b', 'm', 'p']
    } else if ext == seq!['i', 'c', 'o'] {
        seq!['i', 'm', 'a', 'g', 'e', '/', 'x', '-', 'i', 'c', 'o', 'n']
    } else {
        seq![
            'a', 'p', 'p', 'l', 'i', 'c', 'a', 't', 'i', 'o', 'n', '/', 'o', 'c', 't', 'e', 't',
            '-', 's', 't', 'r', 'e', 'a', 'm'
        ]
    }
}

/// Whether two character slices are equal.
pub fn chars_eq(a: &[char], b: &[char]) -> (r: bool)
    ensures
        r == (a@ == b@),
{
    if a.len() != b.len() {
        return false;
    }
    let r = chars_start_with(a, b);
    proof {
        if r {
            assert(a@.take(b@.len() as int) =~= a@);
        } else if a@ == b@ {
            assert(a@.take(b@.len() as int) =~= a@);
        }
    }
    r
}

/// The MIME type for an image extension.
pub fn mime_type(ext: &str) -> (r: &'static str)
    ensures
        r@ == mime_of(ext@),
{
    let e = str_chars(ext);
    let png = vec!['p', 'n', 'g'];
    let jpg = vec!['j', 'p', 'g'];
    let jpeg = vec!['j', 'p', 'e', 'g'];
    let gif = vec!['g', 'i', 'f'];
    let webp = vec!['w', 'e', 'b', 'p'];
    let bmp = vec!['b', 'm', 'p'];
    let ico = vec!['i', 'c', 'o'];
    assert(png@ =~= seq!['p', 'n', 'g']);
    assert(jpg@ =~= seq!['j', 'p', 'g']);
    assert(jpeg@ =~= seq!['j', 'p', 'e', 'g']);
    assert(gif@ =~= seq!['g', 'i', 'f']);
    assert(webp@ =~= seq!['w', 'e', 'b', 'p']);
    assert(bmp@ =~= seq!['b', 'm', 'p']);
    assert(ico@ =~= seq!['i', 'c', 'o']);
    proof {
        reveal_strlit("image/png");
        reveal_strlit("image/jpeg");
        reveal_strlit("image/gif");
        reveal_strlit("image/webp");
        reveal_strlit("image/bmp");
        reveal_strlit("image/x-icon");
        reveal_strlit("application/octet-stream");
    }
    let r = if chars_eq(&e, &png) {
        "image/png"
    } else if chars_eq(&e, &jpg) || chars_eq(&e, &jpeg) {
        "image/jpeg"
    } else if chars_eq(&e, &gif) {
        "image/gif"
    } else if chars_eq(&e, &webp) {
        "image/webp"
    } else if chars_eq(&e, &bmp) {
        "image/bmp"
    } else if chars_eq(&e, &ico) {
        "image/x-icon"
    } else {
        "application/octet-stream"
    };
    assert(r@ =~= mime_of(ext@));
    r
}

/// `s` without leading dots.
pub open spec fn trim_start_dots(s: Seq<char>) -> Seq<char>
    decreases s.len(),
{
    if s.len() > 0 && s[0] == '.' {
        trim_start_dots(s.drop_first())
    } else {
        s
    }
}

/// ASCII case-insensitive equality.
pub open spec fn eq_ignore_ascii_case(a: Seq<char>, b: Seq<char>) -> bool {
    a.len() == b.len() && forall|i: int| 0 <= i < a.len() ==> ascii_lower(#[trigger] a[i]) == ascii_lower(b[i])
}

/// The supported image extensions.
pub open spec fn image_extensions() -> Seq<Seq<char>> {
    seq![
        seq!['p', 'n', 'g'],
        seq!['j', 'p', 'g'],
        seq!['j', 'p', 'e', 'g'],
        seq!['g', 'i', 'f'],
        seq!['w', 'e', 'b', 'p'],
        seq!['b', 'm', 'p'],
        seq!['i', 'c', 'o'],
    ]
}

/// Whether an extension (leading dots ignored, any ASCII case) is a supported image format.
pub open spec fn image_extension(ext: Seq<char>) -> bool {
    exists|i: int| 0 <= i < 7 && eq_ignore_ascii_case(trim_start_dots(ext), #[trigger] image_extensions()[i])
}

/// ASCII case-insensitive equality of two slices.
fn chars_eq_ignore_case(a: &[char], b: &[char]) -> (r: bool)
    ensures
        r == eq_ignore_ascii_case(a@, b@),
{
    if a.len() != b.len() {
        return false;
    }
    let mut i: usize = 0;
    while i < a.len()
        invariant
            0 <= i <= a.len(),
            a.len() == b.len(),
            forall|k: int| 0 <= k < i ==> ascii_lower(#[trigger] a@[k]) == ascii_lower(b@[k]),
        decreases a.len() - i,
    {
        if crate::tui::unicode::to_ascii_lowercase(a[i]) != crate::tui::unicode::to_ascii_lowercase(b[i]) {
            return false;
        }
        i = i + 1;
    }
    true
}

/// Check if a file extension corresponds to a supported image format.
pub fn is_image_extension(ext: &str) -> (r: bool)
    ensures
        r == image_extension(ext@),
{
    let e0 = str_chars(ext);
    let mut i: usize = 0;
    while i < e0.len() && e0[i] == '.'
        invariant
            0 <= i <= e0.len(),
            trim_start_dots(e0@) == trim_start_dots(e0@.skip(i as int)),
        decreases e0.len() - i,
    {
        assert(e0@.skip(i as int).drop_first() =~= e0@.skip(i + 1));
        i = i + 1;
    }
    let e = crate::tui::strs::sub_chars(&e0, i, e0.len());
    assert(e@ =~= e0@.skip(i as int));
    if i < e0.len() {
        assert(e@[0] == e0@[i as int]);
    }
    assert(trim_start_dots(e0@) == e@);
    let exts: Vec<Vec<char>> = vec![
        vec!['p', 'n', 'g'],
        vec!['j', 'p', 'g'],
        vec!['j', 'p', 'e', 'g'],
        vec!['g', 'i', 'f'],
        vec!['w', 'e', 'b', 'p'],
        vec!['b', 'm', 'p'],
        vec!['i', 'c', 'o'],
    ];
    assert(crate::tui::unicode::views(exts@) =~= image_extensions());
    let mut k: usize = 0;
    while k < exts.len()
        invariant
            0 <= k <= exts.len(),
            exts.len() == 7,
            crate::tui::unicode::views(exts@) == image_extensions(),
            e@ == trim_start_dots(ext@),
            forall|j: int| 0 <= j < k ==> !eq_ignore_ascii_case(e@, #[trigger] image_extensions()[j]),
        decreases exts.len() - k,
    {
        assert(image_extensions()[k as int] == exts@[k as int]@);
        if chars_eq_ignore_case(&e, &exts[k]) {
            return true;
        }
        k = k + 1;
    }
    false
}

/// `data:image/`.
pub open spec fn data_image_prefix() -> Seq<char> {
    seq!['d', 'a', 't', 'a', ':', 'i', 'm', 'a', 'g', 'e', '/']
}

/// `;base64,`.
pub open spec fn base64_marker() -> Seq<char> {
    seq![';', 'b', 'a', 's', 'e', '6', '4', ',']
}

/// Whether `s` (trimmed) starts with `data:image/` and holds `;base64,`.
pub open spec fn image_data_url(s: Seq<char>) -> bool {
    seq_starts_with(trim_ws(s), data_image_prefix()) && seq_contains(s, base64_marker())
}

/// Check if a string is a data URL for an image.
pub fn is_data_url(s: &str) -> (r: bool)
    ensures
        r == image_data_url(s@),
{
    let c = str_chars(s);
    let (a, b) = trim_bounds(&c);
    let t = crate::tui::strs::sub_chars(&c, a, b);
    let p = vec!['d', 'a', 't', 'a', ':', 'i', 'm', 'a', 'g', 'e', '/'];
    let m = vec![';', 'b', 'a', 's', 'e', '6', '4', ','];
    assert(p@ =~= data_image_prefix());
    assert(m@ =~= base64_marker());
    chars_start_with(&t, &p) && chars_contain(&c, &m)
}

/// The extension of a path (`Path::extension`): the part of the file name
/// after its last dot, when the name does not start with that dot.
pub uninterp spec fn path_extension(path: Seq<char>) -> Option<Seq<char>>;

/// The extension of `path` (`std::path::Path::extension`), as text.
///
/// Trusted: the result is the named extension of the path.
#[verifier::external_body]
fn extension_of(path: &str) -> (r: Option<String>)
    ensures
        r matches Some(e) ==> path_extension(path@) == Some(e@),
        r is None ==> path_extension(path@) is None,
{
    std::path::Path::new(path).extension().and_then(|e| e.to_str()).map(|e| e.to_string())
}

/// Check if a file path names a supported image file.
pub fn is_image_path(path: &str) -> (r: bool)
    ensures
        r == (path_extension(path@) matches Some(e) && image_extension(e)),
{
    match extension_of(path) {
        Some(e) => is_image_extension(e.as_str()),
        None => false,
    }
}

/// `data:`.
pub open spec fn data_prefix() -> Seq<char> {
    seq!['d', 'a', 't', 'a', ':']
}

/// A data URL for bytes of the given image extension.
pub open spec fn data_url_of(bytes: Seq<u8>, ext: Seq<char>) -> Seq<char> {
    data_prefix() + mime_of(ext) + base64_marker() + base64_of(bytes)
}

/// Convert raw image bytes to a data URL string.
pub fn bytes_to_data_url(bytes: &[u8], ext: &str) -> (r: String)
    requires
        4 * ((bytes@.len() + 2) / 3) <= usize::MAX,
    ensures
        r@ == data_url_of(bytes@, ext@),
{
    let mime = mime_type(ext);
    let b64 = base64_encode(bytes);
    let mut r = String::new();
    proof {
        reveal_strlit("data:");
        reveal_strlit(";base64,");
    }
    push_str(&mut r, "data:");
    push_str(&mut r, mime);
    push_str(&mut r, ";base64,");
    push_str(&mut r, b64.as_str());
    assert(r@ =~= data_url_of(bytes@, ext@));
    r
}

/// The MIME type of a data URL: between `data:` and the first `;`.
pub open spec fn mime_in_data_url(s: Seq<char>) -> Option<Seq<char>> {
    let t = trim_ws(s);
    let k = first_index_of(t, ';');
    if seq_starts_with(t, data_prefix()) && k < t.len() {
        Some(t.subrange(5, k))
    } else {
        None
    }
}

proof fn lemma_first_index_of(s: Seq<char>, c: char)
    ensures
        0 <= first_index_of(s, c) <= s.len(),
        first_index_of(s, c) < s.len() ==> s[first_index_of(s, c)] == c,
        forall|i: int| 0 <= i < first_index_of(s, c) ==> s[i] != c,
    decreases s.len(),
{
    if s.len() > 0 && s[0] != c {
        lemma_first_index_of(s.drop_first(), c);
        assert forall|i: int| 0 <= i < first_index_of(s, c) implies s[i] != c by {
            if i > 0 {
                assert(s[i] == s.drop_first()[i - 1]);
            }
        }
    }
}

/// Extract the MIME type from a data URL (`data:image/png;base64,...` gives `image/png`).
pub fn extract_mime_from_data_url(data_url: &str) -> (r: Option<&str>)
    ensures
        r matches Some(m) ==> mime_in_data_url(data_url@) == Some(m@),
        r is None ==> mime_in_data_url(data_url@) is None,
{
    let c = str_chars(data_url);
    let (a, b) = trim_bounds(&c);
    let t = crate::tui::strs::sub_chars(&c, a, b);
    let p = vec!['d', 'a', 't', 'a', ':'];
    assert(p@ =~= data_prefix());
    let k = crate::tui::sgr::find_char_pub(&t, ';');
    if chars_start_with(&t, &p) && k < t.len() {
        proof {
            lemma_first_index_of(t@, ';');
            assert(t@.take(5)[4] == ':');
            if k < 5 {
                assert(t@[k as int] == t@.take(5)[k as int]);
            }
        }
        let m = data_url.substring_char(a + 5, a + k);
        assert(m@ =~= t@.subrange(5, k as int));
        Some(m)
    } else {
        None
    }
}

/// The Kitty format code of an image MIME type (PNG by default).
pub open spec fn kitty_format(mime: Seq<char>) -> nat {
    if mime == seq!['i', 'm', 'a', 'g', 'e', '/', 'p', 'n', 'g'] {
        100
    } else if mime == seq!['i', 'm', 'a', 'g', 'e', '/', 'j', 'p', 'e', 'g'] {
        101
    } else if mime == seq!['i', 'm', 'a', 'g', 'e', '/', 'g', 'i', 'f'] {
        102
    } else if mime == seq!['i', 'm', 'a', 'g', 'e', '/', 'w', 'e', 'b', 'p'] {
        103
    } else {
        100
    }
}

/// The Kitty transmit-and-display sequence for a data URL: the format code,
/// a single chunk, and the base64 data after the first comma (trimmed).
pub open spec fn kitty_sequence(data_url0: Seq<char>) -> Seq<char> {
    let s = trim_ws(data_url0);
    let comma = first_index_of(s, ',');
    if !image_data_url(s) || comma >= s.len() {
        seq![]
    } else {
        let mime = match mime_in_data_url(s) {
            Some(m) => m,
            None => seq!['i', 'm', 'a', 'g', 'e', '/', 'p', 'n', 'g'],
        };
        seq!['\x1b', '_', 'G', 'a', '=', 'T', ',', 'f', '='] + decimal(kitty_format(mime)) + seq![
            ',', 'm', '=', '0', '\x1b', '\\'
        ] + trim_ws(s.skip(comma + 1)) + seq!['\x1b', '\\', '\\']
    }
}

/// Generate a Kitty image protocol sequence that transmits and displays the
/// image of a data URL; empty for anything that is not an image data URL.
pub fn kitty_image_sequence(data_url: &str) -> (r: String)
    ensures
        r@ == kitty_sequence(data_url@),
{
    let c = str_chars(data_url);
    let (a, b) = trim_bounds(&c);
    let t = crate::tui::strs::sub_chars(&c, a, b);
    let ts = crate::tui::strs::string_from_chars(&t);
    if !is_data_url(ts.as_str()) {
        return String::new();
    }
    let comma = crate::tui::sgr::find_char_pub(&t, ',');
    if comma >= t.len() {
        return String::new();
    }
    let mime0 = extract_mime_from_data_url(ts.as_str());
    let png = "image/png";
    proof {
        reveal_strlit("image/png");
        reveal_strlit("image/jpeg");
        reveal_strlit("image/gif");
        reveal_strlit("image/webp");
    }
    assert("image/png"@ =~= seq!['i', 'm', 'a', 'g', 'e', '/', 'p', 'n', 'g']);
    assert("image/jpeg"@ =~= seq!['i', 'm', 'a', 'g', 'e', '/', 'j', 'p', 'e', 'g']);
    assert("image/gif"@ =~= seq!['i', 'm', 'a', 'g', 'e', '/', 'g', 'i', 'f']);
    assert("image/webp"@ =~= seq!['i', 'm', 'a', 'g', 'e', '/', 'w', 'e', 'b', 'p']);
    let mime = match mime0 {
        Some(m) => m,
        None => png,
    };
    let mc = str_chars(mime);
    let code: usize = if chars_eq(&mc, &str_chars("image/png")) {
        100
    } else if chars_eq(&mc, &str_chars("image/jpeg")) {
        101
    } else if chars_eq(&mc, &str_chars("image/gif")) {
        102
    } else if chars_eq(&mc, &str_chars("image/webp")) {
        103
    } else {
        100
    };
    let rest = crate::tui::strs::sub_chars(&t, comma + 1, t.len());
    let (ra, rb) = trim_bounds(&rest);
    let data = crate::tui::strs::sub_chars(&rest, ra, rb);
    let mut r = String::new();
    proof {
        reveal_strlit("\x1b_Ga=T,f=");
        reveal_strlit(",m=0\x1b\\");
        reveal_strlit("\x1b\\\\");
    }
    push_str(&mut r, "\x1b_Ga=T,f=");
    push_decimal(&mut r, code);
    push_str(&mut r, ",m=0\x1b\\");
    crate::tui::strs::push_chars(&mut r, &data);
    push_str(&mut r, "\x1b\\\\");
    assert(rest@ =~= t@.skip(comma + 1));
    assert(t@ == trim_ws(data_url@));
    assert(image_data_url(t@));
    assert(code == kitty_format(match mime_in_data_url(t@) {
        Some(m) => m,
        None => seq!['i', 'm', 'a', 'g', 'e', '/', 'p', 'n', 'g'],
    }));
    assert(data@ == trim_ws(t@.skip(comma + 1)));
    assert(r@ =~= kitty_sequence(data_url@));
    r
}

/// The Kitty sequence that places a previously transmitted image.
pub open spec fn kitty_place(placement_id: Seq<char>) -> Seq<char> {
    seq!['\x1b', '_', 'G', 'a', '=', 'p', ',', 'i', '='] + placement_id + seq![
        ',', 'm', '=', '0', '\x1b', '\\', '\\'
    ]
}

/// Generate a Kitty protocol sequence to place a previously transmitted image.
pub fn kitty_place_image(placement_id: &str) -> (r: String)
    ensures
        r@ == kitty_place(placement_id@),
{
    let mut r = String::new();
    proof {
        reveal_strlit("\x1b_Ga=p,i=");
        reveal_strlit(",m=0\x1b\\\\");
    }
    push_str(&mut r, "\x1b_Ga=p,i=");
    push_str(&mut r, placement_id);
    push_str(&mut r, ",m=0\x1b\\\\");
    assert(r@ =~= kitty_place(placement_id@));
    r
}

} // verus!
