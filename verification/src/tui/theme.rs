//! Composable text styles that build ANSI escape sequences, the theme colour
//! keys, and the theme interface that components style text through.
use crate::tui::strs::{chars_contain, push_chars, push_repeat, push_str, repeat_char, seq_contains, str_chars, string_from_str, sub_chars};
use crate::tui::image::chars_eq;
use crate::tui::util::{ansi_len_at, esc, extract_ansi_code_at, lemma_ansi_len_bounds, visible_width, visible_width_of};
use vstd::prelude::*;

verus! {

broadcast use vstd::seq_lib::group_seq_properties;

/// A style as values.
pub struct StyleView {
    pub fg: Option<Seq<char>>,
    pub bg: Option<Seq<char>>,
    pub bold: bool,
    pub dim: bool,
    pub italic: bool,
    pub underline: bool,
    pub strikethrough: bool,
    pub reverse: bool,
}

/// Composable text style: colour prefixes and attributes.
#[derive(Clone, Debug)]
pub struct Style {
    fg: Option<String>,
    bg: Option<String>,
    bold: bool,
    dim: bool,
    italic: bool,
    underline: bool,
    strikethrough: bool,
    reverse: bool,
}

impl View for Style {
    type V = StyleView;

    closed spec fn view(&self) -> StyleView {
        StyleView {
            fg: match self.fg {
                Some(f) => Some(f@),
                None => None,
            },
            bg: match self.bg {
                Some(b) => Some(b@),
                None => None,
            },
            bold: self.bold,
            dim: self.dim,
            italic: self.italic,
            underline: self.underline,
            strikethrough: self.strikethrough,
            reverse: self.reverse,
        }
    }
}

/// `ESC [ n m` for a one- or two-digit attribute code given as characters.
pub open spec fn sgr(code: Seq<char>) -> Seq<char> {
    seq!['\x1b', '['] + code + seq!['m']
}

/// `s` when `b` holds, nothing otherwise.
pub open spec fn when(b: bool, s: Seq<char>) -> Seq<char> {
    if b {
        s
    } else {
        seq![]
    }
}

/// The opening sequences of a style: colours, then bold, italic, underline,
/// dim, strikethrough, reverse.
pub open spec fn style_prefix(st: StyleView) -> Seq<char> {
    (match st.fg {
        Some(f) => f,
        None => seq![],
    }) + (match st.bg {
        Some(b) => b,
        None => seq![],
    }) + when(st.bold, sgr(seq!['1'])) + when(st.italic, sgr(seq!['3'])) + when(
        st.underline,
        sgr(seq!['4']),
    ) + when(st.dim, sgr(seq!['2'])) + when(st.strikethrough, sgr(seq!['9'])) + when(
        st.reverse,
        sgr(seq!['7']),
    )
}

/// The closing sequences of a style, in the same order.
pub open spec fn style_suffix(st: StyleView) -> Seq<char> {
    when(st.fg is Some, sgr(seq!['3', '9'])) + when(st.bg is Some, sgr(seq!['4', '9'])) + when(
        st.bold,
        sgr(seq!['2', '2']),
    ) + when(st.italic, sgr(seq!['2', '3'])) + when(st.underline, sgr(seq!['2', '4'])) + when(
        st.dim,
        sgr(seq!['2', '2']),
    ) + when(st.strikethrough, sgr(seq!['2', '9'])) + when(st.reverse, sgr(seq!['2', '7']))
}

/// Whether `text` holds a reset that would clear part of the style.
pub open spec fn has_reset(st: StyleView, text: Seq<char>) -> bool {
    seq_contains(text, sgr(seq!['0'])) || (st.bg is Some && seq_contains(text, sgr(seq!['4', '9'])))
        || (st.fg is Some && seq_contains(text, sgr(seq!['3', '9']))) || (st.bold && seq_contains(
        text,
        sgr(seq!['2', '2']),
    )) || (st.italic && seq_contains(text, sgr(seq!['2', '3']))) || (st.underline
        && seq_contains(text, sgr(seq!['2', '4']))) || (st.strikethrough && seq_contains(
        text,
        sgr(seq!['2', '9']),
    )) || (st.reverse && seq_contains(text, sgr(seq!['2', '7'])))
}

/// What to re-insert after an escape sequence so the style survives it.
pub open spec fn reinsert(st: StyleView, code: Seq<char>) -> Seq<char> {
    if code == sgr(seq!['0']) {
        style_prefix(st)
    } else if code == sgr(seq!['4', '9']) && st.bg is Some {
        st.bg.unwrap()
    } else if code == sgr(seq!['3', '9']) && st.fg is Some {
        st.fg.unwrap()
    } else if code == sgr(seq!['2', '2']) && (st.bold || st.dim) {
        when(st.bold, sgr(seq!['1']))
    } else if code == sgr(seq!['2', '3']) && st.italic {
        sgr(seq!['3'])
    } else if code == sgr(seq!['2', '4']) && st.underline {
        sgr(seq!['4'])
    } else if code == sgr(seq!['2', '7']) && st.reverse {
        sgr(seq!['7'])
    } else if code == sgr(seq!['2', '9']) && st.strikethrough {
        sgr(seq!['9'])
    } else {
        seq![]
    }
}

/// The text from `i` with the style re-inserted after each reset.
pub open spec fn reapply_from(st: StyleView, t: Seq<char>, i: int) -> Seq<char>
    decreases t.len() - i,
{
    if i < 0 || i >= t.len() {
        seq![]
    } else if t[i] == esc() && ansi_len_at(t, i) is Some {
        proof {
            lemma_ansi_len_bounds(t, i);
        }
        let code = t.subrange(i, i + ansi_len_at(t, i).unwrap());
        code + reinsert(st, code) + reapply_from(st, t, i + code.len())
    } else {
        seq![t[i]] + reapply_from(st, t, i + 1)
    }
}

/// `text` with the style applied.
pub open spec fn styled(st: StyleView, text: Seq<char>) -> Seq<char> {
    let prefix = style_prefix(st);
    if !has_reset(st, text) && prefix.len() > 0 {
        prefix + text + style_suffix(st)
    } else if prefix.len() == 0 {
        text
    } else {
        prefix + reapply_from(st, text, 0) + style_suffix(st)
    }
}

/// Appends `ESC [ code m`.
fn push_sgr(s: &mut String, code: &str)
    ensures
        final(s)@ == old(s)@ + sgr(code@),
{
    proof {
        reveal_strlit("\x1b[");
        reveal_strlit("m");
    }
    push_str(s, "\x1b[");
    push_str(s, code);
    push_str(s, "m");
    assert(s@ =~= old(s)@ + sgr(code@));
}

/// A vector holding `ESC [ code m`.
fn sgr_vec(code: &str) -> (v: Vec<char>)
    ensures
        v@ == sgr(code@),
{
    let mut s = String::new();
    push_sgr(&mut s, code);
    str_chars(s.as_str())
}

impl Style {
    /// A copy of this style.
    pub fn copied(&self) -> (s: Self)
        ensures
            s@ == self@,
    {
        Style {
            fg: match &self.fg {
                Some(f) => Some(string_from_str(f.as_str())),
                None => None,
            },
            bg: match &self.bg {
                Some(b) => Some(string_from_str(b.as_str())),
                None => None,
            },
            bold: self.bold,
            dim: self.dim,
            italic: self.italic,
            underline: self.underline,
            strikethrough: self.strikethrough,
            reverse: self.reverse,
        }
    }

    /// No colours and no attributes.
    pub fn new() -> (s: Self)
        ensures
            s@ == (StyleView {
                fg: None,
                bg: None,
                bold: false,
                dim: false,
                italic: false,
                underline: false,
                strikethrough: false,
                reverse: false,
            }),
    {
        Style {
            fg: None,
            bg: None,
            bold: false,
            dim: false,
            italic: false,
            underline: false,
            strikethrough: false,
            reverse: false,
        }
    }

    /// Set the foreground ANSI escape prefix.
    pub fn fg(self, ansi: &str) -> (s: Self)
        ensures
            s@ == (StyleView { fg: Some(ansi@), ..self@ }),
    {
        Style { fg: Some(string_from_str(ansi)), ..self }
    }

    /// Set the background ANSI escape prefix.
    pub fn bg(self, ansi: &str) -> (s: Self)
        ensures
            s@ == (StyleView { bg: Some(ansi@), ..self@ }),
    {
        Style { bg: Some(string_from_str(ansi)), ..self }
    }

    /// Enable bold.
    pub fn bold(self) -> (s: Self)
        ensures
            s@ == (StyleView { bold: true, ..self@ }),
    {
        Style { bold: true, ..self }
    }

    /// Enable dim.
    pub fn dim(self) -> (s: Self)
        ensures
            s@ == (StyleView { dim: true, ..self@ }),
    {
        Style { dim: true, ..self }
    }

    /// Enable italic.
    pub fn italic(self) -> (s: Self)
        ensures
            s@ == (StyleView { italic: true, ..self@ }),
    {
        Style { italic: true, ..self }
    }

    /// Enable underline.
    pub fn underline(self) -> (s: Self)
        ensures
            s@ == (StyleView { underline: true, ..self@ }),
    {
        Style { underline: true, ..self }
    }

    /// Enable strikethrough.
    pub fn strikethrough(self) -> (s: Self)
        ensures
            s@ == (StyleView { strikethrough: true, ..self@ }),
    {
        Style { strikethrough: true, ..self }
    }

    /// Enable reverse video.
    pub fn reverse(self) -> (s: Self)
        ensures
            s@ == (StyleView { reverse: true, ..self@ }),
    {
        Style { reverse: true, ..self }
    }

    /// Whether a foreground colour is set.
    pub fn has_fg(&self) -> (r: bool)
        ensures
            r == (self@.fg is Some),
    {
        self.fg.is_some()
    }

    /// Whether a background colour is set.
    pub fn has_bg(&self) -> (r: bool)
        ensures
            r == (self@.bg is Some),
    {
        self.bg.is_some()
    }

    fn prefix(&self) -> (r: String)
        ensures
            r@ == style_prefix(self@),
    {
        let mut p = String::new();
        match &self.fg {
            Some(f) => push_str(&mut p, f.as_str()),
            None => {},
        }
        match &self.bg {
            Some(b) => push_str(&mut p, b.as_str()),
            None => {},
        }
        let ghost base = p@;
        proof {
            reveal_strlit("1");
            reveal_strlit("3");
            reveal_strlit("4");
            reveal_strlit("2");
            reveal_strlit("9");
            reveal_strlit("7");
        }
        if self.bold {
            push_sgr(&mut p, "1");
        }
        if self.italic {
            push_sgr(&mut p, "3");
        }
        if self.underline {
            push_sgr(&mut p, "4");
        }
        if self.dim {
            push_sgr(&mut p, "2");
        }
        if self.strikethrough {
            push_sgr(&mut p, "9");
        }
        if self.reverse {
            push_sgr(&mut p, "7");
        }
        assert("1"@ =~= seq!['1']);
        assert("3"@ =~= seq!['3']);
        assert("4"@ =~= seq!['4']);
        assert("2"@ =~= seq!['2']);
        assert("9"@ =~= seq!['9']);
        assert("7"@ =~= seq!['7']);
        assert(p@ =~= style_prefix(self@));
        p
    }

    fn suffix(&self) -> (r: String)
        ensures
            r@ == style_suffix(self@),
    {
        let mut p = String::new();
        proof {
            reveal_strlit("39");
            reveal_strlit("49");
            reveal_strlit("22");
            reveal_strlit("23");
            reveal_strlit("24");
            reveal_strlit("29");
            reveal_strlit("27");
        }
        if self.fg.is_some() {
            push_sgr(&mut p, "39");
        }
        if self.bg.is_some() {
            push_sgr(&mut p, "49");
        }
        if self.bold {
            push_sgr(&mut p, "22");
        }
        if self.italic {
            push_sgr(&mut p, "23");
        }
        if self.underline {
            push_sgr(&mut p, "24");
        }
        if self.dim {
            push_sgr(&mut p, "22");
        }
        if self.strikethrough {
            push_sgr(&mut p, "29");
        }
        if self.reverse {
            push_sgr(&mut p, "27");
        }
        assert("39"@ =~= seq!['3', '9']);
        assert("49"@ =~= seq!['4', '9']);
        assert("22"@ =~= seq!['2', '2']);
        assert("23"@ =~= seq!['2', '3']);
        assert("24"@ =~= seq!['2', '4']);
        assert("29"@ =~= seq!['2', '9']);
        assert("27"@ =~= seq!['2', '7']);
        assert(p@ =~= style_suffix(self@));
        p
    }
}

impl Style {
    /// Apply this style to text: opening sequences before, closing ones
    /// after, and, where the text holds resets that would clear the style,
    /// the affected codes re-inserted after each of them.
    pub fn apply(&self, text: &str) -> (r: String)
        ensures
            r@ == styled(self@, text@),
    {
        let prefix = self.prefix();
        let suffix = self.suffix();
        let t = str_chars(text);
        proof {
            reveal_strlit("0");
            reveal_strlit("49");
            reveal_strlit("39");
            reveal_strlit("22");
            reveal_strlit("23");
            reveal_strlit("24");
            reveal_strlit("29");
            reveal_strlit("27");
        }
        assert("0"@ =~= seq!['0']);
        assert("49"@ =~= seq!['4', '9']);
        assert("39"@ =~= seq!['3', '9']);
        assert("22"@ =~= seq!['2', '2']);
        assert("23"@ =~= seq!['2', '3']);
        assert("24"@ =~= seq!['2', '4']);
        assert("29"@ =~= seq!['2', '9']);
        assert("27"@ =~= seq!['2', '7']);
        let r0 = sgr_vec("0");
        let r49 = sgr_vec("49");
        let r39 = sgr_vec("39");
        let r22 = sgr_vec("22");
        let r23 = sgr_vec("23");
        let r24 = sgr_vec("24");
        let r29 = sgr_vec("29");
        let r27 = sgr_vec("27");
        let resets = chars_contain(&t, &r0) || (self.bg.is_some() && chars_contain(&t, &r49))
            || (self.fg.is_some() && chars_contain(&t, &r39)) || (self.bold && chars_contain(
            &t,
            &r22,
        )) || (self.italic && chars_contain(&t, &r23)) || (self.underline && chars_contain(
            &t,
            &r24,
        )) || (self.strikethrough && chars_contain(&t, &r29)) || (self.reverse && chars_contain(
            &t,
            &r27,
        ));
        assert(resets == has_reset(self@, text@));
        let pc = str_chars(prefix.as_str());
        if !resets && pc.len() > 0 {
            let mut r = string_from_str(prefix.as_str());
            push_str(&mut r, text);
            push_str(&mut r, suffix.as_str());
            return r;
        }
        if pc.len() == 0 {
            return string_from_str(text);
        }
        let out = self.reapply(&t, &pc);
        let mut r = String::new();
        push_chars(&mut r, &out);
        push_str(&mut r, suffix.as_str());
        assert(r@ =~= styled(self@, text@));
        r
    }

    /// The prefix followed by the text with the style re-inserted after resets.
    fn reapply(&self, t: &Vec<char>, pc: &Vec<char>) -> (out: Vec<char>)
        requires
            pc@ == style_prefix(self@),
        ensures
            out@ == style_prefix(self@) + reapply_from(self@, t@, 0),
    {
        let mut out: Vec<char> = sub_chars(pc, 0, pc.len());
        let ghost st = self@;
        let mut i: usize = 0;
        while i < t.len()
            invariant
                0 <= i <= t.len(),
                st == self@,
                pc@ == style_prefix(st),
                out@ + reapply_from(st, t@, i as int) == style_prefix(st) + reapply_from(st, t@, 0),
            decreases t.len() - i,
        {
            if t[i] == '\x1b' {
                match extract_ansi_code_at(&t, i) {
                    Some(n) => {
                        proof {
                            lemma_ansi_len_bounds(t@, i as int);
                        }
                        let code = sub_chars(&t, i, i + n);
                        let ghost before = out@;
                        crate::tui::util::append_chars(&mut out, &code);
                        let extra = self.reinsert_exec(&code, pc);
                        crate::tui::util::append_chars(&mut out, &extra);
                        i = i + n;
                        assert(out@ + reapply_from(st, t@, i as int) =~= before + reapply_from(st, t@, (i - n) as int));
                        continue;
                    },
                    None => {},
                }
            }
            let ghost before = out@;
            out.push(t[i]);
            i = i + 1;
            assert(out@ + reapply_from(st, t@, i as int) =~= before + reapply_from(st, t@, (i - 1) as int));
        }
        out
    }

    /// The codes re-inserted after the escape sequence `code`.
    fn reinsert_exec(&self, code: &Vec<char>, pc: &Vec<char>) -> (r: Vec<char>)
        requires
            pc@ == style_prefix(self@),
        ensures
            r@ == reinsert(self@, code@),
    {
        proof {
            reveal_strlit("0");
            reveal_strlit("49");
            reveal_strlit("39");
            reveal_strlit("22");
            reveal_strlit("23");
            reveal_strlit("24");
            reveal_strlit("29");
            reveal_strlit("27");
        }
        assert("0"@ =~= seq!['0']);
        assert("49"@ =~= seq!['4', '9']);
        assert("39"@ =~= seq!['3', '9']);
        assert("22"@ =~= seq!['2', '2']);
        assert("23"@ =~= seq!['2', '3']);
        assert("24"@ =~= seq!['2', '4']);
        assert("29"@ =~= seq!['2', '9']);
        assert("27"@ =~= seq!['2', '7']);
        let r0 = sgr_vec("0");
        let r49 = sgr_vec("49");
        let r39 = sgr_vec("39");
        let r22 = sgr_vec("22");
        let r23 = sgr_vec("23");
        let r24 = sgr_vec("24");
        let r29 = sgr_vec("29");
        let r27 = sgr_vec("27");
        proof {
            reveal_strlit("1");
            reveal_strlit("3");
            reveal_strlit("4");
            reveal_strlit("7");
            reveal_strlit("9");
        }
        assert("1"@ =~= seq!['1']);
        assert("3"@ =~= seq!['3']);
        assert("4"@ =~= seq!['4']);
        assert("7"@ =~= seq!['7']);
        assert("9"@ =~= seq!['9']);
        if chars_eq(code, &r0) {
            sub_chars(pc, 0, pc.len())
        } else if chars_eq(code, &r49) && self.bg.is_some() {
            match &self.bg {
                Some(b) => str_chars(b.as_str()),
                None => Vec::new(),
            }
        } else if chars_eq(code, &r39) && self.fg.is_some() {
            match &self.fg {
                Some(f) => str_chars(f.as_str()),
                None => Vec::new(),
            }
        } else if chars_eq(code, &r22) && (self.bold || self.dim) {
            if self.bold {
                sgr_vec("1")
            } else {
                Vec::new()
            }
        } else if chars_eq(code, &r23) && self.italic {
            sgr_vec("3")
        } else if chars_eq(code, &r24) && self.underline {
            sgr_vec("4")
        } else if chars_eq(code, &r27) && self.reverse {
            sgr_vec("7")
        } else if chars_eq(code, &r29) && self.strikethrough {
            sgr_vec("9")
        } else {
            Vec::new()
        }
    }

    /// Apply this style and pad with spaces to `width` visible columns.
    pub fn apply_padded(&self, text: &str, width: usize) -> (r: String)
        requires
            visible_width_of(styled(self@, text@)) <= usize::MAX,
        ensures
            ({
                let s = styled(self@, text@);
                let vw = visible_width_of(s);
                r@ == if vw < width { s + repeat_char(' ', (width - vw) as nat) } else { s }
            }),
    {
        let mut styled = self.apply(text);
        let vw = visible_width(styled.as_str());
        if vw < width {
            push_repeat(&mut styled, ' ', width - vw);
        }
        styled
    }
}

/// Theme colour keys; each names a colour of the theme configuration.
#[derive(PartialEq, Eq, Structural, Clone, Copy, Debug, Hash)]
pub enum ThemeKey {
    Accent,
    BashMode,
    Border,
    BorderAccent,
    BorderMuted,
    CustomMessageBg,
    CustomMessageLabel,
    CustomMessageText,
    Dim,
    Error,
    MdCode,
    MdCodeBlock,
    MdCodeBlockBorder,
    MdHeading,
    MdHr,
    MdLink,
    MdLinkUrl,
    MdListBullet,
    MdQuote,
    MdQuoteBorder,
    Muted,
    SelectedBg,
    Success,
    SyntaxComment,
    SyntaxFunction,
    SyntaxKeyword,
    SyntaxNumber,
    SyntaxOperator,
    SyntaxPunctuation,
    SyntaxString,
    SyntaxType,
    SyntaxVariable,
    Text,
    ThinkingHigh,
    ThinkingLow,
    ThinkingMedium,
    ThinkingMinimal,
    ThinkingOff,
    ThinkingText,
    ThinkingXhigh,
    ToolDiffAdded,
    ToolDiffContext,
    ToolDiffRemoved,
    ToolErrorBg,
    ToolOutput,
    ToolPendingBg,
    ToolSuccessBg,
    ToolTitle,
    UserMessageBg,
    UserMessageText,
    Warning,
}

/// The configuration name of a key.
pub open spec fn theme_key_name(k: ThemeKey) -> Seq<char> {
    match k {
            ThemeKey::Accent => seq!['a', 'c', 'c', 'e', 'n', 't'],
            ThemeKey::BashMode => seq!['b', 'a', 's', 'h', 'M', 'o', 'd', 'e'],
            ThemeKey::Border => seq!['b', 'o', 'r', 'd', 'e', 'r'],
            ThemeKey::BorderAccent => seq!['b', 'o', 'r', 'd', 'e', 'r', 'A', 'c', 'c', 'e', 'n', 't'],
            ThemeKey::BorderMuted => seq!['b', 'o', 'r', 'd', 'e', 'r', 'M', 'u', 't', 'e', 'd'],
            ThemeKey::CustomMessageBg => seq!['c', 'u', 's', 't', 'o', 'm', 'M', 'e', 's', 's', 'a', 'g', 'e', 'B', 'g'],
            ThemeKey::CustomMessageLabel => seq!['c', 'u', 's', 't', 'o', 'm', 'M', 'e', 's', 's', 'a', 'g', 'e', 'L', 'a', 'b', 'e', 'l'],
            ThemeKey::CustomMessageText => seq!['c', 'u', 's', 't', 'o', 'm', 'M', 'e', 's', 's', 'a', 'g', 'e', 'T', 'e', 'x', 't'],
            ThemeKey::Dim => seq!['d', 'i', 'm'],
            ThemeKey::Error => seq!['e', 'r', 'r', 'o', 'r'],
            ThemeKey::MdCode => seq!['m', 'd', 'C', 'o', 'd', 'e'],
            ThemeKey::MdCodeBlock => seq!['m', 'd', 'C', 'o', 'd', 'e', 'B', 'l', 'o', 'c', 'k'],
            ThemeKey::MdCodeBlockBorder => seq!['m', 'd', 'C', 'o', 'd', 'e', 'B', 'l', 'o', 'c', 'k', 'B', 'o', 'r', 'd', 'e', 'r'],
            ThemeKey::MdHeading => seq!['m', 'd', 'H', 'e', 'a', 'd', 'i', 'n', 'g'],
            ThemeKey::MdHr => seq!['m', 'd', 'H', 'r'],
            ThemeKey::MdLink => seq!['m', 'd', 'L', 'i', 'n', 'k'],
            ThemeKey::MdLinkUrl => seq!['m', 'd', 'L', 'i', 'n', 'k', 'U', 'r', 'l'],
            ThemeKey::MdListBullet => seq!['m', 'd', 'L', 'i', 's', 't', 'B', 'u', 'l', 'l', 'e', 't'],
            ThemeKey::MdQuote => seq!['m', 'd', 'Q', 'u', 'o', 't', 'e'],
            ThemeKey::MdQuoteBorder => seq!['m', 'd', 'Q', 'u', 'o', 't', 'e', 'B', 'o', 'r', 'd', 'e', 'r'],
            ThemeKey::Muted => seq!['m', 'u', 't', 'e', 'd'],
            ThemeKey::SelectedBg => seq!['s', 'e', 'l', 'e', 'c', 't', 'e', 'd', 'B', 'g'],
            ThemeKey::Success => seq!['s', 'u', 'c', 'c', 'e', 's', 's'],
            ThemeKey::SyntaxComment => seq!['s', 'y', 'n', 't', 'a', 'x', 'C', 'o', 'm', 'm', 'e', 'n', 't'],
            ThemeKey::SyntaxFunction => seq!['s', 'y', 'n', 't', 'a', 'x', 'F', 'u', 'n', 'c', 't', 'i', 'o', 'n'],
            ThemeKey::SyntaxKeyword => seq!['s', 'y', 'n', 't', 'a', 'x', 'K', 'e', 'y', 'w', 'o', 'r', 'd'],
            ThemeKey::SyntaxNumber => seq!['s', 'y', 'n', 't', 'a', 'x', 'N', 'u', 'm', 'b', 'e', 'r'],
            ThemeKey::SyntaxOperator => seq!['s', 'y', 'n', 't', 'a', 'x', 'O', 'p', 'e', 'r', 'a', 't', 'o', 'r'],
            ThemeKey::SyntaxPunctuation => seq!['s', 'y', 'n', 't', 'a', 'x', 'P', 'u', 'n', 'c', 't', 'u', 'a', 't', 'i', 'o', 'n'],
            ThemeKey::SyntaxString => seq!['s', 'y', 'n', 't', 'a', 'x', 'S', 't', 'r', 'i', 'n', 'g'],
            ThemeKey::SyntaxType => seq!['s', 'y', 'n', 't', 'a', 'x', 'T', 'y', 'p', 'e'],
            ThemeKey::SyntaxVariable => seq!['s', 'y', 'n', 't', 'a', 'x', 'V', 'a', 'r', 'i', 'a', 'b', 'l', 'e'],
            ThemeKey::Text => seq!['t', 'e', 'x', 't'],
            ThemeKey::ThinkingHigh => seq!['t', 'h', 'i', 'n', 'k', 'i', 'n', 'g', 'H', 'i', 'g', 'h'],
            ThemeKey::ThinkingLow => seq!['t', 'h', 'i', 'n', 'k', 'i', 'n', 'g', 'L', 'o', 'w'],
            ThemeKey::ThinkingMedium => seq!['t', 'h', 'i', 'n', 'k', 'i', 'n', 'g', 'M', 'e', 'd', 'i', 'u', 'm'],
            ThemeKey::ThinkingMinimal => seq!['t', 'h', 'i', 'n', 'k', 'i', 'n', 'g', 'M', 'i', 'n', 'i', 'm', 'a', 'l'],
            ThemeKey::ThinkingOff => seq!['t', 'h', 'i', 'n', 'k', 'i', 'n', 'g', 'O', 'f', 'f'],
            ThemeKey::ThinkingText => seq!['t', 'h', 'i', 'n', 'k', 'i', 'n', 'g', 'T', 'e', 'x', 't'],
            ThemeKey::ThinkingXhigh => seq!['t', 'h', 'i', 'n', 'k', 'i', 'n', 'g', 'X', 'h', 'i', 'g', 'h'],
            ThemeKey::ToolDiffAdded => seq!['t', 'o', 'o', 'l', 'D', 'i', 'f', 'f', 'A', 'd', 'd', 'e', 'd'],
            ThemeKey::ToolDiffContext => seq!['t', 'o', 'o', 'l', 'D', 'i', 'f', 'f', 'C', 'o', 'n', 't', 'e', 'x', 't'],
            ThemeKey::ToolDiffRemoved => seq!['t', 'o', 'o', 'l', 'D', 'i', 'f', 'f', 'R', 'e', 'm', 'o', 'v', 'e', 'd'],
            ThemeKey::ToolErrorBg => seq!['t', 'o', 'o', 'l', 'E', 'r', 'r', 'o', 'r', 'B', 'g'],
            ThemeKey::ToolOutput => seq!['t', 'o', 'o', 'l', 'O', 'u', 't', 'p', 'u', 't'],
            ThemeKey::ToolPendingBg => seq!['t', 'o', 'o', 'l', 'P', 'e', 'n', 'd', 'i', 'n', 'g', 'B', 'g'],
            ThemeKey::ToolSuccessBg => seq!['t', 'o', 'o', 'l', 'S', 'u', 'c', 'c', 'e', 's', 's', 'B', 'g'],
            ThemeKey::ToolTitle => seq!['t', 'o', 'o', 'l', 'T', 'i', 't', 'l', 'e'],
            ThemeKey::UserMessageBg => seq!['u', 's', 'e', 'r', 'M', 'e', 's', 's', 'a', 'g', 'e', 'B', 'g'],
            ThemeKey::UserMessageText => seq!['u', 's', 'e', 'r', 'M', 'e', 's', 's', 'a', 'g', 'e', 'T', 'e', 'x', 't'],
            ThemeKey::Warning => seq!['w', 'a', 'r', 'n', 'i', 'n', 'g'],
    }
}

impl ThemeKey {
    /// The name of the key in theme configuration.
    pub fn as_str(&self) -> (r: &'static str)
        ensures
            r@ == theme_key_name(*self),
    {
        proof {
            reveal_strlit("accent");
            reveal_strlit("bashMode");
            reveal_strlit("border");
            reveal_strlit("borderAccent");
            reveal_strlit("borderMuted");
            reveal_strlit("customMessageBg");
            reveal_strlit("customMessageLabel");
            reveal_strlit("customMessageText");
            reveal_strlit("dim");
            reveal_strlit("error");
            reveal_strlit("mdCode");
            reveal_strlit("mdCodeBlock");
            reveal_strlit("mdCodeBlockBorder");
            reveal_strlit("mdHeading");
            reveal_strlit("mdHr");
            reveal_strlit("mdLink");
            reveal_strlit("mdLinkUrl");
            reveal_strlit("mdListBullet");
            reveal_strlit("mdQuote");
            reveal_strlit("mdQuoteBorder");
            reveal_strlit("muted");
            reveal_strlit("selectedBg");
            reveal_strlit("success");
            reveal_strlit("syntaxComment");
            reveal_strlit("syntaxFunction");
            reveal_strlit("syntaxKeyword");
            reveal_strlit("syntaxNumber");
            reveal_strlit("syntaxOperator");
            reveal_strlit("syntaxPunctuation");
            reveal_strlit("syntaxString");
            reveal_strlit("syntaxType");
            reveal_strlit("syntaxVariable");
            reveal_strlit("text");
            reveal_strlit("thinkingHigh");
            reveal_strlit("thinkingLow");
            reveal_strlit("thinkingMedium");
            reveal_strlit("thinkingMinimal");
            reveal_strlit("thinkingOff");
            reveal_strlit("thinkingText");
            reveal_strlit("thinkingXhigh");
            reveal_strlit("toolDiffAdded");
            reveal_strlit("toolDiffContext");
            reveal_strlit("toolDiffRemoved");
            reveal_strlit("toolErrorBg");
            reveal_strlit("toolOutput");
            reveal_strlit("toolPendingBg");
            reveal_strlit("toolSuccessBg");
            reveal_strlit("toolTitle");
            reveal_strlit("userMessageBg");
            reveal_strlit("userMessageText");
            reveal_strlit("warning");
        }
        assert("accent"@ =~= seq!['a', 'c', 'c', 'e', 'n', 't']);
        assert("bashMode"@ =~= seq!['b', 'a', 's', 'h', 'M', 'o', 'd', 'e']);
        assert("border"@ =~= seq!['b', 'o', 'r', 'd', 'e', 'r']);
        assert("borderAccent"@ =~= seq!['b', 'o', 'r', 'd', 'e', 'r', 'A', 'c', 'c', 'e', 'n', 't']);
        assert("borderMuted"@ =~= seq!['b', 'o', 'r', 'd', 'e', 'r', 'M', 'u', 't', 'e', 'd']);
        assert("customMessageBg"@ =~= seq!['c', 'u', 's', 't', 'o', 'm', 'M', 'e', 's', 's', 'a', 'g', 'e', 'B', 'g']);
        assert("customMessageLabel"@ =~= seq!['c', 'u', 's', 't', 'o', 'm', 'M', 'e', 's', 's', 'a', 'g', 'e', 'L', 'a', 'b', 'e', 'l']);
        assert("customMessageText"@ =~= seq!['c', 'u', 's', 't', 'o', 'm', 'M', 'e', 's', 's', 'a', 'g', 'e', 'T', 'e', 'x', 't']);
        assert("dim"@ =~= seq!['d', 'i', 'm']);
        assert("error"@ =~= seq!['e', 'r', 'r', 'o', 'r']);
        assert("mdCode"@ =~= seq!['m', 'd', 'C', 'o', 'd', 'e']);
        assert("mdCodeBlock"@ =~= seq!['m', 'd', 'C', 'o', 'd', 'e', 'B', 'l', 'o', 'c', 'k']);
        assert("mdCodeBlockBorder"@ =~= seq!['m', 'd', 'C', 'o', 'd', 'e', 'B', 'l', 'o', 'c', 'k', 'B', 'o', 'r', 'd', 'e', 'r']);
        assert("mdHeading"@ =~= seq!['m', 'd', 'H', 'e', 'a', 'd', 'i', 'n', 'g']);
        assert("mdHr"@ =~= seq!['m', 'd', 'H', 'r']);
        assert("mdLink"@ =~= seq!['m', 'd', 'L', 'i', 'n', 'k']);
        assert("mdLinkUrl"@ =~= seq!['m', 'd', 'L', 'i', 'n', 'k', 'U', 'r', 'l']);
        assert("mdListBullet"@ =~= seq!['m', 'd', 'L', 'i', 's', 't', 'B', 'u', 'l', 'l', 'e', 't']);
        assert("mdQuote"@ =~= seq!['m', 'd', 'Q', 'u', 'o', 't', 'e']);
        assert("mdQuoteBorder"@ =~= seq!['m', 'd', 'Q', 'u', 'o', 't', 'e', 'B', 'o', 'r', 'd', 'e', 'r']);
        assert("muted"@ =~= seq!['m', 'u', 't', 'e', 'd']);
        assert("selectedBg"@ =~= seq!['s', 'e', 'l', 'e', 'c', 't', 'e', 'd', 'B', 'g']);
        assert("success"@ =~= seq!['s', 'u', 'c', 'c', 'e', 's', 's']);
        assert("syntaxComment"@ =~= seq!['s', 'y', 'n', 't', 'a', 'x', 'C', 'o', 'm', 'm', 'e', 'n', 't']);
        assert("syntaxFunction"@ =~= seq!['s', 'y', 'n', 't', 'a', 'x', 'F', 'u', 'n', 'c', 't', 'i', 'o', 'n']);
        assert("syntaxKeyword"@ =~= seq!['s', 'y', 'n', 't', 'a', 'x', 'K', 'e', 'y', 'w', 'o', 'r', 'd']);
        assert("syntaxNumber"@ =~= seq!['s', 'y', 'n', 't', 'a', 'x', 'N', 'u', 'm', 'b', 'e', 'r']);
        assert("syntaxOperator"@ =~= seq!['s', 'y', 'n', 't', 'a', 'x', 'O', 'p', 'e', 'r', 'a', 't', 'o', 'r']);
        assert("syntaxPunctuation"@ =~= seq!['s', 'y', 'n', 't', 'a', 'x', 'P', 'u', 'n', 'c', 't', 'u', 'a', 't', 'i', 'o', 'n']);
        assert("syntaxString"@ =~= seq!['s', 'y', 'n', 't', 'a', 'x', 'S', 't', 'r', 'i', 'n', 'g']);
        assert("syntaxType"@ =~= seq!['s', 'y', 'n', 't', 'a', 'x', 'T', 'y', 'p', 'e']);
        assert("syntaxVariable"@ =~= seq!['s', 'y', 'n', 't', 'a', 'x', 'V', 'a', 'r', 'i', 'a', 'b', 'l', 'e']);
        assert("text"@ =~= seq!['t', 'e', 'x', 't']);
        assert("thinkingHigh"@ =~= seq!['t', 'h', 'i', 'n', 'k', 'i', 'n', 'g', 'H', 'i', 'g', 'h']);
        assert("thinkingLow"@ =~= seq!['t', 'h', 'i', 'n', 'k', 'i', 'n', 'g', 'L', 'o', 'w']);
        assert("thinkingMedium"@ =~= seq!['t', 'h', 'i', 'n', 'k', 'i', 'n', 'g', 'M', 'e', 'd', 'i', 'u', 'm']);
        assert("thinkingMinimal"@ =~= seq!['t', 'h', 'i', 'n', 'k', 'i', 'n', 'g', 'M', 'i', 'n', 'i', 'm', 'a', 'l']);
        assert("thinkingOff"@ =~= seq!['t', 'h', 'i', 'n', 'k', 'i', 'n', 'g', 'O', 'f', 'f']);
        assert("thinkingText"@ =~= seq!['t', 'h', 'i', 'n', 'k', 'i', 'n', 'g', 'T', 'e', 'x', 't']);
        assert("thinkingXhigh"@ =~= seq!['t', 'h', 'i', 'n', 'k', 'i', 'n', 'g', 'X', 'h', 'i', 'g', 'h']);
        assert("toolDiffAdded"@ =~= seq!['t', 'o', 'o', 'l', 'D', 'i', 'f', 'f', 'A', 'd', 'd', 'e', 'd']);
        assert("toolDiffContext"@ =~= seq!['t', 'o', 'o', 'l', 'D', 'i', 'f', 'f', 'C', 'o', 'n', 't', 'e', 'x', 't']);
        assert("toolDiffRemoved"@ =~= seq!['t', 'o', 'o', 'l', 'D', 'i', 'f', 'f', 'R', 'e', 'm', 'o', 'v', 'e', 'd']);
        assert("toolErrorBg"@ =~= seq!['t', 'o', 'o', 'l', 'E', 'r', 'r', 'o', 'r', 'B', 'g']);
        assert("toolOutput"@ =~= seq!['t', 'o', 'o', 'l', 'O', 'u', 't', 'p', 'u', 't']);
        assert("toolPendingBg"@ =~= seq!['t', 'o', 'o', 'l', 'P', 'e', 'n', 'd', 'i', 'n', 'g', 'B', 'g']);
        assert("toolSuccessBg"@ =~= seq!['t', 'o', 'o', 'l', 'S', 'u', 'c', 'c', 'e', 's', 's', 'B', 'g']);
        assert("toolTitle"@ =~= seq!['t', 'o', 'o', 'l', 'T', 'i', 't', 'l', 'e']);
        assert("userMessageBg"@ =~= seq!['u', 's', 'e', 'r', 'M', 'e', 's', 's', 'a', 'g', 'e', 'B', 'g']);
        assert("userMessageText"@ =~= seq!['u', 's', 'e', 'r', 'M', 'e', 's', 's', 'a', 'g', 'e', 'T', 'e', 'x', 't']);
        assert("warning"@ =~= seq!['w', 'a', 'r', 'n', 'i', 'n', 'g']);
        match self {
            ThemeKey::Accent => "accent",
            ThemeKey::BashMode => "bashMode",
            ThemeKey::Border => "border",
            ThemeKey::BorderAccent => "borderAccent",
            ThemeKey::BorderMuted => "borderMuted",
            ThemeKey::CustomMessageBg => "customMessageBg",
            ThemeKey::CustomMessageLabel => "customMessageLabel",
            ThemeKey::CustomMessageText => "customMessageText",
            ThemeKey::Dim => "dim",
            ThemeKey::Error => "error",
            ThemeKey::MdCode => "mdCode",
            ThemeKey::MdCodeBlock => "mdCodeBlock",
            ThemeKey::MdCodeBlockBorder => "mdCodeBlockBorder",
            ThemeKey::MdHeading => "mdHeading",
            ThemeKey::MdHr => "mdHr",
            ThemeKey::MdLink => "mdLink",
            ThemeKey::MdLinkUrl => "mdLinkUrl",
            ThemeKey::MdListBullet => "mdListBullet",
            ThemeKey::MdQuote => "mdQuote",
            ThemeKey::MdQuoteBorder => "mdQuoteBorder",
            ThemeKey::Muted => "muted",
            ThemeKey::SelectedBg => "selectedBg",
            ThemeKey::Success => "success",
            ThemeKey::SyntaxComment => "syntaxComment",
            ThemeKey::SyntaxFunction => "syntaxFunction",
            ThemeKey::SyntaxKeyword => "syntaxKeyword",
            ThemeKey::SyntaxNumber => "syntaxNumber",
            ThemeKey::SyntaxOperator => "syntaxOperator",
            ThemeKey::SyntaxPunctuation => "syntaxPunctuation",
            ThemeKey::SyntaxString => "syntaxString",
            ThemeKey::SyntaxType => "syntaxType",
            ThemeKey::SyntaxVariable => "syntaxVariable",
            ThemeKey::Text => "text",
            ThemeKey::ThinkingHigh => "thinkingHigh",
            ThemeKey::ThinkingLow => "thinkingLow",
            ThemeKey::ThinkingMedium => "thinkingMedium",
            ThemeKey::ThinkingMinimal => "thinkingMinimal",
            ThemeKey::ThinkingOff => "thinkingOff",
            ThemeKey::ThinkingText => "thinkingText",
            ThemeKey::ThinkingXhigh => "thinkingXhigh",
            ThemeKey::ToolDiffAdded => "toolDiffAdded",
            ThemeKey::ToolDiffContext => "toolDiffContext",
            ThemeKey::ToolDiffRemoved => "toolDiffRemoved",
            ThemeKey::ToolErrorBg => "toolErrorBg",
            ThemeKey::ToolOutput => "toolOutput",
            ThemeKey::ToolPendingBg => "toolPendingBg",
            ThemeKey::ToolSuccessBg => "toolSuccessBg",
            ThemeKey::ToolTitle => "toolTitle",
            ThemeKey::UserMessageBg => "userMessageBg",
            ThemeKey::UserMessageText => "userMessageText",
            ThemeKey::Warning => "warning",
        }
    }

    /// All theme keys, in declaration order.
    pub fn all() -> (r: Vec<ThemeKey>)
        ensures
            r@.len() == 51,
            forall|k: ThemeKey| r@.contains(k),
    {
        let r = vec![ThemeKey::Accent, ThemeKey::BashMode, ThemeKey::Border, ThemeKey::BorderAccent, ThemeKey::BorderMuted, ThemeKey::CustomMessageBg, ThemeKey::CustomMessageLabel, ThemeKey::CustomMessageText, ThemeKey::Dim, ThemeKey::Error, ThemeKey::MdCode, ThemeKey::MdCodeBlock, ThemeKey::MdCodeBlockBorder, ThemeKey::MdHeading, ThemeKey::MdHr, ThemeKey::MdLink, ThemeKey::MdLinkUrl, ThemeKey::MdListBullet, ThemeKey::MdQuote, ThemeKey::MdQuoteBorder, ThemeKey::Muted, ThemeKey::SelectedBg, ThemeKey::Success, ThemeKey::SyntaxComment, ThemeKey::SyntaxFunction, ThemeKey::SyntaxKeyword, ThemeKey::SyntaxNumber, ThemeKey::SyntaxOperator, ThemeKey::SyntaxPunctuation, ThemeKey::SyntaxString, ThemeKey::SyntaxType, ThemeKey::SyntaxVariable, ThemeKey::Text, ThemeKey::ThinkingHigh, ThemeKey::ThinkingLow, ThemeKey::ThinkingMedium, ThemeKey::ThinkingMinimal, ThemeKey::ThinkingOff, ThemeKey::ThinkingText, ThemeKey::ThinkingXhigh, ThemeKey::ToolDiffAdded, ThemeKey::ToolDiffContext, ThemeKey::ToolDiffRemoved, ThemeKey::ToolErrorBg, ThemeKey::ToolOutput, ThemeKey::ToolPendingBg, ThemeKey::ToolSuccessBg, ThemeKey::ToolTitle, ThemeKey::UserMessageBg, ThemeKey::UserMessageText, ThemeKey::Warning];
        assert forall|k: ThemeKey| r@.contains(k) by {
            match k {
                ThemeKey::Accent => { assert(r@[0] == k); }
                ThemeKey::BashMode => { assert(r@[1] == k); }
                ThemeKey::Border => { assert(r@[2] == k); }
                ThemeKey::BorderAccent => { assert(r@[3] == k); }
                ThemeKey::BorderMuted => { assert(r@[4] == k); }
                ThemeKey::CustomMessageBg => { assert(r@[5] == k); }
                ThemeKey::CustomMessageLabel => { assert(r@[6] == k); }
                ThemeKey::CustomMessageText => { assert(r@[7] == k); }
                ThemeKey::Dim => { assert(r@[8] == k); }
                ThemeKey::Error => { assert(r@[9] == k); }
                ThemeKey::MdCode => { assert(r@[10] == k); }
                ThemeKey::MdCodeBlock => { assert(r@[11] == k); }
                ThemeKey::MdCodeBlockBorder => { assert(r@[12] == k); }
                ThemeKey::MdHeading => { assert(r@[13] == k); }
                ThemeKey::MdHr => { assert(r@[14] == k); }
                ThemeKey::MdLink => { assert(r@[15] == k); }
                ThemeKey::MdLinkUrl => { assert(r@[16] == k); }
                ThemeKey::MdListBullet => { assert(r@[17] == k); }
                ThemeKey::MdQuote => { assert(r@[18] == k); }
                ThemeKey::MdQuoteBorder => { assert(r@[19] == k); }
                ThemeKey::Muted => { assert(r@[20] == k); }
                ThemeKey::SelectedBg => { assert(r@[21] == k); }
                ThemeKey::Success => { assert(r@[22] == k); }
                ThemeKey::SyntaxComment => { assert(r@[23] == k); }
                ThemeKey::SyntaxFunction => { assert(r@[24] == k); }
                ThemeKey::SyntaxKeyword => { assert(r@[25] == k); }
                ThemeKey::SyntaxNumber => { assert(r@[26] == k); }
                ThemeKey::SyntaxOperator => { assert(r@[27] == k); }
                ThemeKey::SyntaxPunctuation => { assert(r@[28] == k); }
                ThemeKey::SyntaxString => { assert(r@[29] == k); }
                ThemeKey::SyntaxType => { assert(r@[30] == k); }
                ThemeKey::SyntaxVariable => { assert(r@[31] == k); }
                ThemeKey::Text => { assert(r@[32] == k); }
                ThemeKey::ThinkingHigh => { assert(r@[33] == k); }
                ThemeKey::ThinkingLow => { assert(r@[34] == k); }
                ThemeKey::ThinkingMedium => { assert(r@[35] == k); }
                ThemeKey::ThinkingMinimal => { assert(r@[36] == k); }
                ThemeKey::ThinkingOff => { assert(r@[37] == k); }
                ThemeKey::ThinkingText => { assert(r@[38] == k); }
                ThemeKey::ThinkingXhigh => { assert(r@[39] == k); }
                ThemeKey::ToolDiffAdded => { assert(r@[40] == k); }
                ThemeKey::ToolDiffContext => { assert(r@[41] == k); }
                ThemeKey::ToolDiffRemoved => { assert(r@[42] == k); }
                ThemeKey::ToolErrorBg => { assert(r@[43] == k); }
                ThemeKey::ToolOutput => { assert(r@[44] == k); }
                ThemeKey::ToolPendingBg => { assert(r@[45] == k); }
                ThemeKey::ToolSuccessBg => { assert(r@[46] == k); }
                ThemeKey::ToolTitle => { assert(r@[47] == k); }
                ThemeKey::UserMessageBg => { assert(r@[48] == k); }
                ThemeKey::UserMessageText => { assert(r@[49] == k); }
                ThemeKey::Warning => { assert(r@[50] == k); }
            }
        }
        r
    }
}

/// Colour styling for components. `color` names are theme colours such as
/// `accent`, `text`, `success`, `error` or `muted`.
pub trait Theme {
    /// The text in a foreground colour.
    spec fn fg_text(&self, color: Seq<char>, text: Seq<char>) -> Seq<char>;

    /// The text on a background colour.
    spec fn bg_text(&self, color: Seq<char>, text: Seq<char>) -> Seq<char>;

    /// The text in reverse video.
    spec fn inverse_text(&self, text: Seq<char>) -> Seq<char>;

    /// Apply a foreground colour to text.
    fn fg(&self, color: &str, text: &str) -> (r: String)
        ensures
            r@ == self.fg_text(color@, text@),
    ;

    /// Apply a background colour to text.
    fn bg(&self, color: &str, text: &str) -> (r: String)
        ensures
            r@ == self.bg_text(color@, text@),
    ;

    /// Apply bold styling.
    fn bold(&self, text: &str) -> String;

    /// Apply italic styling.
    fn italic(&self, text: &str) -> String;

    /// Apply reverse video.
    fn inverse(&self, text: &str) -> (r: String)
        ensures
            r@ == self.inverse_text(text@),
    ;

    /// Apply the foreground colour of a theme key.
    fn fg_key(&self, key: ThemeKey, text: &str) -> (r: String)
        ensures
            r@ == self.fg_text(theme_key_name(key), text@),
    {
        self.fg(key.as_str(), text)
    }

    /// Apply the background colour of a theme key.
    fn bg_key(&self, key: ThemeKey, text: &str) -> (r: String)
        ensures
            r@ == self.bg_text(theme_key_name(key), text@),
    {
        self.bg(key.as_str(), text)
    }
}

/// A theme that leaves text unchanged.
#[derive(Clone, Copy, Debug)]
pub struct NoopTheme;

impl Theme for NoopTheme {
    open spec fn fg_text(&self, color: Seq<char>, text: Seq<char>) -> Seq<char> {
        text
    }

    open spec fn bg_text(&self, color: Seq<char>, text: Seq<char>) -> Seq<char> {
        text
    }

    open spec fn inverse_text(&self, text: Seq<char>) -> Seq<char> {
        text
    }

    fn fg(&self, color: &str, text: &str) -> (r: String)
        ensures
            r@ == text@,
    {
        string_from_str(text)
    }

    fn bg(&self, color: &str, text: &str) -> (r: String)
        ensures
            r@ == text@,
    {
        string_from_str(text)
    }

    fn bold(&self, text: &str) -> (r: String)
        ensures
            r@ == text@,
    {
        string_from_str(text)
    }

    fn italic(&self, text: &str) -> (r: String)
        ensures
            r@ == text@,
    {
        string_from_str(text)
    }

    fn inverse(&self, text: &str) -> (r: String)
        ensures
            r@ == text@,
    {
        string_from_str(text)
    }
}

/// A style that sets nothing leaves any text as it is.
pub proof fn law_plain_style_keeps_text(st: StyleView, text: Seq<char>)
    requires
        st.fg is None,
        st.bg is None,
        !st.bold,
        !st.dim,
        !st.italic,
        !st.underline,
        !st.strikethrough,
        !st.reverse,
    ensures
        styled(st, text) == text,
{
    assert(style_prefix(st) =~= Seq::<char>::empty());
}

} // verus!
