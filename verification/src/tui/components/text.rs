//! Multi-line text with word wrapping, padding and styled segments.
use crate::tui::components::lines_component::copy_lines;
use crate::tui::components::pad::{concat3, copies, pad_to_width, padded_to, push_copies};
use crate::tui::components::truncated_text::inner_width;
use crate::tui::image::chars_eq;
use crate::tui::keybindings::strs_view;
use crate::tui::strs::{push_char, push_str, repeat_char, spaces, str_chars, string_from_str, trim_bounds, trim_ws};
use crate::tui::theme::{styled, Style, StyleView};
use crate::tui::wrap::{wrap_text_with_ansi, wrapped_text};
use vstd::prelude::*;

verus! {

broadcast use vstd::string::group_string_axioms;

/// A piece of text and the style it is drawn in.
#[derive(Clone, Debug)]
pub struct StyledSegment {
    pub text: String,
    pub style: Option<Style>,
}

/// The text of a style's application, or the text itself without one.
pub open spec fn apply_opt(st: Option<StyleView>, text: Seq<char>) -> Seq<char> {
    match st {
        Some(s) => styled(s, text),
        None => text,
    }
}

/// The style's view, where there is one.
pub open spec fn style_opt(st: Option<Style>) -> Option<StyleView> {
    match st {
        Some(s) => Some(s@),
        None => None,
    }
}

fn apply_style_opt(st: &Option<Style>, text: &str) -> (r: String)
    ensures
        r@ == apply_opt(style_opt(*st), text@),
{
    match st {
        Some(s) => s.apply(text),
        None => string_from_str(text),
    }
}

fn copy_style_opt(st: &Option<Style>) -> (r: Option<Style>)
    ensures
        style_opt(r) == style_opt(*st),
{
    match st {
        Some(s) => Some(s.copied()),
        None => None,
    }
}

impl StyledSegment {
    /// The text in its style.
    pub fn render(&self) -> (r: String)
        ensures
            r@ == apply_opt(style_opt(self.style), self.text@),
    {
        apply_style_opt(&self.style, self.text.as_str())
    }
}

/// The segments' texts, each in its style, one after another.
pub open spec fn segments_content(segs: Seq<StyledSegment>) -> Seq<char>
    decreases segs.len(),
{
    if segs.len() == 0 {
        seq![]
    } else {
        segments_content(segs.drop_last()) + apply_opt(style_opt(segs.last().style), segs.last().text@)
    }
}

/// Each tab replaced by three spaces.
pub open spec fn expand_tabs(s: Seq<char>) -> Seq<char>
    decreases s.len(),
{
    if s.len() == 0 {
        seq![]
    } else if s.last() == '\t' {
        expand_tabs(s.drop_last()) + seq![' ', ' ', ' ']
    } else {
        expand_tabs(s.drop_last()).push(s.last())
    }
}

/// The content, wrapped to the inner width, where it can be wrapped.
pub open spec fn text_wrapped(content: Seq<char>, px: nat, width: nat) -> Option<Seq<Seq<char>>> {
    wrapped_text(expand_tabs(content), inner_width(width, px) as int)
}

/// What `Text::render` returns: nothing for blank content; otherwise the
/// wrapped lines between `px` columns of margin, padded to the width and
/// styled, between `py` styled blank rows.
pub open spec fn text_render(content: Seq<char>, px: nat, py: nat, st: Option<StyleView>, width: nat) -> Seq<
    Seq<char>,
> {
    if trim_ws(content).len() == 0 {
        seq![]
    } else {
        let margin = repeat_char(' ', px);
        let wrapped = text_wrapped(content, px, width).unwrap();
        let lines = wrapped.map_values(|l: Seq<char>| apply_opt(st, padded_to(margin + l + margin, width)));
        let blank = apply_opt(st, repeat_char(' ', width));
        copies(blank, py) + lines + copies(blank, py)
    }
}

/// Word-wrapped text with padding and a style for whole lines.
pub struct Text {
    segments: Vec<StyledSegment>,
    padding_x: usize,
    padding_y: usize,
    style: Option<Style>,
    cached_content: Option<String>,
    cached_width: Option<usize>,
    cached_lines: Vec<String>,
}

impl Text {
    /// The content: the segments in their styles.
    pub closed spec fn content(&self) -> Seq<char> {
        segments_content(self.segments@)
    }

    /// The horizontal and vertical padding.
    pub closed spec fn paddings(&self) -> (nat, nat) {
        (self.padding_x as nat, self.padding_y as nat)
    }

    /// The style for whole lines.
    pub closed spec fn line_style(&self) -> Option<StyleView> {
        style_opt(self.style)
    }

    /// A cached render is the render of the cached content at the cached width.
    pub closed spec fn wf(&self) -> bool {
        match (self.cached_content, self.cached_width) {
            (Some(c), Some(w)) => strs_view(self.cached_lines@) == text_render(
                c@,
                self.padding_x as nat,
                self.padding_y as nat,
                style_opt(self.style),
                w as nat,
            ),
            _ => true,
        }
    }

    /// One unstyled segment of content.
    pub fn new(content: &str, padding_x: usize, padding_y: usize, style: Option<Style>) -> (t: Self)
        ensures
            t.wf(),
            t.content() == content@,
            t.paddings() == (padding_x as nat, padding_y as nat),
            t.line_style() == style_opt(style),
    {
        let segments = vec![StyledSegment { text: string_from_str(content), style: None }];
        let t = Text {
            segments,
            padding_x,
            padding_y,
            style,
            cached_content: None,
            cached_width: None,
            cached_lines: Vec::new(),
        };
        assert(t.segments@.drop_last() =~= Seq::<StyledSegment>::empty());
        assert(segments_content(Seq::<StyledSegment>::empty()) =~= Seq::<char>::empty());
        assert(t.content() =~= content@);
        t
    }

    /// Content made of styled segments.
    pub fn from_segments(segments: Vec<StyledSegment>, padding_x: usize, padding_y: usize, default_style: Option<Style>) -> (t: Self)
        ensures
            t.wf(),
            t.content() == segments_content(segments@),
            t.paddings() == (padding_x as nat, padding_y as nat),
            t.line_style() == style_opt(default_style),
    {
        Text {
            segments,
            padding_x,
            padding_y,
            style: default_style,
            cached_content: None,
            cached_width: None,
            cached_lines: Vec::new(),
        }
    }

    /// Forget the cached render.
    pub fn invalidate(&mut self)
        ensures
            final(self).wf(),
            final(self).content() == old(self).content(),
            final(self).paddings() == old(self).paddings(),
            final(self).line_style() == old(self).line_style(),
    {
        self.cached_content = None;
        self.cached_width = None;
        self.cached_lines.clear();
    }

    /// Append a segment.
    pub fn push_segment(&mut self, segment: StyledSegment)
        ensures
            final(self).wf(),
            final(self).content() == old(self).content() + apply_opt(style_opt(segment.style), segment.text@),
            final(self).paddings() == old(self).paddings(),
            final(self).line_style() == old(self).line_style(),
    {
        self.cached_content = None;
        let ghost before = self.segments@;
        self.segments.push(segment);
        assert(self.segments@.drop_last() =~= before);
    }

    /// Replace the content with one unstyled segment.
    pub fn set_text(&mut self, content: &str)
        ensures
            final(self).wf(),
            final(self).content() == content@,
            final(self).paddings() == old(self).paddings(),
            final(self).line_style() == old(self).line_style(),
    {
        self.cached_content = None;
        self.segments = vec![StyledSegment { text: string_from_str(content), style: None }];
        assert(self.segments@.drop_last() =~= Seq::<StyledSegment>::empty());
        assert(segments_content(Seq::<StyledSegment>::empty()) =~= Seq::<char>::empty());
        assert(self.content() =~= content@);
    }

    /// Replace the content with styled segments.
    pub fn set_segments(&mut self, segments: Vec<StyledSegment>)
        ensures
            final(self).wf(),
            final(self).content() == segments_content(segments@),
            final(self).paddings() == old(self).paddings(),
            final(self).line_style() == old(self).line_style(),
    {
        self.cached_content = None;
        self.segments = segments;
    }

    /// Set the style for whole lines.
    pub fn set_style(&mut self, style: Option<Style>)
        ensures
            final(self).wf(),
            final(self).content() == old(self).content(),
            final(self).paddings() == old(self).paddings(),
            final(self).line_style() == style_opt(style),
    {
        self.cached_content = None;
        self.style = style;
    }

    fn build_content(&self) -> (r: String)
        ensures
            r@ == self.content(),
    {
        let mut r = String::new();
        let mut i: usize = 0;
        while i < self.segments.len()
            invariant
                0 <= i <= self.segments.len(),
                r@ == segments_content(self.segments@.take(i as int)),
            decreases self.segments.len() - i,
        {
            let piece = self.segments[i].render();
            push_str(&mut r, piece.as_str());
            assert(self.segments@.take(i + 1).drop_last() =~= self.segments@.take(i as int));
            i = i + 1;
        }
        assert(self.segments@.take(self.segments.len() as int) =~= self.segments@);
        r
    }

    /// The content wrapped to the width between margins, padded and styled,
    /// between rows of vertical padding; nothing for blank content.
    pub fn render(&mut self, width: usize) -> (r: Vec<String>)
        requires
            old(self).wf(),
            2 * old(self).paddings().0 <= usize::MAX,
            trim_ws(old(self).content()).len() > 0 ==> text_wrapped(
                old(self).content(),
                old(self).paddings().0,
                width as nat,
            ) is Some,
        ensures
            final(self).wf(),
            final(self).content() == old(self).content(),
            final(self).paddings() == old(self).paddings(),
            final(self).line_style() == old(self).line_style(),
            strs_view(r@) == text_render(
                old(self).content(),
                old(self).paddings().0,
                old(self).paddings().1,
                old(self).line_style(),
                width as nat,
            ),
    {
        let content = self.build_content();
        let ccs = str_chars(content.as_str());
        let hit = match (&self.cached_content, self.cached_width) {
            (Some(c), Some(w)) => w == width && chars_eq(&str_chars(c.as_str()), &ccs),
            _ => false,
        };
        if hit {
            return copy_lines(&self.cached_lines);
        }
        let (a, b) = trim_bounds(&ccs);
        if a == b {
            assert(trim_ws(content@).len() == 0);
            let r: Vec<String> = Vec::new();
            assert(strs_view(r@) =~= Seq::<Seq<char>>::empty());
            return r;
        }
        let normalized = expand_tabs_exec(&ccs);
        let double = 2 * self.padding_x;
        let content_width = if width > double + 1 { width - double } else { 1 };
        let wrapped = wrap_text_with_ansi(normalized.as_str(), content_width);
        let margin = spaces(self.padding_x);
        let ghost wv = text_wrapped(content@, self.padding_x as nat, width as nat).unwrap();
        let ghost st = style_opt(self.style);
        let mut lines: Vec<String> = Vec::new();
        let mut i: usize = 0;
        while i < wrapped.len()
            invariant
                0 <= i <= wrapped.len(),
                wrapped@.map_values(|l: String| l@) == wv,
                margin@ == repeat_char(' ', self.padding_x as nat),
                st == style_opt(self.style),
                strs_view(lines@) =~= wv.take(i as int).map_values(
                    |l: Seq<char>| apply_opt(st, padded_to(margin@ + l + margin@, width as nat)),
                ),
            decreases wrapped.len() - i,
        {
            let with_margins = concat3(margin.as_str(), wrapped[i].as_str(), margin.as_str());
            let padded = pad_to_width(with_margins, width);
            let line = apply_style_opt(&self.style, padded.as_str());
            let ghost before = strs_view(lines@);
            lines.push(line);
            assert(wrapped@[i as int]@ == wv[i as int]);
            assert(strs_view(lines@) =~= before.push(line@));
            assert(wv.take(i + 1) =~= wv.take(i as int).push(wv[i as int]));
            i = i + 1;
        }
        assert(wv.take(wrapped.len() as int) =~= wv);
        let empty_line = spaces(width);
        let blank = apply_style_opt(&self.style, empty_line.as_str());
        let mut result: Vec<String> = Vec::new();
        push_copies(&mut result, blank.as_str(), self.padding_y);
        let ghost top = strs_view(result@);
        let mut rest = lines;
        result.append(&mut rest);
        assert(strs_view(result@) =~= top + strs_view(lines@));
        push_copies(&mut result, blank.as_str(), self.padding_y);
        self.cached_content = None;
        self.cached_lines = copy_lines(&result);
        self.cached_width = Some(width);
        self.cached_content = Some(content);
        assert(strs_view(result@) =~= text_render(
            ccs@,
            self.padding_x as nat,
            self.padding_y as nat,
            style_opt(self.style),
            width as nat,
        ));
        result
    }
}

fn expand_tabs_exec(s: &[char]) -> (r: String)
    ensures
        r@ == expand_tabs(s@),
{
    let mut r = String::new();
    let mut i: usize = 0;
    while i < s.len()
        invariant
            0 <= i <= s.len(),
            r@ == expand_tabs(s@.take(i as int)),
        decreases s.len() - i,
    {
        assert(s@.take(i + 1).drop_last() =~= s@.take(i as int));
        if s[i] == '\t' {
            push_str(&mut r, "   ");
            proof {
                reveal_strlit("   ");
            }
            assert(r@ =~= expand_tabs(s@.take(i + 1)));
        } else {
            push_char(&mut r, s[i]);
        }
        i = i + 1;
    }
    assert(s@.take(s.len() as int) =~= s@);
    r
}

} // verus!
