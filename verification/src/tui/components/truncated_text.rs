//! One line of text cut to the width with an ellipsis.
use crate::tui::components::pad::{copies, pad_to_width, padded_to, push_copies};
use crate::tui::keybindings::strs_view;
use crate::tui::sgr::{find_char_pub, first_index_of};
use crate::tui::strs::{push_str, repeat_char, spaces, str_chars, string_from_chars, string_from_str, sub_chars};
use crate::tui::util::{truncate_to_width, truncated, visible_width_of};
use vstd::prelude::*;

verus! {

broadcast use vstd::string::group_string_axioms;

/// The text up to its first newline.
pub open spec fn first_line(t: Seq<char>) -> Seq<char> {
    t.take(first_index_of(t, '\n'))
}

/// The width left for text between two paddings of `px` columns: at least one.
pub open spec fn inner_width(width: nat, px: nat) -> nat {
    if width > 2 * px + 1 {
        (width - 2 * px) as nat
    } else {
        1
    }
}

/// The text line: the first line cut to the inner width, after `px` spaces,
/// padded to the full width.
pub open spec fn truncated_line(text: Seq<char>, ellipsis: Seq<char>, px: nat, width: nat) -> Seq<char> {
    let display = truncated(first_line(text), inner_width(width, px), ellipsis, false);
    padded_to(repeat_char(' ', px) + display, width)
}

/// What `TruncatedText::render` returns.
pub open spec fn truncated_render(text: Seq<char>, ellipsis: Seq<char>, px: nat, py: nat, width: nat) -> Seq<
    Seq<char>,
> {
    copies(repeat_char(' ', width), py) + seq![truncated_line(text, ellipsis, px, width)] + copies(
        repeat_char(' ', width),
        py,
    )
}

/// Text cut to the width, with padding around it.
pub struct TruncatedText {
    text: String,
    ellipsis: String,
    padding_x: usize,
    padding_y: usize,
    cached_width: Option<usize>,
    cached_line: String,
}

impl TruncatedText {
    /// The text, the ellipsis and the paddings.
    pub closed spec fn parts(&self) -> (Seq<char>, Seq<char>, nat, nat) {
        (self.text@, self.ellipsis@, self.padding_x as nat, self.padding_y as nat)
    }

    /// A cached line is the unpadded render at its width.
    pub closed spec fn wf(&self) -> bool {
        self.cached_width matches Some(w) ==> self.cached_line@ == truncated_line(
            self.text@,
            self.ellipsis@,
            0,
            w as nat,
        )
    }

    pub fn new(text: &str) -> (t: Self)
        ensures
            t.wf(),
            t.parts() == (text@, "..."@, 0nat, 0nat),
    {
        TruncatedText {
            text: string_from_str(text),
            ellipsis: string_from_str("..."),
            padding_x: 0,
            padding_y: 0,
            cached_width: None,
            cached_line: String::new(),
        }
    }

    pub fn with_ellipsis(self, ellipsis: &str) -> (t: Self)
        requires
            self.wf(),
        ensures
            t.wf(),
            t.parts() == (self.parts().0, ellipsis@, self.parts().2, self.parts().3),
    {
        let mut t = self;
        t.cached_width = None;
        t.ellipsis = string_from_str(ellipsis);
        t
    }

    pub fn with_padding(self, padding_x: usize, padding_y: usize) -> (t: Self)
        requires
            self.wf(),
        ensures
            t.wf(),
            t.parts() == (self.parts().0, self.parts().1, padding_x as nat, padding_y as nat),
    {
        let mut t = self;
        t.padding_x = padding_x;
        t.padding_y = padding_y;
        t
    }

    pub fn set_text(&mut self, text: &str)
        requires
            old(self).wf(),
        ensures
            final(self).wf(),
            final(self).parts() == (text@, old(self).parts().1, old(self).parts().2, old(self).parts().3),
    {
        self.cached_width = None;
        self.text = string_from_str(text);
    }

    pub fn set_ellipsis(&mut self, ellipsis: &str)
        requires
            old(self).wf(),
        ensures
            final(self).wf(),
            final(self).parts() == (old(self).parts().0, ellipsis@, old(self).parts().2, old(self).parts().3),
    {
        self.cached_width = None;
        self.ellipsis = string_from_str(ellipsis);
    }

    /// Forget the cached line.
    pub fn invalidate(&mut self)
        requires
            old(self).wf(),
        ensures
            final(self).wf(),
            final(self).parts() == old(self).parts(),
    {
        self.cached_width = None;
    }

    /// Padding rows of spaces, the first line of the text cut to fit with
    /// the ellipsis and padded to the width, and padding rows again.
    pub fn render(&mut self, width: usize) -> (r: Vec<String>)
        requires
            old(self).wf(),
            2 * old(self).parts().2 <= usize::MAX,
            visible_width_of(first_line(old(self).parts().0)) <= usize::MAX,
            visible_width_of(old(self).parts().1) <= usize::MAX,
        ensures
            final(self).wf(),
            final(self).parts() == old(self).parts(),
            strs_view(r@) == truncated_render(
                old(self).parts().0,
                old(self).parts().1,
                old(self).parts().2,
                old(self).parts().3,
                width as nat,
            ),
    {
        if self.padding_x == 0 && self.padding_y == 0 && self.cached_width == Some(width) {
            let r = vec![string_from_str(self.cached_line.as_str())];
            proof {
                assert(repeat_char(' ', 0) =~= Seq::<char>::empty());
                assert(repeat_char(' ', 0) + truncated(first_line(self.text@), inner_width(width as nat, 0), self.ellipsis@, false)
                    =~= truncated(first_line(self.text@), inner_width(width as nat, 0), self.ellipsis@, false));
                assert(strs_view(r@) =~= truncated_render(self.text@, self.ellipsis@, 0, 0, width as nat));
            }
            return r;
        }
        let mut result: Vec<String> = Vec::new();
        let empty_line = spaces(width);
        push_copies(&mut result, empty_line.as_str(), self.padding_y);
        let cs = str_chars(self.text.as_str());
        let nl = find_char_pub(&cs, '\n');
        let first = string_from_chars(&sub_chars(&cs, 0, nl));
        assert(first@ =~= first_line(self.text@));
        let double = 2 * self.padding_x;
        let available = if width > double + 1 { width - double } else { 1 };
        let display = truncate_to_width(first.as_str(), available, self.ellipsis.as_str(), false);
        let mut padded = spaces(self.padding_x);
        push_str(&mut padded, display.as_str());
        let line = pad_to_width(padded, width);
        let ghost mid = strs_view(result@);
        result.push(string_from_str(line.as_str()));
        assert(strs_view(result@) =~= mid.push(line@));
        push_copies(&mut result, empty_line.as_str(), self.padding_y);
        if self.padding_x == 0 && self.padding_y == 0 {
            self.cached_width = None;
            self.cached_line = line;
            self.cached_width = Some(width);
        }
        assert(strs_view(result@) =~= truncated_render(
            self.text@,
            self.ellipsis@,
            self.padding_x as nat,
            self.padding_y as nat,
            width as nat,
        ));
        result
    }
}

} // verus!
