//! A component that shows a buffer of lines as they are.
use crate::tui::keybindings::strs_view;
use crate::tui::strs::string_from_str;
use crate::tui::component::Component;
use vstd::prelude::*;

verus! {

/// Copies of a list of strings.
pub fn copy_lines(v: &Vec<String>) -> (r: Vec<String>)
    ensures
        strs_view(r@) == strs_view(v@),
{
    let mut r: Vec<String> = Vec::new();
    let mut i: usize = 0;
    while i < v.len()
        invariant
            0 <= i <= v.len(),
            strs_view(r@) =~= strs_view(v@).take(i as int),
        decreases v.len() - i,
    {
        let ghost before = r@;
        r.push(string_from_str(v[i].as_str()));
        assert(strs_view(r@) =~= strs_view(before).push(v@[i as int]@));
        assert(strs_view(v@).take(i + 1) =~= strs_view(v@).take(i as int).push(v@[i as int]@));
        i = i + 1;
    }
    assert(strs_view(v@).take(v.len() as int) =~= strs_view(v@));
    r
}

/// A buffer of lines, rendered as they are.
pub struct LinesComponent {
    pub lines: Vec<String>,
}

impl LinesComponent {
    pub fn new() -> (c: Self)
        ensures
            c.lines@.len() == 0,
    {
        LinesComponent { lines: Vec::new() }
    }

    /// Replace the lines.
    pub fn set_lines(&mut self, new_lines: Vec<String>)
        ensures
            final(self).lines@ == new_lines@,
    {
        self.lines = new_lines;
    }

    /// Append a line.
    pub fn push(&mut self, line: String)
        ensures
            final(self).lines@ == old(self).lines@.push(line),
    {
        self.lines.push(line);
    }

    /// Append several lines.
    pub fn extend(&mut self, lines: Vec<String>)
        ensures
            final(self).lines@ == old(self).lines@ + lines@,
    {
        let mut rest = lines;
        self.lines.append(&mut rest);
    }

    /// Remove all lines.
    pub fn clear(&mut self)
        ensures
            final(self).lines@.len() == 0,
    {
        self.lines.clear();
    }

    /// The buffer, whatever the width.
    pub fn render(&self, width: usize) -> (r: Vec<String>)
        ensures
            strs_view(r@) == strs_view(self.lines@),
    {
        copy_lines(&self.lines)
    }
}

impl Default for LinesComponent {
    fn default() -> (c: Self)
        ensures
            c.lines@.len() == 0,
    {
        LinesComponent::new()
    }
}

impl Component for LinesComponent {
    /// The buffer, whatever the width.
    fn render(&mut self, width: usize) -> (r: Vec<String>)
        ensures
            strs_view(r@) == strs_view(old(self).lines@),
            final(self).lines@ == old(self).lines@,
    {
        LinesComponent::render(&*self, width)
    }
}

} // verus!
