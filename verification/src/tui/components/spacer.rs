//! Empty vertical space.
use crate::tui::component::Component;
use vstd::prelude::*;

verus! {

/// A number of empty lines.
pub struct Spacer {
    lines: usize,
}

impl View for Spacer {
    type V = usize;

    closed spec fn view(&self) -> usize {
        self.lines
    }
}

/// `n` empty lines.
pub open spec fn empty_lines(n: nat) -> Seq<Seq<char>> {
    Seq::new(n, |i: int| Seq::<char>::empty())
}

impl Spacer {
    pub fn new(lines: usize) -> (s: Self)
        ensures
            s@ == lines,
    {
        Spacer { lines }
    }

    pub fn set_lines(&mut self, lines: usize)
        ensures
            final(self)@ == lines,
    {
        self.lines = lines;
    }

    /// As many empty strings as there are lines, whatever the width.
    pub fn render(&self, width: usize) -> (r: Vec<String>)
        ensures
            r@.map_values(|l: String| l@) == empty_lines(self@ as nat),
    {
        let mut r: Vec<String> = Vec::new();
        let mut i: usize = 0;
        while i < self.lines
            invariant
                0 <= i <= self.lines,
                r@.map_values(|l: String| l@) =~= empty_lines(i as nat),
            decreases self.lines - i,
        {
            let ghost before = r@;
            let e = String::new();
            assert(e@ =~= Seq::<char>::empty());
            r.push(e);
            assert(r@.map_values(|l: String| l@) =~= before.map_values(|l: String| l@).push(Seq::<char>::empty()));
            i = i + 1;
        }
        r
    }
}

impl Component for Spacer {
    /// As many empty strings as there are lines.
    fn render(&mut self, width: usize) -> (r: Vec<String>)
        ensures
            r@.map_values(|l: String| l@) == empty_lines(old(self)@ as nat),
            final(self)@ == old(self)@,
    {
        Spacer::render(&*self, width)
    }
}

} // verus!
