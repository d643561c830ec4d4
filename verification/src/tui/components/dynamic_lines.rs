//! A buffer of lines that changes from frame to frame, with a cache key
//! that follows its content.
use crate::tui::component::RenderCacheKey;
use crate::tui::components::lines_component::copy_lines;
use crate::tui::keybindings::strs_view;
use std::hash::{Hash, Hasher};
use crate::tui::component::Component;
use vstd::prelude::*;

verus! {

/// The 64-bit `DefaultHasher` digest of a list of lines (their count, then each line).
pub uninterp spec fn lines_hash(lines: Seq<Seq<char>>) -> u64;

/// Hash of the lines with `std`'s `DefaultHasher`.
///
/// Trusted: `DefaultHasher::new()` starts from fixed keys, so the digest is
/// the named function of the lines.
#[verifier::external_body]
fn hash_lines(lines: &Vec<String>) -> (h: u64)
    ensures
        h == lines_hash(strs_view(lines@)),
{
    let mut hasher = std::collections::hash_map::DefaultHasher::new();
    lines.len().hash(&mut hasher);
    for line in lines {
        line.hash(&mut hasher);
    }
    hasher.finish()
}

/// Lines set from outside, rendered as they are.
pub struct DynamicLines {
    lines: Vec<String>,
    last_hash: u64,
}

impl View for DynamicLines {
    type V = (Seq<Seq<char>>, u64);

    closed spec fn view(&self) -> (Seq<Seq<char>>, u64) {
        (strs_view(self.lines@), self.last_hash)
    }
}

impl DynamicLines {
    pub fn new() -> (d: Self)
        ensures
            d@ == (Seq::<Seq<char>>::empty(), 0u64),
    {
        let d = DynamicLines { lines: Vec::new(), last_hash: 0 };
        assert(strs_view(d.lines@) =~= Seq::<Seq<char>>::empty());
        d
    }

    /// Set the lines; the cache key is reset.
    pub fn set_lines(&mut self, new_lines: Vec<String>)
        ensures
            final(self)@ == (strs_view(new_lines@), 0u64),
    {
        self.lines = new_lines;
        self.last_hash = 0;
    }

    /// Remove the lines.
    pub fn clear(&mut self)
        ensures
            final(self)@ == (Seq::<Seq<char>>::empty(), old(self)@.1),
    {
        self.lines.clear();
        assert(strs_view(self.lines@) =~= Seq::<Seq<char>>::empty());
    }

    /// The lines; the cache key takes their hash.
    pub fn render(&mut self, width: usize) -> (r: Vec<String>)
        ensures
            strs_view(r@) == old(self)@.0,
            final(self)@ == (old(self)@.0, lines_hash(old(self)@.0)),
    {
        self.last_hash = hash_lines(&self.lines);
        copy_lines(&self.lines)
    }

    /// The cache key: the width and the hash of the last rendered lines.
    pub fn cache_key(&self, width: usize) -> (k: Option<RenderCacheKey>)
        ensures
            k == Some(RenderCacheKey { width, expanded: false, state_hash: self@.1 }),
    {
        Some(RenderCacheKey { width, expanded: false, state_hash: self.last_hash })
    }
}

impl Default for DynamicLines {
    fn default() -> (d: Self)
        ensures
            d@ == (Seq::<Seq<char>>::empty(), 0u64),
    {
        DynamicLines::new()
    }
}

impl Component for DynamicLines {
    /// The lines; the cache key takes their hash.
    fn render(&mut self, width: usize) -> (r: Vec<String>)
        ensures
            strs_view(r@) == old(self)@.0,
            final(self)@ == (old(self)@.0, lines_hash(old(self)@.0)),
    {
        DynamicLines::render(self, width)
    }

    /// The width and the hash of the last rendered lines.
    fn cache_key(&self, width: usize) -> (k: Option<RenderCacheKey>)
        ensures
            k == Some(RenderCacheKey { width, expanded: false, state_hash: self@.1 }),
    {
        DynamicLines::cache_key(self, width)
    }
}

} // verus!
