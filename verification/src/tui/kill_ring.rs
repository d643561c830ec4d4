//! Ring buffer for Emacs-style kill/yank: killed text entries, with
//! consecutive kills accumulating into one entry, yank of the most recent
//! entry and yank-pop cycling through older ones.
use crate::tui::strs::{push_str, string_from_str};
use vstd::prelude::*;

verus! {

/// The ring after one rotation: the last entry moves to the front.
pub open spec fn rotated(s: Seq<Seq<char>>) -> Seq<Seq<char>> {
    if s.len() > 1 {
        seq![s.last()] + s.drop_last()
    } else {
        s
    }
}

/// The ring after `n` rotations.
pub open spec fn rotated_n(s: Seq<Seq<char>>, n: nat) -> Seq<Seq<char>>
    decreases n,
{
    if n == 0 {
        s
    } else {
        rotated(rotated_n(s, (n - 1) as nat))
    }
}

/// The ring after pushing `text`.
pub open spec fn pushed(ring: Seq<Seq<char>>, text: Seq<char>, prepend: bool, accumulate: bool) -> Seq<Seq<char>> {
    if text.len() == 0 {
        ring
    } else if accumulate && ring.len() > 0 {
        ring.update(
            ring.len() - 1,
            if prepend {
                text + ring.last()
            } else {
                ring.last() + text
            },
        )
    } else {
        ring.push(text)
    }
}

/// Killed text entries, oldest first; the last entry is the one yanked.
pub struct KillRing {
    ring: Vec<String>,
}

impl View for KillRing {
    type V = Seq<Seq<char>>;

    closed spec fn view(&self) -> Seq<Seq<char>> {
        self.ring@.map_values(|s: String| s@)
    }
}

impl KillRing {
    /// An empty ring.
    pub fn new() -> (r: Self)
        ensures
            r@ == Seq::<Seq<char>>::empty(),
    {
        let r = KillRing { ring: Vec::new() };
        assert(r@ =~= Seq::<Seq<char>>::empty());
        r
    }

    /// Add text to the kill ring. Empty text is ignored. With `accumulate`
    /// and an existing entry the text joins the most recent entry, before it
    /// when `prepend` is set and after it otherwise; else it becomes a new entry.
    pub fn push(&mut self, text: &str, prepend: bool, accumulate: bool)
        ensures
            final(self)@ == pushed(old(self)@, text@, prepend, accumulate),
    {
        if text.is_empty() {
            return;
        }
        let ghost before = self@;
        if accumulate && self.ring.len() > 0 {
            let mut last = self.ring.pop().unwrap();
            proof {
                assert(last@ == before.last());
            }
            let entry = if prepend {
                let mut e = string_from_str(text);
                push_str(&mut e, last.as_str());
                e
            } else {
                push_str(&mut last, text);
                last
            };
            self.ring.push(entry);
            assert(self@ =~= pushed(before, text@, prepend, accumulate));
            return;
        }
        self.ring.push(string_from_str(text));
        assert(self@ =~= pushed(before, text@, prepend, accumulate));
    }

    /// The most recent entry, without changing the ring.
    pub fn peek(&self) -> (r: Option<&str>)
        ensures
            r matches Some(s) ==> self@.len() > 0 && s@ == self@.last(),
            r is None <==> self@.len() == 0,
    {
        if self.ring.len() == 0 {
            return None;
        }
        let last = &self.ring[self.ring.len() - 1];
        Some(last.as_str())
    }

    /// Move the last entry to the front (for yank-pop cycling).
    pub fn rotate(&mut self)
        ensures
            final(self)@ == rotated(old(self)@),
    {
        if self.ring.len() > 1 {
            let ghost before = self@;
            let last = self.ring.pop().unwrap();
            self.ring.insert(0, last);
            assert(self@ =~= rotated(before));
        }
    }

    /// Number of entries in the ring.
    pub fn len(&self) -> (n: usize)
        ensures
            n == self@.len(),
    {
        self.ring.len()
    }

    /// Whether the ring has no entries.
    pub fn is_empty(&self) -> (r: bool)
        ensures
            r == (self@.len() == 0),
    {
        self.ring.len() == 0
    }
}

/// `n` rotations move the last `n` entries to the front, in order.
pub proof fn lemma_rotated_n(s: Seq<Seq<char>>, n: nat)
    requires
        n <= s.len(),
    ensures
        rotated_n(s, n) == s.skip(s.len() - n) + s.take(s.len() - n),
    decreases n,
{
    if n == 0 {
        assert(s.skip(s.len() as int) + s.take(s.len() as int) =~= s);
    } else {
        lemma_rotated_n(s, (n - 1) as nat);
        let prev = rotated_n(s, (n - 1) as nat);
        let m = s.len() - n;
        if s.len() > 1 {
            assert(rotated(prev) =~= s.skip(m) + s.take(m));
        } else {
            assert(s.skip(m) + s.take(m) =~= s);
            assert(prev =~= s);
        }
    }
}

/// Rotating the ring once per entry brings it back to where it started:
/// yank-pop cycles through every entry and returns to the most recent one.
pub proof fn law_rotate_cycle(s: Seq<Seq<char>>)
    ensures
        rotated_n(s, s.len()) == s,
{
    lemma_rotated_n(s, s.len());
    assert(s.skip(0) + s.take(0) =~= s);
}

/// After pushing non-empty text as a new entry, yanking gives that text.
pub proof fn law_push_then_peek(ring: Seq<Seq<char>>, text: Seq<char>, prepend: bool)
    requires
        text.len() > 0,
    ensures
        pushed(ring, text, prepend, false).last() == text,
        pushed(ring, text, prepend, false).len() == ring.len() + 1,
{
}

/// Accumulating kills concatenate: appending joins after, prepending before.
pub proof fn law_accumulate(ring: Seq<Seq<char>>, text: Seq<char>, prepend: bool)
    requires
        text.len() > 0,
        ring.len() > 0,
    ensures
        pushed(ring, text, prepend, true).len() == ring.len(),
        pushed(ring, text, prepend, true).last() == if prepend {
            text + ring.last()
        } else {
            ring.last() + text
        },
        pushed(ring, text, prepend, true).drop_last() == ring.drop_last(),
{
    assert(pushed(ring, text, prepend, true).drop_last() =~= ring.drop_last());
}

} // verus!
