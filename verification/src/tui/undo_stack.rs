//! Undo history of state snapshots: pushed snapshots are clones, and a pop
//! gives back the most recent one.
use vstd::prelude::*;

verus! {

/// Snapshots, oldest first.
pub struct UndoStack<S> {
    stack: Vec<S>,
}

impl<S> View for UndoStack<S> {
    type V = Seq<S>;

    closed spec fn view(&self) -> Seq<S> {
        self.stack@
    }
}

impl<S: Clone> UndoStack<S> {
    /// An empty history.
    pub fn new() -> (r: Self)
        ensures
            r@ == Seq::<S>::empty(),
    {
        UndoStack { stack: Vec::new() }
    }

    /// Push a clone of the given state.
    pub fn push(&mut self, state: &S)
        ensures
            final(self)@.len() == old(self)@.len() + 1,
            final(self)@.drop_last() == old(self)@,
            cloned::<S>(*state, final(self)@.last()),
    {
        let c = state.clone();
        self.stack.push(c);
        assert(self@.drop_last() =~= old(self)@);
    }

    /// Pop and return the most recent snapshot, or `None` if there is none.
    pub fn pop(&mut self) -> (r: Option<S>)
        ensures
            old(self)@.len() == 0 ==> r is None && final(self)@ == old(self)@,
            old(self)@.len() > 0 ==> r == Some(old(self)@.last()) && final(self)@ == old(
                self,
            )@.drop_last(),
    {
        self.stack.pop()
    }

    /// Remove all snapshots.
    pub fn clear(&mut self)
        ensures
            final(self)@ == Seq::<S>::empty(),
    {
        self.stack.clear();
    }

    /// Number of snapshots.
    pub fn len(&self) -> (n: usize)
        ensures
            n == self@.len(),
    {
        self.stack.len()
    }

    /// Whether there are no snapshots.
    pub fn is_empty(&self) -> (r: bool)
        ensures
            r == (self@.len() == 0),
    {
        self.stack.len() == 0
    }
}

/// A push followed by a pop gives back a clone of the pushed state and
/// leaves the history as it was (`before`: the history at the start, `mid`:
/// after `push(state)`, `popped` and `after`: the result of `pop` and the
/// history after it, each as the contracts of `push` and `pop` state them).
pub proof fn law_push_pop<S: Clone>(before: Seq<S>, mid: Seq<S>, state: S, popped: Option<S>, after: Seq<S>)
    requires
        mid.len() == before.len() + 1,
        mid.drop_last() == before,
        cloned::<S>(state, mid.last()),
        mid.len() == 0 ==> popped is None && after == mid,
        mid.len() > 0 ==> popped == Some(mid.last()) && after == mid.drop_last(),
    ensures
        popped matches Some(v) && cloned::<S>(state, v),
        after == before,
{
}

} // verus!
