//! Undo/redo history of annotation snapshots.
//!
//! Each snapshot is an opaque byte buffer (the RGBA contents of the
//! annotation layer).  The history keeps two stacks; the sum of their
//! lengths never exceeds the configured capacity.
use vstd::prelude::*;

verus! {

/// Keeps the `n` last elements of `s` (all of them when there are fewer).
pub open spec fn keep_last<T>(s: Seq<T>, n: nat) -> Seq<T> {
    if s.len() > n {
        s.subrange(s.len() - n, s.len() as int)
    } else {
        s
    }
}

/// `after` is `before` once `state` was pushed: the state on top of the
/// undo states (the oldest dropped beyond the capacity), no redo states.
pub open spec fn pushed(before: History, state: Vec<u8>, after: History) -> bool {
    &&& after.undo_states() == keep_last(before.undo_states().push(state), before.capacity())
    &&& after.redo_states() == Seq::<Vec<u8>>::empty()
    &&& after.capacity() == before.capacity()
}

/// `after` is `before` after an undo from `current`, which gave `r`: the
/// newest undo state is given back and `current` goes on the redo states;
/// with no undo state nothing changes.
pub open spec fn undone(before: History, current: Vec<u8>, after: History, r: Option<Vec<u8>>) -> bool {
    &&& before.undo_states().len() == 0 ==> r is None && after == before
    &&& before.undo_states().len() > 0 ==> {
        &&& r == Some(before.undo_states().last())
        &&& after.undo_states() == before.undo_states().drop_last()
        &&& after.redo_states() == before.redo_states().push(current)
    }
    &&& after.capacity() == before.capacity()
}

/// `after` is `before` after a redo from `current`, which gave `r`: the
/// newest redo state is given back and `current` goes on the undo states;
/// with no redo state nothing changes.
pub open spec fn redone(before: History, current: Vec<u8>, after: History, r: Option<Vec<u8>>) -> bool {
    &&& before.redo_states().len() == 0 ==> r is None && after == before
    &&& before.redo_states().len() > 0 ==> {
        &&& r == Some(before.redo_states().last())
        &&& after.redo_states() == before.redo_states().drop_last()
        &&& after.undo_states() == before.undo_states().push(current)
    }
    &&& after.capacity() == before.capacity()
}

/// Undo/redo history stack.
pub struct History {
    /// Past states (for undo); the last element is the most recent.
    undo_stack: Vec<Vec<u8>>,
    /// Future states (for redo); the last element is the next one to redo.
    redo_stack: Vec<Vec<u8>>,
    /// Maximum number of states to keep.
    max_entries: usize,
}

impl History {
    /// The states that `undo` hands back, oldest first.
    pub closed spec fn undo_states(&self) -> Seq<Vec<u8>> {
        self.undo_stack@
    }

    /// The states that `redo` hands back, the next one last.
    pub closed spec fn redo_states(&self) -> Seq<Vec<u8>> {
        self.redo_stack@
    }

    /// The capacity of the history.
    pub closed spec fn capacity(&self) -> nat {
        self.max_entries as nat
    }

    /// The number of states held by both stacks together.
    pub open spec fn held(&self) -> nat {
        self.undo_states().len() + self.redo_states().len()
    }

    /// Create a new history with the given max entries.
    pub fn new(max_entries: usize) -> (h: Self)
        ensures
            h.undo_states() == Seq::<Vec<u8>>::empty(),
            h.redo_states() == Seq::<Vec<u8>>::empty(),
            h.capacity() == max_entries,
            h.held() <= h.capacity(),
    {
        History { undo_stack: Vec::new(), redo_stack: Vec::new(), max_entries }
    }

    /// Push a new state (called before making a change).
    ///
    /// The redo stack is cleared, the state goes on top of the undo stack,
    /// and the oldest states are dropped beyond the capacity.
    pub fn push(&mut self, state: Vec<u8>)
        ensures
            pushed(*old(self), state, *final(self)),
            final(self).held() <= final(self).capacity(),
    {
        self.redo_stack.clear();
        self.undo_stack.push(state);
        let ghost grown = self.undo_stack@;
        while self.undo_stack.len() > self.max_entries
            invariant
                self.max_entries == old(self).max_entries,
                self.redo_stack@ == Seq::<Vec<u8>>::empty(),
                grown == old(self).undo_stack@.push(state),
                grown.len() >= self.undo_stack@.len(),
                self.undo_stack@.len() >= self.max_entries || self.undo_stack@.len() == grown.len(),
                self.undo_stack@ == grown.subrange(grown.len() - self.undo_stack@.len(), grown.len() as int),
            decreases self.undo_stack.len(),
        {
            self.undo_stack.remove(0);
        }
        proof {
            assert(self.undo_stack@ =~= keep_last(grown, self.max_entries as nat));
        }
    }

    /// Pop the last state for undo, saving `current_state` for redo.
    pub fn undo(&mut self, current_state: Vec<u8>) -> (r: Option<Vec<u8>>)
        ensures
            undone(*old(self), current_state, *final(self), r),
            old(self).held() <= old(self).capacity() ==> final(self).held() <= final(self).capacity(),
    {
        if self.undo_stack.len() == 0 {
            return None;
        }
        let state = self.undo_stack.pop();
        self.redo_stack.push(current_state);
        state
    }

    /// Pop from the redo stack, saving `current_state` for undo.
    pub fn redo(&mut self, current_state: Vec<u8>) -> (r: Option<Vec<u8>>)
        ensures
            redone(*old(self), current_state, *final(self), r),
            old(self).held() <= old(self).capacity() ==> final(self).held() <= final(self).capacity(),
    {
        if self.redo_stack.len() == 0 {
            return None;
        }
        let state = self.redo_stack.pop();
        self.undo_stack.push(current_state);
        state
    }

    /// Check if undo is available.
    pub fn can_undo(&self) -> (b: bool)
        ensures
            b == (self.undo_states().len() > 0),
    {
        self.undo_stack.len() != 0
    }

    /// Check if redo is available.
    pub fn can_redo(&self) -> (b: bool)
        ensures
            b == (self.redo_states().len() > 0),
    {
        self.redo_stack.len() != 0
    }

    /// Clear all history.
    pub fn clear(&mut self)
        ensures
            final(self).undo_states() == Seq::<Vec<u8>>::empty(),
            final(self).redo_states() == Seq::<Vec<u8>>::empty(),
            final(self).capacity() == old(self).capacity(),
            final(self).held() <= final(self).capacity(),
    {
        self.undo_stack.clear();
        self.redo_stack.clear();
    }

    /// Get number of undo states.
    pub fn undo_count(&self) -> (n: usize)
        ensures
            n == self.undo_states().len(),
    {
        self.undo_stack.len()
    }

    /// Get number of redo states.
    pub fn redo_count(&self) -> (n: usize)
        ensures
            n == self.redo_states().len(),
    {
        self.redo_stack.len()
    }
}

impl Default for History {
    /// A history that keeps at most 50 states.
    fn default() -> (h: Self)
        ensures
            h.undo_states() == Seq::<Vec<u8>>::empty(),
            h.redo_states() == Seq::<Vec<u8>>::empty(),
            h.capacity() == 50,
    {
        Self::new(50)
    }
}

/// Undoing right after a push gives back the pushed state (when the
/// history keeps any state at all), and leaves the state undone from as the
/// one to redo.
pub proof fn lemma_undo_after_push(h0: History, s: Vec<u8>, h1: History, current: Vec<u8>, h2: History, r: Option<Vec<u8>>)
    requires
        h0.capacity() > 0,
        pushed(h0, s, h1),
        undone(h1, current, h2, r),
    ensures
        r == Some(s),
        h2.redo_states() == seq![current],
        h2.undo_states() == keep_last(h0.undo_states().push(s), h0.capacity()).drop_last(),
{
    let full = h0.undo_states().push(s);
    let kept = keep_last(full, h0.capacity());
    assert(kept.len() > 0);
    assert(kept.last() == s);
    assert(h1.redo_states().push(current) =~= seq![current]);
}

/// A redo right after an undo, from the state the undo gave back, gives back
/// the state undone from and restores both stacks.
pub proof fn lemma_redo_undoes_undo(h0: History, current: Vec<u8>, h1: History, x: Vec<u8>, h2: History, r: Option<Vec<u8>>)
    requires
        h0.undo_states().len() > 0,
        undone(h0, current, h1, Some(x)),
        redone(h1, x, h2, r),
    ensures
        r == Some(current),
        h2.undo_states() == h0.undo_states(),
        h2.redo_states() == h0.redo_states(),
{
    assert(h0.undo_states().drop_last().push(h0.undo_states().last()) =~= h0.undo_states());
    assert(h0.redo_states().push(current).drop_last() =~= h0.redo_states());
}

/// An undo right after a redo, from the state the redo gave back, gives
/// back the state redone from and restores both stacks.
pub proof fn lemma_undo_undoes_redo(h0: History, current: Vec<u8>, h1: History, x: Vec<u8>, h2: History, r: Option<Vec<u8>>)
    requires
        h0.redo_states().len() > 0,
        redone(h0, current, h1, Some(x)),
        undone(h1, x, h2, r),
    ensures
        r == Some(current),
        h2.undo_states() == h0.undo_states(),
        h2.redo_states() == h0.redo_states(),
{
    assert(h0.redo_states().drop_last().push(h0.redo_states().last()) =~= h0.redo_states());
    assert(h0.undo_states().push(current).drop_last() =~= h0.undo_states());
}

/// A push never leaves more states than the capacity, and keeps the most
/// recent ones in order.
pub proof fn lemma_push_keeps_newest(h0: History, s: Vec<u8>, h1: History)
    requires
        pushed(h0, s, h1),
    ensures
        h1.undo_states().len() <= h0.capacity(),
        h1.undo_states().len() == if h0.undo_states().len() + 1 <= h0.capacity() {
            h0.undo_states().len() + 1
        } else {
            h0.capacity()
        },
        h0.capacity() > 0 ==> h1.undo_states().last() == s,
        forall|i: int|
            0 <= i < h1.undo_states().len() ==> #[trigger] h1.undo_states()[i] == h0.undo_states().push(
                s,
            )[h0.undo_states().len() + 1 - h1.undo_states().len() + i],
{
}

} // verus!
