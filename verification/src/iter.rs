//! A rewindable forward cursor over a sequence.
use vstd::prelude::*;

verus! {

/// A cursor over an owned sequence: the items and the index of the next one.
pub struct Iter<T> {
    pub vec: Vec<T>,
    pub pos: usize,
}

impl<T: Clone> Iter<T> {
    /// The cursor's position never runs past the end of its items.
    pub open spec fn wf(&self) -> bool {
        self.pos <= self.vec@.len()
    }

    /// A cursor at the start of `vec`.
    pub fn from(vec: Vec<T>) -> (it: Self)
        ensures
            it.vec@ == vec@,
            it.pos == 0,
            it.wf(),
    {
        Iter { vec, pos: 0 }
    }

    /// Hands out a clone of the item under the cursor and moves one step
    /// forward; at the end nothing moves and nothing is handed out.
    pub fn next(&mut self) -> (r: Option<T>)
        requires
            old(self).wf(),
        ensures
            final(self).wf(),
            final(self).vec@ == old(self).vec@,
            old(self).pos < old(self).vec@.len() ==> r is Some && cloned(
                old(self).vec@[old(self).pos as int],
                r->Some_0,
            ) && final(self).pos == old(self).pos + 1,
            old(self).pos >= old(self).vec@.len() ==> r is None && final(self).pos == old(
                self,
            ).pos,
    {
        if self.pos >= self.vec.len() {
            return None;
        }
        let item: T = self.vec[self.pos].clone();
        self.pos = self.pos + 1;
        Some(item)
    }

    /// A clone of the item under the cursor, if there is one; the cursor
    /// stays.
    pub fn peek(&self) -> (r: Option<T>)
        requires
            self.wf(),
        ensures
            self.pos < self.vec@.len() ==> r is Some && cloned(
                self.vec@[self.pos as int],
                r->Some_0,
            ),
            self.pos >= self.vec@.len() ==> r is None,
    {
        if self.pos >= self.vec.len() {
            return None;
        }
        Some(self.vec[self.pos].clone())
    }

    /// Moves one step back, and stays at the start when already there.
    pub fn step_back(&mut self)
        requires
            old(self).wf(),
        ensures
            final(self).wf(),
            final(self).vec@ == old(self).vec@,
            final(self).pos == if old(self).pos == 0 { 0 } else { old(self).pos - 1 },
    {
        if self.pos > 0 {
            self.pos = self.pos - 1;
        }
    }
}

} // verus!
