//! Resequencing of frames that parallel workers finish out of order: each
//! result is filed under its frame's position in the batch, and results leave
//! strictly in position order.
use vstd::prelude::*;

verus! {

/// Results of a batch of `n` jobs, released in job order.
pub struct ReorderBuffer<T> {
    slots: Vec<Option<T>>,
    next: usize,
}

impl<T> ReorderBuffer<T> {
    /// Results filed and not yet released, by job position.
    pub closed spec fn slots(&self) -> Seq<Option<T>> {
        self.slots@
    }

    /// Position of the next result to release.
    pub closed spec fn next_position(&self) -> nat {
        self.next as nat
    }

    /// Every position before the next one was released and holds nothing.
    pub open spec fn wf(&self) -> bool {
        &&& self.next_position() <= self.slots().len()
        &&& forall|i: int| 0 <= i < self.next_position() ==> #[trigger] self.slots()[i] is None
    }

    /// A buffer for `n` jobs, none finished.
    pub fn new(n: usize) -> (r: ReorderBuffer<T>)
        ensures
            r.wf(),
            r.next_position() == 0,
            r.slots().len() == n,
            forall|i: int| 0 <= i < n ==> #[trigger] r.slots()[i] is None,
    {
        let mut slots: Vec<Option<T>> = Vec::new();
        let mut i: usize = 0;
        while i < n
            invariant
                i <= n,
                slots@.len() == i,
                forall|j: int| 0 <= j < i ==> #[trigger] slots@[j] is None,
            decreases n - i,
        {
            slots.push(None);
            i = i + 1;
        }
        ReorderBuffer { slots, next: 0 }
    }

    /// Whether every result was released.
    pub fn is_complete(&self) -> (r: bool)
        ensures
            r == (self.next_position() >= self.slots().len()),
    {
        self.next >= self.slots.len()
    }

    /// Files the result of job `position`. It is handed back when the
    /// position is outside the batch, already released, or already filed.
    pub fn accept(&mut self, position: usize, item: T) -> (r: Result<(), T>)
        requires
            old(self).wf(),
        ensures
            final(self).wf(),
            final(self).next_position() == old(self).next_position(),
            r is Ok <==> old(self).next_position() <= position < old(self).slots().len()
                && old(self).slots()[position as int] is None,
            r is Ok ==> final(self).slots() == old(self).slots().update(position as int, Some(item)),
            r is Err ==> r == Err::<(), T>(item) && final(self).slots() == old(self).slots(),
    {
        if position < self.next || position >= self.slots.len() {
            return Err(item);
        }
        if self.slots[position].is_some() {
            return Err(item);
        }
        self.slots.set(position, Some(item));
        Ok(())
    }

    /// Releases the result at the next position, if it was filed.
    pub fn pop_ready(&mut self) -> (r: Option<T>)
        requires
            old(self).wf(),
        ensures
            final(self).wf(),
            old(self).next_position() < old(self).slots().len() && old(self).slots()[old(
                self,
            ).next_position() as int] is Some ==> {
                &&& r == old(self).slots()[old(self).next_position() as int]
                &&& final(self).next_position() == old(self).next_position() + 1
                &&& final(self).slots() == old(self).slots().update(
                    old(self).next_position() as int,
                    None,
                )
            },
            !(old(self).next_position() < old(self).slots().len() && old(self).slots()[old(
                self,
            ).next_position() as int] is Some) ==> r is None && *final(self) == *old(self),
    {
        if self.next >= self.slots.len() {
            return None;
        }
        if self.slots[self.next].is_none() {
            return None;
        }
        let mut out: Option<T> = None;
        let ghost before = self.slots@;
        std::mem::swap(&mut out, &mut self.slots[self.next]);
        self.next = self.next + 1;
        assert(self.slots@ == before.update(self.next - 1, None));
        out
    }
}

} // verus!
