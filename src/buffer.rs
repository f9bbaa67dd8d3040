//! The frame buffer between the capture cadence and the encode cadence: a
//! bounded sequence that is drained whole, as one ordered batch, once it
//! holds a threshold of frames (or when recording stops).
use vstd::prelude::*;

verus! {

/// A bounded batch buffer. Captures beyond the hard bound are refused, and
/// the producer holds on to them until a batch is drained.
pub struct FrameBuffer<T> {
    items: Vec<T>,
    threshold: usize,
    capacity: usize,
}

impl<T> FrameBuffer<T> {
    /// The frames waiting, oldest first.
    pub closed spec fn items(&self) -> Seq<T> {
        self.items@
    }

    pub closed spec fn spec_threshold(&self) -> nat {
        self.threshold as nat
    }

    pub closed spec fn spec_capacity(&self) -> nat {
        self.capacity as nat
    }

    /// The threshold is positive, the hard bound is twice it, and the buffer
    /// never holds more than the bound.
    pub open spec fn wf(&self) -> bool {
        &&& 0 < self.spec_threshold()
        &&& self.spec_capacity() == 2 * self.spec_threshold()
        &&& self.items().len() <= self.spec_capacity()
    }

    /// An empty buffer that forms batches of `threshold` frames and holds at
    /// most twice that many.
    pub fn new(threshold: usize) -> (r: FrameBuffer<T>)
        requires
            0 < threshold,
            2 * threshold <= usize::MAX,
        ensures
            r.wf(),
            r.items().len() == 0,
            r.spec_threshold() == threshold,
    {
        FrameBuffer { items: Vec::new(), threshold, capacity: threshold * 2 }
    }

    /// Number of frames waiting.
    pub fn len(&self) -> (r: usize)
        ensures
            r == self.items().len(),
    {
        self.items.len()
    }

    /// The batch threshold.
    pub fn threshold(&self) -> (r: usize)
        ensures
            r == self.spec_threshold(),
    {
        self.threshold
    }

    /// The hard bound on frames waiting.
    pub fn capacity(&self) -> (r: usize)
        ensures
            r == self.spec_capacity(),
    {
        self.capacity
    }

    /// Whether the buffer is at its hard bound, so that a push is refused.
    pub fn is_full(&self) -> (r: bool)
        ensures
            r == (self.items().len() >= self.spec_capacity()),
    {
        self.items.len() >= self.capacity
    }

    /// Whether a batch is due: the buffer holds at least the threshold.
    pub fn is_ready(&self) -> (r: bool)
        ensures
            r == (self.items().len() >= self.spec_threshold()),
    {
        self.items.len() >= self.threshold
    }

    /// Appends a captured frame, or hands it back when the buffer is at its
    /// hard bound.
    pub fn push(&mut self, item: T) -> (r: Result<(), T>)
        requires
            old(self).wf(),
        ensures
            final(self).wf(),
            final(self).spec_threshold() == old(self).spec_threshold(),
            old(self).items().len() < old(self).spec_capacity() ==> r is Ok && final(self).items()
                == old(self).items().push(item),
            old(self).items().len() >= old(self).spec_capacity() ==> r == Err::<(), T>(item)
                && final(self).items() == old(self).items(),
    {
        if self.items.len() >= self.capacity {
            Err(item)
        } else {
            self.items.push(item);
            Ok(())
        }
    }

    /// Takes every frame waiting as one batch, oldest first, and leaves the
    /// buffer empty.
    pub fn take_batch(&mut self) -> (r: Vec<T>)
        requires
            old(self).wf(),
        ensures
            final(self).wf(),
            final(self).spec_threshold() == old(self).spec_threshold(),
            r@ == old(self).items(),
            final(self).items().len() == 0,
    {
        let mut batch: Vec<T> = Vec::new();
        std::mem::swap(&mut batch, &mut self.items);
        batch
    }
}

} // verus!
