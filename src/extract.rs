//! Decisions of the frame extractor. A chunk has no seek index: it is
//! decoded from its first frame on, and each decoded frame is kept exactly
//! when its position is the next requested offset, so offset k costs k + 1
//! decoded frames.
use vstd::prelude::*;

verus! {

/// Why frames could not be extracted from a chunk.
#[derive(Clone, Copy, Debug, PartialEq, Eq, Structural)]
pub enum ExtractError {
    /// The chunk holds no video stream.
    StreamNotFound,
    /// The container or codec failed.
    DecodeError,
    /// An offset is not below the chunk's frame count, or the stream ended
    /// before it was reached.
    OffsetOutOfRange,
}

/// Offsets strictly ascending and none negative.
pub open spec fn ascending(requested: Seq<i64>) -> bool {
    &&& forall|i: int| 0 <= i < requested.len() ==> 0 <= #[trigger] requested[i]
    &&& forall|i: int, j: int|
        0 <= i < j < requested.len() ==> #[trigger] requested[i] < #[trigger] requested[j]
}

/// Every offset lies below the chunk's frame count.
pub open spec fn within_chunk(requested: Seq<i64>, frame_count: int) -> bool {
    forall|i: int| 0 <= i < requested.len() ==> #[trigger] requested[i] < frame_count
}

/// Checks requested offsets against the number of frames in the chunk.
pub fn check_offsets(requested: &Vec<i64>, frame_count: i64) -> (r: Result<(), ExtractError>)
    requires
        ascending(requested@),
    ensures
        r is Ok <==> within_chunk(requested@, frame_count as int),
        r matches Err(e) ==> e == ExtractError::OffsetOutOfRange,
{
    let mut i: usize = 0;
    while i < requested.len()
        invariant
            i <= requested@.len(),
            forall|j: int| 0 <= j < i ==> #[trigger] requested@[j] < frame_count,
        decreases requested@.len() - i,
    {
        if requested[i] >= frame_count {
            return Err(ExtractError::OffsetOutOfRange);
        }
        i = i + 1;
    }
    Ok(())
}

/// The state of one sequential decode of a chunk.
pub struct DecodeWalk {
    requested: Vec<i64>,
    next: usize,
    position: u64,
}

impl DecodeWalk {
    /// The requested offsets, ascending.
    pub closed spec fn requested(&self) -> Seq<i64> {
        self.requested@
    }

    /// How many requested offsets were produced.
    pub closed spec fn produced(&self) -> nat {
        self.next as nat
    }

    /// Position, from 0, of the next frame the decoder yields.
    pub closed spec fn position(&self) -> nat {
        self.position as nat
    }

    /// Every offset produced lies before the current position and the next
    /// wanted one at or after it: no requested offset is ever skipped.
    pub open spec fn wf(&self) -> bool {
        &&& ascending(self.requested())
        &&& self.produced() <= self.requested().len()
        &&& forall|i: int| 0 <= i < self.produced() ==> #[trigger] self.requested()[i] < self.position()
        &&& self.produced() < self.requested().len() ==> self.position() <= self.requested()[self.produced() as int]
    }

    /// A decode that is to produce `requested`, starting at the first frame.
    pub fn new(requested: Vec<i64>) -> (r: DecodeWalk)
        requires
            ascending(requested@),
        ensures
            r.wf(),
            r.requested() == requested@,
            r.produced() == 0,
            r.position() == 0,
    {
        DecodeWalk { requested, next: 0, position: 0 }
    }

    /// Whether every requested offset was produced, so decoding can stop.
    pub fn is_done(&self) -> (r: bool)
        ensures
            r == (self.produced() >= self.requested().len()),
    {
        self.next >= self.requested.len()
    }

    /// The next offset wanted, if any.
    pub fn next_wanted(&self) -> (r: Option<i64>)
        ensures
            r is Some <==> self.produced() < self.requested().len(),
            r matches Some(o) ==> o == self.requested()[self.produced() as int],
    {
        if self.next < self.requested.len() {
            Some(self.requested[self.next])
        } else {
            None
        }
    }

    /// Called for each frame the decoder yields, in order: whether this frame
    /// is the next requested offset and is to be converted and kept. Once
    /// every offset was produced nothing changes.
    pub fn on_decoded(&mut self) -> (r: bool)
        requires
            old(self).wf(),
        ensures
            final(self).wf(),
            final(self).requested() == old(self).requested(),
            old(self).produced() >= old(self).requested().len() ==> !r && *final(self) == *old(self),
            old(self).produced() < old(self).requested().len() ==> {
                &&& r == (old(self).requested()[old(self).produced() as int] == old(self).position())
                &&& final(self).produced() == old(self).produced() + if r {
                    1nat
                } else {
                    0nat
                }
                &&& final(self).position() == old(self).position() + 1
            },
    {
        if self.next >= self.requested.len() {
            return false;
        }
        let hit = self.requested[self.next] as u64 == self.position;
        self.position = self.position + 1;
        if hit {
            self.next = self.next + 1;
        }
        hit
    }

    /// What the extraction comes to when the stream ends: every offset
    /// produced, or `OffsetOutOfRange`.
    pub fn finish(&self) -> (r: Result<(), ExtractError>)
        ensures
            r is Ok <==> self.produced() >= self.requested().len(),
            r matches Err(e) ==> e == ExtractError::OffsetOutOfRange,
    {
        if self.next >= self.requested.len() {
            Ok(())
        } else {
            Err(ExtractError::OffsetOutOfRange)
        }
    }
}

} // verus!
