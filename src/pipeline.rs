//! What happens to a batch once its encoder has finished: a chunk and its
//! frames are registered only for a chunk file that was completely written.
use vstd::prelude::*;
use crate::index::{FrameIndex, FrameRecord, IndexError};

verus! {

/// How the external encoder ended for one batch.
#[derive(Clone, Copy, Debug, PartialEq, Eq, Structural)]
pub enum EncodeOutcome {
    /// The chunk file was written and closed.
    Finished,
    /// The encoder could not start, a frame could not be handed to it, or it
    /// exited with a failure status.
    Failed,
}

/// How an encode ended: it finished only when the encoder started, every
/// frame was written to it in order and flushed, and it exited successfully.
pub fn encode_outcome(started: bool, all_frames_written: bool, exited_successfully: bool) -> (r:
    EncodeOutcome)
    ensures
        r == EncodeOutcome::Finished <==> started && all_frames_written && exited_successfully,
{
    if started && all_frames_written && exited_successfully {
        EncodeOutcome::Finished
    } else {
        EncodeOutcome::Failed
    }
}

/// The frame that a registered batch holds at batch position `q`.
pub open spec fn batch_frame(f: FrameRecord, id: int, chunk_id: int, q: int, captured: i64) -> bool {
    &&& f.id == id
    &&& f.chunk_id == chunk_id
    &&& f.offset_index == q
    &&& f.timestamp == captured
    &&& f.active_application_name@.len() == 0
}

/// Registers a batch encoded into `file_path` whose frames were captured at
/// `capture_times`, in capture order. A failed encode registers nothing and
/// gives `Ok(None)`. A finished one opens the next chunk and records the
/// frames into it at offsets 0, 1, ... with the next frame identifiers,
/// giving `Ok(Some(chunk id))`; when identifiers would run out it registers
/// nothing and gives `Exhausted`.
pub fn record_batch(
    idx: &mut FrameIndex,
    outcome: EncodeOutcome,
    file_path: &str,
    capture_times: &Vec<i64>,
) -> (r: Result<Option<i64>, IndexError>)
    requires
        old(idx).wf(),
    ensures
        final(idx).wf(),
        final(idx).max_frame() >= old(idx).max_frame(),
        r == Ok::<Option<i64>, IndexError>(None) <==> outcome == EncodeOutcome::Failed,
        outcome == EncodeOutcome::Failed ==> *final(idx) == *old(idx),
        outcome == EncodeOutcome::Finished ==> (r is Ok <==> old(idx).chunks().len() + 1 < i64::MAX
            && old(idx).frames().len() + capture_times@.len() + 1 < i64::MAX),
        r matches Err(e) ==> e == IndexError::Exhausted && *final(idx) == *old(idx),
        r matches Ok(Some(id)) ==> {
            let n = capture_times@.len();
            let m = old(idx).max_frame();
            &&& outcome == EncodeOutcome::Finished
            &&& id == old(idx).current_chunk_id() + 1
            &&& final(idx).current_chunk_id() == id
            &&& final(idx).chunks().len() == old(idx).chunks().len() + 1
            &&& final(idx).chunks().last().id == id
            &&& final(idx).chunks().last().file_path@ == file_path@
            &&& final(idx).chunks().last().frame_count == n
            &&& final(idx).current_offset() == n
            &&& final(idx).max_frame() == m + n
            &&& final(idx).frames().take(m) == old(idx).frames()
            &&& final(idx).texts() == old(idx).texts()
            &&& forall|q: int|
                0 <= q < n ==> batch_frame(
                    #[trigger] final(idx).frames()[m + q],
                    m + 1 + q,
                    id as int,
                    q,
                    capture_times@[q],
                )
            &&& forall|j: int|
                1 <= j <= m ==> final(idx).location(j) == old(idx).location(j)
            &&& forall|q: int|
                0 <= q < n ==> final(idx).location(m + 1 + q) == Some((q, file_path@))
        },
{
    if outcome == EncodeOutcome::Failed {
        return Ok(None);
    }
    let frame_count = capture_times.len();
    let chunks = idx.chunk_count();
    let frames = idx.max_frame_id();
    if chunks >= i64::MAX - 1 || frame_count as u64 >= (i64::MAX - 1) as u64 || frames
        >= i64::MAX - 1 - frame_count as i64 {
        return Err(IndexError::Exhausted);
    }
    let ghost start = *idx;
    let id = match idx.start_new_video_chunk(file_path) {
        Ok(id) => id,
        Err(e) => {
            return Err(e);
        },
    };
    let ghost opened = *idx;
    let mut n: usize = 0;
    while n < frame_count
        invariant
            idx.wf(),
            n <= frame_count,
            frame_count == capture_times@.len(),
            start.wf(),
            frames == start.max_frame(),
            frames + frame_count + 1 < i64::MAX,
            idx.chunks().len() == start.chunks().len() + 1,
            idx.chunks().len() > 0,
            idx.current_chunk_id() == id,
            id == start.current_chunk_id() + 1,
            idx.chunks().last().id == id,
            idx.chunks().last().file_path@ == file_path@,
            idx.current_offset() == n,
            idx.max_frame() == start.max_frame() + n,
            idx.frames().take(start.max_frame()) == start.frames(),
            idx.texts() == start.texts(),
            forall|q: int|
                0 <= q < n ==> batch_frame(
                    #[trigger] idx.frames()[start.max_frame() + q],
                    start.max_frame() + 1 + q,
                    id as int,
                    q,
                    capture_times@[q],
                ),
            forall|j: int| 1 <= j <= start.max_frame() ==> idx.location(j) == start.location(j),
            forall|q: int|
                0 <= q < n ==> idx.location(start.max_frame() + 1 + q) == Some((q, file_path@)),
        decreases frame_count - n,
    {
        let ghost before = *idx;
        let r = idx.insert_frame_at(None, capture_times[n]);
        match r {
            Ok(_) => {},
            Err(_) => {
                assert(false);
            },
        }
        proof {
            let m = start.max_frame();
            assert(idx.frames().take(m) =~= before.frames().take(m));
            assert forall|q: int| 0 <= q < n + 1 implies batch_frame(
                #[trigger] idx.frames()[m + q],
                m + 1 + q,
                id as int,
                q,
                capture_times@[q],
            ) by {
                if q < n {
                    assert(idx.frames()[m + q] == before.frames()[m + q]);
                }
            }
        }
        n = n + 1;
    }
    assert(idx.frames().len() == start.frames().len() + frame_count);
    Ok(Some(id))
}

} // verus!
