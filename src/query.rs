//! Replies of the local frame service: the high-water mark, and a frame's
//! image or an empty "not found".
use vstd::prelude::*;
use crate::index::FrameIndex;

verus! {

/// Status of a reply carrying a frame's image.
pub const STATUS_OK: u16 = 200;

/// Status of a reply for an unknown frame or a failed extraction.
pub const STATUS_NOT_FOUND: u16 = 404;

/// Body of the high-water mark reply.
#[derive(Clone, Copy, Debug, PartialEq, Eq, Structural)]
pub struct FrameInfo {
    pub max_frame: i64,
}

/// A reply to a frame request.
#[derive(Clone, Debug)]
pub struct FrameReply {
    pub status: u16,
    pub body: Vec<u8>,
}

/// The high-water mark reply: the latest frame identifier, 0 before any.
pub fn max_frame_info(idx: &FrameIndex) -> (r: FrameInfo)
    requires
        idx.wf(),
    ensures
        r.max_frame == idx.max_frame(),
{
    FrameInfo { max_frame: idx.max_frame_id() }
}

/// Where to extract frame `id` from: its offset and its chunk's path, or
/// `None` when no such frame was recorded.
pub fn frame_source(idx: &FrameIndex, id: i64) -> (r: Option<(i64, String)>)
    requires
        idx.wf(),
    ensures
        r is Some <==> idx.location(id as int) is Some,
        r matches Some((o, p)) ==> idx.location(id as int) == Some((o as int, p@)),
{
    match idx.get_frame(id) {
        Ok(found) => Some(found),
        Err(_) => None,
    }
}

/// The reply for a frame request, given the encoded image when the frame was
/// found and extracted, or `None` when either failed.
pub fn frame_reply(encoded: Option<Vec<u8>>) -> (r: FrameReply)
    ensures
        encoded matches Some(bytes) ==> r.status == STATUS_OK && r.body@ == bytes@,
        encoded is None ==> r.status == STATUS_NOT_FOUND && r.body@.len() == 0,
{
    match encoded {
        Some(bytes) => FrameReply { status: STATUS_OK, body: bytes },
        None => FrameReply { status: STATUS_NOT_FOUND, body: Vec::new() },
    }
}

} // verus!
