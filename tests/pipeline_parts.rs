use timeline::buffer::FrameBuffer;
use timeline::extract::{check_offsets, DecodeWalk, ExtractError};
use timeline::reorder::ReorderBuffer;

#[test]
fn buffer_releases_batch_at_threshold_in_capture_order() {
    let mut buffer: FrameBuffer<u32> = FrameBuffer::new(3);
    assert_eq!(buffer.capacity(), 6);
    assert_eq!(buffer.push(10), Ok(()));
    assert_eq!(buffer.push(11), Ok(()));
    assert!(!buffer.is_ready());
    assert_eq!(buffer.push(12), Ok(()));
    assert!(buffer.is_ready());
    assert_eq!(buffer.take_batch(), vec![10, 11, 12]);
    assert_eq!(buffer.len(), 0);
    assert!(!buffer.is_ready());
}

#[test]
fn buffer_refuses_push_at_hard_bound() {
    let mut buffer: FrameBuffer<u32> = FrameBuffer::new(2);
    for i in 0..4 {
        assert_eq!(buffer.push(i), Ok(()));
    }
    assert!(buffer.is_full());
    assert_eq!(buffer.push(99), Err(99));
    assert_eq!(buffer.take_batch(), vec![0, 1, 2, 3]);
    assert_eq!(buffer.push(99), Ok(()));
}

#[test]
fn short_final_batch_is_flushed() {
    let mut buffer: FrameBuffer<&str> = FrameBuffer::new(30);
    assert_eq!(buffer.push("last"), Ok(()));
    assert!(!buffer.is_ready());
    assert_eq!(buffer.take_batch(), vec!["last"]);
}

#[test]
fn reorder_releases_in_position_order() {
    let mut r: ReorderBuffer<&str> = ReorderBuffer::new(3);
    assert_eq!(r.accept(2, "c"), Ok(()));
    assert_eq!(r.pop_ready(), None);
    assert_eq!(r.accept(0, "a"), Ok(()));
    assert_eq!(r.accept(0, "again"), Err("again"));
    assert_eq!(r.pop_ready(), Some("a"));
    assert_eq!(r.pop_ready(), None);
    assert_eq!(r.accept(1, "b"), Ok(()));
    assert_eq!(r.pop_ready(), Some("b"));
    assert_eq!(r.pop_ready(), Some("c"));
    assert!(r.is_complete());
    assert_eq!(r.accept(3, "d"), Err("d"));
    assert_eq!(r.accept(1, "late"), Err("late"));
}

#[test]
fn offset_beyond_chunk_is_out_of_range() {
    assert_eq!(check_offsets(&vec![0, 2], 3), Ok(()));
    assert_eq!(check_offsets(&vec![3], 3), Err(ExtractError::OffsetOutOfRange));
    assert_eq!(check_offsets(&vec![1, 7], 3), Err(ExtractError::OffsetOutOfRange));
    assert_eq!(check_offsets(&vec![], 0), Ok(()));
}

#[test]
fn decode_walk_keeps_requested_positions() {
    let mut walk = DecodeWalk::new(vec![1, 3]);
    let mut kept = Vec::new();
    let mut decoded = 0;
    while !walk.is_done() {
        if walk.on_decoded() {
            kept.push(decoded);
        }
        decoded += 1;
    }
    assert_eq!(kept, vec![1, 3]);
    assert_eq!(decoded, 4);
    assert_eq!(walk.finish(), Ok(()));
    assert!(!walk.on_decoded());
}

#[test]
fn stream_ending_early_is_out_of_range() {
    let mut walk = DecodeWalk::new(vec![5]);
    for _ in 0..3 {
        assert!(!walk.on_decoded());
    }
    assert_eq!(walk.next_wanted(), Some(5));
    assert_eq!(walk.finish(), Err(ExtractError::OffsetOutOfRange));
}
