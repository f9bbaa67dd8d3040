use timeline::index::{FrameIndex, FrameRecord, IndexError, StoredChunk, TextRecord};
use timeline::pipeline::{encode_outcome, record_batch, EncodeOutcome};
use timeline::query::{frame_reply, frame_source, max_frame_info, STATUS_NOT_FOUND, STATUS_OK};

fn times(n: i64) -> Vec<i64> {
    (0..n).map(|i| 1_000_000 + 2_000_000 * i).collect()
}

fn two_chunks() -> FrameIndex {
    let mut idx = FrameIndex::new();
    assert_eq!(record_batch(&mut idx, EncodeOutcome::Finished, "a.mp4", &times(3)), Ok(Some(1)));
    assert_eq!(record_batch(&mut idx, EncodeOutcome::Finished, "b.mp4", &times(2)), Ok(Some(2)));
    idx
}

#[test]
fn frame_by_id_across_two_chunks() {
    let idx = two_chunks();
    assert_eq!(idx.get_frame(4), Ok((0, "b.mp4".to_string())));
    assert_eq!(idx.get_frame(3), Ok((2, "a.mp4".to_string())));
    assert_eq!(idx.get_frame(1), Ok((0, "a.mp4".to_string())));
    assert_eq!(idx.get_frame(5), Ok((1, "b.mp4".to_string())));
}

#[test]
fn unknown_frame_is_not_found() {
    let idx = two_chunks();
    assert_eq!(idx.get_frame(6), Err(IndexError::NotFound));
    assert_eq!(idx.get_frame(0), Err(IndexError::NotFound));
    assert_eq!(idx.get_frame(-3), Err(IndexError::NotFound));
    assert_eq!(frame_source(&idx, 6), None);
    let reply = frame_reply(None);
    assert_eq!(reply.status, STATUS_NOT_FOUND);
    assert!(reply.body.is_empty());
}

#[test]
fn found_frame_replies_with_image() {
    let idx = two_chunks();
    assert_eq!(frame_source(&idx, 2), Some((1, "a.mp4".to_string())));
    let reply = frame_reply(Some(vec![137, 80, 78, 71]));
    assert_eq!(reply.status, STATUS_OK);
    assert_eq!(reply.body, vec![137, 80, 78, 71]);
}

#[test]
fn max_frame_before_and_after_five_frames() {
    let mut idx = FrameIndex::new();
    assert_eq!(max_frame_info(&idx).max_frame, 0);
    assert_eq!(idx.start_new_video_chunk("c.mp4"), Ok(1));
    for expected in 1..=5i64 {
        assert_eq!(idx.insert_frame_at(Some("editor"), 100 * expected), Ok(expected));
    }
    assert_eq!(max_frame_info(&idx).max_frame, 5);
}

#[test]
fn three_frames_batch_into_one_chunk() {
    let mut idx = FrameIndex::new();
    assert_eq!(record_batch(&mut idx, EncodeOutcome::Finished, "x.mp4", &times(3)), Ok(Some(1)));
    assert_eq!(idx.chunk_count(), 1);
    assert_eq!(idx.chunk_frame_count(1), Some(3));
    assert_eq!(idx.get_frame(1), Ok((0, "x.mp4".to_string())));
    assert_eq!(idx.get_frame(2), Ok((1, "x.mp4".to_string())));
    assert_eq!(idx.get_frame(3), Ok((2, "x.mp4".to_string())));
}

#[test]
fn failed_encode_registers_no_chunk() {
    let mut idx = FrameIndex::new();
    assert_eq!(record_batch(&mut idx, EncodeOutcome::Finished, "1.mp4", &times(2)), Ok(Some(1)));
    assert_eq!(record_batch(&mut idx, EncodeOutcome::Failed, "2.mp4", &times(4)), Ok(None));
    assert_eq!(idx.chunk_count(), 1);
    assert_eq!(idx.max_frame_id(), 2);
    assert_eq!(record_batch(&mut idx, EncodeOutcome::Finished, "3.mp4", &times(1)), Ok(Some(2)));
    assert_eq!(idx.get_frame(3), Ok((0, "3.mp4".to_string())));
}

#[test]
fn thousand_inserts_are_contiguous() {
    let mut idx = FrameIndex::new();
    assert_eq!(idx.start_new_video_chunk("big.mp4"), Ok(1));
    let mut ids = Vec::new();
    for _ in 0..1000 {
        ids.push(idx.insert_frame_at(None, 7).unwrap());
    }
    let expected: Vec<i64> = (1..=1000).collect();
    assert_eq!(ids, expected);
    assert_eq!(idx.chunk_frame_count(1), Some(1000));
}

#[test]
fn frame_needs_an_open_chunk() {
    let mut idx = FrameIndex::new();
    assert_eq!(idx.insert_frame_at(Some("shell"), 1), Err(IndexError::NoOpenChunk));
    assert_eq!(idx.max_frame_id(), 0);
}

#[test]
fn new_chunk_restarts_offsets() {
    let mut idx = two_chunks();
    assert_eq!(idx.start_new_video_chunk("c.mp4"), Ok(3));
    assert_eq!(idx.insert_frame_at(None, 17), Ok(6));
    assert_eq!(idx.get_frame(6), Ok((0, "c.mp4".to_string())));
    assert_eq!(idx.chunk_frame_count(3), Some(1));
    assert_eq!(idx.chunk_frame_count(4), None);
}

#[test]
fn text_at_most_once_per_frame() {
    let mut idx = two_chunks();
    assert_eq!(idx.insert_text_for_frame(2, "hello"), Ok(()));
    assert_eq!(idx.insert_text_for_frame(2, "again"), Err(IndexError::DuplicateText));
    assert_eq!(idx.insert_text_for_frame(9, "nobody"), Err(IndexError::NotFound));
    assert_eq!(idx.insert_text_for_frame(5, "world"), Ok(()));
}

fn frame_row(id: i64, chunk_id: i64, offset_index: i64) -> FrameRecord {
    FrameRecord {
        id,
        chunk_id,
        offset_index,
        timestamp: 1_000 * id,
        active_application_name: String::new(),
    }
}

fn chunk_row(id: i64, path: &str) -> StoredChunk {
    StoredChunk { id, file_path: path.to_string() }
}

#[test]
fn restart_keeps_frame_locations() {
    let before = two_chunks();
    let chunks = vec![chunk_row(1, "a.mp4"), chunk_row(2, "b.mp4")];
    let frames = vec![
        frame_row(1, 1, 0),
        frame_row(2, 1, 1),
        frame_row(3, 1, 2),
        frame_row(4, 2, 0),
        frame_row(5, 2, 1),
    ];
    let texts = vec![TextRecord { frame_id: 4, text: "menu".to_string() }];
    let after = FrameIndex::restore(&chunks, &frames, &texts).unwrap();
    for id in 0..=6 {
        assert_eq!(before.get_frame(id), after.get_frame(id));
    }
    assert_eq!(after.max_frame_id(), 5);
}

#[test]
fn restart_recomputes_offset_from_rows() {
    let chunks = vec![chunk_row(1, "a.mp4"), chunk_row(2, "b.mp4")];
    let frames = vec![frame_row(1, 1, 0), frame_row(2, 2, 0), frame_row(3, 2, 1)];
    let mut idx = FrameIndex::restore(&chunks, &frames, &Vec::new()).unwrap();
    assert_eq!(idx.insert_frame_at(None, 40), Ok(4));
    assert_eq!(idx.get_frame(4), Ok((2, "b.mp4".to_string())));
    assert_eq!(idx.start_new_video_chunk("c.mp4"), Ok(3));
}

#[test]
fn restore_rejects_invalid_rows() {
    let chunks = vec![chunk_row(1, "a.mp4")];
    let gap = vec![frame_row(1, 1, 0), frame_row(3, 1, 1)];
    assert!(matches!(FrameIndex::restore(&chunks, &gap, &Vec::new()), Err(IndexError::Corrupt)));
    let bad_offset = vec![frame_row(1, 1, 0), frame_row(2, 1, 0)];
    assert!(matches!(FrameIndex::restore(&chunks, &bad_offset, &Vec::new()), Err(IndexError::Corrupt)));
    let no_chunk = vec![frame_row(1, 2, 0)];
    assert!(matches!(FrameIndex::restore(&chunks, &no_chunk, &Vec::new()), Err(IndexError::Corrupt)));
    let bad_chunk_id = vec![chunk_row(2, "a.mp4")];
    assert!(matches!(FrameIndex::restore(&bad_chunk_id, &Vec::new(), &Vec::new()), Err(IndexError::Corrupt)));
    let twice = vec![
        TextRecord { frame_id: 1, text: "a".to_string() },
        TextRecord { frame_id: 1, text: "b".to_string() },
    ];
    let one = vec![frame_row(1, 1, 0)];
    assert!(matches!(FrameIndex::restore(&chunks, &one, &twice), Err(IndexError::Corrupt)));
}

#[test]
fn registered_frames_keep_capture_times() {
    let mut idx = two_chunks();
    let captured = vec![50, 60, 70];
    assert_eq!(record_batch(&mut idx, EncodeOutcome::Finished, "c.mp4", &captured), Ok(Some(3)));
    for (q, t) in captured.iter().enumerate() {
        let f = idx.frame_record(6 + q as i64).unwrap();
        assert_eq!(f.id, 6 + q as i64);
        assert_eq!(f.chunk_id, 3);
        assert_eq!(f.offset_index, q as i64);
        assert_eq!(f.timestamp, *t);
        assert_eq!(f.active_application_name, "");
    }
    assert_eq!(idx.frame_record(9).map(|f| f.id), None);
    assert_eq!(idx.chunk_record(3).map(|c| c.file_path), Some("c.mp4".to_string()));
}

#[test]
fn empty_finished_batch_still_opens_a_chunk() {
    let mut idx = two_chunks();
    assert_eq!(record_batch(&mut idx, EncodeOutcome::Finished, "e.mp4", &Vec::new()), Ok(Some(3)));
    assert_eq!(idx.chunk_frame_count(3), Some(0));
    assert_eq!(idx.max_frame_id(), 5);
}

#[test]
fn encode_finishes_only_when_every_step_succeeded() {
    assert_eq!(encode_outcome(true, true, true), EncodeOutcome::Finished);
    assert_eq!(encode_outcome(false, true, true), EncodeOutcome::Failed);
    assert_eq!(encode_outcome(true, false, true), EncodeOutcome::Failed);
    assert_eq!(encode_outcome(true, true, false), EncodeOutcome::Failed);
}
