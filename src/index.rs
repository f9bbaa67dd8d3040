//! The index store: video chunks, the frames recorded into them and the text
//! recognised on each frame. Identifiers are assigned here, in order: the
//! k-th chunk has identifier k and the i-th frame has identifier i, so they
//! are never reused or skipped.
use vstd::prelude::*;

verus! {

/// A video chunk: one encoded file holding a contiguous run of frames.
#[derive(Clone, Debug)]
pub struct ChunkRecord {
    pub id: i64,
    pub file_path: String,
    pub frame_count: i64,
}

/// A chunk as the durable store keeps it: identifier and file path.
#[derive(Clone, Debug)]
pub struct StoredChunk {
    pub id: i64,
    pub file_path: String,
}

/// One recorded frame and where it lives.
#[derive(Clone, Debug)]
pub struct FrameRecord {
    pub id: i64,
    pub chunk_id: i64,
    pub offset_index: i64,
    /// Capture time, in microseconds since the Unix epoch.
    pub timestamp: i64,
    pub active_application_name: String,
}

/// Text recognised on a frame.
#[derive(Clone, Debug)]
pub struct TextRecord {
    pub frame_id: i64,
    pub text: String,
}

/// Why an index operation was refused.
#[derive(Clone, Copy, Debug, PartialEq, Eq, Structural)]
pub enum IndexError {
    /// No frame has the requested identifier.
    NotFound,
    /// A frame was recorded before any chunk was opened.
    NoOpenChunk,
    /// Text was already recorded for that frame.
    DuplicateText,
    /// No further identifier fits in `i64`.
    Exhausted,
    /// Stored rows do not form a valid index.
    Corrupt,
}

/// Number of frames in `frames` that belong to chunk `chunk_id`.
pub open spec fn count_in(frames: Seq<FrameRecord>, chunk_id: int) -> nat
    decreases frames.len(),
{
    if frames.len() == 0 {
        0
    } else {
        count_in(frames.drop_last(), chunk_id) + if frames.last().chunk_id == chunk_id {
            1nat
        } else {
            0nat
        }
    }
}

/// Whether some text record is about frame `frame_id`.
pub open spec fn has_text(texts: Seq<TextRecord>, frame_id: int) -> bool {
    exists|t: int| 0 <= t < texts.len() && #[trigger] texts[t].frame_id == frame_id
}

/// Appending a frame counts it for its own chunk only.
pub proof fn lemma_count_push(frames: Seq<FrameRecord>, f: FrameRecord, chunk_id: int)
    ensures
        count_in(frames.push(f), chunk_id) == count_in(frames, chunk_id) + if f.chunk_id
            == chunk_id {
            1nat
        } else {
            0nat
        },
{
    assert(frames.push(f).drop_last() =~= frames);
}

/// A chunk that no frame names has no frames.
pub proof fn lemma_count_absent(frames: Seq<FrameRecord>, chunk_id: int)
    requires
        forall|i: int| 0 <= i < frames.len() ==> #[trigger] frames[i].chunk_id != chunk_id,
    ensures
        count_in(frames, chunk_id) == 0,
    decreases frames.len(),
{
    if frames.len() > 0 {
        let rest = frames.drop_last();
        assert forall|i: int| 0 <= i < rest.len() implies #[trigger] rest[i].chunk_id
            != chunk_id by {
            assert(rest[i] == frames[i]);
        }
        lemma_count_absent(rest, chunk_id);
    }
}

/// A chunk never counts more frames than there are.
pub proof fn lemma_count_bound(frames: Seq<FrameRecord>, chunk_id: int)
    ensures
        count_in(frames, chunk_id) <= frames.len(),
    decreases frames.len(),
{
    if frames.len() > 0 {
        lemma_count_bound(frames.drop_last(), chunk_id);
    }
}

/// The prefix before position `i` counts strictly fewer frames of the chunk
/// of frame `i` than the prefix before any later position `j`.
pub proof fn lemma_count_grows(frames: Seq<FrameRecord>, i: int, j: int)
    requires
        0 <= i < j <= frames.len(),
    ensures
        count_in(frames.take(i), frames[i].chunk_id as int) < count_in(
            frames.take(j),
            frames[i].chunk_id as int,
        ),
    decreases j - i,
{
    assert(frames.take(j).drop_last() =~= frames.take(j - 1));
    if j == i + 1 {
        assert(frames.take(j).last() == frames[i]);
    } else {
        lemma_count_grows(frames, i, j - 1);
    }
}

/// Whether stored rows form a valid index: identifiers are positional,
/// every frame names a stored chunk and its offset counts the earlier frames
/// of that chunk.
pub open spec fn rows_valid(chunks: Seq<StoredChunk>, frames: Seq<FrameRecord>) -> bool {
    &&& chunks.len() + 1 < i64::MAX
    &&& frames.len() + 1 < i64::MAX
    &&& forall|k: int| 0 <= k < chunks.len() ==> #[trigger] chunks[k].id == k + 1
    &&& forall|i: int|
        #![trigger frames[i]]
        0 <= i < frames.len() ==> {
            &&& frames[i].id == i + 1
            &&& 1 <= frames[i].chunk_id <= chunks.len()
            &&& frames[i].offset_index == count_in(frames.take(i), frames[i].chunk_id as int)
        }
}

/// Whether stored text rows are each about a recorded frame, at most one
/// per frame.
pub open spec fn texts_valid(texts: Seq<TextRecord>, frame_count: int) -> bool {
    &&& forall|t: int| #![trigger texts[t]] 0 <= t < texts.len() ==> 1 <= texts[t].frame_id <= frame_count
    &&& forall|s: int, t: int|
        0 <= s < t < texts.len() ==> #[trigger] texts[s].frame_id != #[trigger] texts[t].frame_id
}

/// The store's contents.
pub struct FrameIndex {
    chunks: Vec<ChunkRecord>,
    frames: Vec<FrameRecord>,
    texts: Vec<TextRecord>,
}

impl FrameIndex {
    pub closed spec fn chunks(&self) -> Seq<ChunkRecord> {
        self.chunks@
    }

    pub closed spec fn frames(&self) -> Seq<FrameRecord> {
        self.frames@
    }

    pub closed spec fn texts(&self) -> Seq<TextRecord> {
        self.texts@
    }

    /// Identifiers are positional, every frame belongs to a stored chunk,
    /// a frame's offset counts the earlier frames of its chunk, each chunk's
    /// frame count counts all of them, and each frame has at most one text.
    pub closed spec fn wf(&self) -> bool {
        let chunks = self.chunks@;
        let frames = self.frames@;
        let texts = self.texts@;
        &&& chunks.len() < i64::MAX
        &&& frames.len() < i64::MAX
        &&& forall|k: int| 0 <= k < chunks.len() ==> #[trigger] chunks[k].id == k + 1
        &&& forall|i: int| 0 <= i < frames.len() ==> #[trigger] frames[i].id == i + 1
        &&& forall|i: int|
            #![trigger frames[i]]
            0 <= i < frames.len() ==> 1 <= frames[i].chunk_id <= chunks.len()
        &&& forall|i: int|
            0 <= i < frames.len() ==> #[trigger] frames[i].offset_index == count_in(
                frames.take(i),
                frames[i].chunk_id as int,
            )
        &&& forall|k: int|
            0 <= k < chunks.len() ==> #[trigger] chunks[k].frame_count == count_in(
                frames,
                k + 1,
            )
        &&& forall|t: int|
            #![trigger texts[t]]
            0 <= t < texts.len() ==> 1 <= texts[t].frame_id <= frames.len()
        &&& forall|s: int, t: int|
            0 <= s < t < texts.len() ==> #[trigger] texts[s].frame_id
                != #[trigger] texts[t].frame_id
    }

    /// Identifier of the chunk that new frames go to; 0 when none is open.
    pub open spec fn current_chunk_id(&self) -> int {
        self.chunks().len() as int
    }

    /// Identifier of the latest frame; 0 when none was recorded.
    pub open spec fn max_frame(&self) -> int {
        self.frames().len() as int
    }

    /// Offset that the next frame takes in the current chunk.
    pub open spec fn current_offset(&self) -> int {
        if self.chunks().len() == 0 {
            0
        } else {
            self.chunks().last().frame_count as int
        }
    }

    /// Where frame `id` lives: its offset and its chunk's file path.
    pub open spec fn location(&self, id: int) -> Option<(int, Seq<char>)> {
        if 1 <= id <= self.frames().len() {
            let f = self.frames()[id - 1];
            Some((f.offset_index as int, self.chunks()[f.chunk_id - 1].file_path@))
        } else {
            None
        }
    }

    /// An empty store.
    pub fn new() -> (r: FrameIndex)
        ensures
            r.wf(),
            r.chunks().len() == 0,
            r.frames().len() == 0,
            r.texts().len() == 0,
    {
        FrameIndex { chunks: Vec::new(), frames: Vec::new(), texts: Vec::new() }
    }


    /// Rebuilds the store from stored rows, recomputing every chunk's frame
    /// count (and so the offset the next frame takes) from the frames that
    /// name it. Rows that do not form a valid index give `Corrupt`; so does
    /// text for an unknown frame or a second text for a frame.
    pub fn restore(chunks: &Vec<StoredChunk>, frames: &Vec<FrameRecord>, texts: &Vec<TextRecord>) -> (r:
        Result<FrameIndex, IndexError>)
        ensures
            r is Ok <==> rows_valid(chunks@, frames@) && texts_valid(texts@, frames@.len() as int),
            r matches Err(e) ==> e == IndexError::Corrupt,
            r matches Ok(idx) ==> {
                &&& idx.wf()
                &&& idx.frames() == frames@
                &&& idx.chunks().len() == chunks@.len()
                &&& forall|k: int|
                    0 <= k < chunks@.len() ==> (#[trigger] idx.chunks()[k]).id == chunks@[k].id
                        && idx.chunks()[k].file_path == chunks@[k].file_path
                &&& idx.texts().len() == texts@.len()
                &&& forall|t: int|
                    0 <= t < texts@.len() ==> (#[trigger] idx.texts()[t]).frame_id
                        == texts@[t].frame_id && idx.texts()[t].text@ == texts@[t].text@
            },
    {
        let n = chunks.len();
        let m = frames.len();
        if n as u64 >= (i64::MAX - 1) as u64 || m as u64 >= (i64::MAX - 1) as u64 {
            return Err(IndexError::Corrupt);
        }
        let mut counts: Vec<i64> = Vec::new();
        let mut k: usize = 0;
        while k < n
            invariant
                k <= n,
                n == chunks@.len(),
                n < i64::MAX - 1,
                counts@.len() == k,
                forall|j: int| 0 <= j < k ==> #[trigger] counts@[j] == 0,
                forall|j: int| 0 <= j < k ==> #[trigger] chunks@[j].id == j + 1,
            decreases n - k,
        {
            if chunks[k].id != k as i64 + 1 {
                return Err(IndexError::Corrupt);
            }
            counts.push(0);
            k = k + 1;
        }
        let mut out: Vec<FrameRecord> = Vec::new();
        let mut i: usize = 0;
        while i < m
            invariant
                i <= m,
                m == frames@.len(),
                n == chunks@.len(),
                m < i64::MAX - 1,
                counts@.len() == n,
                forall|j: int| 0 <= j < n ==> #[trigger] chunks@[j].id == j + 1,
                forall|j: int| 0 <= j < n ==> #[trigger] counts@[j] == count_in(frames@.take(i as int), j + 1),
                out@ == frames@.take(i as int),
                forall|a: int|
                    #![trigger frames@[a]]
                    0 <= a < i ==> {
                        &&& frames@[a].id == a + 1
                        &&& 1 <= frames@[a].chunk_id <= n
                        &&& frames@[a].offset_index == count_in(frames@.take(a), frames@[a].chunk_id as int)
                    },
            decreases m - i,
        {
            let f = &frames[i];
            if f.id != i as i64 + 1 || f.chunk_id < 1 || f.chunk_id > n as i64 {
                return Err(IndexError::Corrupt);
            }
            let c: usize = (f.chunk_id - 1) as usize;
            if f.offset_index != counts[c] {
                return Err(IndexError::Corrupt);
            }
            proof {
                lemma_count_bound(frames@.take(i as int), f.chunk_id as int);
                assert(frames@.take(i as int + 1) =~= frames@.take(i as int).push(frames@[i as int]));
                assert forall|j: int| 0 <= j < n implies #[trigger] count_in(frames@.take(i as int + 1), j + 1)
                    == count_in(frames@.take(i as int), j + 1) + if j == c {
                    1nat
                } else {
                    0nat
                } by {
                    lemma_count_push(frames@.take(i as int), frames@[i as int], j + 1);
                }
            }
            counts[c] = counts[c] + 1;
            out.push(
                FrameRecord {
                    id: f.id,
                    chunk_id: f.chunk_id,
                    offset_index: f.offset_index,
                    timestamp: f.timestamp,
                    active_application_name: f.active_application_name.clone(),
                },
            );
            i = i + 1;
        }
        assert(frames@.take(m as int) =~= frames@);
        let mut built: Vec<ChunkRecord> = Vec::new();
        let mut k: usize = 0;
        while k < n
            invariant
                k <= n,
                n == chunks@.len(),
                counts@.len() == n,
                built@.len() == k,
                forall|j: int| 0 <= j < n ==> #[trigger] counts@[j] == count_in(frames@, j + 1),
                forall|j: int| 0 <= j < n ==> #[trigger] chunks@[j].id == j + 1,
                forall|j: int|
                    0 <= j < k ==> (#[trigger] built@[j]).id == chunks@[j].id && built@[j].file_path
                        == chunks@[j].file_path && built@[j].frame_count == counts@[j],
            decreases n - k,
        {
            built.push(
                ChunkRecord {
                    id: chunks[k].id,
                    file_path: chunks[k].file_path.clone(),
                    frame_count: counts[k],
                },
            );
            k = k + 1;
        }
        let mut idx = FrameIndex { chunks: built, frames: out, texts: Vec::new() };
        assert(idx.wf());
        assert(rows_valid(chunks@, frames@));
        let mut t: usize = 0;
        while t < texts.len()
            invariant
                idx.wf(),
                t <= texts@.len(),
                idx.frames() == frames@,
                idx.chunks().len() == chunks@.len(),
                forall|k: int|
                    0 <= k < chunks@.len() ==> (#[trigger] idx.chunks()[k]).id == chunks@[k].id
                        && idx.chunks()[k].file_path == chunks@[k].file_path,
                rows_valid(chunks@, frames@),
                idx.texts().len() == t,
                forall|a: int|
                    0 <= a < t ==> (#[trigger] idx.texts()[a]).frame_id == texts@[a].frame_id
                        && idx.texts()[a].text@ == texts@[a].text@,
            decreases texts@.len() - t,
        {
            let ghost before = idx.texts();
            match idx.insert_text_for_frame(texts[t].frame_id, texts[t].text.as_str()) {
                Ok(()) => {},
                Err(_) => {
                    proof {
                        if 1 <= texts@[t as int].frame_id <= frames@.len() {
                            let a = choose|a: int|
                                0 <= a < before.len() && #[trigger] before[a].frame_id
                                    == texts@[t as int].frame_id;
                            assert(texts@[a].frame_id == texts@[t as int].frame_id);
                        }
                    }
                    return Err(IndexError::Corrupt);
                },
            }
            assert(idx.texts().drop_last() =~= before);
            t = t + 1;
        }
        proof {
            let kept = idx.texts@;
            assert forall|a: int| #![trigger texts@[a]] 0 <= a < texts@.len() implies 1 <= texts@[a].frame_id <= frames@.len() by {
                assert(idx.texts()[a].frame_id == texts@[a].frame_id);
                assert(1 <= kept[a].frame_id <= idx.frames@.len());
            }
            assert forall|a: int, b: int|
                0 <= a < b < texts@.len() implies #[trigger] texts@[a].frame_id
                    != #[trigger] texts@[b].frame_id by {
                assert(idx.texts()[a].frame_id == texts@[a].frame_id);
                assert(idx.texts()[b].frame_id == texts@[b].frame_id);
                assert(kept[a].frame_id != kept[b].frame_id);
            }
        }
        Ok(idx)
    }

    /// Number of chunks stored.
    pub fn chunk_count(&self) -> (r: i64)
        requires
            self.wf(),
        ensures
            r == self.chunks().len(),
    {
        self.chunks.len() as i64
    }

    /// The current high-water frame identifier, 0 when no frame was recorded.
    pub fn max_frame_id(&self) -> (r: i64)
        requires
            self.wf(),
        ensures
            r == self.max_frame(),
    {
        self.frames.len() as i64
    }

    /// Opens the next chunk, stored at `file_path`, with no frames yet; new
    /// frames go to it and its offsets start at 0.
    pub fn start_new_video_chunk(&mut self, file_path: &str) -> (r: Result<i64, IndexError>)
        requires
            old(self).wf(),
        ensures
            final(self).wf(),
            r is Ok <==> old(self).chunks().len() + 1 < i64::MAX,
            r matches Err(e) ==> e == IndexError::Exhausted && *final(self) == *old(self),
            r matches Ok(id) ==> {
                &&& id == old(self).current_chunk_id() + 1
                &&& final(self).chunks() == old(self).chunks().push(
                    ChunkRecord { id: id, file_path: final(self).chunks().last().file_path, frame_count: 0 },
                )
                &&& final(self).chunks().last().file_path@ == file_path@
                &&& final(self).frames() == old(self).frames()
                &&& final(self).texts() == old(self).texts()
                &&& final(self).current_chunk_id() == id
                &&& final(self).current_offset() == 0
                &&& final(self).max_frame() == old(self).max_frame()
                &&& forall|j: int| #[trigger] final(self).location(j) == old(self).location(j)
            },
    {
        let n = self.chunks.len();
        if n as i64 >= i64::MAX - 1 {
            return Err(IndexError::Exhausted);
        }
        let id = n as i64 + 1;
        proof {
            let frames = self.frames@;
            assert forall|i: int| 0 <= i < frames.len() implies #[trigger] frames[i].chunk_id
                != id by {}
            lemma_count_absent(frames, id as int);
        }
        self.chunks.push(ChunkRecord { id, file_path: file_path.to_owned(), frame_count: 0 });
        assert(self.texts() == old(self).texts());
        assert forall|j: int| #[trigger] self.location(j) == old(self).location(j) by {
            if 1 <= j <= self.frames@.len() {
                let f = self.frames@[j - 1];
                assert(self.chunks@[f.chunk_id - 1] == old(self).chunks@[f.chunk_id - 1]);
            }
        }
        assert(self.frames() == old(self).frames());
        Ok(id)
    }

    /// Records a frame captured at `timestamp` into the current chunk, with
    /// the next frame identifier and the next offset of that chunk.
    pub fn insert_frame_at(&mut self, active_application_name: Option<&str>, timestamp: i64) -> (r:
        Result<i64, IndexError>)
        requires
            old(self).wf(),
        ensures
            final(self).wf(),
            r is Ok <==> old(self).chunks().len() > 0 && old(self).frames().len() + 1 < i64::MAX,
            r matches Err(e) ==> *final(self) == *old(self) && (e == IndexError::NoOpenChunk
                <==> old(self).chunks().len() == 0) && (e == IndexError::NoOpenChunk || e
                == IndexError::Exhausted),
            r matches Ok(id) ==> {
                let f = final(self).frames().last();
                &&& id == old(self).max_frame() + 1
                &&& final(self).max_frame() == id
                &&& final(self).frames() == old(self).frames().push(f)
                &&& f.id == id
                &&& f.chunk_id == old(self).current_chunk_id()
                &&& f.offset_index == old(self).current_offset()
                &&& f.timestamp == timestamp
                &&& f.active_application_name@ == match active_application_name {
                    Some(s) => s@,
                    None => Seq::<char>::empty(),
                }
                &&& final(self).chunks().len() == old(self).chunks().len()
                &&& final(self).chunks().drop_last() == old(self).chunks().drop_last()
                &&& final(self).chunks().last().id == old(self).chunks().last().id
                &&& final(self).chunks().last().file_path == old(self).chunks().last().file_path
                &&& final(self).current_offset() == old(self).current_offset() + 1
                &&& final(self).texts() == old(self).texts()
                &&& forall|j: int| 1 <= j < id ==> final(self).location(j) == old(self).location(j)
                &&& final(self).location(id as int) == Some(
                    (
                        old(self).current_offset(),
                        old(self).chunks().last().file_path@,
                    ),
                )
            },
    {
        let n = self.chunks.len();
        if n == 0 {
            return Err(IndexError::NoOpenChunk);
        }
        let m = self.frames.len();
        if m as i64 >= i64::MAX - 1 {
            return Err(IndexError::Exhausted);
        }
        let ghost old_frames = self.frames@;
        let ghost old_chunks = self.chunks@;
        let chunk_id = n as i64;
        proof {
            lemma_count_bound(old_frames, chunk_id as int);
        }
        let mut last = self.chunks.pop().unwrap();
        let offset = last.frame_count;
        last.frame_count = offset + 1;
        self.chunks.push(last);
        let name = match active_application_name {
            Some(s) => s.to_owned(),
            None => String::new(),
        };
        let f = FrameRecord {
            id: m as i64 + 1,
            chunk_id,
            offset_index: offset,
            timestamp,
            active_application_name: name,
        };
        self.frames.push(f);
        proof {
            let frames = self.frames@;
            let chunks = self.chunks@;
            assert(old_frames.push(f) == frames);
            assert(frames.take(m as int) =~= old_frames);
            assert forall|i: int| 0 <= i < m implies frames.take(i) =~= old_frames.take(i) by {}
            assert forall|k: int| 0 <= k < chunks.len() implies #[trigger] chunks[k].frame_count
                == count_in(frames, k + 1) by {
                lemma_count_push(old_frames, f, k + 1);
                if k < n - 1 {
                    assert(chunks[k] == old_chunks[k]);
                }
            }
            assert(chunks.drop_last() =~= old_chunks.drop_last());
        }
        assert(self.texts() == old(self).texts());
        Ok(m as i64 + 1)
    }

    /// Where frame `index` lives: its offset and its chunk's file path.
    pub fn get_frame(&self, index: i64) -> (r: Result<(i64, String), IndexError>)
        requires
            self.wf(),
        ensures
            r is Ok <==> self.location(index as int) is Some,
            r matches Ok((o, p)) ==> self.location(index as int) == Some((o as int, p@)),
            r matches Err(e) ==> e == IndexError::NotFound,
    {
        if index < 1 || index > self.frames.len() as i64 {
            return Err(IndexError::NotFound);
        }
        let i: usize = (index - 1) as usize;
        let f = &self.frames[i];
        assert(1 <= self.frames@[index - 1].chunk_id <= self.chunks@.len());
        let nchunks = self.chunks.len();
        assert(f.chunk_id <= nchunks);
        let k: usize = (f.chunk_id - 1) as usize;
        let c = &self.chunks[k];
        let path = c.file_path.clone();
        assert(self.location(index as int) == Some((f.offset_index as int, path@)));
        Ok((f.offset_index, path))
    }

    /// The stored row of frame `id`, if it was recorded.
    pub fn frame_record(&self, id: i64) -> (r: Option<FrameRecord>)
        requires
            self.wf(),
        ensures
            r is Some <==> 1 <= id <= self.max_frame(),
            r matches Some(f) ==> f == self.frames()[id - 1],
    {
        if id < 1 || id > self.frames.len() as i64 {
            return None;
        }
        let f = &self.frames[(id - 1) as usize];
        Some(
            FrameRecord {
                id: f.id,
                chunk_id: f.chunk_id,
                offset_index: f.offset_index,
                timestamp: f.timestamp,
                active_application_name: f.active_application_name.clone(),
            },
        )
    }

    /// The stored row of chunk `id`, if it exists.
    pub fn chunk_record(&self, id: i64) -> (r: Option<StoredChunk>)
        requires
            self.wf(),
        ensures
            r is Some <==> 1 <= id <= self.chunks().len(),
            r matches Some(c) ==> c.id == id && c.file_path == self.chunks()[id - 1].file_path,
    {
        if id < 1 || id > self.chunks.len() as i64 {
            return None;
        }
        let c = &self.chunks[(id - 1) as usize];
        Some(StoredChunk { id: c.id, file_path: c.file_path.clone() })
    }

    /// Number of frames recorded into chunk `chunk_id`, if it exists.
    pub fn chunk_frame_count(&self, chunk_id: i64) -> (r: Option<i64>)
        requires
            self.wf(),
        ensures
            r is Some <==> 1 <= chunk_id <= self.chunks().len(),
            r matches Some(n) ==> n == self.chunks()[chunk_id - 1].frame_count && n == count_in(
                self.frames(),
                chunk_id as int,
            ),
    {
        if chunk_id < 1 || chunk_id > self.chunks.len() as i64 {
            return None;
        }
        Some(self.chunks[(chunk_id - 1) as usize].frame_count)
    }

    /// Records text recognised on frame `frame_id`; a frame has at most one.
    pub fn insert_text_for_frame(&mut self, frame_id: i64, text: &str) -> (r: Result<(), IndexError>)
        requires
            old(self).wf(),
        ensures
            final(self).wf(),
            r is Ok <==> 1 <= frame_id <= old(self).max_frame() && !has_text(old(self).texts(), frame_id as int),
            r matches Err(e) ==> *final(self) == *old(self) && (e == IndexError::NotFound <==> !(1
                <= frame_id <= old(self).max_frame())) && (e == IndexError::NotFound || e
                == IndexError::DuplicateText),
            r is Ok ==> {
                &&& final(self).texts() == old(self).texts().push(
                    TextRecord { frame_id: frame_id, text: final(self).texts().last().text },
                )
                &&& final(self).texts().last().text@ == text@
                &&& final(self).max_frame() == old(self).max_frame()
                &&& final(self).chunks() == old(self).chunks()
                &&& final(self).frames() == old(self).frames()
            },
    {
        if frame_id < 1 || frame_id > self.frames.len() as i64 {
            return Err(IndexError::NotFound);
        }
        let mut i: usize = 0;
        while i < self.texts.len()
            invariant
                self.wf(),
                i <= self.texts@.len(),
                forall|t: int| 0 <= t < i ==> #[trigger] self.texts@[t].frame_id != frame_id,
            decreases self.texts@.len() - i,
        {
            if self.texts[i].frame_id == frame_id {
                return Err(IndexError::DuplicateText);
            }
            i = i + 1;
        }
        let ghost old_texts = self.texts@;
        assert(forall|a: int, b: int|
            0 <= a < b < old_texts.len() ==> #[trigger] old_texts[a].frame_id
                != #[trigger] old_texts[b].frame_id);
        self.texts.push(TextRecord { frame_id, text: text.to_owned() });
        proof {
            let texts = self.texts@;
            assert forall|a: int, b: int|
                0 <= a < b < texts.len() implies #[trigger] texts[a].frame_id
                    != #[trigger] texts[b].frame_id by {
                if b < old_texts.len() {
                    assert(texts[a] == old_texts[a] && texts[b] == old_texts[b]);
                } else {
                    assert(texts[a] == old_texts[a]);
                    assert(texts[b].frame_id == frame_id);
                    assert(old_texts[a].frame_id != frame_id);
                }
            }
        }
        assert(self.frames() == old(self).frames());
        assert(self.chunks() == old(self).chunks());
        Ok(())
    }
}

} // verus!

verus! {

/// Every frame lies inside its chunk: its chunk exists, its offset is below
/// that chunk's frame count, and two frames of one chunk have different
/// offsets, the earlier frame the smaller one.
pub proof fn lemma_offsets_within_chunk(idx: &FrameIndex)
    requires
        idx.wf(),
    ensures
        forall|i: int|
            #![trigger idx.frames()[i]]
            0 <= i < idx.frames().len() ==> {
                let f = idx.frames()[i];
                &&& 1 <= f.chunk_id <= idx.chunks().len()
                &&& idx.chunks()[f.chunk_id - 1].id == f.chunk_id
                &&& 0 <= f.offset_index < idx.chunks()[f.chunk_id - 1].frame_count
            },
        forall|i: int, j: int|
            0 <= i < j < idx.frames().len() && (#[trigger] idx.frames()[i]).chunk_id == (
            #[trigger] idx.frames()[j]).chunk_id ==> idx.frames()[i].offset_index
                < idx.frames()[j].offset_index,
{
    let frames = idx.frames();
    assert forall|i: int|
        #![trigger idx.frames()[i]]
        0 <= i < frames.len() implies {
            let f = idx.frames()[i];
            &&& 1 <= f.chunk_id <= idx.chunks().len()
            &&& idx.chunks()[f.chunk_id - 1].id == f.chunk_id
            &&& 0 <= f.offset_index < idx.chunks()[f.chunk_id - 1].frame_count
        } by {
        lemma_count_grows(frames, i, frames.len() as int);
        assert(frames.take(frames.len() as int) =~= frames);
    }
    assert forall|i: int, j: int|
        0 <= i < j < frames.len() && (#[trigger] idx.frames()[i]).chunk_id == (
        #[trigger] idx.frames()[j]).chunk_id implies idx.frames()[i].offset_index
            < idx.frames()[j].offset_index by {
        lemma_count_grows(frames, i, j);
    }
}

/// Frame identifiers are exactly 1, 2, ..., n in recording order: distinct,
/// strictly increasing, without gaps, and the largest is the high-water mark.
pub proof fn lemma_frame_ids_gap_free(idx: &FrameIndex)
    requires
        idx.wf(),
    ensures
        forall|i: int| 0 <= i < idx.frames().len() ==> #[trigger] idx.frames()[i].id == i + 1,
        forall|i: int, j: int|
            0 <= i < j < idx.frames().len() ==> #[trigger] idx.frames()[i].id
                < #[trigger] idx.frames()[j].id,
        idx.max_frame() == idx.frames().len(),
        idx.frames().len() > 0 ==> idx.frames().last().id == idx.max_frame(),
{
}

/// Chunk identifiers are exactly 1, 2, ..., m in creation order, so the next
/// chunk opened always receives the next sequential identifier.
pub proof fn lemma_chunk_ids_sequential(idx: &FrameIndex)
    requires
        idx.wf(),
    ensures
        forall|k: int| 0 <= k < idx.chunks().len() ==> #[trigger] idx.chunks()[k].id == k + 1,
        idx.current_chunk_id() == idx.chunks().len(),
{
}

/// Two stores holding the same frames and chunk files, such as a store and
/// the one restored from its rows after a restart, locate every frame alike.
pub proof fn lemma_restart_keeps_locations(before: &FrameIndex, after: &FrameIndex, id: int)
    requires
        before.wf(),
        after.wf(),
        after.frames() == before.frames(),
        after.chunks().len() == before.chunks().len(),
        forall|k: int|
            0 <= k < before.chunks().len() ==> (#[trigger] after.chunks()[k]).file_path
                == before.chunks()[k].file_path,
    ensures
        after.location(id) == before.location(id),
{
    if 1 <= id <= before.frames().len() {
        let f = before.frames()[id - 1];
        assert(after.chunks()[f.chunk_id - 1].file_path == before.chunks()[f.chunk_id - 1].file_path);
    }
}

} // verus!
