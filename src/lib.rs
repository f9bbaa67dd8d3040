//! Index, buffering and retrieval logic for a screen-timeline recorder.
//!
//! - `index`: the store of chunks, frames and recognised text, which hands
//!   out frame and chunk identifiers and frame offsets.
//! - `buffer`: the bounded batch buffer between capture and encoding.
//! - `reorder`: resequencing of frames encoded out of order.
//! - `pipeline`: registration of a batch once its encoder has finished.
//! - `extract`: which decoded frames of a chunk are kept.
//! - `query`: replies of the local frame service.
pub mod buffer;
pub mod extract;
pub mod index;
pub mod pipeline;
pub mod query;
pub mod reorder;
