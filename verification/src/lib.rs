//! Extraction of the embedded preview image from `.clip` files.
//!
//! A `.clip` container holds an SQLite database. The library locates that
//! database inside the container bytes, reads its `CanvasPreview` table and
//! returns the first highest-resolution preview image it finds, together with
//! the image format detected from the payload bytes.
mod bytes;
mod container;
mod database;
mod error;
mod extract;
mod preview;

use vstd::prelude::*;

pub use crate::bytes::find_last_subslice_starting_before;
pub use crate::container::{
    ensure_clip_signature, find_embedded_sqlite_chunk, find_sqlite_chunk_by_chunk_header,
    find_sqlite_chunk_by_sqlite_header, is_valid_sqlite_header, is_valid_sqlite_page_size,
    parse_sqlite_chunk_header, ChunkRange,
};
pub use crate::database::{preview_from_row, to_dimension, PREVIEW_ROW_QUERY, PREVIEW_TABLE_QUERY};
pub use crate::error::ClipError;
pub use crate::extract::extract_preview_from_bytes;
pub use crate::preview::{Preview, PreviewFormat, PreviewView};

verus! {

/// Crate-wide result type.
pub type Result<T> = core::result::Result<T, ClipError>;

} // verus!
