use vstd::prelude::*;

use crate::bytes::{occurs_at, starts_with};
use crate::container::{
    clip_signature, ensure_clip_signature, find_embedded_sqlite_chunk, lemma_located_range_in_bounds,
    spec_chunk_header_at, spec_chunk_scan_below, spec_locate_database, spec_sqlite_scan_below,
    spec_valid_sqlite_header_at, sqlite_chunk_tag, sqlite_header, ChunkSearch, HeaderCheck,
};
use crate::database::{load_preview_from_connection, open_embedded_database, spec_loads_preview};
use crate::error::{is_invalid_format, ClipError};
use crate::preview::{spec_detect, Preview};

verus! {

/// What extracting a preview from the container bytes `d` gives, apart from SQLite failures
/// while the embedded database is read.
pub open spec fn spec_extracts(res: Result<Preview, ClipError>, d: Seq<u8>) -> bool {
    if d.len() == 0 {
        is_invalid_format(res, "input is empty"@)
    } else if !starts_with(d, clip_signature()) {
        is_invalid_format(res, "missing CSFCHUNK signature"@)
    } else {
        match spec_locate_database(d) {
            ChunkSearch::Found(r) => res matches Err(ClipError::Sqlite(_)) || spec_loads_preview(
                res,
                d.subrange(r.offset as int, r.offset + r.size),
            ),
            ChunkSearch::ReadPastEnd => res matches Err(ClipError::Io(_)),
            ChunkSearch::Absent => is_invalid_format(res, "embedded SQLite header not found"@),
        }
    }
}

/// Extracts the embedded preview image from the complete bytes of a `.clip` file.
///
/// The container must start with `CSFCHUNK`; the embedded SQLite database is located by its
/// `CHNKSQLi` chunk header, or else by the last plausible SQLite file header, and the preview is
/// the largest `CanvasPreview` row that carries image data.
pub fn extract_preview_from_bytes(data: &[u8]) -> (res: Result<Preview, ClipError>)
    ensures
        spec_extracts(res, data@),
{
    match ensure_clip_signature(data) {
        Ok(()) => {},
        Err(error) => return Err(error),
    }
    let sqlite_chunk = match find_embedded_sqlite_chunk(data) {
        Ok(chunk) => chunk,
        Err(error) => return Err(error),
    };
    proof {
        lemma_located_range_in_bounds(data@);
    }
    let connection = match open_embedded_database(data, sqlite_chunk) {
        Ok(connection) => connection,
        Err(error) => return Err(error),
    };
    load_preview_from_connection(&connection)
}

/// A preview that extraction returns is never empty, has the format that its bytes announce,
/// and carries either both dimensions, each a positive pixel count, or neither.
pub proof fn law_extracted_preview_is_well_formed(res: Result<Preview, ClipError>, d: Seq<u8>)
    requires
        spec_extracts(res, d),
        res is Ok,
    ensures
        res matches Ok(p) && p@.bytes.len() > 0 && p@.format == spec_detect(p@.bytes) && (
        p@.width is Some <==> p@.height is Some) && (p@.width matches Some(w) ==> w > 0) && (
        p@.height matches Some(h) ==> h > 0),
{
}

/// Extraction succeeds only on a container that starts with `CSFCHUNK` and in which an embedded
/// database was located inside the input.
pub proof fn law_extraction_needs_signature_and_database(
    res: Result<Preview, ClipError>,
    d: Seq<u8>,
)
    requires
        spec_extracts(res, d),
        res is Ok,
    ensures
        starts_with(d, clip_signature()),
        spec_locate_database(d) matches ChunkSearch::Found(r) && r.offset + r.size <= d.len(),
{
    lemma_located_range_in_bounds(d);
}

/// The chunk that the header scan reports sits behind the highest `CHNKSQLi` candidate below
/// `end` that is not rejected: every candidate above it is a false positive.
pub proof fn law_chunk_scan_picks_highest_candidate(d: Seq<u8>, end: int)
    requires
        0 <= end,
    ensures
        spec_chunk_scan_below(d, end) matches ChunkSearch::Found(r) ==> exists|o: int|
            0 <= o < end && occurs_at(d, sqlite_chunk_tag(), o) && spec_chunk_header_at(d, o)
                == HeaderCheck::Accepted(r) && forall|q: int|
                o < q < end && occurs_at(d, sqlite_chunk_tag(), q) ==> spec_chunk_header_at(d, q)
                    == HeaderCheck::Rejected,
        spec_chunk_scan_below(d, end) is Absent ==> forall|q: int|
            0 <= q < end && occurs_at(d, sqlite_chunk_tag(), q) ==> spec_chunk_header_at(d, q)
                == HeaderCheck::Rejected,
    decreases end,
{
    if end > 0 {
        law_chunk_scan_picks_highest_candidate(d, end - 1);
        if let ChunkSearch::Found(r) = spec_chunk_scan_below(d, end) {
            let o = end - 1;
            if occurs_at(d, sqlite_chunk_tag(), o) && spec_chunk_header_at(d, o)
                == HeaderCheck::Accepted(r) {
                assert(forall|q: int|
                    o < q < end && occurs_at(d, sqlite_chunk_tag(), q) ==> spec_chunk_header_at(
                        d,
                        q,
                    ) == HeaderCheck::Rejected);
            } else {
                let w = choose|w: int|
                    0 <= w < end - 1 && occurs_at(d, sqlite_chunk_tag(), w) && spec_chunk_header_at(
                        d,
                        w,
                    ) == HeaderCheck::Accepted(r) && forall|q: int|
                        w < q < end - 1 && occurs_at(d, sqlite_chunk_tag(), q)
                            ==> spec_chunk_header_at(d, q) == HeaderCheck::Rejected;
                assert(0 <= w < end && occurs_at(d, sqlite_chunk_tag(), w) && spec_chunk_header_at(
                    d,
                    w,
                ) == HeaderCheck::Accepted(r));
            }
        }
    }
}

/// The header scan reports the highest offset below `end` at which a plausible SQLite header
/// starts; every candidate above it is a false positive.
pub proof fn law_sqlite_scan_picks_highest_valid_header(d: Seq<u8>, end: int)
    requires
        0 <= end,
    ensures
        spec_sqlite_scan_below(d, end) matches Some(o) ==> {
            &&& 0 <= o < end
            &&& spec_valid_sqlite_header_at(d, o)
            &&& forall|q: int| o < q < end ==> !spec_valid_sqlite_header_at(d, q)
        },
        spec_sqlite_scan_below(d, end) is None ==> forall|q: int|
            0 <= q < end ==> !spec_valid_sqlite_header_at(d, q),
    decreases end,
{
    if end > 0 {
        law_sqlite_scan_picks_highest_valid_header(d, end - 1);
        let o = end - 1;
        if spec_valid_sqlite_header_at(d, o) {
            assert(d.subrange(o, o + sqlite_header().len()) == sqlite_header());
            assert(occurs_at(d, sqlite_header(), o));
        }
    }
}

} // verus!
