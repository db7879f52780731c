use vstd::prelude::*;

use crate::container::ChunkRange;
use crate::error::{is_invalid_format, ClipError};
use crate::preview::{spec_detect, Preview, PreviewFormat, PreviewView};

verus! {

/// `rusqlite::Connection`, a handle on an open SQLite database.
#[verifier::external_type_specification]
#[verifier::external_body]
pub struct ExConnection(rusqlite::Connection);

/// Asks whether the embedded database has a `CanvasPreview` table.
pub const PREVIEW_TABLE_QUERY: &'static str = "SELECT EXISTS(
                SELECT 1
                FROM sqlite_master
                WHERE type = 'table' AND name = 'CanvasPreview'
            )";

/// Selects the preview row with the largest pixel area (the first such row on ties) among the
/// rows that carry image data.
pub const PREVIEW_ROW_QUERY: &'static str = "SELECT ImageWidth, ImageHeight, ImageData
                 FROM CanvasPreview
                 WHERE ImageData IS NOT NULL AND length(ImageData) > 0
                 ORDER BY (COALESCE(ImageWidth, 0) * COALESCE(ImageHeight, 0)) DESC,
                          _PW_ID ASC
                 LIMIT 1";

/// The database image that a connection holds as its main schema.
pub uninterp spec fn database_image(connection: rusqlite::Connection) -> Seq<u8>;

/// Whether the database `image` has a `CanvasPreview` table: SQLite's answer to
/// `PREVIEW_TABLE_QUERY` over the read-only `image`.
pub uninterp spec fn canvas_preview_table_exists(image: Seq<u8>) -> bool;

/// The preview row that SQLite selects with `PREVIEW_ROW_QUERY` over the read-only database
/// `image`, read as (nullable integer, nullable integer, blob), or `None` when the query
/// returns no row.
pub uninterp spec fn selected_preview_row(image: Seq<u8>) -> Option<
    (Option<i64>, Option<i64>, Seq<u8>),
>;

/// A preview row with its blob taken by value.
pub open spec fn row_view(row: Option<(Option<i64>, Option<i64>, Vec<u8>)>) -> Option<
    (Option<i64>, Option<i64>, Seq<u8>),
> {
    match row {
        Some((w, h, b)) => Some((w, h, b@)),
        None => None,
    }
}

/// Opens a new, empty in-memory database with `rusqlite::Connection::open_in_memory`.
///
/// Whether SQLite can open it depends on the machine (memory), so nothing is stated.
#[verifier::external_body]
fn open_in_memory_database() -> (res: Result<rusqlite::Connection, rusqlite::Error>) {
    rusqlite::Connection::open_in_memory()
}

/// Replaces the main database of `connection` with `image` through
/// `rusqlite::Connection::deserialize_read_exact`, which reads all of `image` into SQLite
/// memory and deserializes it; `read_only` must hold, so the database cannot be written.
///
/// On success the connection holds `image`. When the call fails is left unsaid: it depends on
/// SQLite's allocator.
#[verifier::external_body]
fn deserialize_database(
    connection: &mut rusqlite::Connection,
    image: &[u8],
    read_only: bool,
) -> (res: Result<(), rusqlite::Error>)
    requires
        read_only,
    ensures
        res is Ok ==> database_image(*final(connection)) == image@,
{
    connection.deserialize_read_exact(rusqlite::MAIN_DB, image, image.len(), read_only)
}

/// Runs `sql`, which must be `PREVIEW_TABLE_QUERY`, with `rusqlite::Connection::query_row` and
/// reads the first column of the first row as a `bool`.
///
/// That fixed read-only query over a read-only database depends on the database alone, so a
/// value that comes back is `canvas_preview_table_exists` of the connection's database; whether
/// the query fails is left unsaid.
#[verifier::external_body]
fn query_flag(connection: &rusqlite::Connection, sql: &str) -> (res: Result<bool, rusqlite::Error>)
    requires
        sql@ == PREVIEW_TABLE_QUERY@,
    ensures
        res matches Ok(v) ==> v == canvas_preview_table_exists(database_image(*connection)),
{
    connection.query_row(sql, [], |row| row.get(0))
}

/// Runs `sql`, which must be `PREVIEW_ROW_QUERY`, with `rusqlite::Connection::query_row`, reads
/// the first row as (nullable integer, nullable integer, blob), and turns "no row" into `None`
/// with `rusqlite::OptionalExtension::optional`.
///
/// That fixed read-only query, whose ordering ends on the unique `_PW_ID`, depends on the
/// database alone, so a row that comes back is `selected_preview_row` of the connection's
/// database; whether the query fails is left unsaid.
#[verifier::external_body]
fn query_preview_row(connection: &rusqlite::Connection, sql: &str) -> (res: Result<
    Option<(Option<i64>, Option<i64>, Vec<u8>)>,
    rusqlite::Error,
>)
    requires
        sql@ == PREVIEW_ROW_QUERY@,
    ensures
        res matches Ok(row) ==> row_view(row) == selected_preview_row(database_image(*connection)),
{
    rusqlite::OptionalExtension::optional(
        connection.query_row(sql, [], |row| Ok((row.get(0)?, row.get(1)?, row.get(2)?))),
    )
}

/// A stored dimension as a pixel count: only positive values that fit in a `u32` count.
pub open spec fn spec_to_dimension(value: Option<i64>) -> Option<u32> {
    match value {
        Some(v) => if 0 < v <= u32::MAX {
            Some(v as u32)
        } else {
            None
        },
        None => None,
    }
}

/// Converts a stored dimension into a pixel count.
pub fn to_dimension(value: Option<i64>) -> (res: Option<u32>)
    ensures
        res == spec_to_dimension(value),
{
    let value = match value {
        Some(value) => value,
        None => return None,
    };
    if value <= 0 {
        return None;
    }
    if value > 0xFFFF_FFFF {
        return None;
    }
    Some(value as u32)
}

/// The preview that a selected row yields: `None` when there is no row or its image data is
/// empty; otherwise the data with its detected format, and dimensions when both stored
/// dimensions are usable.
pub open spec fn spec_preview_from_row(row: Option<(Option<i64>, Option<i64>, Seq<u8>)>) -> Option<
    PreviewView,
> {
    match row {
        None => None,
        Some((width, height, bytes)) => if bytes.len() == 0 {
            None
        } else {
            let preview = PreviewView::spec_new(spec_detect(bytes), bytes);
            match (spec_to_dimension(width), spec_to_dimension(height)) {
                (Some(w), Some(h)) => Some(preview.spec_with_dimensions(w, h)),
                _ => Some(preview),
            }
        },
    }
}

/// A selected row with image data always yields a preview of exactly that data, in the
/// format its bytes announce; a missing row or empty data yields no preview.
pub proof fn law_preview_keeps_row_data(width: Option<i64>, height: Option<i64>, bytes: Seq<u8>)
    ensures
        spec_preview_from_row(None) is None,
        bytes.len() == 0 ==> spec_preview_from_row(Some((width, height, bytes))) is None,
        bytes.len() > 0 ==> spec_preview_from_row(Some((width, height, bytes))) is Some,
        bytes.len() > 0 ==> spec_preview_from_row(Some((width, height, bytes))).unwrap().bytes
            == bytes,
        bytes.len() > 0 ==> spec_preview_from_row(Some((width, height, bytes))).unwrap().format
            == spec_detect(bytes),
{
}

/// A preview carries the row's width and height unchanged (square or not) when both are
/// positive and fit in a `u32`.
pub proof fn law_preview_keeps_usable_dimensions(width: i64, height: i64, bytes: Seq<u8>)
    requires
        bytes.len() > 0,
        0 < width <= 0xFFFF_FFFF,
        0 < height <= 0xFFFF_FFFF,
    ensures
        spec_preview_from_row(Some((Some(width), Some(height), bytes))).unwrap().width == Some(
            width as u32,
        ),
        spec_preview_from_row(Some((Some(width), Some(height), bytes))).unwrap().height == Some(
            height as u32,
        ),
        spec_preview_from_row(Some((Some(width), Some(height), bytes))).unwrap().width.unwrap()
            == width,
        spec_preview_from_row(Some((Some(width), Some(height), bytes))).unwrap().height.unwrap()
            == height,
{
}

/// A preview has no dimensions when the row's width or height is missing, not positive, or
/// too large for a `u32`.
pub proof fn law_preview_drops_unusable_dimensions(
    width: Option<i64>,
    height: Option<i64>,
    bytes: Seq<u8>,
)
    requires
        bytes.len() > 0,
        !(width is Some && height is Some && 0 < width.unwrap() <= 0xFFFF_FFFF && 0
            < height.unwrap() <= 0xFFFF_FFFF),
    ensures
        spec_preview_from_row(Some((width, height, bytes))).unwrap().width is None,
        spec_preview_from_row(Some((width, height, bytes))).unwrap().height is None,
{
}

/// What loading a preview from the database `image` gives, apart from SQLite failures.
pub open spec fn spec_loads_preview(res: Result<Preview, ClipError>, image: Seq<u8>) -> bool {
    if !canvas_preview_table_exists(image) {
        is_invalid_format(res, "CanvasPreview table not found in embedded SQLite database"@)
    } else {
        match spec_preview_from_row(selected_preview_row(image)) {
            Some(v) => res matches Ok(p) && p@ == v,
            None => res matches Err(ClipError::PreviewNotFound),
        }
    }
}

/// Builds the preview from the row that the preview query selected.
pub fn preview_from_row(row: Option<(Option<i64>, Option<i64>, Vec<u8>)>) -> (res: Result<
    Preview,
    ClipError,
>)
    ensures
        match spec_preview_from_row(row_view(row)) {
            Some(v) => res matches Ok(p) && p@ == v,
            None => res matches Err(ClipError::PreviewNotFound),
        },
{
    let (width, height, bytes) = match row {
        Some(row) => row,
        None => return Err(ClipError::PreviewNotFound),
    };
    if bytes.len() == 0 {
        return Err(ClipError::PreviewNotFound);
    }
    let format = PreviewFormat::detect(bytes.as_slice());
    let mut preview = Preview::new(format, bytes);
    match (to_dimension(width), to_dimension(height)) {
        (Some(width), Some(height)) => {
            preview = preview.with_dimensions(width, height);
        },
        _ => {},
    }
    Ok(preview)
}

/// Opens the embedded database: the bytes in `chunk` become the main schema of a read-only
/// in-memory SQLite connection.
pub fn open_embedded_database(data: &[u8], chunk: ChunkRange) -> (res: Result<
    rusqlite::Connection,
    ClipError,
>)
    requires
        chunk.offset + chunk.size <= data@.len(),
    ensures
        match res {
            Ok(connection) => database_image(connection) == data@.subrange(
                chunk.offset as int,
                chunk.offset + chunk.size,
            ),
            Err(error) => error is Sqlite,
        },
{
    let data_len = data.len();
    assert(chunk.offset + chunk.size <= data_len);
    let image = vstd::slice::slice_subrange(data, chunk.offset, chunk.offset + chunk.size);
    let mut connection = match open_in_memory_database() {
        Ok(connection) => connection,
        Err(error) => return Err(ClipError::Sqlite(error)),
    };
    match deserialize_database(&mut connection, image, true) {
        Ok(()) => {},
        Err(error) => return Err(ClipError::Sqlite(error)),
    }
    Ok(connection)
}

/// Reads the preview from the embedded database behind `connection`.
pub fn load_preview_from_connection(connection: &rusqlite::Connection) -> (res: Result<
    Preview,
    ClipError,
>)
    ensures
        res matches Err(ClipError::Sqlite(_)) || spec_loads_preview(res, database_image(*connection)),
{
    let has_preview_table = match query_flag(connection, PREVIEW_TABLE_QUERY) {
        Ok(flag) => flag,
        Err(error) => return Err(ClipError::Sqlite(error)),
    };
    if !has_preview_table {
        return Err(
            ClipError::InvalidFormat("CanvasPreview table not found in embedded SQLite database"),
        );
    }
    let row = match query_preview_row(connection, PREVIEW_ROW_QUERY) {
        Ok(row) => row,
        Err(error) => return Err(ClipError::Sqlite(error)),
    };
    preview_from_row(row)
}

} // verus!
