use clip2preview::{extract_preview_from_bytes, ClipError, PreviewFormat};
use rusqlite::Connection;

const CREATE_CANVAS_PREVIEW: &str = "CREATE TABLE CanvasPreview(
    _PW_ID INTEGER PRIMARY KEY AUTOINCREMENT,
    MainId INTEGER DEFAULT NULL,
    CanvasId INTEGER DEFAULT NULL,
    ImageType INTEGER DEFAULT NULL,
    ImageWidth INTEGER DEFAULT NULL,
    ImageHeight INTEGER DEFAULT NULL,
    ImageData BLOB DEFAULT NULL
);";

const INSERT_PREVIEW: &str = "INSERT INTO CanvasPreview
    (MainId, CanvasId, ImageType, ImageWidth, ImageHeight, ImageData)
    VALUES (?1, ?2, ?3, ?4, ?5, ?6)";

fn database_bytes(connection: &mut Connection) -> Vec<u8> {
    connection.serialize(rusqlite::MAIN_DB).unwrap().to_vec()
}

fn build_embedded_database(rows: &[(Option<i64>, Option<i64>, Option<Vec<u8>>)]) -> Vec<u8> {
    let mut connection = Connection::open_in_memory().unwrap();
    connection.execute_batch(CREATE_CANVAS_PREVIEW).unwrap();
    for (width, height, data) in rows {
        connection
            .execute(INSERT_PREVIEW, (1_i64, 1_i64, 1_i64, *width, *height, data.clone()))
            .unwrap();
    }
    database_bytes(&mut connection)
}

fn build_single_row_database(preview_bytes: &[u8], width: i64, height: i64) -> Vec<u8> {
    build_embedded_database(&[(Some(width), Some(height), Some(preview_bytes.to_vec()))])
}

fn build_synthetic_clip(preview_bytes: &[u8], width: i64, height: i64) -> Vec<u8> {
    wrap_database_in_clip_container(&build_single_row_database(preview_bytes, width, height))
}

fn build_legacy_synthetic_clip(preview_bytes: &[u8], width: i64, height: i64) -> Vec<u8> {
    wrap_database_in_legacy_clip_container(&build_single_row_database(
        preview_bytes,
        width,
        height,
    ))
}

fn build_synthetic_clip_without_preview() -> Vec<u8> {
    wrap_database_in_clip_container(&build_embedded_database(&[]))
}

fn wrap_database_in_clip_container(database_bytes: &[u8]) -> Vec<u8> {
    let mut clip_bytes = Vec::with_capacity(160 + database_bytes.len());
    clip_bytes.extend_from_slice(b"CSFCHUNK");
    clip_bytes.extend_from_slice(&[0_u8; 48]);
    clip_bytes.extend_from_slice(b"CHNKHead");
    clip_bytes.extend_from_slice(&[0_u8; 64]);
    clip_bytes.extend_from_slice(b"CHNKSQLi");
    clip_bytes.extend_from_slice(&(database_bytes.len() as u64).to_be_bytes());
    clip_bytes.extend_from_slice(database_bytes);
    clip_bytes.extend_from_slice(b"CHNKFoot");
    clip_bytes.extend_from_slice(&0_u64.to_be_bytes());
    clip_bytes
}

fn wrap_database_in_legacy_clip_container(database_bytes: &[u8]) -> Vec<u8> {
    let mut clip_bytes = Vec::with_capacity(128 + database_bytes.len());
    clip_bytes.extend_from_slice(b"CSFCHUNK");
    clip_bytes.extend_from_slice(&[0_u8; 48]);
    clip_bytes.extend_from_slice(b"CHNKHead");
    clip_bytes.extend_from_slice(&[0_u8; 64]);
    clip_bytes.extend_from_slice(database_bytes);
    clip_bytes
}

fn append_false_positive_chunk_header(clip_bytes: &mut Vec<u8>) {
    clip_bytes.extend_from_slice(b"CHNKSQLi");
    clip_bytes.extend_from_slice(&u64::MAX.to_be_bytes());
}

fn append_false_positive_sqlite_header(clip_bytes: &mut Vec<u8>) {
    clip_bytes.extend_from_slice(b"SQLite format 3\0");
    clip_bytes.extend_from_slice(&[0_u8; 84]);
}

#[test]
fn empty_input_is_rejected() {
    let input = Vec::<u8>::new();
    let error = extract_preview_from_bytes(&input).unwrap_err();

    assert!(matches!(error, ClipError::InvalidFormat("input is empty")));
}

#[test]
fn non_clip_input_is_rejected() {
    let input = vec![0x01, 0x02, 0x03];
    let error = extract_preview_from_bytes(&input).unwrap_err();

    assert!(matches!(
        error,
        ClipError::InvalidFormat("missing CSFCHUNK signature")
    ));
}

#[test]
fn extracts_preview_from_embedded_sqlite() {
    let png_bytes = b"\x89PNG\r\n\x1a\nfake-png-payload".to_vec();
    let clip_bytes = build_synthetic_clip(&png_bytes, 2400, 1600);

    let preview = extract_preview_from_bytes(&clip_bytes).unwrap();

    assert_eq!(preview.format(), PreviewFormat::Png);
    assert_eq!(preview.dimensions(), Some((2400, 1600)));
    assert_eq!(preview.bytes(), png_bytes.as_slice());
}

#[test]
fn falls_back_to_sqlite_header_search_when_chunk_header_is_missing() {
    let png_bytes = b"\x89PNG\r\n\x1a\nfallback-payload".to_vec();
    let clip_bytes = build_legacy_synthetic_clip(&png_bytes, 1024, 768);

    let preview = extract_preview_from_bytes(&clip_bytes).unwrap();

    assert_eq!(preview.format(), PreviewFormat::Png);
    assert_eq!(preview.dimensions(), Some((1024, 768)));
    assert_eq!(preview.bytes(), png_bytes.as_slice());
}

#[test]
fn ignores_false_positive_chunk_headers_in_the_same_scan_window() {
    let png_bytes = b"\x89PNG\r\n\x1a\nchunk-header-false-positive".to_vec();
    let mut clip_bytes = build_synthetic_clip(&png_bytes, 320, 240);
    append_false_positive_chunk_header(&mut clip_bytes);
    append_false_positive_sqlite_header(&mut clip_bytes);

    let preview = extract_preview_from_bytes(&clip_bytes).unwrap();

    assert_eq!(preview.format(), PreviewFormat::Png);
    assert_eq!(preview.dimensions(), Some((320, 240)));
    assert_eq!(preview.bytes(), png_bytes.as_slice());
}

#[test]
fn ignores_false_positive_sqlite_headers_in_the_same_scan_window() {
    let png_bytes = b"\x89PNG\r\n\x1a\nsqlite-header-false-positive".to_vec();
    let mut clip_bytes = build_legacy_synthetic_clip(&png_bytes, 800, 600);
    append_false_positive_sqlite_header(&mut clip_bytes);

    let preview = extract_preview_from_bytes(&clip_bytes).unwrap();

    assert_eq!(preview.format(), PreviewFormat::Png);
    assert_eq!(preview.dimensions(), Some((800, 600)));
    assert_eq!(preview.bytes(), png_bytes.as_slice());
}

#[test]
fn returns_preview_not_found_when_canvas_preview_has_no_rows() {
    let clip_bytes = build_synthetic_clip_without_preview();
    let error = extract_preview_from_bytes(&clip_bytes).unwrap_err();

    assert!(matches!(error, ClipError::PreviewNotFound));
}

#[test]
fn short_input_with_signature_prefix_is_rejected() {
    let error = extract_preview_from_bytes(b"CSFCHUN").unwrap_err();

    assert!(matches!(
        error,
        ClipError::InvalidFormat("missing CSFCHUNK signature")
    ));
}

#[test]
fn container_without_database_reports_missing_sqlite_header() {
    let mut clip_bytes = b"CSFCHUNK".to_vec();
    clip_bytes.extend_from_slice(&[0_u8; 200]);
    let error = extract_preview_from_bytes(&clip_bytes).unwrap_err();

    assert!(matches!(
        error,
        ClipError::InvalidFormat("embedded SQLite header not found")
    ));
}

#[test]
fn chunk_tag_too_close_to_the_end_is_a_read_error() {
    let mut clip_bytes = b"CSFCHUNK".to_vec();
    clip_bytes.extend_from_slice(b"CHNKSQLi");
    clip_bytes.extend_from_slice(&[0_u8; 4]);
    let error = extract_preview_from_bytes(&clip_bytes).unwrap_err();

    match error {
        ClipError::Io(source) => {
            assert_eq!(source.kind(), std::io::ErrorKind::UnexpectedEof)
        }
        other => panic!("expected an I/O error, got {other:?}"),
    }
}

#[test]
fn database_without_canvas_preview_table_is_rejected() {
    let mut connection = Connection::open_in_memory().unwrap();
    connection
        .execute_batch("CREATE TABLE Other(id INTEGER PRIMARY KEY);")
        .unwrap();
    let clip_bytes = wrap_database_in_clip_container(&database_bytes(&mut connection));
    let error = extract_preview_from_bytes(&clip_bytes).unwrap_err();

    assert!(matches!(
        error,
        ClipError::InvalidFormat("CanvasPreview table not found in embedded SQLite database")
    ));
}

#[test]
fn picks_the_largest_preview_and_skips_rows_without_data() {
    let small = vec![0xFF, 0xD8, 0xFF, 0x01];
    let large = b"RIFF\x00\x00\x00\x00WEBPVP8 ".to_vec();
    let database = build_embedded_database(&[
        (Some(10), Some(10), Some(small)),
        (Some(5000), Some(5000), None),
        (Some(3000), Some(3000), Some(Vec::new())),
        (Some(200), Some(100), Some(large.clone())),
        (Some(100), Some(200), Some(vec![9, 9, 9])),
    ]);
    let clip_bytes = wrap_database_in_clip_container(&database);

    let preview = extract_preview_from_bytes(&clip_bytes).unwrap();

    assert_eq!(preview.format(), PreviewFormat::Webp);
    assert_eq!(preview.dimensions(), Some((200, 100)));
    assert_eq!(preview.bytes(), large.as_slice());
}

#[test]
fn unusable_dimensions_leave_the_size_unknown() {
    let jpeg = vec![0xFF, 0xD8, 0xFF, 0xE0, 1, 2];
    let database = build_embedded_database(&[(Some(640), Some(-480), Some(jpeg.clone()))]);
    let clip_bytes = wrap_database_in_clip_container(&database);

    let preview = extract_preview_from_bytes(&clip_bytes).unwrap();

    assert_eq!(preview.format(), PreviewFormat::Jpeg);
    assert_eq!(preview.dimensions(), None);
    assert_eq!(preview.len(), jpeg.len());
    assert!(!preview.is_empty());
}

#[test]
fn finds_chunk_header_split_across_scan_windows() {
    let png_bytes = b"\x89PNG\r\n\x1a\nsplit-window".to_vec();
    let database = build_single_row_database(&png_bytes, 64, 32);
    let mut clip_bytes = wrap_database_in_clip_container(&database);
    // Place the CHNKSQLi tag so that it starts three bytes below the top 64 KiB window.
    let tag_offset = 128;
    let distance_to_end = clip_bytes.len() - tag_offset;
    let wanted = 65536 + 3;
    assert!(distance_to_end < wanted);
    clip_bytes.extend(std::iter::repeat(0xAB_u8).take(wanted - distance_to_end));

    let preview = extract_preview_from_bytes(&clip_bytes).unwrap();

    assert_eq!(preview.dimensions(), Some((64, 32)));
    assert_eq!(preview.bytes(), png_bytes.as_slice());
}

#[test]
fn finds_sqlite_header_split_across_scan_windows() {
    let png_bytes = b"\x89PNG\r\n\x1a\nsplit-header".to_vec();
    let database = build_single_row_database(&png_bytes, 12, 34);
    let mut clip_bytes = wrap_database_in_legacy_clip_container(&database);
    // The SQLite header starts at offset 128; end the input 65536 + 5 bytes after it.
    let distance_to_end = clip_bytes.len() - 128;
    let wanted = 65536 + 5;
    assert!(distance_to_end < wanted);
    clip_bytes.extend(std::iter::repeat(0_u8).take(wanted - distance_to_end));

    let preview = extract_preview_from_bytes(&clip_bytes).unwrap();

    assert_eq!(preview.dimensions(), Some((12, 34)));
    assert_eq!(preview.bytes(), png_bytes.as_slice());
}
