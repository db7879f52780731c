use clip2preview::{
    ensure_clip_signature, find_embedded_sqlite_chunk, find_last_subslice_starting_before,
    find_sqlite_chunk_by_chunk_header, find_sqlite_chunk_by_sqlite_header, is_valid_sqlite_header,
    is_valid_sqlite_page_size, parse_sqlite_chunk_header, preview_from_row, to_dimension,
    ChunkRange, ClipError, PreviewFormat,
};

fn sqlite_header_block(page_size: u16, write: u8, read: u8) -> Vec<u8> {
    let mut header = b"SQLite format 3\0".to_vec();
    header.extend_from_slice(&page_size.to_be_bytes());
    header.push(write);
    header.push(read);
    header.push(0);
    header.extend_from_slice(&[64, 32, 32]);
    header.resize(100, 0);
    header
}

#[test]
fn last_subslice_is_the_highest_match_before_the_end() {
    let haystack = [1, 2, 1, 2, 3, 1, 2];
    assert_eq!(find_last_subslice_starting_before(&haystack, &[1, 2], 7), Some(5));
    assert_eq!(find_last_subslice_starting_before(&haystack, &[1, 2], 5), Some(2));
    assert_eq!(find_last_subslice_starting_before(&haystack, &[1, 2], 2), Some(0));
    assert_eq!(find_last_subslice_starting_before(&haystack, &[1, 2], 0), None);
    assert_eq!(find_last_subslice_starting_before(&haystack, &[2, 3], 100), Some(3));
    assert_eq!(find_last_subslice_starting_before(&haystack, &[4], 7), None);
}

#[test]
fn last_subslice_edge_cases() {
    assert_eq!(find_last_subslice_starting_before(&[], &[], 0), Some(0));
    assert_eq!(find_last_subslice_starting_before(&[5], &[], 9), Some(0));
    assert_eq!(find_last_subslice_starting_before(&[5], &[5, 6], 1), None);
    assert_eq!(find_last_subslice_starting_before(&[5, 6], &[6], 1), None);
}

#[test]
fn page_sizes() {
    assert!(is_valid_sqlite_page_size(1));
    assert!(is_valid_sqlite_page_size(512));
    assert!(is_valid_sqlite_page_size(4096));
    assert!(is_valid_sqlite_page_size(32768));
    assert!(!is_valid_sqlite_page_size(0));
    assert!(!is_valid_sqlite_page_size(2));
    assert!(!is_valid_sqlite_page_size(256));
    assert!(!is_valid_sqlite_page_size(1000));
    assert!(!is_valid_sqlite_page_size(65535));
}

#[test]
fn dimensions_must_be_positive_and_fit() {
    assert_eq!(to_dimension(Some(640)), Some(640));
    assert_eq!(to_dimension(Some(4_294_967_295)), Some(u32::MAX));
    assert_eq!(to_dimension(Some(4_294_967_296)), None);
    assert_eq!(to_dimension(Some(0)), None);
    assert_eq!(to_dimension(Some(-1)), None);
    assert_eq!(to_dimension(None), None);
}

#[test]
fn signature_check_messages() {
    assert!(ensure_clip_signature(b"CSFCHUNK").is_ok());
    assert!(matches!(
        ensure_clip_signature(b""),
        Err(ClipError::InvalidFormat("input is empty"))
    ));
    assert!(matches!(
        ensure_clip_signature(b"CSFCHUNX"),
        Err(ClipError::InvalidFormat("missing CSFCHUNK signature"))
    ));
}

#[test]
fn chunk_header_checks() {
    let mut data = b"CHNKSQLi".to_vec();
    data.extend_from_slice(&4_u64.to_be_bytes());
    data.extend_from_slice(&[1, 2, 3, 4]);
    // Fewer than eight bytes follow the payload: no footer is required.
    assert_eq!(
        parse_sqlite_chunk_header(&data, 0).unwrap(),
        Some(ChunkRange { offset: 16, size: 4 })
    );
    let mut with_footer = data.clone();
    with_footer.extend_from_slice(b"CHNKFoot");
    assert_eq!(
        parse_sqlite_chunk_header(&with_footer, 0).unwrap(),
        Some(ChunkRange { offset: 16, size: 4 })
    );
    let mut bad_footer = data.clone();
    bad_footer.extend_from_slice(b"CHNKHead");
    assert_eq!(parse_sqlite_chunk_header(&bad_footer, 0).unwrap(), None);
    let mut too_long = b"CHNKSQLi".to_vec();
    too_long.extend_from_slice(&5_u64.to_be_bytes());
    too_long.extend_from_slice(&[1, 2, 3, 4]);
    assert_eq!(parse_sqlite_chunk_header(&too_long, 0).unwrap(), None);
    assert!(parse_sqlite_chunk_header(&data, 8).is_err());
    assert_eq!(
        parse_sqlite_chunk_header(&data, 100).unwrap_err().kind(),
        std::io::ErrorKind::UnexpectedEof
    );
}

#[test]
fn chunk_scan_prefers_the_highest_accepted_header() {
    let mut data = b"CHNKSQLi".to_vec();
    data.extend_from_slice(&2_u64.to_be_bytes());
    data.extend_from_slice(&[7, 7]);
    data.extend_from_slice(b"CHNKSQLi");
    data.extend_from_slice(&1_u64.to_be_bytes());
    data.push(9);
    data.extend_from_slice(b"CHNKFoot");
    data.extend_from_slice(b"CHNKSQLi");
    data.extend_from_slice(&100_u64.to_be_bytes());
    assert_eq!(
        find_sqlite_chunk_by_chunk_header(&data).unwrap(),
        Some(ChunkRange { offset: 34, size: 1 })
    );
    assert_eq!(find_sqlite_chunk_by_chunk_header(&[0_u8; 40]).unwrap(), None);
}

#[test]
fn sqlite_header_checks() {
    let header = sqlite_header_block(4096, 1, 1);
    assert!(is_valid_sqlite_header(&header, 0));
    assert!(!is_valid_sqlite_header(&header[..99], 0));
    assert!(!is_valid_sqlite_header(&sqlite_header_block(4096, 3, 1), 0));
    assert!(!is_valid_sqlite_header(&sqlite_header_block(4096, 2, 0), 0));
    assert!(!is_valid_sqlite_header(&sqlite_header_block(3000, 2, 2), 0));
    let mut bad_fractions = sqlite_header_block(1024, 2, 2);
    bad_fractions[22] = 33;
    assert!(!is_valid_sqlite_header(&bad_fractions, 0));
    assert!(!is_valid_sqlite_header(&header, 500));
}

#[test]
fn sqlite_scan_returns_the_highest_valid_header() {
    let mut data = vec![0_u8; 3];
    data.extend_from_slice(&sqlite_header_block(4096, 1, 1));
    data.extend_from_slice(&sqlite_header_block(0, 1, 1));
    assert_eq!(find_sqlite_chunk_by_sqlite_header(&data).unwrap(), 3);
    assert!(matches!(
        find_sqlite_chunk_by_sqlite_header(&data[4..]),
        Err(ClipError::InvalidFormat("embedded SQLite header not found"))
    ));
}

#[test]
fn locating_falls_back_to_the_sqlite_header() {
    let mut data = b"CSFCHUNK".to_vec();
    data.extend_from_slice(&sqlite_header_block(1, 2, 2));
    data.extend_from_slice(&[1, 2, 3]);
    assert_eq!(
        find_embedded_sqlite_chunk(&data).unwrap(),
        ChunkRange { offset: 8, size: 103 }
    );
}

#[test]
fn preview_rows() {
    assert!(matches!(preview_from_row(None), Err(ClipError::PreviewNotFound)));
    assert!(matches!(
        preview_from_row(Some((Some(1), Some(1), Vec::new()))),
        Err(ClipError::PreviewNotFound)
    ));
    let preview = preview_from_row(Some((Some(3), None, vec![0xFF, 0xD8, 0xFF]))).unwrap();
    assert_eq!(preview.format(), PreviewFormat::Jpeg);
    assert_eq!(preview.dimensions(), None);
    let preview = preview_from_row(Some((Some(3), Some(4), vec![1]))).unwrap();
    assert_eq!(preview.format(), PreviewFormat::Unknown);
    assert_eq!(preview.dimensions(), Some((3, 4)));
}

#[test]
fn error_messages() {
    assert_eq!(
        ClipError::InvalidFormat("input is empty").to_string(),
        "invalid .clip file: input is empty"
    );
    assert_eq!(ClipError::PreviewNotFound.to_string(), "preview image not found");
    assert_eq!(
        ClipError::Unsupported("x").to_string(),
        "unsupported .clip file: x"
    );
    let io = ClipError::Io(std::io::Error::new(std::io::ErrorKind::Other, "boom"));
    assert_eq!(io.to_string(), "I/O error: boom");
    let source = rusqlite::Error::QueryReturnedNoRows;
    let expected = format!("SQLite error: {source}");
    assert_eq!(ClipError::Sqlite(source).to_string(), expected);
}
