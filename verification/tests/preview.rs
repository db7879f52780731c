use clip2preview::{Preview, PreviewFormat};

#[test]
fn detects_png_jpeg_and_webp() {
    assert_eq!(PreviewFormat::detect(b"\x89PNG\r\n\x1a\nrest"), PreviewFormat::Png);
    assert_eq!(PreviewFormat::detect(&[0xFF, 0xD8, 0xFF]), PreviewFormat::Jpeg);
    assert_eq!(PreviewFormat::detect(b"RIFF\x01\x02\x03\x04WEBP"), PreviewFormat::Webp);
}

#[test]
fn detects_unknown_formats() {
    assert_eq!(PreviewFormat::detect(&[]), PreviewFormat::Unknown);
    assert_eq!(PreviewFormat::detect(b"\x89PNG\r\n\x1a"), PreviewFormat::Unknown);
    assert_eq!(PreviewFormat::detect(&[0xFF, 0xD8]), PreviewFormat::Unknown);
    assert_eq!(PreviewFormat::detect(b"RIFF\x01\x02\x03\x04WEB"), PreviewFormat::Unknown);
    assert_eq!(PreviewFormat::detect(b"RIFX\x01\x02\x03\x04WEBP"), PreviewFormat::Unknown);
}

#[test]
fn extensions_and_media_types() {
    assert_eq!(PreviewFormat::Png.extension(), "png");
    assert_eq!(PreviewFormat::Jpeg.extension(), "jpg");
    assert_eq!(PreviewFormat::Webp.extension(), "webp");
    assert_eq!(PreviewFormat::Unknown.extension(), "bin");
    assert_eq!(PreviewFormat::Png.media_type(), "image/png");
    assert_eq!(PreviewFormat::Jpeg.media_type(), "image/jpeg");
    assert_eq!(PreviewFormat::Webp.media_type(), "image/webp");
    assert_eq!(PreviewFormat::Unknown.media_type(), "application/octet-stream");
}

#[test]
fn new_preview_reads_back_without_dimensions() {
    let preview = Preview::new(PreviewFormat::Jpeg, vec![1, 2, 3, 4]);

    assert_eq!(preview.format(), PreviewFormat::Jpeg);
    assert_eq!(preview.bytes(), &[1, 2, 3, 4]);
    assert_eq!(preview.len(), 4);
    assert!(!preview.is_empty());
    assert_eq!(preview.dimensions(), None);
}

#[test]
fn with_dimensions_sets_both_dimensions() {
    let preview = Preview::new(PreviewFormat::Png, vec![7]).with_dimensions(640, 480);

    assert_eq!(preview.dimensions(), Some((640, 480)));
    assert_eq!(preview.format(), PreviewFormat::Png);
    assert_eq!(preview.bytes(), &[7]);
}

#[test]
fn empty_preview_is_empty() {
    let preview = Preview::new(PreviewFormat::Unknown, Vec::new());

    assert!(preview.is_empty());
    assert_eq!(preview.len(), 0);
}
