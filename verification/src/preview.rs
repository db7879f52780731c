use vstd::prelude::*;

use crate::bytes::{occurs_at, occurs_at_exec, starts_with};

verus! {

/// Encoded image format for an extracted preview payload.
#[derive(Debug, Clone, Copy, PartialEq, Eq, Structural)]
pub enum PreviewFormat {
    /// PNG-encoded preview bytes.
    Png,
    /// JPEG-encoded preview bytes.
    Jpeg,
    /// WebP-encoded preview bytes.
    Webp,
    /// The preview was extracted, but the exact format is not known yet.
    Unknown,
}

/// The eight bytes every PNG file starts with.
pub open spec fn png_signature() -> Seq<u8> {
    seq![0x89u8, 0x50u8, 0x4Eu8, 0x47u8, 0x0Du8, 0x0Au8, 0x1Au8, 0x0Au8]
}

/// The start-of-image marker every JPEG file starts with.
pub open spec fn jpeg_signature() -> Seq<u8> {
    seq![0xFFu8, 0xD8u8, 0xFFu8]
}

/// `RIFF`, the container tag at offset 0 of a WebP file.
pub open spec fn riff_tag() -> Seq<u8> {
    seq![0x52u8, 0x49u8, 0x46u8, 0x46u8]
}

/// `WEBP`, the form type at offset 8 of a WebP file.
pub open spec fn webp_tag() -> Seq<u8> {
    seq![0x57u8, 0x45u8, 0x42u8, 0x50u8]
}

/// The format that the leading bytes of an encoded image announce.
pub open spec fn spec_detect(bytes: Seq<u8>) -> PreviewFormat {
    if starts_with(bytes, png_signature()) {
        PreviewFormat::Png
    } else if starts_with(bytes, jpeg_signature()) {
        PreviewFormat::Jpeg
    } else if bytes.len() >= 12 && occurs_at(bytes, riff_tag(), 0) && occurs_at(bytes, webp_tag(), 8) {
        PreviewFormat::Webp
    } else {
        PreviewFormat::Unknown
    }
}

/// The file extension recommended for a format.
pub open spec fn spec_extension(format: PreviewFormat) -> Seq<char> {
    match format {
        PreviewFormat::Png => "png"@,
        PreviewFormat::Jpeg => "jpg"@,
        PreviewFormat::Webp => "webp"@,
        PreviewFormat::Unknown => "bin"@,
    }
}

/// The media type of a format.
pub open spec fn spec_media_type(format: PreviewFormat) -> Seq<char> {
    match format {
        PreviewFormat::Png => "image/png"@,
        PreviewFormat::Jpeg => "image/jpeg"@,
        PreviewFormat::Webp => "image/webp"@,
        PreviewFormat::Unknown => "application/octet-stream"@,
    }
}

impl PreviewFormat {
    /// Detects the image format from the leading bytes of an encoded image.
    pub fn detect(bytes: &[u8]) -> (res: Self)
        ensures
            res == spec_detect(bytes@),
    {
        let png: [u8; 8] = [0x89, 0x50, 0x4E, 0x47, 0x0D, 0x0A, 0x1A, 0x0A];
        let jpeg: [u8; 3] = [0xFF, 0xD8, 0xFF];
        let riff: [u8; 4] = [0x52, 0x49, 0x46, 0x46];
        let webp: [u8; 4] = [0x57, 0x45, 0x42, 0x50];
        assert(png@ =~= png_signature());
        assert(jpeg@ =~= jpeg_signature());
        assert(riff@ =~= riff_tag());
        assert(webp@ =~= webp_tag());
        if occurs_at_exec(bytes, png.as_slice(), 0) {
            PreviewFormat::Png
        } else if occurs_at_exec(bytes, jpeg.as_slice(), 0) {
            PreviewFormat::Jpeg
        } else if bytes.len() >= 12 && occurs_at_exec(bytes, riff.as_slice(), 0)
            && occurs_at_exec(bytes, webp.as_slice(), 8) {
            PreviewFormat::Webp
        } else {
            PreviewFormat::Unknown
        }
    }

    /// Returns the recommended file extension for this image format.
    pub fn extension(self) -> (res: &'static str)
        ensures
            res@ == spec_extension(self),
    {
        match self {
            PreviewFormat::Png => "png",
            PreviewFormat::Jpeg => "jpg",
            PreviewFormat::Webp => "webp",
            PreviewFormat::Unknown => "bin",
        }
    }

    /// Returns the media type for this image format.
    pub fn media_type(self) -> (res: &'static str)
        ensures
            res@ == spec_media_type(self),
    {
        match self {
            PreviewFormat::Png => "image/png",
            PreviewFormat::Jpeg => "image/jpeg",
            PreviewFormat::Webp => "image/webp",
            PreviewFormat::Unknown => "application/octet-stream",
        }
    }
}

/// The abstract content of a [`Preview`]: its format, payload and optional dimensions.
pub struct PreviewView {
    pub format: PreviewFormat,
    pub bytes: Seq<u8>,
    pub width: Option<u32>,
    pub height: Option<u32>,
}

impl PreviewView {
    /// A preview of `bytes` in `format` with no dimensions.
    pub open spec fn spec_new(format: PreviewFormat, bytes: Seq<u8>) -> PreviewView {
        PreviewView { format, bytes, width: None, height: None }
    }

    /// This preview with its dimensions set.
    pub open spec fn spec_with_dimensions(self, width: u32, height: u32) -> PreviewView {
        PreviewView { width: Some(width), height: Some(height), ..self }
    }

    /// The dimensions, known only when both the width and the height are.
    pub open spec fn spec_dimensions(self) -> Option<(u32, u32)> {
        match (self.width, self.height) {
            (Some(w), Some(h)) => Some((w, h)),
            _ => None,
        }
    }
}

/// A preview reads back the format and bytes it was created with, and has no dimensions.
pub proof fn law_new_preview_reads_back(format: PreviewFormat, bytes: Seq<u8>)
    ensures
        PreviewView::spec_new(format, bytes).format == format,
        PreviewView::spec_new(format, bytes).bytes == bytes,
        PreviewView::spec_new(format, bytes).spec_dimensions() is None,
{
}

/// Setting dimensions makes them the preview's dimensions and leaves format and bytes as they
/// were.
pub proof fn law_with_dimensions_reads_back(preview: PreviewView, width: u32, height: u32)
    ensures
        preview.spec_with_dimensions(width, height).spec_dimensions() == Some((width, height)),
        preview.spec_with_dimensions(width, height).format == preview.format,
        preview.spec_with_dimensions(width, height).bytes == preview.bytes,
{
}

/// The leading bytes alone decide the format: `89 50 4E 47 0D 0A 1A 0A` is PNG; `FF D8 FF`
/// is JPEG, whatever follows the marker; `RIFF`, four bytes, `WEBP` is WebP; anything else
/// is unknown.
pub proof fn law_detect_by_leading_bytes(bytes: Seq<u8>)
    ensures
        bytes.len() >= 8 && bytes[0] == 0x89u8 && bytes[1] == 0x50u8 && bytes[2] == 0x4Eu8
            && bytes[3] == 0x47u8 && bytes[4] == 0x0Du8 && bytes[5] == 0x0Au8 && bytes[6] == 0x1Au8
            && bytes[7] == 0x0Au8 ==> spec_detect(bytes) == PreviewFormat::Png,
        bytes.len() >= 3 && bytes[0] == 0xFFu8 && bytes[1] == 0xD8u8 && bytes[2] == 0xFFu8
            ==> spec_detect(bytes) == PreviewFormat::Jpeg,
        bytes.len() >= 12 && bytes[0] == 0x52u8 && bytes[1] == 0x49u8 && bytes[2] == 0x46u8
            && bytes[3] == 0x46u8 && bytes[8] == 0x57u8 && bytes[9] == 0x45u8 && bytes[10] == 0x42u8
            && bytes[11] == 0x50u8 ==> spec_detect(bytes) == PreviewFormat::Webp,
        spec_detect(bytes) == PreviewFormat::Png ==> bytes.len() >= 8 && bytes[0] == 0x89u8
            && bytes[1] == 0x50u8 && bytes[2] == 0x4Eu8 && bytes[3] == 0x47u8 && bytes[4] == 0x0Du8
            && bytes[5] == 0x0Au8 && bytes[6] == 0x1Au8 && bytes[7] == 0x0Au8,
        spec_detect(bytes) == PreviewFormat::Jpeg ==> bytes.len() >= 3 && bytes[0] == 0xFFu8
            && bytes[1] == 0xD8u8 && bytes[2] == 0xFFu8,
        spec_detect(bytes) == PreviewFormat::Webp ==> bytes.len() >= 12 && bytes[0] == 0x52u8
            && bytes[1] == 0x49u8 && bytes[2] == 0x46u8 && bytes[3] == 0x46u8 && bytes[8] == 0x57u8
            && bytes[9] == 0x45u8 && bytes[10] == 0x42u8 && bytes[11] == 0x50u8,
{
    let png = png_signature();
    let jpeg = jpeg_signature();
    let riff = riff_tag();
    let webp = webp_tag();
    if bytes.len() >= 8 {
        let head = bytes.subrange(0, 8);
        assert(forall|k: int| 0 <= k < 8 ==> head[k] == bytes[k]);
        if bytes[0] == 0x89u8 && bytes[1] == 0x50u8 && bytes[2] == 0x4Eu8 && bytes[3] == 0x47u8
            && bytes[4] == 0x0Du8 && bytes[5] == 0x0Au8 && bytes[6] == 0x1Au8 && bytes[7] == 0x0Au8 {
            assert(head =~= png);
        }
    }
    if bytes.len() >= 3 {
        let head = bytes.subrange(0, 3);
        assert(forall|k: int| 0 <= k < 3 ==> head[k] == bytes[k]);
        if bytes[0] == 0xFFu8 && bytes[1] == 0xD8u8 && bytes[2] == 0xFFu8 {
            assert(head =~= jpeg);
        }
    }
    if bytes.len() >= 12 {
        let head = bytes.subrange(0, 4);
        let form = bytes.subrange(8, 12);
        assert(forall|k: int| 0 <= k < 4 ==> head[k] == bytes[k]);
        assert(forall|k: int| 0 <= k < 4 ==> form[k] == bytes[8 + k]);
        if bytes[0] == 0x52u8 && bytes[1] == 0x49u8 && bytes[2] == 0x46u8 && bytes[3] == 0x46u8 {
            assert(head =~= riff);
        }
        if bytes[8] == 0x57u8 && bytes[9] == 0x45u8 && bytes[10] == 0x42u8 && bytes[11] == 0x50u8 {
            assert(form =~= webp);
        }
    }
    if starts_with(bytes, png) {
        assert(bytes.subrange(0, 8)[0] == bytes[0]);
        assert(bytes.subrange(0, 8)[1] == bytes[1]);
        assert(bytes.subrange(0, 8)[2] == bytes[2]);
        assert(bytes.subrange(0, 8)[3] == bytes[3]);
        assert(bytes.subrange(0, 8)[4] == bytes[4]);
        assert(bytes.subrange(0, 8)[5] == bytes[5]);
        assert(bytes.subrange(0, 8)[6] == bytes[6]);
        assert(bytes.subrange(0, 8)[7] == bytes[7]);
    }
}

/// Binary payload and metadata for an extracted preview image.
#[derive(Debug, Clone, PartialEq, Eq)]
pub struct Preview {
    format: PreviewFormat,
    bytes: Vec<u8>,
    width: Option<u32>,
    height: Option<u32>,
}

impl View for Preview {
    type V = PreviewView;

    closed spec fn view(&self) -> PreviewView {
        PreviewView {
            format: self.format,
            bytes: self.bytes@,
            width: self.width,
            height: self.height,
        }
    }
}

impl Preview {
    /// Creates a preview object from encoded bytes.
    pub fn new(format: PreviewFormat, bytes: Vec<u8>) -> (res: Self)
        ensures
            res@ == PreviewView::spec_new(format, bytes@),
    {
        Preview { format, bytes, width: None, height: None }
    }

    /// Stores optional pixel dimensions discovered during parsing.
    pub fn with_dimensions(self, width: u32, height: u32) -> (res: Self)
        ensures
            res@ == self@.spec_with_dimensions(width, height),
    {
        let mut preview = self;
        preview.width = Some(width);
        preview.height = Some(height);
        preview
    }

    /// Returns the encoded preview format.
    pub fn format(&self) -> (res: PreviewFormat)
        ensures
            res == self@.format,
    {
        self.format
    }

    /// Returns the raw encoded preview bytes.
    pub fn bytes(&self) -> (res: &[u8])
        ensures
            res@ == self@.bytes,
    {
        self.bytes.as_slice()
    }

    /// Returns the encoded preview length in bytes.
    pub fn len(&self) -> (res: usize)
        ensures
            res == self@.bytes.len(),
    {
        self.bytes().len()
    }

    /// Returns `true` if the preview payload is empty.
    pub fn is_empty(&self) -> (res: bool)
        ensures
            res == (self@.bytes.len() == 0),
    {
        self.bytes().len() == 0
    }

    /// Returns the parsed preview dimensions, if known.
    pub fn dimensions(&self) -> (res: Option<(u32, u32)>)
        ensures
            res == self@.spec_dimensions(),
    {
        match (self.width, self.height) {
            (Some(w), Some(h)) => Some((w, h)),
            _ => None,
        }
    }
}

} // verus!
