//! Media types: detection by file extension and by magic bytes, MIME
//! names, resize and thumbnail options, and base64 text for media data.

use vstd::prelude::*;
use base64::Engine;
use base64::DecodeError;
use crate::text::{
    all_ascii, ascii_lower, lemma_ascii_case_fold, str_eq, str_to_lowercase, string_push_str, unicode_lowercase,
};

verus! {

#[verifier::external_type_specification]
#[verifier::external_body]
pub struct ExDecodeError(DecodeError);

/// Supported media types.
#[derive(Debug, Clone, Copy, PartialEq, Eq, Hash, Structural)]
pub enum MediaType {
    Jpeg,
    Png,
    Gif,
    WebP,
    Bmp,
    Ico,
    Tiff,
    Pdf,
    Text,
    Unknown,
}

/// The media type named by an already lowercased extension.
pub open spec fn extension_type(lower: Seq<char>) -> MediaType {
    if lower == "jpg"@ || lower == "jpeg"@ {
        MediaType::Jpeg
    } else if lower == "png"@ {
        MediaType::Png
    } else if lower == "gif"@ {
        MediaType::Gif
    } else if lower == "webp"@ {
        MediaType::WebP
    } else if lower == "bmp"@ {
        MediaType::Bmp
    } else if lower == "ico"@ {
        MediaType::Ico
    } else if lower == "tiff"@ || lower == "tif"@ {
        MediaType::Tiff
    } else if lower == "pdf"@ {
        MediaType::Pdf
    } else if lower == "txt"@ {
        MediaType::Text
    } else {
        MediaType::Unknown
    }
}

/// `data` begins with `prefix`.
pub open spec fn has_prefix(data: Seq<u8>, prefix: Seq<u8>) -> bool {
    prefix.len() <= data.len() && data.subrange(0, prefix.len() as int) == prefix
}

/// The media type that the leading bytes of `data` announce; inputs under
/// eight bytes are unknown.
pub open spec fn magic_type(data: Seq<u8>) -> MediaType {
    if data.len() < 8 {
        MediaType::Unknown
    } else if has_prefix(data, seq![0xFFu8, 0xD8u8, 0xFFu8]) {
        MediaType::Jpeg
    } else if has_prefix(data, seq![0x89u8, 0x50u8, 0x4Eu8, 0x47u8, 0x0Du8, 0x0Au8, 0x1Au8, 0x0Au8]) {
        MediaType::Png
    } else if has_prefix(data, seq![0x47u8, 0x49u8, 0x46u8, 0x38u8]) {
        MediaType::Gif
    } else if data.len() >= 12 && has_prefix(data, seq![0x52u8, 0x49u8, 0x46u8, 0x46u8])
        && data.subrange(8, 12) == seq![0x57u8, 0x45u8, 0x42u8, 0x50u8] {
        MediaType::WebP
    } else if has_prefix(data, seq![0x42u8, 0x4Du8]) {
        MediaType::Bmp
    } else if has_prefix(data, seq![0x00u8, 0x00u8, 0x01u8, 0x00u8]) {
        MediaType::Ico
    } else if has_prefix(data, seq![0x49u8, 0x49u8, 0x2Au8, 0x00u8]) || has_prefix(
        data,
        seq![0x4Du8, 0x4Du8, 0x00u8, 0x2Au8],
    ) {
        MediaType::Tiff
    } else if has_prefix(data, seq![0x25u8, 0x50u8, 0x44u8, 0x46u8]) {
        MediaType::Pdf
    } else {
        MediaType::Unknown
    }
}

/// The MIME name of a media type.
pub open spec fn mime_name(t: MediaType) -> Seq<char> {
    match t {
        MediaType::Jpeg => "image/jpeg"@,
        MediaType::Png => "image/png"@,
        MediaType::Gif => "image/gif"@,
        MediaType::WebP => "image/webp"@,
        MediaType::Bmp => "image/bmp"@,
        MediaType::Ico => "image/x-icon"@,
        MediaType::Tiff => "image/tiff"@,
        MediaType::Pdf => "application/pdf"@,
        MediaType::Text => "text/plain"@,
        MediaType::Unknown => "application/octet-stream"@,
    }
}

/// The usual file extension of a media type.
pub open spec fn extension_name(t: MediaType) -> Seq<char> {
    match t {
        MediaType::Jpeg => "jpg"@,
        MediaType::Png => "png"@,
        MediaType::Gif => "gif"@,
        MediaType::WebP => "webp"@,
        MediaType::Bmp => "bmp"@,
        MediaType::Ico => "ico"@,
        MediaType::Tiff => "tiff"@,
        MediaType::Pdf => "pdf"@,
        MediaType::Text => "txt"@,
        MediaType::Unknown => "bin"@,
    }
}

/// The raster image types.
pub open spec fn image_type(t: MediaType) -> bool {
    match t {
        MediaType::Jpeg | MediaType::Png | MediaType::Gif | MediaType::WebP | MediaType::Bmp
        | MediaType::Ico | MediaType::Tiff => true,
        _ => false,
    }
}

/// Whether `data` begins with `prefix`.
pub fn starts_with(data: &[u8], prefix: &[u8]) -> (r: bool)
    ensures
        r == has_prefix(data@, prefix@),
{
    if prefix.len() > data.len() {
        return false;
    }
    let mut i: usize = 0;
    while i < prefix.len()
        invariant
            prefix@.len() <= data@.len(),
            i <= prefix@.len(),
            forall|j: int| 0 <= j < i ==> data@[j] == prefix@[j],
        decreases prefix@.len() - i,
    {
        if data[i] != prefix[i] {
            assert(data@.subrange(0, prefix@.len() as int)[i as int] != prefix@[i as int]);
            return false;
        }
        i = i + 1;
    }
    assert(data@.subrange(0, prefix@.len() as int) =~= prefix@);
    true
}

impl MediaType {
    /// The media type named by the file extension `ext`, compared after
    /// Unicode lowercasing (for an ASCII extension, the mapping of capitals
    /// to small letters).
    pub fn from_extension(ext: &str) -> (r: MediaType)
        ensures
            r == extension_type(unicode_lowercase(ext@)),
            all_ascii(ext@) ==> r == extension_type(ascii_lower(ext@)),
    {
        let lower = str_to_lowercase(ext);
        Self::from_lowercase_extension(lower.as_str())
    }

    /// The media type named by an extension that is already in lowercase.
    pub fn from_lowercase_extension(lower: &str) -> (r: MediaType)
        ensures
            r == extension_type(lower@),
    {
        if str_eq(lower, "jpg") || str_eq(lower, "jpeg") {
            MediaType::Jpeg
        } else if str_eq(lower, "png") {
            MediaType::Png
        } else if str_eq(lower, "gif") {
            MediaType::Gif
        } else if str_eq(lower, "webp") {
            MediaType::WebP
        } else if str_eq(lower, "bmp") {
            MediaType::Bmp
        } else if str_eq(lower, "ico") {
            MediaType::Ico
        } else if str_eq(lower, "tiff") || str_eq(lower, "tif") {
            MediaType::Tiff
        } else if str_eq(lower, "pdf") {
            MediaType::Pdf
        } else if str_eq(lower, "txt") {
            MediaType::Text
        } else {
            MediaType::Unknown
        }
    }

    /// The media type announced by the magic bytes at the start of `data`.
    pub fn from_bytes(data: &[u8]) -> (r: MediaType)
        ensures
            r == magic_type(data@),
    {
        if data.len() < 8 {
            return MediaType::Unknown;
        }
        let jpeg: [u8; 3] = [0xFF, 0xD8, 0xFF];
        let png: [u8; 8] = [0x89, 0x50, 0x4E, 0x47, 0x0D, 0x0A, 0x1A, 0x0A];
        let gif: [u8; 4] = [0x47, 0x49, 0x46, 0x38];
        let riff: [u8; 4] = [0x52, 0x49, 0x46, 0x46];
        let bmp: [u8; 2] = [0x42, 0x4D];
        let ico: [u8; 4] = [0x00, 0x00, 0x01, 0x00];
        let tiff_le: [u8; 4] = [0x49, 0x49, 0x2A, 0x00];
        let tiff_be: [u8; 4] = [0x4D, 0x4D, 0x00, 0x2A];
        let pdf: [u8; 4] = [0x25, 0x50, 0x44, 0x46];
        assert(jpeg@ =~= seq![0xFFu8, 0xD8u8, 0xFFu8]);
        assert(png@ =~= seq![0x89u8, 0x50u8, 0x4Eu8, 0x47u8, 0x0Du8, 0x0Au8, 0x1Au8, 0x0Au8]);
        assert(gif@ =~= seq![0x47u8, 0x49u8, 0x46u8, 0x38u8]);
        assert(riff@ =~= seq![0x52u8, 0x49u8, 0x46u8, 0x46u8]);
        assert(bmp@ =~= seq![0x42u8, 0x4Du8]);
        assert(ico@ =~= seq![0x00u8, 0x00u8, 0x01u8, 0x00u8]);
        assert(tiff_le@ =~= seq![0x49u8, 0x49u8, 0x2Au8, 0x00u8]);
        assert(tiff_be@ =~= seq![0x4Du8, 0x4Du8, 0x00u8, 0x2Au8]);
        assert(pdf@ =~= seq![0x25u8, 0x50u8, 0x44u8, 0x46u8]);
        if starts_with(data, &jpeg) {
            return MediaType::Jpeg;
        }
        if starts_with(data, &png) {
            return MediaType::Png;
        }
        if starts_with(data, &gif) {
            return MediaType::Gif;
        }
        if data.len() >= 12 && starts_with(data, &riff) {
            let webp = data[8] == 0x57 && data[9] == 0x45 && data[10] == 0x42 && data[11] == 0x50;
            assert(webp == (data@.subrange(8, 12) =~= seq![0x57u8, 0x45u8, 0x42u8, 0x50u8]));
            if webp {
                return MediaType::WebP;
            }
        }
        if starts_with(data, &bmp) {
            return MediaType::Bmp;
        }
        if starts_with(data, &ico) {
            return MediaType::Ico;
        }
        if starts_with(data, &tiff_le) || starts_with(data, &tiff_be) {
            return MediaType::Tiff;
        }
        if starts_with(data, &pdf) {
            return MediaType::Pdf;
        }
        MediaType::Unknown
    }

    /// The MIME name.
    pub fn mime_type(&self) -> (r: &'static str)
        ensures
            r@ == mime_name(*self),
    {
        match self {
            MediaType::Jpeg => "image/jpeg",
            MediaType::Png => "image/png",
            MediaType::Gif => "image/gif",
            MediaType::WebP => "image/webp",
            MediaType::Bmp => "image/bmp",
            MediaType::Ico => "image/x-icon",
            MediaType::Tiff => "image/tiff",
            MediaType::Pdf => "application/pdf",
            MediaType::Text => "text/plain",
            MediaType::Unknown => "application/octet-stream",
        }
    }

    /// The usual file extension.
    pub fn extension(&self) -> (r: &'static str)
        ensures
            r@ == extension_name(*self),
    {
        match self {
            MediaType::Jpeg => "jpg",
            MediaType::Png => "png",
            MediaType::Gif => "gif",
            MediaType::WebP => "webp",
            MediaType::Bmp => "bmp",
            MediaType::Ico => "ico",
            MediaType::Tiff => "tiff",
            MediaType::Pdf => "pdf",
            MediaType::Text => "txt",
            MediaType::Unknown => "bin",
        }
    }

    /// Whether this is a raster image type.
    pub fn is_image(&self) -> (r: bool)
        ensures
            r == image_type(*self),
    {
        match self {
            MediaType::Jpeg | MediaType::Png | MediaType::Gif | MediaType::WebP | MediaType::Bmp
            | MediaType::Ico | MediaType::Tiff => true,
            _ => false,
        }
    }
}

/// A string of small ASCII letters is ASCII and its own lowercase.
proof fn lemma_small_letters(s: Seq<char>)
    requires
        forall|i: int| 0 <= i < s.len() ==> 'a' <= #[trigger] s[i] <= 'z',
    ensures
        all_ascii(s),
        ascii_lower(s) == s,
{
    assert forall|i: int| 0 <= i < s.len() implies (s[i] as u32) < 128 by {
        assert(('z' as u32) == 122);
    }
    assert(ascii_lower(s) =~= s);
}

/// Every media type's extension is in small ASCII letters, so that it is
/// found again whatever the lowercasing: `from_extension` of it gives the
/// type back.
pub proof fn lemma_extension_name_lowercase(t: MediaType)
    ensures
        all_ascii(extension_name(t)),
        ascii_lower(extension_name(t)) == extension_name(t),
        extension_type(ascii_lower(extension_name(t))) == t,
{
    reveal_strlit("jpg");
    reveal_strlit("png");
    reveal_strlit("gif");
    reveal_strlit("webp");
    reveal_strlit("bmp");
    reveal_strlit("ico");
    reveal_strlit("tiff");
    reveal_strlit("pdf");
    reveal_strlit("txt");
    reveal_strlit("bin");
    lemma_small_letters(extension_name(t));
    lemma_extension_roundtrip(t);
}

/// Extensions are told apart without regard to case: an ASCII extension
/// written in capitals names the same media type as written in small
/// letters.
pub proof fn lemma_extension_case_insensitive(ext: Seq<char>)
    requires
        all_ascii(ext),
    ensures
        all_ascii(crate::text::ascii_upper(ext)),
        extension_type(ascii_lower(crate::text::ascii_upper(ext))) == extension_type(ascii_lower(ext)),
{
    lemma_ascii_case_fold(ext);
}

/// Every media type is found again from its own extension (the unknown
/// type's extension, "bin", names no known type).
pub proof fn lemma_extension_roundtrip(t: MediaType)
    ensures
        extension_type(extension_name(t)) == t,
{
    reveal_strlit("jpg");
    reveal_strlit("jpeg");
    reveal_strlit("png");
    reveal_strlit("gif");
    reveal_strlit("webp");
    reveal_strlit("bmp");
    reveal_strlit("ico");
    reveal_strlit("tiff");
    reveal_strlit("tif");
    reveal_strlit("pdf");
    reveal_strlit("txt");
    reveal_strlit("bin");
    match t {
        MediaType::Jpeg => {},
        MediaType::Png => {
            assert("png"@[0] != "jpg"@[0]);
            assert("png"@.len() != "jpeg"@.len());
        },
        MediaType::Gif => {
            assert("gif"@[0] != "jpg"@[0]);
            assert("gif"@.len() != "jpeg"@.len());
            assert("gif"@[0] != "png"@[0]);
        },
        MediaType::WebP => {
            assert("webp"@.len() != "jpg"@.len());
            assert("webp"@[0] != "jpeg"@[0]);
            assert("webp"@.len() != "png"@.len());
            assert("webp"@.len() != "gif"@.len());
        },
        MediaType::Bmp => {
            assert("bmp"@[0] != "jpg"@[0]);
            assert("bmp"@.len() != "jpeg"@.len());
            assert("bmp"@[0] != "png"@[0]);
            assert("bmp"@[0] != "gif"@[0]);
            assert("bmp"@.len() != "webp"@.len());
        },
        MediaType::Ico => {
            assert("ico"@[0] != "jpg"@[0]);
            assert("ico"@.len() != "jpeg"@.len());
            assert("ico"@[0] != "png"@[0]);
            assert("ico"@[0] != "gif"@[0]);
            assert("ico"@.len() != "webp"@.len());
            assert("ico"@[0] != "bmp"@[0]);
        },
        MediaType::Tiff => {
            assert("tiff"@.len() != "jpg"@.len());
            assert("tiff"@[0] != "jpeg"@[0]);
            assert("tiff"@.len() != "png"@.len());
            assert("tiff"@.len() != "gif"@.len());
            assert("tiff"@[0] != "webp"@[0]);
            assert("tiff"@.len() != "bmp"@.len());
            assert("tiff"@.len() != "ico"@.len());
        },
        MediaType::Pdf => {
            assert("pdf"@[0] != "jpg"@[0]);
            assert("pdf"@.len() != "jpeg"@.len());
            assert("pdf"@[1] != "png"@[1]);
            assert("pdf"@[0] != "gif"@[0]);
            assert("pdf"@.len() != "webp"@.len());
            assert("pdf"@[0] != "bmp"@[0]);
            assert("pdf"@[0] != "ico"@[0]);
            assert("pdf"@.len() != "tiff"@.len());
            assert("pdf"@[0] != "tif"@[0]);
        },
        MediaType::Text => {
            assert("txt"@[0] != "jpg"@[0]);
            assert("txt"@.len() != "jpeg"@.len());
            assert("txt"@[0] != "png"@[0]);
            assert("txt"@[0] != "gif"@[0]);
            assert("txt"@.len() != "webp"@.len());
            assert("txt"@[0] != "bmp"@[0]);
            assert("txt"@[0] != "ico"@[0]);
            assert("txt"@.len() != "tiff"@.len());
            assert("txt"@[1] != "tif"@[1]);
            assert("txt"@[0] != "pdf"@[0]);
        },
        MediaType::Unknown => {
            assert("bin"@[0] != "jpg"@[0]);
            assert("bin"@.len() != "jpeg"@.len());
            assert("bin"@[0] != "png"@[0]);
            assert("bin"@[0] != "gif"@[0]);
            assert("bin"@.len() != "webp"@.len());
            assert("bin"@[1] != "bmp"@[1]);
            assert("bin"@[0] != "ico"@[0]);
            assert("bin"@.len() != "tiff"@.len());
            assert("bin"@[0] != "tif"@[0]);
            assert("bin"@[0] != "pdf"@[0]);
            assert("bin"@[0] != "txt"@[0]);
        },
    }
}

/// How an image is fitted to the target size.
#[derive(Debug, Clone, Copy, PartialEq, Eq, Structural)]
pub enum ResizeMode {
    /// Fit within the bounds, keeping the aspect ratio.
    Fit,
    /// Fill the bounds, cropping what is left over.
    Fill,
    /// Exactly the given size.
    Exact,
    /// The given width, the height following the aspect ratio.
    Width,
    /// The given height, the width following the aspect ratio.
    Height,
}

impl Default for ResizeMode {
    fn default() -> (r: Self)
        ensures
            r == ResizeMode::Fit,
    {
        ResizeMode::Fit
    }
}

/// Image resize options.
#[derive(Debug, Clone, Copy, PartialEq, Eq, Structural)]
pub struct ResizeOptions {
    pub width: Option<u32>,
    pub height: Option<u32>,
    pub mode: ResizeMode,
    /// Output format; the input's when absent.
    pub format: Option<MediaType>,
    /// JPEG quality, at most 100.
    pub quality: Option<u8>,
}

impl Default for ResizeOptions {
    fn default() -> (r: Self)
        ensures
            r == (ResizeOptions { width: None, height: None, mode: ResizeMode::Fit, format: None, quality: None }),
    {
        ResizeOptions { width: None, height: None, mode: ResizeMode::Fit, format: None, quality: None }
    }
}

impl ResizeOptions {
    /// Fit within `width` x `height`.
    pub fn fit(width: u32, height: u32) -> (r: Self)
        ensures
            r == (ResizeOptions { width: Some(width), height: Some(height), mode: ResizeMode::Fit, format: None, quality: None }),
    {
        ResizeOptions { width: Some(width), height: Some(height), mode: ResizeMode::Fit, format: None, quality: None }
    }

    /// Fill `width` x `height`.
    pub fn fill(width: u32, height: u32) -> (r: Self)
        ensures
            r == (ResizeOptions { width: Some(width), height: Some(height), mode: ResizeMode::Fill, format: None, quality: None }),
    {
        ResizeOptions { width: Some(width), height: Some(height), mode: ResizeMode::Fill, format: None, quality: None }
    }

    /// Exactly `width` x `height`.
    pub fn exact(width: u32, height: u32) -> (r: Self)
        ensures
            r == (ResizeOptions { width: Some(width), height: Some(height), mode: ResizeMode::Exact, format: None, quality: None }),
    {
        ResizeOptions { width: Some(width), height: Some(height), mode: ResizeMode::Exact, format: None, quality: None }
    }

    /// The given width, keeping the aspect ratio.
    pub fn to_width(width: u32) -> (r: Self)
        ensures
            r == (ResizeOptions { width: Some(width), height: None, mode: ResizeMode::Width, format: None, quality: None }),
    {
        ResizeOptions { width: Some(width), height: None, mode: ResizeMode::Width, format: None, quality: None }
    }

    /// The given height, keeping the aspect ratio.
    pub fn to_height(height: u32) -> (r: Self)
        ensures
            r == (ResizeOptions { width: None, height: Some(height), mode: ResizeMode::Height, format: None, quality: None }),
    {
        ResizeOptions { width: None, height: Some(height), mode: ResizeMode::Height, format: None, quality: None }
    }

    /// The same options with output format `format`.
    pub fn with_format(self, format: MediaType) -> (r: Self)
        ensures
            r == (ResizeOptions { format: Some(format), ..self }),
    {
        ResizeOptions { format: Some(format), ..self }
    }

    /// The same options with JPEG quality `quality`, capped at 100.
    pub fn with_quality(self, quality: u8) -> (r: Self)
        ensures
            r == (ResizeOptions { quality: Some(if quality < 100 { quality } else { 100u8 }), ..self }),
    {
        let q = if quality < 100 { quality } else { 100 };
        ResizeOptions { quality: Some(q), ..self }
    }
}

/// Image metadata.
#[derive(Debug, Clone, Copy, PartialEq, Eq, Structural)]
pub struct ImageInfo {
    pub width: u32,
    pub height: u32,
    pub media_type: MediaType,
    /// Size of the encoded data in bytes.
    pub size: usize,
}

/// Thumbnail options.
#[derive(Debug, Clone, Copy, PartialEq, Eq, Structural)]
pub struct ThumbnailOptions {
    pub max_width: u32,
    pub max_height: u32,
    pub format: MediaType,
    /// JPEG quality.
    pub quality: u8,
}

impl Default for ThumbnailOptions {
    fn default() -> (r: Self)
        ensures
            r == (ThumbnailOptions { max_width: 256, max_height: 256, format: MediaType::Jpeg, quality: 80 }),
    {
        ThumbnailOptions { max_width: 256, max_height: 256, format: MediaType::Jpeg, quality: 80 }
    }
}

/// Errors of the media processor.
#[derive(Debug, Clone, PartialEq, Eq)]
pub enum MediaError {
    /// The input could not be read; the text says why.
    InvalidInput(String),
}

/// The bytes that the `STANDARD` engine reads from a text, or `None` where it
/// refuses the text.
pub uninterp spec fn base64_decoding(text: Seq<char>) -> Option<Seq<u8>>;

/// `base64::engine::general_purpose::STANDARD.encode`: the standard base64
/// text of `data`. Four characters stand for every three bytes begun, and the
/// engine reads the text back to `data`.
#[verifier::external_body]
fn base64_encode(data: &[u8]) -> (r: String)
    requires
        data@.len() <= isize::MAX,
    ensures
        r@ == crate::message::base64_text(data@),
        r@.len() == 4 * ((data@.len() + 2) / 3),
        base64_decoding(r@) == Some(data@),
{
    base64::engine::general_purpose::STANDARD.encode(data)
}

/// `base64::engine::general_purpose::STANDARD.decode`: the bytes of a
/// standard base64 text, or the reason it is refused.
#[verifier::external_body]
fn base64_decode(text: &str) -> (r: Result<Vec<u8>, DecodeError>)
    ensures
        match r {
            Ok(bytes) => base64_decoding(text@) == Some(bytes@),
            Err(_) => base64_decoding(text@) is None,
        },
{
    base64::engine::general_purpose::STANDARD.decode(text)
}

/// `<DecodeError as Display>::fmt`: the crate's description of a refusal.
/// Nothing is stated of the text.
#[verifier::external_body]
fn decode_error_text(e: &DecodeError) -> String {
    format!("{}", e)
}

/// The data URL of an encoded payload: `data:<mime>;base64,<text>`.
pub open spec fn data_url(mime: Seq<char>, encoded: Seq<char>) -> Seq<char> {
    "data:"@ + mime + ";base64,"@ + encoded
}

/// `data:<mime>;base64,<encoded>`.
pub fn format_data_url(mime: &str, encoded: &str) -> (r: String)
    ensures
        r@ == data_url(mime@, encoded@),
{
    let mut out = String::new();
    string_push_str(&mut out, "data:");
    string_push_str(&mut out, mime);
    string_push_str(&mut out, ";base64,");
    string_push_str(&mut out, encoded);
    assert(out@ =~= data_url(mime@, encoded@));
    out
}

/// High-level media processor: detection, base64 text and data URLs.
#[derive(Debug, Clone, Copy, PartialEq, Eq, Structural)]
pub struct MediaProcessor {
    /// Default JPEG quality, at most 100.
    pub jpeg_quality: u8,
    /// Default thumbnail options.
    pub thumbnail_options: ThumbnailOptions,
}

impl MediaProcessor {
    /// A processor with JPEG quality 85 and the default thumbnail options.
    pub fn new() -> (r: Self)
        ensures
            r.jpeg_quality == 85,
            r.thumbnail_options == (ThumbnailOptions { max_width: 256, max_height: 256, format: MediaType::Jpeg, quality: 80 }),
    {
        MediaProcessor { jpeg_quality: 85, thumbnail_options: ThumbnailOptions::default() }
    }

    /// The same processor with JPEG quality `quality`, capped at 100.
    pub fn with_jpeg_quality(self, quality: u8) -> (r: Self)
        ensures
            r.jpeg_quality == (if quality < 100 { quality } else { 100u8 }),
            r.thumbnail_options == self.thumbnail_options,
    {
        let q = if quality < 100 { quality } else { 100 };
        MediaProcessor { jpeg_quality: q, ..self }
    }

    /// The same processor with thumbnail options `options`.
    pub fn with_thumbnail_options(self, options: ThumbnailOptions) -> (r: Self)
        ensures
            r.jpeg_quality == self.jpeg_quality,
            r.thumbnail_options == options,
    {
        MediaProcessor { thumbnail_options: options, ..self }
    }

    /// The media type announced by the magic bytes of `data`.
    pub fn detect_type(&self, data: &[u8]) -> (r: MediaType)
        ensures
            r == magic_type(data@),
    {
        MediaType::from_bytes(data)
    }

    /// The standard base64 text of `data`.
    pub fn to_base64(&self, data: &[u8]) -> (r: String)
        requires
            data@.len() <= isize::MAX,
        ensures
            r@ == crate::message::base64_text(data@),
            r@.len() == 4 * ((data@.len() + 2) / 3),
            base64_decoding(r@) == Some(data@),
    {
        base64_encode(data)
    }

    /// The bytes of a standard base64 text; an `InvalidInput` error where the
    /// text is refused.
    pub fn from_base64(&self, encoded: &str) -> (r: Result<Vec<u8>, MediaError>)
        ensures
            match r {
                Ok(bytes) => base64_decoding(encoded@) == Some(bytes@),
                Err(_) => base64_decoding(encoded@) is None,
            },
    {
        match base64_decode(encoded) {
            Ok(bytes) => Ok(bytes),
            Err(e) => {
                let mut message = String::new();
                string_push_str(&mut message, "Invalid base64: ");
                let reason = decode_error_text(&e);
                string_push_str(&mut message, reason.as_str());
                Err(MediaError::InvalidInput(message))
            },
        }
    }

    /// The data URL of `data`, naming the type its magic bytes announce.
    pub fn to_data_url(&self, data: &[u8]) -> (r: String)
        requires
            data@.len() <= isize::MAX,
        ensures
            r@ == data_url(mime_name(magic_type(data@)), crate::message::base64_text(data@)),
    {
        let media_type = self.detect_type(data);
        let encoded = self.to_base64(data);
        format_data_url(media_type.mime_type(), encoded.as_str())
    }
}

impl Default for MediaProcessor {
    fn default() -> (r: Self)
        ensures
            r.jpeg_quality == 85,
            r.thumbnail_options == (ThumbnailOptions { max_width: 256, max_height: 256, format: MediaType::Jpeg, quality: 80 }),
    {
        Self::new()
    }
}

/// Reading back the base64 text that `to_base64` wrote for some bytes gives
/// those bytes: whatever `from_base64` answers on that text is `Ok` of them.
pub proof fn lemma_base64_roundtrip(data: Seq<u8>, text: Seq<char>, answer: Result<Vec<u8>, MediaError>)
    requires
        base64_decoding(text) == Some(data),
        match answer {
            Ok(bytes) => base64_decoding(text) == Some(bytes@),
            Err(_) => base64_decoding(text) is None,
        },
    ensures
        answer matches Ok(bytes) && bytes@ == data,
{
}

} // verus!
