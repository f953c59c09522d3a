use drbot::media::{
    format_data_url, starts_with, MediaError, MediaProcessor, MediaType, ResizeMode, ResizeOptions,
    ThumbnailOptions,
};

fn png_header() -> Vec<u8> {
    vec![0x89, 0x50, 0x4E, 0x47, 0x0D, 0x0A, 0x1A, 0x0A, 0x00, 0x00, 0x00, 0x0D]
}

#[test]
fn test_media_type_from_extension() {
    assert_eq!(MediaType::from_extension("jpg"), MediaType::Jpeg);
    assert_eq!(MediaType::from_extension("JPEG"), MediaType::Jpeg);
    assert_eq!(MediaType::from_extension("png"), MediaType::Png);
    assert_eq!(MediaType::from_extension("pdf"), MediaType::Pdf);
    assert_eq!(MediaType::from_extension("xyz"), MediaType::Unknown);
}

#[test]
fn test_media_type_from_bytes() {
    assert_eq!(
        MediaType::from_bytes(&[0xFF, 0xD8, 0xFF, 0xE0, 0x00, 0x00, 0x00, 0x00]),
        MediaType::Jpeg
    );
    assert_eq!(
        MediaType::from_bytes(&[0x89, 0x50, 0x4E, 0x47, 0x0D, 0x0A, 0x1A, 0x0A]),
        MediaType::Png
    );
    assert_eq!(
        MediaType::from_bytes(&[0x47, 0x49, 0x46, 0x38, 0x39, 0x61, 0x00, 0x00]),
        MediaType::Gif
    );
    assert_eq!(MediaType::from_bytes(b"%PDF-1.4 test file"), MediaType::Pdf);
}

#[test]
fn test_media_type_mime() {
    assert_eq!(MediaType::Jpeg.mime_type(), "image/jpeg");
    assert_eq!(MediaType::Png.mime_type(), "image/png");
    assert_eq!(MediaType::Pdf.mime_type(), "application/pdf");
}

#[test]
fn test_media_type_is_image() {
    assert!(MediaType::Jpeg.is_image());
    assert!(MediaType::Png.is_image());
    assert!(!MediaType::Pdf.is_image());
    assert!(!MediaType::Text.is_image());
}

#[test]
fn test_resize_options() {
    let opts = ResizeOptions::fit(800, 600).with_quality(90);
    assert_eq!(opts.width, Some(800));
    assert_eq!(opts.height, Some(600));
    assert_eq!(opts.quality, Some(90));
}

#[test]
fn test_thumbnail_options_default() {
    let opts = ThumbnailOptions::default();
    assert_eq!(opts.max_width, 256);
    assert_eq!(opts.max_height, 256);
    assert_eq!(opts.quality, 80);
}

#[test]
fn test_media_processor_new() {
    let processor = MediaProcessor::new();
    assert_eq!(processor.jpeg_quality, 85);
}

#[test]
fn test_detect_type() {
    let processor = MediaProcessor::new();
    assert_eq!(processor.detect_type(&png_header()), MediaType::Png);
}

#[test]
fn test_base64_roundtrip() {
    let processor = MediaProcessor::new();
    let data = png_header();
    let encoded = processor.to_base64(&data);
    let decoded = processor.from_base64(&encoded).unwrap();
    assert_eq!(data, decoded);
}

#[test]
fn test_data_url() {
    let processor = MediaProcessor::new();
    let url = processor.to_data_url(&png_header());
    assert!(url.starts_with("data:image/png;base64,"));
}

#[test]
fn media_type_from_bytes_other_magic() {
    assert_eq!(MediaType::from_bytes(&[0xFF, 0xD8, 0xFF]), MediaType::Unknown);
    let webp = b"RIFF\x00\x00\x00\x00WEBPVP8 ";
    assert_eq!(MediaType::from_bytes(webp), MediaType::WebP);
    let riff_other = b"RIFF\x00\x00\x00\x00WAVEfmt ";
    assert_eq!(MediaType::from_bytes(riff_other), MediaType::Unknown);
    assert_eq!(MediaType::from_bytes(&[0x42, 0x4D, 0, 0, 0, 0, 0, 0]), MediaType::Bmp);
    assert_eq!(MediaType::from_bytes(&[0, 0, 1, 0, 0, 0, 0, 0]), MediaType::Ico);
    assert_eq!(MediaType::from_bytes(&[0x49, 0x49, 0x2A, 0, 0, 0, 0, 0]), MediaType::Tiff);
    assert_eq!(MediaType::from_bytes(&[0x4D, 0x4D, 0, 0x2A, 0, 0, 0, 0]), MediaType::Tiff);
    assert_eq!(MediaType::from_bytes(&[1, 2, 3, 4, 5, 6, 7, 8]), MediaType::Unknown);
}

#[test]
fn media_type_extension_roundtrip() {
    for t in [
        MediaType::Jpeg,
        MediaType::Png,
        MediaType::Gif,
        MediaType::WebP,
        MediaType::Bmp,
        MediaType::Ico,
        MediaType::Tiff,
        MediaType::Pdf,
        MediaType::Text,
        MediaType::Unknown,
    ] {
        assert_eq!(MediaType::from_extension(t.extension()), t);
    }
    assert_eq!(MediaType::from_extension("TIF"), MediaType::Tiff);
    assert_eq!(MediaType::Unknown.mime_type(), "application/octet-stream");
    assert_eq!(MediaType::Ico.mime_type(), "image/x-icon");
}

#[test]
fn resize_options_builders() {
    let o = ResizeOptions::to_width(320).with_format(MediaType::Png).with_quality(250);
    assert_eq!(o.width, Some(320));
    assert_eq!(o.height, None);
    assert_eq!(o.mode, ResizeMode::Width);
    assert_eq!(o.format, Some(MediaType::Png));
    assert_eq!(o.quality, Some(100));
    assert_eq!(ResizeOptions::to_height(10).mode, ResizeMode::Height);
    assert_eq!(ResizeOptions::fill(1, 2).mode, ResizeMode::Fill);
    assert_eq!(ResizeOptions::exact(1, 2).mode, ResizeMode::Exact);
    assert_eq!(ResizeOptions::default().mode, ResizeMode::Fit);
}

#[test]
fn media_processor_settings_and_base64_errors() {
    let p = MediaProcessor::new().with_jpeg_quality(200);
    assert_eq!(p.jpeg_quality, 100);
    let mut thumb = ThumbnailOptions::default();
    thumb.max_width = 64;
    let p = p.with_thumbnail_options(thumb);
    assert_eq!(p.thumbnail_options.max_width, 64);
    assert_eq!(p.to_base64(b"hello"), "aGVsbG8=");
    assert_eq!(p.from_base64("aGVsbG8=").unwrap(), b"hello".to_vec());
    match p.from_base64("!!!") {
        Err(MediaError::InvalidInput(msg)) => assert!(msg.starts_with("Invalid base64: ")),
        Ok(_) => panic!("accepted bad base64"),
    }
    assert_eq!(format_data_url("text/plain", "aGk="), "data:text/plain;base64,aGk=");
    assert!(starts_with(b"abc", b"ab"));
    assert!(!starts_with(b"a", b"ab"));
}
