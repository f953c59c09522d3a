use drbot::mime::{Mime, MimeError, MimeType};

#[test]
fn test_parse_simple() {
    let mime = MimeType::parse("text/plain").unwrap();
    assert_eq!(mime.type_, "text");
    assert_eq!(mime.subtype, "plain");
    assert!(mime.params.is_empty());
}

#[test]
fn test_parse_with_params() {
    let mime = MimeType::parse("text/html; charset=utf-8").unwrap();
    assert_eq!(mime.type_, "text");
    assert_eq!(mime.subtype, "html");
    assert_eq!(mime.charset(), Some("utf-8"));
}

#[test]
fn test_parse_with_suffix() {
    let mime = MimeType::parse("application/atom+xml").unwrap();
    assert_eq!(mime.type_, "application");
    assert_eq!(mime.subtype, "atom");
    assert_eq!(mime.suffix, Some("xml".to_string()));
    assert!(mime.is_xml());
}

#[test]
fn test_from_extension() {
    assert_eq!(Mime::from_extension("html"), Some(Mime::TEXT_HTML));
    assert_eq!(Mime::from_extension(".json"), Some(Mime::APPLICATION_JSON));
    assert_eq!(Mime::from_extension("PNG"), Some(Mime::IMAGE_PNG));
}

#[test]
fn test_from_path() {
    assert_eq!(Mime::from_filename("file.html"), Some(Mime::TEXT_HTML));
    assert_eq!(Mime::from_filename("/path/to/data.json"), Some(Mime::APPLICATION_JSON));
}

#[test]
fn test_from_bytes() {
    assert_eq!(
        Mime::from_bytes(&[0x89, 0x50, 0x4E, 0x47, 0x0D, 0x0A, 0x1A, 0x0A]),
        Some(Mime::IMAGE_PNG)
    );
    assert_eq!(Mime::from_bytes(&[0xFF, 0xD8, 0xFF, 0xE0]), Some(Mime::IMAGE_JPEG));
    assert_eq!(Mime::from_bytes(b"%PDF-1.4"), Some(Mime::APPLICATION_PDF));
}

#[test]
fn test_is_methods() {
    let mime = MimeType::parse("text/plain").unwrap();
    assert!(mime.is_text());
    assert!(!mime.is_image());

    let mime = MimeType::parse("image/png").unwrap();
    assert!(mime.is_image());
    assert!(!mime.is_text());

    let mime = MimeType::parse("application/json").unwrap();
    assert!(mime.is_json());
}

#[test]
fn test_to_string() {
    let mime = MimeType::new("text", "html").with_charset("utf-8");
    assert!(mime.to_string().contains("text/html"));
    assert!(mime.to_string().contains("charset=utf-8"));
}

#[test]
fn mime_parse_rejects_missing_slash() {
    match MimeType::parse("  textplain ; a=b ") {
        Err(MimeError::Invalid(s)) => assert_eq!(s, "textplain ; a=b"),
        other => panic!("unexpected {:?}", other),
    }
    assert!(MimeType::parse("").is_err());
    let e = MimeError::Invalid("x".to_string());
    assert_eq!(e.message(), "Invalid MIME type: x");
    assert_eq!(MimeError::UnknownExtension("q".to_string()).message(), "Unknown extension: q");
}

#[test]
fn mime_parse_normalizes_and_orders_params() {
    let m = MimeType::parse(" Text/HTML ; Charset=\"UTF-8\" ; q=1 ; charset=latin1 ; novalue ").unwrap();
    assert_eq!(m.type_, "text");
    assert_eq!(m.subtype, "html");
    assert_eq!(m.suffix, None);
    assert_eq!(
        m.params,
        vec![
            ("charset".to_string(), "latin1".to_string()),
            ("q".to_string(), "1".to_string())
        ]
    );
    assert_eq!(m.essence(), "text/html");
    assert_eq!(m.to_string(), "text/html; charset=latin1; q=1");
}

#[test]
fn mime_suffix_uses_last_plus() {
    let m = MimeType::parse("application/vnd.a+b+json").unwrap();
    assert_eq!(m.subtype, "vnd.a+b");
    assert_eq!(m.suffix, Some("json".to_string()));
    assert!(m.is_json());
    assert!(m.is_application());
    assert_eq!(m.essence(), "application/vnd.a+b+json");
    let m = MimeType::parse("audio/ogg").unwrap();
    assert!(m.is_audio());
    assert!(!m.is_video());
    assert!(MimeType::parse("video/mp4").unwrap().is_video());
    assert_eq!("text/css".parse::<MimeType>().unwrap().subtype, "css");
}

#[test]
fn mime_tables() {
    assert_eq!(Mime::from_extension("..MD"), Some(Mime::TEXT_MARKDOWN));
    assert_eq!(Mime::from_extension("cxx"), Some("text/x-c++"));
    assert_eq!(Mime::from_extension("unknown"), None);
    assert_eq!(Mime::to_extension(Mime::APPLICATION_JAVASCRIPT), Some("js"));
    assert_eq!(Mime::to_extension("image/svg+xml"), Some("svg"));
    assert_eq!(Mime::to_extension("IMAGE/PNG"), None);
    assert_eq!(Mime::from_filename("archive.tar"), Some("application/x-tar"));
    assert_eq!(Mime::from_filename(".bashrc"), None);
    assert_eq!(Mime::from_filename("noext"), None);
}

#[test]
fn mime_from_bytes_more() {
    assert_eq!(Mime::from_bytes(&[0x89, 0x50, 0x4E]), None);
    assert_eq!(Mime::from_bytes(b"GIF89a.."), Some(Mime::IMAGE_GIF));
    assert_eq!(Mime::from_bytes(b"GIF8xa.."), None);
    assert_eq!(Mime::from_bytes(b"RIFF\0\0\0\0WEBPxxxx"), Some(Mime::IMAGE_WEBP));
    assert_eq!(Mime::from_bytes(b"RIFF\0\0\0\0WAVExxxx"), Some(Mime::AUDIO_WAV));
    assert_eq!(Mime::from_bytes(&[0x50, 0x4B, 3, 4]), Some(Mime::APPLICATION_ZIP));
    assert_eq!(Mime::from_bytes(&[0x1F, 0x8B, 0, 0]), Some(Mime::APPLICATION_GZIP));
    assert_eq!(Mime::from_bytes(b"ID3\x04"), Some(Mime::AUDIO_MP3));
    assert_eq!(Mime::from_bytes(b"\0\0\0\x18ftypmp42"), Some(Mime::VIDEO_MP4));
    assert_eq!(Mime::from_bytes(&[0x1A, 0x45, 0xDF, 0xA3]), Some(Mime::VIDEO_WEBM));
    assert_eq!(Mime::from_bytes(&[1, 2, 3, 4]), None);
}
