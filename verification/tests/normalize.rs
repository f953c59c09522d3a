use drbot::normalize::{
    add_thousands_separator, Case, CaseNormalizer, EmailNormalizer, NormalizeError, Normalizer,
    NormalizerChain, NumberNormalizer, PhoneNormalizer, UrlNormalizer, WhitespaceNormalizer,
};

#[test]
fn test_case_lower() {
    let normalizer = CaseNormalizer::lower();
    assert_eq!(normalizer.normalize("HELLO World".to_string()).unwrap(), "hello world");
}

#[test]
fn test_case_upper() {
    let normalizer = CaseNormalizer::upper();
    assert_eq!(normalizer.normalize("hello world".to_string()).unwrap(), "HELLO WORLD");
}

#[test]
fn test_case_title() {
    let normalizer = CaseNormalizer::title();
    assert_eq!(normalizer.normalize("hello world".to_string()).unwrap(), "Hello World");
}

#[test]
fn test_case_snake() {
    let normalizer = CaseNormalizer::snake();
    assert_eq!(normalizer.normalize("helloWorld".to_string()).unwrap(), "hello_world");
    assert_eq!(normalizer.normalize("Hello World".to_string()).unwrap(), "hello_world");
}

#[test]
fn test_case_kebab() {
    let normalizer = CaseNormalizer::kebab();
    assert_eq!(normalizer.normalize("HelloWorld".to_string()).unwrap(), "hello-world");
}

#[test]
fn test_case_camel() {
    let normalizer = CaseNormalizer::camel();
    assert_eq!(normalizer.normalize("hello_world".to_string()).unwrap(), "helloWorld");
}

#[test]
fn test_whitespace() {
    let normalizer = WhitespaceNormalizer::new();
    assert_eq!(normalizer.normalize("  hello    world  ".to_string()).unwrap(), "hello world");
}

#[test]
fn test_phone() {
    let normalizer = PhoneNormalizer::new("US");
    assert_eq!(normalizer.normalize("(555) 123-4567".to_string()).unwrap(), "+15551234567");
}

#[test]
fn test_email() {
    let normalizer = EmailNormalizer::new();
    assert_eq!(normalizer.normalize("User@Example.COM".to_string()).unwrap(), "user@example.com");
}

#[test]
fn test_email_plus_addressing() {
    let normalizer = EmailNormalizer::new().remove_plus_addressing();
    assert_eq!(
        normalizer.normalize("user+tag@example.com".to_string()).unwrap(),
        "user@example.com"
    );
}

#[test]
fn test_url() {
    let normalizer = UrlNormalizer::new();
    assert_eq!(
        normalizer.normalize("HTTP://Example.COM:80/path/".to_string()).unwrap(),
        "http://example.com/path"
    );
}

#[test]
fn test_chain() {
    let chain = NormalizerChain::new()
        .add(WhitespaceNormalizer::new())
        .add(CaseNormalizer::lower());
    assert_eq!(chain.normalize("  HELLO   WORLD  ".to_string()).unwrap(), "hello world");
}

#[test]
fn test_number_thousands() {
    assert_eq!(add_thousands_separator("1234567.89", ','), "1,234,567.89");
    assert_eq!(add_thousands_separator("-1234567", ','), "-1,234,567");
    assert_eq!(add_thousands_separator("123", ','), "123");
    assert_eq!(add_thousands_separator("1234.5.6", '_'), "1_234.5");
}

#[test]
fn normalize_case_other_styles() {
    assert_eq!(CaseNormalizer::pascal().apply("hello big_world"), "HelloBigWorld");
    assert_eq!(CaseNormalizer(Case::Sentence).apply("hELLO wORLD"), "Hello world");
    assert_eq!(CaseNormalizer::snake().apply("  --  "), "");
    assert_eq!(CaseNormalizer::camel().apply("XMLHttpRequest"), "xmlhttpRequest");
    assert_eq!(CaseNormalizer::title().apply("  a  b "), "A B");
}

#[test]
fn normalize_whitespace_modes() {
    assert_eq!(WhitespaceNormalizer::collapse_only().apply("  a \t\n b  "), " a b ");
    assert_eq!(WhitespaceNormalizer::trim_only().apply("  a   b  "), "a   b");
    assert_eq!(WhitespaceNormalizer::default().apply("\u{3000}x\u{a0}\u{a0}y"), "x y");
}

#[test]
fn normalize_phone_and_email_errors() {
    let p = PhoneNormalizer::new("US");
    assert_eq!(PhoneNormalizer::digits_only("a1b2c3"), "123");
    match p.normalize("12-34".to_string()) {
        Err(NormalizeError::InvalidInput(m)) => assert_eq!(m, "Phone number too short"),
        other => panic!("unexpected {:?}", other),
    }
    assert_eq!(p.normalize("1 555 123 4567".to_string()).unwrap(), "+15551234567");
    assert_eq!(p.normalize("44 20 7946 0958".to_string()).unwrap(), "+442079460958");
    let e = EmailNormalizer::default();
    assert!(matches!(e.normalize("a@b@c".to_string()), Err(NormalizeError::InvalidInput(_))));
    assert!(matches!(e.normalize("nobody".to_string()), Err(NormalizeError::InvalidInput(_))));
    assert_eq!(e.normalize("  A+B@C.d ".to_string()).unwrap(), "a+b@c.d");
    assert_eq!(
        NormalizeError::InvalidInput("x".to_string()).message(),
        "Invalid input: x"
    );
}

#[test]
fn normalize_url_more() {
    let u = UrlNormalizer::default();
    assert_eq!(u.apply("https://Example.com:443"), "https://example.com");
    assert_eq!(u.apply("HTTPS://A.B/Path:80/x"), "https://a.b/Path/x");
    assert_eq!(u.apply("file://"), "file://");
    assert_eq!(u.apply("  example.COM/  "), "example.COM");
}

#[test]
fn normalize_number_builders_and_empty_chain() {
    let n = NumberNormalizer::new().decimal_places(2).thousands_separator(',');
    assert_eq!(n.decimal_places, Some(2));
    assert_eq!(n.thousands_separator, Some(','));
    assert_eq!(NumberNormalizer::default().decimal_places, None);
    let chain: NormalizerChain<String> = NormalizerChain::default();
    assert_eq!(chain.normalize("Same".to_string()).unwrap(), "Same");
}
