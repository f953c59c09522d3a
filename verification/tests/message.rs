use drbot::message::{
    base64_decode, base64_encode, BinaryBody, JsonBody, Message, MessageBuilder, MessageError,
    MessageHeader, MessageId, Priority, TextBody,
};

#[test]
fn test_message_id() {
    let id1 = MessageId::new();
    let id2 = MessageId::new();
    assert_ne!(id1, id2);
}

#[test]
fn test_message_creation() {
    let msg = Message::new("test.event", TextBody::plain("Hello"));
    assert_eq!(msg.message_type(), "test.event");
    assert_eq!(msg.body.content, "Hello");
}

#[test]
fn test_message_builder() {
    let msg = MessageBuilder::new("test")
        .body(TextBody::plain("content"))
        .priority(Priority::High)
        .ttl(3600)
        .build()
        .unwrap();

    assert_eq!(msg.header.priority, Priority::High);
    assert_eq!(msg.header.ttl, Some(3600));
}

#[test]
fn test_json_body() {
    let value: serde_json::Value = serde_json::from_str("{\"key\": \"value\"}").unwrap();
    let body = JsonBody::from_value(value);
    assert_eq!(body.get("key").unwrap(), "value");
}

#[test]
fn test_message_expiry() {
    let header = MessageHeader::new("test").with_ttl(0);
    // A time to live of 0 expires as soon as any time has passed.
    assert!(header.is_expired_at(header.timestamp_millis + 10));
}

#[test]
fn builder_without_body_is_missing_field() {
    let r = MessageBuilder::<TextBody>::new("test").build();
    match r {
        Err(MessageError::MissingField(f)) => assert_eq!(f, "body"),
        _ => panic!("expected a missing field"),
    }
}

#[test]
fn header_not_expired_without_ttl_or_before_end() {
    let header = MessageHeader::new("test");
    assert!(!header.is_expired_at(header.timestamp_millis + 1_000_000));
    let header = header.with_ttl(10);
    assert!(!header.is_expired_at(header.timestamp_millis + 10_000));
    assert!(header.is_expired_at(header.timestamp_millis + 10_001));
}

#[test]
fn message_id_from_str_and_format() {
    let id = MessageId::from_str("abc-1");
    assert_eq!(id.as_str(), "abc-1");
    let fresh = MessageId::new();
    let parts: Vec<&str> = fresh.as_str().split('-').collect();
    assert_eq!(parts.len(), 2);
    assert!(parts.iter().all(|p| !p.is_empty()
        && p.chars().all(|c| c.is_ascii_digit() || ('a'..='f').contains(&c))));
}

#[test]
fn header_custom_headers_replace() {
    let header = MessageHeader::new("t")
        .with_header("a", "1")
        .with_header("b", "2")
        .with_header("a", "3");
    assert_eq!(
        header.headers,
        vec![("a".to_string(), "3".to_string()), ("b".to_string(), "2".to_string())]
    );
}

#[test]
fn base64_known_values() {
    assert_eq!(base64_encode(b""), "");
    assert_eq!(base64_encode(b"f"), "Zg==");
    assert_eq!(base64_encode(b"fo"), "Zm8=");
    assert_eq!(base64_encode(b"foobar"), "Zm9vYmFy");
    assert_eq!(base64_decode("Zm9vYmFy").unwrap(), b"foobar".to_vec());
    assert_eq!(base64_decode("Zm8=").unwrap(), b"fo".to_vec());
    assert!(base64_decode("!m9v").is_err());
    // A last group of one character carries no byte and is dropped.
    assert_eq!(base64_decode("Zm9v!").unwrap(), b"foo".to_vec());
}

#[test]
fn binary_body_roundtrip() {
    let data: Vec<u8> = (0u8..=255).collect();
    let body = BinaryBody::new(data.clone(), "application/octet-stream");
    let text = body.encoded_data();
    let back = BinaryBody::from_encoded(&text, "application/octet-stream").unwrap();
    assert_eq!(back.data, data);
    match BinaryBody::from_encoded("@@@@", "x") {
        Err(MessageError::Serialization(m)) => assert_eq!(m, "Invalid base64"),
        _ => panic!("expected a serialization error"),
    }
}

#[test]
fn message_error_messages() {
    assert_eq!(MessageError::MissingField("body".to_string()).message(), "Missing required field: body");
    assert_eq!(MessageError::Invalid("x".to_string()).message(), "Invalid message: x");
}

#[test]
fn message_map_keeps_header() {
    let msg = Message::new("m", 2u32);
    let id = msg.id().clone();
    let doubled = msg.map(|x| x * 2);
    assert_eq!(doubled.body, 4);
    assert_eq!(doubled.id(), &id);
}
