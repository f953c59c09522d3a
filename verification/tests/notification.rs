use drbot::notification::{
    ChannelType, DeliveryResult, DeliveryStatus, InAppChannel, Notification, NotificationChannel,
    NotificationError, NotificationService, Priority, Recipient, Template,
};

#[test]
fn test_notification_creation() {
    let notification = Notification::new("alert", "Test Alert", "This is a test")
        .to("user-123")
        .with_priority(Priority::High)
        .via(ChannelType::Email);

    assert_eq!(notification.subject, "Test Alert");
    assert_eq!(notification.recipients.len(), 1);
    assert_eq!(notification.priority, Priority::High);
}

#[test]
fn test_template_rendering() {
    let template = Template::new("welcome", "Welcome Email")
        .with_subject("Welcome, {{name}}!")
        .with_body("Hello {{name}}, welcome to {{app}}.");

    let notification = Notification::new("t", "", "")
        .with_variable("name", serde_json::Value::from("Alice"))
        .with_variable("app", serde_json::Value::from("MyApp"));

    let (subject, body) = template.render(&notification.variables);

    assert_eq!(subject, "Welcome, Alice!");
    assert_eq!(body, "Hello Alice, welcome to MyApp.");
}

#[test]
fn template_variables_as_json_text() {
    let template = Template::new("t", "T").with_body("{{n}} items, {{missing}} left");
    let notification = Notification::new("t", "", "").with_variable("n", serde_json::Value::from(3));
    let (_, body) = template.render(&notification.variables);
    assert_eq!(body, "3 items, {{missing}} left");
}

#[test]
fn test_recipient_creation() {
    let recipient = Recipient::new("user-123")
        .with_email("user@example.com")
        .prefers(ChannelType::Email);

    assert_eq!(recipient.id, "user-123");
    assert!(recipient.email.is_some());
}

#[test]
fn test_in_app_channel() {
    let mut channel = InAppChannel::new();

    let notification = Notification::new("test", "Test", "Body");
    let recipient = Recipient::new("user-123");

    let result = channel.send(&notification, &recipient).unwrap();
    assert_eq!(result.status, DeliveryStatus::Delivered);
    assert_eq!(result.notification_id, notification.id);

    let unread = channel.get_unread("user-123");
    assert_eq!(unread.len(), 1);
    assert!(channel.get_unread("someone-else").is_empty());

    channel.mark_read("user-123", notification.id);
    let unread = channel.get_unread("user-123");
    assert!(unread.is_empty());
}

#[test]
fn test_notification_service() {
    let mut service = NotificationService::new();

    service.register_channel("inapp", InAppChannel::new());

    let recipient = Recipient::new("user-123").prefers(ChannelType::InApp);
    service.register_recipient(recipient);

    let notification = Notification::new("test", "Test", "Body")
        .to("user-123")
        .via(ChannelType::InApp);

    let results = service.send(notification).unwrap();
    assert_eq!(results.len(), 1);
    assert_eq!(results[0].status, DeliveryStatus::Delivered);
}

#[test]
fn test_notification_with_template() {
    let mut service = NotificationService::new();

    let template = Template::new("welcome", "Welcome")
        .with_subject("Welcome, {{name}}!")
        .with_body("Hello {{name}}!");
    service.register_template(template);

    service.register_channel("inapp", InAppChannel::new());
    service.register_recipient(Recipient::new("user-123").prefers(ChannelType::InApp));

    let notification = Notification::new("welcome", "", "")
        .from_template("welcome")
        .with_variable("name", serde_json::Value::from("Alice"))
        .to("user-123")
        .via(ChannelType::InApp);

    let results = service.send(notification).unwrap();
    assert_eq!(results.len(), 1);
}

#[test]
fn test_delivery_history() {
    let mut service = NotificationService::new();

    service.register_channel("inapp", InAppChannel::new());
    service.register_recipient(Recipient::new("user-123").prefers(ChannelType::InApp));

    let notification = Notification::new("test", "Test", "Body")
        .to("user-123")
        .via(ChannelType::InApp);

    let id = notification.id;
    service.send(notification).unwrap();

    let history = service.get_history(Some(id));
    assert_eq!(history.len(), 1);
    assert_eq!(service.get_history(Some(uuid::Uuid::new_v4())).len(), 0);
    assert_eq!(service.get_history(None).len(), 1);
}

#[test]
fn service_errors() {
    let mut service = NotificationService::new();
    let missing_template = Notification::new("x", "", "").from_template("nope").to("u");
    match service.send(missing_template) {
        Err(e) => assert_eq!(e.message(), "Template not found: nope"),
        Ok(_) => panic!("expected an error"),
    }
    let unknown = Notification::new("x", "s", "b").to("ghost");
    assert!(matches!(service.send(unknown), Err(NotificationError::InvalidRecipient(r)) if r == "ghost"));
    assert!(service.get_history(None).is_empty());
}

#[test]
fn service_uses_preferred_channels_and_skips_unregistered() {
    let mut service = NotificationService::new();
    service.register_channel("inapp", InAppChannel::new());
    service.register_recipient(
        Recipient::new("a").prefers(ChannelType::Email).prefers(ChannelType::InApp),
    );
    service.register_recipient(Recipient::new("b").prefers(ChannelType::InApp));
    let results = service.send(Notification::new("t", "s", "b").to("a").to("b")).unwrap();
    let who: Vec<&str> = results.iter().map(|r: &DeliveryResult| r.recipient_id.as_str()).collect();
    assert_eq!(who, vec!["a", "b"]);
    assert!(results.iter().all(|r| r.channel == ChannelType::InApp));
    assert_eq!(ChannelType::Custom("pager".to_string()).name(), "pager");
    assert_eq!(ChannelType::Email.name(), "email");
}
