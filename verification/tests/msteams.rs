use drbot::msteams::{
    activity_reply_url, conversation_activities_url, proactive_target, Activity, ActivityType,
    Attachment, AuthConfig, ChannelAccount, ChannelInfo, ConversationAccount,
    ConversationReference, MessageBody, MsTeamsChannel, MsTeamsConfig, MsTeamsError, SendRoute,
    TeamInfo, TeamsChannelData, TeamsEvent, TokenCache, TokenResponse,
};

fn config() -> MsTeamsConfig {
    MsTeamsConfig {
        tenant_id: "test-tenant".to_string(),
        client_id: "test-client".to_string(),
        client_secret: "test-secret".to_string(),
        bot_app_id: "test-bot".to_string(),
        ..Default::default()
    }
}

fn incoming(text: Option<&str>, team: Option<&str>, conversation: &str) -> Activity {
    let mut a = Activity::default();
    a.id = Some("act-1".to_string());
    a.text = text.map(|t| t.to_string());
    a.timestamp_millis = Some(1234);
    a.from = Some(ChannelAccount::new("user-1").with_name("Ada"));
    a.conversation = Some(ConversationAccount {
        id: conversation.to_string(),
        is_group: None,
        conversation_type: None,
        tenant_id: None,
        name: None,
    });
    a.service_url = Some("https://smba.example/".to_string());
    a.channel_data = team.map(|t| TeamsChannelData {
        team: Some(TeamInfo { id: t.to_string(), name: None }),
        channel: Some(ChannelInfo { id: "general".to_string(), name: None }),
        tenant: None,
    });
    a
}

#[test]
fn test_msteams_config_default() {
    let config = MsTeamsConfig::default();
    assert!(config.allowed_teams.is_empty());
    assert!(config.enable_notifications);
    assert!(!config.enable_proactive);
}

#[test]
fn test_channel_config() {
    let config = config();
    assert!(!config.enable_proactive);
    assert!(config.enable_notifications);
}

#[test]
fn test_auth_config() {
    let config = AuthConfig::for_graph("tenant", "client", "secret");
    assert!(config.scopes[0].contains("graph.microsoft.com"));

    let bot_config = AuthConfig::for_bot_framework("client", "secret");
    assert!(bot_config.scopes[0].contains("botframework.com"));
}

#[test]
fn test_message_body() {
    let text = MessageBody::text("Hello");
    assert_eq!(text.content_type, "text");
    assert_eq!(text.content, "Hello");

    let html = MessageBody::html("<b>Hello</b>");
    assert_eq!(html.content_type, "html");
}

#[test]
fn test_activity() {
    let activity = Activity::message("Hello, Teams!");
    assert!(activity.is_message());
    assert_eq!(activity.text, Some("Hello, Teams!".to_string()));
    assert!(!Activity::typing().is_message());
}

#[test]
fn test_attachment() {
    let content: serde_json::Value = serde_json::from_str("{\"type\": \"AdaptiveCard\"}").unwrap();
    let card = Attachment::adaptive_card(content);
    assert!(card.content_type.contains("adaptive"));
    assert!(card.content.is_some());
    let image = Attachment::image("https://x/y.png", Some("y"));
    assert_eq!(image.content_type, "image/png");
    assert_eq!(image.name, Some("y".to_string()));
}

#[test]
fn token_endpoint_and_form() {
    let mut config = AuthConfig::for_graph("t1", "c1", "s1");
    config.scopes.push("offline_access".to_string());
    assert_eq!(config.token_endpoint(), "https://login.microsoftonline.com/t1/oauth2/v2.0/token");
    let form = config.token_request_form();
    assert_eq!(form[0], ("client_id".to_string(), "c1".to_string()));
    assert_eq!(form[1], ("client_secret".to_string(), "s1".to_string()));
    assert_eq!(
        form[2],
        ("scope".to_string(), "https://graph.microsoft.com/.default offline_access".to_string())
    );
    assert_eq!(form[3], ("grant_type".to_string(), "client_credentials".to_string()));
}

#[test]
fn token_cache_gives_up_five_minutes_early() {
    let mut cache = TokenCache::new();
    assert_eq!(cache.valid_token_at(0), None);
    let response = TokenResponse {
        access_token: "tok".to_string(),
        token_type: "Bearer".to_string(),
        expires_in: 3600,
        resource: None,
    };
    cache.store_at(&response, 1_000);
    // Expires at 3_601_000; given up from 3_301_001 on.
    assert_eq!(cache.valid_token_at(3_301_000), Some("tok".to_string()));
    assert_eq!(cache.valid_token_at(3_301_001), None);
    cache.clear();
    assert_eq!(cache.valid_token_at(1_000), None);
}

#[test]
fn activity_urls() {
    assert_eq!(
        conversation_activities_url("https://smba.example//", "c1"),
        "https://smba.example/v3/conversations/c1/activities"
    );
    assert_eq!(
        activity_reply_url("https://smba.example", "c1", "a9"),
        "https://smba.example/v3/conversations/c1/activities/a9"
    );
    let activity = incoming(Some("hi"), None, "conv-1");
    let reference = ConversationReference::from_activity(&activity, "bot");
    assert_eq!(proactive_target(&reference).unwrap(), ("https://smba.example/", "conv-1"));
    let mut broken = reference.duplicate();
    broken.service_url = None;
    match proactive_target(&broken) {
        Err(MsTeamsError::InvalidConfig(m)) => assert_eq!(m, "Missing service URL"),
        _ => panic!("expected an error"),
    }
}

#[test]
fn channel_requires_credentials() {
    let mut c = config();
    c.client_secret = String::new();
    match MsTeamsChannel::new(c) {
        Err(e) => assert_eq!(e.message(), "Invalid configuration: Missing client_secret"),
        Ok(_) => panic!("expected an error"),
    }
    let mut c = config();
    c.tenant_id = String::new();
    assert!(matches!(MsTeamsChannel::new(c), Err(MsTeamsError::InvalidConfig(m)) if m == "Missing tenant_id"));
}

#[test]
fn channel_takes_allowed_messages_and_routes() {
    let mut c = config();
    c.enable_proactive = true;
    c.allowed_teams = vec!["team-a".to_string()];
    let mut channel = MsTeamsChannel::new(c).unwrap();

    // Not a message, no text, or a team not allowed: ignored.
    let mut typing = incoming(Some("x"), Some("team-a"), "conv-1");
    typing.activity_type = ActivityType::Typing;
    assert_eq!(channel.handle_activity_at(typing, 5).unwrap(), None);
    assert_eq!(channel.handle_activity_at(incoming(None, Some("team-a"), "conv-1"), 5).unwrap(), None);
    assert_eq!(channel.handle_activity_at(incoming(Some("x"), Some("team-b"), "conv-1"), 5).unwrap(), None);
    assert!(channel.take_events().is_empty());

    let id = channel.handle_activity_at(incoming(Some("hello"), Some("team-a"), "conv-1"), 5).unwrap();
    assert_eq!(id, Some("act-1".to_string()));
    let events = channel.take_events();
    match &events[..] {
        [TeamsEvent::MessageReceived(m)] => {
            assert_eq!(m.text, "hello");
            assert_eq!(m.sender_id, "user-1");
            assert_eq!(m.sender_name, "Ada");
            assert_eq!(m.conversation_id, "conv-1");
            assert_eq!(m.channel_type, "msteams");
            assert_eq!(m.timestamp_millis, 1234);
        }
        _ => panic!("expected one message"),
    }

    match channel.route("conv-1").unwrap() {
        SendRoute::Proactive(r) => assert_eq!(r.bot.unwrap().id, "test-bot"),
        _ => panic!("expected a proactive route"),
    }
    assert_eq!(
        channel.route("team-x:chan-y").unwrap(),
        SendRoute::Graph { team_id: "team-x".to_string(), channel_id: "chan-y".to_string() }
    );
    match channel.route("a:b:c") {
        Err(MsTeamsError::ApiError(m)) => assert_eq!(m, "Invalid destination format: a:b:c"),
        _ => panic!("expected an error"),
    }
    assert!(matches!(channel.proactive_reference("nope"), Err(MsTeamsError::ChannelNotFound(m)) if m == "nope"));

    channel.mark_connected();
    assert!(channel.is_connected());
    channel.disconnect().unwrap();
    assert!(!channel.is_connected());
    assert_eq!(channel.take_events(), vec![TeamsEvent::Connected, TeamsEvent::Disconnected]);
    assert_eq!(channel.channel_type(), "msteams");
}
