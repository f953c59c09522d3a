use drbot::memory::{
    longterm_session, longterm_user, max_importance, Importance, MemoryCategory, MemoryLayer,
    MemorySource, SourceType,
};

#[test]
fn test_importance_ordering() {
    assert!(Importance::Critical > Importance::High);
    assert!(Importance::High > Importance::Normal);
    assert!(Importance::Normal > Importance::Low);
}

#[test]
fn importance_levels() {
    assert_eq!(Importance::Low.level(), 1);
    assert_eq!(Importance::Critical.level(), 4);
    assert_eq!(Importance::from_level(3), Importance::High);
    assert_eq!(Importance::from_level(9), Importance::Normal);
    assert_eq!(Importance::default(), Importance::Normal);
    assert!(Importance::High.exceeds(&Importance::Normal));
    assert_eq!(max_importance(&vec![Importance::Low, Importance::Critical, Importance::High]), Importance::Critical);
    assert_eq!(max_importance(&Vec::new()), Importance::Normal);
}

#[test]
fn category_names() {
    assert_eq!(MemoryCategory::Preference.name(), "preference");
    assert_eq!(MemoryCategory::from_name("event"), MemoryCategory::Event);
    assert_eq!(MemoryCategory::from_name("whatever"), MemoryCategory::General);
    for c in [MemoryCategory::Fact, MemoryCategory::Task, MemoryCategory::Summary, MemoryCategory::General] {
        assert_eq!(MemoryCategory::from_name(c.name()), c);
    }
    assert_eq!(MemoryCategory::default(), MemoryCategory::General);
}

#[test]
fn longterm_sessions() {
    assert_eq!(longterm_session("user1"), "__longterm__user1");
    assert_eq!(longterm_user("__longterm__user1"), Some("user1".to_string()));
    assert_eq!(longterm_user("session-1"), None);
    assert_eq!(longterm_user("__long"), None);
}

#[test]
fn layers() {
    assert_eq!(MemoryLayer::Working.default_retention_millis(), Some(3_600_000));
    assert_eq!(MemoryLayer::LongTermEpisodic.default_retention_millis(), Some(90 * 86_400_000));
    assert_eq!(MemoryLayer::Procedural.default_retention_millis(), None);
    assert_eq!(MemoryLayer::Working.priority(), 10);
    assert_eq!(MemoryLayer::Procedural.priority(), 5);
    assert_eq!(MemoryLayer::Working.promoted(), MemoryLayer::ShortTerm);
    assert_eq!(MemoryLayer::ShortTerm.promoted(), MemoryLayer::LongTermEpisodic);
    assert_eq!(MemoryLayer::LongTermSemantic.promoted(), MemoryLayer::LongTermSemantic);
}

#[test]
fn memory_sources() {
    let s = MemorySource::from_session("s1").with_user("u1").with_channel("c1");
    assert_eq!(s.session_id, Some("s1".to_string()));
    assert_eq!(s.user_id, Some("u1".to_string()));
    assert_eq!(s.channel_id, Some("c1".to_string()));
    assert_eq!(s.source_type, SourceType::Conversation);
    assert_eq!(MemorySource::default().session_id, None);
}
