use drbot::meetai::{
    count_words, Meeting, MeetingAIEngine, MeetingAnalyzer, MeetingConfig, MeetingError,
    MeetingEvent, MeetingStatus, Participant, ParticipantRole, Priority, SimpleAnalyzer,
    SimpleTranscriber, TranscriptEntry,
};

fn engine() -> MeetingAIEngine<SimpleTranscriber, SimpleAnalyzer> {
    MeetingAIEngine::new(MeetingConfig::default(), SimpleTranscriber, SimpleAnalyzer)
}

fn entry(speaker: &str, text: &str) -> TranscriptEntry {
    TranscriptEntry {
        id: uuid::Uuid::new_v4(),
        speaker_id: None,
        speaker: speaker.to_string(),
        text: text.to_string(),
        timestamp_millis: 0,
        confidence_percent: 100,
        is_final: true,
    }
}

#[test]
fn test_start_meeting() {
    let mut engine = engine();
    let meeting = engine.start_meeting("Team Sync");
    assert_eq!(meeting.title, "Team Sync");
    assert_eq!(meeting.status, MeetingStatus::InProgress);
}

#[test]
fn test_add_transcript() {
    let mut engine = engine();
    let meeting = engine.start_meeting("Test");
    engine.add_transcript(meeting.id, "Alice", "Hello everyone").unwrap();
    engine.add_transcript(meeting.id, "Bob", "Hi Alice").unwrap();
    let m = engine.get_meeting(meeting.id).unwrap();
    assert_eq!(m.transcript.len(), 2);
}

#[test]
fn test_generate_summary() {
    let mut engine = engine();
    let meeting = engine.start_meeting("Planning");
    engine
        .add_participant(meeting.id, Participant::new("Alice", ParticipantRole::Host))
        .unwrap();
    engine
        .add_transcript(meeting.id, "Alice", "We decided to use Rust for this project")
        .unwrap();
    let summary = engine.generate_summary(meeting.id).unwrap();
    assert!(!summary.decisions.is_empty());
}

#[test]
fn test_action_extraction() {
    let analyzer = SimpleAnalyzer;
    let transcript = vec![entry("Bob", "Action: Review the proposal by Friday")];
    let actions = analyzer.extract_actions(&transcript);
    assert!(!actions.is_empty());
}

#[test]
fn meetai_word_counts() {
    assert_eq!(count_words(""), 0);
    assert_eq!(count_words("  one\ttwo\n three  "), 3);
    assert_eq!(count_words("a"), 1);
}

#[test]
fn meetai_actions_and_decisions_fields() {
    let analyzer = SimpleAnalyzer;
    let transcript = vec![
        entry("Ann", "I WILL DO the slides"),
        entry("Bob", "nothing here"),
        entry("Cy", "We Agreed on Tuesday"),
        entry("Di", "todo: book a room"),
    ];
    let actions = analyzer.extract_actions(&transcript);
    assert_eq!(actions.len(), 2);
    assert_eq!(actions[0].assignee.as_deref(), Some("Ann"));
    assert_eq!(actions[0].priority, Priority::Medium);
    assert_eq!(actions[1].source_text, "todo: book a room");
    assert!(!actions[1].completed);
    let decisions = analyzer.extract_decisions(&transcript);
    assert_eq!(decisions.len(), 1);
    assert_eq!(decisions[0].made_by, vec!["Cy".to_string()]);
    assert_eq!(decisions[0].context, "From transcript");
}

#[test]
fn meetai_summary_at_exact() {
    let analyzer = SimpleAnalyzer;
    let mut m = Meeting::new_at(uuid::Uuid::nil(), "Retro", 0);
    m.add_participant(Participant::new_at(uuid::Uuid::nil(), "Ann", ParticipantRole::Host, 0));
    m.add_participant(Participant::new_at(uuid::Uuid::nil(), "Bob", ParticipantRole::Guest, 0));
    m.transcript.push(entry("Ann", "one two"));
    m.transcript.push(entry("Bob", "one two three"));
    m.transcript.push(entry("Zed", "x y z w v"));
    let s = analyzer.summarize_at(&m, 150_000);
    assert_eq!(s.brief, "Meeting: Retro (2 minutes)");
    assert_eq!(s.key_points, vec!["Meeting conducted".to_string()]);
    assert_eq!(s.participant_stats.len(), 2);
    assert_eq!(s.participant_stats[0].name, "Bob");
    assert_eq!(s.participant_stats[0].word_count, 3);
    assert_eq!(s.participant_stats[0].speaking_permille, 300);
    assert_eq!(s.participant_stats[1].name, "Ann");
    assert_eq!(s.participant_stats[1].speaking_permille, 200);
    assert_eq!(s.generated_at_millis, 150_000);
}

#[test]
fn meetai_duration_rounds_toward_zero() {
    let mut m = Meeting::new_at(uuid::Uuid::nil(), "T", 100_000);
    assert_eq!(m.duration_minutes_at(100_000 + 119_999), 1);
    assert_eq!(m.duration_minutes_at(100_000 - 61_000), -1);
    m.ended_at_millis = Some(100_000 + 600_000);
    assert_eq!(m.duration_minutes_at(0), 10);
    assert_eq!(m.duration_minutes(), 10);
}

#[test]
fn meetai_end_meeting_summarises_and_reports() {
    let mut engine = engine();
    let id = uuid::Uuid::new_v4();
    engine.start_meeting_at(id, "Sync", 0);
    engine.add_transcript_at(id, "Ann", "hello", uuid::Uuid::nil(), 10).unwrap();
    let summary = engine.end_meeting_at(id, 60_000).unwrap();
    assert_eq!(summary.brief, "Meeting: Sync (1 minutes)");
    let m = engine.get_meeting(id).unwrap();
    assert_eq!(m.status, MeetingStatus::Ended);
    assert_eq!(m.ended_at_millis, Some(60_000));
    assert!(engine.get_summary(id).is_some());
    let events = engine.take_events();
    assert_eq!(events.len(), 3);
    assert!(matches!(events[0], MeetingEvent::Started(_)));
    assert!(matches!(events[2], MeetingEvent::Ended(_)));
}

#[test]
fn meetai_without_auto_summary_and_unknown_meetings() {
    let mut config = MeetingConfig::default();
    config.auto_summary = false;
    config.live_transcription = false;
    let mut engine = MeetingAIEngine::new(config, SimpleTranscriber, SimpleAnalyzer);
    let meeting = engine.start_meeting("Off");
    let r = engine.end_meeting(meeting.id);
    assert!(matches!(r, Err(MeetingError::NotFound(_))));
    let audio = engine.process_audio(meeting.id, &[1, 2, 3], None);
    assert_eq!(
        audio.unwrap_err(),
        MeetingError::TranscriptionFailed("Transcription disabled".to_string())
    );
    let unknown = uuid::Uuid::new_v4();
    assert!(engine.add_participant(unknown, Participant::new("X", ParticipantRole::Guest)).is_err());
    assert!(engine.generate_summary(unknown).is_err());
    assert!(engine.add_transcript(unknown, "X", "y").is_ok());
    assert_eq!(
        MeetingError::AnalysisFailed("z".to_string()).message(),
        "Analysis failed: z"
    );
}

#[test]
fn meetai_process_audio_reports_actions() {
    let mut engine = engine();
    let meeting = engine.start_meeting("Audio");
    let e = engine.process_audio(meeting.id, &[0u8; 4], Some("Eve")).unwrap();
    assert_eq!(e.speaker, "Eve");
    assert_eq!(e.text, "[Transcribed audio]");
    assert_eq!(e.confidence_percent, 90);
    let m = engine.get_meeting(meeting.id).unwrap();
    assert_eq!(m.transcript.len(), 1);
    let events = engine.take_events();
    assert_eq!(events.len(), 2);
}

#[test]
fn meetai_stats_count_active_and_minutes() {
    let mut engine = engine();
    let a = uuid::Uuid::new_v4();
    let b = uuid::Uuid::new_v4();
    engine.start_meeting_at(a, "A", 0);
    engine.start_meeting_at(b, "B", 0);
    engine.end_meeting_at(a, 120_000).unwrap();
    let stats = engine.stats_at(300_000);
    assert_eq!(stats.total_meetings, 2);
    assert_eq!(stats.active_meetings, 1);
    assert_eq!(stats.total_duration_minutes, 7);
    assert_eq!(engine.list_meetings().len(), 2);
}
