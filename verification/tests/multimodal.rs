use drbot::multimodal::{
    summary_of_analysis, text_of_analysis, AnalysisResult, AudioAnalysis, AudioSegment,
    BoundingBox, Content, ContentMetadata, ImageAnalysis, MediaType, MockProcessor,
    MultimodalConfig, MultimodalEngine, MultimodalError, MultimodalProcessor, SafetyAssessment,
    Sentiment, TextAnalysis, TextRegion, Transcription,
};

fn engine() -> MultimodalEngine<MockProcessor> {
    MultimodalEngine::new(MultimodalConfig::default(), MockProcessor)
}

#[test]
fn test_image_analysis() {
    let mut engine = engine();
    let content = Content::new(MediaType::Image, vec![0u8; 100]);
    let result = engine.analyze(&content).unwrap();
    match result {
        AnalysisResult::Image(analysis) => {
            assert!(!analysis.objects.is_empty());
            assert!(analysis.confidence_permille > 0);
        }
        _ => panic!("Expected image analysis"),
    }
}

#[test]
fn test_audio_analysis() {
    let mut engine = engine();
    let content = Content::new(MediaType::Audio, vec![0u8; 100]);
    let result = engine.analyze(&content).unwrap();
    match result {
        AnalysisResult::Audio(analysis) => {
            assert!(!analysis.transcription.text.is_empty());
            assert!(!analysis.speakers.is_empty());
        }
        _ => panic!("Expected audio analysis"),
    }
}

#[test]
fn test_extract_text() {
    let mut engine = engine();
    let content = Content::new(MediaType::Audio, vec![0u8; 100]);
    let text = engine.extract_text(&content).unwrap();
    assert!(!text.is_empty());
}

#[test]
fn test_summarize() {
    let mut engine = engine();
    let content = Content::new(MediaType::Video, vec![0u8; 100]);
    let summary = engine.summarize(&content).unwrap();
    assert!(!summary.is_empty());
}

#[test]
fn test_content_too_large() {
    let mut config = MultimodalConfig::default();
    config.max_content_size = 10;
    let mut engine = MultimodalEngine::new(config, MockProcessor);
    let content = Content::new(MediaType::Image, vec![0u8; 100]);
    let result = engine.analyze(&content);
    assert!(matches!(result, Err(MultimodalError::ContentTooLarge { .. })));
}

#[test]
fn test_cache() {
    let mut engine = engine();
    let content = Content::new(MediaType::Image, vec![0u8; 100]);
    let _ = engine.analyze(&content).unwrap();
    let _ = engine.analyze(&content).unwrap();
    engine.clear_cache();
}

#[test]
fn multimodal_text_and_summaries_exact() {
    let mut engine = engine();
    let audio = Content::new(MediaType::Audio, vec![1, 2, 3]);
    assert_eq!(
        engine.summarize(&audio).unwrap(),
        "Audio (10.0s): 1 speakers. Mock transcription of audio content"
    );
    let video = Content::new(MediaType::Video, vec![0u8; 7]);
    assert_eq!(engine.summarize(&video).unwrap(), "Video analysis of 7 bytes");
    assert_eq!(engine.extract_text(&video).unwrap(), "");
    let text = Content::new(MediaType::Text, "héllo".as_bytes().to_vec());
    assert_eq!(engine.extract_text(&text).unwrap(), "héllo");
    let raw = Content::new(MediaType::Structured, vec![b'a', 0xff, b'b']);
    assert_eq!(engine.extract_text(&raw).unwrap(), "a\u{fffd}b");
    let doc = Content::new(MediaType::Document, "abc".as_bytes().to_vec());
    assert_eq!(engine.summarize(&doc).unwrap(), "Document with 3 characters");
    let err = MultimodalError::ContentTooLarge { size: 100, max: 10 };
    assert_eq!(err.message(), "Content too large: 100 bytes (max: 10)");
}

#[test]
fn multimodal_text_summary_keeps_200_chars() {
    let long: String = std::iter::repeat('x').take(250).collect();
    let a = AnalysisResult::Text(TextAnalysis { text: long, language: "en".to_string(), word_count: 0, sentiment: None });
    assert_eq!(summary_of_analysis(&a).chars().count(), 200);
}

#[test]
fn multimodal_ocr_lines_joined() {
    let region = |t: &str| TextRegion {
        text: t.to_string(),
        confidence_permille: 1000,
        bounding_box: BoundingBox { x_permille: 0, y_permille: 0, width_permille: 0, height_permille: 0 },
        language: None,
    };
    let a = AnalysisResult::Image(ImageAnalysis {
        objects: vec![],
        text: vec![region("first"), region("second")],
        description: "d".to_string(),
        faces: vec![],
        colors: vec![],
        tags: vec![],
        safety: SafetyAssessment::default(),
        confidence_permille: 0,
    });
    assert_eq!(text_of_analysis(&a), "first\nsecond");
    assert_eq!(summary_of_analysis(&a), "d");
}

#[test]
fn multimodal_audio_length_rounds_to_tenths() {
    let audio = |end_ms: u64| AnalysisResult::Audio(AudioAnalysis {
        transcription: Transcription { text: "hi".to_string(), language: "en".to_string(), confidence_permille: 0, words: vec![] },
        speakers: vec![],
        segments: vec![AudioSegment { start_ms: 0, end_ms, segment_type: "speech".to_string(), speaker_id: None, text: None }],
        background: vec![],
        music: None,
        sentiment: Sentiment { overall: "neutral".to_string(), score_permille: 0, emotions: vec![] },
    });
    assert_eq!(summary_of_analysis(&audio(1234)), "Audio (1.2s): 0 speakers. hi");
    assert_eq!(summary_of_analysis(&audio(1260)), "Audio (1.3s): 0 speakers. hi");
    assert_eq!(summary_of_analysis(&audio(250)), "Audio (0.2s): 0 speakers. hi");
}

#[test]
fn multimodal_content_builders_and_mock_types() {
    let c = Content::new_at(uuid::Uuid::nil(), MediaType::Text, vec![1], 5)
        .with_source("camera")
        .with_metadata(ContentMetadata { page_count: Some(2), ..ContentMetadata::default() });
    assert_eq!(c.source.as_deref(), Some("camera"));
    assert_eq!(c.metadata.page_count, Some(2));
    assert_eq!(c.created_at_millis, 5);
    assert_eq!(
        MockProcessor.supported_types(),
        vec![MediaType::Image, MediaType::Audio, MediaType::Video, MediaType::Document]
    );
}
