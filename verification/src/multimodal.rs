//! Understanding of images, audio, video, documents and text: content with
//! a size limit, analysis through a processor, a cache of results by
//! content, and the text and summary drawn from a result.
//!
//! Confidences, shares and scores are given in thousandths; times in
//! milliseconds.

use vstd::prelude::*;
use crate::clock::utc_now_millis;
use crate::json::json_clone;
use crate::ids::{new_uuid, uuid_eq};
use crate::text::{push_decimal, string_push, string_push_str, to_owned_string};

verus! {

/// Errors of multi-modal analysis.
#[derive(Debug, Clone, PartialEq, Eq)]
pub enum MultimodalError {
    UnsupportedMediaType(String),
    ProcessingFailed(String),
    ModelNotAvailable(String),
    ContentTooLarge { size: usize, max: usize },
    InvalidContent(String),
    Timeout,
}

/// The decimal notation of `n`.
pub open spec fn dec(n: nat) -> Seq<char> {
    crate::text::decimal(n)
}

impl MultimodalError {
    /// The error's description.
    pub fn message(&self) -> (r: String)
        ensures
            r@ == match self {
                MultimodalError::UnsupportedMediaType(s) => "Unsupported media type: "@ + s@,
                MultimodalError::ProcessingFailed(s) => "Processing failed: "@ + s@,
                MultimodalError::ModelNotAvailable(s) => "Model not available: "@ + s@,
                MultimodalError::ContentTooLarge { size, max } => "Content too large: "@ + dec(*size as nat) + " bytes (max: "@
                    + dec(*max as nat) + ")"@,
                MultimodalError::InvalidContent(s) => "Invalid content: "@ + s@,
                MultimodalError::Timeout => "Timeout during processing"@,
            },
    {
        match self {
            MultimodalError::UnsupportedMediaType(s) => {
                let mut out = to_owned_string("Unsupported media type: ");
                string_push_str(&mut out, s.as_str());
                out
            },
            MultimodalError::ProcessingFailed(s) => {
                let mut out = to_owned_string("Processing failed: ");
                string_push_str(&mut out, s.as_str());
                out
            },
            MultimodalError::ModelNotAvailable(s) => {
                let mut out = to_owned_string("Model not available: ");
                string_push_str(&mut out, s.as_str());
                out
            },
            MultimodalError::ContentTooLarge { size, max } => {
                let mut out = to_owned_string("Content too large: ");
                push_decimal(&mut out, *size);
                string_push_str(&mut out, " bytes (max: ");
                push_decimal(&mut out, *max);
                string_push_str(&mut out, ")");
                out
            },
            MultimodalError::InvalidContent(s) => {
                let mut out = to_owned_string("Invalid content: ");
                string_push_str(&mut out, s.as_str());
                out
            },
            MultimodalError::Timeout => to_owned_string("Timeout during processing"),
        }
    }
}

/// The kind of content.
#[derive(Debug, Clone, Copy, PartialEq, Eq, Hash, Structural)]
pub enum MediaType {
    Image,
    Audio,
    Video,
    Document,
    Text,
    Structured,
}

/// What is known of content besides its bytes.
#[derive(Debug)]
pub struct ContentMetadata {
    pub filename: Option<String>,
    pub mime_type: Option<String>,
    pub width: Option<u32>,
    pub height: Option<u32>,
    /// For audio and video.
    pub duration_ms: Option<u64>,
    pub page_count: Option<u32>,
    /// Named values, no name twice.
    pub properties: Vec<(String, serde_json::Value)>,
}

impl Default for ContentMetadata {
    fn default() -> (r: Self)
        ensures
            r.filename is None,
            r.mime_type is None,
            r.width is None,
            r.height is None,
            r.duration_ms is None,
            r.page_count is None,
            r.properties@.len() == 0,
    {
        ContentMetadata {
            filename: None,
            mime_type: None,
            width: None,
            height: None,
            duration_ms: None,
            page_count: None,
            properties: Vec::new(),
        }
    }
}

/// Content to analyse.
#[derive(Debug)]
pub struct Content {
    pub id: uuid::Uuid,
    pub media_type: MediaType,
    pub data: Vec<u8>,
    pub metadata: ContentMetadata,
    pub source: Option<String>,
    /// In milliseconds since the Unix epoch.
    pub created_at_millis: i64,
}

impl Content {
    /// Content of `media_type` holding `data`, under the identifier `id`,
    /// created at `now_millis`, with no metadata and no source.
    pub fn new_at(id: uuid::Uuid, media_type: MediaType, data: Vec<u8>, now_millis: i64) -> (r: Self)
        ensures
            r.id == id,
            r.media_type == media_type,
            r.data@ == data@,
            r.metadata.properties@.len() == 0,
            r.metadata.filename is None,
            r.source is None,
            r.created_at_millis == now_millis,
    {
        Content { id, media_type, data, metadata: ContentMetadata::default(), source: None, created_at_millis: now_millis }
    }

    /// Content of `media_type` holding `data`, under a fresh random
    /// identifier, created now.
    pub fn new(media_type: MediaType, data: Vec<u8>) -> (r: Self)
        ensures
            r.media_type == media_type,
            r.data@ == data@,
            r.metadata.properties@.len() == 0,
            r.source is None,
    {
        Content::new_at(new_uuid(), media_type, data, utc_now_millis())
    }

    /// The content with `source` as its source.
    pub fn with_source(self, source: &str) -> (r: Self)
        ensures
            r.source matches Some(s) && s@ == source@,
            r.id == self.id,
            r.media_type == self.media_type,
            r.data == self.data,
            r.metadata == self.metadata,
            r.created_at_millis == self.created_at_millis,
    {
        let mut c = self;
        c.source = Some(to_owned_string(source));
        c
    }

    /// The content with `metadata` as its metadata.
    pub fn with_metadata(self, metadata: ContentMetadata) -> (r: Self)
        ensures
            r.metadata == metadata,
            r.id == self.id,
            r.media_type == self.media_type,
            r.data == self.data,
            r.source == self.source,
            r.created_at_millis == self.created_at_millis,
    {
        let mut c = self;
        c.metadata = metadata;
        c
    }
}

/// A region of an image, in thousandths of its width and height.
#[derive(Debug, Clone, Copy, PartialEq, Eq, Structural)]
pub struct BoundingBox {
    pub x_permille: u32,
    pub y_permille: u32,
    pub width_permille: u32,
    pub height_permille: u32,
}

/// An object seen in an image.
#[derive(Debug, Clone)]
pub struct DetectedObject {
    pub label: String,
    pub confidence_permille: u32,
    pub bounding_box: BoundingBox,
}

/// Text read in an image.
#[derive(Debug, Clone)]
pub struct TextRegion {
    pub text: String,
    pub confidence_permille: u32,
    pub bounding_box: BoundingBox,
    pub language: Option<String>,
}

/// A face seen in an image.
#[derive(Debug, Clone)]
pub struct DetectedFace {
    pub bounding_box: BoundingBox,
    /// Emotions by name, in thousandths, no name twice.
    pub emotions: Vec<(String, u32)>,
    pub age_estimate: Option<u32>,
    pub confidence_permille: u32,
}

/// Red, green and blue components.
#[derive(Debug, Clone, Copy, PartialEq, Eq, Structural)]
pub struct Rgb {
    pub r: u8,
    pub g: u8,
    pub b: u8,
}

/// A colour of an image.
#[derive(Debug, Clone)]
pub struct Color {
    pub hex: String,
    pub rgb: Rgb,
    /// The share of the image, in thousandths.
    pub percentage_permille: u32,
    pub name: Option<String>,
}

/// How safe an image is to show.
#[derive(Debug, Clone)]
pub struct SafetyAssessment {
    pub safe_for_work: bool,
    pub violence_permille: u32,
    pub adult_permille: u32,
    pub medical_permille: u32,
    pub flags: Vec<String>,
}

impl Default for SafetyAssessment {
    fn default() -> (r: Self)
        ensures
            r.safe_for_work,
            r.violence_permille == 0,
            r.adult_permille == 0,
            r.medical_permille == 0,
            r.flags@.len() == 0,
    {
        SafetyAssessment { safe_for_work: true, violence_permille: 0, adult_permille: 0, medical_permille: 0, flags: Vec::new() }
    }
}

/// What an image shows.
#[derive(Debug, Clone)]
pub struct ImageAnalysis {
    pub objects: Vec<DetectedObject>,
    /// Text read in the image.
    pub text: Vec<TextRegion>,
    pub description: String,
    pub faces: Vec<DetectedFace>,
    pub colors: Vec<Color>,
    pub tags: Vec<String>,
    pub safety: SafetyAssessment,
    pub confidence_permille: u32,
}

/// A word said, with its time.
#[derive(Debug, Clone)]
pub struct TimedWord {
    pub word: String,
    pub start_ms: u64,
    pub end_ms: u64,
    pub speaker_id: Option<String>,
    pub confidence_permille: u32,
}

/// What was said.
#[derive(Debug, Clone)]
pub struct Transcription {
    pub text: String,
    pub language: String,
    pub confidence_permille: u32,
    pub words: Vec<TimedWord>,
}

/// What a voice sounds like.
#[derive(Debug, Clone)]
pub struct VoiceProfile {
    pub gender: Option<String>,
    pub age_range: Option<String>,
    pub qualities: Vec<String>,
}

/// Someone heard.
#[derive(Debug, Clone)]
pub struct Speaker {
    pub id: String,
    pub label: Option<String>,
    pub duration_ms: u64,
    pub voice_profile: VoiceProfile,
}

/// A stretch of audio.
#[derive(Debug, Clone)]
pub struct AudioSegment {
    pub start_ms: u64,
    pub end_ms: u64,
    pub segment_type: String,
    pub speaker_id: Option<String>,
    pub text: Option<String>,
}

/// Music heard.
#[derive(Debug, Clone)]
pub struct MusicInfo {
    pub genre: Option<String>,
    /// Beats per thousand minutes.
    pub tempo_milli_bpm: Option<u32>,
    pub key: Option<String>,
    pub mood: Vec<String>,
}

/// The mood of what was said.
#[derive(Debug, Clone)]
pub struct Sentiment {
    pub overall: String,
    /// From -1000 to 1000.
    pub score_permille: i32,
    /// Emotions by name, in thousandths, no name twice.
    pub emotions: Vec<(String, u32)>,
}

/// What audio holds.
#[derive(Debug, Clone)]
pub struct AudioAnalysis {
    pub transcription: Transcription,
    pub speakers: Vec<Speaker>,
    pub segments: Vec<AudioSegment>,
    pub background: Vec<String>,
    pub music: Option<MusicInfo>,
    pub sentiment: Sentiment,
}

/// A frame of a video worth looking at.
#[derive(Debug, Clone)]
pub struct KeyFrame {
    pub timestamp_ms: u64,
    pub analysis: ImageAnalysis,
    pub reason: String,
}

/// A scene of a video.
#[derive(Debug, Clone)]
pub struct Scene {
    pub start_ms: u64,
    pub end_ms: u64,
    pub description: String,
    pub scene_type: Option<String>,
}

/// Something going on in a video.
#[derive(Debug, Clone)]
pub struct Activity {
    pub label: String,
    pub confidence_permille: u32,
    pub start_ms: u64,
    pub end_ms: u64,
}

/// Width and height in pixels.
#[derive(Debug, Clone, Copy, PartialEq, Eq, Structural)]
pub struct Resolution {
    pub width: u32,
    pub height: u32,
}

/// What a video holds.
#[derive(Debug, Clone)]
pub struct VideoAnalysis {
    pub duration_ms: u64,
    /// Frames per thousand seconds.
    pub frame_rate_milli: u32,
    pub resolution: Resolution,
    pub key_frames: Vec<KeyFrame>,
    pub scenes: Vec<Scene>,
    pub audio: Option<AudioAnalysis>,
    pub summary: String,
    pub activities: Vec<Activity>,
}

/// The kind of a document.
#[derive(Debug, Clone, Copy, PartialEq, Eq, Structural)]
pub enum DocumentType {
    Report,
    Invoice,
    Contract,
    Form,
    Letter,
    Resume,
    Academic,
    Presentation,
    Spreadsheet,
    Other,
}

/// A section of a document.
#[derive(Debug, Clone)]
pub struct Section {
    pub title: String,
    pub level: u32,
    pub page: Option<u32>,
    pub content: String,
}

/// An entry of a table of contents.
#[derive(Debug, Clone)]
pub struct TocEntry {
    pub title: String,
    pub level: u32,
    pub page: Option<u32>,
}

/// How a document is laid out.
#[derive(Debug, Clone)]
pub struct DocumentStructure {
    pub title: Option<String>,
    pub authors: Vec<String>,
    pub date: Option<String>,
    pub sections: Vec<Section>,
    pub toc: Vec<TocEntry>,
}

/// A table of a document.
#[derive(Debug, Clone)]
pub struct Table {
    pub caption: Option<String>,
    pub headers: Vec<String>,
    pub rows: Vec<Vec<String>>,
    pub page: Option<u32>,
}

/// A figure of a document.
#[derive(Debug, Clone)]
pub struct Figure {
    pub caption: Option<String>,
    pub figure_type: String,
    pub page: Option<u32>,
    pub analysis: Option<ImageAnalysis>,
}

/// What a document holds.
#[derive(Debug, Clone)]
pub struct DocumentAnalysis {
    pub document_type: DocumentType,
    pub text: String,
    pub structure: DocumentStructure,
    pub tables: Vec<Table>,
    pub figures: Vec<Figure>,
    /// Values by key, no key twice.
    pub key_values: Vec<(String, String)>,
    pub summary: String,
    pub language: String,
}

/// What plain or structured text holds.
#[derive(Debug, Clone)]
pub struct TextAnalysis {
    pub text: String,
    pub language: String,
    pub word_count: usize,
    pub sentiment: Option<Sentiment>,
}

/// The analysis of some content, by its kind.
#[derive(Debug, Clone)]
pub enum AnalysisResult {
    Image(ImageAnalysis),
    Audio(AudioAnalysis),
    Video(VideoAnalysis),
    Document(DocumentAnalysis),
    Text(TextAnalysis),
}

/// Does the analysis of each kind of content; users implement it.
pub trait MultimodalProcessor {
    /// Analyse an image.
    fn analyze_image(&self, content: &Content) -> Result<ImageAnalysis, MultimodalError>;

    /// Analyse audio.
    fn analyze_audio(&self, content: &Content) -> Result<AudioAnalysis, MultimodalError>;

    /// Analyse a video.
    fn analyze_video(&self, content: &Content) -> Result<VideoAnalysis, MultimodalError>;

    /// Analyse a document.
    fn analyze_document(&self, content: &Content) -> Result<DocumentAnalysis, MultimodalError>;

    /// The kinds of content it analyses.
    fn supported_types(&self) -> Vec<MediaType>;
}

/// How content is analysed.
#[derive(Debug)]
pub struct MultimodalConfig {
    /// The most bytes analysed.
    pub max_content_size: usize,
    pub enable_ocr: bool,
    pub enable_face_detection: bool,
    pub enable_diarization: bool,
    /// Video frames looked at per thousand seconds.
    pub video_sample_rate_milli: u32,
    pub preferred_language: Option<String>,
}

impl Default for MultimodalConfig {
    fn default() -> (r: Self)
        ensures
            r.max_content_size == 104857600,
            r.enable_ocr,
            r.enable_face_detection,
            r.enable_diarization,
            r.video_sample_rate_milli == 1000,
            r.preferred_language is None,
    {
        MultimodalConfig {
            max_content_size: 104857600,
            enable_ocr: true,
            enable_face_detection: true,
            enable_diarization: true,
            video_sample_rate_milli: 1000,
            preferred_language: None,
        }
    }
}

/// The text `String::from_utf8_lossy` makes of `bytes`: their decoding, with
/// each invalid sequence replaced by U+FFFD.
pub uninterp spec fn lossy_utf8(bytes: Seq<u8>) -> Seq<char>;

/// `String::from_utf8_lossy`: the text of `bytes`, each invalid sequence
/// replaced by U+FFFD; on valid UTF-8, their decoding.
#[verifier::external_body]
fn lossy_text(bytes: &[u8]) -> (r: String)
    ensures
        r@ == lossy_utf8(bytes@),
        vstd::utf8::valid_utf8(bytes@) ==> r@ == vstd::utf8::decode_utf8(bytes@),
{
    String::from_utf8_lossy(bytes).to_string()
}

/// An analysis kept for content.
#[derive(Debug)]
struct CachedAnalysis {
    content_id: uuid::Uuid,
    media_type: MediaType,
    result: AnalysisResult,
    created_at_millis: i64,
}

/// The position of the analysis kept for the content `id`.
pub open spec fn find_cached(ids: Seq<uuid::Uuid>, id: uuid::Uuid) -> Option<int>
    decreases ids.len(),
{
    if ids.len() == 0 {
        None
    } else {
        match find_cached(ids.drop_last(), id) {
            Some(i) => Some(i),
            None => if ids.last() == id { Some(ids.len() - 1) } else { None },
        }
    }
}

proof fn lemma_find_cached(ids: Seq<uuid::Uuid>, id: uuid::Uuid)
    ensures
        match find_cached(ids, id) {
            Some(i) => 0 <= i < ids.len() && ids[i] == id,
            None => forall|j: int| 0 <= j < ids.len() ==> ids[j] != id,
        },
    decreases ids.len(),
{
    if ids.len() > 0 {
        let t = ids.drop_last();
        lemma_find_cached(t, id);
        match find_cached(t, id) {
            Some(i) => {
                assert(t[i] == ids[i]);
            },
            None => {
                if ids.last() != id {
                    assert forall|j: int| 0 <= j < ids.len() implies ids[j] != id by {
                        if j < ids.len() - 1 {
                            assert(t[j] == ids[j]);
                        }
                    }
                }
            },
        }
    }
}

/// The text an analysis holds: the lines read in an image, what was said
/// in audio or in a video's sound (nothing without sound), a document's or
/// a text's text.
pub open spec fn text_of(a: AnalysisResult) -> Seq<char> {
    match a {
        AnalysisResult::Image(i) => joined_lines(i.text@),
        AnalysisResult::Audio(au) => au.transcription.text@,
        AnalysisResult::Video(v) => match v.audio {
            Some(au) => au.transcription.text@,
            None => Seq::empty(),
        },
        AnalysisResult::Document(d) => d.text@,
        AnalysisResult::Text(t) => t.text@,
    }
}

/// The texts of the regions, one per line.
pub open spec fn joined_lines(rs: Seq<TextRegion>) -> Seq<char>
    decreases rs.len(),
{
    if rs.len() == 0 {
        Seq::empty()
    } else if rs.len() == 1 {
        rs[0].text@
    } else {
        joined_lines(rs.drop_last()) + seq!['\n'] + rs.last().text@
    }
}

/// The tenths of `ms` milliseconds, rounded to the nearest, ties to even.
pub open spec fn tenths(ms: u64) -> nat {
    let q = (ms / 100) as nat;
    let rem = ms % 100;
    if rem > 50 || (rem == 50 && q % 2 == 1) { q + 1 } else { q }
}

/// `ms` milliseconds as seconds with one decimal.
pub open spec fn one_decimal(ms: u64) -> Seq<char> {
    dec(tenths(ms) / 10) + seq!['.'] + dec(tenths(ms) % 10)
}

/// The first 200 characters of `s`.
pub open spec fn head200(s: Seq<char>) -> Seq<char> {
    if s.len() <= 200 { s } else { s.take(200) }
}

/// The summary an analysis gives: an image's description; for audio its
/// length by its last segment, its number of speakers and the start of
/// what was said; a video's or a document's summary; the start of a text.
pub open spec fn summary_of(a: AnalysisResult) -> Seq<char> {
    match a {
        AnalysisResult::Image(i) => i.description@,
        AnalysisResult::Audio(au) => "Audio ("@ + one_decimal(if au.segments@.len() == 0 { 0 } else { au.segments@.last().end_ms })
            + "s): "@ + dec(au.speakers@.len()) + " speakers. "@ + head200(au.transcription.text@),
        AnalysisResult::Video(v) => v.summary@,
        AnalysisResult::Document(d) => d.summary@,
        AnalysisResult::Text(t) => head200(t.text@),
    }
}

fn push_chars_upto(out: &mut String, s: &str, n: usize)
    ensures
        final(out)@ == old(out)@ + (if s@.len() <= n { s@ } else { s@.take(n as int) }),
{
    let cs = crate::text::chars_of(s);
    let m = if cs.len() <= n { cs.len() } else { n };
    let mut i: usize = 0;
    while i < m
        invariant
            i <= m,
            m <= cs@.len(),
            m == if cs@.len() <= n { cs@.len() } else { n as nat },
            out@ == old(out)@ + cs@.take(i as int),
        decreases m - i,
    {
        string_push(out, cs[i]);
        assert(cs@.take(i as int + 1) =~= cs@.take(i as int).push(cs@[i as int]));
        i = i + 1;
    }
    assert(cs@.take(m as int) =~= (if s@.len() <= n { s@ } else { s@.take(n as int) }));
}

/// The text an analysis holds.
pub fn text_of_analysis(a: &AnalysisResult) -> (r: String)
    ensures
        r@ == text_of(*a),
{
    match a {
        AnalysisResult::Image(i) => {
            let mut out = String::new();
            let mut k: usize = 0;
            while k < i.text.len()
                invariant
                    k <= i.text@.len(),
                    out@ == joined_lines(i.text@.take(k as int)),
                decreases i.text@.len() - k,
            {
                assert(i.text@.take(k as int + 1).drop_last() =~= i.text@.take(k as int));
                if k > 0 {
                    string_push(&mut out, '\n');
                }
                string_push_str(&mut out, i.text[k].text.as_str());
                k = k + 1;
            }
            assert(i.text@.take(k as int) =~= i.text@);
            out
        },
        AnalysisResult::Audio(au) => au.transcription.text.clone(),
        AnalysisResult::Video(v) => match &v.audio {
            Some(au) => au.transcription.text.clone(),
            None => String::new(),
        },
        AnalysisResult::Document(d) => d.text.clone(),
        AnalysisResult::Text(t) => t.text.clone(),
    }
}

/// The summary an analysis gives.
pub fn summary_of_analysis(a: &AnalysisResult) -> (r: String)
    ensures
        r@ == summary_of(*a),
{
    match a {
        AnalysisResult::Image(i) => i.description.clone(),
        AnalysisResult::Audio(au) => {
            let n = au.segments.len();
            let ms: u64 = if n == 0 { 0 } else { au.segments[n - 1].end_ms };
            let q: u64 = ms / 100;
            let rem: u64 = ms % 100;
            let t: u64 = if rem > 50 || (rem == 50 && q % 2 == 1) { q + 1 } else { q };
            let mut out = to_owned_string("Audio (");
            crate::text::push_decimal_u64(&mut out, t / 10);
            string_push(&mut out, '.');
            crate::text::push_decimal_u64(&mut out, t % 10);
            string_push_str(&mut out, "s): ");
            push_decimal(&mut out, au.speakers.len());
            string_push_str(&mut out, " speakers. ");
            push_chars_upto(&mut out, au.transcription.text.as_str(), 200);
            assert(out@ =~= summary_of(*a));
            out
        },
        AnalysisResult::Video(v) => v.summary.clone(),
        AnalysisResult::Document(d) => d.summary.clone(),
        AnalysisResult::Text(t) => {
            let mut out = String::new();
            push_chars_upto(&mut out, t.text.as_str(), 200);
            assert(out@ =~= summary_of(*a));
            out
        },
    }
}

/// `r` is the analysis the processor's answer `answer` of kind `media`
/// stands for.
pub open spec fn analysis_kind(r: AnalysisResult, media: MediaType) -> bool {
    match media {
        MediaType::Image => r is Image,
        MediaType::Audio => r is Audio,
        MediaType::Video => r is Video,
        MediaType::Document => r is Document,
        MediaType::Text | MediaType::Structured => r is Text,
    }
}

/// `r` is the analysis of text `text`: in English, with no word count
/// and no sentiment.
pub open spec fn text_result(r: AnalysisResult, text: Seq<char>) -> bool {
    &&& r is Text
    &&& r->Text_0.text@ == text
    &&& r->Text_0.language@ == "en"@
    &&& r->Text_0.word_count == 0
    &&& r->Text_0.sentiment is None
}

/// Analyses content through a processor, keeping each result by content.
pub struct MultimodalEngine<P: MultimodalProcessor> {
    config: MultimodalConfig,
    processor: P,
    cache: Vec<CachedAnalysis>,
}

impl<P: MultimodalProcessor> MultimodalEngine<P> {
    /// The configuration.
    pub closed spec fn config_view(&self) -> MultimodalConfig {
        self.config
    }

    /// The contents an analysis is kept for, in the order analysed.
    pub closed spec fn cached_ids(&self) -> Seq<uuid::Uuid> {
        self.cache@.map_values(|c: CachedAnalysis| c.content_id)
    }

    /// An engine with `config` working through `processor`, keeping nothing.
    pub fn new(config: MultimodalConfig, processor: P) -> (r: Self)
        ensures
            r.config_view() == config,
            r.cached_ids().len() == 0,
    {
        MultimodalEngine { config, processor, cache: Vec::new() }
    }

    fn cached_index(&self, id: &uuid::Uuid) -> (r: Option<usize>)
        ensures
            match r {
                Some(i) => i < self.cache@.len() && find_cached(self.cached_ids(), *id) == Some(i as int),
                None => find_cached(self.cached_ids(), *id) is None,
            },
    {
        let ghost ids = self.cached_ids();
        let mut i: usize = 0;
        while i < self.cache.len()
            invariant
                i <= self.cache@.len(),
                ids == self.cached_ids(),
                ids.len() == self.cache@.len(),
                forall|j: int| 0 <= j < i ==> ids[j] != *id,
            decreases self.cache@.len() - i,
        {
            assert(ids[i as int] == self.cache@[i as int].content_id);
            if uuid_eq(&self.cache[i].content_id, id) {
                proof {
                    lemma_first_cached(ids, *id, i as int);
                }
                return Some(i);
            }
            i = i + 1;
        }
        proof {
            lemma_find_cached(ids, *id);
            if find_cached(ids, *id) is Some {
                let k = find_cached(ids, *id)->0;
                assert(ids[k] == *id);
            }
        }
        None
    }

    /// Analyse `content` at `now_millis`: content beyond the size limit is
    /// refused; an analysis kept for it is given again; otherwise the
    /// processor analyses images, audio, video and documents, text and
    /// structured data are taken as text, and the result is kept.
    pub fn analyze_at(&mut self, content: &Content, now_millis: i64) -> (r: Result<AnalysisResult, MultimodalError>)
        ensures
            content.data@.len() > old(self).config_view().max_content_size ==> r == Err::<AnalysisResult, MultimodalError>(
                MultimodalError::ContentTooLarge { size: content.data@.len() as usize, max: old(self).config_view().max_content_size },
            ) && final(self).cached_ids() == old(self).cached_ids(),
            (content.data@.len() <= old(self).config_view().max_content_size && find_cached(old(self).cached_ids(), content.id) is Some)
                ==> r is Ok && final(self).cached_ids() == old(self).cached_ids(),
            (content.data@.len() <= old(self).config_view().max_content_size && find_cached(old(self).cached_ids(), content.id) is None)
                ==> (r is Ok ==> analysis_kind(r->Ok_0, content.media_type)
                        && final(self).cached_ids() == old(self).cached_ids().push(content.id))
                && (r is Err ==> final(self).cached_ids() == old(self).cached_ids())
                && ((content.media_type == MediaType::Text || content.media_type == MediaType::Structured) ==> r is Ok && text_result(r->Ok_0, lossy_utf8(content.data@))),
            final(self).config_view() == old(self).config_view(),
    {
        if content.data.len() > self.config.max_content_size {
            return Err(MultimodalError::ContentTooLarge { size: content.data.len(), max: self.config.max_content_size });
        }
        match self.cached_index(&content.id) {
            Some(i) => {
                return Ok(self.cache[i].result.clone());
            },
            None => {},
        }
        let result = match content.media_type {
            MediaType::Image => match self.processor.analyze_image(content) {
                Ok(a) => AnalysisResult::Image(a),
                Err(e) => {
                    return Err(e);
                },
            },
            MediaType::Audio => match self.processor.analyze_audio(content) {
                Ok(a) => AnalysisResult::Audio(a),
                Err(e) => {
                    return Err(e);
                },
            },
            MediaType::Video => match self.processor.analyze_video(content) {
                Ok(a) => AnalysisResult::Video(a),
                Err(e) => {
                    return Err(e);
                },
            },
            MediaType::Document => match self.processor.analyze_document(content) {
                Ok(a) => AnalysisResult::Document(a),
                Err(e) => {
                    return Err(e);
                },
            },
            MediaType::Text | MediaType::Structured => AnalysisResult::Text(TextAnalysis {
                text: lossy_text(content.data.as_slice()),
                language: to_owned_string("en"),
                word_count: 0,
                sentiment: None,
            }),
        };
        let kept = result.clone();
        let ghost before = self.cache@;
        self.cache.push(CachedAnalysis { content_id: content.id, media_type: content.media_type, result: kept, created_at_millis: now_millis });
        proof {
            assert(self.cached_ids() =~= old(self).cached_ids().push(content.id)) by {
                assert(self.cache@.drop_last() == before);
            }
        }
        Ok(result)
    }

    /// `analyze_at` now.
    pub fn analyze(&mut self, content: &Content) -> (r: Result<AnalysisResult, MultimodalError>)
        ensures
            content.data@.len() > old(self).config_view().max_content_size ==> r == Err::<AnalysisResult, MultimodalError>(
                MultimodalError::ContentTooLarge { size: content.data@.len() as usize, max: old(self).config_view().max_content_size },
            ) && final(self).cached_ids() == old(self).cached_ids(),
            (content.data@.len() <= old(self).config_view().max_content_size && find_cached(old(self).cached_ids(), content.id) is Some)
                ==> r is Ok && final(self).cached_ids() == old(self).cached_ids(),
            (content.data@.len() <= old(self).config_view().max_content_size && find_cached(old(self).cached_ids(), content.id) is None)
                ==> (r is Ok ==> analysis_kind(r->Ok_0, content.media_type)
                        && final(self).cached_ids() == old(self).cached_ids().push(content.id))
                && (r is Err ==> final(self).cached_ids() == old(self).cached_ids())
                && ((content.media_type == MediaType::Text || content.media_type == MediaType::Structured) ==> r is Ok && text_result(r->Ok_0, lossy_utf8(content.data@))),
            final(self).config_view() == old(self).config_view(),
    {
        self.analyze_at(content, utc_now_millis())
    }

    /// The text of the analysis of `content`.
    pub fn extract_text(&mut self, content: &Content) -> (r: Result<String, MultimodalError>)
        ensures
            content.data@.len() > old(self).config_view().max_content_size ==> r == Err::<String, MultimodalError>(
                MultimodalError::ContentTooLarge { size: content.data@.len() as usize, max: old(self).config_view().max_content_size },
            ),
            (content.data@.len() <= old(self).config_view().max_content_size && find_cached(old(self).cached_ids(), content.id) is None
                && (content.media_type == MediaType::Text || content.media_type == MediaType::Structured))
                ==> r is Ok && r->Ok_0@ == lossy_utf8(content.data@),
            final(self).config_view() == old(self).config_view(),
    {
        match self.analyze(content) {
            Ok(a) => Ok(text_of_analysis(&a)),
            Err(e) => Err(e),
        }
    }

    /// The summary of the analysis of `content`.
    pub fn summarize(&mut self, content: &Content) -> (r: Result<String, MultimodalError>)
        ensures
            content.data@.len() > old(self).config_view().max_content_size ==> r == Err::<String, MultimodalError>(
                MultimodalError::ContentTooLarge { size: content.data@.len() as usize, max: old(self).config_view().max_content_size },
            ),
            (content.data@.len() <= old(self).config_view().max_content_size && find_cached(old(self).cached_ids(), content.id) is None
                && (content.media_type == MediaType::Text || content.media_type == MediaType::Structured))
                ==> r is Ok && r->Ok_0@ == head200(lossy_utf8(content.data@)),
            final(self).config_view() == old(self).config_view(),
    {
        match self.analyze(content) {
            Ok(a) => Ok(summary_of_analysis(&a)),
            Err(e) => Err(e),
        }
    }

    /// Forget every analysis kept.
    pub fn clear_cache(&mut self)
        ensures
            final(self).cached_ids().len() == 0,
            final(self).config_view() == old(self).config_view(),
    {
        self.cache = Vec::new();
    }
}

proof fn lemma_first_cached(ids: Seq<uuid::Uuid>, id: uuid::Uuid, i: int)
    requires
        0 <= i < ids.len(),
        ids[i] == id,
        forall|j: int| 0 <= j < i ==> ids[j] != id,
    ensures
        find_cached(ids, id) == Some(i),
    decreases ids.len(),
{
    if i < ids.len() - 1 {
        let t = ids.drop_last();
        assert(t[i] == id);
        assert forall|j: int| 0 <= j < i implies t[j] != id by {
            assert(t[j] == ids[j]);
        }
        lemma_first_cached(t, id, i);
    } else {
        lemma_find_cached(ids.drop_last(), id);
        if find_cached(ids.drop_last(), id) is Some {
            let k = find_cached(ids.drop_last(), id)->0;
            assert(ids.drop_last()[k] == ids[k]);
        }
    }
}

/// A processor that stands in for real models, with fixed answers.
pub struct MockProcessor;

fn sized_text(head: &str, n: usize, tail: &str) -> (r: String)
    ensures
        r@ == head@ + dec(n as nat) + tail@,
{
    let mut out = to_owned_string(head);
    push_decimal(&mut out, n);
    string_push_str(&mut out, tail);
    out
}

impl MultimodalProcessor for MockProcessor {
    fn analyze_image(&self, content: &Content) -> (r: Result<ImageAnalysis, MultimodalError>)
        ensures
            r is Ok,
            r->Ok_0.objects@.len() == 1,
            r->Ok_0.objects@[0].label@ == "test object"@,
            r->Ok_0.objects@[0].confidence_permille == 950,
            r->Ok_0.text@.len() == 0,
            r->Ok_0.description@ == "Image analysis of "@ + dec(content.data@.len()) + " bytes"@,
            r->Ok_0.faces@.len() == 0,
            r->Ok_0.colors@.len() == 1,
            r->Ok_0.colors@[0].hex@ == "#FF5733"@,
            r->Ok_0.colors@[0].rgb == (Rgb { r: 255, g: 87, b: 51 }),
            r->Ok_0.tags@.len() == 1,
            r->Ok_0.tags@[0]@ == "test"@,
            r->Ok_0.safety.safe_for_work,
            r->Ok_0.confidence_permille == 900,
    {
        Ok(ImageAnalysis {
            objects: vec![
                DetectedObject {
                    label: to_owned_string("test object"),
                    confidence_permille: 950,
                    bounding_box: BoundingBox { x_permille: 100, y_permille: 100, width_permille: 500, height_permille: 500 },
                },
            ],
            text: Vec::new(),
            description: sized_text("Image analysis of ", content.data.len(), " bytes"),
            faces: Vec::new(),
            colors: vec![
                Color {
                    hex: to_owned_string("#FF5733"),
                    rgb: Rgb { r: 255, g: 87, b: 51 },
                    percentage_permille: 300,
                    name: Some(to_owned_string("Orange")),
                },
            ],
            tags: vec![to_owned_string("test")],
            safety: SafetyAssessment::default(),
            confidence_permille: 900,
        })
    }

    fn analyze_audio(&self, content: &Content) -> (r: Result<AudioAnalysis, MultimodalError>)
        ensures
            r is Ok,
            r->Ok_0.transcription.text@ == "Mock transcription of audio content"@,
            r->Ok_0.transcription.language@ == "en"@,
            r->Ok_0.transcription.confidence_permille == 950,
            r->Ok_0.speakers@.len() == 1,
            r->Ok_0.speakers@[0].id@ == "speaker_1"@,
            r->Ok_0.speakers@[0].duration_ms == 10000,
            r->Ok_0.segments@.len() == 1,
            r->Ok_0.segments@[0].start_ms == 0,
            r->Ok_0.segments@[0].end_ms == 10000,
            r->Ok_0.segments@[0].segment_type@ == "speech"@,
            r->Ok_0.music is None,
            r->Ok_0.sentiment.overall@ == "neutral"@,
            r->Ok_0.sentiment.score_permille == 0,
    {
        Ok(AudioAnalysis {
            transcription: Transcription {
                text: to_owned_string("Mock transcription of audio content"),
                language: to_owned_string("en"),
                confidence_permille: 950,
                words: Vec::new(),
            },
            speakers: vec![
                Speaker {
                    id: to_owned_string("speaker_1"),
                    label: Some(to_owned_string("Speaker 1")),
                    duration_ms: 10000,
                    voice_profile: VoiceProfile { gender: None, age_range: None, qualities: Vec::new() },
                },
            ],
            segments: vec![
                AudioSegment {
                    start_ms: 0,
                    end_ms: 10000,
                    segment_type: to_owned_string("speech"),
                    speaker_id: Some(to_owned_string("speaker_1")),
                    text: Some(to_owned_string("Mock transcription")),
                },
            ],
            background: Vec::new(),
            music: None,
            sentiment: Sentiment { overall: to_owned_string("neutral"), score_permille: 0, emotions: Vec::new() },
        })
    }

    fn analyze_video(&self, content: &Content) -> (r: Result<VideoAnalysis, MultimodalError>)
        ensures
            r is Ok,
            r->Ok_0.duration_ms == 60000,
            r->Ok_0.frame_rate_milli == 30000,
            r->Ok_0.resolution == (Resolution { width: 1920, height: 1080 }),
            r->Ok_0.scenes@.len() == 1,
            r->Ok_0.scenes@[0].description@ == "Main scene"@,
            r->Ok_0.audio is None,
            r->Ok_0.summary@ == "Video analysis of "@ + dec(content.data@.len()) + " bytes"@,
    {
        Ok(VideoAnalysis {
            duration_ms: 60000,
            frame_rate_milli: 30000,
            resolution: Resolution { width: 1920, height: 1080 },
            key_frames: Vec::new(),
            scenes: vec![
                Scene {
                    start_ms: 0,
                    end_ms: 60000,
                    description: to_owned_string("Main scene"),
                    scene_type: Some(to_owned_string("general")),
                },
            ],
            audio: None,
            summary: sized_text("Video analysis of ", content.data.len(), " bytes"),
            activities: Vec::new(),
        })
    }

    fn analyze_document(&self, content: &Content) -> (r: Result<DocumentAnalysis, MultimodalError>)
        ensures
            r is Ok,
            r->Ok_0.document_type == DocumentType::Other,
            r->Ok_0.text@ == lossy_utf8(content.data@),
            r->Ok_0.structure.title matches Some(t) && t@ == "Mock Document"@,
            exists|n: nat| r->Ok_0.summary@ == "Document with "@ + dec(n) + " characters"@,
            r->Ok_0.language@ == "en"@,
    {
        let text = lossy_text(content.data.as_slice());
        let bytes = text.as_str().len();
        let summary = sized_text("Document with ", bytes, " characters");
        Ok(DocumentAnalysis {
            document_type: DocumentType::Other,
            text,
            structure: DocumentStructure {
                title: Some(to_owned_string("Mock Document")),
                authors: Vec::new(),
                date: None,
                sections: Vec::new(),
                toc: Vec::new(),
            },
            tables: Vec::new(),
            figures: Vec::new(),
            key_values: Vec::new(),
            summary,
            language: to_owned_string("en"),
        })
    }

    fn supported_types(&self) -> (r: Vec<MediaType>)
        ensures
            r@ == seq![MediaType::Image, MediaType::Audio, MediaType::Video, MediaType::Document],
    {
        let r = vec![MediaType::Image, MediaType::Audio, MediaType::Video, MediaType::Document];
        assert(r@ =~= seq![MediaType::Image, MediaType::Audio, MediaType::Video, MediaType::Document]);
        r
    }
}

} // verus!
