//! The values that cross the plugin's boundary: configurations, results,
//! states, permissions, error codes and the events a webview can listen to.

use vstd::prelude::*;

verus! {

/// Language code for speech recognition (e.g., "en-US", "pt-BR", "ja-JP").
pub type LanguageCode = String;

/// The characters of an optional text.
pub open spec fn opt_text(s: Option<String>) -> Option<Seq<char>> {
    match s {
        Some(t) => Some(t@),
        None => None,
    }
}

/// A copy of an optional text.
pub fn clone_opt_text(s: &Option<String>) -> (r: Option<String>)
    ensures
        opt_text(r) == opt_text(*s),
{
    match s {
        Some(t) => Some(t.clone()),
        None => None,
    }
}

/// Configuration for starting speech recognition.
#[derive(Debug, Clone)]
pub struct ListenConfig {
    /// Language code for recognition (e.g., "en-US", "pt-BR").
    /// If not specified, uses device default language.
    pub language: Option<LanguageCode>,
    /// Whether to return interim (partial) results.
    pub interim_results: bool,
    /// Whether to continue listening after getting a result.
    /// If false, stops after first final result.
    pub continuous: bool,
    /// Maximum duration to listen in milliseconds (0 = no limit).
    pub max_duration: u32,
    /// Maximum number of alternative transcriptions.
    pub max_alternatives: Option<u32>,
    /// Use on-device recognition only (iOS 13+, no network required).
    /// When true, recognition works offline but may be less accurate.
    pub on_device: bool,
}

impl Default for ListenConfig {
    fn default() -> (config: Self)
        ensures
            config.language is None,
            !config.interim_results,
            !config.continuous,
            config.max_duration == 0,
            config.max_alternatives is None,
            !config.on_device,
    {
        ListenConfig {
            language: None,
            interim_results: false,
            continuous: false,
            max_duration: 0,
            max_alternatives: None,
            on_device: false,
        }
    }
}

/// Configuration for stopping speech recognition.
#[derive(Debug, Clone, Copy)]
pub struct StopListeningConfig {
    /// How long to keep recording before the session is finalized, in
    /// milliseconds (0 = stop at once).
    pub post_roll_ms: u32,
}

/// Recognition state.
#[derive(Debug, Clone, Copy, PartialEq, Eq, Structural)]
pub enum RecognitionState {
    /// Not currently listening.
    Idle,
    /// Actively listening for speech.
    Listening,
    /// Processing audio (may briefly occur between utterances).
    Processing,
}

impl Default for RecognitionState {
    fn default() -> (state: Self)
        ensures
            state == RecognitionState::Idle,
    {
        RecognitionState::Idle
    }
}

/// The bit pattern of the `f32` value 1.0: full confidence.
pub const FULL_CONFIDENCE: u32 = 0x3f80_0000;

/// A speech recognition result.
#[derive(Debug, Clone, PartialEq, Eq)]
pub struct RecognitionResult {
    /// The recognized text.
    pub transcript: String,
    /// Whether this is a final result (vs interim/partial).
    pub is_final: bool,
    /// Confidence score (0.0 to 1.0), if available, as the bit pattern of
    /// an `f32`.
    pub confidence: Option<u32>,
}

/// A [`RecognitionResult`] with its transcript as a sequence of characters.
pub struct RecognitionResultView {
    pub transcript: Seq<char>,
    pub is_final: bool,
    pub confidence: Option<u32>,
}

impl View for RecognitionResult {
    type V = RecognitionResultView;

    open spec fn view(&self) -> RecognitionResultView {
        RecognitionResultView {
            transcript: self.transcript@,
            is_final: self.is_final,
            confidence: self.confidence,
        }
    }
}

/// The result that commits `text`.
pub open spec fn final_result_of(text: Seq<char>) -> RecognitionResultView {
    RecognitionResultView { transcript: text, is_final: true, confidence: Some(FULL_CONFIDENCE) }
}

/// The result that reports `text` as a hypothesis.
pub open spec fn interim_result_of(text: Seq<char>) -> RecognitionResultView {
    RecognitionResultView { transcript: text, is_final: false, confidence: None }
}

/// Current status of speech recognition.
#[derive(Debug, Clone, PartialEq, Eq)]
pub struct RecognitionStatus {
    /// Current state.
    pub state: RecognitionState,
    /// Whether STT is available on this device.
    pub is_available: bool,
    /// Current language being used.
    pub language: Option<LanguageCode>,
}

/// A [`RecognitionStatus`] with its language as a sequence of characters.
pub struct RecognitionStatusView {
    pub state: RecognitionState,
    pub is_available: bool,
    pub language: Option<Seq<char>>,
}

impl View for RecognitionStatus {
    type V = RecognitionStatusView;

    open spec fn view(&self) -> RecognitionStatusView {
        RecognitionStatusView {
            state: self.state,
            is_available: self.is_available,
            language: opt_text(self.language),
        }
    }
}

/// Supported language information.
#[derive(Debug, Clone, PartialEq, Eq)]
pub struct SupportedLanguage {
    /// Language code (e.g., "en-US").
    pub code: LanguageCode,
    /// Human-readable name (e.g., "English (United States)").
    pub name: String,
    /// Whether the model for this language is installed locally (desktop only).
    pub installed: Option<bool>,
}

/// Permission status.
#[derive(Debug, Clone, Copy, PartialEq, Eq, Structural)]
pub enum PermissionStatus {
    /// Permission has been granted.
    Granted,
    /// Permission has been denied.
    Denied,
    /// Permission hasn't been requested yet.
    Unknown,
}

/// Response for permission check.
#[derive(Debug, Clone, Copy, PartialEq, Eq, Structural)]
pub struct PermissionResponse {
    /// Microphone permission status.
    pub microphone: PermissionStatus,
    /// Speech recognition permission status (iOS/macOS specific).
    pub speech_recognition: PermissionStatus,
}

/// Response for availability check.
#[derive(Debug, Clone, PartialEq, Eq)]
pub struct AvailabilityResponse {
    /// Whether STT is available.
    pub available: bool,
    /// Reason if not available.
    pub reason: Option<String>,
}

/// Response for supported languages.
#[derive(Debug, Clone, PartialEq, Eq)]
pub struct SupportedLanguagesResponse {
    /// List of supported languages.
    pub languages: Vec<SupportedLanguage>,
}

/// Unified error codes for cross-platform consistency.
#[derive(Debug, Clone, Copy, PartialEq, Eq, Structural)]
pub enum SttErrorCode {
    /// No error.
    NoError,
    /// Speech recognition service not available.
    NotAvailable,
    /// Microphone permission denied.
    PermissionDenied,
    /// Speech recognition permission denied (iOS).
    SpeechPermissionDenied,
    /// Network error (server-based recognition).
    NetworkError,
    /// Audio recording error.
    AudioError,
    /// Recognition timed out (maxDuration reached).
    Timeout,
    /// No speech detected.
    NoSpeech,
    /// Language not supported.
    LanguageNotSupported,
    /// Recognition was cancelled.
    Cancelled,
    /// Already listening.
    AlreadyListening,
    /// Not currently listening.
    NotListening,
    /// Service busy.
    Busy,
    /// Unknown error.
    Unknown,
}

impl Default for SttErrorCode {
    fn default() -> (code: Self)
        ensures
            code == SttErrorCode::NoError,
    {
        SttErrorCode::NoError
    }
}

impl SttErrorCode {
    /// The description of each error.
    pub open spec fn description_text(self) -> Seq<char> {
        match self {
            SttErrorCode::NoError => "No error"@,
            SttErrorCode::NotAvailable => "Speech recognition is not available on this device"@,
            SttErrorCode::PermissionDenied => "Microphone permission was denied"@,
            SttErrorCode::SpeechPermissionDenied => "Speech recognition permission was denied"@,
            SttErrorCode::NetworkError => "Network error during recognition"@,
            SttErrorCode::AudioError => "Error accessing audio input"@,
            SttErrorCode::Timeout => "Recognition timed out"@,
            SttErrorCode::NoSpeech => "No speech was detected"@,
            SttErrorCode::LanguageNotSupported => "The requested language is not supported"@,
            SttErrorCode::Cancelled => "Recognition was cancelled"@,
            SttErrorCode::AlreadyListening => "Already listening for speech"@,
            SttErrorCode::NotListening => "Not currently listening"@,
            SttErrorCode::Busy => "Speech recognition service is busy"@,
            SttErrorCode::Unknown => "An unknown error occurred"@,
        }
    }

    /// The number of each error.
    pub open spec fn number(self) -> int {
        match self {
            SttErrorCode::NoError => 0,
            SttErrorCode::NotAvailable => -1,
            SttErrorCode::PermissionDenied => -2,
            SttErrorCode::SpeechPermissionDenied => -3,
            SttErrorCode::NetworkError => -4,
            SttErrorCode::AudioError => -5,
            SttErrorCode::Timeout => -6,
            SttErrorCode::NoSpeech => -7,
            SttErrorCode::LanguageNotSupported => -8,
            SttErrorCode::Cancelled => -9,
            SttErrorCode::AlreadyListening => -10,
            SttErrorCode::NotListening => -11,
            SttErrorCode::Busy => -12,
            SttErrorCode::Unknown => -99,
        }
    }

    /// Get a human-readable description of the error.
    pub fn description(&self) -> (text: &'static str)
        ensures
            text@ == self.description_text(),
    {
        match self {
            SttErrorCode::NoError => "No error",
            SttErrorCode::NotAvailable => "Speech recognition is not available on this device",
            SttErrorCode::PermissionDenied => "Microphone permission was denied",
            SttErrorCode::SpeechPermissionDenied => "Speech recognition permission was denied",
            SttErrorCode::NetworkError => "Network error during recognition",
            SttErrorCode::AudioError => "Error accessing audio input",
            SttErrorCode::Timeout => "Recognition timed out",
            SttErrorCode::NoSpeech => "No speech was detected",
            SttErrorCode::LanguageNotSupported => "The requested language is not supported",
            SttErrorCode::Cancelled => "Recognition was cancelled",
            SttErrorCode::AlreadyListening => "Already listening for speech",
            SttErrorCode::NotListening => "Not currently listening",
            SttErrorCode::Busy => "Speech recognition service is busy",
            SttErrorCode::Unknown => "An unknown error occurred",
        }
    }

    /// Get the numeric code for this error.
    pub fn code(&self) -> (n: i32)
        ensures
            n == self.number(),
    {
        match self {
            SttErrorCode::NoError => 0,
            SttErrorCode::NotAvailable => -1,
            SttErrorCode::PermissionDenied => -2,
            SttErrorCode::SpeechPermissionDenied => -3,
            SttErrorCode::NetworkError => -4,
            SttErrorCode::AudioError => -5,
            SttErrorCode::Timeout => -6,
            SttErrorCode::NoSpeech => -7,
            SttErrorCode::LanguageNotSupported => -8,
            SttErrorCode::Cancelled => -9,
            SttErrorCode::AlreadyListening => -10,
            SttErrorCode::NotListening => -11,
            SttErrorCode::Busy => -12,
            SttErrorCode::Unknown => -99,
        }
    }
}

/// The number of an error tells it apart from every other: no two errors
/// share one, zero stands for "no error" alone, and all the rest are negative.
pub proof fn law_error_numbers_are_distinct(a: SttErrorCode, b: SttErrorCode)
    ensures
        a.number() == b.number() <==> a == b,
        a.number() == 0 <==> a == SttErrorCode::NoError,
        a.number() <= 0,
{
}

/// Structured error event for frontend consumption.
#[derive(Debug, Clone, PartialEq, Eq)]
pub struct SttError {
    /// Error code for programmatic handling.
    pub code: SttErrorCode,
    /// Human-readable error message.
    pub message: String,
    /// Platform-specific error details (optional).
    pub details: Option<String>,
}

/// An [`SttError`] with its texts as sequences of characters.
pub struct SttErrorView {
    pub code: SttErrorCode,
    pub message: Seq<char>,
    pub details: Option<Seq<char>>,
}

impl View for SttError {
    type V = SttErrorView;

    open spec fn view(&self) -> SttErrorView {
        SttErrorView {
            code: self.code,
            message: self.message@,
            details: opt_text(self.details),
        }
    }
}

/// The channel that download progress is sent on.
pub const DOWNLOAD_PROGRESS_CHANNEL: &'static str = "stt://download-progress";

/// How far the installation of a model has come.
#[derive(Debug, Clone, PartialEq, Eq)]
pub struct DownloadProgress {
    /// The phase: "downloading", "verifying", "extracting" or "complete".
    pub status: &'static str,
    /// The name of the model.
    pub model: &'static str,
    /// Percentage over all phases.
    pub progress: u8,
}

/// A [`DownloadProgress`] with its texts as sequences of characters.
pub struct DownloadProgressView {
    pub status: Seq<char>,
    pub model: Seq<char>,
    pub progress: u8,
}

impl View for DownloadProgress {
    type V = DownloadProgressView;

    open spec fn view(&self) -> DownloadProgressView {
        DownloadProgressView {
            status: self.status@,
            model: self.model@,
            progress: self.progress,
        }
    }
}

/// What the plugin tells the webview.
#[derive(Debug, Clone, PartialEq, Eq)]
pub enum PluginEvent {
    /// A recognition result.
    Result(RecognitionResult),
    /// The recognition state changed.
    StateChange(RecognitionStatus),
    /// Something went wrong.
    Error(SttError),
}

/// A [`PluginEvent`] over the views of its payloads.
pub enum PluginEventView {
    Result(RecognitionResultView),
    StateChange(RecognitionStatusView),
    Error(SttErrorView),
}

impl View for PluginEvent {
    type V = PluginEventView;

    open spec fn view(&self) -> PluginEventView {
        match self {
            PluginEvent::Result(r) => PluginEventView::Result(r@),
            PluginEvent::StateChange(s) => PluginEventView::StateChange(s@),
            PluginEvent::Error(e) => PluginEventView::Error(e@),
        }
    }
}

/// The views of a list of events, in order.
pub open spec fn event_views(events: Seq<PluginEvent>) -> Seq<PluginEventView> {
    events.map_values(|e: PluginEvent| e@)
}

impl PluginEventView {
    /// The channels an event is sent on: the documented `stt://` channel
    /// first, then the plugin listener's channel where there is one.
    pub open spec fn channel_names(self) -> Seq<Seq<char>> {
        match self {
            PluginEventView::Result(_) => seq!["stt://result"@, "plugin:stt:result"@],
            PluginEventView::StateChange(_) => seq![
                "stt://state-change"@,
                "plugin:stt:stateChange"@,
            ],
            PluginEventView::Error(_) => seq!["stt://error"@],
        }
    }
}

impl PluginEvent {
    /// The names of the channels to send this event on, in order.
    pub fn channels(&self) -> (names: Vec<&'static str>)
        ensures
            names@.map_values(|n: &str| n@) == self@.channel_names(),
    {
        let names: Vec<&'static str> = match self {
            PluginEvent::Result(_) => vec!["stt://result", "plugin:stt:result"],
            PluginEvent::StateChange(_) => vec!["stt://state-change", "plugin:stt:stateChange"],
            PluginEvent::Error(_) => vec!["stt://error"],
        };
        assert(names@.map_values(|n: &str| n@) =~= self@.channel_names());
        names
    }
}

/// A result carries its text unchanged. One that commits a text is final, with
/// the confidence whose bits are those of 1.0; a hypothesis is not, and has
/// none.
pub proof fn law_result_carries_its_text(text: Seq<char>)
    ensures
        final_result_of(text).transcript == text,
        final_result_of(text).is_final,
        final_result_of(text).confidence == Some(0x3f80_0000u32),
        interim_result_of(text).transcript == text,
        !interim_result_of(text).is_final,
        interim_result_of(text).confidence is None,
{
}

/// Every event of one kind goes out on the same channels, whatever it holds.
pub proof fn law_channels_of_events(
    result: RecognitionResultView,
    status: RecognitionStatusView,
    error: SttErrorView,
)
    ensures
        PluginEventView::Result(result).channel_names() == seq![
            "stt://result"@,
            "plugin:stt:result"@,
        ],
        PluginEventView::StateChange(status).channel_names() == seq![
            "stt://state-change"@,
            "plugin:stt:stateChange"@,
        ],
        PluginEventView::Error(error).channel_names() == seq!["stt://error"@],
{
}

/// A view tells each thing that a value holds, and as it is.
pub proof fn law_views_tell_what_values_hold(
    result: RecognitionResult,
    status: RecognitionStatus,
    error: SttError,
    progress: DownloadProgress,
)
    ensures
        result@.transcript == result.transcript@,
        result@.is_final == result.is_final,
        result@.confidence == result.confidence,
        status@.state == status.state,
        status@.is_available == status.is_available,
        status.language is None ==> status@.language is None,
        status.language matches Some(language) ==> status@.language == Some(language@),
        error@.code == error.code,
        error@.message == error.message@,
        error.details is None ==> error@.details is None,
        error.details matches Some(details) ==> error@.details == Some(details@),
        progress@.status == progress.status@,
        progress@.model == progress.model@,
        progress@.progress == progress.progress,
        PluginEvent::Result(result)@ == PluginEventView::Result(result@),
        PluginEvent::StateChange(status)@ == PluginEventView::StateChange(status@),
        PluginEvent::Error(error)@ == PluginEventView::Error(error@),
{
}

/// The events that are told are those that there are, one for one.
pub proof fn law_every_event_is_told(events: Seq<PluginEvent>, i: int)
    requires
        0 <= i < events.len(),
    ensures
        event_views(events).len() == events.len(),
        event_views(events)[i] == events[i]@,
{
}

/// What each error is told as.
pub proof fn law_errors_are_described(e: SttErrorCode)
    ensures
        e.number() == 0 ==> e.description_text() == "No error"@,
        e.number() == -1 ==> e.description_text()
            == "Speech recognition is not available on this device"@,
        e.number() == -2 ==> e.description_text() == "Microphone permission was denied"@,
        e.number() == -3 ==> e.description_text() == "Speech recognition permission was denied"@,
        e.number() == -4 ==> e.description_text() == "Network error during recognition"@,
        e.number() == -5 ==> e.description_text() == "Error accessing audio input"@,
        e.number() == -6 ==> e.description_text() == "Recognition timed out"@,
        e.number() == -7 ==> e.description_text() == "No speech was detected"@,
        e.number() == -8 ==> e.description_text() == "The requested language is not supported"@,
        e.number() == -9 ==> e.description_text() == "Recognition was cancelled"@,
        e.number() == -10 ==> e.description_text() == "Already listening for speech"@,
        e.number() == -11 ==> e.description_text() == "Not currently listening"@,
        e.number() == -12 ==> e.description_text() == "Speech recognition service is busy"@,
        e.number() == -99 ==> e.description_text() == "An unknown error occurred"@,
        -12 <= e.number() <= 0 || e.number() == -99,
{
}

/// The number of each error: the errors are numbered downwards in order, and
/// an unknown one stands apart.
pub proof fn law_errors_are_numbered()
    ensures
        SttErrorCode::NoError.number() == 0,
        SttErrorCode::NotAvailable.number() == -1,
        SttErrorCode::PermissionDenied.number() == -2,
        SttErrorCode::SpeechPermissionDenied.number() == -3,
        SttErrorCode::NetworkError.number() == -4,
        SttErrorCode::AudioError.number() == -5,
        SttErrorCode::Timeout.number() == -6,
        SttErrorCode::NoSpeech.number() == -7,
        SttErrorCode::LanguageNotSupported.number() == -8,
        SttErrorCode::Cancelled.number() == -9,
        SttErrorCode::AlreadyListening.number() == -10,
        SttErrorCode::NotListening.number() == -11,
        SttErrorCode::Busy.number() == -12,
        SttErrorCode::Unknown.number() == -99,
{
}

/// The channel of download progress is none of the events' channels.
pub proof fn law_progress_has_its_own_channel(event: PluginEventView)
    ensures
        DOWNLOAD_PROGRESS_CHANNEL@ == "stt://download-progress"@,
        !event.channel_names().contains(DOWNLOAD_PROGRESS_CHANNEL@),
{
    reveal_strlit("stt://download-progress");
    reveal_strlit("stt://result");
    reveal_strlit("plugin:stt:result");
    reveal_strlit("stt://state-change");
    reveal_strlit("plugin:stt:stateChange");
    reveal_strlit("stt://error");
    let channel = "stt://download-progress"@;
    assert(channel.len() == 23);
    let names = event.channel_names();
    assert forall|i: int| 0 <= i < names.len() implies names[i] != channel by {
        assert(names[i].len() != 23);
    }
}

} // verus!
