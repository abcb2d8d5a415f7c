use stt::models::{
    clone_opt_text, DownloadProgress, ListenConfig, PermissionStatus, PluginEvent,
    RecognitionResult, RecognitionState, RecognitionStatus, SttError, SttErrorCode,
    DOWNLOAD_PROGRESS_CHANNEL, FULL_CONFIDENCE,
};

const ALL_CODES: [(SttErrorCode, i32, &str); 14] = [
    (SttErrorCode::NoError, 0, "No error"),
    (SttErrorCode::NotAvailable, -1, "Speech recognition is not available on this device"),
    (SttErrorCode::PermissionDenied, -2, "Microphone permission was denied"),
    (SttErrorCode::SpeechPermissionDenied, -3, "Speech recognition permission was denied"),
    (SttErrorCode::NetworkError, -4, "Network error during recognition"),
    (SttErrorCode::AudioError, -5, "Error accessing audio input"),
    (SttErrorCode::Timeout, -6, "Recognition timed out"),
    (SttErrorCode::NoSpeech, -7, "No speech was detected"),
    (SttErrorCode::LanguageNotSupported, -8, "The requested language is not supported"),
    (SttErrorCode::Cancelled, -9, "Recognition was cancelled"),
    (SttErrorCode::AlreadyListening, -10, "Already listening for speech"),
    (SttErrorCode::NotListening, -11, "Not currently listening"),
    (SttErrorCode::Busy, -12, "Speech recognition service is busy"),
    (SttErrorCode::Unknown, -99, "An unknown error occurred"),
];

#[test]
fn error_codes_are_stable() {
    for (code, number, description) in ALL_CODES {
        assert_eq!(code.code(), number);
        assert_eq!(code.description(), description);
    }
}

#[test]
fn error_numbers_tell_errors_apart() {
    for (i, (a, _, _)) in ALL_CODES.iter().enumerate() {
        for (j, (b, _, _)) in ALL_CODES.iter().enumerate() {
            assert_eq!(a.code() == b.code(), i == j);
        }
    }
}

#[test]
fn listen_config_defaults_ask_for_nothing() {
    let config = ListenConfig::default();
    assert!(config.language.is_none());
    assert!(!config.interim_results);
    assert!(!config.continuous);
    assert_eq!(config.max_duration, 0);
    assert_eq!(config.max_alternatives, None);
    assert!(!config.on_device);
}

#[test]
fn states_default_to_idle_and_no_error() {
    assert_eq!(RecognitionState::default(), RecognitionState::Idle);
    assert_eq!(SttErrorCode::default(), SttErrorCode::NoError);
    assert_ne!(PermissionStatus::Granted, PermissionStatus::Unknown);
}

#[test]
fn full_confidence_is_one() {
    assert_eq!(f32::from_bits(FULL_CONFIDENCE), 1.0);
}

#[test]
fn events_go_out_on_their_channels() {
    let result = PluginEvent::Result(RecognitionResult {
        transcript: "hello".to_string(),
        is_final: true,
        confidence: Some(FULL_CONFIDENCE),
    });
    assert_eq!(result.channels(), vec!["stt://result", "plugin:stt:result"]);

    let state = PluginEvent::StateChange(RecognitionStatus {
        state: RecognitionState::Idle,
        is_available: true,
        language: None,
    });
    assert_eq!(state.channels(), vec!["stt://state-change", "plugin:stt:stateChange"]);

    let error = PluginEvent::Error(SttError {
        code: SttErrorCode::Timeout,
        message: "too long".to_string(),
        details: None,
    });
    assert_eq!(error.channels(), vec!["stt://error"]);

    assert_eq!(DOWNLOAD_PROGRESS_CHANNEL, "stt://download-progress");
}

#[test]
fn optional_texts_are_copied() {
    assert_eq!(clone_opt_text(&None), None);
    assert_eq!(clone_opt_text(&Some("pt-BR".to_string())), Some("pt-BR".to_string()));
}

#[test]
fn progress_compares_by_content() {
    let a = DownloadProgress { status: "verifying", model: "m", progress: 45 };
    assert_eq!(a, a.clone());
    assert_ne!(a, DownloadProgress { progress: 46, ..a.clone() });
}
