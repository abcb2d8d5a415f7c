use std::sync::Arc;

use stt::audio::{AudioProcessor, RecognizerSettings};
use stt::catalog::{available_models, select_model};
use stt::decoding::CompleteResult;
use stt::desktop::{loaded_model, SessionAudio, StartPlan, StopPlan, Stt};
use stt::error::Error;
use stt::models::{
    ListenConfig, PermissionStatus, PluginEvent, RecognitionResult, RecognitionState,
    RecognitionStatus, SttError, SttErrorCode, FULL_CONFIDENCE,
};

type Plugin = Stt<&'static str, u8>;

fn config(continuous: bool, max_duration: u32) -> ListenConfig {
    ListenConfig {
        language: Some("de-DE".to_string()),
        interim_results: true,
        continuous,
        max_duration,
        ..ListenConfig::default()
    }
}

fn opened() -> SessionAudio<u8> {
    SessionAudio::Opened(AudioProcessor::new(1, true, 16_000))
}

fn listening(continuous: bool) -> Plugin {
    let mut stt = Plugin::new();
    stt.begin_session(&config(continuous, 0), 0, opened());
    stt
}

fn state(state: RecognitionState, language: Option<&str>) -> PluginEvent {
    PluginEvent::StateChange(RecognitionStatus {
        state,
        is_available: true,
        language: language.map(|l| l.to_string()),
    })
}

fn final_result(text: &str) -> RecognitionResult {
    RecognitionResult {
        transcript: text.to_string(),
        is_final: true,
        confidence: Some(FULL_CONFIDENCE),
    }
}

fn single(text: &str) -> CompleteResult {
    CompleteResult::Single(text.to_string())
}

#[test]
fn models_are_loaded_once() {
    let german = select_model(Some("de"), None);
    let french = select_model(Some("fr"), None);
    let mut stt = Plugin::new();
    assert!(stt.ensure_model(&german).is_none());
    let model = Arc::new("german");
    stt.model_loaded(&german, model.clone(), None);
    assert!(Arc::ptr_eq(&stt.ensure_model(&german).unwrap(), &model));
    assert!(stt.ensure_model(&french).is_none());
    assert!(stt.ensure_model(&german).is_none());
}

#[test]
fn new_model_takes_over_the_stream() {
    let mut stt = Plugin::new();
    assert_eq!(stt.replacement_settings(), None);
    stt.begin_session(&config(true, 0), 0, opened());
    stt.on_audio(&[1; 100]);
    assert_eq!(
        stt.replacement_settings(),
        Some(RecognizerSettings { sample_rate: 16_000, max_alternatives: 1, partial_words: true })
    );
    stt.model_loaded(&select_model(None, None), Arc::new("english"), Some(7));
    assert_eq!(*stt.processor_mut().unwrap().recognizer_mut(), 7);
    assert_eq!(stt.stop_listening(), StopPlan::Flush(None));
}

#[test]
fn first_session_opens_a_stream() {
    let mut stt = Plugin::new();
    assert_eq!(stt.start_listening(), Ok(StartPlan::OpenStream));
    assert!(stt.processor_mut().is_none());
    assert_eq!(stt.next_session(), Some(1));
    let start = stt.begin_session(&config(false, 2500), 17, opened());
    assert_eq!(start.session, 1);
    assert_eq!(stt.next_session(), Some(2));
    assert_eq!(start.time_limit, Some(2500));
    assert_eq!(start.events, vec![state(RecognitionState::Listening, Some("de-DE"))]);
    assert_eq!(
        stt.start_listening(),
        Err(Error::Recording("Already listening".to_string()))
    );
}

#[test]
fn later_sessions_reuse_the_stream() {
    let mut stt = listening(true);
    stt.on_audio(&[1; 100]);
    stt.on_partial("left over".to_string());
    stt.timer_expired(1);
    assert_eq!(stt.start_listening(), Ok(StartPlan::ReuseStream));
    let start = stt.begin_session(&config(true, 0), 5, SessionAudio::Reused(Some(2)));
    assert_eq!(start.session, 2);
    assert_eq!(start.time_limit, None);
    assert_eq!(*stt.processor_mut().unwrap().recognizer_mut(), 2);
    assert_eq!(stt.on_partial("left over".to_string()).len(), 1);
    assert_eq!(stt.stop_listening(), StopPlan::Flush(None));
}

#[test]
fn audio_outside_sessions_is_dropped() {
    let mut stt = Plugin::new();
    assert_eq!(stt.on_audio(&[1; 5000]), None);
    let mut stt = listening(true);
    stt.timer_expired(1);
    assert_eq!(stt.on_audio(&[1; 5000]), None);
    stt.begin_session(&config(true, 0), 0, SessionAudio::Reused(None));
    assert_eq!(stt.on_audio(&[2; 3199]), None);
    let audio = stt.on_audio(&[3]).unwrap();
    assert_eq!(audio.len(), 3200);
    assert!(audio[..3199].iter().all(|&s| s == 2));
}

#[test]
fn continuous_session_goes_on_after_a_result() {
    let mut stt = listening(true);
    assert_eq!(
        stt.on_complete(single("hello")),
        vec![PluginEvent::Result(final_result("hello"))]
    );
    assert_eq!(stt.on_complete(single("")), Vec::new());
    assert!(stt.start_listening().is_err());
}

#[test]
fn session_stops_after_its_first_result() {
    let mut stt = listening(false);
    assert_eq!(stt.on_complete(CompleteResult::Multiple(Vec::new())), Vec::new());
    assert!(stt.start_listening().is_err());
    assert_eq!(
        stt.on_complete(single("hello")),
        vec![PluginEvent::Result(final_result("hello")), state(RecognitionState::Idle, None)]
    );
    assert_eq!(stt.start_listening(), Ok(StartPlan::ReuseStream));
    assert_eq!(stt.on_complete(single("late")), Vec::new());
    assert_eq!(stt.on_partial("late".to_string()), Vec::new());
}

#[test]
fn hypotheses_reach_the_webview_once() {
    let mut stt = listening(true);
    let event = PluginEvent::Result(RecognitionResult {
        transcript: "he".to_string(),
        is_final: false,
        confidence: None,
    });
    assert_eq!(stt.on_partial("he".to_string()), vec![event]);
    assert_eq!(stt.on_partial("he".to_string()), Vec::new());
    assert_eq!(stt.on_partial(String::new()), Vec::new());
}

#[test]
fn stop_flushes_what_is_left() {
    let mut stt = listening(true);
    stt.on_audio(&[4; 10]);
    assert_eq!(stt.stop_listening(), StopPlan::Flush(Some(vec![4; 10])));
    let (result, events) = stt.finish_stop(single("the end"));
    assert_eq!(result, Some(final_result("the end")));
    assert_eq!(
        events,
        vec![PluginEvent::Result(final_result("the end")), state(RecognitionState::Idle, None)]
    );
    assert_eq!(stt.stop_listening(), StopPlan::NotListening);
}

#[test]
fn stop_without_words_has_no_result() {
    let mut stt = listening(true);
    assert_eq!(stt.stop_listening(), StopPlan::Flush(None));
    let (result, events) = stt.finish_stop(single(""));
    assert_eq!(result, None);
    assert_eq!(events, vec![state(RecognitionState::Idle, None)]);
}

#[test]
fn stopping_nothing_does_nothing() {
    assert_eq!(Plugin::new().stop_listening(), StopPlan::NotListening);
}

#[test]
fn timer_stops_its_session() {
    let mut stt = listening(true);
    assert_eq!(
        stt.timer_expired(1),
        vec![
            state(RecognitionState::Idle, None),
            PluginEvent::Error(SttError {
                code: SttErrorCode::Timeout,
                message: "Maximum duration reached".to_string(),
                details: None,
            })
        ]
    );
    assert_eq!(stt.timer_expired(1), Vec::new());
}

#[test]
fn old_timer_spares_later_sessions() {
    let mut stt = listening(true);
    stt.stop_listening();
    stt.finish_stop(single(""));
    let start = stt.begin_session(&config(true, 0), 9, SessionAudio::Reused(None));
    assert_eq!(start.session, 2);
    assert_eq!(stt.timer_expired(1), Vec::new());
    assert_eq!(stt.timer_expired(0), Vec::new());
    assert!(stt.start_listening().is_err());
    assert_eq!(stt.timer_expired(2).len(), 2);
}

#[test]
fn availability_follows_the_input_device() {
    let stt = Plugin::new();
    let yes = stt.is_available(true).unwrap();
    assert!(yes.available);
    assert_eq!(yes.reason, None);
    let no = stt.is_available(false).unwrap();
    assert!(!no.available);
    assert_eq!(no.reason, Some("No input audio device available".to_string()));
}

#[test]
fn permissions_are_granted() {
    let stt = Plugin::new();
    for response in [stt.check_permission(), stt.request_permission()] {
        let response = response.unwrap();
        assert_eq!(response.microphone, PermissionStatus::Granted);
        assert_eq!(response.speech_recognition, PermissionStatus::Granted);
    }
    assert_eq!(stt.request_authorization(), Ok(true));
}

#[test]
fn status_goes_by_the_marker() {
    let stt = Plugin::new();
    let md5 = select_model(Some("de"), None).md5.to_string();
    let installed = stt.status("de-AT", &Some(md5.clone()));
    assert!(installed.available && installed.model_installed && installed.needs_model_download);
    assert_eq!(installed.reason, None);
    assert!(!stt.status("de-AT", &None).model_installed);
    assert!(!stt.status("fr", &Some(md5.clone())).model_installed);
    assert!(!stt.status("nl", &Some(md5)).model_installed);
}

#[test]
fn languages_come_in_the_order_of_the_catalog() {
    let stt = Plugin::new();
    let recorded: Vec<Option<String>> =
        available_models().iter().map(|m| Some(m.md5.to_string())).collect();
    let response = stt.get_supported_languages(&recorded).unwrap();
    assert_eq!(response.languages.len(), 9);
    assert_eq!(response.languages[0].code, "en-US");
    assert!(response.languages.iter().all(|l| l.installed == Some(true)));
}

#[test]
fn model_is_loaded_or_the_reason_is_told() {
    assert_eq!(loaded_model(true, "\"/m\"", Some(3)), Ok(3));
    assert_eq!(
        loaded_model(true, "\"/m\"", None::<u8>),
        Err(Error::Recording("Failed to load Vosk model".to_string()))
    );
    assert_eq!(
        loaded_model(false, "\"/m\"", None::<u8>),
        Err(Error::NotAvailable("Vosk model not found at \"/m\"".to_string()))
    );
}

#[test]
fn results_of_a_session_are_proper() {
    let mut stt = listening(true);
    let mut results: Vec<RecognitionResult> = Vec::new();
    let mut tell = |events: Vec<PluginEvent>| {
        for event in events {
            if let PluginEvent::Result(result) = event {
                results.push(result);
            }
        }
    };
    for text in ["he", "he", "", "hello", "hello"] {
        tell(stt.on_partial(text.to_string()));
    }
    tell(stt.on_complete(single("")));
    tell(stt.on_partial("hello".to_string()));
    tell(stt.on_complete(single("hello")));
    tell(stt.on_partial("hello".to_string()));
    stt.stop_listening();
    tell(stt.finish_stop(single("bye")).1);
    tell(stt.on_partial("late".to_string()));

    let said: Vec<(&str, bool)> =
        results.iter().map(|r| (r.transcript.as_str(), r.is_final)).collect();
    assert_eq!(
        said,
        vec![("he", false), ("hello", false), ("hello", true), ("hello", false), ("bye", true)]
    );
    for result in &results {
        assert_eq!(result.confidence, if result.is_final { Some(FULL_CONFIDENCE) } else { None });
    }
}

#[test]
fn stream_is_kept_through_everything() {
    let mut stt = listening(true);
    stt.stop_listening();
    stt.finish_stop(single(""));
    assert_eq!(stt.start_listening(), Ok(StartPlan::ReuseStream));
    stt.ensure_model(&select_model(Some("fr"), None));
    stt.model_loaded(&select_model(Some("fr"), None), Arc::new("french"), Some(3));
    assert_eq!(stt.start_listening(), Ok(StartPlan::ReuseStream));
    stt.begin_session(&config(true, 0), 0, SessionAudio::Reused(None));
    stt.timer_expired(2);
    assert_eq!(stt.start_listening(), Ok(StartPlan::ReuseStream));
}
