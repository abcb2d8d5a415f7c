use std::sync::Arc;

use stt::error::Error;
use stt::ios_stream::{
    describe_start_error, is_authorized, status, widen_language, SessionRegistry, StreamCommand,
    AUTH_AUTHORIZED, AUTH_UNDETERMINED,
};
use stt::recognizer::{RecognizerConfig, RecognizerEvent};

fn config(language: &str) -> RecognizerConfig {
    RecognizerConfig {
        language: language.to_string(),
        sample_rate: 44_100,
        interim_results: true,
        on_device: false,
    }
}

#[test]
fn start_errors_are_described() {
    let expected = [
        (1, "Locale not supported by the speech recognizer"),
        (2, "Speech recognizer unavailable (offline or restricted)"),
        (3, "Speech recognition not authorized"),
        (4, "Unsupported audio format"),
        (5, "Session id already running"),
        (6, "Speech recognizer failed to start (code 6)"),
        (-17, "Speech recognizer failed to start (code -17)"),
        (i32::MIN, "Speech recognizer failed to start (code -2147483648)"),
    ];
    for (code, text) in expected {
        assert_eq!(describe_start_error(code), text);
    }
}

#[test]
fn bare_codes_are_widened() {
    let expected = [
        ("de", "de-DE"),
        ("en", "en-US"),
        ("fr", "fr-FR"),
        ("es", "es-ES"),
        ("it", "it-IT"),
        ("pt", "pt-BR"),
        ("nl", "nl-NL"),
        ("pl", "pl-PL"),
        ("ru", "ru-RU"),
        ("ja", "ja-JP"),
        ("ko", "ko-KR"),
        ("zh", "zh-CN"),
        ("ar", "ar-SA"),
        ("tr", "tr-TR"),
        ("EN", "en-US"),
        ("sv", "sv-SV"),
        ("Sv", "Sv-SV"),
        ("", "-"),
    ];
    for (code, tag) in expected {
        assert_eq!(widen_language(code), tag);
    }
}

#[test]
fn tags_with_region_pass_through() {
    for tag in ["de-AT", "pt_PT", "zh-Hans-CN", "-", "_"] {
        assert_eq!(widen_language(tag), tag);
    }
}

#[test]
fn widening_twice_is_widening_once() {
    for code in ["de", "EN", "sv", "", "x", "pt-BR", "pt_BR"] {
        let once = widen_language(code);
        assert_eq!(widen_language(&once), once);
    }
}

#[test]
fn sessions_are_numbered_from_one() {
    let mut registry: SessionRegistry<&str> = SessionRegistry::new();
    let first = registry.open(true, &config("de"), Arc::new("a")).unwrap();
    assert_eq!(first.id, 1);
    assert_eq!(first.locale, "de-DE");
    assert_eq!(first.sample_rate, 44_100);
    assert!(first.interim_results);
    assert!(!first.on_device);
    let second = registry.open(true, &config("fr"), Arc::new("b")).unwrap();
    assert_eq!(second.id, 2);
}

#[test]
fn session_is_refused_without_authorization() {
    let mut registry: SessionRegistry<&str> = SessionRegistry::new();
    assert_eq!(
        registry.open(false, &config("de"), Arc::new("a")),
        Err(Error::PermissionDenied("Speech recognition not authorized".to_string()))
    );
    assert_eq!(registry.open(true, &config("de"), Arc::new("a")).unwrap().id, 1);
}

#[test]
fn session_is_refused_for_a_tag_with_nul() {
    let mut registry: SessionRegistry<&str> = SessionRegistry::new();
    assert_eq!(
        registry.open(true, &config("d\0e"), Arc::new("a")),
        Err(Error::ConfigError("Invalid language tag".to_string()))
    );
    assert!(registry.callback_for(1).is_none());
    assert_eq!(registry.open(true, &config("de"), Arc::new("a")).unwrap().id, 2);
}

#[test]
fn events_reach_their_session() {
    let mut registry = SessionRegistry::new();
    let sink = Arc::new("a");
    let other = Arc::new("b");
    let a = registry.open(true, &config("de"), sink.clone()).unwrap().id;
    let b = registry.open(true, &config("de"), other.clone()).unwrap().id;
    let event = RecognizerEvent::Partial("hal".to_string());
    let delivery = registry.deliver(a, event.clone()).unwrap();
    assert!(Arc::ptr_eq(&delivery.callback, &sink));
    assert_eq!(delivery.event, event);
    assert!(Arc::ptr_eq(&registry.callback_for(b).unwrap(), &other));
    assert!(registry.deliver(7, event).is_none());
}

#[test]
fn late_reports_reach_nobody() {
    let mut registry = SessionRegistry::new();
    let a = registry.open(true, &config("de"), Arc::new("a")).unwrap().id;
    let b = registry.open(true, &config("de"), Arc::new("b")).unwrap().id;
    let last = registry.ended(a).unwrap();
    assert_eq!(*last.callback, "a");
    assert_eq!(last.event, RecognizerEvent::Ended);
    assert!(registry.ended(a).is_none());
    assert!(registry.deliver(a, RecognizerEvent::Final("x".to_string())).is_none());
    assert!(registry.callback_for(b).is_some());
    assert_eq!(registry.open(true, &config("de"), Arc::new("c")).unwrap().id, 3);
    assert!(registry.callback_for(a).is_none());
}

#[test]
fn failed_start_leaves_no_trace() {
    let mut registry = SessionRegistry::new();
    let id = registry.open(true, &config("de"), Arc::new("a")).unwrap().id;
    assert_eq!(
        registry.started(id, 2).unwrap_err(),
        Error::NotAvailable("Speech recognizer unavailable (offline or restricted)".to_string())
    );
    assert!(registry.callback_for(id).is_none());
}

#[test]
fn session_is_fed_and_closed_once() {
    let mut registry = SessionRegistry::new();
    let id = registry.open(true, &config("de"), Arc::new("a")).unwrap().id;
    let mut session = registry.started(id, 0).unwrap();
    assert!(registry.callback_for(id).is_some());
    assert_eq!(session.feed(&[1, 2]), Some(id));
    assert_eq!(session.feed(&[]), None);
    assert_eq!(session.finish(), Some(StreamCommand::Finish(id)));
    assert_eq!(session.feed(&[1, 2]), None);
    assert_eq!(session.finish(), None);
}

#[test]
fn report_after_cancel_reaches_nobody() {
    let mut registry = SessionRegistry::new();
    let sink = Arc::new("a");
    let id = registry.open(true, &config("de"), sink.clone()).unwrap().id;
    let other = registry.open(true, &config("de"), Arc::new("b")).unwrap().id;
    let mut session = registry.started(id, 0).unwrap();
    let (command, delivery) = registry.abort(&mut session);
    assert_eq!(command, Some(StreamCommand::Cancel(id)));
    let delivery = delivery.unwrap();
    assert!(Arc::ptr_eq(&delivery.callback, &sink));
    assert_eq!(delivery.event, RecognizerEvent::Ended);
    assert_eq!(session.feed(&[1]), None);
    assert_eq!(session.finish(), None);

    assert!(registry.callback_for(id).is_none());
    assert!(registry.deliver(id, RecognizerEvent::Final("late".to_string())).is_none());
    assert!(registry.deliver(id, RecognizerEvent::Partial("late".to_string())).is_none());
    assert!(registry.ended(id).is_none());
    assert!(registry.callback_for(other).is_some());
    let next = registry.open(true, &config("de"), Arc::new("c")).unwrap().id;
    assert_ne!(next, id);
    assert!(registry.deliver(id, RecognizerEvent::Final("late".to_string())).is_none());
}

#[test]
fn second_abort_does_nothing() {
    let mut registry = SessionRegistry::new();
    let id = registry.open(true, &config("de"), Arc::new("a")).unwrap().id;
    let mut session = registry.started(id, 0).unwrap();
    registry.abort(&mut session);
    let (command, delivery) = registry.abort(&mut session);
    assert_eq!(command, None);
    assert!(delivery.is_none());
}

#[test]
fn drop_after_finish_keeps_the_transcript_coming() {
    let mut registry = SessionRegistry::new();
    let id = registry.open(true, &config("de"), Arc::new("a")).unwrap().id;
    let mut session = registry.started(id, 0).unwrap();
    session.finish();
    let (command, delivery) = registry.abort(&mut session);
    assert_eq!(command, None);
    assert!(delivery.is_none());
    let last = registry.deliver(id, RecognizerEvent::Final("text".to_string())).unwrap();
    assert_eq!(*last.callback, "a");
    assert!(registry.ended(id).is_some());
    assert!(registry.callback_for(id).is_none());
}

#[test]
fn abort_of_an_ended_session_tells_nobody() {
    let mut registry = SessionRegistry::new();
    let id = registry.open(true, &config("de"), Arc::new("a")).unwrap().id;
    let mut session = registry.started(id, 0).unwrap();
    registry.ended(id);
    let (command, delivery) = registry.abort(&mut session);
    assert_eq!(command, Some(StreamCommand::Cancel(id)));
    assert!(delivery.is_none());
}

#[test]
fn status_follows_the_authorization() {
    for code in [AUTH_UNDETERMINED, AUTH_AUTHORIZED] {
        let status = status(code);
        assert!(status.available && status.model_installed && !status.needs_model_download);
        assert_eq!(status.reason, None);
    }
    for code in [2, -1] {
        let status = status(code);
        assert!(!status.available && status.model_installed);
        assert_eq!(status.reason, Some("Speech recognition permission denied".to_string()));
    }
    assert!(is_authorized(AUTH_AUTHORIZED));
    assert!(!is_authorized(AUTH_UNDETERMINED));
    assert!(!is_authorized(2));
}
