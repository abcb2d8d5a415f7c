use stt::decoding::{complete_result_text, CompleteResult, Decoding, Query, VoskSession};
use stt::error::Error;
use stt::recognizer::{RecognizerConfig, RecognizerEvent};

fn single(text: &str) -> CompleteResult {
    CompleteResult::Single(text.to_string())
}

fn partial_event(text: &str) -> RecognizerEvent {
    RecognizerEvent::Partial(text.to_string())
}

fn final_event(text: &str) -> RecognizerEvent {
    RecognizerEvent::Final(text.to_string())
}

#[test]
fn most_likely_text_is_taken() {
    assert_eq!(complete_result_text(single("hello")), "hello");
    assert_eq!(
        complete_result_text(CompleteResult::Multiple(vec!["a".to_string(), "b".to_string()])),
        "a"
    );
    assert_eq!(complete_result_text(CompleteResult::Multiple(Vec::new())), "");
}

#[test]
fn session_opens_on_a_decoder() {
    let config = RecognizerConfig {
        language: "de-DE".to_string(),
        sample_rate: 16_000,
        interim_results: true,
        on_device: false,
    };
    assert_eq!(
        VoskSession::open(false, &config).unwrap_err(),
        Error::Recording("Failed to create Vosk recognizer".to_string())
    );
    let mut session = VoskSession::open(true, &config).unwrap();
    assert!(session.is_open());
    assert_eq!(session.partial("hal".to_string()), vec![partial_event("hal")]);
}

#[test]
fn audio_is_accepted_while_open() {
    let mut session = VoskSession::new(false);
    assert!(session.accepts(&[1]));
    assert!(!session.accepts(&[]));
    session.cancel();
    assert!(!session.accepts(&[1]));
}

#[test]
fn utterances_and_hypotheses_become_events() {
    let mut session = VoskSession::new(true);
    assert_eq!(session.feed(Decoding::Running), (Query::Partial, Vec::new()));
    assert_eq!(session.partial("he".to_string()), vec![partial_event("he")]);
    assert_eq!(session.partial("he".to_string()), Vec::new());
    assert_eq!(session.partial(String::new()), Vec::new());
    assert_eq!(session.feed(Decoding::Finalized), (Query::Complete, Vec::new()));
    assert_eq!(session.complete(single("hello")), vec![final_event("hello")]);
    assert_eq!(session.partial("he".to_string()), vec![partial_event("he")]);
    assert_eq!(session.complete(single("")), Vec::new());
    assert_eq!(session.partial("he".to_string()), vec![partial_event("he")]);
    assert_eq!(
        session.finish(single("bye")),
        vec![final_event("bye"), RecognizerEvent::Ended]
    );
}

#[test]
fn hypotheses_are_not_asked_for_unless_wanted() {
    let mut session = VoskSession::new(false);
    assert_eq!(session.feed(Decoding::Running), (Query::Nothing, Vec::new()));
    assert_eq!(session.partial("he".to_string()), Vec::new());
    assert_eq!(session.finish(single("")), vec![RecognizerEvent::Ended]);
}

#[test]
fn errors_end_the_session() {
    let mut session = VoskSession::new(true);
    assert_eq!(
        session.feed(Decoding::Failed),
        (
            Query::Nothing,
            vec![
                RecognizerEvent::Error("Vosk decoding failed".to_string()),
                RecognizerEvent::Ended
            ]
        )
    );
    assert!(!session.is_open());

    let mut session = VoskSession::new(true);
    assert_eq!(
        session.feed(Decoding::Rejected("BufferTooLong(9)".to_string())),
        (
            Query::Nothing,
            vec![
                RecognizerEvent::Error("Vosk rejected audio: BufferTooLong(9)".to_string()),
                RecognizerEvent::Ended
            ]
        )
    );
}

#[test]
fn ended_session_is_silent() {
    let mut session = VoskSession::new(true);
    assert_eq!(session.cancel(), vec![RecognizerEvent::Ended]);
    assert_eq!(session.cancel(), Vec::new());
    assert_eq!(session.feed(Decoding::Finalized), (Query::Nothing, Vec::new()));
    assert_eq!(session.feed(Decoding::Failed), (Query::Nothing, Vec::new()));
    assert_eq!(session.complete(single("x")), Vec::new());
    assert_eq!(session.partial("x".to_string()), Vec::new());
    assert_eq!(session.finish(single("x")), Vec::new());
}
