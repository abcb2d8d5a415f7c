use std::sync::{Arc, Mutex};

use stt::recognizer::UnsupportedRecognizer;
use stt::{
    Error, EventSink, Recognizer, RecognizerCallback, RecognizerConfig, RecognizerEvent,
    RecognizerSession, RecognizerStatus, SharedRecognizer,
};

struct Log(Mutex<Vec<RecognizerEvent>>);

struct LogSink(Arc<Log>);

impl EventSink for LogSink {
    fn on_event(&self, event: RecognizerEvent) {
        self.0 .0.lock().unwrap().push(event);
    }
}

struct EchoSession {
    heard: usize,
    on_event: RecognizerCallback,
}

impl RecognizerSession for EchoSession {
    fn feed(&mut self, samples: &[i16]) {
        self.heard += samples.len();
    }

    fn finish(self: Box<Self>) {
        self.on_event.on_event(RecognizerEvent::Final(self.heard.to_string()));
        self.on_event.on_event(RecognizerEvent::Ended);
    }

    fn cancel(self: Box<Self>) {
        self.on_event.on_event(RecognizerEvent::Ended);
    }
}

struct EchoRecognizer;

impl Recognizer for EchoRecognizer {
    fn open(
        &self,
        _config: RecognizerConfig,
        on_event: RecognizerCallback,
    ) -> Result<Box<dyn RecognizerSession>, Error> {
        Ok(Box::new(EchoSession { heard: 0, on_event }))
    }

    fn status(&self, language: &str) -> RecognizerStatus {
        RecognizerStatus {
            available: true,
            reason: Some(language.to_string()),
            model_installed: true,
            needs_model_download: false,
        }
    }

    fn install_model(&self, _language: &str) -> Result<(), Error> {
        Ok(())
    }

    fn request_authorization(&self) -> Result<bool, Error> {
        Ok(true)
    }
}

fn config() -> RecognizerConfig {
    RecognizerConfig {
        language: "de-DE".to_string(),
        sample_rate: 16_000,
        interim_results: true,
        on_device: false,
    }
}

#[test]
fn unsupported_recognizer_refuses() {
    let log = Arc::new(Log(Mutex::new(Vec::new())));
    let recognizer = UnsupportedRecognizer;
    let reason = "Buffer-fed recognition is not implemented on this platform".to_string();
    let refused = recognizer.open(config(), Box::new(LogSink(log.clone())));
    assert!(matches!(refused, Err(Error::NotAvailable(m)) if m == reason));
    assert_eq!(
        recognizer.status("de"),
        RecognizerStatus {
            available: false,
            reason: Some(reason),
            model_installed: false,
            needs_model_download: false,
        }
    );
    assert_eq!(recognizer.install_model("de"), Ok(()));
    assert_eq!(recognizer.request_authorization(), Ok(false));
    assert!(log.0.lock().unwrap().is_empty());
}

#[test]
fn shared_handles_are_the_same_recognizer() {
    let recognizer: Arc<dyn Recognizer> = Arc::new(EchoRecognizer);
    let shared: SharedRecognizer = SharedRecognizer::new(recognizer.clone());
    let other = shared.clone();
    assert_eq!(Arc::strong_count(&recognizer), 3);
    assert_eq!(shared.status("fr").reason, Some("fr".to_string()));
    assert!(Arc::ptr_eq(&shared.into_arc(), &recognizer));
    assert!(Arc::ptr_eq(&other.into_arc(), &recognizer));
    assert_eq!(Arc::strong_count(&recognizer), 1);
}

#[test]
fn sessions_report_to_the_host() {
    let shared: SharedRecognizer = SharedRecognizer::new(Arc::new(EchoRecognizer));
    let log = Arc::new(Log(Mutex::new(Vec::new())));
    let mut session = shared.open(config(), Box::new(LogSink(log.clone()))).unwrap();
    session.feed(&[1, 2, 3]);
    session.feed(&[4]);
    session.finish();
    let cancelled = shared.open(config(), Box::new(LogSink(log.clone()))).unwrap();
    cancelled.cancel();
    assert_eq!(
        *log.0.lock().unwrap(),
        vec![
            RecognizerEvent::Final("4".to_string()),
            RecognizerEvent::Ended,
            RecognizerEvent::Ended
        ]
    );
}
