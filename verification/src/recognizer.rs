//! Buffer-fed speech recognition, callable from Rust.
//!
//! Hosts that already own the microphone push PCM into a recognizer and get
//! hypotheses back, without any webview in between. [`Recognizer`] opens
//! sessions, [`RecognizerSession`] takes audio, and [`RecognizerEvent`]s
//! arrive at the host's [`EventSink`].

use std::sync::Arc;
use vstd::prelude::*;
use vstd::string::*;

use crate::error::{Error, ErrorView};
use crate::models::opt_text;

verus! {

/// Sample format every [`RecognizerSession`] accepts: mono, signed 16-bit PCM
/// at the sample rate given in [`RecognizerConfig`].
pub type Sample = i16;

/// What the recognizer heard, delivered to the sink handed to
/// [`Recognizer::open`].
#[derive(Debug, Clone, PartialEq, Eq)]
pub enum RecognizerEvent {
    /// Refined hypothesis for the utterance in progress. Replaces the previous
    /// `Partial`; not yet committed.
    Partial(String),
    /// A committed utterance segment.
    Final(String),
    /// The recognizer failed. `Ended` follows.
    Error(String),
    /// No further events will be delivered for this session.
    Ended,
}

/// A [`RecognizerEvent`] with its text as a sequence of characters.
pub enum RecognizerEventView {
    Partial(Seq<char>),
    Final(Seq<char>),
    Error(Seq<char>),
    Ended,
}

impl View for RecognizerEvent {
    type V = RecognizerEventView;

    open spec fn view(&self) -> RecognizerEventView {
        match self {
            RecognizerEvent::Partial(t) => RecognizerEventView::Partial(t@),
            RecognizerEvent::Final(t) => RecognizerEventView::Final(t@),
            RecognizerEvent::Error(m) => RecognizerEventView::Error(m@),
            RecognizerEvent::Ended => RecognizerEventView::Ended,
        }
    }
}

/// The views of a list of events, in order.
pub open spec fn recognizer_event_views(events: Seq<RecognizerEvent>) -> Seq<RecognizerEventView> {
    events.map_values(|e: RecognizerEvent| e@)
}

/// Where a host receives the events of a session. May be called on any
/// thread and must not block.
pub trait EventSink: Send + Sync {
    /// Takes one event.
    fn on_event(&self, event: RecognizerEvent);
}

/// The sink that a session owns.
pub type RecognizerCallback = Box<dyn EventSink>;

/// How to open a session.
#[derive(Debug, Clone)]
pub struct RecognizerConfig {
    /// BCP-47 language tag ("de-DE"). Bare codes ("de") are widened by the
    /// platform binding where it can.
    pub language: String,
    /// Sample rate of the PCM the host will feed.
    pub sample_rate: u32,
    /// Whether to report `Partial` hypotheses.
    pub interim_results: bool,
    /// iOS: require on-device recognition (offline; may be less accurate).
    /// Ignored on desktop, where recognition is always local.
    pub on_device: bool,
}

/// An open, buffer-fed recognition session.
///
/// Feed audio with [`feed`](Self::feed); events arrive at the sink given to
/// [`Recognizer::open`]. End the session with either [`finish`](Self::finish)
/// (flush and wait for the final transcript) or [`cancel`](Self::cancel).
/// Dropping a session without either behaves like `cancel`.
pub trait RecognizerSession: Send {
    /// Push more audio.
    fn feed(&mut self, samples: &[Sample]);

    /// No more audio: finalize. The final transcript arrives as `Final`
    /// (possibly preceded by more `Partial`s), then `Ended`.
    fn finish(self: Box<Self>);

    /// Abort; the sink receives `Ended` and no transcript.
    fn cancel(self: Box<Self>);
}

/// Availability of the recognizer for a language, as the host's settings UI
/// wants to show it.
#[derive(Debug, Clone, PartialEq, Eq)]
pub struct RecognizerStatus {
    /// Whether recognition can work on this platform at all.
    pub available: bool,
    /// Why not, when `available` is false.
    pub reason: Option<String>,
    /// Whether the language's model is present. Always `true` on platforms
    /// where the OS ships the recognizer (iOS).
    pub model_installed: bool,
    /// Whether the platform needs a model download step at all.
    pub needs_model_download: bool,
}

/// A [`RecognizerStatus`] with its reason as a sequence of characters.
pub struct RecognizerStatusView {
    pub available: bool,
    pub reason: Option<Seq<char>>,
    pub model_installed: bool,
    pub needs_model_download: bool,
}

impl View for RecognizerStatus {
    type V = RecognizerStatusView;

    open spec fn view(&self) -> RecognizerStatusView {
        RecognizerStatusView {
            available: self.available,
            reason: opt_text(self.reason),
            model_installed: self.model_installed,
            needs_model_download: self.needs_model_download,
        }
    }
}

/// Factory for buffer-fed recognition sessions.
pub trait Recognizer: Send + Sync {
    /// Open a session. **Blocking**: on desktop this may download and load a
    /// model, on iOS it may wait for the speech-recognition authorization
    /// prompt.
    fn open(&self, config: RecognizerConfig, on_event: RecognizerCallback) -> Result<
        Box<dyn RecognizerSession>,
        Error,
    >;

    /// Availability and model status for `language`. Non-blocking.
    fn status(&self, language: &str) -> RecognizerStatus;

    /// Make sure the model for `language` is present, downloading it if
    /// needed. **Blocking**. A no-op on platforms without a model download
    /// step.
    fn install_model(&self, language: &str) -> Result<(), Error>;

    /// Ask the OS for speech-recognition permission if it has not been decided
    /// yet. **Blocking** until the user answers. Returns whether recognition
    /// is authorized.
    fn request_authorization(&self) -> Result<bool, Error>;
}

/// The recognizer of platforms without a buffer-fed binding (Android): it is
/// registered so that hosts can branch on `status().available`.
#[derive(Debug, Clone, Copy)]
pub struct UnsupportedRecognizer;

/// Why the unsupported recognizer opens nothing.
pub open spec fn unsupported_reason() -> Seq<char> {
    "Buffer-fed recognition is not implemented on this platform"@
}

impl Recognizer for UnsupportedRecognizer {
    fn open(&self, config: RecognizerConfig, on_event: RecognizerCallback) -> (session: Result<
        Box<dyn RecognizerSession>,
        Error,
    >)
        ensures
            session matches Err(e) && e@ == ErrorView::NotAvailable(unsupported_reason()),
    {
        Err(
            Error::NotAvailable(
                String::from_str("Buffer-fed recognition is not implemented on this platform"),
            ),
        )
    }

    fn status(&self, language: &str) -> (status: RecognizerStatus)
        ensures
            status@ == (RecognizerStatusView {
                available: false,
                reason: Some(unsupported_reason()),
                model_installed: false,
                needs_model_download: false,
            }),
    {
        RecognizerStatus {
            available: false,
            reason: Some(
                String::from_str("Buffer-fed recognition is not implemented on this platform"),
            ),
            model_installed: false,
            needs_model_download: false,
        }
    }

    fn install_model(&self, language: &str) -> (installed: Result<(), Error>)
        ensures
            installed == Ok::<(), Error>(()),
    {
        Ok(())
    }

    fn request_authorization(&self) -> (authorized: Result<bool, Error>)
        ensures
            authorized == Ok::<bool, Error>(false),
    {
        Ok(false)
    }
}

/// `Arc::clone`: another handle to the same value.
#[verifier::external_body]
pub(crate) fn share<T: ?Sized>(handle: &Arc<T>) -> (other: Arc<T>)
    ensures
        other == *handle,
{
    handle.clone()
}

/// Shared handle to the platform's buffer-fed [`Recognizer`].
#[verifier::reject_recursive_types(T)]
pub struct SharedRecognizer<T: Recognizer + ?Sized = dyn Recognizer>(Arc<T>);

impl<T: Recognizer + ?Sized> SharedRecognizer<T> {
    /// The recognizer behind the handle.
    pub closed spec fn handle(&self) -> Arc<T> {
        self.0
    }

    /// A shared handle to `recognizer`.
    pub fn new(recognizer: Arc<T>) -> (shared: Self)
        ensures
            shared.handle() == recognizer,
    {
        SharedRecognizer(recognizer)
    }

    /// The handle itself.
    pub fn into_arc(self) -> (recognizer: Arc<T>)
        ensures
            recognizer == self.handle(),
    {
        self.0
    }
}

impl<T: Recognizer + ?Sized> Clone for SharedRecognizer<T> {
    fn clone(&self) -> (other: Self)
        ensures
            other.handle() == self.handle(),
    {
        SharedRecognizer(share(&self.0))
    }
}

impl<T: Recognizer + ?Sized> std::ops::Deref for SharedRecognizer<T> {
    type Target = T;

    fn deref(&self) -> (recognizer: &T)
        ensures
            recognizer == &*self.handle(),
    {
        &*self.0
    }
}

/// The view of an event tells its text as it is, and the events that are told
/// are those that there are, one for one.
pub proof fn law_recognizer_event_tells_its_text(
    text: String,
    events: Seq<RecognizerEvent>,
    i: int,
)
    requires
        0 <= i < events.len(),
    ensures
        RecognizerEvent::Partial(text)@ == RecognizerEventView::Partial(text@),
        RecognizerEvent::Final(text)@ == RecognizerEventView::Final(text@),
        RecognizerEvent::Error(text)@ == RecognizerEventView::Error(text@),
        RecognizerEvent::Ended@ == RecognizerEventView::Ended,
        recognizer_event_views(events).len() == events.len(),
        recognizer_event_views(events)[i] == events[i]@,
{
}

/// The view of a status tells what it holds, as it is.
pub proof fn law_status_tells_what_it_holds(status: RecognizerStatus)
    ensures
        status@.available == status.available,
        status.reason is None ==> status@.reason is None,
        status.reason matches Some(reason) ==> status@.reason == Some(reason@),
        status@.model_installed == status.model_installed,
        status@.needs_model_download == status.needs_model_download,
        unsupported_reason() == "Buffer-fed recognition is not implemented on this platform"@,
{
}

} // verus!
