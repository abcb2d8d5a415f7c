//! Speech-to-text for desktop and mobile applications: the logic of the
//! plugin, proved.
//!
//! - [`models`] and [`error`] hold the values that cross the plugin's boundary;
//! - [`catalog`], [`download`], [`fetch`], [`digest`], [`extract`] and [`install`]
//!   bring a language's model onto the disk, verified, and [`request`] gets it
//!   loaded;
//! - [`pcm`], [`audio`], [`stream`] and [`desktop`] run listening sessions on a
//!   microphone;
//! - [`recognizer`], [`decoding`] and [`ios_stream`] run sessions that a host
//!   feeds with audio itself;
//! - [`text`] and [`rounding`] are what they share.
//!
//! Devices, files, the network and the decoder are driven from outside.

pub mod audio;
pub mod catalog;
pub mod decoding;
pub mod desktop;
pub mod digest;
pub mod download;
pub mod error;
pub mod extract;
pub mod fetch;
pub mod install;
pub mod ios_stream;
pub mod models;
pub mod pcm;
pub mod recognizer;
pub mod request;
pub mod rounding;
pub mod stream;
pub mod text;

pub use error::Error;
pub use models::{
    AvailabilityResponse, LanguageCode, ListenConfig, PermissionResponse, PermissionStatus,
    RecognitionResult, RecognitionState, RecognitionStatus, StopListeningConfig, SttError,
    SttErrorCode, SupportedLanguage, SupportedLanguagesResponse,
};
pub use recognizer::{
    EventSink, Recognizer, RecognizerCallback, RecognizerConfig, RecognizerEvent,
    RecognizerSession, RecognizerStatus, SharedRecognizer,
};
