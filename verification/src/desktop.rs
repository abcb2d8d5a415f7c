//! The desktop plugin's state: which model is loaded, whether a session is
//! listening, and what to tell the webview when that changes.
//!
//! Devices, decoders, clocks and threads stay outside. `M` is the type of a
//! loaded model and `R` that of a decoder; [`Stt`] only carries them.

use std::sync::Arc;
use vstd::prelude::*;
use vstd::string::*;

use crate::audio::{
    committed, drained, kept, result_view, AudioModel, AudioProcessor, RecognizerSettings,
};
use crate::catalog::{
    catalog, describes, get_model_info_for_language, marker_complete, model_for,
    selected_model, supported_languages, ModelSpec,
};
use crate::decoding::{best_text, complete_result_text, CompleteResult};
use crate::error::{Error, ErrorView};
use crate::models::{
    clone_opt_text, event_views, final_result_of, interim_result_of, opt_text,
    AvailabilityResponse, ListenConfig, PermissionResponse, PermissionStatus, PluginEvent,
    PluginEventView, RecognitionResult, RecognitionResultView, RecognitionState,
    RecognitionStatus, RecognitionStatusView, SttError, SttErrorCode, SttErrorView,
    SupportedLanguagesResponse, FULL_CONFIDENCE,
};
use crate::pcm::{every_nth, TARGET_SAMPLE_RATE};
use crate::recognizer::{share, RecognizerStatus, RecognizerStatusView};
use crate::request::{ModelRequest, RequestStepView};
use crate::text::same_text;

verus! {

/// The state of the plugin.
#[verifier::ext_equal]
pub struct SttModel<M, R> {
    /// The loaded model.
    pub model: Option<Arc<M>>,
    /// The name of the loaded model.
    pub model_name: Option<Seq<char>>,
    /// Whether a session is listening.
    pub listening: bool,
    /// When the session began, in milliseconds of the caller's clock.
    pub started: Option<u64>,
    /// How long the session may last, in milliseconds.
    pub max_duration: Option<u64>,
    /// Whether the session goes on after a final result.
    pub continuous: bool,
    /// The number of the current listening session (0 = not listening).
    pub session: u64,
    /// The number of the session that began last.
    pub last_session: u64,
    /// The audio processing state, kept across sessions.
    pub audio: Option<AudioModel<R>>,
    /// Whether the audio stream has been created.
    pub stream: bool,
}

impl<M, R> SttModel<M, R> {
    /// What holds of every state: a session is listening exactly when it has
    /// a number, which no later session shares; a listening session has a
    /// stream and its processing state; a model is loaded under its name.
    pub open spec fn wf(self) -> bool {
        &&& self.listening <==> self.session != 0
        &&& self.session <= self.last_session
        &&& self.listening ==> self.audio is Some && self.stream
        &&& self.audio is Some ==> self.audio->0.wf()
        &&& self.model is Some <==> self.model_name is Some
    }

    /// This state without its session.
    pub open spec fn idle(self) -> SttModel<M, R> {
        SttModel { listening: false, started: None, max_duration: None, session: 0, ..self }
    }
}

/// The event that tells of the state `state`.
pub open spec fn state_event(
    state: RecognitionState,
    language: Option<Seq<char>>,
) -> PluginEventView {
    PluginEventView::StateChange(RecognitionStatusView { state, is_available: true, language })
}

/// The event that tells of a session stopped by its time limit.
pub open spec fn timeout_event() -> PluginEventView {
    PluginEventView::Error(
        SttErrorView {
            code: SttErrorCode::Timeout,
            message: "Maximum duration reached"@,
            details: None,
        },
    )
}

/// The event that tells of the state `state`.
fn state_change(state: RecognitionState, language: Option<String>) -> (event: PluginEvent)
    ensures
        event@ == state_event(state, opt_text(language)),
{
    PluginEvent::StateChange(RecognitionStatus { state, is_available: true, language })
}

/// How to get audio for a new session.
#[derive(Debug, Clone, Copy, PartialEq, Eq, Structural)]
pub enum StartPlan {
    /// Open the input device and create a stream.
    OpenStream,
    /// The stream is running already; only a new decoder is wanted.
    ReuseStream,
}

/// The audio of a new session.
pub enum SessionAudio<R> {
    /// A new stream with its processing state.
    Opened(AudioProcessor<R>),
    /// The existing stream, with a new decoder where one could be made.
    Reused(Option<R>),
}

/// A session that has begun.
pub struct SessionStart {
    /// Its number.
    pub session: u64,
    /// After how many milliseconds it has to be stopped, if it has a limit.
    pub time_limit: Option<u64>,
    /// What to tell the webview.
    pub events: Vec<PluginEvent>,
}

/// What stopping has to do first.
#[derive(Debug, Clone, PartialEq, Eq)]
pub enum StopPlan {
    /// No session is listening: nothing.
    NotListening,
    /// Hand the last audio, if any, to the decoder and flush it.
    Flush(Option<Vec<i16>>),
}

/// The limit that a configuration sets, in milliseconds.
pub open spec fn limit_of(config: ListenConfig) -> Option<u64> {
    if config.max_duration > 0 {
        Some(config.max_duration as u64)
    } else {
        None
    }
}

/// The processing state of a session that begins on `audio` with this source.
pub open spec fn audio_at_start<R>(
    audio: Option<AudioModel<R>>,
    source: SessionAudio<R>,
    interim_results: bool,
) -> Option<AudioModel<R>> {
    match source {
        SessionAudio::Opened(processor) => Some(processor@),
        SessionAudio::Reused(recognizer) => match audio {
            Some(a) => Some(
                AudioModel {
                    buffer: Seq::empty(),
                    last_partial: Seq::empty(),
                    recognizer: (match recognizer {
                        Some(r) => r,
                        None => a.recognizer,
                    }),
                    interim_results,
                    ..a
                },
            ),
            None => None,
        },
    }
}

/// The state after a session began.
pub open spec fn begun<M, R>(
    s: SttModel<M, R>,
    config: ListenConfig,
    now: u64,
    source: SessionAudio<R>,
) -> SttModel<M, R> {
    SttModel {
        listening: true,
        started: Some(now),
        max_duration: limit_of(config),
        continuous: config.continuous,
        session: (s.last_session + 1) as u64,
        last_session: (s.last_session + 1) as u64,
        audio: audio_at_start(s.audio, source, config.interim_results),
        stream: true,
        ..s
    }
}

/// Whether a source of audio fits the state: a new stream is opened only where
/// there is none, and brings an unused processing state; and a stream can only
/// be reused where there is one.
pub open spec fn fits<M, R>(
    s: SttModel<M, R>,
    config: ListenConfig,
    source: SessionAudio<R>,
) -> bool {
    match source {
        SessionAudio::Opened(processor) => {
            &&& !(s.stream && s.audio is Some)
            &&& processor@.wf()
            &&& processor@.is_fresh()
            &&& processor@.interim_results == config.interim_results
        },
        SessionAudio::Reused(_) => s.stream && s.audio is Some,
    }
}

/// The state after samples arrived: they are accumulated while a session is
/// listening and ignored otherwise.
pub open spec fn heard<M, R>(s: SttModel<M, R>, samples: Seq<i16>) -> SttModel<M, R> {
    match s.audio {
        Some(a) => if s.session != 0 {
            SttModel {
                audio: Some(
                    AudioModel { buffer: kept(a.buffer, samples, a.resample_step), ..a },
                ),
                ..s
            }
        } else {
            s
        },
        None => s,
    }
}

/// The audio to decode when samples arrived, if there is enough.
pub open spec fn to_decode<M, R>(s: SttModel<M, R>, samples: Seq<i16>) -> Option<Seq<i16>> {
    match s.audio {
        Some(a) => if s.session != 0 {
            match drained(a.buffer, samples, a.resample_step) {
                Some(all) => Some(every_nth(all, a.resample_step)),
                None => None,
            }
        } else {
            None
        },
        None => None,
    }
}

/// The state after an utterance was finalized with `text`: a session that is
/// not continuous is over with its first result.
pub open spec fn after_utterance<M, R>(s: SttModel<M, R>, text: Seq<char>) -> SttModel<M, R> {
    if !s.listening || text.len() == 0 {
        s
    } else {
        let cleared = SttModel {
            audio: (match s.audio {
                Some(a) => Some(AudioModel { last_partial: Seq::empty(), ..a }),
                None => None,
            }),
            ..s
        };
        if s.continuous {
            cleared
        } else {
            cleared.idle()
        }
    }
}

/// What to tell the webview of an utterance finalized with `text`.
pub open spec fn utterance_events<M, R>(s: SttModel<M, R>, text: Seq<char>) -> Seq<
    PluginEventView,
> {
    if !s.listening || text.len() == 0 {
        Seq::empty()
    } else {
        let result = PluginEventView::Result(final_result_of(text));
        if s.continuous {
            seq![result]
        } else {
            seq![result, state_event(RecognitionState::Idle, None)]
        }
    }
}

/// Whether `text` is a hypothesis to report.
pub open spec fn is_news<M, R>(s: SttModel<M, R>, text: Seq<char>) -> bool {
    s.listening && text.len() > 0 && (s.audio matches Some(a) && a.interim_results && text
        != a.last_partial)
}

/// The state after a hypothesis.
pub open spec fn after_hypothesis<M, R>(s: SttModel<M, R>, text: Seq<char>) -> SttModel<M, R> {
    if is_news(s, text) {
        SttModel { audio: Some(AudioModel { last_partial: text, ..s.audio->0 }), ..s }
    } else {
        s
    }
}

/// What to tell the webview of a hypothesis.
pub open spec fn hypothesis_events<M, R>(s: SttModel<M, R>, text: Seq<char>) -> Seq<
    PluginEventView,
> {
    if is_news(s, text) {
        seq![PluginEventView::Result(interim_result_of(text))]
    } else {
        Seq::empty()
    }
}

/// What to tell the webview when a flushed session is closed with `text`.
pub open spec fn close_events(text: Seq<char>) -> Seq<PluginEventView> {
    match committed(text) {
        Some(r) => seq![PluginEventView::Result(r), state_event(RecognitionState::Idle, None)],
        None => seq![state_event(RecognitionState::Idle, None)],
    }
}

/// What to tell the webview when a session begins.
pub open spec fn begin_events(config: ListenConfig) -> Seq<PluginEventView> {
    seq![state_event(RecognitionState::Listening, opt_text(config.language))]
}

/// What to tell the webview when the timer of session `id` went off.
pub open spec fn timer_events<M, R>(s: SttModel<M, R>, id: u64) -> Seq<PluginEventView> {
    if s.listening && s.session == id {
        seq![state_event(RecognitionState::Idle, None), timeout_event()]
    } else {
        Seq::empty()
    }
}

/// The state after the last audio was taken out for the flush.
pub open spec fn flushing<M, R>(s: SttModel<M, R>) -> SttModel<M, R> {
    match s.audio {
        Some(a) => if s.listening {
            SttModel { audio: Some(AudioModel { buffer: Seq::empty(), ..a }), ..s }
        } else {
            s
        },
        None => s,
    }
}

/// The audio that the decoder is flushed with: all that was kept, resampled;
/// none where nothing was kept.
pub open spec fn flush_audio<M, R>(s: SttModel<M, R>) -> Option<Seq<i16>> {
    match s.audio {
        Some(a) => if s.listening && a.buffer.len() > 0 {
            Some(every_nth(a.buffer, a.resample_step))
        } else {
            None
        },
        None => None,
    }
}

/// The state after the flushed session was closed.
pub open spec fn stopped<M, R>(s: SttModel<M, R>) -> SttModel<M, R> {
    SttModel {
        audio: (match s.audio {
            Some(a) => Some(AudioModel { last_partial: Seq::empty(), ..a }),
            None => None,
        }),
        ..s
    }.idle()
}

/// The state after the timer of session `id` went off.
pub open spec fn timed_out<M, R>(s: SttModel<M, R>, id: u64) -> SttModel<M, R> {
    if s.listening && s.session == id {
        s.idle()
    } else {
        s
    }
}

/// The state after a model was loaded.
pub open spec fn with_model<M, R>(
    s: SttModel<M, R>,
    name: Seq<char>,
    model: Arc<M>,
    recognizer: Option<R>,
) -> SttModel<M, R> {
    SttModel {
        model: Some(model),
        model_name: Some(name),
        audio: (match (s.audio, recognizer) {
            (Some(a), Some(r)) => Some(
                AudioModel {
                    buffer: Seq::empty(),
                    last_partial: Seq::empty(),
                    recognizer: r,
                    ..a
                },
            ),
            (a, _) => a,
        }),
        ..s
    }
}

/// The plugin's state: an [`SttModel`] in memory.
pub struct Stt<M, R> {
    model: Option<Arc<M>>,
    current_model_name: Option<String>,
    is_listening: bool,
    listen_start_time: Option<u64>,
    max_duration_ms: Option<u64>,
    continuous: bool,
    active_session_id: u64,
    last_session_id: u64,
    audio_processor: Option<AudioProcessor<R>>,
    stream_created: bool,
}

impl<M, R> View for Stt<M, R> {
    type V = SttModel<M, R>;

    closed spec fn view(&self) -> SttModel<M, R> {
        SttModel {
            model: self.model,
            model_name: opt_text(self.current_model_name),
            listening: self.is_listening,
            started: self.listen_start_time,
            max_duration: self.max_duration_ms,
            continuous: self.continuous,
            session: self.active_session_id,
            last_session: self.last_session_id,
            audio: (match self.audio_processor {
                Some(p) => Some(p@),
                None => None,
            }),
            stream: self.stream_created,
        }
    }
}

impl<M, R> Stt<M, R> {
    /// A plugin with no model loaded, not listening.
    pub fn new() -> (stt: Self)
        ensures
            stt@ == (SttModel::<M, R> {
                model: None,
                model_name: None,
                listening: false,
                started: None,
                max_duration: None,
                continuous: false,
                session: 0,
                last_session: 0,
                audio: None,
                stream: false,
            }),
            stt@.wf(),
    {
        Stt {
            model: None,
            current_model_name: None,
            is_listening: false,
            listen_start_time: None,
            max_duration_ms: None,
            continuous: false,
            active_session_id: 0,
            last_session_id: 0,
            audio_processor: None,
            stream_created: false,
        }
    }

    /// Looks for the model `spec` among what is loaded. Returns it where it is
    /// there; else forgets the loaded model, so that this one can be loaded.
    pub fn ensure_model(&mut self, spec: &ModelSpec) -> (loaded: Option<Arc<M>>)
        requires
            old(self)@.wf(),
        ensures
            final(self)@.wf(),
            if old(self)@.model_name == Some(spec@.name) {
                &&& final(self)@ == old(self)@
                &&& loaded == old(self)@.model
            } else {
                &&& final(self)@ == (SttModel { model: None, model_name: None, ..old(self)@ })
                &&& loaded is None
            },
    {
        let current = match &self.current_model_name {
            Some(name) => same_text(name.as_str(), spec.name),
            None => false,
        };
        if current {
            match &self.model {
                Some(model) => {
                    return Some(share(model));
                },
                None => {},
            }
        }
        self.model = None;
        self.current_model_name = None;
        None
    }

    /// How to set up the decoder that a newly loaded model has to bring, where
    /// a stream is there to be served.
    pub fn replacement_settings(&self) -> (settings: Option<RecognizerSettings>)
        ensures
            match settings {
                Some(s) => self@.audio matches Some(a) && s == (RecognizerSettings {
                    sample_rate: TARGET_SAMPLE_RATE,
                    max_alternatives: 1,
                    partial_words: a.interim_results,
                }),
                None => self@.audio is None,
            },
    {
        match &self.audio_processor {
            Some(processor) => Some(
                RecognizerSettings::for_model_switch(processor.interim_results()),
            ),
            None => None,
        }
    }

    /// Takes over a loaded model. Where a stream is there and a decoder came
    /// with the model, the stream goes on with that decoder from scratch.
    pub fn model_loaded(&mut self, spec: &ModelSpec, model: Arc<M>, recognizer: Option<R>)
        requires
            old(self)@.wf(),
        ensures
            final(self)@.wf(),
            final(self)@ == with_model(old(self)@, spec@.name, model, recognizer),
    {
        let ghost before = self@;
        self.model = Some(model);
        self.current_model_name = Some(String::from_str(spec.name));
        match &mut self.audio_processor {
            Some(processor) => match recognizer {
                Some(r) => {
                    processor.reset(Some(r));
                },
                None => {},
            },
            None => {},
        }
        assert(self@ =~= with_model(before, spec@.name, model, recognizer));
    }

    /// Asks for a new session. It is refused while another is listening; else
    /// says how to get audio for it.
    pub fn start_listening(&self) -> (plan: Result<StartPlan, Error>)
        ensures
            match plan {
                Ok(p) => !self@.listening && p == (if self@.stream && self@.audio is Some {
                    StartPlan::ReuseStream
                } else {
                    StartPlan::OpenStream
                }),
                Err(e) => self@.listening && e@ == ErrorView::Recording("Already listening"@),
            },
    {
        if self.is_listening {
            return Err(Error::Recording(String::from_str("Already listening")));
        }
        if !self.stream_created || self.audio_processor.is_none() {
            Ok(StartPlan::OpenStream)
        } else {
            Ok(StartPlan::ReuseStream)
        }
    }

    /// The number that the next session gets; none once all are used up.
    pub fn next_session(&self) -> (number: Option<u64>)
        ensures
            number == (if self@.last_session < u64::MAX {
                Some((self@.last_session + 1) as u64)
            } else {
                None
            }),
    {
        if self.last_session_id < u64::MAX {
            Some(self.last_session_id + 1)
        } else {
            None
        }
    }

    /// Begins a session at the time `now` on the given audio.
    pub fn begin_session(
        &mut self,
        config: &ListenConfig,
        now: u64,
        source: SessionAudio<R>,
    ) -> (start: SessionStart)
        requires
            old(self)@.wf(),
            !old(self)@.listening,
            old(self)@.last_session < u64::MAX,
            fits(old(self)@, *config, source),
        ensures
            final(self)@.wf(),
            final(self)@ == begun(old(self)@, *config, now, source),
            start.session == final(self)@.session,
            start.time_limit == limit_of(*config),
            event_views(start.events@) == begin_events(*config),
    {
        let ghost before = self@;
        self.last_session_id = self.last_session_id + 1;
        self.active_session_id = self.last_session_id;
        self.listen_start_time = Some(now);
        let limit: Option<u64> = if config.max_duration > 0 {
            Some(config.max_duration as u64)
        } else {
            None
        };
        self.max_duration_ms = limit;
        self.continuous = config.continuous;
        match source {
            SessionAudio::Opened(processor) => {
                self.audio_processor = Some(processor);
            },
            SessionAudio::Reused(recognizer) => match &mut self.audio_processor {
                Some(processor) => {
                    processor.reset(recognizer);
                    processor.set_interim_results(config.interim_results);
                },
                None => {},
            },
        }
        self.stream_created = true;
        self.is_listening = true;
        assert(self@ =~= begun(before, *config, now, source));
        let mut events: Vec<PluginEvent> = Vec::new();
        events.push(state_change(RecognitionState::Listening, clone_opt_text(&config.language)));
        assert(event_views(events@) =~= begin_events(*config));
        SessionStart { session: self.active_session_id, time_limit: limit, events }
    }

    /// Takes samples from the stream. They are ignored unless a session is
    /// listening. Returns the audio to decode, once there is enough.
    pub fn on_audio(&mut self, samples: &[i16]) -> (audio: Option<Vec<i16>>)
        requires
            old(self)@.wf(),
        ensures
            final(self)@.wf(),
            final(self)@ == heard(old(self)@, samples@),
            match audio {
                Some(a) => to_decode(old(self)@, samples@) == Some(a@),
                None => to_decode(old(self)@, samples@) is None,
            },
    {
        let ghost before = self@;
        if self.active_session_id == 0 {
            return None;
        }
        let audio = match &mut self.audio_processor {
            Some(processor) => processor.push_samples(samples),
            None => None,
        };
        assert(self@ =~= heard(before, samples@));
        audio
    }

    /// The processing state, with the decoder.
    pub fn processor_mut(&mut self) -> (processor: Option<&mut AudioProcessor<R>>)
        ensures
            match processor {
                Some(p) => {
                    &&& old(self)@.audio == Some(p@)
                    &&& final(self)@ == (SttModel { audio: Some(final(p)@), ..old(self)@ })
                },
                None => old(self)@.audio is None && final(self)@ == old(self)@,
            },
    {
        match &mut self.audio_processor {
            Some(processor) => Some(processor),
            None => None,
        }
    }

    /// Takes the decoder's result for a finalized utterance. Returns what to
    /// tell the webview. The result closes a session that is not continuous.
    pub fn on_complete(&mut self, result: CompleteResult) -> (events: Vec<PluginEvent>)
        requires
            old(self)@.wf(),
        ensures
            final(self)@.wf(),
            final(self)@ == after_utterance(old(self)@, best_text(result@)),
            event_views(events@) == utterance_events(old(self)@, best_text(result@)),
    {
        let ghost before = self@;
        let ghost said = best_text(result@);
        let mut events: Vec<PluginEvent> = Vec::new();
        if self.is_listening {
            let text = complete_result_text(result);
            let report = match &mut self.audio_processor {
                Some(processor) => processor.utterance(text),
                None => None,
            };
            match report {
                Some(r) => {
                    events.push(PluginEvent::Result(r));
                    if !self.continuous {
                        self.go_idle();
                        events.push(state_change(RecognitionState::Idle, None));
                    }
                },
                None => {},
            }
        }
        assert(self@ =~= after_utterance(before, said));
        assert(event_views(events@) =~= utterance_events(before, said));
        events
    }

    /// Takes the decoder's hypothesis. Returns what to tell the webview.
    pub fn on_partial(&mut self, text: String) -> (events: Vec<PluginEvent>)
        requires
            old(self)@.wf(),
        ensures
            final(self)@.wf(),
            final(self)@ == after_hypothesis(old(self)@, text@),
            event_views(events@) == hypothesis_events(old(self)@, text@),
    {
        let ghost before = self@;
        let ghost said = text@;
        let mut events: Vec<PluginEvent> = Vec::new();
        if self.is_listening {
            let report = match &mut self.audio_processor {
                Some(processor) => processor.hypothesis(text),
                None => None,
            };
            match report {
                Some(r) => {
                    events.push(PluginEvent::Result(r));
                },
                None => {},
            }
        }
        assert(self@ =~= after_hypothesis(before, said));
        assert(event_views(events@) =~= hypothesis_events(before, said));
        events
    }

    /// Begins to stop. Where a session is listening, takes its last audio out
    /// for the decoder to be flushed with.
    pub fn stop_listening(&mut self) -> (plan: StopPlan)
        requires
            old(self)@.wf(),
        ensures
            final(self)@.wf(),
            final(self)@ == flushing(old(self)@),
            match plan {
                StopPlan::NotListening => !old(self)@.listening,
                StopPlan::Flush(None) => old(self)@.listening && flush_audio(old(self)@) is None,
                StopPlan::Flush(Some(audio)) => old(self)@.listening && flush_audio(old(self)@)
                    == Some(audio@),
            },
    {
        let ghost before = self@;
        if !self.is_listening {
            return StopPlan::NotListening;
        }
        let audio = match &mut self.audio_processor {
            Some(processor) => processor.take_rest(),
            None => None,
        };
        assert(self@ =~= flushing(before));
        StopPlan::Flush(audio)
    }

    /// Closes the session with what the flushed decoder said. Returns the
    /// final result, if there is one, and what to tell the webview.
    pub fn finish_stop(&mut self, result: CompleteResult) -> (stop: (
        Option<RecognitionResult>,
        Vec<PluginEvent>,
    ))
        requires
            old(self)@.wf(),
            old(self)@.listening,
        ensures
            final(self)@.wf(),
            final(self)@ == stopped(old(self)@),
            result_view(stop.0) == committed(best_text(result@)),
            event_views(stop.1@) == close_events(best_text(result@)),
    {
        let ghost before = self@;
        let text = complete_result_text(result);
        let report = match &mut self.audio_processor {
            Some(processor) => processor.last_utterance(text),
            None => None,
        };
        self.go_idle();
        assert(self@ =~= stopped(before));
        let mut events: Vec<PluginEvent> = Vec::new();
        match &report {
            Some(r) => {
                events.push(
                    PluginEvent::Result(
                        RecognitionResult {
                            transcript: r.transcript.clone(),
                            is_final: r.is_final,
                            confidence: r.confidence,
                        },
                    ),
                );
            },
            None => {},
        }
        events.push(state_change(RecognitionState::Idle, None));
        assert(event_views(events@) =~= close_events(best_text(result@)));
        (report, events)
    }

    /// The time limit of the session `id` has passed. Stops that session if it
    /// is still listening. Returns what to tell the webview.
    pub fn timer_expired(&mut self, id: u64) -> (events: Vec<PluginEvent>)
        requires
            old(self)@.wf(),
        ensures
            final(self)@.wf(),
            final(self)@ == timed_out(old(self)@, id),
            event_views(events@) == timer_events(old(self)@, id),
    {
        let ghost before = self@;
        let mut events: Vec<PluginEvent> = Vec::new();
        if self.is_listening && self.active_session_id == id {
            self.go_idle();
            events.push(state_change(RecognitionState::Idle, None));
            events.push(
                PluginEvent::Error(
                    SttError {
                        code: SttErrorCode::Timeout,
                        message: String::from_str("Maximum duration reached"),
                        details: None,
                    },
                ),
            );
        }
        assert(self@ =~= timed_out(before, id));
        assert(event_views(events@) =~= timer_events(before, id));
        events
    }

    /// Whether speech can be recognized here: there has to be an input device.
    pub fn is_available(&self, input_device: bool) -> (response: Result<AvailabilityResponse, Error>)
        ensures
            response matches Ok(r) && r.available == input_device && opt_text(r.reason) == (
            if input_device {
                None
            } else {
                Some("No input audio device available"@)
            }),
    {
        Ok(
            AvailabilityResponse {
                available: input_device,
                reason: if input_device {
                    None
                } else {
                    Some(String::from_str("No input audio device available"))
                },
            },
        )
    }

    /// The supported languages, with the installed ones told by the markers
    /// read from the model directories, in the order of the catalog.
    pub fn get_supported_languages(&self, recorded: &Vec<Option<String>>) -> (response: Result<
        SupportedLanguagesResponse,
        Error,
    >)
        requires
            recorded@.len() == catalog().len(),
        ensures
            response matches Ok(r) && r.languages@.len() == catalog().len() && forall|i: int|
                0 <= i < catalog().len() ==> describes(
                    #[trigger] r.languages@[i],
                    catalog()[i],
                    opt_text(recorded@[i]),
                ),
    {
        Ok(supported_languages(recorded))
    }

    /// The desktop needs no permission: both count as granted.
    pub fn check_permission(&self) -> (response: Result<PermissionResponse, Error>)
        ensures
            response == Ok::<PermissionResponse, Error>(
                PermissionResponse {
                    microphone: PermissionStatus::Granted,
                    speech_recognition: PermissionStatus::Granted,
                },
            ),
    {
        Ok(
            PermissionResponse {
                microphone: PermissionStatus::Granted,
                speech_recognition: PermissionStatus::Granted,
            },
        )
    }

    /// The desktop needs no permission: both count as granted.
    pub fn request_permission(&self) -> (response: Result<PermissionResponse, Error>)
        ensures
            response == Ok::<PermissionResponse, Error>(
                PermissionResponse {
                    microphone: PermissionStatus::Granted,
                    speech_recognition: PermissionStatus::Granted,
                },
            ),
    {
        self.check_permission()
    }

    /// The status of the buffer-fed recognizer for `language`, given the
    /// marker read from the directory of the language's model: it is always
    /// available, and its model is installed if the marker says so.
    pub fn status(&self, language: &str, recorded: &Option<String>) -> (status: RecognizerStatus)
        ensures
            status@ == (RecognizerStatusView {
                available: true,
                reason: None,
                model_installed: (match model_for(language@) {
                    Some(info) => marker_complete(opt_text(*recorded), info.md5),
                    None => false,
                }),
                needs_model_download: true,
            }),
    {
        let model_installed = match get_model_info_for_language(language) {
            Some(spec) => spec.is_installed_in(recorded),
            None => false,
        };
        RecognizerStatus {
            available: true,
            reason: None,
            model_installed,
            needs_model_download: true,
        }
    }

    /// Begins to make sure that the model for `language` is present: the
    /// request for it, to be driven to its end.
    pub fn install_model(&self, language: &str) -> (request: ModelRequest)
        ensures
            request.wanted() == selected_model(Some(language@)),
            request.at() == RequestStepView::FindLoaded,
    {
        ModelRequest::new(Some(language), None)
    }

    /// The desktop always authorizes speech recognition.
    pub fn request_authorization(&self) -> (authorized: Result<bool, Error>)
        ensures
            authorized == Ok::<bool, Error>(true),
    {
        Ok(true)
    }

    /// Leaves the session, if there is one.
    fn go_idle(&mut self)
        ensures
            final(self)@ == old(self)@.idle(),
    {
        self.is_listening = false;
        self.listen_start_time = None;
        self.max_duration_ms = None;
        self.active_session_id = 0;
    }
}

/// The model that was loaded from an installed directory, or why there is
/// none: the directory is missing, or what it holds could not be loaded.
/// `path` is the directory, as it is shown to the user.
pub fn loaded_model<M>(exists: bool, path: &str, model: Option<M>) -> (loaded: Result<M, Error>)
    ensures
        match loaded {
            Ok(m) => exists && model == Some(m),
            Err(e) => if !exists {
                e@ == ErrorView::NotAvailable("Vosk model not found at "@ + path@)
            } else {
                model is None && e@ == ErrorView::Recording("Failed to load Vosk model"@)
            },
        },
{
    if !exists {
        let mut message = String::from_str("Vosk model not found at ");
        message.append(path);
        return Err(Error::NotAvailable(message));
    }
    match model {
        Some(m) => Ok(m),
        None => Err(Error::Recording(String::from_str("Failed to load Vosk model"))),
    }
}

/// What can happen to the plugin.
pub enum SttInput<M, R> {
    /// A session begins.
    Begin(ListenConfig, u64, SessionAudio<R>),
    /// Samples arrive from the stream.
    Audio(Seq<i16>),
    /// The decoder finalized an utterance with this text.
    Utterance(Seq<char>),
    /// The decoder has this hypothesis.
    Hypothesis(Seq<char>),
    /// The host stops listening: the last audio is taken out.
    Flush,
    /// The flushed session is closed with this last text.
    Close(Seq<char>),
    /// The timer of this session goes off.
    Timer(u64),
    /// The loaded model is forgotten, for another to be loaded.
    Forget,
    /// A model was loaded.
    Load(Seq<char>, Arc<M>, Option<R>),
}

/// Whether an input can happen in a state.
pub open spec fn stt_accepts<M, R>(s: SttModel<M, R>, input: SttInput<M, R>) -> bool {
    match input {
        SttInput::Begin(config, _, source) => {
            &&& !s.listening
            &&& s.last_session < u64::MAX
            &&& fits(s, config, source)
        },
        SttInput::Close(_) => s.listening,
        _ => true,
    }
}

/// The state after an input.
pub open spec fn stt_next<M, R>(s: SttModel<M, R>, input: SttInput<M, R>) -> SttModel<M, R> {
    match input {
        SttInput::Begin(config, now, source) => begun(s, config, now, source),
        SttInput::Audio(samples) => heard(s, samples),
        SttInput::Utterance(text) => after_utterance(s, text),
        SttInput::Hypothesis(text) => after_hypothesis(s, text),
        SttInput::Flush => flushing(s),
        SttInput::Close(_) => stopped(s),
        SttInput::Timer(id) => timed_out(s, id),
        SttInput::Forget => SttModel { model: None, model_name: None, ..s },
        SttInput::Load(name, model, recognizer) => with_model(s, name, model, recognizer),
    }
}

/// The state after a sequence of inputs.
pub open spec fn stt_after<M, R>(
    s: SttModel<M, R>,
    inputs: Seq<SttInput<M, R>>,
) -> SttModel<M, R>
    decreases inputs.len(),
{
    if inputs.len() == 0 {
        s
    } else {
        stt_next(stt_after(s, inputs.drop_last()), inputs.last())
    }
}

/// Whether each of a sequence of inputs can happen when it comes.
pub open spec fn is_history<M, R>(s: SttModel<M, R>, inputs: Seq<SttInput<M, R>>) -> bool
    decreases inputs.len(),
{
    inputs.len() > 0 ==> {
        &&& is_history(s, inputs.drop_last())
        &&& stt_accepts(stt_after(s, inputs.drop_last()), inputs.last())
    }
}

/// A timer stops its own session only: once a session is over, its number is
/// never given out again, so that a timer left running by it touches no
/// session that begins later, whatever happens in between.
pub proof fn law_old_timer_spares_later_sessions<M, R>(
    s: SttModel<M, R>,
    inputs: Seq<SttInput<M, R>>,
    id: u64,
)
    requires
        s.wf(),
        is_history(s, inputs),
        0 < id <= s.last_session,
        s.session != id,
    ensures
        stt_after(s, inputs).wf(),
        stt_after(s, inputs).last_session >= s.last_session,
        stt_after(s, inputs).session != id,
        timed_out(stt_after(s, inputs), id) == stt_after(s, inputs),
    decreases inputs.len(),
{
    if inputs.len() > 0 {
        law_old_timer_spares_later_sessions(s, inputs.drop_last(), id);
    }
}

/// The samples that arrived since the last session began, as long as it was
/// listening.
pub open spec fn session_audio<M, R>(s: SttModel<M, R>, inputs: Seq<SttInput<M, R>>) -> Seq<i16>
    decreases inputs.len(),
{
    if inputs.len() == 0 {
        Seq::empty()
    } else {
        let before = session_audio(s, inputs.drop_last());
        match inputs.last() {
            SttInput::Begin(_, _, _) => Seq::empty(),
            SttInput::Audio(samples) => if stt_after(s, inputs.drop_last()).listening {
                before + samples
            } else {
                before
            },
            _ => before,
        }
    }
}

/// Audio never bleeds from one session into the next: all that a listening
/// session holds for the decoder arrived since that session began, and is the
/// latest of it. What the decoder is handed when more arrives, or on a stop,
/// is taken from there.
pub proof fn law_only_session_audio_is_decoded<M, R>(
    s: SttModel<M, R>,
    inputs: Seq<SttInput<M, R>>,
)
    requires
        s.wf(),
        !s.listening,
        is_history(s, inputs),
    ensures
        stt_after(s, inputs).wf(),
        stt_after(s, inputs).listening ==> {
            let buffer = stt_after(s, inputs).audio->0.buffer;
            let arrived = session_audio(s, inputs);
            &&& buffer.len() <= arrived.len()
            &&& buffer == arrived.skip(arrived.len() - buffer.len())
        },
    decreases inputs.len(),
{
    if inputs.len() > 0 {
        let earlier = inputs.drop_last();
        law_only_session_audio_is_decoded(s, earlier);
        let after = stt_after(s, inputs);
        let arrived = session_audio(s, inputs);
        if after.listening {
            let buffer = after.audio->0.buffer;
            assert(buffer =~= arrived.skip(arrived.len() - buffer.len()));
        }
    }
}

/// What the webview is told of an input.
pub open spec fn events_of<M, R>(s: SttModel<M, R>, input: SttInput<M, R>) -> Seq<
    PluginEventView,
> {
    match input {
        SttInput::Begin(config, _, _) => begin_events(config),
        SttInput::Utterance(text) => utterance_events(s, text),
        SttInput::Hypothesis(text) => hypothesis_events(s, text),
        SttInput::Close(text) => close_events(text),
        SttInput::Timer(id) => timer_events(s, id),
        _ => Seq::empty(),
    }
}

/// The results among a sequence of events, in order.
pub open spec fn results_in(events: Seq<PluginEventView>) -> Seq<RecognitionResultView>
    decreases events.len(),
{
    if events.len() == 0 {
        Seq::empty()
    } else {
        let earlier = results_in(events.drop_last());
        match events.last() {
            PluginEventView::Result(r) => earlier.push(r),
            _ => earlier,
        }
    }
}

/// The results that the webview gets of an input.
pub open spec fn results_of<M, R>(s: SttModel<M, R>, input: SttInput<M, R>) -> Seq<
    RecognitionResultView,
> {
    results_in(events_of(s, input))
}

/// An input brings at most one result: that of a finalized utterance, that of
/// a hypothesis to report, or the last one of a session.
proof fn lemma_results_of_input<M, R>(s: SttModel<M, R>, input: SttInput<M, R>)
    ensures
        results_of(s, input) =~= (match input {
            SttInput::Utterance(text) => if s.listening && text.len() > 0 {
                seq![final_result_of(text)]
            } else {
                Seq::empty()
            },
            SttInput::Hypothesis(text) => if is_news(s, text) {
                seq![interim_result_of(text)]
            } else {
                Seq::empty()
            },
            SttInput::Close(text) => if text.len() > 0 {
                seq![final_result_of(text)]
            } else {
                Seq::empty()
            },
            _ => Seq::empty(),
        }),
{
    let events = events_of(s, input);
    reveal_with_fuel(results_in, 3);
    if events.len() > 0 {
        assert(events.drop_last().len() == events.len() - 1);
        if events.len() == 2 {
            assert(events.drop_last().last() == events[0]);
            assert(events.drop_last().drop_last().len() == 0);
        }
    }
}

/// All results that the webview gets of a sequence of inputs, in order.
pub open spec fn results_over<M, R>(s: SttModel<M, R>, inputs: Seq<SttInput<M, R>>) -> Seq<
    RecognitionResultView,
>
    decreases inputs.len(),
{
    if inputs.len() == 0 {
        Seq::empty()
    } else {
        results_over(s, inputs.drop_last()) + results_of(
            stt_after(s, inputs.drop_last()),
            inputs.last(),
        )
    }
}

/// Whether no other session begins in a sequence of inputs.
pub open spec fn is_one_session<M, R>(inputs: Seq<SttInput<M, R>>) -> bool {
    forall|i: int| 0 <= i < inputs.len() ==> !(#[trigger] inputs[i] is Begin)
}

/// Whether the decoder is not replaced in a sequence of inputs.
pub open spec fn keeps_decoder<M, R>(inputs: Seq<SttInput<M, R>>) -> bool {
    forall|i: int|
        0 <= i < inputs.len() ==> !(#[trigger] inputs[i] matches SttInput::Load(_, _, r) && r
            is Some)
}

/// Whether a result is one that a session can report: it has a text; a final
/// one has full confidence; a hypothesis has none, and comes only where
/// hypotheses were asked for.
pub open spec fn is_proper(result: RecognitionResultView, interim_results: bool) -> bool {
    &&& result.transcript.len() > 0
    &&& result.is_final ==> result.confidence == Some(FULL_CONFIDENCE)
    &&& !result.is_final ==> interim_results && result.confidence is None
}

/// What holds of the results of a session at any time: the hypothesis that was
/// reported last is the one remembered, as long as the session is listening.
proof fn lemma_results_of_session<M, R>(s: SttModel<M, R>, inputs: Seq<SttInput<M, R>>)
    requires
        s.wf(),
        s.listening,
        is_history(s, inputs),
        is_one_session(inputs),
    ensures
        ({
            let results = results_over(s, inputs);
            let after = stt_after(s, inputs);
            let interim = s.audio->0.interim_results;
            &&& after.wf()
            &&& after.audio is Some && after.audio->0.interim_results == interim
            &&& forall|i: int| 0 <= i < results.len() ==> is_proper(#[trigger] results[i], interim)
            &&& keeps_decoder(inputs) ==> {
                &&& after.listening && results.len() > 0 && !results.last().is_final
                    ==> after.audio->0.last_partial == results.last().transcript
                &&& forall|i: int, j: int|
                    0 <= i < results.len() && j == i + 1 && j < results.len()
                        && !(#[trigger] results[i]).is_final && !(#[trigger] results[j]).is_final
                        ==> results[i].transcript != results[j].transcript
            }
        }),
    decreases inputs.len(),
{
    if inputs.len() > 0 {
        let earlier = inputs.drop_last();
        let input = inputs.last();
        assert(input == inputs[inputs.len() - 1]);
        assert forall|i: int| 0 <= i < earlier.len() implies !(#[trigger] earlier[i] is Begin) by {
            assert(earlier[i] == inputs[i]);
        }
        lemma_results_of_session(s, earlier);
        let before = stt_after(s, earlier);
        let interim = s.audio->0.interim_results;
        let told = results_over(s, earlier);
        let now = results_of(before, input);
        lemma_results_of_input(before, input);
        let results = results_over(s, inputs);
        assert(results == told + now);
        assert(now.len() <= 1);
        assert forall|i: int| 0 <= i < results.len() implies is_proper(
            #[trigger] results[i],
            interim,
        ) by {
            if i < told.len() {
                assert(results[i] == told[i]);
            } else {
                assert(results[i] == now[i - told.len()]);
            }
        }
        if keeps_decoder(inputs) {
            assert forall|i: int| 0 <= i < earlier.len() implies !(
            #[trigger] earlier[i] matches SttInput::Load(_, _, r) && r is Some) by {
                assert(earlier[i] == inputs[i]);
            }
            if now.len() == 0 {
                assert(results =~= told);
            } else {
                assert(results.last() == now[0]);
                assert forall|i: int, j: int|
                    0 <= i < results.len() && j == i + 1 && j < results.len()
                        && !(#[trigger] results[i]).is_final && !(
                    #[trigger] results[j]).is_final implies results[i].transcript
                    != results[j].transcript by {
                    assert(results[i] == told[i]);
                    if j < told.len() {
                        assert(results[j] == told[j]);
                    } else {
                        assert(results[i] == told.last());
                        assert(results[j] == now[0]);
                    }
                }
            }
        }
    }
}

/// Of the results of one listening session, from its beginning on, each has a
/// text, a final one has full confidence, and a hypothesis has none and comes
/// only where hypotheses were asked for; and no hypothesis is reported twice
/// without a final result or another hypothesis between, unless a model that
/// was loaded meanwhile replaced the decoder.
pub proof fn law_results_of_a_session<M, R>(
    s: SttModel<M, R>,
    config: ListenConfig,
    now: u64,
    source: SessionAudio<R>,
    inputs: Seq<SttInput<M, R>>,
)
    requires
        s.wf(),
        stt_accepts(s, SttInput::Begin(config, now, source)),
        is_history(begun(s, config, now, source), inputs),
        is_one_session(inputs),
    ensures
        ({
            let results = results_over(begun(s, config, now, source), inputs);
            &&& forall|i: int|
                0 <= i < results.len() ==> is_proper(#[trigger] results[i], config.interim_results)
            &&& keeps_decoder(inputs) ==> forall|i: int, j: int|
                0 <= i < results.len() && j == i + 1 && j < results.len() && !(
                #[trigger] results[i]).is_final && !(#[trigger] results[j]).is_final
                    ==> results[i].transcript != results[j].transcript
        }),
{
    lemma_results_of_session(begun(s, config, now, source), inputs);
}

/// The timer of the session that is listening stops it.
pub proof fn law_timer_stops_its_session<M, R>(s: SttModel<M, R>)
    requires
        s.wf(),
        s.listening,
    ensures
        !timed_out(s, s.session).listening,
        timed_out(s, s.session).session == 0,
{
}

/// What arrives while no session is listening is dropped, and a new session
/// starts with no audio and no hypothesis, whatever the last one left behind.
pub proof fn law_session_starts_fresh<M, R>(
    s: SttModel<M, R>,
    samples: Seq<i16>,
    config: ListenConfig,
    now: u64,
    source: SessionAudio<R>,
)
    requires
        s.wf(),
        !s.listening,
        fits(s, config, source),
    ensures
        heard(s, samples) == s,
        to_decode(s, samples) is None,
        begun(s, config, now, source).audio matches Some(a) && a.is_fresh() && a.buffer.len() == 0
            && a.last_partial.len() == 0 && a.interim_results == config.interim_results,
{
}

/// A session that is over can be followed by a new one: after a stop, a time
/// limit or the first result of a session that is not continuous, no session
/// is listening and none has a number.
pub proof fn law_ended_session_leaves_plugin_idle<M, R>(s: SttModel<M, R>, text: Seq<char>)
    requires
        s.wf(),
        s.listening,
        text.len() > 0,
    ensures
        !stopped(flushing(s)).listening && stopped(flushing(s)).session == 0,
        !timed_out(s, s.session).listening,
        !s.continuous ==> !after_utterance(s, text).listening,
        s.continuous ==> after_utterance(s, text).listening && after_utterance(s, text).session
            == s.session,
{
}

/// Stopping loses no audio of the session: the decoder is flushed with all that
/// was kept, resampled, and nothing of it stays behind.
pub proof fn law_stop_flushes_all_audio<M, R>(s: SttModel<M, R>)
    requires
        s.wf(),
        s.listening,
    ensures
        s.audio matches Some(a) && flush_audio(s) == (if a.buffer.len() > 0 {
            Some(every_nth(a.buffer, a.resample_step))
        } else {
            None
        }),
        flushing(s).audio matches Some(a) && a.buffer.len() == 0,
        flush_audio(flushing(s)) is None,
        flushing(s).listening,
{
}

/// The audio pipeline is kept: once there is a stream with its processing
/// state, nothing that happens gives it up, be it a stop, a time limit or
/// another model, so that later sessions find it there to be reused.
pub proof fn law_stream_is_kept<M, R>(s: SttModel<M, R>, inputs: Seq<SttInput<M, R>>)
    requires
        s.wf(),
        s.stream,
        s.audio is Some,
        is_history(s, inputs),
    ensures
        stt_after(s, inputs).wf(),
        stt_after(s, inputs).stream,
        stt_after(s, inputs).audio is Some,
    decreases inputs.len(),
{
    if inputs.len() > 0 {
        law_stream_is_kept(s, inputs.drop_last());
    }
}

/// Whether an input begins a session on a new stream.
pub open spec fn opens_stream<M, R>(input: SttInput<M, R>) -> bool {
    input matches SttInput::Begin(_, _, source) && source is Opened
}

/// Once a stream was opened, it is there.
proof fn lemma_opened_stream_is_there<M, R>(
    s: SttModel<M, R>,
    inputs: Seq<SttInput<M, R>>,
    i: int,
)
    requires
        s.wf(),
        is_history(s, inputs),
        0 <= i < inputs.len(),
        opens_stream(inputs[i]),
    ensures
        stt_after(s, inputs).wf(),
        stt_after(s, inputs).stream,
        stt_after(s, inputs).audio is Some,
    decreases inputs.len(),
{
    let earlier = inputs.drop_last();
    if i < inputs.len() - 1 {
        assert(earlier[i] == inputs[i]);
        lemma_opened_stream_is_there(s, earlier, i);
    } else {
        lemma_history_keeps_wf(s, earlier);
    }
}

/// The state is well-formed whatever happens.
proof fn lemma_history_keeps_wf<M, R>(s: SttModel<M, R>, inputs: Seq<SttInput<M, R>>)
    requires
        s.wf(),
        is_history(s, inputs),
    ensures
        stt_after(s, inputs).wf(),
    decreases inputs.len(),
{
    if inputs.len() > 0 {
        lemma_history_keeps_wf(s, inputs.drop_last());
    }
}

/// There is never a second capture pipeline: in whatever happens, a stream is
/// opened once at most, and not at all where there is one already.
pub proof fn law_stream_is_opened_once<M, R>(
    s: SttModel<M, R>,
    inputs: Seq<SttInput<M, R>>,
    i: int,
    j: int,
)
    requires
        s.wf(),
        is_history(s, inputs),
        0 <= i < inputs.len(),
        0 <= j < inputs.len(),
        opens_stream(inputs[i]),
        opens_stream(inputs[j]),
    ensures
        i == j,
        !(s.stream && s.audio is Some),
    decreases inputs.len(),
{
    let earlier = inputs.drop_last();
    let last = inputs.len() - 1;
    if i < last && j < last {
        assert(earlier[i] == inputs[i] && earlier[j] == inputs[j]);
        law_stream_is_opened_once(s, earlier, i, j);
    } else {
        if i < last {
            assert(earlier[i] == inputs[i]);
            lemma_opened_stream_is_there(s, earlier, i);
        }
        if j < last {
            assert(earlier[j] == inputs[j]);
            lemma_opened_stream_is_there(s, earlier, j);
        }
        if s.stream && s.audio is Some {
            law_stream_is_kept(s, earlier);
        }
    }
}

/// Loading another model leaves the session alone: it goes on under its
/// number, on the same stream.
pub proof fn law_model_switch_keeps_session<M, R>(
    s: SttModel<M, R>,
    name: Seq<char>,
    model: Arc<M>,
    recognizer: Option<R>,
)
    requires
        s.wf(),
    ensures
        with_model(s, name, model, recognizer).listening == s.listening,
        with_model(s, name, model, recognizer).session == s.session,
        with_model(s, name, model, recognizer).stream == s.stream,
        with_model(s, name, model, recognizer).audio is Some == s.audio is Some,
{
}

/// A session begins under a number of its own, at its time, with the limit that
/// was asked for, if any; and the webview is told that it listens, in which
/// language.
pub proof fn law_session_begins_as_asked<M, R>(
    s: SttModel<M, R>,
    config: ListenConfig,
    now: u64,
    source: SessionAudio<R>,
)
    requires
        s.last_session < u64::MAX,
    ensures
        ({
            let b = begun(s, config, now, source);
            &&& b.listening
            &&& b.session == s.last_session + 1
            &&& b.last_session == s.last_session + 1
            &&& b.started == Some(now)
            &&& b.max_duration == limit_of(config)
            &&& b.continuous == config.continuous
            &&& b.stream
            &&& b.model == s.model
            &&& b.model_name == s.model_name
        }),
        config.max_duration == 0 ==> limit_of(config) is None,
        config.max_duration > 0 ==> limit_of(config) == Some(config.max_duration as u64),
        begin_events(config).len() == 1,
        begin_events(config)[0] matches PluginEventView::StateChange(status) && status.state
            == RecognitionState::Listening && status.is_available && status.language == opt_text(
            config.language,
        ),
{
}

/// A session takes over the stream it is given: a new one with its processing
/// state, or the one that is there, with the new decoder where there is one,
/// hypotheses as asked for, and nothing left of what was heard before.
pub proof fn law_session_takes_over_its_stream<M, R>(
    s: SttModel<M, R>,
    config: ListenConfig,
    now: u64,
    processor: AudioProcessor<R>,
    recognizer: Option<R>,
)
    ensures
        begun(s, config, now, SessionAudio::Opened(processor)).audio == Some(processor@),
        s.audio matches Some(a) ==> (begun(
            s,
            config,
            now,
            SessionAudio::Reused(recognizer),
        ).audio matches Some(b) && b.buffer.len() == 0 && b.last_partial.len() == 0
            && b.interim_results == config.interim_results && b.resample_step == a.resample_step
            && (recognizer matches Some(r) ==> b.recognizer == r) && (recognizer is None
            ==> b.recognizer == a.recognizer)),
{
}

/// Samples are accumulated while a session listens, and decoded, thinned out,
/// once there are enough; otherwise they change nothing. Nothing else changes.
pub proof fn law_samples_are_accumulated_and_decoded<M, R>(s: SttModel<M, R>, samples: Seq<i16>)
    requires
        s.wf(),
    ensures
        !s.listening ==> heard(s, samples) == s && to_decode(s, samples) is None,
        s.listening ==> (s.audio matches Some(a) && heard(s, samples).audio matches Some(b) && {
            let all = a.buffer + samples;
            let enough = all.len() >= 3200 && all.len() >= 1600 * a.resample_step;
            &&& enough ==> b.buffer.len() == 0 && to_decode(s, samples) == Some(
                every_nth(all, a.resample_step),
            )
            &&& !enough ==> b.buffer == all && to_decode(s, samples) is None
            &&& b.recognizer == a.recognizer
            &&& b.last_partial == a.last_partial
            &&& b.interim_results == a.interim_results
            &&& b.resample_step == a.resample_step
        }),
        heard(s, samples).listening == s.listening,
        heard(s, samples).session == s.session,
        heard(s, samples).stream == s.stream,
{
}

/// An utterance is reported with its text as it is, and then a session that is
/// not continuous is over, which the webview is told; an empty one, or one
/// outside a session, is not reported and changes nothing.
pub proof fn law_utterance_is_reported_as_it_is<M, R>(s: SttModel<M, R>, text: Seq<char>)
    requires
        s.wf(),
    ensures
        !s.listening || text.len() == 0 ==> after_utterance(s, text) == s && utterance_events(
            s,
            text,
        ).len() == 0,
        s.listening && text.len() > 0 ==> {
            let events = utterance_events(s, text);
            &&& events.len() == (if s.continuous {
                1int
            } else {
                2
            })
            &&& events[0] matches PluginEventView::Result(r) && r.transcript == text && r.is_final
                && r.confidence == Some(0x3f80_0000u32)
            &&& !s.continuous ==> (events[1] matches PluginEventView::StateChange(status)
                && status.state == RecognitionState::Idle && status.is_available && status.language
                is None)
            &&& after_utterance(s, text).listening == s.continuous
            &&& after_utterance(s, text).audio matches Some(a) && a.last_partial.len() == 0
                && a.buffer == s.audio->0.buffer && a.recognizer == s.audio->0.recognizer
        },
{
}

/// A hypothesis is reported with its text as it is exactly where a session
/// listens that asked for hypotheses, and it is neither empty nor the one
/// reported last.
pub proof fn law_hypothesis_is_reported_as_it_is<M, R>(s: SttModel<M, R>, text: Seq<char>)
    requires
        s.wf(),
        s.listening,
    ensures
        ({
            let a = s.audio->0;
            let news = a.interim_results && text.len() > 0 && text != a.last_partial;
            let events = hypothesis_events(s, text);
            &&& news ==> events.len() == 1 && (events[0] matches PluginEventView::Result(r)
                && r.transcript == text && !r.is_final && r.confidence is None) && (
            after_hypothesis(s, text).audio matches Some(b) && b.last_partial == text && b.buffer
                == a.buffer)
            &&& !news ==> events.len() == 0 && after_hypothesis(s, text) == s
        }),
{
}

/// A session that is stopped is over: the last text is reported as it is,
/// unless it is empty, and then that the plugin is idle. The stream, its
/// decoder and the loaded model stay.
pub proof fn law_stopped_session_reports_its_last_text<M, R>(s: SttModel<M, R>, text: Seq<char>)
    requires
        s.wf(),
        s.listening,
    ensures
        ({
            let events = close_events(text);
            let idle = events[events.len() - 1];
            &&& events.len() == (if text.len() > 0 {
                2int
            } else {
                1
            })
            &&& text.len() > 0 ==> (events[0] matches PluginEventView::Result(r) && r.transcript
                == text && r.is_final && r.confidence == Some(0x3f80_0000u32))
            &&& idle matches PluginEventView::StateChange(status) && status.state
                == RecognitionState::Idle && status.is_available && status.language is None
            &&& !stopped(s).listening
            &&& stopped(s).session == 0
            &&& stopped(s).started is None
            &&& stopped(s).max_duration is None
            &&& stopped(s).last_session == s.last_session
            &&& stopped(s).stream
            &&& stopped(s).model == s.model
            &&& stopped(s).audio matches Some(a) && a.last_partial.len() == 0 && a.recognizer
                == s.audio->0.recognizer && a.resample_step == s.audio->0.resample_step
        }),
{
}

/// The timer of the listening session ends it and tells the webview, first that
/// the plugin is idle, then why; any other timer changes nothing and tells
/// nothing.
pub proof fn law_timer_tells_of_the_limit<M, R>(s: SttModel<M, R>, id: u64)
    requires
        s.wf(),
        id > 0,
    ensures
        s.session != id ==> timed_out(s, id) == s && timer_events(s, id).len() == 0,
        s.session == id ==> {
            let events = timer_events(s, id);
            &&& events.len() == 2
            &&& events[0] matches PluginEventView::StateChange(status) && status.state
                == RecognitionState::Idle && status.is_available && status.language is None
            &&& events[1] matches PluginEventView::Error(e) && e.code == SttErrorCode::Timeout
                && e.message == "Maximum duration reached"@ && e.details is None
            &&& !timed_out(s, id).listening
            &&& timed_out(s, id).session == 0
            &&& timed_out(s, id).last_session == s.last_session
            &&& timed_out(s, id).audio == s.audio
            &&& timed_out(s, id).stream == s.stream
            &&& timed_out(s, id).model == s.model
        },
{
}

/// A model that was loaded is the one in use, under its name; a decoder that
/// came with it takes over a stream that is there, from scratch.
pub proof fn law_loaded_model_is_in_use<M, R>(
    s: SttModel<M, R>,
    name: Seq<char>,
    model: Arc<M>,
    recognizer: Option<R>,
)
    ensures
        with_model(s, name, model, recognizer).model == Some(model),
        with_model(s, name, model, recognizer).model_name == Some(name),
        recognizer is None || s.audio is None ==> with_model(s, name, model, recognizer).audio
            == s.audio,
        recognizer matches Some(r) ==> (s.audio matches Some(a) ==> (with_model(
            s,
            name,
            model,
            recognizer,
        ).audio matches Some(b) && b.recognizer == r && b.buffer.len() == 0
            && b.last_partial.len() == 0 && b.interim_results == a.interim_results
            && b.resample_step == a.resample_step)),
{
}

/// Whether a session that began under `session` is over after these inputs: it
/// was closed, its timer went off, or it was not continuous and had a result.
pub open spec fn is_over<M, R>(
    inputs: Seq<SttInput<M, R>>,
    continuous: bool,
    session: u64,
) -> bool {
    exists|i: int|
        0 <= i < inputs.len() && match #[trigger] inputs[i] {
            SttInput::Close(_) => true,
            SttInput::Timer(id) => id == session,
            SttInput::Utterance(text) => !continuous && text.len() > 0,
            _ => false,
        }
}

/// The texts that the decoder finalized in a session, in order, with the last
/// one that it was flushed for, where they are not empty.
pub open spec fn texts_said<M, R>(
    inputs: Seq<SttInput<M, R>>,
    continuous: bool,
    session: u64,
) -> Seq<Seq<char>>
    decreases inputs.len(),
{
    if inputs.len() == 0 {
        Seq::empty()
    } else {
        let earlier = texts_said(inputs.drop_last(), continuous, session);
        if is_over(inputs.drop_last(), continuous, session) {
            earlier
        } else {
            match inputs.last() {
                SttInput::Utterance(text) => if text.len() > 0 {
                    earlier.push(text)
                } else {
                    earlier
                },
                SttInput::Close(text) => if text.len() > 0 {
                    earlier.push(text)
                } else {
                    earlier
                },
                _ => earlier,
            }
        }
    }
}

/// The transcripts of the final results among these, in order.
pub open spec fn final_transcripts(results: Seq<RecognitionResultView>) -> Seq<Seq<char>>
    decreases results.len(),
{
    if results.len() == 0 {
        Seq::empty()
    } else {
        let earlier = final_transcripts(results.drop_last());
        if results.last().is_final {
            earlier.push(results.last().transcript)
        } else {
            earlier
        }
    }
}

/// A session listens until it is over, and its final results carry what was
/// said.
proof fn lemma_session_says_its_texts<M, R>(s: SttModel<M, R>, inputs: Seq<SttInput<M, R>>)
    requires
        s.wf(),
        s.listening,
        is_history(s, inputs),
        is_one_session(inputs),
    ensures
        stt_after(s, inputs).wf(),
        stt_after(s, inputs).listening <==> !is_over(inputs, s.continuous, s.session),
        stt_after(s, inputs).listening ==> stt_after(s, inputs).session == s.session,
        stt_after(s, inputs).continuous == s.continuous,
        final_transcripts(results_over(s, inputs)) == texts_said(inputs, s.continuous, s.session),
    decreases inputs.len(),
{
    if inputs.len() > 0 {
        let earlier = inputs.drop_last();
        let input = inputs.last();
        let n = inputs.len() as int;
        assert(input == inputs[n - 1]);
        assert forall|i: int| 0 <= i < earlier.len() implies !(#[trigger] earlier[i] is Begin) by {
            assert(earlier[i] == inputs[i]);
        }
        lemma_session_says_its_texts(s, earlier);
        let before = stt_after(s, earlier);
        if is_over(earlier, s.continuous, s.session) {
            let i = choose|i: int|
                0 <= i < earlier.len() && match #[trigger] earlier[i] {
                    SttInput::Close(_) => true,
                    SttInput::Timer(id) => id == s.session,
                    SttInput::Utterance(text) => !s.continuous && text.len() > 0,
                    _ => false,
                };
            assert(inputs[i] == earlier[i]);
            assert(is_over(inputs, s.continuous, s.session));
        } else if is_over(inputs, s.continuous, s.session) {
            let i = choose|i: int|
                0 <= i < inputs.len() && match #[trigger] inputs[i] {
                    SttInput::Close(_) => true,
                    SttInput::Timer(id) => id == s.session,
                    SttInput::Utterance(text) => !s.continuous && text.len() > 0,
                    _ => false,
                };
            if i < n - 1 {
                assert(earlier[i] == inputs[i]);
            }
            assert(i == n - 1);
        }
        lemma_results_of_input(before, input);
        let told = results_over(s, earlier);
        let now = results_of(before, input);
        let results = results_over(s, inputs);
        assert(results == told + now);
        if now.len() == 0 {
            assert(results =~= told);
        } else {
            assert(results.drop_last() =~= told);
            assert(results.last() == now[0]);
        }
    }
}

/// No utterance of a session is lost, repeated or changed: the final results
/// carry, in order, the texts that the decoder finalized while the session
/// listened and the one that it was flushed for, and nothing else.
pub proof fn law_final_results_are_what_was_said<M, R>(
    s: SttModel<M, R>,
    config: ListenConfig,
    now: u64,
    source: SessionAudio<R>,
    inputs: Seq<SttInput<M, R>>,
)
    requires
        s.wf(),
        stt_accepts(s, SttInput::Begin(config, now, source)),
        is_history(begun(s, config, now, source), inputs),
        is_one_session(inputs),
    ensures
        final_transcripts(results_over(begun(s, config, now, source), inputs)) == texts_said(
            inputs,
            config.continuous,
            (s.last_session + 1) as u64,
        ),
        stt_after(begun(s, config, now, source), inputs).listening <==> !is_over(
            inputs,
            config.continuous,
            (s.last_session + 1) as u64,
        ),
{
    lemma_session_says_its_texts(begun(s, config, now, source), inputs);
}

/// Each thing that happens changes what it is about and nothing else: samples
/// and hypotheses only the processing state, and the end of a session, whatever
/// brought it about, only what belongs to the session.
pub proof fn law_nothing_else_changes<M, R>(
    s: SttModel<M, R>,
    samples: Seq<i16>,
    text: Seq<char>,
    id: u64,
    name: Seq<char>,
    model: Arc<M>,
    recognizer: Option<R>,
)
    requires
        s.wf(),
    ensures
        ({
            let over = SttModel {
                listening: false,
                started: None,
                max_duration: None,
                session: 0u64,
                ..s
            };
            &&& heard(s, samples) == SttModel { audio: heard(s, samples).audio, ..s }
            &&& after_hypothesis(s, text) == SttModel {
                audio: after_hypothesis(s, text).audio,
                ..s
            }
            &&& flushing(s) == SttModel { audio: flushing(s).audio, ..s }
            &&& s.continuous ==> after_utterance(s, text) == SttModel {
                audio: after_utterance(s, text).audio,
                ..s
            }
            &&& s.listening && !s.continuous && text.len() > 0 ==> after_utterance(s, text)
                == SttModel { audio: after_utterance(s, text).audio, ..over }
            &&& stopped(s) == SttModel { audio: stopped(s).audio, ..over }
            &&& id > 0 && s.session == id ==> timed_out(s, id) == over
            &&& with_model(s, name, model, recognizer) == SttModel {
                model: Some(model),
                model_name: Some(name),
                audio: with_model(s, name, model, recognizer).audio,
                ..s
            }
        }),
{
}

/// Stopping takes out all the audio that was kept, thinned out, for the decoder
/// to be flushed with, where there is any; the processing state keeps all the
/// rest.
pub proof fn law_stop_takes_out_what_was_kept<M, R>(s: SttModel<M, R>)
    requires
        s.wf(),
        s.listening,
    ensures
        s.audio matches Some(a) && flushing(s).audio matches Some(b) && b.buffer.len() == 0
            && b.recognizer == a.recognizer && b.last_partial == a.last_partial
            && b.interim_results == a.interim_results && b.resample_step == a.resample_step
            && flush_audio(s) == (if a.buffer.len() == 0 {
            None
        } else {
            Some(every_nth(a.buffer, a.resample_step))
        }),
        flushing(s).listening,
{
}

/// The end of a session and what is said in it leave the processing state as
/// it is, but for the hypothesis reported last.
pub proof fn law_processing_state_outlives_what_is_said<M, R>(s: SttModel<M, R>, text: Seq<char>)
    requires
        s.wf(),
        s.listening,
    ensures
        s.audio matches Some(a) && stopped(s).audio matches Some(b) && after_utterance(
            s,
            text,
        ).audio matches Some(c) && after_hypothesis(s, text).audio matches Some(d) && {
            &&& b.buffer == a.buffer && c.buffer == a.buffer && d.buffer == a.buffer
            &&& b.recognizer == a.recognizer && c.recognizer == a.recognizer && d.recognizer
                == a.recognizer
            &&& b.interim_results == a.interim_results && c.interim_results == a.interim_results
                && d.interim_results == a.interim_results
            &&& b.resample_step == a.resample_step && c.resample_step == a.resample_step
                && d.resample_step == a.resample_step
        },
{
}

} // verus!
