//! What the speech decoder reports, and the session that turns its reports
//! into events for the host.
//!
//! The decoder itself runs outside: whoever drives a [`VoskSession`] hands it
//! the audio, asks it what the session wants to know, and passes the answers
//! on.

use vstd::prelude::*;
use vstd::string::*;

use crate::error::{Error, ErrorView};
use crate::recognizer::{
    recognizer_event_views, RecognizerConfig, RecognizerEvent, RecognizerEventView, Sample,
};
use crate::text::{same_text, text_views};

verus! {

/// A complete result of the decoder.
#[derive(Debug, Clone, PartialEq, Eq)]
pub enum CompleteResult {
    /// The text of the only transcript.
    Single(String),
    /// The texts of the alternatives, from most to least likely.
    Multiple(Vec<String>),
}

/// A [`CompleteResult`] with its texts as sequences of characters.
pub enum CompleteResultView {
    Single(Seq<char>),
    Multiple(Seq<Seq<char>>),
}

impl View for CompleteResult {
    type V = CompleteResultView;

    open spec fn view(&self) -> CompleteResultView {
        match self {
            CompleteResult::Single(text) => CompleteResultView::Single(text@),
            CompleteResult::Multiple(texts) => CompleteResultView::Multiple(text_views(texts@)),
        }
    }
}

/// The text that a complete result stands for: the only one, or the most
/// likely one, or nothing where there is none.
pub open spec fn best_text(result: CompleteResultView) -> Seq<char> {
    match result {
        CompleteResultView::Single(text) => text,
        CompleteResultView::Multiple(texts) => if texts.len() > 0 {
            texts[0]
        } else {
            Seq::empty()
        },
    }
}

/// The text that a complete result stands for.
pub fn complete_result_text(result: CompleteResult) -> (text: String)
    ensures
        text@ == best_text(result@),
{
    match result {
        CompleteResult::Single(text) => text,
        CompleteResult::Multiple(texts) => if texts.len() > 0 {
            texts[0].clone()
        } else {
            String::new()
        },
    }
}

/// What the decoder says after a chunk of audio.
#[derive(Debug, Clone, PartialEq, Eq)]
pub enum Decoding {
    /// Silence has occurred and an utterance can be retrieved.
    Finalized,
    /// Decoding still continues.
    Running,
    /// Decoding failed in some way.
    Failed,
    /// The audio was not accepted, for this reason.
    Rejected(String),
}

/// A [`Decoding`] with its reason as a sequence of characters.
pub enum DecodingView {
    Finalized,
    Running,
    Failed,
    Rejected(Seq<char>),
}

impl View for Decoding {
    type V = DecodingView;

    open spec fn view(&self) -> DecodingView {
        match self {
            Decoding::Finalized => DecodingView::Finalized,
            Decoding::Running => DecodingView::Running,
            Decoding::Failed => DecodingView::Failed,
            Decoding::Rejected(reason) => DecodingView::Rejected(reason@),
        }
    }
}

/// What to ask the decoder next.
#[derive(Debug, Clone, Copy, PartialEq, Eq, Structural)]
pub enum Query {
    /// Its complete result.
    Complete,
    /// Its hypothesis for the utterance in progress.
    Partial,
    /// Nothing.
    Nothing,
}

/// The state of a session as the host can tell it.
pub struct SessionModel {
    /// Whether hypotheses are reported.
    pub interim_results: bool,
    /// The hypothesis reported last since the last complete result.
    pub last_partial: Seq<char>,
    /// Whether the session is over.
    pub ended: bool,
}

/// What can happen to a session.
pub enum SessionInput {
    /// The decoder took a chunk of audio and says this.
    Decoded(DecodingView),
    /// The decoder was asked for its complete result and gave this.
    Complete(CompleteResultView),
    /// The decoder was asked for its hypothesis and gave this.
    Partial(Seq<char>),
    /// The host wants the session finalized; the decoder's last result is
    /// this.
    Finish(CompleteResultView),
    /// The host aborts the session or drops it.
    Cancel,
}

/// The events that commit `text`: none where it is empty.
pub open spec fn commit(text: Seq<char>) -> Seq<RecognizerEventView> {
    if text.len() == 0 {
        Seq::empty()
    } else {
        seq![RecognizerEventView::Final(text)]
    }
}

/// A session, once over.
pub open spec fn over(s: SessionModel) -> SessionModel {
    SessionModel { ended: true, ..s }
}

/// The state of a session after an input, and the events that it delivers.
pub open spec fn session_step(s: SessionModel, input: SessionInput) -> (
    SessionModel,
    Seq<RecognizerEventView>,
) {
    if s.ended {
        (s, Seq::empty())
    } else {
        match input {
            SessionInput::Decoded(DecodingView::Failed) => (
                over(s),
                seq![
                    RecognizerEventView::Error("Vosk decoding failed"@),
                    RecognizerEventView::Ended,
                ],
            ),
            SessionInput::Decoded(DecodingView::Rejected(reason)) => (
                over(s),
                seq![
                    RecognizerEventView::Error("Vosk rejected audio: "@ + reason),
                    RecognizerEventView::Ended,
                ],
            ),
            SessionInput::Decoded(_) => (s, Seq::empty()),
            SessionInput::Complete(result) => (
                SessionModel { last_partial: Seq::empty(), ..s },
                commit(best_text(result)),
            ),
            SessionInput::Partial(text) => if s.interim_results && text.len() > 0 && text
                != s.last_partial {
                (
                    SessionModel { last_partial: text, ..s },
                    seq![RecognizerEventView::Partial(text)],
                )
            } else {
                (s, Seq::empty())
            },
            SessionInput::Finish(result) => (
                over(s),
                commit(best_text(result)).push(RecognizerEventView::Ended),
            ),
            SessionInput::Cancel => (over(s), seq![RecognizerEventView::Ended]),
        }
    }
}

/// What a session asks the decoder after it took a chunk of audio.
pub open spec fn session_query(s: SessionModel, decoding: DecodingView) -> Query {
    if s.ended {
        Query::Nothing
    } else {
        match decoding {
            DecodingView::Finalized => Query::Complete,
            DecodingView::Running => if s.interim_results {
                Query::Partial
            } else {
                Query::Nothing
            },
            _ => Query::Nothing,
        }
    }
}

/// A buffer-fed recognition session over a Vosk decoder.
#[derive(Debug)]
pub struct VoskSession {
    interim_results: bool,
    last_partial: String,
    ended: bool,
}

impl View for VoskSession {
    type V = SessionModel;

    closed spec fn view(&self) -> SessionModel {
        SessionModel {
            interim_results: self.interim_results,
            last_partial: self.last_partial@,
            ended: self.ended,
        }
    }
}

impl VoskSession {
    /// A session that has heard nothing.
    pub fn new(interim_results: bool) -> (session: VoskSession)
        ensures
            session@ == (SessionModel {
                interim_results,
                last_partial: Seq::empty(),
                ended: false,
            }),
    {
        VoskSession { interim_results, last_partial: String::new(), ended: false }
    }

    /// Opens a session as `config` asks for; refused where no decoder could be
    /// created for it.
    pub fn open(decoder_created: bool, config: &RecognizerConfig) -> (session: Result<
        VoskSession,
        Error,
    >)
        ensures
            match session {
                Ok(s) => decoder_created && s@ == (SessionModel {
                    interim_results: config.interim_results,
                    last_partial: Seq::empty(),
                    ended: false,
                }),
                Err(e) => !decoder_created && e@ == ErrorView::Recording(
                    "Failed to create Vosk recognizer"@,
                ),
            },
    {
        if decoder_created {
            Ok(VoskSession::new(config.interim_results))
        } else {
            Err(Error::Recording(String::from_str("Failed to create Vosk recognizer")))
        }
    }

    /// Whether `samples` are to be decoded: not after the end, and not where
    /// there are none.
    pub fn accepts(&self, samples: &[Sample]) -> (accepted: bool)
        ensures
            accepted == (!self@.ended && samples@.len() > 0),
    {
        !self.ended && samples.len() > 0
    }

    /// Whether the session is still open, so that finishing it has something
    /// to finalize.
    pub fn is_open(&self) -> (open: bool)
        ensures
            open == !self@.ended,
    {
        !self.ended
    }

    /// Takes the decoder's report on a chunk of audio. Returns what to ask it
    /// next, and the events to deliver.
    pub fn feed(&mut self, decoding: Decoding) -> (next: (Query, Vec<RecognizerEvent>))
        ensures
            next.0 == session_query(old(self)@, decoding@),
            final(self)@ == session_step(old(self)@, SessionInput::Decoded(decoding@)).0,
            recognizer_event_views(next.1@) == session_step(
                old(self)@,
                SessionInput::Decoded(decoding@),
            ).1,
    {
        let mut events: Vec<RecognizerEvent> = Vec::new();
        let ghost before = self@;
        if self.ended {
            assert(recognizer_event_views(events@) =~= Seq::empty());
            return (Query::Nothing, events);
        }
        let query = match decoding {
            Decoding::Finalized => Query::Complete,
            Decoding::Running => if self.interim_results {
                Query::Partial
            } else {
                Query::Nothing
            },
            Decoding::Failed => {
                events.push(RecognizerEvent::Error(String::from_str("Vosk decoding failed")));
                self.end(&mut events);
                Query::Nothing
            },
            Decoding::Rejected(reason) => {
                let mut message = String::from_str("Vosk rejected audio: ");
                message.append(reason.as_str());
                events.push(RecognizerEvent::Error(message));
                self.end(&mut events);
                Query::Nothing
            },
        };
        assert(recognizer_event_views(events@) =~= session_step(
            before,
            SessionInput::Decoded(decoding@),
        ).1);
        (query, events)
    }

    /// Takes the decoder's complete result. Returns the events to deliver.
    pub fn complete(&mut self, result: CompleteResult) -> (events: Vec<RecognizerEvent>)
        ensures
            final(self)@ == session_step(old(self)@, SessionInput::Complete(result@)).0,
            recognizer_event_views(events@) == session_step(
                old(self)@,
                SessionInput::Complete(result@),
            ).1,
    {
        let mut events: Vec<RecognizerEvent> = Vec::new();
        let ghost before = self@;
        if !self.ended {
            let text = complete_result_text(result);
            self.last_partial = String::new();
            if !text.as_str().is_empty() {
                events.push(RecognizerEvent::Final(text));
            }
        }
        assert(recognizer_event_views(events@) =~= session_step(
            before,
            SessionInput::Complete(result@),
        ).1);
        events
    }

    /// Takes the decoder's hypothesis. Returns the events to deliver: none
    /// where the hypothesis is empty or was just reported.
    pub fn partial(&mut self, text: String) -> (events: Vec<RecognizerEvent>)
        ensures
            final(self)@ == session_step(old(self)@, SessionInput::Partial(text@)).0,
            recognizer_event_views(events@) == session_step(
                old(self)@,
                SessionInput::Partial(text@),
            ).1,
    {
        let mut events: Vec<RecognizerEvent> = Vec::new();
        let ghost before = self@;
        if !self.ended && self.interim_results && !text.as_str().is_empty() && !same_text(
            text.as_str(),
            self.last_partial.as_str(),
        ) {
            self.last_partial = text.clone();
            events.push(RecognizerEvent::Partial(text));
        }
        assert(recognizer_event_views(events@) =~= session_step(
            before,
            SessionInput::Partial(text@),
        ).1);
        events
    }

    /// Finalizes the session with the decoder's last result. Returns the
    /// events to deliver.
    pub fn finish(&mut self, result: CompleteResult) -> (events: Vec<RecognizerEvent>)
        ensures
            final(self)@ == session_step(old(self)@, SessionInput::Finish(result@)).0,
            recognizer_event_views(events@) == session_step(
                old(self)@,
                SessionInput::Finish(result@),
            ).1,
    {
        let mut events: Vec<RecognizerEvent> = Vec::new();
        let ghost before = self@;
        if !self.ended {
            let text = complete_result_text(result);
            if !text.as_str().is_empty() {
                events.push(RecognizerEvent::Final(text));
            }
            self.end(&mut events);
        }
        assert(recognizer_event_views(events@) =~= session_step(
            before,
            SessionInput::Finish(result@),
        ).1);
        events
    }

    /// Aborts the session; dropping one does the same. Returns the events to
    /// deliver.
    pub fn cancel(&mut self) -> (events: Vec<RecognizerEvent>)
        ensures
            final(self)@ == session_step(old(self)@, SessionInput::Cancel).0,
            recognizer_event_views(events@) == session_step(old(self)@, SessionInput::Cancel).1,
    {
        let mut events: Vec<RecognizerEvent> = Vec::new();
        let ghost before = self@;
        self.end(&mut events);
        assert(recognizer_event_views(events@) =~= session_step(before, SessionInput::Cancel).1);
        events
    }

    /// Ends the session, once.
    fn end(&mut self, events: &mut Vec<RecognizerEvent>)
        ensures
            final(self)@ == over(old(self)@),
            final(events)@ == (if old(self)@.ended {
                old(events)@
            } else {
                old(events)@.push(RecognizerEvent::Ended)
            }),
    {
        if !self.ended {
            self.ended = true;
            events.push(RecognizerEvent::Ended);
        }
    }
}

/// All events that a session delivers over a sequence of inputs.
pub open spec fn session_events(s: SessionModel, inputs: Seq<SessionInput>) -> Seq<
    RecognizerEventView,
>
    decreases inputs.len(),
{
    if inputs.len() == 0 {
        Seq::empty()
    } else {
        let (next, events) = session_step(s, inputs.first());
        events + session_events(next, inputs.drop_first())
    }
}

/// The state of a session after a sequence of inputs.
pub open spec fn session_after(s: SessionModel, inputs: Seq<SessionInput>) -> SessionModel
    decreases inputs.len(),
{
    if inputs.len() == 0 {
        s
    } else {
        session_after(session_step(s, inputs.first()).0, inputs.drop_first())
    }
}

/// A session that is over delivers nothing, whatever happens.
pub proof fn law_ended_session_is_silent(s: SessionModel, inputs: Seq<SessionInput>)
    requires
        s.ended,
    ensures
        session_events(s, inputs) == Seq::<RecognizerEventView>::empty(),
        session_after(s, inputs) == s,
    decreases inputs.len(),
{
    if inputs.len() > 0 {
        law_ended_session_is_silent(s, inputs.drop_first());
        assert(session_events(s, inputs) =~= Seq::<RecognizerEventView>::empty());
    }
}

/// `Ended` comes last and comes exactly when the session is over: no event
/// follows it, and it is delivered once, if and only if the session ended.
pub proof fn law_nothing_follows_ended(s: SessionModel, inputs: Seq<SessionInput>)
    requires
        !s.ended,
    ensures
        ({
            let events = session_events(s, inputs);
            &&& forall|i: int|
                0 <= i < events.len() && #[trigger] events[i] == RecognizerEventView::Ended ==> i
                    == events.len() - 1
            &&& session_after(s, inputs).ended <==> events.len() > 0 && events.last()
                == RecognizerEventView::Ended
        }),
    decreases inputs.len(),
{
    if inputs.len() > 0 {
        let (next, now) = session_step(s, inputs.first());
        let rest = session_events(next, inputs.drop_first());
        let events = session_events(s, inputs);
        assert(events =~= now + rest);
        if next.ended {
            law_ended_session_is_silent(next, inputs.drop_first());
            assert(events =~= now);
        } else {
            law_nothing_follows_ended(next, inputs.drop_first());
            assert forall|i: int|
                0 <= i < events.len() && #[trigger] events[i]
                    == RecognizerEventView::Ended implies i == events.len() - 1 by {
                if i >= now.len() {
                    assert(events[i] == rest[i - now.len()]);
                }
            }
            if rest.len() > 0 {
                assert(events.last() == rest.last());
            } else {
                assert(events =~= now);
            }
        }
    }
}

/// An `Error` is followed by `Ended`.
pub proof fn law_error_is_followed_by_ended(s: SessionModel, inputs: Seq<SessionInput>)
    ensures
        ({
            let events = session_events(s, inputs);
            forall|i: int|
                0 <= i < events.len() && #[trigger] events[i] is Error ==> i + 1 < events.len()
                    && events[i + 1] == RecognizerEventView::Ended
        }),
    decreases inputs.len(),
{
    if inputs.len() > 0 {
        let (next, now) = session_step(s, inputs.first());
        let rest = session_events(next, inputs.drop_first());
        let events = session_events(s, inputs);
        assert(events =~= now + rest);
        law_error_is_followed_by_ended(next, inputs.drop_first());
        assert forall|i: int| 0 <= i < events.len() && #[trigger] events[i] is Error implies i + 1
            < events.len() && events[i + 1] == RecognizerEventView::Ended by {
            if i < now.len() {
                assert(events[i] == now[i]);
                assert(events[i + 1] == now[i + 1]);
            } else {
                assert(events[i] == rest[i - now.len()]);
                assert(events[i + 1] == rest[i + 1 - now.len()]);
            }
        }
    }
}

/// However a host closes a session, it is over afterwards; and closing it a
/// second time, as dropping a finished session does, delivers nothing more.
pub proof fn law_closing_ends_once(s: SessionModel, result: CompleteResultView, again: SessionInput)
    ensures
        session_step(s, SessionInput::Cancel).0.ended,
        session_step(s, SessionInput::Finish(result)).0.ended,
        session_step(session_step(s, SessionInput::Cancel).0, again).1 == Seq::<
            RecognizerEventView,
        >::empty(),
        session_step(session_step(s, SessionInput::Finish(result)).0, again).1 == Seq::<
            RecognizerEventView,
        >::empty(),
{
}

/// Cancelling an open session delivers `Ended` and no transcript; finishing it
/// delivers the final transcript, if there is one, and then `Ended`.
pub proof fn law_close_of_open_session(s: SessionModel, result: CompleteResultView)
    requires
        !s.ended,
    ensures
        session_step(s, SessionInput::Cancel).1 == seq![RecognizerEventView::Ended],
        session_step(s, SessionInput::Finish(result)).1 == (if best_text(result).len() == 0 {
            seq![RecognizerEventView::Ended]
        } else {
            seq![RecognizerEventView::Final(best_text(result)), RecognizerEventView::Ended]
        }),
{
    assert(session_step(s, SessionInput::Finish(result)).1 =~= (if best_text(result).len() == 0 {
        seq![RecognizerEventView::Ended]
    } else {
        seq![RecognizerEventView::Final(best_text(result)), RecognizerEventView::Ended]
    }));
}

/// Nothing empty is ever delivered, and no hypothesis unless hypotheses were
/// asked for.
pub proof fn law_no_empty_text(s: SessionModel, inputs: Seq<SessionInput>)
    ensures
        ({
            let events = session_events(s, inputs);
            forall|i: int|
                0 <= i < events.len() ==> match #[trigger] events[i] {
                    RecognizerEventView::Partial(text) => s.interim_results && text.len() > 0,
                    RecognizerEventView::Final(text) => text.len() > 0,
                    _ => true,
                }
        }),
    decreases inputs.len(),
{
    if inputs.len() > 0 {
        let (next, now) = session_step(s, inputs.first());
        let rest = session_events(next, inputs.drop_first());
        let events = session_events(s, inputs);
        assert(events =~= now + rest);
        law_no_empty_text(next, inputs.drop_first());
        assert forall|i: int| 0 <= i < events.len() implies match #[trigger] events[i] {
            RecognizerEventView::Partial(text) => s.interim_results && text.len() > 0,
            RecognizerEventView::Final(text) => text.len() > 0,
            _ => true,
        } by {
            if i < now.len() {
                assert(events[i] == now[i]);
            } else {
                assert(events[i] == rest[i - now.len()]);
            }
        }
    }
}

/// A hypothesis that has not changed is not reported again.
pub proof fn law_same_hypothesis_is_reported_once(s: SessionModel, text: Seq<char>)
    ensures
        session_step(session_step(s, SessionInput::Partial(text)).0, SessionInput::Partial(text)).1
            == Seq::<RecognizerEventView>::empty(),
{
}

/// The text of a complete result is the only one, or the first of several, or
/// empty where there is none.
pub proof fn law_text_of_a_result(text: Seq<char>, texts: Seq<Seq<char>>)
    ensures
        best_text(CompleteResultView::Single(text)) == text,
        texts.len() > 0 ==> best_text(CompleteResultView::Multiple(texts)) == texts[0],
        texts.len() == 0 ==> best_text(CompleteResultView::Multiple(texts)).len() == 0,
{
}

/// Every utterance that the decoder completes is committed with its text,
/// whatever was reported before; an empty one is not. What was reported is then
/// forgotten, and the session goes on.
pub proof fn law_completed_utterance_is_committed(s: SessionModel, result: CompleteResultView)
    requires
        !s.ended,
    ensures
        ({
            let (next, events) = session_step(s, SessionInput::Complete(result));
            &&& events == (if best_text(result).len() == 0 {
                Seq::empty()
            } else {
                seq![RecognizerEventView::Final(best_text(result))]
            })
            &&& next.last_partial.len() == 0
            &&& !next.ended
            &&& next.interim_results == s.interim_results
        }),
{
}

/// A hypothesis is reported with its text exactly where hypotheses are asked
/// for, it is not empty, and it is not the one reported last; and it is then
/// the one reported last.
pub proof fn law_new_hypothesis_is_reported(s: SessionModel, text: Seq<char>)
    requires
        !s.ended,
    ensures
        ({
            let (next, events) = session_step(s, SessionInput::Partial(text));
            let news = s.interim_results && text.len() > 0 && text != s.last_partial;
            &&& news ==> events == seq![RecognizerEventView::Partial(text)] && next.last_partial
                == text
            &&& !news ==> events.len() == 0 && next.last_partial == s.last_partial
            &&& !next.ended
            &&& next.interim_results == s.interim_results
        }),
{
}

/// A decoder that fails or does not take the audio ends the session with an
/// error that says so; one that goes on, or has an utterance ready, changes
/// nothing by itself.
pub proof fn law_what_the_decoder_says(s: SessionModel, reason: Seq<char>)
    requires
        !s.ended,
    ensures
        session_step(s, SessionInput::Decoded(DecodingView::Failed)).1 == seq![
            RecognizerEventView::Error("Vosk decoding failed"@),
            RecognizerEventView::Ended,
        ],
        session_step(s, SessionInput::Decoded(DecodingView::Failed)).0.ended,
        session_step(s, SessionInput::Decoded(DecodingView::Rejected(reason))).1 == seq![
            RecognizerEventView::Error("Vosk rejected audio: "@ + reason),
            RecognizerEventView::Ended,
        ],
        session_step(s, SessionInput::Decoded(DecodingView::Rejected(reason))).0.ended,
        session_step(s, SessionInput::Decoded(DecodingView::Running)) == (
            s,
            Seq::<RecognizerEventView>::empty(),
        ),
        session_step(s, SessionInput::Decoded(DecodingView::Finalized)) == (
            s,
            Seq::<RecognizerEventView>::empty(),
        ),
{
}

/// The decoder is asked for its result when an utterance is ready, for its
/// hypothesis while it goes on and hypotheses are asked for, and for nothing
/// else.
pub proof fn law_what_the_decoder_is_asked(s: SessionModel, decoding: DecodingView)
    ensures
        session_query(s, decoding) == Query::Complete <==> !s.ended && decoding
            == DecodingView::Finalized,
        session_query(s, decoding) == Query::Partial <==> !s.ended && decoding
            == DecodingView::Running && s.interim_results,
{
}

/// The texts of the `Final` events among these, in order.
pub open spec fn finals_in(events: Seq<RecognizerEventView>) -> Seq<Seq<char>>
    decreases events.len(),
{
    if events.len() == 0 {
        Seq::empty()
    } else {
        let earlier = finals_in(events.drop_last());
        match events.last() {
            RecognizerEventView::Final(text) => earlier.push(text),
            _ => earlier,
        }
    }
}

/// The texts that the decoder commits over a sequence of inputs to an open
/// session, in order: those of its complete results and of the last one, where
/// they are not empty, up to the end of the session.
pub open spec fn texts_committed(inputs: Seq<SessionInput>) -> Seq<Seq<char>>
    decreases inputs.len(),
{
    if inputs.len() == 0 {
        Seq::empty()
    } else {
        let rest = texts_committed(inputs.drop_first());
        match inputs.first() {
            SessionInput::Complete(result) => if best_text(result).len() > 0 {
                seq![best_text(result)] + rest
            } else {
                rest
            },
            SessionInput::Finish(result) => if best_text(result).len() > 0 {
                seq![best_text(result)]
            } else {
                Seq::empty()
            },
            SessionInput::Cancel => Seq::empty(),
            SessionInput::Decoded(DecodingView::Failed) => Seq::empty(),
            SessionInput::Decoded(DecodingView::Rejected(_)) => Seq::empty(),
            _ => rest,
        }
    }
}

/// The finals of two sequences of events are the finals of both, in order.
proof fn lemma_finals_of_both(a: Seq<RecognizerEventView>, b: Seq<RecognizerEventView>)
    ensures
        finals_in(a + b) == finals_in(a) + finals_in(b),
    decreases b.len(),
{
    if b.len() == 0 {
        assert(a + b =~= a);
        assert(finals_in(a) + finals_in(b) =~= finals_in(a));
    } else {
        lemma_finals_of_both(a, b.drop_last());
        assert((a + b).drop_last() =~= a + b.drop_last());
        assert((a + b).last() == b.last());
        assert(finals_in(a + b) =~= finals_in(a) + finals_in(b));
    }
}

/// No utterance is lost, repeated or changed: the `Final` events of a session
/// carry, in order, the texts that the decoder completed and the last one, and
/// nothing else.
pub proof fn law_every_utterance_is_delivered(s: SessionModel, inputs: Seq<SessionInput>)
    requires
        !s.ended,
    ensures
        finals_in(session_events(s, inputs)) == texts_committed(inputs),
    decreases inputs.len(),
{
    if inputs.len() > 0 {
        let (next, now) = session_step(s, inputs.first());
        let later = inputs.drop_first();
        let rest = session_events(next, later);
        lemma_finals_of_both(now, rest);
        reveal_with_fuel(finals_in, 3);
        if now.len() > 0 {
            assert(now.drop_last().len() == now.len() - 1);
            if now.len() == 2 {
                assert(now.drop_last().last() == now[0]);
                assert(now.drop_last().drop_last().len() == 0);
            }
        }
        if next.ended {
            law_ended_session_is_silent(next, later);
        } else {
            law_every_utterance_is_delivered(next, later);
        }
        assert(finals_in(session_events(s, inputs)) =~= texts_committed(inputs));
    }
}

/// The views of what the decoder says tell its texts as they are.
pub proof fn law_decoder_is_heard_as_it_speaks(text: String, texts: Vec<String>, i: int)
    requires
        0 <= i < texts@.len(),
    ensures
        Decoding::Finalized@ == DecodingView::Finalized,
        Decoding::Running@ == DecodingView::Running,
        Decoding::Failed@ == DecodingView::Failed,
        Decoding::Rejected(text)@ == DecodingView::Rejected(text@),
        CompleteResult::Single(text)@ == CompleteResultView::Single(text@),
        CompleteResult::Multiple(texts)@ matches CompleteResultView::Multiple(views)
            && views.len() == texts@.len() && views[i] == texts@[i]@,
{
}

} // verus!
