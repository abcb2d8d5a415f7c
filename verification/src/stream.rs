//! Opening the input stream of a listening session as a sequence of steps.
//!
//! A [`StreamOpening`] says which step comes next; whoever drives it performs
//! that step on the audio device or the decoder and hands back the
//! [`StreamOutcome`].

use vstd::prelude::*;
use vstd::string::*;

use crate::audio::RecognizerSettings;
use crate::error::{Error, ErrorView};

verus! {

/// How a device encodes its samples.
#[derive(Debug, Clone, PartialEq, Eq)]
pub enum SampleFormat {
    /// Floating-point numbers between -1 and 1.
    F32,
    /// Signed numbers of sixteen bits.
    I16,
    /// Unsigned numbers of sixteen bits.
    U16,
    /// Anything else, under the name it is shown by.
    Other(String),
}

/// A [`SampleFormat`] with its name as a sequence of characters.
pub enum SampleFormatView {
    F32,
    I16,
    U16,
    Other(Seq<char>),
}

impl View for SampleFormat {
    type V = SampleFormatView;

    open spec fn view(&self) -> SampleFormatView {
        match self {
            SampleFormat::F32 => SampleFormatView::F32,
            SampleFormat::I16 => SampleFormatView::I16,
            SampleFormat::U16 => SampleFormatView::U16,
            SampleFormat::Other(name) => SampleFormatView::Other(name@),
        }
    }
}

/// What a device records.
#[derive(Debug, Clone, PartialEq, Eq)]
pub struct InputConfig {
    /// How many channels are interleaved.
    pub channels: u16,
    /// How many frames it records per second.
    pub sample_rate: u32,
    /// How it encodes its samples.
    pub format: SampleFormat,
}

/// An [`InputConfig`] over the view of its format.
pub struct InputConfigView {
    pub channels: u16,
    pub sample_rate: u32,
    pub format: SampleFormatView,
}

impl View for InputConfig {
    type V = InputConfigView;

    open spec fn view(&self) -> InputConfigView {
        InputConfigView {
            channels: self.channels,
            sample_rate: self.sample_rate,
            format: self.format@,
        }
    }
}

/// A step of opening a stream.
#[derive(Debug, PartialEq, Eq)]
pub enum StreamStep {
    /// Find the default input device.
    FindDevice,
    /// Ask the device what it records.
    ReadConfig,
    /// Create a decoder with these settings.
    CreateRecognizer(RecognizerSettings, InputConfig),
    /// Build the stream for what the device records.
    BuildStream(InputConfig),
    /// Start the stream.
    Play(InputConfig),
    /// The stream is running.
    Playing(InputConfig),
    /// There is no stream.
    Failed(Error),
}

/// A [`StreamStep`] over the views of its contents.
pub enum StreamStepView {
    FindDevice,
    ReadConfig,
    CreateRecognizer(RecognizerSettings, InputConfigView),
    BuildStream(InputConfigView),
    Play(InputConfigView),
    Playing(InputConfigView),
    Failed(ErrorView),
}

impl View for StreamStep {
    type V = StreamStepView;

    open spec fn view(&self) -> StreamStepView {
        match self {
            StreamStep::FindDevice => StreamStepView::FindDevice,
            StreamStep::ReadConfig => StreamStepView::ReadConfig,
            StreamStep::CreateRecognizer(settings, input) => StreamStepView::CreateRecognizer(
                *settings,
                input@,
            ),
            StreamStep::BuildStream(input) => StreamStepView::BuildStream(input@),
            StreamStep::Play(input) => StreamStepView::Play(input@),
            StreamStep::Playing(input) => StreamStepView::Playing(input@),
            StreamStep::Failed(e) => StreamStepView::Failed(e@),
        }
    }
}

/// What came of a step.
#[derive(Debug, PartialEq, Eq)]
pub enum StreamOutcome {
    /// It was done.
    Done,
    /// What was looked for, or was to be created, is not there.
    Missing,
    /// It failed, for this reason.
    Broken(String),
    /// What the device records.
    Config(InputConfig),
}

/// A [`StreamOutcome`] over the views of its contents.
pub enum StreamOutcomeView {
    Done,
    Missing,
    Broken(Seq<char>),
    Config(InputConfigView),
}

impl View for StreamOutcome {
    type V = StreamOutcomeView;

    open spec fn view(&self) -> StreamOutcomeView {
        match self {
            StreamOutcome::Done => StreamOutcomeView::Done,
            StreamOutcome::Missing => StreamOutcomeView::Missing,
            StreamOutcome::Broken(reason) => StreamOutcomeView::Broken(reason@),
            StreamOutcome::Config(input) => StreamOutcomeView::Config(input@),
        }
    }
}

/// Whether an outcome is one that the step can have. The last steps have none.
pub open spec fn stream_answers(step: StreamStepView, outcome: StreamOutcomeView) -> bool {
    match step {
        StreamStepView::FindDevice => outcome is Done || outcome is Missing,
        StreamStepView::ReadConfig => outcome is Config || outcome is Broken,
        StreamStepView::CreateRecognizer(_, _) => outcome is Done || outcome is Missing,
        StreamStepView::BuildStream(_) => outcome is Done || outcome is Broken,
        StreamStepView::Play(_) => outcome is Done || outcome is Broken,
        StreamStepView::Playing(_) => false,
        StreamStepView::Failed(_) => false,
    }
}

/// A failure with this message.
pub open spec fn no_stream(message: Seq<char>) -> StreamStepView {
    StreamStepView::Failed(ErrorView::Recording(message))
}

/// The step that follows `step` when it had `outcome`.
pub open spec fn stream_next(
    settings: RecognizerSettings,
    step: StreamStepView,
    outcome: StreamOutcomeView,
) -> StreamStepView {
    match (step, outcome) {
        (StreamStepView::FindDevice, StreamOutcomeView::Missing) => no_stream(
            "No input device available"@,
        ),
        (StreamStepView::FindDevice, _) => StreamStepView::ReadConfig,
        (StreamStepView::ReadConfig, StreamOutcomeView::Config(input)) =>
            StreamStepView::CreateRecognizer(settings, input),
        (StreamStepView::ReadConfig, StreamOutcomeView::Broken(reason)) => no_stream(
            "Failed to get input config: "@ + reason,
        ),
        (StreamStepView::CreateRecognizer(_, _), StreamOutcomeView::Missing) => no_stream(
            "Failed to create recognizer"@,
        ),
        (StreamStepView::CreateRecognizer(_, input), _) => match input.format {
            SampleFormatView::Other(name) => no_stream("Unsupported sample format: "@ + name),
            _ => StreamStepView::BuildStream(input),
        },
        (StreamStepView::BuildStream(_), StreamOutcomeView::Broken(reason)) => no_stream(
            "Failed to build stream: "@ + reason,
        ),
        (StreamStepView::BuildStream(input), _) => StreamStepView::Play(input),
        (StreamStepView::Play(_), StreamOutcomeView::Broken(reason)) => no_stream(
            "Failed to start stream: "@ + reason,
        ),
        (StreamStepView::Play(input), _) => StreamStepView::Playing(input),
        _ => step,
    }
}

/// A failure: what could not be done, and why.
fn failed(what: &str, reason: &str) -> (step: StreamStep)
    ensures
        step@ == no_stream(what@ + reason@),
{
    let mut message = String::from_str(what);
    message.append(reason);
    StreamStep::Failed(Error::Recording(message))
}

/// The opening of one stream.
#[derive(Debug)]
pub struct StreamOpening {
    settings: RecognizerSettings,
    step: StreamStep,
}

impl StreamOpening {
    /// The settings for the decoder.
    pub closed spec fn decoder_settings(&self) -> RecognizerSettings {
        self.settings
    }

    /// The step to perform.
    pub closed spec fn at(&self) -> StreamStepView {
        self.step@
    }

    /// The opening of a stream whose decoder has these settings, before its
    /// first step.
    pub fn new(settings: RecognizerSettings) -> (opening: StreamOpening)
        ensures
            opening.decoder_settings() == settings,
            opening.at() == StreamStepView::FindDevice,
    {
        StreamOpening { settings, step: StreamStep::FindDevice }
    }

    /// The step to perform now.
    pub fn step(&self) -> (step: &StreamStep)
        ensures
            step@ == self.at(),
    {
        &self.step
    }

    /// Takes the outcome of the step and moves on to the next.
    pub fn advance(&mut self, outcome: StreamOutcome)
        requires
            stream_answers(old(self).at(), outcome@),
        ensures
            final(self).decoder_settings() == old(self).decoder_settings(),
            final(self).at() == stream_next(old(self).decoder_settings(), old(self).at(), outcome@),
    {
        let mut step: StreamStep = StreamStep::FindDevice;
        std::mem::swap(&mut step, &mut self.step);
        self.step = match (step, outcome) {
            (StreamStep::FindDevice, StreamOutcome::Missing) => StreamStep::Failed(
                Error::Recording(String::from_str("No input device available")),
            ),
            (StreamStep::FindDevice, _) => StreamStep::ReadConfig,
            (StreamStep::ReadConfig, StreamOutcome::Config(input)) => StreamStep::CreateRecognizer(
                self.settings,
                input,
            ),
            (StreamStep::ReadConfig, StreamOutcome::Broken(reason)) => failed(
                "Failed to get input config: ",
                reason.as_str(),
            ),
            (StreamStep::CreateRecognizer(_, _), StreamOutcome::Missing) => StreamStep::Failed(
                Error::Recording(String::from_str("Failed to create recognizer")),
            ),
            (StreamStep::CreateRecognizer(_, input), _) => match &input.format {
                SampleFormat::Other(name) => failed("Unsupported sample format: ", name.as_str()),
                _ => StreamStep::BuildStream(input),
            },
            (StreamStep::BuildStream(_), StreamOutcome::Broken(reason)) => failed(
                "Failed to build stream: ",
                reason.as_str(),
            ),
            (StreamStep::BuildStream(input), _) => StreamStep::Play(input),
            (StreamStep::Play(_), StreamOutcome::Broken(reason)) => failed(
                "Failed to start stream: ",
                reason.as_str(),
            ),
            (StreamStep::Play(input), _) => StreamStep::Playing(input),
            (step, _) => step,
        };
    }
}

/// The step an opening is at after the outcomes of its first steps.
pub open spec fn stream_after(
    settings: RecognizerSettings,
    outcomes: Seq<StreamOutcomeView>,
) -> StreamStepView
    decreases outcomes.len(),
{
    if outcomes.len() == 0 {
        StreamStepView::FindDevice
    } else {
        stream_next(settings, stream_after(settings, outcomes.drop_last()), outcomes.last())
    }
}

/// Whether every outcome is one that its step can have.
pub open spec fn is_opening(settings: RecognizerSettings, outcomes: Seq<StreamOutcomeView>) -> bool
    decreases outcomes.len(),
{
    outcomes.len() > 0 ==> {
        &&& is_opening(settings, outcomes.drop_last())
        &&& stream_answers(stream_after(settings, outcomes.drop_last()), outcomes.last())
    }
}

/// What holds of an opening at each step: which outcomes brought it there.
pub open spec fn brought_by(step: StreamStepView, outcomes: Seq<StreamOutcomeView>) -> bool {
    let found = seq![StreamOutcomeView::Done];
    match step {
        StreamStepView::FindDevice => outcomes == Seq::<StreamOutcomeView>::empty(),
        StreamStepView::ReadConfig => outcomes == found,
        StreamStepView::CreateRecognizer(_, input) => outcomes == found.push(
            StreamOutcomeView::Config(input),
        ),
        StreamStepView::BuildStream(input) => {
            &&& !(input.format is Other)
            &&& outcomes == found.push(StreamOutcomeView::Config(input)).push(
                StreamOutcomeView::Done,
            )
        },
        StreamStepView::Play(input) => {
            &&& !(input.format is Other)
            &&& outcomes == found.push(StreamOutcomeView::Config(input)).push(
                StreamOutcomeView::Done,
            ).push(StreamOutcomeView::Done)
        },
        StreamStepView::Playing(input) => {
            &&& !(input.format is Other)
            &&& outcomes == found.push(StreamOutcomeView::Config(input)).push(
                StreamOutcomeView::Done,
            ).push(StreamOutcomeView::Done).push(StreamOutcomeView::Done)
        },
        StreamStepView::Failed(_) => outcomes.len() <= 5,
    }
}

/// A stream runs only when everything it needs is there: the device, what it
/// records in a format that can be read, a decoder, and the stream itself. No
/// opening takes more than five steps.
pub proof fn law_stream_runs_only_on_full_success(
    settings: RecognizerSettings,
    outcomes: Seq<StreamOutcomeView>,
)
    requires
        is_opening(settings, outcomes),
    ensures
        brought_by(stream_after(settings, outcomes), outcomes),
        outcomes.len() <= 5,
    decreases outcomes.len(),
{
    if outcomes.len() == 0 {
        assert(outcomes =~= Seq::<StreamOutcomeView>::empty());
    } else {
        law_stream_runs_only_on_full_success(settings, outcomes.drop_last());
        assert(outcomes =~= outcomes.drop_last().push(outcomes.last()));
        assert(seq![StreamOutcomeView::Done] =~= Seq::empty().push(StreamOutcomeView::Done));
    }
}

/// A stream is opened step by step, and in a format that can be read; the
/// decoder is made with the settings that were asked for.
pub proof fn law_stream_is_opened_step_by_step(
    settings: RecognizerSettings,
    other: RecognizerSettings,
    input: InputConfigView,
)
    requires
        !(input.format is Other),
    ensures
        stream_next(settings, StreamStepView::FindDevice, StreamOutcomeView::Done)
            == StreamStepView::ReadConfig,
        stream_next(settings, StreamStepView::ReadConfig, StreamOutcomeView::Config(input))
            == StreamStepView::CreateRecognizer(settings, input),
        stream_next(
            settings,
            StreamStepView::CreateRecognizer(other, input),
            StreamOutcomeView::Done,
        ) == StreamStepView::BuildStream(input),
        stream_next(settings, StreamStepView::BuildStream(input), StreamOutcomeView::Done)
            == StreamStepView::Play(input),
        stream_next(settings, StreamStepView::Play(input), StreamOutcomeView::Done)
            == StreamStepView::Playing(input),
{
}

/// Whatever keeps a stream from being opened is told.
pub proof fn law_stream_that_cannot_be_opened_tells_why(
    settings: RecognizerSettings,
    other: RecognizerSettings,
    input: InputConfigView,
    name: Seq<char>,
    reason: Seq<char>,
)
    ensures
        ({
            let failed = |message: Seq<char>| StreamStepView::Failed(ErrorView::Recording(message));
            let broken = StreamOutcomeView::Broken(reason);
            let missing = StreamOutcomeView::Missing;
            let odd = InputConfigView { format: SampleFormatView::Other(name), ..input };
            &&& stream_next(settings, StreamStepView::FindDevice, missing) == failed(
                "No input device available"@,
            )
            &&& stream_next(settings, StreamStepView::ReadConfig, broken) == failed(
                "Failed to get input config: "@ + reason,
            )
            &&& stream_next(settings, StreamStepView::CreateRecognizer(other, input), missing)
                == failed("Failed to create recognizer"@)
            &&& stream_next(
                settings,
                StreamStepView::CreateRecognizer(other, odd),
                StreamOutcomeView::Done,
            ) == failed("Unsupported sample format: "@ + name)
            &&& stream_next(settings, StreamStepView::BuildStream(input), broken) == failed(
                "Failed to build stream: "@ + reason,
            )
            &&& stream_next(settings, StreamStepView::Play(input), broken) == failed(
                "Failed to start stream: "@ + reason,
            )
        }),
{
}

/// The views of a stream's steps and of what came of them tell what they hold,
/// as it is.
pub proof fn law_stream_steps_are_told_as_they_are(
    input: InputConfig,
    settings: RecognizerSettings,
    error: Error,
    text: String,
)
    ensures
        input@.sample_rate == input.sample_rate,
        input@.channels == input.channels,
        input@.format == input.format@,
        SampleFormat::F32@ == SampleFormatView::F32,
        SampleFormat::I16@ == SampleFormatView::I16,
        SampleFormat::U16@ == SampleFormatView::U16,
        SampleFormat::Other(text)@ == SampleFormatView::Other(text@),
        StreamStep::FindDevice@ == StreamStepView::FindDevice,
        StreamStep::ReadConfig@ == StreamStepView::ReadConfig,
        StreamStep::CreateRecognizer(settings, input)@ == StreamStepView::CreateRecognizer(
            settings,
            input@,
        ),
        StreamStep::BuildStream(input)@ == StreamStepView::BuildStream(input@),
        StreamStep::Play(input)@ == StreamStepView::Play(input@),
        StreamStep::Playing(input)@ == StreamStepView::Playing(input@),
        StreamStep::Failed(error)@ == StreamStepView::Failed(error@),
        StreamOutcome::Done@ == StreamOutcomeView::Done,
        StreamOutcome::Missing@ == StreamOutcomeView::Missing,
        StreamOutcome::Broken(text)@ == StreamOutcomeView::Broken(text@),
        StreamOutcome::Config(input)@ == StreamOutcomeView::Config(input@),
{
}

} // verus!
