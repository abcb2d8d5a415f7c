//! The audio of a listening session on its way to the decoder, and the
//! decoder's texts on their way back.

use vstd::prelude::*;
use vstd::string::*;

use crate::decoding::{Decoding, DecodingView, Query};
use crate::models::{
    final_result_of, interim_result_of, ListenConfig, RecognitionResult, RecognitionResultView,
    FULL_CONFIDENCE,
};
use crate::pcm::{
    every_nth, law_step_one_keeps_all, resample, resample_step, step_for, TARGET_SAMPLE_RATE,
};
use crate::recognizer::RecognizerConfig;
use crate::text::same_text;

verus! {

/// How a decoder is set up.
#[derive(Debug, Clone, Copy, PartialEq, Eq, Structural)]
pub struct RecognizerSettings {
    /// How many samples per second it is fed with.
    pub sample_rate: u32,
    /// How many alternatives it returns at most; with none, it returns a
    /// single transcript.
    pub max_alternatives: u16,
    /// Whether its hypotheses carry word metadata.
    pub partial_words: bool,
}

impl RecognizerSettings {
    /// The settings for a listening session: the rate that audio is thinned
    /// out to, and as many alternatives as asked for, one where nothing is
    /// said. The number is cut to sixteen bits.
    pub fn for_listening(config: &ListenConfig) -> (settings: RecognizerSettings)
        ensures
            settings.max_alternatives == (match config.max_alternatives {
                Some(n) => n % 0x1_0000,
                None => 1,
            }),
            settings.partial_words == config.interim_results,
            settings.sample_rate == TARGET_SAMPLE_RATE,
    {
        let wanted: u32 = match config.max_alternatives {
            Some(n) => n,
            None => 1,
        };
        assert(wanted as u16 == wanted % 0x1_0000) by (bit_vector);
        RecognizerSettings {
            sample_rate: TARGET_SAMPLE_RATE,
            max_alternatives: #[verifier::truncate] (wanted as u16),
            partial_words: config.interim_results,
        }
    }

    /// The settings for the decoder that replaces a running one when the
    /// model changes.
    pub fn for_model_switch(interim_results: bool) -> (settings: RecognizerSettings)
        ensures
            settings.max_alternatives == 1,
            settings.partial_words == interim_results,
            settings.sample_rate == TARGET_SAMPLE_RATE,
    {
        RecognizerSettings {
            sample_rate: TARGET_SAMPLE_RATE,
            max_alternatives: 1,
            partial_words: interim_results,
        }
    }

    /// The settings for a buffer-fed session: the rate of the audio that the
    /// host feeds, a single transcript, no word metadata.
    pub fn for_buffer_fed(config: &RecognizerConfig) -> (settings: RecognizerSettings)
        ensures
            settings.sample_rate == config.sample_rate,
            settings.max_alternatives == 0,
            !settings.partial_words,
    {
        RecognizerSettings {
            sample_rate: config.sample_rate,
            max_alternatives: 0,
            partial_words: false,
        }
    }
}

/// The result that commits `text`, unless it is empty.
pub open spec fn committed(text: Seq<char>) -> Option<RecognitionResultView> {
    if text.len() == 0 {
        None
    } else {
        Some(final_result_of(text))
    }
}

/// The view of an optional result.
pub open spec fn result_view(result: Option<RecognitionResult>) -> Option<
    RecognitionResultView,
> {
    match result {
        Some(r) => Some(r@),
        None => None,
    }
}

/// How many samples of the device have to be there before they are decoded:
/// a tenth of a second of audio after resampling.
pub open spec fn required_samples(step: int) -> int {
    if 1600 * step > 3200 {
        1600 * step
    } else {
        3200
    }
}

/// The samples that are decoded when `samples` arrive while `buffer` is kept:
/// all of them once there are enough, else none.
pub open spec fn drained(buffer: Seq<i16>, samples: Seq<i16>, step: int) -> Option<Seq<i16>> {
    if (buffer + samples).len() < required_samples(step) {
        None
    } else {
        Some(buffer + samples)
    }
}

/// The samples that are kept when `samples` arrive while `buffer` is kept.
pub open spec fn kept(buffer: Seq<i16>, samples: Seq<i16>, step: int) -> Seq<i16> {
    if drained(buffer, samples, step) is None {
        buffer + samples
    } else {
        Seq::empty()
    }
}

/// Shared audio processing state that is reused across sessions, so that no
/// new audio stream is needed for each.
#[verifier::ext_equal]
pub struct AudioModel<R> {
    /// The samples accumulated so far.
    pub buffer: Seq<i16>,
    /// The decoder.
    pub recognizer: R,
    /// The hypothesis reported last.
    pub last_partial: Seq<char>,
    /// Whether hypotheses are reported.
    pub interim_results: bool,
    /// Every how many samples one is kept.
    pub resample_step: int,
}

impl<R> AudioModel<R> {
    /// A step that some device rate gives.
    pub open spec fn wf(self) -> bool {
        1 <= self.resample_step <= 268436
    }

    /// Whether no audio and no hypothesis is left from before.
    pub open spec fn is_fresh(self) -> bool {
        self.buffer.len() == 0 && self.last_partial.len() == 0
    }
}

/// The audio processing state: an [`AudioModel`] in memory.
pub struct AudioProcessor<R> {
    buffer: Vec<i16>,
    recognizer: R,
    last_partial: String,
    interim_results: bool,
    resample_step: usize,
}

impl<R> View for AudioProcessor<R> {
    type V = AudioModel<R>;

    closed spec fn view(&self) -> AudioModel<R> {
        AudioModel {
            buffer: self.buffer@,
            recognizer: self.recognizer,
            last_partial: self.last_partial@,
            interim_results: self.interim_results,
            resample_step: self.resample_step as int,
        }
    }
}

impl<R> AudioProcessor<R> {
    /// The processing state for a new stream of a device that records
    /// `device_rate` samples per second.
    pub fn new(recognizer: R, interim_results: bool, device_rate: u32) -> (processor: Self)
        ensures
            processor@ == (AudioModel {
                buffer: Seq::empty(),
                recognizer,
                last_partial: Seq::empty(),
                interim_results,
                resample_step: step_for(device_rate as int),
            }),
            processor@.wf(),
            processor@.is_fresh(),
    {
        AudioProcessor {
            buffer: Vec::new(),
            recognizer,
            last_partial: String::new(),
            interim_results,
            resample_step: resample_step(device_rate),
        }
    }

    /// The decoder.
    pub fn recognizer_mut(&mut self) -> (recognizer: &mut R)
        ensures
            *recognizer == old(self)@.recognizer,
            final(self)@ == (AudioModel { recognizer: *final(recognizer), ..old(self)@ }),
    {
        &mut self.recognizer
    }

    /// Whether hypotheses are reported.
    pub fn interim_results(&self) -> (interim: bool)
        ensures
            interim == self@.interim_results,
    {
        self.interim_results
    }

    /// The resampled form of `samples`.
    fn thinned(&self, samples: Vec<i16>) -> (audio: Vec<i16>)
        requires
            self@.wf(),
        ensures
            audio@ == every_nth(samples@, self@.resample_step),
    {
        if self.resample_step > 1 {
            resample(&samples, self.resample_step)
        } else {
            proof {
                law_step_one_keeps_all(samples@);
            }
            samples
        }
    }

    /// Takes the accumulated samples out.
    fn take_buffer(&mut self) -> (samples: Vec<i16>)
        ensures
            samples@ == old(self)@.buffer,
            final(self)@ == (AudioModel { buffer: Seq::empty(), ..old(self)@ }),
    {
        let mut samples: Vec<i16> = Vec::new();
        std::mem::swap(&mut samples, &mut self.buffer);
        assert(self@ =~= (AudioModel { buffer: Seq::<i16>::empty(), ..old(self)@ }));
        samples
    }

    /// Accumulates samples. Once there are enough, returns all of them,
    /// resampled, for the decoder.
    pub fn push_samples(&mut self, samples: &[i16]) -> (audio: Option<Vec<i16>>)
        requires
            old(self)@.wf(),
        ensures
            final(self)@ == (AudioModel {
                buffer: kept(old(self)@.buffer, samples@, old(self)@.resample_step),
                ..old(self)@
            }),
            match audio {
                Some(a) => drained(old(self)@.buffer, samples@, old(self)@.resample_step) matches Some(
                    all,
                ) && a@ == every_nth(all, old(self)@.resample_step),
                None => drained(old(self)@.buffer, samples@, old(self)@.resample_step) is None,
            },
    {
        let ghost before = self@;
        self.buffer.extend_from_slice(samples);
        assert(self.buffer@ =~= before.buffer + samples@);
        let least: usize = 1600 * self.resample_step;
        let required: usize = if least > 3200 {
            least
        } else {
            3200
        };
        if self.buffer.len() < required {
            assert(self@ =~= (AudioModel {
                buffer: kept(before.buffer, samples@, before.resample_step),
                ..before
            }));
            return None;
        }
        let all = self.take_buffer();
        Some(self.thinned(all))
    }

    /// Takes out what is left, resampled, for the decoder; nothing where no
    /// samples are left.
    pub fn take_rest(&mut self) -> (audio: Option<Vec<i16>>)
        requires
            old(self)@.wf(),
        ensures
            final(self)@ == (AudioModel { buffer: Seq::empty(), ..old(self)@ }),
            match audio {
                Some(a) => old(self)@.buffer.len() > 0 && a@ == every_nth(
                    old(self)@.buffer,
                    old(self)@.resample_step,
                ),
                None => old(self)@.buffer.len() == 0,
            },
    {
        if self.buffer.len() == 0 {
            assert(self@ =~= (AudioModel { buffer: Seq::<i16>::empty(), ..old(self)@ }));
            return None;
        }
        let all = self.take_buffer();
        Some(self.thinned(all))
    }

    /// What to ask the decoder after it took a chunk of audio: its result
    /// where the utterance is finalized, else its hypothesis where hypotheses
    /// are reported.
    pub fn query(&self, decoding: &Decoding) -> (query: Query)
        ensures
            query == (if decoding@ == DecodingView::Finalized {
                Query::Complete
            } else if self@.interim_results {
                Query::Partial
            } else {
                Query::Nothing
            }),
    {
        match decoding {
            Decoding::Finalized => Query::Complete,
            _ => if self.interim_results {
                Query::Partial
            } else {
                Query::Nothing
            },
        }
    }

    /// Takes the text of a finalized utterance. Returns the result to report,
    /// unless the text is empty.
    pub fn utterance(&mut self, text: String) -> (result: Option<RecognitionResult>)
        ensures
            result_view(result) == committed(text@),
            final(self)@ == (if text@.len() == 0 {
                old(self)@
            } else {
                AudioModel { last_partial: Seq::empty(), ..old(self)@ }
            }),
    {
        if text.as_str().is_empty() {
            None
        } else {
            self.last_partial = String::new();
            Some(
                RecognitionResult {
                    transcript: text,
                    is_final: true,
                    confidence: Some(FULL_CONFIDENCE),
                },
            )
        }
    }

    /// Takes a hypothesis. Returns the result to report, unless hypotheses are
    /// not reported, it is empty, or it was the last one reported.
    pub fn hypothesis(&mut self, text: String) -> (result: Option<RecognitionResult>)
        ensures
            ({
                let news = old(self)@.interim_results && text@.len() > 0 && text@ != old(
                    self,
                )@.last_partial;
                &&& result_view(result) == (if news {
                    Some(interim_result_of(text@))
                } else {
                    None
                })
                &&& final(self)@ == (if news {
                    AudioModel { last_partial: text@, ..old(self)@ }
                } else {
                    old(self)@
                })
            }),
    {
        if self.interim_results && !text.as_str().is_empty() && !same_text(
            text.as_str(),
            self.last_partial.as_str(),
        ) {
            self.last_partial = text.clone();
            Some(RecognitionResult { transcript: text, is_final: false, confidence: None })
        } else {
            None
        }
    }

    /// Takes the text that the decoder gives when it is flushed. Returns the
    /// result to report, unless the text is empty.
    pub fn last_utterance(&mut self, text: String) -> (result: Option<RecognitionResult>)
        ensures
            result_view(result) == committed(text@),
            final(self)@ == (AudioModel { last_partial: Seq::empty(), ..old(self)@ }),
    {
        self.last_partial = String::new();
        if text.as_str().is_empty() {
            None
        } else {
            Some(
                RecognitionResult {
                    transcript: text,
                    is_final: true,
                    confidence: Some(FULL_CONFIDENCE),
                },
            )
        }
    }

    /// Forgets audio and hypothesis, and goes on with a new decoder where
    /// there is one.
    pub fn reset(&mut self, recognizer: Option<R>)
        ensures
            final(self)@ == (AudioModel {
                buffer: Seq::empty(),
                last_partial: Seq::empty(),
                recognizer: (match recognizer {
                    Some(r) => r,
                    None => old(self)@.recognizer,
                }),
                ..old(self)@
            }),
    {
        self.buffer.clear();
        self.last_partial = String::new();
        match recognizer {
            Some(r) => {
                self.recognizer = r;
            },
            None => {},
        }
        assert(self@ =~= (AudioModel {
            buffer: Seq::empty(),
            last_partial: Seq::empty(),
            recognizer: (match recognizer {
                Some(r) => r,
                None => old(self)@.recognizer,
            }),
            ..old(self)@
        }));
    }

    /// Sets whether hypotheses are reported.
    pub fn set_interim_results(&mut self, interim_results: bool)
        ensures
            final(self)@ == (AudioModel { interim_results, ..old(self)@ }),
    {
        self.interim_results = interim_results;
    }
}

/// The chunks of samples that a sequence of pushes hands to the decoder,
/// before resampling, when `buffer` is kept at first.
pub open spec fn chunks_of(buffer: Seq<i16>, pushes: Seq<Seq<i16>>, step: int) -> Seq<Seq<i16>>
    decreases pushes.len(),
{
    if pushes.len() == 0 {
        Seq::empty()
    } else {
        let rest = chunks_of(
            kept(buffer, pushes.first(), step),
            pushes.drop_first(),
            step,
        );
        match drained(buffer, pushes.first(), step) {
            Some(all) => seq![all] + rest,
            None => rest,
        }
    }
}

/// The samples that are kept after a sequence of pushes.
pub open spec fn kept_after(buffer: Seq<i16>, pushes: Seq<Seq<i16>>, step: int) -> Seq<i16>
    decreases pushes.len(),
{
    if pushes.len() == 0 {
        buffer
    } else {
        kept_after(kept(buffer, pushes.first(), step), pushes.drop_first(), step)
    }
}

/// No audio is lost, repeated or reordered: the chunks handed to the decoder,
/// followed by what is kept for the flush at the end, are the samples that
/// were pushed, in the order in which they were pushed.
pub proof fn law_no_audio_is_lost(buffer: Seq<i16>, pushes: Seq<Seq<i16>>, step: int)
    ensures
        chunks_of(buffer, pushes, step).flatten() + kept_after(buffer, pushes, step) == buffer
            + pushes.flatten(),
    decreases pushes.len(),
{
    if pushes.len() == 0 {
        assert(Seq::<Seq<i16>>::empty().flatten() =~= Seq::<i16>::empty());
        assert(pushes.flatten() =~= Seq::<i16>::empty());
        assert(chunks_of(buffer, pushes, step).flatten() + buffer =~= buffer + pushes.flatten());
    } else {
        let first = pushes.first();
        let later = pushes.drop_first();
        let next = kept(buffer, first, step);
        let rest = chunks_of(next, later, step);
        law_no_audio_is_lost(next, later, step);
        assert(pushes.flatten() == first + later.flatten());
        match drained(buffer, first, step) {
            Some(all) => {
                let chunks = seq![all] + rest;
                assert(chunks.first() == all);
                assert(chunks.drop_first() =~= rest);
                assert(chunks.flatten() == all + rest.flatten());
                assert(all + rest.flatten() + kept_after(next, later, step) =~= all + (
                rest.flatten() + kept_after(next, later, step)));
                assert(next + later.flatten() =~= later.flatten());
                assert(all + later.flatten() =~= buffer + (first + later.flatten()));
            },
            None => {
                assert(next + later.flatten() =~= buffer + (first + later.flatten()));
            },
        }
    }
}

/// The decoder gets at least a tenth of a second of audio at once: no chunk
/// is shorter than required.
pub proof fn law_chunks_are_long_enough(buffer: Seq<i16>, pushes: Seq<Seq<i16>>, step: int)
    ensures
        forall|i: int|
            0 <= i < chunks_of(buffer, pushes, step).len() ==> (#[trigger] chunks_of(
                buffer,
                pushes,
                step,
            )[i]).len() >= required_samples(step),
        required_samples(step) >= 1600 * step,
    decreases pushes.len(),
{
    if pushes.len() > 0 {
        let next = kept(buffer, pushes.first(), step);
        let rest = chunks_of(next, pushes.drop_first(), step);
        law_chunks_are_long_enough(next, pushes.drop_first(), step);
        match drained(buffer, pushes.first(), step) {
            Some(all) => {
                let chunks = seq![all] + rest;
                assert forall|i: int| 0 <= i < chunks.len() implies (#[trigger] chunks[i]).len()
                    >= required_samples(step) by {
                    if i > 0 {
                        assert(chunks[i] == rest[i - 1]);
                    }
                }
            },
            None => {},
        }
    }
}

/// Audio is handed on as soon as there is enough of it and not before: a tenth
/// of a second at the rate of the decoder, and at least 3200 samples; and then
/// all of it, so that nothing is kept.
pub proof fn law_audio_is_handed_on_when_there_is_enough(
    buffer: Seq<i16>,
    samples: Seq<i16>,
    step: int,
)
    ensures
        ({
            let all = buffer + samples;
            let enough = all.len() >= 3200 && all.len() >= 1600 * step;
            &&& drained(buffer, samples, step) == (if enough {
                Some(all)
            } else {
                None
            })
            &&& kept(buffer, samples, step) == (if enough {
                Seq::<i16>::empty()
            } else {
                all
            })
        }),
{
}

/// A text is committed as it is, with full confidence; an empty one is not.
pub proof fn law_text_is_committed_as_it_is(text: Seq<char>)
    ensures
        text.len() == 0 ==> committed(text) is None,
        text.len() > 0 ==> (committed(text) matches Some(r) && r.transcript == text && r.is_final
            && r.confidence == Some(0x3f80_0000u32)),
{
}

/// What is told of a result is what it holds.
pub proof fn law_result_is_told_as_it_is(result: RecognitionResult)
    ensures
        result_view(None) is None,
        result_view(Some(result)) matches Some(r) && r.transcript == result.transcript@
            && r.is_final == result.is_final && r.confidence == result.confidence,
{
}

} // verus!
