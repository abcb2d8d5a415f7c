use stt::audio::RecognizerSettings;
use stt::error::Error;
use stt::stream::{InputConfig, SampleFormat, StreamOpening, StreamOutcome, StreamStep};

fn settings() -> RecognizerSettings {
    RecognizerSettings { sample_rate: 16_000, max_alternatives: 1, partial_words: true }
}

fn input(format: SampleFormat) -> InputConfig {
    InputConfig { channels: 2, sample_rate: 48_000, format }
}

fn after(outcomes: Vec<StreamOutcome>) -> StreamOpening {
    let mut opening = StreamOpening::new(settings());
    for outcome in outcomes {
        opening.advance(outcome);
    }
    opening
}

#[test]
fn stream_opens_step_by_step() {
    for format in [SampleFormat::F32, SampleFormat::I16, SampleFormat::U16] {
        let mut opening = StreamOpening::new(settings());
        assert_eq!(opening.step(), &StreamStep::FindDevice);
        opening.advance(StreamOutcome::Done);
        assert_eq!(opening.step(), &StreamStep::ReadConfig);
        opening.advance(StreamOutcome::Config(input(format.clone())));
        assert_eq!(
            opening.step(),
            &StreamStep::CreateRecognizer(settings(), input(format.clone()))
        );
        opening.advance(StreamOutcome::Done);
        assert_eq!(opening.step(), &StreamStep::BuildStream(input(format.clone())));
        opening.advance(StreamOutcome::Done);
        assert_eq!(opening.step(), &StreamStep::Play(input(format.clone())));
        opening.advance(StreamOutcome::Done);
        assert_eq!(opening.step(), &StreamStep::Playing(input(format)));
    }
}

#[test]
fn each_broken_stream_step_has_its_message() {
    let why = || StreamOutcome::Broken("why".to_string());
    let config = || StreamOutcome::Config(input(SampleFormat::I16));
    let cases: Vec<(Vec<StreamOutcome>, &str)> = vec![
        (vec![StreamOutcome::Missing], "No input device available"),
        (vec![StreamOutcome::Done, why()], "Failed to get input config: why"),
        (
            vec![StreamOutcome::Done, config(), StreamOutcome::Missing],
            "Failed to create recognizer",
        ),
        (
            vec![
                StreamOutcome::Done,
                StreamOutcome::Config(input(SampleFormat::Other("I8".to_string()))),
                StreamOutcome::Done,
            ],
            "Unsupported sample format: I8",
        ),
        (
            vec![StreamOutcome::Done, config(), StreamOutcome::Done, why()],
            "Failed to build stream: why",
        ),
        (
            vec![StreamOutcome::Done, config(), StreamOutcome::Done, StreamOutcome::Done, why()],
            "Failed to start stream: why",
        ),
    ];
    for (outcomes, message) in cases {
        assert_eq!(
            after(outcomes).step(),
            &StreamStep::Failed(Error::Recording(message.to_string()))
        );
    }
}
