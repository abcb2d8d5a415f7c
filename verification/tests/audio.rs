use stt::audio::{AudioProcessor, RecognizerSettings};
use stt::decoding::{Decoding, Query};
use stt::models::{ListenConfig, RecognitionResult, FULL_CONFIDENCE};
use stt::recognizer::RecognizerConfig;

fn processor(interim_results: bool, rate: u32) -> AudioProcessor<u8> {
    AudioProcessor::new(1, interim_results, rate)
}

fn final_result(text: &str) -> Option<RecognitionResult> {
    Some(RecognitionResult {
        transcript: text.to_string(),
        is_final: true,
        confidence: Some(FULL_CONFIDENCE),
    })
}

fn interim_result(text: &str) -> Option<RecognitionResult> {
    Some(RecognitionResult { transcript: text.to_string(), is_final: false, confidence: None })
}

#[test]
fn settings_follow_the_configuration() {
    let mut config = ListenConfig::default();
    let settings = RecognizerSettings::for_listening(&config);
    assert_eq!(settings, RecognizerSettings { sample_rate: 16_000, max_alternatives: 1, partial_words: false });
    config.interim_results = true;
    config.max_alternatives = Some(65_536 + 5);
    let settings = RecognizerSettings::for_listening(&config);
    assert_eq!(settings, RecognizerSettings { sample_rate: 16_000, max_alternatives: 5, partial_words: true });
    config.max_alternatives = Some(0);
    assert_eq!(RecognizerSettings::for_listening(&config).max_alternatives, 0);
    assert_eq!(
        RecognizerSettings::for_model_switch(true),
        RecognizerSettings { sample_rate: 16_000, max_alternatives: 1, partial_words: true }
    );
    assert_eq!(
        RecognizerSettings::for_buffer_fed(&RecognizerConfig {
            language: "de-DE".to_string(),
            sample_rate: 44_100,
            interim_results: true,
            on_device: true,
        }),
        RecognizerSettings { sample_rate: 44_100, max_alternatives: 0, partial_words: false }
    );
}

#[test]
fn audio_waits_for_a_tenth_of_a_second() {
    let mut p = processor(false, 16_000);
    assert_eq!(p.push_samples(&[5; 3199]), None);
    let audio = p.push_samples(&[6]).unwrap();
    assert_eq!(audio.len(), 3200);
    assert_eq!(audio[3198..], [5, 6]);
    assert_eq!(p.take_rest(), None);

    let mut p = processor(false, 48_000);
    assert_eq!(p.push_samples(&[0; 4799]), None);
    assert_eq!(p.push_samples(&[0; 1]).unwrap().len(), 1600);
}

#[test]
fn audio_is_resampled_on_its_way() {
    let samples: Vec<i16> = (0..4800).collect();
    let mut p = processor(false, 48_000);
    let audio = p.push_samples(&samples).unwrap();
    let expected: Vec<i16> = samples.iter().step_by(3).copied().collect();
    assert_eq!(audio, expected);
}

#[test]
fn no_audio_is_lost() {
    let mut p = processor(false, 16_000);
    let all: Vec<i16> = (0..20_000).map(|i| i as i16).collect();
    let mut decoded = Vec::new();
    for chunk in all.chunks(777) {
        if let Some(audio) = p.push_samples(chunk) {
            assert!(audio.len() >= 3200);
            decoded.extend(audio);
        }
    }
    decoded.extend(p.take_rest().unwrap());
    assert_eq!(decoded, all);
    assert_eq!(p.take_rest(), None);
}

#[test]
fn decoder_is_asked_by_its_state() {
    let quiet = processor(false, 16_000);
    let chatty = processor(true, 16_000);
    assert!(!quiet.interim_results());
    assert!(chatty.interim_results());
    assert_eq!(quiet.query(&Decoding::Finalized), Query::Complete);
    assert_eq!(chatty.query(&Decoding::Finalized), Query::Complete);
    for decoding in [Decoding::Running, Decoding::Failed, Decoding::Rejected("x".to_string())] {
        assert_eq!(quiet.query(&decoding), Query::Nothing);
        assert_eq!(chatty.query(&decoding), Query::Partial);
    }
}

#[test]
fn hypotheses_are_reported_when_they_change() {
    let mut p = processor(true, 16_000);
    assert_eq!(p.hypothesis("he".to_string()), interim_result("he"));
    assert_eq!(p.hypothesis("he".to_string()), None);
    assert_eq!(p.hypothesis(String::new()), None);
    assert_eq!(p.hypothesis("hello".to_string()), interim_result("hello"));
    assert_eq!(p.utterance(String::new()), None);
    assert_eq!(p.hypothesis("hello".to_string()), None);
    assert_eq!(p.utterance("hello".to_string()), final_result("hello"));
    assert_eq!(p.hypothesis("hello".to_string()), interim_result("hello"));
    assert_eq!(p.last_utterance(String::new()), None);
    assert_eq!(p.hypothesis("hello".to_string()), interim_result("hello"));
    assert_eq!(p.last_utterance("end".to_string()), final_result("end"));
}

#[test]
fn hypotheses_can_be_switched_off() {
    let mut p = processor(true, 16_000);
    p.set_interim_results(false);
    assert_eq!(p.hypothesis("he".to_string()), None);
}

#[test]
fn reset_forgets_audio_and_hypothesis() {
    let mut p = processor(true, 16_000);
    p.push_samples(&[1; 100]);
    p.hypothesis("he".to_string());
    p.reset(None);
    assert_eq!(*p.recognizer_mut(), 1);
    assert_eq!(p.take_rest(), None);
    assert_eq!(p.hypothesis("he".to_string()), interim_result("he"));
    p.reset(Some(9));
    assert_eq!(*p.recognizer_mut(), 9);
    *p.recognizer_mut() = 4;
    assert_eq!(*p.recognizer_mut(), 4);
}
