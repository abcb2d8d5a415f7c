use stt::pcm::{mono_from_i16, mono_from_u16, resample, resample_step, TARGET_SAMPLE_RATE};

#[test]
fn one_channel_is_kept() {
    assert_eq!(mono_from_i16(&[1, -2, i16::MAX, i16::MIN], 1), vec![1, -2, i16::MAX, i16::MIN]);
    assert_eq!(mono_from_u16(&[0, 32768, 65535], 1), vec![i16::MIN, 0, i16::MAX]);
}

#[test]
fn frames_become_their_mean() {
    assert_eq!(mono_from_i16(&[10, 20, -10, -21, 3, 4], 2), vec![15, -15, 3]);
    assert_eq!(mono_from_i16(&[1, 1, 2, -1, -1, -2], 3), vec![1, -1]);
    assert_eq!(mono_from_i16(&[i16::MIN, i16::MIN, i16::MAX, i16::MAX], 2), vec![i16::MIN, i16::MAX]);
    assert_eq!(mono_from_u16(&[0, 65535, 65535, 65535], 2), vec![-1, i16::MAX]);
}

#[test]
fn short_last_frame_counts_all_channels() {
    assert_eq!(mono_from_i16(&[8, 8, 8], 2), vec![8, 4]);
    assert_eq!(mono_from_u16(&[65535], 2), vec![-1]);
    assert_eq!(mono_from_i16(&[], 2), Vec::<i16>::new());
}

#[test]
fn folding_agrees_with_chunks() {
    let data: Vec<i16> = (0..1000i32).map(|i| (i * 7919 % 65536 - 32768) as i16).collect();
    for channels in 1..=7u16 {
        let expected: Vec<i16> = data
            .chunks(channels as usize)
            .map(|frame| {
                let sum: i32 = frame.iter().map(|&s| s as i32).sum();
                (sum / channels as i32) as i16
            })
            .collect();
        assert_eq!(mono_from_i16(&data, channels), expected);
    }
}

#[test]
fn step_is_the_whole_quotient_of_the_rates() {
    assert_eq!(TARGET_SAMPLE_RATE, 16000);
    for (rate, step) in [
        (0u32, 1usize),
        (8000, 1),
        (16000, 1),
        (31999, 1),
        (32000, 2),
        (44100, 2),
        (48000, 3),
        (96000, 6),
        (192000, 12),
        (31_999_999, 2000),
        (u32::MAX, 268435),
    ] {
        assert_eq!(resample_step(rate), step);
    }
}

#[test]
fn step_agrees_with_division_of_rates() {
    for rate in (0..400_000u32).step_by(50) {
        let quotient = (rate as f32 / 16000.0) as usize;
        assert_eq!(resample_step(rate), quotient.max(1));
    }
    for i in 0..200_000u32 {
        for rate in [i.wrapping_mul(2_654_435_761), (i % 268_435 + 1) * 16_000 - 1] {
            let quotient = (rate as f32 / 16000.0) as usize;
            assert_eq!(resample_step(rate), quotient.max(1));
        }
    }
}

#[test]
fn resampling_keeps_every_nth_sample() {
    let samples: Vec<i16> = (0..10).collect();
    assert_eq!(resample(&samples, 3), vec![0, 3, 6, 9]);
    assert_eq!(resample(&samples, 4), vec![0, 4, 8]);
    assert_eq!(resample(&samples, 1), samples);
    assert_eq!(resample(&samples, 100), vec![0]);
    assert_eq!(resample(&Vec::new(), 3), Vec::<i16>::new());
    for step in 1..12usize {
        let expected: Vec<i16> = samples.iter().step_by(step).copied().collect();
        assert_eq!(resample(&samples, step), expected);
    }
}
