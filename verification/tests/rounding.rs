use stt::rounding::{quotient_of_rates, share};

#[test]
fn shares_are_those_of_double_precision() {
    assert_eq!(share(0, 7, 45), 0);
    assert_eq!(share(7, 7, 45), 45);
    assert_eq!(share(1, 49, 49), 0);
    assert_eq!(share(2, 49, 49), 1);
    assert_eq!(share(u64::MAX, 1, 1), 255);
    assert_eq!(share(1, u64::MAX, 255), 0);
    for factor in 1..=255u8 {
        for total in 1..=60u64 {
            for done in 0..=2 * total {
                let expected = (done as f64 / total as f64 * factor as f64) as u8;
                assert_eq!(share(done, total, factor), expected);
            }
        }
    }
}

#[test]
fn shares_of_large_numbers_are_rounded_on_conversion() {
    let edges = [
        (1u64 << 53) - 1,
        1 << 53,
        (1 << 53) + 1,
        (1 << 54) + 2,
        (1 << 54) + 3,
        (1 << 63) + 1,
        u64::MAX - 1,
        u64::MAX,
    ];
    for a in edges {
        for b in edges {
            for factor in [1u8, 45, 49, 255] {
                let expected = (a as f64 / b as f64 * factor as f64) as u8;
                assert_eq!(share(a, b, factor), expected);
            }
        }
    }
}

#[test]
fn quotients_are_those_of_single_precision() {
    for b in [4096u32, 8000, 16_000, 44_100, (1 << 24) - 1] {
        for a in [0u32, 1, 4095, 16_777_215, 16_777_217, 31_999_999, u32::MAX - 1, u32::MAX] {
            assert_eq!(quotient_of_rates(a, b), (a as f32 / b as f32) as u32);
        }
    }
}
