//! PCM samples: folding channels into one and thinning out to the rate the
//! recognizer expects.

use vstd::prelude::*;

use crate::rounding::{
    law_quotient_of_rates_is_nearly_exact, lemma_single_quotient_bound, quotient_of_rates,
    single_quotient,
};

verus! {

/// The sample rate the recognizer expects, in samples per second.
pub const TARGET_SAMPLE_RATE: u32 = 16000;

/// The sum of a sequence of integers.
pub open spec fn total(s: Seq<int>) -> int
    decreases s.len(),
{
    if s.len() == 0 {
        0
    } else {
        total(s.drop_last()) + s.last()
    }
}

/// `a` divided by `b`, rounded towards zero.
pub open spec fn quotient(a: int, b: int) -> int {
    if a >= 0 {
        a / b
    } else {
        -((-a) / b)
    }
}

/// How many groups of `n` it takes to hold `len` items; the last may be short.
pub open spec fn group_count(len: int, n: int) -> int {
    (len + n - 1) / n
}

/// Where the group `k` of `n` items ends in a sequence of `len` items.
pub open spec fn group_end(len: int, n: int, k: int) -> int {
    if (k + 1) * n <= len {
        (k + 1) * n
    } else {
        len
    }
}

/// The group `k` of `n` items; the last may be short.
pub open spec fn group(s: Seq<int>, n: int, k: int) -> Seq<int> {
    s.subrange(k * n, group_end(s.len() as int, n, k))
}

/// The samples of a slice as integers.
pub open spec fn ints_of_i16(s: Seq<i16>) -> Seq<int> {
    s.map_values(|x: i16| x as int)
}

/// The samples of a slice as integers.
pub open spec fn ints_of_u16(s: Seq<u16>) -> Seq<int> {
    s.map_values(|x: u16| x as int)
}

/// The mean of each frame: the sum of its samples divided by the number of
/// channels, rounded towards zero. A short last frame is divided by the full
/// number of channels.
pub open spec fn frame_means(s: Seq<int>, channels: int) -> Seq<int> {
    Seq::new(
        group_count(s.len() as int, channels) as nat,
        |k: int| quotient(total(group(s, channels, k)), channels),
    )
}

/// The bounds between which one more frame starts, and the number of frames
/// once none does.
proof fn lemma_group_count(len: int, n: int, k: int)
    requires
        n > 0,
        k >= 0,
        len >= 0,
    ensures
        k * n < len ==> k < group_count(len, n),
        k * n >= len && (k == 0 || (k - 1) * n < len) ==> group_count(len, n) == k,
        k * n >= len ==> group_count(len, n) <= k,
        (k + 1) * n == k * n + n,
{
    assert(k * n < len ==> k < (len + n - 1) / n) by (nonlinear_arith)
        requires
            n > 0,
            k >= 0,
            len >= 0,
    ;
    assert(k * n >= len && (k == 0 || (k - 1) * n < len) ==> (len + n - 1) / n == k)
        by (nonlinear_arith)
        requires
            n > 0,
            k >= 0,
            len >= 0,
    ;
    assert(k * n >= len ==> (len + n - 1) / n <= k) by (nonlinear_arith)
        requires
            n > 0,
            k >= 0,
            len >= 0,
    ;
    assert((k + 1) * n == k * n + n) by (nonlinear_arith);
}

/// One more sample in the sum of the samples from `a` up to `b`.
proof fn lemma_total_step(s: Seq<int>, a: int, b: int)
    requires
        0 <= a <= b < s.len(),
    ensures
        total(s.subrange(a, b + 1)) == total(s.subrange(a, b)) + s[b],
{
    let longer = s.subrange(a, b + 1);
    assert(longer.drop_last() =~= s.subrange(a, b));
    assert(longer.last() == s[b]);
}

/// A sum of at most `n` values between `low` and `high`, where zero lies
/// between them, has a quotient by `n` between them too.
proof fn lemma_quotient_bounds(sum: int, low: int, high: int, n: int)
    requires
        n > 0,
        low <= 0 <= high,
        low * n <= sum <= high * n,
    ensures
        low <= quotient(sum, n) <= high,
{
    if sum >= 0 {
        assert(0 <= sum / n <= high) by (nonlinear_arith)
            requires
                n > 0,
                0 <= sum <= high * n,
        ;
    } else {
        assert(0 <= (-sum) / n <= -low) by (nonlinear_arith)
            requires
                n > 0,
                sum < 0,
                low * n <= sum,
        ;
    }
}

/// `sum` divided by `channels`, rounded towards zero.
fn mean_of(sum: i64, channels: u16) -> (mean: i64)
    requires
        channels > 0,
        -0x1_0000_0000 <= sum <= 0x1_0000_0000,
    ensures
        mean == quotient(sum as int, channels as int),
{
    if sum >= 0 {
        (sum as u64 / channels as u64) as i64
    } else {
        let magnitude: u64 = (-sum) as u64;
        let quotient: u64 = magnitude / channels as u64;
        -(quotient as i64)
    }
}

/// Folds interleaved signed samples into one channel: each frame becomes the
/// mean of its samples.
pub fn mono_from_i16(data: &[i16], channels: u16) -> (mono: Vec<i16>)
    requires
        channels > 0,
    ensures
        ints_of_i16(mono@) == frame_means(ints_of_i16(data@), channels as int),
{
    let ghost all = ints_of_i16(data@);
    let ghost n = channels as int;
    let len: usize = data.len();
    let step: usize = channels as usize;
    let mut mono: Vec<i16> = Vec::new();
    let mut start: usize = 0;
    assert(0 * n == 0) by (nonlinear_arith);
    while start < len
        invariant
            all == ints_of_i16(data@),
            n == channels as int,
            step == channels,
            channels > 0,
            len == data@.len(),
            start == (if mono@.len() * n <= len {
                mono@.len() * n
            } else {
                len as int
            }),
            mono@.len() > 0 ==> (mono@.len() - 1) * n < len,
            forall|j: int|
                0 <= j < mono@.len() ==> #[trigger] mono@[j] as int == quotient(
                    total(group(all, n, j)),
                    n,
                ),
        decreases len - start,
    {
        let ghost k = mono@.len() as int;
        proof {
            lemma_group_count(len as int, n, k);
        }
        let end: usize = if len - start < step {
            len
        } else {
            start + step
        };
        let mut sum: i64 = 0;
        let mut j: usize = start;
        while j < end
            invariant
                all == ints_of_i16(data@),
                len == data@.len(),
                start <= j <= end <= len,
                end - start <= channels,
                sum == total(all.subrange(start as int, j as int)),
                -32768 * (j - start) <= sum <= 32767 * (j - start),
            decreases end - j,
        {
            proof {
                lemma_total_step(all, start as int, j as int);
            }
            assert(all[j as int] == data@[j as int]);
            sum = sum + data[j] as i64;
            j = j + 1;
        }
        assert(-32768 * n <= sum <= 32767 * n);
        proof {
            lemma_quotient_bounds(sum as int, -32768, 32767, n);
        }
        assert(end == group_end(len as int, n, k));
        let mean: i64 = mean_of(sum, channels);
        mono.push(mean as i16);
        start = end;
    }
    proof {
        lemma_group_count(len as int, n, mono@.len() as int);
    }
    assert(ints_of_i16(mono@) =~= frame_means(all, n));
    mono
}

/// Folds interleaved unsigned samples into one signed channel: each frame
/// becomes the mean of its samples, moved so that the middle of the unsigned
/// range is zero.
pub fn mono_from_u16(data: &[u16], channels: u16) -> (mono: Vec<i16>)
    requires
        channels > 0,
    ensures
        ints_of_i16(mono@) == frame_means(ints_of_u16(data@), channels as int).map_values(
            |m: int| m - 32768,
        ),
{
    let ghost all = ints_of_u16(data@);
    let ghost n = channels as int;
    let len: usize = data.len();
    let step: usize = channels as usize;
    let mut mono: Vec<i16> = Vec::new();
    let mut start: usize = 0;
    assert(0 * n == 0) by (nonlinear_arith);
    while start < len
        invariant
            all == ints_of_u16(data@),
            n == channels as int,
            step == channels,
            channels > 0,
            len == data@.len(),
            start == (if mono@.len() * n <= len {
                mono@.len() * n
            } else {
                len as int
            }),
            mono@.len() > 0 ==> (mono@.len() - 1) * n < len,
            forall|j: int|
                0 <= j < mono@.len() ==> #[trigger] mono@[j] as int == quotient(
                    total(group(all, n, j)),
                    n,
                ) - 32768,
        decreases len - start,
    {
        let ghost k = mono@.len() as int;
        proof {
            lemma_group_count(len as int, n, k);
        }
        let end: usize = if len - start < step {
            len
        } else {
            start + step
        };
        let mut sum: i64 = 0;
        let mut j: usize = start;
        while j < end
            invariant
                all == ints_of_u16(data@),
                len == data@.len(),
                start <= j <= end <= len,
                end - start <= channels,
                sum == total(all.subrange(start as int, j as int)),
                0 <= sum <= 65535 * (j - start),
            decreases end - j,
        {
            proof {
                lemma_total_step(all, start as int, j as int);
            }
            assert(all[j as int] == data@[j as int]);
            sum = sum + data[j] as i64;
            j = j + 1;
        }
        assert(0 <= sum <= 65535 * n);
        proof {
            lemma_quotient_bounds(sum as int, 0, 65535, n);
        }
        assert(end == group_end(len as int, n, k));
        let mean: i64 = mean_of(sum, channels) - 32768;
        mono.push(mean as i16);
        start = end;
    }
    proof {
        lemma_group_count(len as int, n, mono@.len() as int);
    }
    assert(ints_of_i16(mono@) =~= frame_means(all, n).map_values(|m: int| m - 32768));
    mono
}

/// A recording that has one channel already is not changed by folding.
pub proof fn law_mono_is_kept(s: Seq<int>)
    ensures
        frame_means(s, 1) == s,
{
    assert forall|k: int| 0 <= k < s.len() implies quotient(total(group(s, 1, k)), 1) == s[k] by {
        let frame = group(s, 1, k);
        assert(frame =~= seq![s[k]]);
        assert(frame.drop_last() =~= Seq::<int>::empty());
        assert(total(frame.drop_last()) == 0);
    }
    assert(frame_means(s, 1) =~= s);
}

/// How many samples of the device make one for the recognizer: the whole part
/// of the quotient of the rates in single precision, and at least one.
pub open spec fn step_for(device_rate: int) -> int {
    let quotient = single_quotient(device_rate as nat, TARGET_SAMPLE_RATE as nat);
    if quotient < 1 {
        1
    } else {
        quotient as int
    }
}

/// The resampling step for a device that records `device_rate` samples per
/// second (1 = no resampling).
pub fn resample_step(device_rate: u32) -> (step: usize)
    ensures
        step == step_for(device_rate as int),
        1 <= step <= 268436,
{
    proof {
        lemma_single_quotient_bound(device_rate, TARGET_SAMPLE_RATE as nat, 268436);
    }
    let step: u32 = quotient_of_rates(device_rate, TARGET_SAMPLE_RATE);
    if step > 1 {
        step as usize
    } else {
        1
    }
}

/// Every `step`-th item, from the first on.
pub open spec fn every_nth(s: Seq<i16>, step: int) -> Seq<i16> {
    Seq::new(group_count(s.len() as int, step) as nat, |i: int| s[i * step])
}

/// Keeps every `step`-th sample.
pub fn resample(samples: &Vec<i16>, step: usize) -> (kept: Vec<i16>)
    requires
        step > 0,
    ensures
        kept@ == every_nth(samples@, step as int),
{
    let ghost n = step as int;
    let len: usize = samples.len();
    let mut kept: Vec<i16> = Vec::new();
    let mut next: usize = 0;
    let mut more: bool = len > 0;
    assert(0 * n == 0) by (nonlinear_arith);
    while more
        invariant
            n == step as int,
            step > 0,
            len == samples@.len(),
            more ==> next == kept@.len() * n && next < len,
            !more ==> kept@.len() * n >= len,
            kept@.len() > 0 ==> (kept@.len() - 1) * n < len,
            forall|i: int| 0 <= i < kept@.len() ==> #[trigger] kept@[i] == samples@[i * n],
        decreases (if more {
            len - next
        } else {
            -1
        }) + 1,
    {
        proof {
            lemma_group_count(len as int, n, kept@.len() as int);
        }
        kept.push(samples[next]);
        if len - next > step {
            next = next + step;
        } else {
            more = false;
        }
    }
    proof {
        lemma_group_count(len as int, n, kept@.len() as int);
    }
    assert(kept@ =~= every_nth(samples@, n));
    kept
}

/// With a step of one nothing is left out.
pub proof fn law_step_one_keeps_all(s: Seq<i16>)
    ensures
        every_nth(s, 1) == s,
{
    assert(every_nth(s, 1) =~= s);
}

/// The sum of a sequence, taken from the left.
pub open spec fn sum_of(s: Seq<int>) -> int {
    s.fold_left(0int, |sum: int, x: int| sum + x)
}

/// Both ways to take a sum agree.
proof fn lemma_total_is_sum(s: Seq<int>)
    ensures
        total(s) == sum_of(s),
    decreases s.len(),
{
    if s.len() > 0 {
        lemma_total_is_sum(s.drop_last());
    }
}

/// Folding makes one sample of each frame: its sum divided by the number of
/// channels, cut off towards zero. The frames follow each other through the
/// whole recording, and only the last can be short.
pub proof fn law_frame_becomes_its_mean(s: Seq<int>, channels: int, k: int)
    requires
        channels > 0,
        0 <= k,
        k * channels < s.len(),
    ensures
        ({
            let end = if (k + 1) * channels <= s.len() {
                (k + 1) * channels
            } else {
                s.len() as int
            };
            let sum = sum_of(s.subrange(k * channels, end));
            let mean = frame_means(s, channels)[k];
            &&& k < frame_means(s, channels).len()
            &&& sum >= 0 ==> mean * channels <= sum < (mean + 1) * channels
            &&& sum < 0 ==> (mean - 1) * channels < sum <= mean * channels
        }),
        (k + 1) * channels >= s.len() ==> frame_means(s, channels).len() == k + 1,
{
    lemma_group_count(s.len() as int, channels, k);
    lemma_group_count(s.len() as int, channels, k + 1);
    let frame = group(s, channels, k);
    lemma_total_is_sum(frame);
    let sum = total(frame);
    if sum >= 0 {
        let m = sum / channels;
        assert(m * channels <= sum < (m + 1) * channels) by (nonlinear_arith)
            requires
                m == sum / channels,
                channels > 0,
        ;
    } else {
        let m = (-sum) / channels;
        assert(m * channels <= -sum < (m + 1) * channels) by (nonlinear_arith)
            requires
                m == (-sum) / channels,
                channels > 0,
        ;
        assert((-m) * channels == -(m * channels)) by (nonlinear_arith);
        assert((-m - 1) * channels == -((m + 1) * channels)) by (nonlinear_arith);
    }
}

/// The samples of a recording are its numbers, one for one.
pub proof fn law_samples_are_numbers(signed: Seq<i16>, unsigned: Seq<u16>, i: int, j: int)
    requires
        0 <= i < signed.len(),
        0 <= j < unsigned.len(),
    ensures
        ints_of_i16(signed).len() == signed.len(),
        ints_of_i16(signed)[i] == signed[i],
        ints_of_u16(unsigned).len() == unsigned.len(),
        ints_of_u16(unsigned)[j] == unsigned[j],
{
}

/// Thinning out keeps the samples at the multiples of the step, all of them and
/// no others.
pub proof fn law_thinning_keeps_multiples_of_the_step(s: Seq<i16>, step: int, i: int)
    requires
        step > 0,
        0 <= i,
    ensures
        i * step < s.len() ==> i < every_nth(s, step).len() && every_nth(s, step)[i] == s[i * step],
        i * step >= s.len() ==> every_nth(s, step).len() <= i,
{
    lemma_group_count(s.len() as int, step, i);
}

/// The resampling step is what 16000 samples per second go into the rate of
/// the device, rounded down, as far as single precision can tell; and one for
/// every device that records fewer than twice as many.
pub proof fn law_step_brings_the_rate_down(device_rate: int)
    requires
        0 <= device_rate <= u32::MAX,
    ensures
        1 <= step_for(device_rate),
        device_rate < 32000 ==> step_for(device_rate) == 1,
        step_for(device_rate) > 1 ==> step_for(device_rate) * 16000 * 16_777_216 <= 16_777_222
            * device_rate,
        16_777_210 * device_rate < (step_for(device_rate) + 1) * 16000 * 16_777_216,
{
    law_quotient_of_rates_is_nearly_exact(device_rate as nat, 16000);
}

} // verus!
