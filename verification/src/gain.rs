//! Per-sample gain ramping in exact integer arithmetic.
//!
//! A gain is held as a whole number of *levels*. A ramp is described by the
//! level it starts from, the level it is heading for, and the number of levels
//! it may move per sample. With `unity` levels standing for a gain of one, a
//! stem that fades over `unity` samples moves one level per sample.

use vstd::prelude::*;

verus! {

/// Length of a stem fade, in milliseconds.
pub const STEM_FADE_MS: u64 = 5;

/// Distance between two levels.
pub open spec fn gain_distance(a: int, b: int) -> int {
    if a <= b {
        b - a
    } else {
        a - b
    }
}

/// The level one sample after `current`, moving towards `target` by at most
/// `step`: the target itself once it is within `step`, otherwise one full
/// step in its direction.
pub open spec fn gain_after_step(current: int, target: int, step: int) -> int {
    if gain_distance(current, target) <= step {
        target
    } else if current < target {
        current + step
    } else {
        current - step
    }
}

/// The level `samples` samples after `current`, in closed form.
pub open spec fn gain_after(current: int, target: int, step: int, samples: nat) -> int {
    if current <= target {
        if current + samples * step >= target {
            target
        } else {
            current + samples * step
        }
    } else {
        if current - samples * step <= target {
            target
        } else {
            current - samples * step
        }
    }
}

/// Number of samples a fade lasts at `sample_rate`: five milliseconds, rounded
/// to the nearest sample (halves away from zero) and never less than one.
pub open spec fn fade_samples_of(sample_rate: int) -> int {
    let rounded = (sample_rate * (STEM_FADE_MS as int) + 500) / 1000;
    if rounded < 1 {
        1
    } else {
        rounded
    }
}

/// The closed form agrees with repeated single steps.
pub proof fn lemma_gain_after_unfold(current: int, target: int, step: int, samples: nat)
    requires
        step >= 0,
    ensures
        gain_after(current, target, step, 0) == current,
        gain_after(current, target, step, samples + 1) == gain_after_step(
            gain_after(current, target, step, samples),
            target,
            step,
        ),
{
    assert((samples + 1) * step == samples * step + step) by (nonlinear_arith);
    assert(samples * step >= 0) by (nonlinear_arith)
        requires
            step >= 0,
    ;
    assert(0 * step == 0);
}

/// After one sample the gain is closer to its target by a full step, or has
/// reached it: `|new - target| <= max(0, |current - target| - step)`.
pub proof fn lemma_gain_step_closes_in(current: int, target: int, step: int)
    requires
        step > 0,
    ensures
        gain_distance(gain_after_step(current, target, step), target) <= if gain_distance(
            current,
            target,
        ) - step > 0 {
            gain_distance(current, target) - step
        } else {
            0
        },
{
}

/// A single sample never moves the gain by more than `step`, and never past
/// or away from the target.
pub proof fn lemma_gain_step_is_bounded(current: int, target: int, step: int)
    requires
        step >= 0,
    ensures
        gain_distance(current, gain_after_step(current, target, step)) <= step,
        current <= target ==> current <= gain_after_step(current, target, step) <= target,
        current >= target ==> current >= gain_after_step(current, target, step) >= target,
{
}

/// A ramp has arrived once enough samples have passed to cover the distance,
/// and stays there.
pub proof fn lemma_gain_ramp_arrives(current: int, target: int, step: int, samples: nat)
    requires
        step > 0,
        samples * step >= gain_distance(current, target),
    ensures
        gain_after(current, target, step, samples) == target,
{
}

/// Until it arrives, a ramp is linear in the number of samples.
pub proof fn lemma_gain_ramp_is_linear(current: int, target: int, step: int, samples: nat)
    requires
        step > 0,
        samples * step <= gain_distance(current, target),
    ensures
        current <= target ==> gain_after(current, target, step, samples) == current + samples
            * step,
        current >= target ==> gain_after(current, target, step, samples) == current - samples
            * step,
{
}

/// Over `samples` samples a gain moves by at most `samples` steps, and never
/// past or away from its target: over no sample it stays where it is.
pub proof fn lemma_gain_ramp_is_bounded(current: int, target: int, step: int, samples: nat)
    requires
        step >= 0,
    ensures
        gain_distance(current, gain_after(current, target, step, samples)) <= samples * step,
        current <= target ==> current <= gain_after(current, target, step, samples) <= target,
        current >= target ==> current >= gain_after(current, target, step, samples) >= target,
        gain_after(current, target, step, 0) == current,
{
    assert(samples * step >= 0) by (nonlinear_arith)
        requires
            step >= 0,
    ;
    assert(0 * step == 0);
}

/// Number of samples over which a stem fades at `sample_rate`.
pub fn fade_samples(sample_rate: u32) -> (samples: u32)
    ensures
        samples == fade_samples_of(sample_rate as int),
        samples >= 1,
{
    let scaled: u64 = sample_rate as u64 * STEM_FADE_MS + 500;
    let rounded: u64 = scaled / 1000;
    if rounded < 1 {
        1
    } else {
        rounded as u32
    }
}

/// Advances `current_gain` by one sample towards `target_gain`.
pub fn apply_gain_step(current_gain: &mut u32, target_gain: u32, step: u32)
    ensures
        *final(current_gain) == gain_after_step(
            *old(current_gain) as int,
            target_gain as int,
            step as int,
        ),
{
    let current: u32 = *current_gain;
    if current <= target_gain {
        if target_gain - current <= step {
            *current_gain = target_gain;
        } else {
            *current_gain = current + step;
        }
    } else {
        if current - target_gain <= step {
            *current_gain = target_gain;
        } else {
            *current_gain = current - step;
        }
    }
}

/// Ramps `current_gain` over a buffer of `len` samples and returns the level
/// that applies to each sample. Over an empty buffer the gain stays where it
/// is.
pub fn apply_gain_ramp(len: usize, current_gain: &mut u32, target_gain: u32, step: u32) -> (levels:
    Vec<u32>)
    ensures
        levels@.len() == len,
        forall|i: int|
            0 <= i < len ==> levels@[i] as int == #[trigger] gain_after(
                *old(current_gain) as int,
                target_gain as int,
                step as int,
                (i + 1) as nat,
            ),
        *final(current_gain) as int == gain_after(
            *old(current_gain) as int,
            target_gain as int,
            step as int,
            len as nat,
        ),
        len == 0 ==> *final(current_gain) == *old(current_gain),
{
    let mut levels: Vec<u32> = Vec::new();
    let ghost start: int = *current_gain as int;
    proof {
        lemma_gain_after_unfold(start, target_gain as int, step as int, 0);
    }
    let mut i: usize = 0;
    while i < len
        invariant
            i <= len,
            levels@.len() == i,
            *current_gain as int == gain_after(start, target_gain as int, step as int, i as nat),
            forall|j: int|
                0 <= j < i ==> levels@[j] as int == #[trigger] gain_after(
                    start,
                    target_gain as int,
                    step as int,
                    (j + 1) as nat,
                ),
        decreases len - i,
    {
        proof {
            lemma_gain_after_unfold(start, target_gain as int, step as int, i as nat);
        }
        apply_gain_step(current_gain, target_gain, step);
        levels.push(*current_gain);
        i = i + 1;
    }
    levels
}

} // verus!
