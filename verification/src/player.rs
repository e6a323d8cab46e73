//! Sizing of the output ring, channel fan-out, and the decisions of a
//! producer that waits for room in the ring.

use vstd::prelude::*;

verus! {

/// Least number of ring slots for each output channel.
pub const MIN_SLOTS_PER_CHANNEL: u64 = 512;

/// Most slots a ring may have: the most for which one more still has a
/// power of two above it within the machine's word, which the queue needs
/// for its lap counter.
pub const MAX_RING_CAPACITY: usize = usize::MAX / 2;

/// Why an output ring cannot be set up.
#[derive(Debug, Clone, Copy, PartialEq, Eq, Structural)]
pub enum RingError {
    /// The buffer is to last no time at all.
    BufferNotPositive,
    /// The device has no channels.
    ZeroChannels,
    /// The ring would take more slots than a queue can have.
    TooLarge,
}

/// What a producer does next while it pushes one sample and waits for room.
#[derive(Debug, Clone, Copy, PartialEq, Eq, Structural)]
pub enum BlockingStep {
    /// It was cancelled: give up the rest of the samples.
    Stop,
    /// The sample is in the ring: go on with the next one.
    Next,
    /// The ring was full: sleep a moment, then offer the sample again.
    Retry,
}

/// Number of slots that hold `buffer_millis` milliseconds of interleaved
/// audio at `hardware_rate`, rounded up, and never fewer than 512 for each
/// channel.
pub open spec fn ring_slots(hardware_rate: int, channels: int, buffer_millis: int) -> int {
    let timed = (hardware_rate * channels * buffer_millis + 999) / 1000;
    let least = channels * (MIN_SLOTS_PER_CHANNEL as int);
    if timed >= least {
        timed
    } else {
        least
    }
}

/// Decides how many slots the output ring gets.
pub fn ring_capacity(hardware_rate: u32, channels: u16, buffer_millis: u32) -> (capacity: Result<
    usize,
    RingError,
>)
    ensures
        match capacity {
            Ok(slots) => {
                &&& buffer_millis > 0
                &&& channels > 0
                &&& slots == ring_slots(
                    hardware_rate as int,
                    channels as int,
                    buffer_millis as int,
                )
                &&& 0 < slots <= MAX_RING_CAPACITY
            },
            Err(RingError::BufferNotPositive) => buffer_millis == 0,
            Err(RingError::ZeroChannels) => buffer_millis > 0 && channels == 0,
            Err(RingError::TooLarge) => buffer_millis > 0 && channels > 0 && ring_slots(
                hardware_rate as int,
                channels as int,
                buffer_millis as int,
            ) > MAX_RING_CAPACITY,
        },
{
    if buffer_millis == 0 {
        return Err(RingError::BufferNotPositive);
    }
    if channels == 0 {
        return Err(RingError::ZeroChannels);
    }
    proof {
        assert(hardware_rate * channels <= 0xFFFF_FFFF * 0xFFFF) by (nonlinear_arith)
            requires
                hardware_rate <= 0xFFFF_FFFF,
                channels <= 0xFFFF,
        ;
    }
    let per_second: u64 = hardware_rate as u64 * channels as u64;
    proof {
        assert(per_second * buffer_millis <= 0xFFFF_FFFF * 0xFFFF * 0xFFFF_FFFF) by (nonlinear_arith)
            requires
                per_second <= 0xFFFF_FFFF * 0xFFFF,
                buffer_millis <= 0xFFFF_FFFF,
        ;
        assert(hardware_rate * channels * buffer_millis == per_second * buffer_millis);
    }
    let timed: u128 = (per_second as u128 * buffer_millis as u128 + 999) / 1000;
    let least: u128 = channels as u128 * MIN_SLOTS_PER_CHANNEL as u128;
    let slots: u128 = if timed >= least {
        timed
    } else {
        least
    };
    if slots > MAX_RING_CAPACITY as u128 {
        return Err(RingError::TooLarge);
    }
    Ok(slots as usize)
}

/// Copies every sample of `input` to each of `channels` channels, sample by
/// sample. Without channels there is no output.
pub fn interleave_mono<T: Copy>(input: &[T], channels: usize) -> (interleaved: Vec<T>)
    ensures
        interleaved@.len() == input@.len() * channels,
        forall|k: int|
            0 <= k < interleaved@.len() ==> channels > 0 && #[trigger] interleaved@[k]
                == input@[k / (channels as int)],
{
    let mut interleaved: Vec<T> = Vec::new();
    if channels == 0 {
        assert(input@.len() * 0 == 0);
        return interleaved;
    }
    let mut i: usize = 0;
    assert(0 * channels == 0);
    while i < input.len()
        invariant
            channels > 0,
            i <= input@.len(),
            interleaved@.len() == i * channels,
            forall|k: int|
                0 <= k < interleaved@.len() ==> #[trigger] interleaved@[k] == input@[k / (
                channels as int)],
        decreases input@.len() - i,
    {
        let sample: T = input[i];
        let mut c: usize = 0;
        while c < channels
            invariant
                channels > 0,
                c <= channels,
                i < input@.len(),
                sample == input@[i as int],
                interleaved@.len() == i * channels + c,
                forall|k: int|
                    0 <= k < interleaved@.len() ==> #[trigger] interleaved@[k] == input@[k / (
                    channels as int)],
            decreases channels - c,
        {
            proof {
                let k: int = i * channels + c;
                vstd::arithmetic::div_mod::lemma_fundamental_div_mod_converse(
                    k,
                    channels as int,
                    i as int,
                    c as int,
                );
            }
            interleaved.push(sample);
            c = c + 1;
        }
        assert((i + 1) * channels == i * channels + channels) by (nonlinear_arith);
        i = i + 1;
    }
    interleaved
}

/// Decides what a producer that may wait does after it has looked at the
/// cancel flag and, if not cancelled, has offered its sample to the ring.
/// `accepted` tells whether the ring took the sample.
pub fn blocking_push_step(cancelled: bool, accepted: bool) -> (step: BlockingStep)
    ensures
        step == if cancelled {
            BlockingStep::Stop
        } else if accepted {
            BlockingStep::Next
        } else {
            BlockingStep::Retry
        },
{
    if cancelled {
        BlockingStep::Stop
    } else if accepted {
        BlockingStep::Next
    } else {
        BlockingStep::Retry
    }
}

/// Tells whether a caller that waits for the ring to drain goes on waiting:
/// until it is cancelled or the ring has drained.
pub fn keeps_waiting(cancelled: bool, drained: bool) -> (waiting: bool)
    ensures
        waiting == (!cancelled && !drained),
{
    !cancelled && !drained
}

} // verus!
