//! The bounded ring between the streaming worker and the audio callback.
//!
//! The ring is shared: the worker pushes while the callback pops. What one
//! side sees of the queue can be out of date the moment it has looked, so
//! the contracts here say only what holds whatever the other side does.

use crate::player::{ring_capacity, ring_slots, RingError, MAX_RING_CAPACITY};
use crossbeam_queue::ArrayQueue;
use std::sync::atomic::{AtomicBool, AtomicU64, Ordering};
use vstd::prelude::*;

verus! {

/// `crossbeam_queue::ArrayQueue`, a bounded queue that several threads may
/// push to and pop from at once. Nothing of its contents is visible here.
#[verifier::external_type_specification]
#[verifier::external_body]
#[verifier::reject_recursive_types(T)]
pub struct ExArrayQueue<T>(ArrayQueue<T>);

/// Calls `ArrayQueue::new`, which makes an empty queue of `capacity` slots.
/// It panics on a capacity of zero, and on one so large that `capacity + 1`
/// has no power of two at or above it in the queue's index type, which is
/// at least as wide as `usize`; both are ruled out here. Nothing is claimed
/// of the queue that comes back.
#[verifier::external_body]
fn new_queue<T>(capacity: usize) -> (queue: ArrayQueue<T>)
    requires
        0 < capacity <= MAX_RING_CAPACITY,
{
    ArrayQueue::new(capacity)
}

/// Calls `ArrayQueue::push`, which puts `value` at the back of the queue,
/// or, if the queue is full, hands it back as the error. Claimed is only
/// that a value handed back is the one that was offered; whether the queue
/// is full depends on the other threads.
#[verifier::external_body]
fn offer<T>(queue: &ArrayQueue<T>, value: T) -> (pushed: Result<(), T>)
    ensures
        pushed matches Err(returned) ==> returned == value,
{
    queue.push(value)
}

/// Calls `ArrayQueue::pop`, which takes the value at the front of the
/// queue, if there is one. Nothing is claimed of what comes back.
#[verifier::external_body]
fn take<T>(queue: &ArrayQueue<T>) -> Option<T> {
    queue.pop()
}

/// Calls `ArrayQueue::len`, the number of values in the queue at the moment
/// it was looked at. Nothing is claimed of it.
#[verifier::external_body]
fn queue_len<T>(queue: &ArrayQueue<T>) -> usize {
    queue.len()
}

/// Calls `ArrayQueue::is_empty`, whether the queue held no value at the
/// moment it was looked at. Nothing is claimed of it.
#[verifier::external_body]
fn queue_is_empty<T>(queue: &ArrayQueue<T>) -> bool {
    queue.is_empty()
}

/// The ring of samples that feeds the audio callback, with its flags.
#[verifier::reject_recursive_types(T)]
pub struct OutputRing<T> {
    queue: ArrayQueue<T>,
    capacity: usize,
    producer_finished: AtomicBool,
    drained: AtomicBool,
    underrun_samples: AtomicU64,
}

/// Number of slots free in a ring of `capacity` that holds `len` values.
pub open spec fn free_of(capacity: usize, len: usize) -> usize {
    if len >= capacity {
        0
    } else {
        (capacity - len) as usize
    }
}

/// Slots free in a ring of `capacity` slots when `len` are taken.
pub fn free_slots_of(capacity: usize, len: usize) -> (free: usize)
    ensures
        free == free_of(capacity, len),
        free <= capacity,
{
    if len >= capacity {
        0
    } else {
        capacity - len
    }
}

/// What output slots hold after one pop for each: slot by slot the sample
/// that was popped, or `silence` where the pop found the ring empty.
pub open spec fn filled_from<T>(popped: Seq<Option<T>>, silence: T) -> Seq<T> {
    Seq::new(
        popped.len(),
        |i: int|
            match popped[i] {
                Some(sample) => sample,
                None => silence,
            },
    )
}

/// Number of pops that found the ring empty.
pub open spec fn empty_pops<T>(popped: Seq<Option<T>>) -> nat
    decreases popped.len(),
{
    if popped.len() == 0 {
        0
    } else {
        empty_pops(popped.drop_last()) + if popped.last() is None {
            1nat
        } else {
            0nat
        }
    }
}

/// The sample for an output slot: the one popped from the ring, or silence
/// where the ring was empty, which counts as an underrun.
pub fn slot_sample<T: Copy>(popped: Option<T>, silence: T) -> (slot: (T, bool))
    ensures
        slot == match popped {
            Some(sample) => (sample, false),
            None => (silence, true),
        },
{
    match popped {
        Some(sample) => (sample, false),
        None => (silence, true),
    }
}

/// Tells whether the ring has drained: the producer is done and the ring
/// was seen empty.
pub fn drained_now(producer_finished: bool, queue_empty: bool) -> (drained: bool)
    ensures
        drained == (producer_finished && queue_empty),
{
    producer_finished && queue_empty
}

impl<T: Copy> OutputRing<T> {
    /// Number of slots of the ring.
    pub closed spec fn spec_capacity(&self) -> usize {
        self.capacity
    }

    /// A ring for `buffer_millis` milliseconds of interleaved audio.
    pub fn new(hardware_rate: u32, channels: u16, buffer_millis: u32) -> (made: Result<
        Self,
        RingError,
    >)
        ensures
            match made {
                Ok(ring) => {
                    &&& buffer_millis > 0
                    &&& channels > 0
                    &&& ring.spec_capacity() == ring_slots(
                        hardware_rate as int,
                        channels as int,
                        buffer_millis as int,
                    )
                    &&& 0 < ring.spec_capacity() <= MAX_RING_CAPACITY
                },
                Err(RingError::BufferNotPositive) => buffer_millis == 0,
                Err(RingError::ZeroChannels) => buffer_millis > 0 && channels == 0,
                Err(RingError::TooLarge) => buffer_millis > 0 && channels > 0 && ring_slots(
                    hardware_rate as int,
                    channels as int,
                    buffer_millis as int,
                ) > MAX_RING_CAPACITY,
            },
    {
        let capacity: usize = match ring_capacity(hardware_rate, channels, buffer_millis) {
            Ok(slots) => slots,
            Err(error) => {
                return Err(error);
            },
        };
        Ok(
            OutputRing {
                queue: new_queue(capacity),
                capacity,
                producer_finished: AtomicBool::new(false),
                drained: AtomicBool::new(false),
                underrun_samples: AtomicU64::new(0),
            },
        )
    }

    /// Number of slots of the ring.
    #[verifier::when_used_as_spec(spec_capacity)]
    pub fn capacity(&self) -> (slots: usize)
        ensures
            slots == self.spec_capacity(),
    {
        self.capacity
    }

    /// Slots that were free when the ring was looked at.
    pub fn free_slots(&self) -> (free: usize)
        ensures
            free <= self.spec_capacity(),
    {
        free_slots_of(self.capacity, queue_len(&self.queue))
    }

    /// Offers one sample to the ring. A full ring hands it back.
    pub fn try_push(&self, sample: T) -> (pushed: Result<(), T>)
        ensures
            pushed matches Err(returned) ==> returned == sample,
    {
        offer(&self.queue, sample)
    }

    /// Pushes as many samples as the ring takes and drops the others.
    /// Returns how many it took.
    pub fn push_interleaved_nonblocking(&self, interleaved_samples: &[T]) -> (accepted: usize)
        ensures
            accepted <= interleaved_samples@.len(),
    {
        let mut accepted: usize = 0;
        let mut i: usize = 0;
        while i < interleaved_samples.len()
            invariant
                i <= interleaved_samples@.len(),
                accepted <= i,
            decreases interleaved_samples@.len() - i,
        {
            match offer(&self.queue, interleaved_samples[i]) {
                Ok(()) => {
                    accepted = accepted + 1;
                },
                Err(_) => {},
            }
            i = i + 1;
        }
        accepted
    }

    /// Tells the ring that no more samples will be pushed. If it is seen
    /// empty right away, it counts as drained.
    pub fn mark_producer_finished(&self) {
        self.producer_finished.store(true, Ordering::Relaxed);
        if drained_now(true, queue_is_empty(&self.queue)) {
            self.drained.store(true, Ordering::Relaxed);
        }
    }

    /// Fills the slots of one device callback: each gets the next sample of
    /// the ring, or `silence` where the ring is empty, which is counted as
    /// an underrun. Afterwards the ring counts as drained if the producer is
    /// done and the ring is seen empty. Returns the number of underruns.
    ///
    /// What the pops bring depends on the producer; whatever they bring,
    /// the slots are filled from them one for one, and the underruns are
    /// those among them that found the ring empty.
    pub fn fill_output(&self, slots: &mut Vec<T>, silence: T) -> (underruns: usize)
        ensures
            final(slots)@.len() == old(slots)@.len(),
            underruns <= old(slots)@.len(),
            exists|popped: Seq<Option<T>>|
                {
                    &&& popped.len() == old(slots)@.len()
                    &&& final(slots)@ == #[trigger] filled_from(popped, silence)
                    &&& underruns == empty_pops(popped)
                },
    {
        let n: usize = slots.len();
        let mut underruns: usize = 0;
        let mut i: usize = 0;
        let ghost mut popped: Seq<Option<T>> = Seq::empty();
        while i < n
            invariant
                i <= n,
                slots@.len() == n,
                underruns <= i,
                popped.len() == i,
                underruns == empty_pops(popped),
                forall|j: int| 0 <= j < i ==> slots@[j] == #[trigger] filled_from(popped, silence)[j],
            decreases n - i,
        {
            let front: Option<T> = take(&self.queue);
            let (sample, underrun) = slot_sample(front, silence);
            if underrun {
                let _ = self.underrun_samples.fetch_add(1, Ordering::Relaxed);
                underruns = underruns + 1;
            }
            slots.set(i, sample);
            proof {
                let before = popped;
                popped = popped.push(front);
                assert(popped.drop_last() =~= before);
                assert(popped.last() == front);
                assert forall|j: int| 0 <= j < i + 1 implies slots@[j] == #[trigger] filled_from(
                    popped,
                    silence,
                )[j] by {
                    if j < i {
                        assert(popped[j] == before[j]);
                        assert(filled_from(before, silence)[j] == filled_from(popped, silence)[j]);
                    }
                }
            }
            i = i + 1;
        }
        assert(slots@ =~= filled_from(popped, silence));
        if drained_now(
            self.producer_finished.load(Ordering::Relaxed),
            queue_is_empty(&self.queue),
        ) {
            self.drained.store(true, Ordering::Relaxed);
        }
        underruns
    }

    /// Whether the ring has been seen drained.
    pub fn is_drained(&self) -> bool {
        self.drained.load(Ordering::Relaxed)
    }

    /// Number of output slots that were filled with silence so far.
    pub fn underrun_samples(&self) -> u64 {
        self.underrun_samples.load(Ordering::Relaxed)
    }
}

} // verus!
