//! The decisions of the streaming worker: whether it has been cancelled,
//! which frames are reported and under which index and time stamp, how the
//! vectorscope is thinned out, and what is reported when it stops.
//!
//! The worker's caller reads and analyses the frames, keeps the clock and the
//! shared generation counter, and sends the events.

use vstd::prelude::*;

verus! {

/// Most vectorscope points reported for a frame.
pub const LISSAJOUS_MAX_POINTS: usize = 128;

/// Least time between two reported frames, in milliseconds.
pub const MIN_EMIT_INTERVAL_MS: u64 = 16;

/// Where a worker stands.
#[derive(Debug, Clone, Copy, PartialEq, Eq, Structural)]
pub enum StreamPhase {
    /// Frames are being read.
    Running,
    /// The input ended by itself.
    Ended,
    /// Another generation has begun.
    Cancelled,
    /// Reading or analysing failed.
    Failed,
}

/// A frame to report: its index, counted from one; its start time in
/// seconds as the fraction `timestamp_num / timestamp_den`; and the stride
/// at which its vectorscope points are taken.
#[derive(Debug, Clone, Copy, PartialEq, Eq, Structural)]
pub struct Emission {
    pub frame_index: u64,
    pub timestamp_num: u128,
    pub timestamp_den: u32,
    pub stride: usize,
}

/// What is reported once a worker has stopped.
#[derive(Debug, Clone, Copy, PartialEq, Eq, Structural)]
pub struct Closing {
    /// The output is told that no more samples will come.
    pub finish_output: bool,
    /// A warning that the stems differ in length.
    pub warning: bool,
    /// The completion report, with the number of frames read.
    pub complete: Option<u64>,
}

/// State of one streaming worker.
#[derive(Debug, Clone, Copy, PartialEq, Eq, Structural)]
pub struct StreamWorker {
    pub generation: u64,
    pub frame_size: usize,
    pub sample_rate: u32,
    pub frame_index: u64,
    pub last_emit_ms: Option<u64>,
    pub phase: StreamPhase,
}

/// The generation after `current`: the counter wraps around.
pub open spec fn generation_after(current: u64) -> u64 {
    if current == u64::MAX {
        0
    } else {
        (current + 1) as u64
    }
}

/// The stride at which `points` vectorscope points are taken: the least
/// that leaves no more than 128 of them.
pub open spec fn stride_of(points: nat) -> nat {
    let rounded_up = (points + LISSAJOUS_MAX_POINTS - 1) / (LISSAJOUS_MAX_POINTS as int);
    if rounded_up < 1 {
        1
    } else {
        rounded_up as nat
    }
}

/// Number of points that remain of `points` at `stride`.
pub open spec fn subsampled_len(points: nat, stride: nat) -> nat {
    if stride == 0 {
        0
    } else {
        ((points + stride - 1) / stride as int) as nat
    }
}

/// A frame is due for a report: none was reported yet, or the last one at
/// least the minimum interval ago.
pub open spec fn emit_due(last_emit_ms: Option<u64>, now_ms: u64) -> bool {
    match last_emit_ms {
        None => true,
        Some(last) => now_ms - last >= MIN_EMIT_INTERVAL_MS,
    }
}

impl StreamWorker {
    /// The worker right after `now_ms`'s frame of `points` vectorscope
    /// points.
    pub open spec fn after_frame(self, now_ms: u64) -> StreamWorker {
        if self.phase != StreamPhase::Running {
            self
        } else {
            StreamWorker {
                frame_index: (self.frame_index + 1) as u64,
                last_emit_ms: if emit_due(self.last_emit_ms, now_ms) {
                    Some(now_ms)
                } else {
                    self.last_emit_ms
                },
                ..self
            }
        }
    }

    /// What is reported of that frame, if anything.
    pub open spec fn emission(self, now_ms: u64, points: usize) -> Option<Emission> {
        if self.phase == StreamPhase::Running && emit_due(self.last_emit_ms, now_ms) {
            Some(
                Emission {
                    frame_index: (self.frame_index + 1) as u64,
                    timestamp_num: (self.frame_index * self.frame_size) as u128,
                    timestamp_den: self.sample_rate,
                    stride: stride_of(points as nat) as usize,
                },
            )
        } else {
            None
        }
    }

    /// The worker after it has looked at the shared generation.
    pub open spec fn after_poll(self, observed_generation: u64) -> StreamWorker {
        StreamWorker {
            phase: if self.phase == StreamPhase::Running && observed_generation
                != self.generation {
                StreamPhase::Cancelled
            } else {
                self.phase
            },
            ..self
        }
    }

    /// What is reported once the worker has stopped.
    pub open spec fn closing(self, alignment_mismatch: bool) -> Closing {
        let stopped = self.phase == StreamPhase::Ended || self.phase == StreamPhase::Cancelled;
        Closing {
            finish_output: stopped,
            warning: alignment_mismatch && stopped,
            complete: if self.phase == StreamPhase::Ended {
                Some(self.frame_index)
            } else {
                None
            },
        }
    }

    /// The worker after the frames read at the times `ticks`.
    pub open spec fn after_frames(self, ticks: Seq<u64>) -> StreamWorker
        decreases ticks.len(),
    {
        if ticks.len() == 0 {
            self
        } else {
            self.after_frames(ticks.drop_last()).after_frame(ticks.last())
        }
    }

    /// What is reported of the frame read at `ticks[k]`, after those before
    /// it.
    pub open spec fn emission_at(self, ticks: Seq<u64>, k: int, points: usize) -> Option<
        Emission,
    > {
        self.after_frames(ticks.take(k)).emission(ticks[k], points)
    }

    /// A worker of `generation` that has read no frame yet.
    pub fn start(generation: u64, frame_size: usize, sample_rate: u32) -> (worker: Self)
        ensures
            worker == (StreamWorker {
                generation,
                frame_size,
                sample_rate,
                frame_index: 0,
                last_emit_ms: None,
                phase: StreamPhase::Running,
            }),
    {
        StreamWorker {
            generation,
            frame_size,
            sample_rate,
            frame_index: 0,
            last_emit_ms: None,
            phase: StreamPhase::Running,
        }
    }

    /// Looks at the shared generation before a frame is read. A running
    /// worker whose generation is no longer the current one is cancelled.
    /// Returns whether the worker goes on.
    pub fn poll(&mut self, observed_generation: u64) -> (proceed: bool)
        ensures
            proceed == (old(self).phase == StreamPhase::Running && observed_generation == old(
                self,
            ).generation),
            *final(self) == old(self).after_poll(observed_generation),
    {
        match self.phase {
            StreamPhase::Running => {
                if observed_generation != self.generation {
                    self.phase = StreamPhase::Cancelled;
                    false
                } else {
                    true
                }
            },
            _ => false,
        }
    }

    /// Counts a frame that was read and analysed at `now_ms`, and decides
    /// whether it is reported. A worker that is not running counts and
    /// reports nothing.
    pub fn on_frame(&mut self, now_ms: u64, points: usize) -> (report: Option<Emission>)
        requires
            old(self).frame_index < u64::MAX,
        ensures
            *final(self) == old(self).after_frame(now_ms),
            report == old(self).emission(now_ms, points),
    {
        match self.phase {
            StreamPhase::Running => {},
            _ => {
                return None;
            },
        }
        let index_before: u64 = self.frame_index;
        self.frame_index = index_before + 1;
        let due: bool = match self.last_emit_ms {
            None => true,
            Some(last) => now_ms >= last && now_ms - last >= MIN_EMIT_INTERVAL_MS,
        };
        if !due {
            return None;
        }
        self.last_emit_ms = Some(now_ms);
        proof {
            assert(index_before * self.frame_size <= u64::MAX * u64::MAX) by (nonlinear_arith)
                requires
                    index_before <= u64::MAX,
                    self.frame_size <= u64::MAX,
            ;
        }
        let timestamp_num: u128 = index_before as u128 * self.frame_size as u128;
        Some(
            Emission {
                frame_index: self.frame_index,
                timestamp_num,
                timestamp_den: self.sample_rate,
                stride: lissajous_stride(points),
            },
        )
    }

    /// The input has ended by itself.
    pub fn on_end_of_input(&mut self)
        ensures
            *final(self) == (StreamWorker {
                phase: if old(self).phase == StreamPhase::Running {
                    StreamPhase::Ended
                } else {
                    old(self).phase
                },
                ..*old(self)
            }),
    {
        match self.phase {
            StreamPhase::Running => {
                self.phase = StreamPhase::Ended;
            },
            _ => {},
        }
    }

    /// Reading or analysing a frame has failed.
    pub fn on_error(&mut self)
        ensures
            *final(self) == (StreamWorker {
                phase: if old(self).phase == StreamPhase::Running {
                    StreamPhase::Failed
                } else {
                    old(self).phase
                },
                ..*old(self)
            }),
    {
        match self.phase {
            StreamPhase::Running => {
                self.phase = StreamPhase::Failed;
            },
            _ => {},
        }
    }

    /// What is reported now that the worker has stopped. After a failure,
    /// and while it still runs, nothing; else the output is told to finish,
    /// a warning goes out if the stems were found to differ in length, and
    /// the completion report goes out if the input ended by itself.
    pub fn close(&self, alignment_mismatch: bool) -> (closing: Closing)
        ensures
            closing == self.closing(alignment_mismatch),
    {
        match self.phase {
            StreamPhase::Ended => Closing {
                finish_output: true,
                warning: alignment_mismatch,
                complete: Some(self.frame_index),
            },
            StreamPhase::Cancelled => Closing {
                finish_output: true,
                warning: alignment_mismatch,
                complete: None,
            },
            _ => Closing { finish_output: false, warning: false, complete: None },
        }
    }
}

/// The generation that follows `current`. Stopping a stream moves the shared
/// counter on by one; so does starting one, which then runs under the new
/// value.
pub fn next_generation(current: u64) -> (next: u64)
    ensures
        next == generation_after(current),
        next != current,
{
    current.wrapping_add(1)
}

/// The stride at which `points` vectorscope points are taken: `points / 128`
/// rounded up, and at least one.
pub fn lissajous_stride(points: usize) -> (stride: usize)
    ensures
        stride == stride_of(points as nat),
        stride >= 1,
        subsampled_len(points as nat, stride as nat) <= LISSAJOUS_MAX_POINTS,
{
    proof {
        lemma_subsampled_count(points as nat);
    }
    let whole: usize = points / LISSAJOUS_MAX_POINTS;
    let stride: usize = if points % LISSAJOUS_MAX_POINTS == 0 {
        whole
    } else {
        whole + 1
    };
    proof {
        let p = points as int;
        vstd::arithmetic::div_mod::lemma_fundamental_div_mod(p, 128);
        vstd::arithmetic::div_mod::lemma_mod_bound(p, 128);
        let r = p % 128;
        if r == 0 {
            vstd::arithmetic::div_mod::lemma_fundamental_div_mod_converse(
                p + 127,
                128,
                whole as int,
                127,
            );
        } else {
            vstd::arithmetic::div_mod::lemma_fundamental_div_mod_converse(
                p + 127,
                128,
                whole + 1,
                r - 1,
            );
        }
    }
    if stride < 1 {
        1
    } else {
        stride
    }
}

/// Every `stride`-th item of `points`, starting with the first.
pub fn subsample<T: Copy>(points: &[T], stride: usize) -> (kept: Vec<T>)
    requires
        stride >= 1,
    ensures
        kept@.len() == subsampled_len(points@.len(), stride as nat),
        forall|j: int| 0 <= j < kept@.len() ==> kept@[j] == points@[#[trigger] (j * stride)],
{
    let n: usize = points.len();
    let mut kept: Vec<T> = Vec::new();
    let mut i: usize = 0;
    assert(0 == kept@.len() * stride) by (nonlinear_arith)
        requires
            kept@.len() == 0,
    ;
    while i < n
        invariant_except_break
            i == kept@.len() * stride,
            i < n || kept@.len() == 0,
        invariant
            stride >= 1,
            n == points@.len(),
            forall|j: int| 0 <= j < kept@.len() ==> 0 <= #[trigger] (j * stride) < n,
            forall|j: int| 0 <= j < kept@.len() ==> kept@[j] == points@[#[trigger] (j * stride)],
        ensures
            kept@.len() * stride >= n,
            kept@.len() > 0 ==> (kept@.len() - 1) * stride < n,
        decreases n - i,
    {
        let ghost count: int = kept@.len() as int;
        kept.push(points[i]);
        proof {
            assert forall|j: int| 0 <= j < kept@.len() implies 0 <= #[trigger] (j * stride) < n
                && kept@[j] == points@[j * stride] by {
                if j == count {
                    assert(j * stride == i);
                }
            }
            assert((count + 1) * stride == i + stride) by (nonlinear_arith)
                requires
                    i == count * stride,
            ;
        }
        if n - i <= stride {
            break ;
        }
        i = i + stride;
    }
    proof {
        let len = kept@.len() as int;
        let s = stride as int;
        if len == 0 {
            assert(n == 0) by (nonlinear_arith)
                requires
                    len * s >= n,
                    len == 0,
                    n >= 0,
            ;
            assert((0 + s - 1) / s == 0) by (nonlinear_arith)
                requires
                    s >= 1,
            ;
        } else {
            assert((n + s - 1) / s == len) by (nonlinear_arith)
                requires
                    s >= 1,
                    (len - 1) * s < n,
                    n <= len * s,
            ;
        }
    }
    kept
}

/// A running worker counts every frame: after `ticks.len()` frames its index
/// has grown by as many, and it still runs.
pub proof fn lemma_frames_are_counted(worker: StreamWorker, ticks: Seq<u64>)
    requires
        worker.phase == StreamPhase::Running,
        worker.frame_index + ticks.len() <= u64::MAX,
    ensures
        worker.after_frames(ticks).frame_index == worker.frame_index + ticks.len(),
        worker.after_frames(ticks).phase == StreamPhase::Running,
        worker.after_frames(ticks).frame_size == worker.frame_size,
        worker.after_frames(ticks).sample_rate == worker.sample_rate,
        worker.after_frames(ticks).generation == worker.generation,
    decreases ticks.len(),
{
    if ticks.len() > 0 {
        lemma_frames_are_counted(worker, ticks.drop_last());
    }
}

/// Frame indexes start at one and grow strictly, and every time stamp is a
/// whole multiple of `frame_size / sample_rate`: the frame read `k`-th after
/// a fresh start, counting from zero, is reported, if at all, under index
/// `k + 1` and time `k * frame_size / sample_rate`. The first frame is always
/// reported.
pub proof fn lemma_frame_index_is_monotonic(
    worker: StreamWorker,
    ticks: Seq<u64>,
    points: usize,
    k: int,
)
    requires
        worker.phase == StreamPhase::Running,
        worker.frame_index == 0,
        worker.last_emit_ms is None,
        0 <= k < ticks.len() <= u64::MAX,
    ensures
        k == 0 ==> worker.emission_at(ticks, k, points) is Some,
        worker.emission_at(ticks, k, points) matches Some(report) ==> {
            &&& report.frame_index == k + 1
            &&& report.timestamp_num == k * worker.frame_size
            &&& report.timestamp_den == worker.sample_rate
        },
        forall|j: int|
            #![trigger worker.emission_at(ticks, j, points)]
            0 <= j < k && worker.emission_at(ticks, j, points) is Some && worker.emission_at(
                ticks,
                k,
                points,
            ) is Some ==> worker.emission_at(ticks, j, points)->0.frame_index
                < worker.emission_at(ticks, k, points)->0.frame_index,
{
    lemma_frames_are_counted(worker, ticks.take(k));
    assert(k * worker.frame_size <= u64::MAX * u64::MAX) by (nonlinear_arith)
        requires
            0 <= k <= u64::MAX,
            0 <= worker.frame_size <= u64::MAX,
    ;
    if k == 0 {
        assert(ticks.take(0).len() == 0);
        assert(worker.after_frames(ticks.take(0)) == worker);
    }
    assert forall|j: int|
        #![trigger worker.emission_at(ticks, j, points)]
        0 <= j < k && worker.emission_at(ticks, j, points) is Some implies worker.emission_at(
        ticks,
        j,
        points,
    )->0.frame_index == j + 1 by {
        lemma_frames_are_counted(worker, ticks.take(j));
    }
}

/// Once a worker has stopped, for whatever reason, no frame is counted or
/// reported any more: a completion report comes after the last frame.
pub proof fn lemma_stopped_is_silent(worker: StreamWorker, ticks: Seq<u64>, points: usize)
    requires
        worker.phase != StreamPhase::Running,
    ensures
        worker.after_frames(ticks) == worker,
        forall|k: int|
            0 <= k < ticks.len() ==> #[trigger] worker.emission_at(ticks, k, points) is None,
    decreases ticks.len(),
{
    if ticks.len() > 0 {
        lemma_stopped_is_silent(worker, ticks.drop_last(), points);
    }
    assert forall|k: int| 0 <= k < ticks.len() implies #[trigger] worker.emission_at(
        ticks,
        k,
        points,
    ) is None by {
        lemma_stopped_is_silent(worker, ticks.take(k), points);
    }
}

/// A cancelled worker stays cancelled and closes without a completion
/// report, whatever is told to it afterwards.
pub proof fn lemma_cancelled_is_silent(
    worker: StreamWorker,
    ticks: Seq<u64>,
    observed_generation: u64,
    alignment_mismatch: bool,
)
    requires
        worker.phase == StreamPhase::Cancelled,
    ensures
        worker.after_frames(ticks).after_poll(observed_generation) == worker,
        worker.closing(alignment_mismatch).complete is None,
{
    lemma_stopped_is_silent(worker, ticks, 0);
}

/// Stopping the stream cancels the running worker: once the shared counter
/// has moved on from the worker's generation, its next look at it cancels
/// it. A worker started under the new value goes on, from frame index zero.
pub proof fn lemma_stop_cancels(worker: StreamWorker)
    requires
        worker.phase == StreamPhase::Running,
    ensures
        worker.after_poll(generation_after(worker.generation)).phase == StreamPhase::Cancelled,
        worker.after_poll(worker.generation) == worker,
{
}

/// No report carries more than 128 vectorscope points, and one of up to 128
/// points carries them all.
pub proof fn lemma_subsampled_count(points: nat)
    ensures
        subsampled_len(points, stride_of(points)) <= LISSAJOUS_MAX_POINTS,
        points <= LISSAJOUS_MAX_POINTS ==> subsampled_len(points, stride_of(points)) == points,
        stride_of(points) >= 1,
{
    let p = points as int;
    let stride = stride_of(points) as int;
    vstd::arithmetic::div_mod::lemma_fundamental_div_mod(p + 127, 128);
    vstd::arithmetic::div_mod::lemma_mod_bound(p + 127, 128);
    let q = (p + 127) / 128;
    assert(q >= 0) by (nonlinear_arith)
        requires
            p + 127 == 128 * q + (p + 127) % 128,
            (p + 127) % 128 < 128,
            p >= 0,
    ;
    // the stride covers the points in 128 steps: points <= 128 * stride
    assert(p <= 128 * stride);
    assert((p + stride - 1) / stride <= 128) by (nonlinear_arith)
        requires
            stride >= 1,
            p <= 128 * stride,
            p >= 0,
    ;
    if p <= 128 {
        assert(q <= 1) by (nonlinear_arith)
            requires
                p + 127 == 128 * q + (p + 127) % 128,
                (p + 127) % 128 >= 0,
                p <= 128,
        ;
        assert(stride == 1);
        assert((p + 1 - 1) / 1 == p);
    }
}

} // verus!
