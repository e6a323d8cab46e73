//! The index arithmetic of the analyzers: which samples are paired for the
//! spatial measures, which neighbours the true-peak interpolation reads,
//! and which spectrum bins make up the speech band.

use crate::frame::{min_len, AudioFrame};
use vstd::prelude::*;

verus! {

/// Lower edge of the speech band, in hertz.
pub const SPEECH_LOW_HZ: u32 = 1_000;

/// Upper edge of the speech band, in hertz.
pub const SPEECH_HIGH_HZ: u32 = 4_000;

/// Pairs dialogue with background for the correlation and the vectorscope.
#[derive(Debug, Clone, Copy, PartialEq, Eq, Structural)]
pub struct SpatialAnalyzer;

/// Indexes of the four samples that the cubic through the interval from
/// `i` to `i + 1` reads, in a buffer of `n` samples: the one before, the two
/// ends, and the one after, the outer two kept inside the buffer.
pub open spec fn hermite_window(i: int, n: int) -> (int, int, int, int) {
    (
        if i > 0 {
            i - 1
        } else {
            0
        },
        i,
        i + 1,
        if i + 2 < n {
            i + 2
        } else {
            n - 1
        },
    )
}

/// Number of bins from zero up to the Nyquist frequency in a spectrum of
/// `len` bins, and never more than there are.
pub open spec fn nyquist_bins_of(len: int) -> int {
    if len == 0 {
        0
    } else {
        len / 2 + 1
    }
}

/// The bins of the band from `low_hz` to `high_hz` among the `bins`
/// magnitudes of a transform of `frame_size` samples at `sample_rate`, bin
/// `k` standing at `k * sample_rate / frame_size` hertz: from the bin that
/// holds `low_hz` to the first bin at or above `high_hz`, both kept within
/// the spectrum. `None` where there is no spectrum, no frame, no rate or no
/// band.
pub open spec fn band_bins(
    bins: int,
    frame_size: int,
    sample_rate: int,
    low_hz: int,
    high_hz: int,
) -> Option<(int, int)> {
    if bins <= 0 || frame_size <= 0 || low_hz >= high_hz || sample_rate <= 0 {
        None
    } else {
        let first = low_hz * frame_size / sample_rate;
        let last = (high_hz * frame_size + sample_rate - 1) / sample_rate;
        let start = if first >= bins {
            bins - 1
        } else {
            first
        };
        let end = if last >= bins {
            bins - 1
        } else {
            last
        };
        if end < start {
            None
        } else {
            Some((start, end))
        }
    }
}

impl SpatialAnalyzer {
    pub fn new() -> (analyzer: Self)
        ensures
            analyzer == SpatialAnalyzer,
    {
        SpatialAnalyzer
    }

    /// The samples of dialogue and background side by side, as far as both
    /// reach.
    pub fn paired_samples<T: Copy>(&self, frame: &AudioFrame<T>) -> (pairs: Vec<(T, T)>)
        ensures
            pairs@.len() == frame.spec_len(),
            forall|i: int|
                0 <= i < pairs@.len() ==> #[trigger] pairs@[i] == (
                    frame.dialogue_raw@[i],
                    frame.background_raw@[i],
                ),
    {
        let len: usize = frame.len();
        let mut pairs: Vec<(T, T)> = Vec::new();
        let mut i: usize = 0;
        while i < len
            invariant
                i <= len,
                len == frame.spec_len(),
                pairs@.len() == i,
                forall|j: int|
                    0 <= j < i ==> #[trigger] pairs@[j] == (
                        frame.dialogue_raw@[j],
                        frame.background_raw@[j],
                    ),
            decreases len - i,
        {
            pairs.push((frame.dialogue_raw[i], frame.background_raw[i]));
            i = i + 1;
        }
        pairs
    }
}

/// The four samples that the cubic through each interval between two
/// neighbouring samples reads.
pub fn hermite_windows<T: Copy>(samples: &[T]) -> (windows: Vec<[T; 4]>)
    ensures
        samples@.len() < 2 ==> windows@.len() == 0,
        samples@.len() >= 2 ==> windows@.len() == samples@.len() - 1,
        forall|i: int|
            0 <= i < windows@.len() ==> {
                let w = hermite_window(i, samples@.len() as int);
                &&& (#[trigger] windows@[i])@[0] == samples@[w.0]
                &&& windows@[i]@[1] == samples@[w.1]
                &&& windows@[i]@[2] == samples@[w.2]
                &&& windows@[i]@[3] == samples@[w.3]
            },
{
    let n: usize = samples.len();
    let mut windows: Vec<[T; 4]> = Vec::new();
    if n < 2 {
        return windows;
    }
    let mut i: usize = 0;
    while i < n - 1
        invariant
            n == samples@.len(),
            n >= 2,
            i <= n - 1,
            windows@.len() == i,
            forall|j: int|
                0 <= j < i ==> {
                    let w = hermite_window(j, n as int);
                    &&& (#[trigger] windows@[j])@[0] == samples@[w.0]
                    &&& windows@[j]@[1] == samples@[w.1]
                    &&& windows@[j]@[2] == samples@[w.2]
                    &&& windows@[j]@[3] == samples@[w.3]
                },
        decreases n - 1 - i,
    {
        let before: T = if i > 0 {
            samples[i - 1]
        } else {
            samples[0]
        };
        let after: T = if i + 2 < n {
            samples[i + 2]
        } else {
            samples[n - 1]
        };
        windows.push([before, samples[i], samples[i + 1], after]);
        i = i + 1;
    }
    windows
}

/// Number of bins from zero up to the Nyquist frequency in a spectrum of
/// `len` bins.
pub fn nyquist_bins(len: usize) -> (bins: usize)
    ensures
        bins == nyquist_bins_of(len as int),
        bins <= len,
{
    if len == 0 {
        0
    } else {
        len / 2 + 1
    }
}

/// Fits `input` to a frame of `frame_size` samples: what is beyond is cut
/// off, what is missing is filled with `silence`.
pub fn fit_to_frame<T: Copy>(input: &[T], frame_size: usize, silence: T) -> (fitted: Vec<T>)
    ensures
        fitted@.len() == frame_size,
        forall|i: int|
            0 <= i < frame_size ==> #[trigger] fitted@[i] == if i < input@.len() {
                input@[i]
            } else {
                silence
            },
{
    let mut fitted: Vec<T> = Vec::new();
    let mut i: usize = 0;
    while i < frame_size
        invariant
            i <= frame_size,
            fitted@.len() == i,
            forall|j: int|
                0 <= j < i ==> #[trigger] fitted@[j] == if j < input@.len() {
                    input@[j]
                } else {
                    silence
                },
        decreases frame_size - i,
    {
        if i < input.len() {
            fitted.push(input[i]);
        } else {
            fitted.push(silence);
        }
        i = i + 1;
    }
    fitted
}

/// The first and the last bin of the band from `low_hz` to `high_hz` among
/// the `bins` magnitudes of a transform of `frame_size` samples at
/// `sample_rate`.
pub fn speech_band_bins(
    bins: usize,
    frame_size: usize,
    sample_rate: u32,
    low_hz: u32,
    high_hz: u32,
) -> (band: Option<(usize, usize)>)
    ensures
        match band {
            Some((start, end)) => band_bins(
                bins as int,
                frame_size as int,
                sample_rate as int,
                low_hz as int,
                high_hz as int,
            ) == Some((start as int, end as int)) && start <= end < bins,
            None => band_bins(
                bins as int,
                frame_size as int,
                sample_rate as int,
                low_hz as int,
                high_hz as int,
            ) is None,
        },
{
    if bins == 0 || frame_size == 0 || low_hz >= high_hz || sample_rate == 0 {
        return None;
    }
    let size: u128 = frame_size as u128;
    proof {
        assert(low_hz * size <= 0xFFFF_FFFF * size) by (nonlinear_arith)
            requires
                low_hz <= 0xFFFF_FFFF,
                size >= 0,
        ;
        assert(high_hz * size <= 0xFFFF_FFFF * size) by (nonlinear_arith)
            requires
                high_hz <= 0xFFFF_FFFF,
                size >= 0,
        ;
        assert(0xFFFF_FFFF * size <= 0xFFFF_FFFF * 0xFFFF_FFFF_FFFF_FFFF) by (nonlinear_arith)
            requires
                size <= 0xFFFF_FFFF_FFFF_FFFF,
        ;
    }
    let first: u128 = low_hz as u128 * size / sample_rate as u128;
    let last: u128 = (high_hz as u128 * size + sample_rate as u128 - 1) / sample_rate as u128;
    let start: usize = if first >= bins as u128 {
        bins - 1
    } else {
        first as usize
    };
    let end: usize = if last >= bins as u128 {
        bins - 1
    } else {
        last as usize
    };
    if end < start {
        None
    } else {
        Some((start, end))
    }
}

} // verus!
