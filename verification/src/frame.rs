//! One synchronized analysis window over every stem.
//!
//! The types are generic in the sample type `T`: this crate moves samples
//! about and counts them, and leaves their arithmetic to its caller.

use crate::stems::{flags_of, AudioFrameStemFlags, StemState};
use vstd::prelude::*;

verus! {

/// Loudness readings that came with a frame instead of being measured on it.
#[derive(Debug, Clone, Copy)]
pub struct AudioFrameStaticLoudness<T> {
    pub dialogue_momentary_lufs: T,
    pub dialogue_short_term_lufs: T,
    pub background_momentary_lufs: T,
    pub background_short_term_lufs: T,
}

/// One analysis window: the dialogue, the summed background, and each stem
/// after its gain.
#[derive(Debug, Clone)]
pub struct AudioFrame<T> {
    pub sample_rate: u32,
    pub dialogue_raw: Vec<T>,
    pub background_raw: Vec<T>,
    pub dx_raw: Vec<T>,
    pub music_raw: Vec<T>,
    pub foley_raw: Vec<T>,
    pub sfx_raw: Vec<T>,
    pub ambience_raw: Vec<T>,
    pub stem_flags: AudioFrameStemFlags,
    pub static_loudness: Option<AudioFrameStaticLoudness<T>>,
}

pub type SyncedAudioFrame<T> = AudioFrame<T>;

/// The smaller of two lengths.
pub open spec fn min_len(a: nat, b: nat) -> nat {
    if a <= b {
        a
    } else {
        b
    }
}

impl<T> AudioFrame<T> {
    /// The frame with no samples, rate zero, every switch off and no
    /// loudness attached.
    pub open spec fn is_blank(&self) -> bool {
        &&& self.sample_rate == 0
        &&& self.dialogue_raw@.len() == 0
        &&& self.background_raw@.len() == 0
        &&& self.dx_raw@.len() == 0
        &&& self.music_raw@.len() == 0
        &&& self.foley_raw@.len() == 0
        &&& self.sfx_raw@.len() == 0
        &&& self.ambience_raw@.len() == 0
        &&& self.stem_flags == flags_of(Map::empty())
        &&& self.static_loudness is None
    }

    /// Every buffer of the frame has `n` samples.
    pub open spec fn is_aligned(&self, n: nat) -> bool {
        &&& self.dialogue_raw@.len() == n
        &&& self.background_raw@.len() == n
        &&& self.dx_raw@.len() == n
        &&& self.music_raw@.len() == n
        &&& self.foley_raw@.len() == n
        &&& self.sfx_raw@.len() == n
        &&& self.ambience_raw@.len() == n
    }

    /// Number of samples that dialogue and background have in common.
    pub open spec fn spec_len(&self) -> nat {
        min_len(self.dialogue_raw@.len(), self.background_raw@.len())
    }

    /// An empty frame.
    pub fn empty() -> (frame: Self)
        ensures
            frame.is_blank(),
    {
        let off = StemState { is_solo: false, is_muted: false };
        AudioFrame {
            sample_rate: 0,
            dialogue_raw: Vec::new(),
            background_raw: Vec::new(),
            dx_raw: Vec::new(),
            music_raw: Vec::new(),
            foley_raw: Vec::new(),
            sfx_raw: Vec::new(),
            ambience_raw: Vec::new(),
            stem_flags: AudioFrameStemFlags {
                dx: off,
                music: off,
                foley: off,
                sfx: off,
                ambience: off,
            },
            static_loudness: None,
        }
    }

    /// Number of samples that dialogue and background have in common.
    pub fn len(&self) -> (n: usize)
        ensures
            n == self.spec_len(),
    {
        let d = self.dialogue_raw.len();
        let b = self.background_raw.len();
        if d <= b {
            d
        } else {
            b
        }
    }

    /// Dialogue or background has no samples.
    pub fn is_empty(&self) -> (empty: bool)
        ensures
            empty == (self.spec_len() == 0),
    {
        self.len() == 0
    }

    /// A frame without samples that carries loudness readings.
    pub fn from_static_loudness(
        sample_rate: u32,
        static_loudness: AudioFrameStaticLoudness<T>,
    ) -> (frame: Self)
        ensures
            frame.sample_rate == sample_rate,
            frame.static_loudness == Some(static_loudness),
            frame.is_aligned(0),
            frame.stem_flags == flags_of(Map::empty()),
    {
        let mut frame = Self::empty();
        frame.sample_rate = sample_rate;
        frame.static_loudness = Some(static_loudness);
        frame
    }

    /// The same frame with loudness readings attached.
    pub fn with_static_loudness(self, static_loudness: AudioFrameStaticLoudness<T>) -> (frame:
        Self)
        ensures
            frame.static_loudness == Some(static_loudness),
            frame.sample_rate == self.sample_rate,
            frame.dialogue_raw == self.dialogue_raw,
            frame.background_raw == self.background_raw,
            frame.dx_raw == self.dx_raw,
            frame.music_raw == self.music_raw,
            frame.foley_raw == self.foley_raw,
            frame.sfx_raw == self.sfx_raw,
            frame.ambience_raw == self.ambience_raw,
            frame.stem_flags == self.stem_flags,
    {
        let mut frame = self;
        frame.static_loudness = Some(static_loudness);
        frame
    }
}

impl<T> Default for AudioFrame<T> {
    fn default() -> (frame: Self)
        ensures
            frame.is_blank(),
    {
        Self::empty()
    }
}

} // verus!
