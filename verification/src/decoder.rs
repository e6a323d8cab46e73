//! The multi-stem synchronizer: takes one frame's worth of samples from every
//! stem, pads the short ones with silence, and ramps each stem's gain towards
//! what the solo and mute switches ask for.

use crate::gain::{apply_gain_ramp, fade_samples, fade_samples_of, gain_after};
use crate::stem_decoder::{frame_take, AudioDecodeError, DecodeFailure, StemStreamDecoder};
use crate::stems::{AudioFrameStemFlags, StemRuntimeGains, StemTargetGains};
use vstd::prelude::*;

verus! {

pub const DEFAULT_TARGET_SAMPLE_RATE: u32 = 48_000;

pub const DEFAULT_FRAME_SIZE: usize = 2048;

/// The samples of one stem in a frame, and the gain level that applies to
/// each of them.
#[derive(Debug, Clone)]
pub struct StemBuffer<T> {
    pub samples: Vec<T>,
    pub levels: Vec<u32>,
}

/// One synchronized frame before gains are applied: every stem has the same
/// number of samples and of levels, and `unity` levels stand for a gain of
/// one.
#[derive(Debug, Clone)]
pub struct StemFrame<T> {
    pub sample_rate: u32,
    pub unity: u32,
    pub dx: StemBuffer<T>,
    pub music: StemBuffer<T>,
    pub foley: StemBuffer<T>,
    pub sfx: StemBuffer<T>,
    pub ambience: StemBuffer<T>,
    pub stem_flags: AudioFrameStemFlags,
}

/// Synchronizer over the five stems.
#[derive(Debug, Clone)]
pub struct MikupAudioDecoder<T> {
    pub dx: StemStreamDecoder<T>,
    pub music: StemStreamDecoder<T>,
    pub foley: StemStreamDecoder<T>,
    pub sfx: StemStreamDecoder<T>,
    pub ambience: StemStreamDecoder<T>,
    pub frame_size: usize,
    pub target_sample_rate: u32,
    /// The level each stem is at.
    pub stem_runtime_gains: StemRuntimeGains,
    /// Length of a fade in samples; as many levels stand for a gain of one.
    pub fade_samples: u32,
    /// Set once a stem has run short while another still had samples: the
    /// stems differ in length and the short one is padded with silence.
    pub alignment_mismatch_detected: bool,
}

/// `s` followed by as many `fill` as it takes to reach `n` items.
pub open spec fn padded<T>(s: Seq<T>, n: nat, fill: T) -> Seq<T> {
    if s.len() >= n {
        s
    } else {
        s + Seq::new((n - s.len()) as nat, |i: int| fill)
    }
}

/// The largest of five lengths.
pub open spec fn max5(a: nat, b: nat, c: nat, d: nat, e: nat) -> nat {
    let ab = if a >= b { a } else { b };
    let cd = if c >= d { c } else { d };
    let abcd = if ab >= cd { ab } else { cd };
    if abcd >= e {
        abcd
    } else {
        e
    }
}

/// The level of each of `n` samples of a ramp that moves one level per
/// sample.
pub open spec fn ramp_levels(start: u32, target: u32, n: nat) -> Seq<u32> {
    Seq::new(n, |i: int| gain_after(start as int, target as int, 1, (i + 1) as nat) as u32)
}

/// The level a stem is at after a frame of `n` samples: over no sample it
/// stays where it was.
pub open spec fn level_after(start: u32, target: u32, n: nat) -> int {
    gain_after(start as int, target as int, 1, n)
}

/// The failure of a configuration, or `None` where it is sound.
pub open spec fn config_failure(target_sample_rate: u32, frame_size: usize) -> Option<
    DecodeFailure,
> {
    if target_sample_rate == 0 {
        Some(DecodeFailure::InvalidConfig("target_sample_rate must be > 0"@))
    } else if frame_size == 0 {
        Some(DecodeFailure::InvalidConfig("frame_size must be > 0"@))
    } else {
        None
    }
}

/// Checks a target rate and a frame size: both must be positive.
pub fn validate_config(target_sample_rate: u32, frame_size: usize) -> (checked: Result<
    (),
    AudioDecodeError,
>)
    ensures
        match checked {
            Ok(()) => config_failure(target_sample_rate, frame_size) is None,
            Err(error) => config_failure(target_sample_rate, frame_size) == Some(error@),
        },
{
    if target_sample_rate == 0 {
        return Err(AudioDecodeError::InvalidConfig("target_sample_rate must be > 0"));
    }
    if frame_size == 0 {
        return Err(AudioDecodeError::InvalidConfig("frame_size must be > 0"));
    }
    Ok(())
}

/// Appends `fill` to `buffer` until it holds `len` items.
pub fn pad_to<T: Copy>(buffer: &mut Vec<T>, len: usize, fill: T)
    ensures
        final(buffer)@ == padded(old(buffer)@, len as nat, fill),
{
    let ghost before: Seq<T> = buffer@;
    if buffer.len() >= len {
        return ;
    }
    while buffer.len() < len
        invariant
            before.len() <= buffer@.len() <= len,
            buffer@ == before + Seq::new((buffer@.len() - before.len()) as nat, |i: int| fill),
        decreases len - buffer@.len(),
    {
        buffer.push(fill);
        assert(buffer@ =~= before + Seq::new(
            (buffer@.len() - before.len()) as nat,
            |i: int| fill,
        ));
    }
}

/// The largest of five lengths.
pub fn longest(a: usize, b: usize, c: usize, d: usize, e: usize) -> (m: usize)
    ensures
        m == max5(a as nat, b as nat, c as nat, d as nat, e as nat),
{
    let ab = if a >= b { a } else { b };
    let cd = if c >= d { c } else { d };
    let abcd = if ab >= cd { ab } else { cd };
    if abcd >= e {
        abcd
    } else {
        e
    }
}

/// No level of `buffer` is above `unity`.
pub open spec fn within_unity<T>(buffer: StemBuffer<T>, unity: u32) -> bool {
    forall|i: int| 0 <= i < buffer.levels@.len() ==> #[trigger] buffer.levels@[i] <= unity
}

/// A ramp stays between the level it starts from and the level it is
/// heading for: with both within `unity`, so is every level on the way.
pub proof fn lemma_ramp_within_unity(start: u32, target: u32, unity: u32, n: nat)
    requires
        start <= unity,
        target <= unity,
    ensures
        forall|i: int| 0 <= i < n ==> #[trigger] ramp_levels(start, target, n)[i] <= unity,
        0 <= level_after(start, target, n) <= unity,
{
    assert forall|i: int| 0 <= i < n implies #[trigger] ramp_levels(start, target, n)[i]
        <= unity by {
        let level = gain_after(start as int, target as int, 1, (i + 1) as nat);
        assert(0 <= level <= unity);
    }
}

/// Ramps one stem over `len` samples, one level per sample, and returns
/// the level of each sample. An empty frame leaves the gain alone.
pub fn ramp_stem(len: usize, current_gain: &mut u32, target_gain: u32, unity: u32) -> (levels: Vec<
    u32,
>)
    requires
        *old(current_gain) <= unity,
        target_gain <= unity,
    ensures
        levels@ == ramp_levels(*old(current_gain), target_gain, len as nat),
        *final(current_gain) as int == level_after(*old(current_gain), target_gain, len as nat),
        *final(current_gain) <= unity,
        len == 0 ==> *final(current_gain) == *old(current_gain),
        forall|i: int| 0 <= i < levels@.len() ==> #[trigger] levels@[i] <= unity,
{
    proof {
        lemma_ramp_within_unity(*old(current_gain), target_gain, unity, len as nat);
    }
    let levels = apply_gain_ramp(len, current_gain, target_gain, 1);
    assert(levels@ =~= ramp_levels(*old(current_gain), target_gain, len as nat));
    levels
}

/// The target level of a stem: its target gain in levels.
pub open spec fn target_level(gain: u32, unity: u32) -> u32 {
    if gain == 0 {
        0
    } else {
        unity
    }
}

/// `buffer` holds `samples`, with the levels of a ramp from `start` towards
/// `target`.
pub open spec fn is_ramped<T>(buffer: StemBuffer<T>, samples: Seq<T>, start: u32, target: u32) -> bool {
    &&& buffer.samples@ == samples
    &&& buffer.levels@ == ramp_levels(start, target, samples.len())
}

/// `after` is `before` with `take` samples gone from the front of the
/// pending ones.
pub open spec fn has_given<T: Copy>(
    before: StemStreamDecoder<T>,
    after: StemStreamDecoder<T>,
    take: nat,
) -> bool {
    &&& after.wf()
    &&& after.pending() == before.pending().skip(take as int)
    &&& after.stem() == before.stem()
    &&& after.at_eof() == before.at_eof()
    &&& after.resampler() == before.resampler()
}

/// `after` is `before` made ready for a jump in its source: the same stem
/// at the same rates, with nothing pending, the source not ended, and the
/// resampler at position zero with no input kept.
pub open spec fn is_rewound<T: Copy>(
    before: StemStreamDecoder<T>,
    after: StemStreamDecoder<T>,
) -> bool {
    &&& after.wf()
    &&& after.stem() == before.stem()
    &&& after.pending().len() == 0
    &&& !after.at_eof()
    &&& after.resampler().spec_input_rate() == before.resampler().spec_input_rate()
    &&& after.resampler().spec_output_rate() == before.resampler().spec_output_rate()
    &&& after.resampler().position() == 0
    &&& after.resampler().residual().len() == 0
}

impl<T: Copy> MikupAudioDecoder<T> {
    pub open spec fn spec_frame_size(&self) -> usize {
        self.frame_size
    }

    pub open spec fn spec_target_sample_rate(&self) -> u32 {
        self.target_sample_rate
    }

    /// The level each stem is at.
    pub open spec fn gains(&self) -> StemRuntimeGains {
        self.stem_runtime_gains
    }

    /// Number of levels that stand for a gain of one: the length of a fade
    /// in samples.
    pub open spec fn unity(&self) -> u32 {
        self.fade_samples
    }

    pub open spec fn wf(&self) -> bool {
        &&& self.dx.wf()
        &&& self.music.wf()
        &&& self.foley.wf()
        &&& self.sfx.wf()
        &&& self.ambience.wf()
        &&& self.spec_frame_size() > 0
        &&& self.spec_target_sample_rate() > 0
        &&& self.unity() == fade_samples_of(self.spec_target_sample_rate() as int)
        &&& self.gains().dx <= self.unity()
        &&& self.gains().music <= self.unity()
        &&& self.gains().foley <= self.unity()
        &&& self.gains().sfx <= self.unity()
        &&& self.gains().ambience <= self.unity()
    }

    /// Frame size, rate and fade length are those of `other`.
    pub open spec fn same_config(&self, other: &Self) -> bool {
        &&& self.spec_frame_size() == other.spec_frame_size()
        &&& self.spec_target_sample_rate() == other.spec_target_sample_rate()
        &&& self.unity() == other.unity()
    }

    /// Every stem has ended and has nothing pending.
    pub open spec fn all_finished(&self) -> bool {
        &&& self.dx.finished()
        &&& self.music.finished()
        &&& self.foley.finished()
        &&& self.sfx.finished()
        &&& self.ambience.finished()
    }

    /// Number of samples the next frame takes from `stem`.
    pub open spec fn popped(&self, stem: StemStreamDecoder<T>) -> nat {
        frame_take(stem.pending().len(), self.spec_frame_size() as nat)
    }

    /// Length of the longest stem in the next frame.
    pub open spec fn longest_popped(&self) -> nat {
        max5(
            self.popped(self.dx),
            self.popped(self.music),
            self.popped(self.foley),
            self.popped(self.sfx),
            self.popped(self.ambience),
        )
    }

    /// Length of the next frame: that of its longest stem, or a whole frame
    /// of silence where no stem has a sample to give.
    pub open spec fn frame_length(&self) -> nat {
        if self.longest_popped() == 0 {
            self.spec_frame_size() as nat
        } else {
            self.longest_popped()
        }
    }

    /// Some stem gives fewer samples to the next frame than another.
    pub open spec fn runs_short(&self) -> bool {
        let longest = self.longest_popped();
        ||| self.popped(self.dx) < longest
        ||| self.popped(self.music) < longest
        ||| self.popped(self.foley) < longest
        ||| self.popped(self.sfx) < longest
        ||| self.popped(self.ambience) < longest
    }

    /// Length of the tail: the most that any stem has pending.
    pub open spec fn tail_length(&self) -> nat {
        max5(
            self.dx.pending().len(),
            self.music.pending().len(),
            self.foley.pending().len(),
            self.sfx.pending().len(),
            self.ambience.pending().len(),
        )
    }

    /// A synchronizer over five opened stems. The target rate and the frame
    /// size must be positive, and every stem must resample to the rate of
    /// the dialogue.
    pub fn new(
        dx: StemStreamDecoder<T>,
        music: StemStreamDecoder<T>,
        foley: StemStreamDecoder<T>,
        sfx: StemStreamDecoder<T>,
        ambience: StemStreamDecoder<T>,
        target_sample_rate: u32,
        frame_size: usize,
    ) -> (made: Result<Self, AudioDecodeError>)
        requires
            dx.wf(),
            music.wf(),
            foley.wf(),
            sfx.wf(),
            ambience.wf(),
        ensures
            match made {
                Ok(decoder) => {
                    &&& config_failure(target_sample_rate, frame_size) is None
                    &&& music.resampler().spec_output_rate() == dx.resampler().spec_output_rate()
                    &&& foley.resampler().spec_output_rate() == dx.resampler().spec_output_rate()
                    &&& sfx.resampler().spec_output_rate() == dx.resampler().spec_output_rate()
                    &&& ambience.resampler().spec_output_rate()
                        == dx.resampler().spec_output_rate()
                    &&& decoder.wf()
                    &&& decoder.dx == dx
                    &&& decoder.music == music
                    &&& decoder.foley == foley
                    &&& decoder.sfx == sfx
                    &&& decoder.ambience == ambience
                    &&& decoder.spec_frame_size() == frame_size
                    &&& decoder.spec_target_sample_rate() == target_sample_rate
                    &&& decoder.gains() == (StemRuntimeGains {
                        dx: decoder.unity(),
                        music: decoder.unity(),
                        foley: decoder.unity(),
                        sfx: decoder.unity(),
                        ambience: decoder.unity(),
                    })
                    &&& !decoder.alignment_mismatch_detected
                },
                Err(error) => {
                    if config_failure(target_sample_rate, frame_size) is Some {
                        config_failure(target_sample_rate, frame_size) == Some(error@)
                    } else {
                        &&& error@ == DecodeFailure::InvalidConfig(
                            "stems resolved to mismatched output sample rates"@,
                        )
                        &&& (music.resampler().spec_output_rate()
                            != dx.resampler().spec_output_rate()
                            || foley.resampler().spec_output_rate()
                            != dx.resampler().spec_output_rate()
                            || sfx.resampler().spec_output_rate()
                            != dx.resampler().spec_output_rate()
                            || ambience.resampler().spec_output_rate()
                            != dx.resampler().spec_output_rate())
                    }
                },
            },
    {
        match validate_config(target_sample_rate, frame_size) {
            Ok(()) => {},
            Err(error) => {
                return Err(error);
            },
        }
        let resolved_sample_rate = dx.target_sample_rate();
        if music.target_sample_rate() != resolved_sample_rate || foley.target_sample_rate()
            != resolved_sample_rate || sfx.target_sample_rate() != resolved_sample_rate
            || ambience.target_sample_rate() != resolved_sample_rate {
            return Err(
                AudioDecodeError::InvalidConfig("stems resolved to mismatched output sample rates"),
            );
        }
        let unity = fade_samples(target_sample_rate);
        Ok(
            MikupAudioDecoder {
                dx,
                music,
                foley,
                sfx,
                ambience,
                frame_size,
                target_sample_rate,
                stem_runtime_gains: StemRuntimeGains::full(unity),
                fade_samples: unity,
                alignment_mismatch_detected: false,
            },
        )
    }

    /// A synchronizer at 48 kHz with frames of 2048 samples.
    pub fn with_defaults(
        dx: StemStreamDecoder<T>,
        music: StemStreamDecoder<T>,
        foley: StemStreamDecoder<T>,
        sfx: StemStreamDecoder<T>,
        ambience: StemStreamDecoder<T>,
    ) -> (made: Result<Self, AudioDecodeError>)
        requires
            dx.wf(),
            music.wf(),
            foley.wf(),
            sfx.wf(),
            ambience.wf(),
        ensures
            made matches Ok(decoder) ==> {
                &&& decoder.wf()
                &&& decoder.dx == dx
                &&& decoder.music == music
                &&& decoder.foley == foley
                &&& decoder.sfx == sfx
                &&& decoder.ambience == ambience
                &&& decoder.spec_frame_size() == DEFAULT_FRAME_SIZE
                &&& decoder.spec_target_sample_rate() == DEFAULT_TARGET_SAMPLE_RATE
                &&& decoder.gains() == (StemRuntimeGains {
                    dx: decoder.unity(),
                    music: decoder.unity(),
                    foley: decoder.unity(),
                    sfx: decoder.unity(),
                    ambience: decoder.unity(),
                })
                &&& !decoder.alignment_mismatch_detected
            },
            made is Ok <==> music.resampler().spec_output_rate()
                == dx.resampler().spec_output_rate() && foley.resampler().spec_output_rate()
                == dx.resampler().spec_output_rate() && sfx.resampler().spec_output_rate()
                == dx.resampler().spec_output_rate() && ambience.resampler().spec_output_rate()
                == dx.resampler().spec_output_rate(),
            made matches Err(error) ==> error@ == DecodeFailure::InvalidConfig(
                "stems resolved to mismatched output sample rates"@,
            ),
    {
        Self::new(
            dx,
            music,
            foley,
            sfx,
            ambience,
            DEFAULT_TARGET_SAMPLE_RATE,
            DEFAULT_FRAME_SIZE,
        )
    }

    #[verifier::when_used_as_spec(spec_target_sample_rate)]
    pub fn target_sample_rate(&self) -> (rate: u32)
        ensures
            rate == self.spec_target_sample_rate(),
    {
        self.target_sample_rate
    }

    #[verifier::when_used_as_spec(spec_frame_size)]
    pub fn frame_size(&self) -> (size: usize)
        ensures
            size == self.spec_frame_size(),
    {
        self.frame_size
    }

    /// The level each stem is at.
    pub fn runtime_gains(&self) -> (gains: StemRuntimeGains)
        ensures
            gains == self.gains(),
    {
        self.stem_runtime_gains
    }

    /// Number of levels that stand for a gain of one.
    pub fn gain_unity(&self) -> (unity: u32)
        ensures
            unity == self.unity(),
    {
        self.fade_samples
    }

    /// The frame that blocks of equal length make under `stem_flags`, given
    /// the levels the stems were at before and are at after.
    pub open spec fn frames(
        &self,
        before: StemRuntimeGains,
        stem_flags: AudioFrameStemFlags,
        dx: Seq<T>,
        music: Seq<T>,
        foley: Seq<T>,
        sfx: Seq<T>,
        ambience: Seq<T>,
        frame: StemFrame<T>,
    ) -> bool {
        let unity = self.unity();
        let targets = StemTargetGains::of(stem_flags);
        &&& frame.sample_rate == self.spec_target_sample_rate()
        &&& frame.unity == unity
        &&& frame.stem_flags == stem_flags
        &&& within_unity(frame.dx, unity)
        &&& within_unity(frame.music, unity)
        &&& within_unity(frame.foley, unity)
        &&& within_unity(frame.sfx, unity)
        &&& within_unity(frame.ambience, unity)
        &&& is_ramped(frame.dx, dx, before.dx, target_level(targets.dx, unity))
        &&& is_ramped(frame.music, music, before.music, target_level(targets.music, unity))
        &&& is_ramped(frame.foley, foley, before.foley, target_level(targets.foley, unity))
        &&& is_ramped(frame.sfx, sfx, before.sfx, target_level(targets.sfx, unity))
        &&& is_ramped(
            frame.ambience,
            ambience,
            before.ambience,
            target_level(targets.ambience, unity),
        )
        &&& self.gains().dx == level_after(
            before.dx,
            target_level(targets.dx, unity),
            dx.len(),
        )
        &&& self.gains().music == level_after(
            before.music,
            target_level(targets.music, unity),
            dx.len(),
        )
        &&& self.gains().foley == level_after(
            before.foley,
            target_level(targets.foley, unity),
            dx.len(),
        )
        &&& self.gains().sfx == level_after(
            before.sfx,
            target_level(targets.sfx, unity),
            dx.len(),
        )
        &&& self.gains().ambience == level_after(
            before.ambience,
            target_level(targets.ambience, unity),
            dx.len(),
        )
    }

    /// Reads one synchronized frame.
    ///
    /// Returns `None` once every stem has ended with nothing pending. Else
    /// every stem gives up to a frame of samples, or a frame of `silence`
    /// where none has any to give; the short ones are padded with `silence`
    /// to the length of the longest, which sets the mismatch flag; and every
    /// stem's gain ramps towards what `stem_flags` ask for.
    #[verifier::rlimit(50)]
    pub fn read_frame(&mut self, stem_flags: AudioFrameStemFlags, silence: T) -> (read: Option<
        StemFrame<T>,
    >)
        requires
            old(self).wf(),
        ensures
            final(self).wf(),
            final(self).same_config(old(self)),
            old(self).all_finished() ==> read is None && *final(self) == *old(self),
            !old(self).all_finished() ==> {
                let n = old(self).frame_length();
                &&& read matches Some(frame)
                &&& final(self).frames(
                    old(self).gains(),
                    stem_flags,
                    padded(old(self).dx.pending().take(old(self).popped(old(self).dx) as int), n, silence),
                    padded(
                        old(self).music.pending().take(old(self).popped(old(self).music) as int),
                        n,
                        silence,
                    ),
                    padded(
                        old(self).foley.pending().take(old(self).popped(old(self).foley) as int),
                        n,
                        silence,
                    ),
                    padded(
                        old(self).sfx.pending().take(old(self).popped(old(self).sfx) as int),
                        n,
                        silence,
                    ),
                    padded(
                        old(self).ambience.pending().take(
                            old(self).popped(old(self).ambience) as int,
                        ),
                        n,
                        silence,
                    ),
                    frame,
                )
                &&& frame.dx.samples@.len() == n
                &&& frame.music.samples@.len() == n
                &&& frame.foley.samples@.len() == n
                &&& frame.sfx.samples@.len() == n
                &&& frame.ambience.samples@.len() == n
                &&& has_given(old(self).dx, final(self).dx, old(self).popped(old(self).dx))
                &&& has_given(old(self).music, final(self).music, old(self).popped(old(self).music))
                &&& has_given(old(self).foley, final(self).foley, old(self).popped(old(self).foley))
                &&& has_given(old(self).sfx, final(self).sfx, old(self).popped(old(self).sfx))
                &&& has_given(
                    old(self).ambience,
                    final(self).ambience,
                    old(self).popped(old(self).ambience),
                )
                &&& final(self).alignment_mismatch_detected == (old(
                    self,
                ).alignment_mismatch_detected || old(self).runs_short())
            },
    {
        if self.dx.is_finished() && self.music.is_finished() && self.foley.is_finished()
            && self.sfx.is_finished() && self.ambience.is_finished() {
            return None;
        }
        let frame_size: usize = self.frame_size;
        let mut dx = self.dx.pop_frame(frame_size);
        let mut music = self.music.pop_frame(frame_size);
        let mut foley = self.foley.pop_frame(frame_size);
        let mut sfx = self.sfx.pop_frame(frame_size);
        let mut ambience = self.ambience.pop_frame(frame_size);

        let max_len = longest(dx.len(), music.len(), foley.len(), sfx.len(), ambience.len());
        let len: usize = if max_len == 0 {
            frame_size
        } else {
            max_len
        };
        if max_len > 0 && (dx.len() < max_len || music.len() < max_len || foley.len() < max_len
            || sfx.len() < max_len || ambience.len() < max_len) {
            self.alignment_mismatch_detected = true;
        }
        pad_to(&mut dx, len, silence);
        pad_to(&mut music, len, silence);
        pad_to(&mut foley, len, silence);
        pad_to(&mut sfx, len, silence);
        pad_to(&mut ambience, len, silence);

        Some(self.process_frame(dx, music, foley, sfx, ambience, stem_flags))
    }

    /// Takes whatever every stem still has pending as one last frame, the
    /// short stems padded with `silence`. The mismatch flag is left alone.
    #[verifier::rlimit(50)]
    pub fn drain_tail(&mut self, stem_flags: AudioFrameStemFlags, silence: T) -> (frame: StemFrame<
        T,
    >)
        requires
            old(self).wf(),
        ensures
            final(self).wf(),
            final(self).same_config(old(self)),
            final(self).frames(
                old(self).gains(),
                stem_flags,
                padded(old(self).dx.pending(), old(self).tail_length(), silence),
                padded(old(self).music.pending(), old(self).tail_length(), silence),
                padded(old(self).foley.pending(), old(self).tail_length(), silence),
                padded(old(self).sfx.pending(), old(self).tail_length(), silence),
                padded(old(self).ambience.pending(), old(self).tail_length(), silence),
                frame,
            ),
            frame.dx.samples@.len() == old(self).tail_length(),
            frame.music.samples@.len() == old(self).tail_length(),
            frame.foley.samples@.len() == old(self).tail_length(),
            frame.sfx.samples@.len() == old(self).tail_length(),
            frame.ambience.samples@.len() == old(self).tail_length(),
            has_given(old(self).dx, final(self).dx, old(self).dx.pending().len()),
            has_given(old(self).music, final(self).music, old(self).music.pending().len()),
            has_given(old(self).foley, final(self).foley, old(self).foley.pending().len()),
            has_given(old(self).sfx, final(self).sfx, old(self).sfx.pending().len()),
            has_given(
                old(self).ambience,
                final(self).ambience,
                old(self).ambience.pending().len(),
            ),
            final(self).alignment_mismatch_detected == old(self).alignment_mismatch_detected,
    {
        let mut dx = self.dx.drain_remaining();
        let mut music = self.music.drain_remaining();
        let mut foley = self.foley.drain_remaining();
        let mut sfx = self.sfx.drain_remaining();
        let mut ambience = self.ambience.drain_remaining();

        let max_len = longest(dx.len(), music.len(), foley.len(), sfx.len(), ambience.len());
        pad_to(&mut dx, max_len, silence);
        pad_to(&mut music, max_len, silence);
        pad_to(&mut foley, max_len, silence);
        pad_to(&mut sfx, max_len, silence);
        pad_to(&mut ambience, max_len, silence);

        proof {
            assert(self.dx.pending() =~= old(self).dx.pending().skip(
                old(self).dx.pending().len() as int,
            ));
            assert(self.music.pending() =~= old(self).music.pending().skip(
                old(self).music.pending().len() as int,
            ));
            assert(self.foley.pending() =~= old(self).foley.pending().skip(
                old(self).foley.pending().len() as int,
            ));
            assert(self.sfx.pending() =~= old(self).sfx.pending().skip(
                old(self).sfx.pending().len() as int,
            ));
            assert(self.ambience.pending() =~= old(self).ambience.pending().skip(
                old(self).ambience.pending().len() as int,
            ));
        }
        self.process_frame(dx, music, foley, sfx, ambience, stem_flags)
    }

    /// Prepares every stem for a jump in its source. The gains and the
    /// mismatch flag stay as they are.
    pub fn seek(&mut self)
        requires
            old(self).wf(),
        ensures
            final(self).wf(),
            final(self).same_config(old(self)),
            final(self).gains() == old(self).gains(),
            final(self).alignment_mismatch_detected == old(self).alignment_mismatch_detected,
            is_rewound(old(self).dx, final(self).dx),
            is_rewound(old(self).music, final(self).music),
            is_rewound(old(self).foley, final(self).foley),
            is_rewound(old(self).sfx, final(self).sfx),
            is_rewound(old(self).ambience, final(self).ambience),
            !final(self).all_finished(),
    {
        self.dx.seek();
        self.music.seek();
        self.foley.seek();
        self.sfx.seek();
        self.ambience.seek();
    }

    /// Ramps the gain of every stem over blocks of equal length.
    #[verifier::rlimit(50)]
    fn process_frame(
        &mut self,
        dx: Vec<T>,
        music: Vec<T>,
        foley: Vec<T>,
        sfx: Vec<T>,
        ambience: Vec<T>,
        stem_flags: AudioFrameStemFlags,
    ) -> (frame: StemFrame<T>)
        requires
            music@.len() == dx@.len(),
            foley@.len() == dx@.len(),
            sfx@.len() == dx@.len(),
            ambience@.len() == dx@.len(),
            old(self).gains().dx <= old(self).unity(),
            old(self).gains().music <= old(self).unity(),
            old(self).gains().foley <= old(self).unity(),
            old(self).gains().sfx <= old(self).unity(),
            old(self).gains().ambience <= old(self).unity(),
        ensures
            final(self).gains().dx <= final(self).unity(),
            final(self).gains().music <= final(self).unity(),
            final(self).gains().foley <= final(self).unity(),
            final(self).gains().sfx <= final(self).unity(),
            final(self).gains().ambience <= final(self).unity(),
            final(self).frames(
                old(self).gains(),
                stem_flags,
                dx@,
                music@,
                foley@,
                sfx@,
                ambience@,
                frame,
            ),
            frame.dx.samples == dx,
            frame.music.samples == music,
            frame.foley.samples == foley,
            frame.sfx.samples == sfx,
            frame.ambience.samples == ambience,
            final(self).same_config(old(self)),
            final(self).dx == old(self).dx,
            final(self).music == old(self).music,
            final(self).foley == old(self).foley,
            final(self).sfx == old(self).sfx,
            final(self).ambience == old(self).ambience,
            final(self).alignment_mismatch_detected == old(self).alignment_mismatch_detected,
    {
        let targets = StemTargetGains::from_flags(stem_flags);
        let unity: u32 = self.fade_samples;
        let len: usize = dx.len();
        let mut gains = self.stem_runtime_gains;
        let dx_levels = ramp_stem(len, &mut gains.dx, level_for(targets.dx, unity), unity);
        let music_levels = ramp_stem(
            len,
            &mut gains.music,
            level_for(targets.music, unity),
            unity,
        );
        let foley_levels = ramp_stem(
            len,
            &mut gains.foley,
            level_for(targets.foley, unity),
            unity,
        );
        let sfx_levels = ramp_stem(len, &mut gains.sfx, level_for(targets.sfx, unity), unity);
        let ambience_levels = ramp_stem(
            len,
            &mut gains.ambience,
            level_for(targets.ambience, unity),
            unity,
        );
        self.stem_runtime_gains = gains;

        StemFrame {
            sample_rate: self.target_sample_rate,
            unity,
            dx: StemBuffer { samples: dx, levels: dx_levels },
            music: StemBuffer { samples: music, levels: music_levels },
            foley: StemBuffer { samples: foley, levels: foley_levels },
            sfx: StemBuffer { samples: sfx, levels: sfx_levels },
            ambience: StemBuffer { samples: ambience, levels: ambience_levels },
            stem_flags,
        }
    }
}

/// The target level of a stem: its target gain in levels.
fn level_for(gain: u32, unity: u32) -> (level: u32)
    ensures
        level == target_level(gain, unity),
        level <= unity,
{
    if gain == 0 {
        0
    } else {
        unity
    }
}

/// A fade is over within five milliseconds: after as many samples as
/// `unity` has levels, a gain that started within `unity` is at its target.
pub proof fn lemma_fade_completes(start: u32, target: u32, unity: u32, n: nat)
    requires
        start <= unity,
        target <= unity,
        n >= unity,
    ensures
        level_after(start, target, n) == target,
{
}

/// With every switch off and the gains at unity, every level of a frame is
/// at unity: the frame holds each stem's own samples at full gain.
pub proof fn lemma_steady_levels(unity: u32, n: nat)
    ensures
        forall|i: int| 0 <= i < n ==> #[trigger] ramp_levels(unity, unity, n)[i] == unity,
        level_after(unity, unity, n) == unity,
{
}

/// A padded block starts with the samples it was made from, in order, and
/// goes on in `fill`.
pub proof fn lemma_padded_keeps_samples<T>(s: Seq<T>, n: nat, fill: T)
    requires
        s.len() <= n,
    ensures
        padded(s, n, fill).len() == n,
        forall|i: int| 0 <= i < s.len() ==> #[trigger] padded(s, n, fill)[i] == s[i],
        forall|i: int| s.len() <= i < n ==> #[trigger] padded(s, n, fill)[i] == fill,
{
}

/// A frame takes nothing away from a stem but what it hands out: the
/// samples at the front of its block, followed by what stays pending, are
/// the samples that were pending before.
pub proof fn lemma_frame_loses_nothing<T>(pending: Seq<T>, frame_size: nat, n: nat, fill: T)
    requires
        n >= frame_take(pending.len(), frame_size),
    ensures
        padded(
            pending.take(frame_take(pending.len(), frame_size) as int),
            n,
            fill,
        ).take(frame_take(pending.len(), frame_size) as int) + pending.skip(
            frame_take(pending.len(), frame_size) as int,
        ) =~= pending,
{
}

/// Length of the next frame of stems that have all ended, the longest of
/// which has `longest` samples pending.
pub open spec fn ending_frame_length(longest: nat, frame_size: nat) -> nat {
    if longest <= frame_size {
        longest
    } else {
        frame_size
    }
}

/// Everything that the frames to come hand out for one stem, frame after
/// frame, once every stem has ended: `pending` is what this stem still
/// has, `longest` what the longest stem has.
pub open spec fn blocks_to_end<T>(pending: Seq<T>, longest: nat, frame_size: nat, fill: T) -> Seq<T>
    decreases longest,
{
    if longest == 0 || frame_size == 0 {
        Seq::empty()
    } else {
        let n = ending_frame_length(longest, frame_size);
        let k = frame_take(pending.len(), frame_size);
        padded(pending.take(k as int), n, fill) + blocks_to_end(
            pending.skip(k as int),
            (longest - n) as nat,
            frame_size,
            fill,
        )
    }
}

/// Read to the end, a stem comes out whole: the frames hand out its samples
/// in order, none lost, doubled or moved, followed by nothing but silence
/// up to the length of the longest stem.
pub proof fn lemma_stream_comes_out_whole<T>(
    pending: Seq<T>,
    longest: nat,
    frame_size: nat,
    fill: T,
)
    requires
        frame_size > 0,
        pending.len() <= longest,
    ensures
        blocks_to_end(pending, longest, frame_size, fill) =~= padded(pending, longest, fill),
        blocks_to_end(pending, longest, frame_size, fill).len() == longest,
    decreases longest,
{
    if longest > 0 {
        let n = ending_frame_length(longest, frame_size);
        let k = frame_take(pending.len(), frame_size);
        let rest = pending.skip(k as int);
        lemma_stream_comes_out_whole(rest, (longest - n) as nat, frame_size, fill);
        let first = padded(pending.take(k as int), n, fill);
        let others = blocks_to_end(rest, (longest - n) as nat, frame_size, fill);
        assert(first.len() == n);
        assert(others =~= padded(rest, (longest - n) as nat, fill));
        assert(first + others =~= padded(pending, longest, fill));
    }
}

/// One frame of a run to the end: with every stem ended and something still
/// pending, the frame is as long as the longest stem has left, up to a
/// whole frame; each stem's block is the first of what the run hands out
/// for it; and the run goes on from what the stems keep.
pub proof fn lemma_frame_of_run<T: Copy>(
    before: MikupAudioDecoder<T>,
    after: MikupAudioDecoder<T>,
    fill: T,
)
    requires
        before.wf(),
        before.dx.at_eof(),
        before.music.at_eof(),
        before.foley.at_eof(),
        before.sfx.at_eof(),
        before.ambience.at_eof(),
        !before.all_finished(),
        after.same_config(&before),
        has_given(before.dx, after.dx, before.popped(before.dx)),
        has_given(before.music, after.music, before.popped(before.music)),
        has_given(before.foley, after.foley, before.popped(before.foley)),
        has_given(before.sfx, after.sfx, before.popped(before.sfx)),
        has_given(before.ambience, after.ambience, before.popped(before.ambience)),
    ensures
        before.tail_length() > 0,
        before.frame_length() == ending_frame_length(
            before.tail_length(),
            before.spec_frame_size() as nat,
        ),
        after.tail_length() == before.tail_length() - before.frame_length(),
        after.all_finished() <==> after.tail_length() == 0,
        runs_on(before.dx, after.dx, before, fill),
        runs_on(before.music, after.music, before, fill),
        runs_on(before.foley, after.foley, before, fill),
        runs_on(before.sfx, after.sfx, before, fill),
        runs_on(before.ambience, after.ambience, before, fill),
{
}

/// What the run to the end hands out for a stem is the stem's block of this
/// frame followed by what the run hands out from the next frame on.
pub open spec fn runs_on<T: Copy>(
    stem: StemStreamDecoder<T>,
    kept: StemStreamDecoder<T>,
    before: MikupAudioDecoder<T>,
    fill: T,
) -> bool {
    blocks_to_end(
        stem.pending(),
        before.tail_length(),
        before.spec_frame_size() as nat,
        fill,
    ) == padded(stem.pending().take(before.popped(stem) as int), before.frame_length(), fill)
        + blocks_to_end(
        kept.pending(),
        (before.tail_length() - before.frame_length()) as nat,
        before.spec_frame_size() as nat,
        fill,
    )
}

} // verus!
