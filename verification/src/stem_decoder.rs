//! The streaming state of one stem: what has been decoded and waits to be
//! framed, the resampler in front of it, and whether the source has ended.
//!
//! Reading and decoding packets is the caller's work. After each attempt the
//! caller reports what happened as a [`PacketEvent`]; the decoder updates its
//! state and answers with what to do next.

use crate::resampler::{resampled_by, MonoResampler, Resampled, Tap};
use crate::text::{decimal_thousandths, thousandths};
use crate::source::{
    has_wav_extension,
    is_wav_extension,
    is_wav_header,
    looks_like_wav,
    SourceReport,
};
use std::collections::VecDeque;
use vstd::prelude::*;
use vstd::string::*;

verus! {

/// Why a stem could not be opened or decoded.
#[derive(Debug, Clone)]
pub enum AudioDecodeError {
    MissingStem { stem: &'static str, path: String },
    InvalidConfig(&'static str),
    Io(String),
    Probe(String),
    UnsupportedFormat { stem: &'static str, path: String, format: String },
    NoAudioTrack { stem: &'static str, path: String },
    MissingSampleRate { stem: &'static str, path: String },
    Decode { stem: &'static str, message: String },
    Seek { stem: &'static str, millis: u64, message: String },
}

/// An [`AudioDecodeError`] with its texts as sequences of characters.
pub enum DecodeFailure {
    MissingStem { stem: Seq<char>, path: Seq<char> },
    InvalidConfig(Seq<char>),
    Io(Seq<char>),
    Probe(Seq<char>),
    UnsupportedFormat { stem: Seq<char>, path: Seq<char>, format: Seq<char> },
    NoAudioTrack { stem: Seq<char>, path: Seq<char> },
    MissingSampleRate { stem: Seq<char>, path: Seq<char> },
    Decode { stem: Seq<char>, message: Seq<char> },
    Seek { stem: Seq<char>, millis: u64, message: Seq<char> },
}

impl View for AudioDecodeError {
    type V = DecodeFailure;

    open spec fn view(&self) -> DecodeFailure {
        match self {
            AudioDecodeError::MissingStem { stem, path } => DecodeFailure::MissingStem {
                stem: stem@,
                path: path@,
            },
            AudioDecodeError::InvalidConfig(msg) => DecodeFailure::InvalidConfig(msg@),
            AudioDecodeError::Io(msg) => DecodeFailure::Io(msg@),
            AudioDecodeError::Probe(msg) => DecodeFailure::Probe(msg@),
            AudioDecodeError::UnsupportedFormat { stem, path, format } => {
                DecodeFailure::UnsupportedFormat { stem: stem@, path: path@, format: format@ }
            },
            AudioDecodeError::NoAudioTrack { stem, path } => DecodeFailure::NoAudioTrack {
                stem: stem@,
                path: path@,
            },
            AudioDecodeError::MissingSampleRate { stem, path } => {
                DecodeFailure::MissingSampleRate { stem: stem@, path: path@ }
            },
            AudioDecodeError::Decode { stem, message } => DecodeFailure::Decode {
                stem: stem@,
                message: message@,
            },
            AudioDecodeError::Seek { stem, millis, message } => DecodeFailure::Seek {
                stem: stem@,
                millis: *millis,
                message: message@,
            },
        }
    }
}

impl DecodeFailure {
    /// What the failure says to a reader: the stem, the path and the cause.
    pub open spec fn text(self) -> Seq<char> {
        match self {
            DecodeFailure::MissingStem { stem, path } => "Missing "@ + stem + " stem at "@ + path,
            DecodeFailure::InvalidConfig(msg) => "Invalid decoder configuration: "@ + msg,
            DecodeFailure::Io(msg) => "I/O error while decoding stems: "@ + msg,
            DecodeFailure::Probe(msg) => "Unable to probe audio stream: "@ + msg,
            DecodeFailure::UnsupportedFormat { stem, path, format } => "Unsupported format for "@
                + stem + " stem at "@ + path + " (detected "@ + format + ", expected WAV)"@,
            DecodeFailure::NoAudioTrack { stem, path } => "No decodable audio track found in "@
                + stem + " stem at "@ + path,
            DecodeFailure::MissingSampleRate { stem, path } => "Missing sample-rate metadata in "@
                + stem + " stem at "@ + path,
            DecodeFailure::Decode { stem, message } => "Decode error in "@ + stem + " stem: "@
                + message,
            DecodeFailure::Seek { stem, millis, message } => "Seek error in "@ + stem
                + " stem at "@ + decimal_thousandths(millis as nat) + "s: "@ + message,
        }
    }
}

impl AudioDecodeError {
    /// The error as a line of text.
    pub fn describe(&self) -> (text: String)
        ensures
            text@ == self@.text(),
    {
        match self {
            AudioDecodeError::MissingStem { stem, path } => {
                let mut text = String::from_str("Missing ");
                text.append(stem);
                text.append(" stem at ");
                text.append(path.as_str());
                text
            },
            AudioDecodeError::InvalidConfig(msg) => {
                let mut text = String::from_str("Invalid decoder configuration: ");
                text.append(msg);
                text
            },
            AudioDecodeError::Io(msg) => {
                let mut text = String::from_str("I/O error while decoding stems: ");
                text.append(msg.as_str());
                text
            },
            AudioDecodeError::Probe(msg) => {
                let mut text = String::from_str("Unable to probe audio stream: ");
                text.append(msg.as_str());
                text
            },
            AudioDecodeError::UnsupportedFormat { stem, path, format } => {
                let mut text = String::from_str("Unsupported format for ");
                text.append(stem);
                text.append(" stem at ");
                text.append(path.as_str());
                text.append(" (detected ");
                text.append(format.as_str());
                text.append(", expected WAV)");
                text
            },
            AudioDecodeError::NoAudioTrack { stem, path } => {
                let mut text = String::from_str("No decodable audio track found in ");
                text.append(stem);
                text.append(" stem at ");
                text.append(path.as_str());
                text
            },
            AudioDecodeError::MissingSampleRate { stem, path } => {
                let mut text = String::from_str("Missing sample-rate metadata in ");
                text.append(stem);
                text.append(" stem at ");
                text.append(path.as_str());
                text
            },
            AudioDecodeError::Decode { stem, message } => {
                let mut text = String::from_str("Decode error in ");
                text.append(stem);
                text.append(" stem: ");
                text.append(message.as_str());
                text
            },
            AudioDecodeError::Seek { stem, millis, message } => {
                let mut text = String::from_str("Seek error in ");
                text.append(stem);
                text.append(" stem at ");
                let at = thousandths(*millis);
                text.append(at.as_str());
                text.append("s: ");
                text.append(message.as_str());
                text
            },
        }
    }
}

/// What one attempt to read and decode a packet has brought.
#[derive(Debug, Clone)]
pub enum PacketEvent<T> {
    /// The source ended.
    EndOfStream,
    /// The container asks for the codec to be reset.
    ResetRequired,
    /// The packet belongs to another track.
    OtherTrack,
    /// The packet is corrupt; the stream goes on.
    Corrupt,
    /// Reading or decoding failed for good, with this message.
    Failed(String),
    /// The packet decoded to these mono samples.
    Decoded(Vec<T>),
}

/// What the caller does after reporting a [`PacketEvent`].
#[derive(Debug, Clone)]
pub enum Feed<T> {
    /// Nothing: go on with the next packet if one is needed.
    Continue,
    /// Reset the codec, then go on.
    ResetCodec,
    /// Blend each tap into one sample and hand the samples to `enqueue`.
    Blend(Vec<Tap<T>>),
}

/// Streaming state of one stem.
#[derive(Debug, Clone)]
pub struct StemStreamDecoder<T> {
    stem_name: &'static str,
    pending_samples: VecDeque<T>,
    resampler: MonoResampler<T>,
    eof: bool,
}

/// The reason a source cannot be streamed at `target_sample_rate`, or `None`
/// where it can. The checks come in the order in which a file is opened: the
/// configuration, the file's presence, its leading bytes, the container, the
/// extension, the track and its sample rate, and the codec.
pub open spec fn open_failure(
    stem: Seq<char>,
    path: Seq<char>,
    report: SourceReport,
    target_sample_rate: u32,
) -> Option<DecodeFailure> {
    if target_sample_rate == 0 {
        Some(DecodeFailure::InvalidConfig("target_sample_rate must be > 0"@))
    } else if !report.exists {
        Some(DecodeFailure::MissingStem { stem, path })
    } else if report.header_error is Some {
        Some(DecodeFailure::Io(report.header_error->0@))
    } else if !is_wav_header(report.header@) {
        Some(DecodeFailure::UnsupportedFormat { stem, path, format: "non-wav"@ })
    } else if report.open_error is Some {
        Some(DecodeFailure::Io(report.open_error->0@))
    } else if report.probe_error is Some {
        Some(DecodeFailure::Probe(report.probe_error->0@))
    } else if !is_wav_extension(report.extension@) {
        Some(DecodeFailure::UnsupportedFormat { stem, path, format: report.extension@ })
    } else if !report.has_track {
        Some(DecodeFailure::NoAudioTrack { stem, path })
    } else if report.sample_rate is None || report.sample_rate == Some(0u32) {
        Some(DecodeFailure::MissingSampleRate { stem, path })
    } else if report.codec_error is Some {
        Some(DecodeFailure::Decode { stem, message: report.codec_error->0@ })
    } else {
        None
    }
}

/// Number of samples a frame of `frame_size` takes from `pending`.
pub open spec fn frame_take(pending: nat, frame_size: nat) -> nat {
    if pending <= frame_size {
        pending
    } else {
        frame_size
    }
}

impl<T: Copy> StemStreamDecoder<T> {
    pub closed spec fn wf(&self) -> bool {
        self.resampler.wf()
    }

    /// Name of the stem.
    pub closed spec fn stem(&self) -> Seq<char> {
        self.stem_name@
    }

    /// Samples decoded and not yet framed, oldest first.
    pub closed spec fn pending(&self) -> Seq<T> {
        self.pending_samples@
    }

    /// The source has ended.
    pub closed spec fn at_eof(&self) -> bool {
        self.eof
    }

    /// The resampler between the source and the pending samples.
    pub closed spec fn resampler(&self) -> MonoResampler<T> {
        self.resampler
    }

    /// The source has ended and nothing is pending.
    pub open spec fn finished(&self) -> bool {
        self.at_eof() && self.pending().len() == 0
    }

    /// Another packet is wanted before `minimum_samples` can be framed.
    pub open spec fn wants_packet(&self, minimum_samples: nat) -> bool {
        self.pending().len() < minimum_samples && !self.at_eof()
    }

    /// Starts a stem from what is known of its source.
    pub fn open(
        stem_name: &'static str,
        path: &str,
        report: &SourceReport,
        target_sample_rate: u32,
    ) -> (opened: Result<Self, AudioDecodeError>)
        ensures
            match opened {
                Ok(decoder) => {
                    &&& open_failure(stem_name@, path@, *report, target_sample_rate) is None
                    &&& decoder.wf()
                    &&& decoder.stem() == stem_name@
                    &&& decoder.pending() =~= Seq::<T>::empty()
                    &&& !decoder.at_eof()
                    &&& decoder.resampler().spec_input_rate() == report.sample_rate->0
                    &&& decoder.resampler().spec_output_rate() == target_sample_rate
                    &&& decoder.resampler().position() == 0
                    &&& decoder.resampler().residual() =~= Seq::<T>::empty()
                },
                Err(error) => open_failure(stem_name@, path@, *report, target_sample_rate)
                    == Some(error@),
            },
    {
        if target_sample_rate == 0 {
            return Err(AudioDecodeError::InvalidConfig("target_sample_rate must be > 0"));
        }
        if !report.exists {
            return Err(
                AudioDecodeError::MissingStem { stem: stem_name, path: String::from_str(path) },
            );
        }
        if let Some(message) = &report.header_error {
            return Err(AudioDecodeError::Io(message.clone()));
        }
        if !looks_like_wav(report.header.as_slice()) {
            return Err(
                AudioDecodeError::UnsupportedFormat {
                    stem: stem_name,
                    path: String::from_str(path),
                    format: String::from_str("non-wav"),
                },
            );
        }
        if let Some(message) = &report.open_error {
            return Err(AudioDecodeError::Io(message.clone()));
        }
        if let Some(message) = &report.probe_error {
            return Err(AudioDecodeError::Probe(message.clone()));
        }
        if !has_wav_extension(report.extension.as_str()) {
            return Err(
                AudioDecodeError::UnsupportedFormat {
                    stem: stem_name,
                    path: String::from_str(path),
                    format: report.extension.clone(),
                },
            );
        }
        if !report.has_track {
            return Err(
                AudioDecodeError::NoAudioTrack { stem: stem_name, path: String::from_str(path) },
            );
        }
        let source_rate: u32 = match report.sample_rate {
            Some(rate) => rate,
            None => 0,
        };
        if source_rate == 0 {
            return Err(
                AudioDecodeError::MissingSampleRate {
                    stem: stem_name,
                    path: String::from_str(path),
                },
            );
        }
        if let Some(message) = &report.codec_error {
            return Err(AudioDecodeError::Decode { stem: stem_name, message: message.clone() });
        }
        match MonoResampler::new(source_rate, target_sample_rate) {
            Ok(resampler) => Ok(
                StemStreamDecoder {
                    stem_name,
                    pending_samples: VecDeque::new(),
                    resampler,
                    eof: false,
                },
            ),
            Err(_) => Err(AudioDecodeError::InvalidConfig("target_sample_rate must be > 0")),
        }
    }

    /// The rate the stem is resampled to.
    pub fn target_sample_rate(&self) -> (rate: u32)
        ensures
            rate == self.resampler().spec_output_rate(),
    {
        self.resampler.output_rate()
    }

    /// Number of samples decoded and not yet framed.
    pub fn pending_len(&self) -> (n: usize)
        ensures
            n == self.pending().len(),
    {
        self.pending_samples.len()
    }

    /// Tells whether another packet is wanted before `minimum_samples` can be
    /// framed: fewer are pending and the source has not ended.
    pub fn needs_packet(&self, minimum_samples: usize) -> (wanted: bool)
        ensures
            wanted == self.wants_packet(minimum_samples as nat),
    {
        self.pending_samples.len() < minimum_samples && !self.eof
    }

    /// The source has ended and nothing is pending.
    pub fn is_finished(&self) -> (done: bool)
        ensures
            done == self.finished(),
    {
        self.eof && self.pending_samples.len() == 0
    }

    /// Appends resampled samples to the pending ones.
    pub fn enqueue(&mut self, samples: &[T])
        requires
            old(self).wf(),
        ensures
            final(self).wf(),
            final(self).pending() == old(self).pending() + samples@,
            final(self).stem() == old(self).stem(),
            final(self).at_eof() == old(self).at_eof(),
            final(self).resampler() == old(self).resampler(),
    {
        let mut i: usize = 0;
        while i < samples.len()
            invariant
                i <= samples@.len(),
                self.pending_samples@ == old(self).pending_samples@ + samples@.subrange(
                    0,
                    i as int,
                ),
                self.stem_name == old(self).stem_name,
                self.eof == old(self).eof,
                self.resampler == old(self).resampler,
            decreases samples@.len() - i,
        {
            self.pending_samples.push_back(samples[i]);
            i = i + 1;
        }
        assert(samples@.subrange(0, samples@.len() as int) =~= samples@);
    }

    /// Takes in what one attempt to read and decode a packet has brought.
    ///
    /// The end of the source is remembered; a packet of another track, a
    /// corrupt packet and an empty one are passed over; a failure is handed
    /// back as a decode error. Decoded samples are appended to the pending
    /// ones where the rates agree, and go through the resampler otherwise.
    pub fn accept(&mut self, event: PacketEvent<T>) -> (next: Result<Feed<T>, AudioDecodeError>)
        requires
            old(self).wf(),
        ensures
            final(self).wf(),
            final(self).stem() == old(self).stem(),
            match event {
                PacketEvent::EndOfStream => {
                    &&& next matches Ok(Feed::Continue)
                    &&& final(self).at_eof()
                    &&& final(self).pending() == old(self).pending()
                    &&& final(self).resampler() == old(self).resampler()
                },
                PacketEvent::ResetRequired => {
                    &&& next matches Ok(Feed::ResetCodec)
                    &&& *final(self) == *old(self)
                },
                PacketEvent::OtherTrack | PacketEvent::Corrupt => {
                    &&& next matches Ok(Feed::Continue)
                    &&& *final(self) == *old(self)
                },
                PacketEvent::Failed(message) => {
                    &&& next matches Err(error)
                    &&& error@ == (DecodeFailure::Decode {
                        stem: old(self).stem(),
                        message: message@,
                    })
                    &&& *final(self) == *old(self)
                },
                PacketEvent::Decoded(mono) => {
                    &&& final(self).at_eof() == old(self).at_eof()
                    &&& if mono@.len() == 0 {
                        &&& next matches Ok(Feed::Continue)
                        &&& *final(self) == *old(self)
                    } else if old(self).resampler().spec_is_passthrough() {
                        &&& next matches Ok(Feed::Continue)
                        &&& final(self).pending() == old(self).pending() + mono@
                        &&& final(self).resampler() == old(self).resampler()
                    } else {
                        &&& next matches Ok(Feed::Blend(taps))
                        &&& final(self).pending() == old(self).pending()
                        &&& resampled_by(
                            old(self).resampler(),
                            mono@,
                            final(self).resampler(),
                            Resampled::Blended(taps),
                        )
                    }
                },
            },
    {
        match event {
            PacketEvent::EndOfStream => {
                self.eof = true;
                Ok(Feed::Continue)
            },
            PacketEvent::ResetRequired => Ok(Feed::ResetCodec),
            PacketEvent::OtherTrack => Ok(Feed::Continue),
            PacketEvent::Corrupt => Ok(Feed::Continue),
            PacketEvent::Failed(message) => Err(
                AudioDecodeError::Decode { stem: self.stem_name, message },
            ),
            PacketEvent::Decoded(mono) => {
                if mono.len() == 0 {
                    Ok(Feed::Continue)
                } else if self.resampler.is_passthrough() {
                    self.enqueue(mono.as_slice());
                    Ok(Feed::Continue)
                } else {
                    match self.resampler.process(mono.as_slice()) {
                        Resampled::Blended(taps) => Ok(Feed::Blend(taps)),
                        Resampled::Copied(_) => Ok(Feed::Continue),
                    }
                }
            },
        }
    }

    /// Takes up to `frame_size` samples off the front of the pending ones.
    pub fn pop_frame(&mut self, frame_size: usize) -> (samples: Vec<T>)
        requires
            old(self).wf(),
        ensures
            final(self).wf(),
            samples@ == old(self).pending().take(
                frame_take(old(self).pending().len(), frame_size as nat) as int,
            ),
            final(self).pending() == old(self).pending().skip(
                frame_take(old(self).pending().len(), frame_size as nat) as int,
            ),
            final(self).stem() == old(self).stem(),
            final(self).at_eof() == old(self).at_eof(),
            final(self).resampler() == old(self).resampler(),
    {
        let available: usize = self.pending_samples.len();
        let take: usize = if available <= frame_size {
            available
        } else {
            frame_size
        };
        let mut samples: Vec<T> = Vec::new();
        let mut i: usize = 0;
        while i < take
            invariant
                i <= take,
                take <= old(self).pending_samples@.len(),
                samples@ == old(self).pending_samples@.take(i as int),
                self.pending_samples@ == old(self).pending_samples@.skip(i as int),
                self.stem_name == old(self).stem_name,
                self.eof == old(self).eof,
                self.resampler == old(self).resampler,
            decreases take - i,
        {
            let front = self.pending_samples.pop_front();
            match front {
                Some(sample) => {
                    samples.push(sample);
                },
                None => {},
            }
            i = i + 1;
            assert(samples@ =~= old(self).pending_samples@.take(i as int));
            assert(self.pending_samples@ =~= old(self).pending_samples@.skip(i as int));
        }
        samples
    }

    /// Takes every pending sample.
    pub fn drain_remaining(&mut self) -> (samples: Vec<T>)
        requires
            old(self).wf(),
        ensures
            final(self).wf(),
            samples@ == old(self).pending(),
            final(self).pending() =~= Seq::<T>::empty(),
            final(self).stem() == old(self).stem(),
            final(self).at_eof() == old(self).at_eof(),
            final(self).resampler() == old(self).resampler(),
    {
        let n: usize = self.pending_samples.len();
        let samples = self.pop_frame(n);
        assert(old(self).pending().take(n as int) =~= old(self).pending());
        samples
    }

    /// The error of a jump to `millis` milliseconds that the container has
    /// refused with `message`.
    pub fn seek_failure(&self, millis: u64, message: String) -> (error: AudioDecodeError)
        ensures
            error@ == (DecodeFailure::Seek { stem: self.stem(), millis, message: message@ }),
    {
        AudioDecodeError::Seek { stem: self.stem_name, millis, message }
    }

    /// Prepares for a jump in the source: nothing is pending, the resampler
    /// starts afresh, and the source counts as not ended.
    pub fn seek(&mut self)
        requires
            old(self).wf(),
        ensures
            final(self).wf(),
            final(self).pending() =~= Seq::<T>::empty(),
            !final(self).at_eof(),
            final(self).stem() == old(self).stem(),
            final(self).resampler().position() == 0,
            final(self).resampler().residual() =~= Seq::<T>::empty(),
            final(self).resampler().spec_input_rate() == old(self).resampler().spec_input_rate(),
            final(self).resampler().spec_output_rate() == old(
                self,
            ).resampler().spec_output_rate(),
    {
        self.pending_samples.clear();
        self.resampler.reset();
        self.eof = false;
    }
}

} // verus!
