//! The rate checks in front of the loudness meters and the spectrum
//! analyzer. The meters and the transform themselves work on floating-point
//! samples and are run by the caller.

use crate::frame::AudioFrame;
use crate::text::{decimal, decimal_digits};
use vstd::prelude::*;
use vstd::string::*;

verus! {

/// Why loudness could not be measured.
#[derive(Debug, Clone)]
pub enum LoudnessError {
    InvalidSampleRate(u32),
    Meter(String),
}

/// A [`LoudnessError`] with its text as a sequence of characters.
pub enum LoudnessFailure {
    InvalidSampleRate(u32),
    Meter(Seq<char>),
}

impl View for LoudnessError {
    type V = LoudnessFailure;

    open spec fn view(&self) -> LoudnessFailure {
        match self {
            LoudnessError::InvalidSampleRate(rate) => LoudnessFailure::InvalidSampleRate(*rate),
            LoudnessError::Meter(msg) => LoudnessFailure::Meter(msg@),
        }
    }
}

impl LoudnessFailure {
    /// What the failure says to a reader.
    pub open spec fn text(self) -> Seq<char> {
        match self {
            LoudnessFailure::InvalidSampleRate(rate) => "invalid sample rate for loudness analyzer: "@
                + decimal_digits(rate as nat),
            LoudnessFailure::Meter(msg) => "ebur128 loudness error: "@ + msg,
        }
    }
}

impl LoudnessError {
    /// The error as a line of text.
    pub fn describe(&self) -> (text: String)
        ensures
            text@ == self@.text(),
    {
        match self {
            LoudnessError::InvalidSampleRate(rate) => {
                let mut text = String::from_str("invalid sample rate for loudness analyzer: ");
                let digits = decimal(*rate as u64);
                text.append(digits.as_str());
                text
            },
            LoudnessError::Meter(msg) => {
                let mut text = String::from_str("ebur128 loudness error: ");
                text.append(msg.as_str());
                text
            },
        }
    }
}

/// The rate at which loudness is metered.
#[derive(Debug, Clone, Copy, PartialEq, Eq, Structural)]
pub struct LoudnessAnalyzer {
    pub sample_rate: u32,
}

/// The rate and the frame size of the spectrum analyzer.
#[derive(Debug, Clone, Copy, PartialEq, Eq, Structural)]
pub struct SpectralAnalyzer {
    pub sample_rate: u32,
    pub frame_size: usize,
}

impl LoudnessAnalyzer {
    /// An analyzer at `sample_rate`, which must be positive.
    pub fn new(sample_rate: u32) -> (made: Result<Self, LoudnessError>)
        ensures
            match made {
                Ok(analyzer) => sample_rate > 0 && analyzer.sample_rate == sample_rate,
                Err(error) => sample_rate == 0 && error@ == LoudnessFailure::InvalidSampleRate(0),
            },
    {
        if sample_rate == 0 {
            return Err(LoudnessError::InvalidSampleRate(sample_rate));
        }
        Ok(LoudnessAnalyzer { sample_rate })
    }

    pub fn sample_rate(&self) -> (rate: u32)
        ensures
            rate == self.sample_rate,
    {
        self.sample_rate
    }

    /// Checks that a frame is at the analyzer's rate before it is metered.
    pub fn check_frame<T>(&self, frame: &AudioFrame<T>) -> (checked: Result<(), LoudnessError>)
        ensures
            match checked {
                Ok(()) => frame.sample_rate == self.sample_rate,
                Err(error) => frame.sample_rate != self.sample_rate && error@
                    == LoudnessFailure::InvalidSampleRate(frame.sample_rate),
            },
    {
        if frame.sample_rate != self.sample_rate {
            return Err(LoudnessError::InvalidSampleRate(frame.sample_rate));
        }
        Ok(())
    }
}

impl SpectralAnalyzer {
    pub fn new(sample_rate: u32, frame_size: usize) -> (analyzer: Self)
        ensures
            analyzer == (SpectralAnalyzer { sample_rate, frame_size }),
    {
        SpectralAnalyzer { sample_rate, frame_size }
    }

    /// Tells whether a frame is measured: it is at the analyzer's rate, and
    /// the analyzer's frames are not empty. Any other frame gets the empty
    /// measurement.
    pub fn measures<T>(&self, frame: &AudioFrame<T>) -> (measured: bool)
        ensures
            measured == (frame.sample_rate == self.sample_rate && self.frame_size != 0),
    {
        frame.sample_rate == self.sample_rate && self.frame_size != 0
    }
}

} // verus!
