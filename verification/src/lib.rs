//! The core of a multi-stem audio analysis engine.
//!
//! The crate holds what the engine decides and counts: which samples go
//! into a frame, which gain applies to each, where a resampler reads, when
//! a frame is reported, when a loudness reading is taken. Samples pass
//! through as values of a type `T` chosen by the caller, who also does the
//! arithmetic on them, reads the files and drives the audio device.

pub mod analysis;
pub mod decoder;
pub mod frame;
pub mod gain;
pub mod loudness;
pub mod player;
pub mod resampler;
pub mod ring;
pub mod scanner;
pub mod source;
pub mod stem_decoder;
pub mod stems;
pub mod stream;
pub mod text;
