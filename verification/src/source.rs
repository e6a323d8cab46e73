//! What is known of a stem's source file before any audio is decoded, and
//! the rules that decide whether it can be streamed.

use crate::text::{eq_ignore_ascii_case, eq_ignoring_ascii_case};
use vstd::prelude::*;
use vstd::string::*;

verus! {

/// Number of leading bytes of a file that tell a RIFF/WAVE container.
pub const WAV_HEADER_LEN: usize = 12;

/// What looking at a source file has brought, one field for each step of
/// opening it. A step that was not reached keeps its empty value.
#[derive(Debug, Clone)]
pub struct SourceReport {
    /// The file exists.
    pub exists: bool,
    /// Reading the first bytes failed, with this message.
    pub header_error: Option<String>,
    /// The first bytes of the file, as many as could be read up to twelve.
    pub header: Vec<u8>,
    /// Opening the file for decoding failed, with this message.
    pub open_error: Option<String>,
    /// Probing the container failed, with this message.
    pub probe_error: Option<String>,
    /// The file name's extension, empty where it has none.
    pub extension: String,
    /// The container has a default track.
    pub has_track: bool,
    /// The sample rate the track declares.
    pub sample_rate: Option<u32>,
    /// No codec could be made for the track, with this message.
    pub codec_error: Option<String>,
}

/// The bytes start with `RIFF`, four bytes of size, and `WAVE`.
pub open spec fn is_wav_header(bytes: Seq<u8>) -> bool {
    &&& bytes.len() >= 12
    &&& bytes[0] == 0x52
    &&& bytes[1] == 0x49
    &&& bytes[2] == 0x46
    &&& bytes[3] == 0x46
    &&& bytes[8] == 0x57
    &&& bytes[9] == 0x41
    &&& bytes[10] == 0x56
    &&& bytes[11] == 0x45
}

/// The extension is `wav` or `wave`, in any case.
pub open spec fn is_wav_extension(extension: Seq<char>) -> bool {
    eq_ignoring_ascii_case(extension, "wav"@) || eq_ignoring_ascii_case(extension, "wave"@)
}

/// Tells whether the leading bytes of a file are those of a RIFF/WAVE
/// container.
pub fn looks_like_wav(header: &[u8]) -> (wav: bool)
    ensures
        wav == is_wav_header(header@),
{
    if header.len() < WAV_HEADER_LEN {
        return false;
    }
    header[0] == 0x52 && header[1] == 0x49 && header[2] == 0x46 && header[3] == 0x46 && header[8]
        == 0x57 && header[9] == 0x41 && header[10] == 0x56 && header[11] == 0x45
}

/// Tells whether a file extension names a WAVE file.
pub fn has_wav_extension(extension: &str) -> (wav: bool)
    ensures
        wav == is_wav_extension(extension@),
{
    eq_ignore_ascii_case(extension, "wav") || eq_ignore_ascii_case(extension, "wave")
}

} // verus!
