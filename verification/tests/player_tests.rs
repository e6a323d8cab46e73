use mikup_dsp::analysis::{
    fit_to_frame, hermite_windows, nyquist_bins, speech_band_bins, SpatialAnalyzer,
    SPEECH_HIGH_HZ, SPEECH_LOW_HZ,
};
use mikup_dsp::frame::{AudioFrame, AudioFrameStaticLoudness};
use mikup_dsp::player::{
    blocking_push_step, interleave_mono, keeps_waiting, ring_capacity, BlockingStep, RingError,
    MAX_RING_CAPACITY,
};
use mikup_dsp::ring::{drained_now, free_slots_of, slot_sample, OutputRing};
use mikup_dsp::stems::AudioFrameStemFlags;
use mikup_dsp::text::{char_is_whitespace, eq_ignore_ascii_case, str_is_blank, trim};

#[test]
fn ring_capacity_covers_the_buffer_time() {
    // 200 ms of stereo at 48 kHz.
    assert_eq!(ring_capacity(48_000, 2, 200), Ok(19_200));
    assert_eq!(ring_capacity(44_100, 2, 200), Ok(17_640));
    // Rounded up.
    assert_eq!(ring_capacity(44_100, 1, 33), Ok(1_456));
    assert_eq!(ring_capacity(48_000, 6, 1_001), Ok(288_288));
}

#[test]
fn ring_capacity_has_a_floor_of_512_slots_per_channel() {
    assert_eq!(ring_capacity(48_000, 2, 1), Ok(1_024));
    assert_eq!(ring_capacity(8_000, 1, 10), Ok(512));
    assert_eq!(ring_capacity(0, 8, 1_000), Ok(4_096));
    assert_eq!(ring_capacity(48_000, 2, 21), Ok(2_016));
}

#[test]
fn ring_capacity_rejects_what_cannot_be() {
    assert_eq!(ring_capacity(48_000, 2, 0), Err(RingError::BufferNotPositive));
    assert_eq!(ring_capacity(48_000, 0, 0), Err(RingError::BufferNotPositive));
    assert_eq!(ring_capacity(48_000, 0, 200), Err(RingError::ZeroChannels));
    // A queue takes up to half the machine's word in slots.
    assert_eq!(MAX_RING_CAPACITY, usize::MAX / 2);
    assert_eq!(ring_capacity(u32::MAX, u16::MAX, u32::MAX), Err(RingError::TooLarge));
    assert_eq!(ring_capacity(u32::MAX, u16::MAX, 40_000_000), Err(RingError::TooLarge));
    assert_eq!(
        ring_capacity(u32::MAX, u16::MAX, 30_000_000),
        Ok(8_444_120_450_334_750_000)
    );
    assert_eq!(ring_capacity(0, u16::MAX, 1), Ok(33_553_920));
    // Ten minutes of eight channels at 192 kHz.
    assert_eq!(ring_capacity(192_000, 8, 600_000), Ok(921_600_000));
}

#[test]
fn interleave_repeats_each_sample_for_every_channel() {
    assert_eq!(interleave_mono(&[1, 2, 3], 2), vec![1, 1, 2, 2, 3, 3]);
    assert_eq!(interleave_mono(&[1, 2, 3], 1), vec![1, 2, 3]);
    assert_eq!(interleave_mono(&[7], 4), vec![7, 7, 7, 7]);
    assert_eq!(interleave_mono(&[1, 2, 3], 0), Vec::<i32>::new());
    assert_eq!(interleave_mono(&Vec::<i32>::new(), 2), Vec::<i32>::new());
    assert_eq!(interleave_mono(&[0.5_f32, -0.25], 2), vec![0.5, 0.5, -0.25, -0.25]);
}

#[test]
fn a_waiting_producer_stops_retries_or_goes_on() {
    assert_eq!(blocking_push_step(true, true), BlockingStep::Stop);
    assert_eq!(blocking_push_step(true, false), BlockingStep::Stop);
    assert_eq!(blocking_push_step(false, true), BlockingStep::Next);
    assert_eq!(blocking_push_step(false, false), BlockingStep::Retry);
    assert!(keeps_waiting(false, false));
    assert!(!keeps_waiting(true, false));
    assert!(!keeps_waiting(false, true));
    assert!(!keeps_waiting(true, true));
}

#[test]
fn ring_takes_samples_until_it_is_full() {
    let ring = OutputRing::<f32>::new(8_000, 1, 10).unwrap();
    assert_eq!(ring.capacity(), 512);
    assert_eq!(ring.free_slots(), 512);
    let block: Vec<f32> = (0..500).map(|i| i as f32).collect();
    assert_eq!(ring.push_interleaved_nonblocking(&block), 500);
    assert_eq!(ring.free_slots(), 12);
    // The ring takes what fits and drops the rest.
    assert_eq!(ring.push_interleaved_nonblocking(&block), 12);
    assert_eq!(ring.free_slots(), 0);
    assert_eq!(ring.try_push(9.0), Err(9.0));
    assert_eq!(ring.push_interleaved_nonblocking(&[]), 0);
}

#[test]
fn ring_hands_samples_out_in_order_and_counts_underruns() {
    let ring = OutputRing::<f32>::new(8_000, 1, 10).unwrap();
    assert_eq!(ring.push_interleaved_nonblocking(&[1.0, 2.0, 3.0]), 3);
    let mut slots = vec![9.0_f32; 2];
    assert_eq!(ring.fill_output(&mut slots, 0.0), 0);
    assert_eq!(slots, vec![1.0, 2.0]);
    assert_eq!(ring.underrun_samples(), 0);
    let mut slots = vec![9.0_f32; 4];
    assert_eq!(ring.fill_output(&mut slots, 0.0), 3);
    assert_eq!(slots, vec![3.0, 0.0, 0.0, 0.0]);
    assert_eq!(ring.underrun_samples(), 3);
    assert!(!ring.is_drained());
    assert_eq!(ring.try_push(4.0), Ok(()));
    let mut none: Vec<f32> = Vec::new();
    assert_eq!(ring.fill_output(&mut none, 0.0), 0);
}

#[test]
fn ring_drains_once_the_producer_is_done_and_it_is_empty() {
    let ring = OutputRing::<f32>::new(8_000, 1, 10).unwrap();
    assert_eq!(ring.push_interleaved_nonblocking(&[1.0, 2.0]), 2);
    ring.mark_producer_finished();
    assert!(!ring.is_drained());
    let mut slots = vec![0.0_f32; 1];
    assert_eq!(ring.fill_output(&mut slots, 0.0), 0);
    assert!(!ring.is_drained());
    assert_eq!(ring.fill_output(&mut slots, 0.0), 0);
    assert_eq!(slots, vec![2.0]);
    assert!(ring.is_drained());

    let empty = OutputRing::<f32>::new(8_000, 1, 10).unwrap();
    empty.mark_producer_finished();
    assert!(empty.is_drained());
}

#[test]
fn ring_cannot_be_made_without_room_or_channels() {
    assert!(matches!(OutputRing::<f32>::new(48_000, 2, 0), Err(RingError::BufferNotPositive)));
    assert!(matches!(OutputRing::<f32>::new(48_000, 0, 200), Err(RingError::ZeroChannels)));
    assert!(matches!(
        OutputRing::<f32>::new(u32::MAX, u16::MAX, u32::MAX),
        Err(RingError::TooLarge)
    ));
}

#[test]
fn ring_helpers_decide_slot_by_slot() {
    assert_eq!(free_slots_of(10, 3), 7);
    assert_eq!(free_slots_of(10, 10), 0);
    assert_eq!(free_slots_of(10, 11), 0);
    assert_eq!(slot_sample(Some(0.5_f32), 0.0), (0.5, false));
    assert_eq!(slot_sample(None, 0.0_f32), (0.0, true));
    assert!(drained_now(true, true));
    assert!(!drained_now(true, false));
    assert!(!drained_now(false, true));
}

#[test]
fn hermite_windows_clamp_at_both_ends() {
    assert!(hermite_windows(&Vec::<i32>::new()).is_empty());
    assert!(hermite_windows(&[5]).is_empty());
    assert_eq!(hermite_windows(&[1, 2]), vec![[1, 1, 2, 2]]);
    assert_eq!(
        hermite_windows(&[1, 2, 3, 4]),
        vec![[1, 1, 2, 3], [1, 2, 3, 4], [2, 3, 4, 4]]
    );
}

#[test]
fn spectrum_has_bins_up_to_nyquist() {
    assert_eq!(nyquist_bins(0), 0);
    assert_eq!(nyquist_bins(1), 1);
    assert_eq!(nyquist_bins(2), 2);
    assert_eq!(nyquist_bins(2048), 1025);
    assert_eq!(nyquist_bins(2049), 1025);
}

#[test]
fn frame_is_cut_or_filled_to_size() {
    assert_eq!(fit_to_frame(&[1, 2, 3], 5, 0), vec![1, 2, 3, 0, 0]);
    assert_eq!(fit_to_frame(&[1, 2, 3], 2, 0), vec![1, 2]);
    assert_eq!(fit_to_frame(&[1, 2, 3], 0, 0), Vec::<i32>::new());
    assert_eq!(fit_to_frame(&Vec::<i32>::new(), 2, 7), vec![7, 7]);
}

#[test]
fn speech_band_spans_one_to_four_kilohertz() {
    assert_eq!((SPEECH_LOW_HZ, SPEECH_HIGH_HZ), (1_000, 4_000));
    // 2048-point transform at 48 kHz: 23.4375 Hz per bin.
    assert_eq!(speech_band_bins(1025, 2048, 48_000, 1_000, 4_000), Some((42, 171)));
    // 15.625 Hz per bin: both edges fall on a bin.
    assert_eq!(speech_band_bins(1025, 2048, 32_000, 1_000, 4_000), Some((64, 256)));
    // The band reaches beyond the spectrum.
    assert_eq!(speech_band_bins(1025, 2048, 6_000, 1_000, 4_000), Some((341, 1024)));
    assert_eq!(speech_band_bins(1025, 2048, 1_000, 1_000, 4_000), Some((1024, 1024)));
    assert_eq!(speech_band_bins(1, 1, 48_000, 1_000, 4_000), Some((0, 0)));
    assert_eq!(speech_band_bins(2, 2, 48_000, 1_000, 4_000), Some((0, 1)));
    // An odd frame: 2049 samples give 1025 bins of 32000 / 2049 Hz each,
    // so 4000 Hz lies just above bin 256.
    assert_eq!(speech_band_bins(1025, 2049, 32_000, 1_000, 4_000), Some((64, 257)));
    assert_eq!(speech_band_bins(257, 513, 22_050, 1_000, 4_000), Some((23, 94)));
    assert_eq!(speech_band_bins(1025, 2049, 48_000, 1_000, 4_000), Some((42, 171)));
    assert_eq!(speech_band_bins(3, 5, 10, 3, 5), Some((1, 2)));
    assert_eq!(speech_band_bins(3, 4, 10, 3, 5), Some((1, 2)));
    assert_eq!(speech_band_bins(51, 101, 48_000, 1_000, 4_000), Some((2, 9)));
    assert_eq!(speech_band_bins(51, 100, 48_000, 1_000, 4_000), Some((2, 9)));
    assert_eq!(speech_band_bins(501, 1001, 44_100, 1_000, 4_000), Some((22, 91)));
    assert_eq!(speech_band_bins(501, 1000, 44_100, 1_000, 4_000), Some((22, 91)));
}

#[test]
fn speech_band_is_empty_without_spectrum_rate_or_band() {
    assert_eq!(speech_band_bins(0, 2048, 48_000, 1_000, 4_000), None);
    assert_eq!(speech_band_bins(1025, 0, 48_000, 1_000, 4_000), None);
    assert_eq!(speech_band_bins(1025, 2048, 0, 1_000, 4_000), None);
    assert_eq!(speech_band_bins(1025, 2048, 48_000, 4_000, 4_000), None);
    assert_eq!(speech_band_bins(1025, 2048, 48_000, 4_000, 1_000), None);
}

#[test]
fn spatial_pairs_reach_as_far_as_both_buffers() {
    let analyzer = SpatialAnalyzer::new();
    let mut frame = AudioFrame::<i32>::default();
    assert!(analyzer.paired_samples(&frame).is_empty());
    frame.dialogue_raw = vec![1, 2, 3];
    frame.background_raw = vec![-1, -2];
    assert_eq!(analyzer.paired_samples(&frame), vec![(1, -1), (2, -2)]);
    assert_eq!(frame.len(), 2);
    assert!(!frame.is_empty());
}

#[test]
fn empty_frame_has_nothing_in_it() {
    let frame = AudioFrame::<f32>::default();
    assert_eq!(frame.sample_rate, 0);
    assert_eq!(frame.len(), 0);
    assert!(frame.is_empty());
    assert!(frame.dx_raw.is_empty() && frame.ambience_raw.is_empty());
    assert_eq!(frame.stem_flags, AudioFrameStemFlags::default());
    assert!(frame.static_loudness.is_none());
}

#[test]
fn static_loudness_rides_along() {
    let loudness = AudioFrameStaticLoudness {
        dialogue_momentary_lufs: -23.0_f32,
        dialogue_short_term_lufs: -24.0,
        background_momentary_lufs: -30.0,
        background_short_term_lufs: -31.0,
    };
    let frame = AudioFrame::from_static_loudness(48_000, loudness);
    assert_eq!(frame.sample_rate, 48_000);
    assert!(frame.is_empty());
    assert_eq!(frame.static_loudness.unwrap().dialogue_momentary_lufs, -23.0);
    let mut other = AudioFrame::<f32>::default();
    other.dialogue_raw = vec![0.5];
    let other = other.with_static_loudness(loudness);
    assert_eq!(other.dialogue_raw, vec![0.5]);
    assert_eq!(other.static_loudness.unwrap().background_short_term_lufs, -31.0);
}

#[test]
fn text_is_trimmed_of_unicode_white_space() {
    assert_eq!(trim("  a b \t\n"), "a b");
    assert_eq!(trim("\u{a0}\u{3000}x\u{2003}\u{85}"), "x");
    assert_eq!(trim(""), "");
    assert_eq!(trim(" \r\n "), "");
    assert_eq!(trim("x"), "x");
    // A zero-width space is no white space.
    assert_eq!(trim("\u{200b}x"), "\u{200b}x");
    assert!(str_is_blank(""));
    assert!(str_is_blank(" \t\u{2028}"));
    assert!(!str_is_blank(" . "));
    for c in ['\t', '\n', '\u{b}', '\u{c}', '\r', ' ', '\u{1680}', '\u{202f}', '\u{205f}'] {
        assert!(char_is_whitespace(c));
        assert!(c.is_whitespace());
    }
    for c in ['a', '\0', '\u{8}', '\u{e}', '\u{200b}', '\u{feff}', '\u{180e}'] {
        assert!(!char_is_whitespace(c));
        assert!(!c.is_whitespace());
    }
}

#[test]
fn whitespace_agrees_with_the_standard_library_everywhere() {
    for u in 0..=0x10FFFF_u32 {
        if let Some(c) = char::from_u32(u) {
            assert_eq!(char_is_whitespace(c), c.is_whitespace());
        }
    }
}

#[test]
fn case_is_folded_for_ascii_letters_only() {
    assert!(eq_ignore_ascii_case("Music", "mUSIC"));
    assert!(eq_ignore_ascii_case("", ""));
    assert!(eq_ignore_ascii_case("dx_raw", "DX_RAW"));
    assert!(!eq_ignore_ascii_case("dx", "dx "));
    assert!(!eq_ignore_ascii_case("@", "`"));
    assert!(!eq_ignore_ascii_case("[", "{"));
    assert!(!eq_ignore_ascii_case("é", "É"));
    assert!(eq_ignore_ascii_case("é", "é"));
}
