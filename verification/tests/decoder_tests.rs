use mikup_dsp::decoder::{pad_to, validate_config, MikupAudioDecoder, StemFrame};
use mikup_dsp::source::{has_wav_extension, looks_like_wav, SourceReport};
use mikup_dsp::stem_decoder::{AudioDecodeError, Feed, PacketEvent, StemStreamDecoder};
use mikup_dsp::stems::{AudioFrameStemFlags, StemState};

fn wav_header() -> Vec<u8> {
    let mut header = b"RIFF".to_vec();
    header.extend_from_slice(&[0x24, 0x08, 0, 0]);
    header.extend_from_slice(b"WAVE");
    header
}

fn wav_report(sample_rate: u32) -> SourceReport {
    SourceReport {
        exists: true,
        header_error: None,
        header: wav_header(),
        open_error: None,
        probe_error: None,
        extension: "wav".to_string(),
        has_track: true,
        sample_rate: Some(sample_rate),
        codec_error: None,
    }
}

fn stem(name: &'static str, rate: u32) -> StemStreamDecoder<i32> {
    StemStreamDecoder::open(name, "/stems/x.wav", &wav_report(rate), rate).unwrap()
}

fn feed(stem: &mut StemStreamDecoder<i32>, samples: Vec<i32>) {
    assert!(matches!(stem.accept(PacketEvent::Decoded(samples)), Ok(Feed::Continue)));
}

fn end(stem: &mut StemStreamDecoder<i32>) {
    assert!(matches!(stem.accept(PacketEvent::EndOfStream), Ok(Feed::Continue)));
}

fn decoder(frame_size: usize) -> MikupAudioDecoder<i32> {
    MikupAudioDecoder::new(
        stem("dx_raw", 48_000),
        stem("music_raw", 48_000),
        stem("foley_raw", 48_000),
        stem("sfx_raw", 48_000),
        stem("ambience_raw", 48_000),
        48_000,
        frame_size,
    )
    .unwrap()
}

fn lengths(frame: &StemFrame<i32>) -> Vec<usize> {
    vec![
        frame.dx.samples.len(),
        frame.music.samples.len(),
        frame.foley.samples.len(),
        frame.sfx.samples.len(),
        frame.ambience.samples.len(),
        frame.dx.levels.len(),
        frame.music.levels.len(),
        frame.foley.levels.len(),
        frame.sfx.levels.len(),
        frame.ambience.levels.len(),
    ]
}

#[test]
fn wav_header_needs_riff_and_wave() {
    assert!(looks_like_wav(&wav_header()));
    let mut longer = wav_header();
    longer.extend_from_slice(b"fmt ");
    assert!(looks_like_wav(&longer));
    assert!(!looks_like_wav(&wav_header()[..11]));
    assert!(!looks_like_wav(b""));
    assert!(!looks_like_wav(b"RIFF\0\0\0\0AVI "));
    assert!(!looks_like_wav(b"RIFX\0\0\0\0WAVE"));
    assert!(!looks_like_wav(b"riff\0\0\0\0wave"));
}

#[test]
fn wav_extension_ignores_case() {
    assert!(has_wav_extension("wav"));
    assert!(has_wav_extension("WAV"));
    assert!(has_wav_extension("Wave"));
    assert!(!has_wav_extension(""));
    assert!(!has_wav_extension("wa"));
    assert!(!has_wav_extension("flac"));
    assert!(!has_wav_extension(".wav"));
}

#[test]
fn open_accepts_a_wav_source() {
    let opened = StemStreamDecoder::<i32>::open("dx_raw", "/a/dx.wav", &wav_report(44_100), 48_000);
    let decoder = opened.unwrap();
    assert_eq!(decoder.target_sample_rate(), 48_000);
    assert_eq!(decoder.pending_len(), 0);
    assert!(!decoder.is_finished());
    assert!(decoder.needs_packet(1));
    assert!(!decoder.needs_packet(0));
}

#[test]
fn open_reports_each_failure_in_order() {
    let path = "/a/dx.wav";
    let open = |report: &SourceReport, rate: u32| {
        StemStreamDecoder::<i32>::open("dx_raw", path, report, rate).unwrap_err()
    };

    let mut bad = wav_report(48_000);
    bad.exists = false;
    bad.header = Vec::new();
    assert!(matches!(open(&bad, 0), AudioDecodeError::InvalidConfig("target_sample_rate must be > 0")));
    assert!(matches!(
        open(&bad, 48_000),
        AudioDecodeError::MissingStem { stem: "dx_raw", path: p } if p == path
    ));

    let mut bad = wav_report(48_000);
    bad.header_error = Some("permission denied".to_string());
    bad.header = Vec::new();
    assert!(matches!(open(&bad, 48_000), AudioDecodeError::Io(m) if m == "permission denied"));

    let mut bad = wav_report(48_000);
    bad.header = b"OggS\0\0\0\0\0\0\0\0".to_vec();
    bad.probe_error = Some("unsupported".to_string());
    assert!(matches!(
        open(&bad, 48_000),
        AudioDecodeError::UnsupportedFormat { stem: "dx_raw", path: p, format: f } if p == path && f == "non-wav"
    ));

    let mut bad = wav_report(48_000);
    bad.open_error = Some("too many open files".to_string());
    bad.probe_error = Some("unsupported".to_string());
    assert!(matches!(open(&bad, 48_000), AudioDecodeError::Io(m) if m == "too many open files"));

    let mut bad = wav_report(48_000);
    bad.probe_error = Some("unsupported".to_string());
    bad.extension = "mp3".to_string();
    assert!(matches!(open(&bad, 48_000), AudioDecodeError::Probe(m) if m == "unsupported"));

    let mut bad = wav_report(48_000);
    bad.extension = "mp3".to_string();
    bad.has_track = false;
    assert!(matches!(
        open(&bad, 48_000),
        AudioDecodeError::UnsupportedFormat { stem: "dx_raw", path: p, format: f } if p == path && f == "mp3"
    ));

    let mut bad = wav_report(48_000);
    bad.has_track = false;
    bad.sample_rate = None;
    assert!(matches!(
        open(&bad, 48_000),
        AudioDecodeError::NoAudioTrack { stem: "dx_raw", path: p } if p == path
    ));

    let mut bad = wav_report(48_000);
    bad.sample_rate = None;
    bad.codec_error = Some("no codec".to_string());
    assert!(matches!(
        open(&bad, 48_000),
        AudioDecodeError::MissingSampleRate { stem: "dx_raw", path: p } if p == path
    ));
    bad.sample_rate = Some(0);
    assert!(matches!(open(&bad, 48_000), AudioDecodeError::MissingSampleRate { .. }));

    let mut bad = wav_report(48_000);
    bad.codec_error = Some("no codec".to_string());
    assert!(matches!(
        open(&bad, 48_000),
        AudioDecodeError::Decode { stem: "dx_raw", message: m } if m == "no codec"
    ));
}

#[test]
fn stem_decoder_queues_and_pops_in_order() {
    let mut dx = stem("dx_raw", 48_000);
    feed(&mut dx, vec![1, 2, 3]);
    feed(&mut dx, vec![]);
    feed(&mut dx, vec![4, 5]);
    assert_eq!(dx.pending_len(), 5);
    assert!(dx.needs_packet(6));
    assert!(!dx.needs_packet(5));
    assert_eq!(dx.pop_frame(2), vec![1, 2]);
    assert_eq!(dx.pop_frame(0), Vec::<i32>::new());
    assert_eq!(dx.pop_frame(10), vec![3, 4, 5]);
    assert_eq!(dx.pop_frame(10), Vec::<i32>::new());
    assert!(!dx.is_finished());
    end(&mut dx);
    assert!(dx.is_finished());
    assert!(!dx.needs_packet(10));
}

#[test]
fn stem_decoder_is_not_finished_while_samples_are_pending() {
    let mut dx = stem("dx_raw", 48_000);
    feed(&mut dx, vec![1, 2, 3]);
    end(&mut dx);
    assert!(!dx.is_finished());
    assert_eq!(dx.drain_remaining(), vec![1, 2, 3]);
    assert!(dx.is_finished());
}

#[test]
fn stem_decoder_passes_over_corrupt_and_foreign_packets() {
    let mut dx = stem("dx_raw", 48_000);
    feed(&mut dx, vec![1]);
    assert!(matches!(dx.accept(PacketEvent::Corrupt), Ok(Feed::Continue)));
    assert!(matches!(dx.accept(PacketEvent::OtherTrack), Ok(Feed::Continue)));
    assert!(matches!(dx.accept(PacketEvent::ResetRequired), Ok(Feed::ResetCodec)));
    feed(&mut dx, vec![2]);
    assert_eq!(dx.pending_len(), 2);
    assert!(!dx.is_finished());
    assert_eq!(dx.pop_frame(2), vec![1, 2]);
}

#[test]
fn stem_decoder_hands_back_fatal_failures() {
    let mut dx = stem("dx_raw", 48_000);
    feed(&mut dx, vec![1]);
    let failed = dx.accept(PacketEvent::Failed("disk gone".to_string()));
    assert!(matches!(
        failed,
        Err(AudioDecodeError::Decode { stem: "dx_raw", message: m }) if m == "disk gone"
    ));
    assert_eq!(dx.pending_len(), 1);
}

#[test]
fn stem_decoder_resamples_before_queueing() {
    let mut dx = StemStreamDecoder::<i32>::open("dx_raw", "/a/dx.wav", &wav_report(24_000), 48_000).unwrap();
    let taps = match dx.accept(PacketEvent::Decoded(vec![10, 20, 30])) {
        Ok(Feed::Blend(taps)) => taps,
        _ => panic!("expected blends"),
    };
    assert_eq!(taps.len(), 4);
    assert_eq!((taps[1].current, taps[1].next, taps[1].weight), (10, 20, 24_000));
    assert_eq!(dx.pending_len(), 0);
    dx.enqueue(&[10, 15, 20, 25]);
    assert_eq!(dx.pop_frame(8), vec![10, 15, 20, 25]);
}

#[test]
fn refused_seek_names_stem_and_time() {
    let dx = stem("dx_raw", 48_000);
    let error = dx.seek_failure(1_250, "beyond the end".to_string());
    assert!(matches!(
        &error,
        AudioDecodeError::Seek { stem: "dx_raw", millis: 1_250, message: m } if m == "beyond the end"
    ));
    assert_eq!(error.describe(), "Seek error in dx_raw stem at 1.250s: beyond the end");
}

#[test]
fn stem_decoder_seek_starts_afresh() {
    let mut dx = stem("dx_raw", 48_000);
    feed(&mut dx, vec![1, 2, 3]);
    end(&mut dx);
    dx.seek();
    assert_eq!(dx.pending_len(), 0);
    assert!(!dx.is_finished());
    assert!(dx.needs_packet(1));
}

#[test]
fn config_needs_positive_rate_and_frame_size() {
    assert!(validate_config(48_000, 2048).is_ok());
    assert!(matches!(
        validate_config(0, 0),
        Err(AudioDecodeError::InvalidConfig("target_sample_rate must be > 0"))
    ));
    assert!(matches!(
        validate_config(48_000, 0),
        Err(AudioDecodeError::InvalidConfig("frame_size must be > 0"))
    ));
    let made = MikupAudioDecoder::new(
        stem("dx_raw", 48_000),
        stem("music_raw", 48_000),
        stem("foley_raw", 48_000),
        stem("sfx_raw", 48_000),
        stem("ambience_raw", 48_000),
        48_000,
        0,
    );
    assert!(matches!(made, Err(AudioDecodeError::InvalidConfig("frame_size must be > 0"))));
}

#[test]
fn stems_must_resolve_to_one_rate() {
    let made = MikupAudioDecoder::new(
        stem("dx_raw", 48_000),
        stem("music_raw", 48_000),
        stem("foley_raw", 44_100),
        stem("sfx_raw", 48_000),
        stem("ambience_raw", 48_000),
        48_000,
        2048,
    );
    assert!(matches!(
        made,
        Err(AudioDecodeError::InvalidConfig("stems resolved to mismatched output sample rates"))
    ));
}

#[test]
fn defaults_are_48k_and_2048() {
    let d = MikupAudioDecoder::with_defaults(
        stem("dx_raw", 48_000),
        stem("music_raw", 48_000),
        stem("foley_raw", 48_000),
        stem("sfx_raw", 48_000),
        stem("ambience_raw", 48_000),
    )
    .unwrap();
    assert_eq!(d.target_sample_rate(), 48_000);
    assert_eq!(d.frame_size(), 2048);
    assert_eq!(d.gain_unity(), 240);
    assert_eq!(d.runtime_gains().dx, 240);
    assert!(!d.alignment_mismatch_detected);
}

#[test]
fn pad_to_fills_up_and_never_cuts() {
    let mut v = vec![1, 2];
    pad_to(&mut v, 4, 0);
    assert_eq!(v, vec![1, 2, 0, 0]);
    pad_to(&mut v, 2, 9);
    assert_eq!(v, vec![1, 2, 0, 0]);
    let mut e: Vec<i32> = Vec::new();
    pad_to(&mut e, 0, 9);
    assert!(e.is_empty());
}

#[test]
fn read_frame_aligns_every_stem() {
    let mut d = decoder(4);
    feed(&mut d.dx, vec![1, 2, 3, 4, 5]);
    feed(&mut d.music, vec![10, 20, 30, 40]);
    feed(&mut d.foley, vec![7, 7, 7, 7]);
    feed(&mut d.sfx, vec![8, 8, 8, 8]);
    feed(&mut d.ambience, vec![9, 9, 9, 9]);
    let frame = d.read_frame(AudioFrameStemFlags::default(), 0).unwrap();
    assert_eq!(lengths(&frame), vec![4; 10]);
    assert_eq!(frame.sample_rate, 48_000);
    assert_eq!(frame.unity, 240);
    assert_eq!(frame.dx.samples, vec![1, 2, 3, 4]);
    assert_eq!(frame.music.samples, vec![10, 20, 30, 40]);
    assert_eq!(frame.dx.levels, vec![240; 4]);
    assert_eq!(frame.music.levels, vec![240; 4]);
    assert!(!d.alignment_mismatch_detected);
    assert_eq!(d.dx.pending_len(), 1);
}

#[test]
fn read_frame_pads_short_stems_and_flags_the_mismatch() {
    // Dialogue of one frame, background of two.
    let mut d = decoder(4);
    feed(&mut d.dx, vec![1, 2, 3, 4]);
    end(&mut d.dx);
    for s in [&mut d.music, &mut d.foley, &mut d.sfx, &mut d.ambience] {
        feed(s, vec![5, 6, 7, 8, 9, 10, 11, 12]);
        end(s);
    }
    let first = d.read_frame(AudioFrameStemFlags::default(), 0).unwrap();
    assert_eq!(first.dx.samples, vec![1, 2, 3, 4]);
    assert!(!d.alignment_mismatch_detected);
    let second = d.read_frame(AudioFrameStemFlags::default(), 0).unwrap();
    assert_eq!(lengths(&second), vec![4; 10]);
    assert_eq!(second.dx.samples, vec![0, 0, 0, 0]);
    assert_eq!(second.music.samples, vec![9, 10, 11, 12]);
    assert!(d.alignment_mismatch_detected);
    assert!(d.read_frame(AudioFrameStemFlags::default(), 0).is_none());
    // The flag is sticky.
    assert!(d.alignment_mismatch_detected);
}

#[test]
fn read_frame_gives_a_short_last_frame() {
    let mut d = decoder(4);
    for s in [&mut d.dx, &mut d.music, &mut d.foley, &mut d.sfx, &mut d.ambience] {
        feed(s, vec![1, 2, 3, 4, 5, 6]);
        end(s);
    }
    assert_eq!(lengths(&d.read_frame(AudioFrameStemFlags::default(), 0).unwrap()), vec![4; 10]);
    let last = d.read_frame(AudioFrameStemFlags::default(), 0).unwrap();
    assert_eq!(lengths(&last), vec![2; 10]);
    assert_eq!(last.dx.samples, vec![5, 6]);
    assert!(!d.alignment_mismatch_detected);
    assert!(d.read_frame(AudioFrameStemFlags::default(), 0).is_none());
}

#[test]
fn read_frame_bridges_a_stall_with_silence() {
    let mut d = decoder(3);
    // Nothing is pending and no stem has ended.
    let frame = d.read_frame(AudioFrameStemFlags::default(), -1).unwrap();
    assert_eq!(lengths(&frame), vec![3; 10]);
    assert_eq!(frame.dx.samples, vec![-1, -1, -1]);
    assert_eq!(frame.ambience.samples, vec![-1, -1, -1]);
    assert!(!d.alignment_mismatch_detected);
}

#[test]
fn read_frame_ends_when_every_stem_has_ended() {
    let mut d = decoder(4);
    for s in [&mut d.dx, &mut d.music, &mut d.foley, &mut d.sfx] {
        end(s);
    }
    // One stem is still open: the stream goes on in silence.
    assert!(d.read_frame(AudioFrameStemFlags::default(), 0).is_some());
    end(&mut d.ambience);
    assert!(d.read_frame(AudioFrameStemFlags::default(), 0).is_none());
    assert!(d.read_frame(AudioFrameStemFlags::default(), 0).is_none());
}

#[test]
fn a_two_second_stream_has_a_short_last_frame() {
    // 96000 samples in frames of 2048: 46 whole frames and one of 1792.
    let mut d = decoder(2048);
    for s in [&mut d.dx, &mut d.music, &mut d.foley, &mut d.sfx, &mut d.ambience] {
        feed(s, vec![0; 96_000]);
        end(s);
    }
    let mut whole = 0;
    let mut sizes = Vec::new();
    while let Some(frame) = d.read_frame(AudioFrameStemFlags::default(), 0) {
        if frame.dx.samples.len() == 2048 {
            whole += 1;
        }
        sizes.push(frame.dx.samples.len());
    }
    assert_eq!(whole, 46);
    assert_eq!(sizes.len(), 47);
    assert_eq!(sizes[46], 1792);
    assert!(!d.alignment_mismatch_detected);
}

#[test]
fn solo_on_a_muted_stem_fades_it_in_and_the_others_out() {
    let mut d = decoder(300);
    let muted_music = AudioFrameStemFlags {
        music: StemState { is_solo: false, is_muted: true },
        ..AudioFrameStemFlags::default()
    };
    for s in [&mut d.dx, &mut d.music, &mut d.foley, &mut d.sfx, &mut d.ambience] {
        feed(s, vec![1; 600]);
    }
    // Music fades out over 240 samples: 5 ms at 48 kHz.
    let first = d.read_frame(muted_music, 0).unwrap();
    assert_eq!(first.music.levels[0], 239);
    assert_eq!(first.music.levels[238], 1);
    assert_eq!(first.music.levels[239], 0);
    assert_eq!(first.music.levels[299], 0);
    assert_eq!(first.dx.levels, vec![240; 300]);
    assert_eq!(d.runtime_gains().music, 0);

    let solo_music = AudioFrameStemFlags {
        music: StemState { is_solo: true, is_muted: true },
        ..AudioFrameStemFlags::default()
    };
    let second = d.read_frame(solo_music, 0).unwrap();
    for i in 0..240 {
        assert_eq!(second.music.levels[i], i as u32 + 1);
        assert_eq!(second.dx.levels[i], 239 - i as u32);
        assert_eq!(second.foley.levels[i], 239 - i as u32);
    }
    for i in 240..300 {
        assert_eq!(second.music.levels[i], 240);
        assert_eq!(second.dx.levels[i], 0);
    }
    assert_eq!(d.runtime_gains().music, 240);
    assert_eq!(d.runtime_gains().dx, 0);
    assert_eq!(d.runtime_gains().ambience, 0);
}

#[test]
fn drain_tail_takes_what_is_left() {
    let mut d = decoder(4);
    feed(&mut d.dx, vec![1, 2, 3, 4, 5, 6, 7]);
    feed(&mut d.music, vec![1, 2]);
    let tail = d.drain_tail(AudioFrameStemFlags::default(), 0);
    assert_eq!(lengths(&tail), vec![7; 10]);
    assert_eq!(tail.dx.samples, vec![1, 2, 3, 4, 5, 6, 7]);
    assert_eq!(tail.music.samples, vec![1, 2, 0, 0, 0, 0, 0]);
    assert_eq!(tail.sfx.samples, vec![0; 7]);
    assert!(!d.alignment_mismatch_detected);
    let empty = d.drain_tail(AudioFrameStemFlags::default(), 0);
    assert_eq!(lengths(&empty), vec![0; 10]);
}

#[test]
fn drain_tail_of_nothing_leaves_every_gain_alone() {
    let mut d = decoder(4);
    let all_muted = AudioFrameStemFlags {
        dx: StemState { is_solo: false, is_muted: true },
        music: StemState { is_solo: false, is_muted: true },
        ..AudioFrameStemFlags::default()
    };
    let empty = d.drain_tail(all_muted, 0);
    assert_eq!(lengths(&empty), vec![0; 10]);
    assert_eq!(d.runtime_gains().dx, 240);
    assert_eq!(d.runtime_gains().music, 240);
    // The fade starts with the next sample.
    feed(&mut d.dx, vec![1, 1]);
    let tail = d.drain_tail(all_muted, 0);
    assert_eq!(tail.dx.levels, vec![239, 238]);
    assert_eq!(tail.music.levels, vec![239, 238]);
    assert_eq!(tail.sfx.levels, vec![240, 240]);
}

#[test]
fn seek_keeps_each_stem_in_its_place() {
    let mut d = decoder(4);
    feed(&mut d.dx, vec![1, 2, 3]);
    feed(&mut d.music, vec![7]);
    d.seek();
    assert_eq!(d.dx.seek_failure(0, String::new()).describe(), "Seek error in dx_raw stem at 0.000s: ");
    assert_eq!(d.music.seek_failure(0, String::new()).describe(), "Seek error in music_raw stem at 0.000s: ");
    assert_eq!(d.ambience.seek_failure(0, String::new()).describe(), "Seek error in ambience_raw stem at 0.000s: ");
    assert_eq!(d.dx.target_sample_rate(), 48_000);
    assert_eq!(d.runtime_gains().dx, 240);
    feed(&mut d.dx, vec![9]);
    assert_eq!(d.dx.pop_frame(4), vec![9]);
}

#[test]
fn seek_reopens_every_stem() {
    let mut d = decoder(4);
    for s in [&mut d.dx, &mut d.music, &mut d.foley, &mut d.sfx, &mut d.ambience] {
        feed(s, vec![1, 2, 3]);
        end(s);
    }
    d.seek();
    assert_eq!(d.dx.pending_len(), 0);
    assert!(!d.dx.is_finished());
    assert!(!d.ambience.is_finished());
    assert!(d.read_frame(AudioFrameStemFlags::default(), 0).is_some());
}

#[test]
fn frames_sum_to_what_each_stem_gave() {
    // Reading through the synchronizer gives each stem's own samples.
    let mut d = decoder(4);
    let dx: Vec<i32> = (1..=10).collect();
    let music: Vec<i32> = (101..=110).collect();
    feed(&mut d.dx, dx.clone());
    feed(&mut d.music, music.clone());
    for s in [&mut d.foley, &mut d.sfx, &mut d.ambience] {
        feed(s, vec![0; 10]);
    }
    for s in [&mut d.dx, &mut d.music, &mut d.foley, &mut d.sfx, &mut d.ambience] {
        end(s);
    }
    let mut got_dx = Vec::new();
    let mut got_music = Vec::new();
    while let Some(frame) = d.read_frame(AudioFrameStemFlags::default(), 0) {
        assert!(frame.dx.levels.iter().all(|l| *l == frame.unity));
        got_dx.extend(frame.dx.samples);
        got_music.extend(frame.music.samples);
    }
    assert_eq!(got_dx, dx);
    assert_eq!(got_music, music);
}

#[test]
fn stems_of_unequal_length_come_out_whole_and_then_silent() {
    let mut d = decoder(4);
    let dx: Vec<i32> = (1..=10).collect();
    let music: Vec<i32> = (101..=107).collect();
    let sfx: Vec<i32> = vec![55];
    feed(&mut d.dx, dx.clone());
    feed(&mut d.music, music.clone());
    feed(&mut d.sfx, sfx.clone());
    for s in [&mut d.dx, &mut d.music, &mut d.foley, &mut d.sfx, &mut d.ambience] {
        end(s);
    }
    let mut got_dx = Vec::new();
    let mut got_music = Vec::new();
    let mut got_sfx = Vec::new();
    let mut got_foley = Vec::new();
    let mut sizes = Vec::new();
    while let Some(frame) = d.read_frame(AudioFrameStemFlags::default(), 0) {
        sizes.push(frame.dx.samples.len());
        assert!(frame.music.levels.iter().all(|l| *l == frame.unity));
        got_dx.extend(frame.dx.samples);
        got_music.extend(frame.music.samples);
        got_sfx.extend(frame.sfx.samples);
        got_foley.extend(frame.foley.samples);
    }
    assert_eq!(sizes, vec![4, 4, 2]);
    assert_eq!(got_dx, dx);
    assert_eq!(got_music, vec![101, 102, 103, 104, 105, 106, 107, 0, 0, 0]);
    assert_eq!(got_sfx, vec![55, 0, 0, 0, 0, 0, 0, 0, 0, 0]);
    assert_eq!(got_foley, vec![0; 10]);
    assert!(d.alignment_mismatch_detected);
}
