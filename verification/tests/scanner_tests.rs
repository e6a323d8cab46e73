use mikup_dsp::scanner::{
    admit_scan_source, canonical_stem_name, collect_profiles, find_labelled, find_named,
    lookup_stem_path, OfflineLoudnessScanner, ScanStep, ScannerError, WorkerOutcome,
};
use mikup_dsp::source::SourceReport;
use mikup_dsp::stem_decoder::PacketEvent;

fn entries(pairs: &[(&str, &str)]) -> Vec<(String, String)> {
    pairs.iter().map(|(k, v)| (k.to_string(), v.to_string())).collect()
}

fn wav_report(sample_rate: Option<u32>) -> SourceReport {
    SourceReport {
        exists: true,
        header_error: None,
        header: b"RIFF\x24\0\0\0WAVEfmt ".to_vec(),
        open_error: None,
        probe_error: None,
        extension: "wav".to_string(),
        has_track: true,
        sample_rate,
        codec_error: None,
    }
}

#[test]
fn scanner_takes_one_or_two_points_per_second() {
    assert_eq!(OfflineLoudnessScanner::new(1).unwrap().points_per_second, 1);
    assert_eq!(OfflineLoudnessScanner::new(2).unwrap().points_per_second, 2);
    assert_eq!(OfflineLoudnessScanner::default().points_per_second, 2);
    for bad in [0, 3, u32::MAX] {
        assert!(matches!(
            OfflineLoudnessScanner::new(bad),
            Err(ScannerError::InvalidConfig("points_per_second must be 1 or 2"))
        ));
    }
}

#[test]
fn canonical_stems_are_dx_music_effects() {
    assert_eq!(canonical_stem_name(0), "DX");
    assert_eq!(canonical_stem_name(1), "Music");
    assert_eq!(canonical_stem_name(2), "Effects");
}

#[test]
fn labels_are_found_ignoring_case() {
    let e = entries(&[("music", "/m.wav"), ("dx", "/d.wav"), ("DX", "/D.wav")]);
    assert_eq!(find_labelled(&e, "DX"), 1);
    assert_eq!(find_labelled(&e, "Music"), 0);
    assert_eq!(find_labelled(&e, "Effects"), 3);
    assert_eq!(find_named(&e, "DX"), 2);
    assert_eq!(find_named(&e, "dx"), 1);
    assert_eq!(find_named(&e, "Dx"), 3);
}

#[test]
fn stems_resolve_by_name_before_alias() {
    let e = entries(&[
        ("dialogue", "/alias.wav"),
        ("dx", "/direct.wav"),
        ("background_raw", "/bg.wav"),
    ]);
    assert_eq!(lookup_stem_path(&e, 0), Some(1));
    // Music and effects both fall back to the shared background.
    assert_eq!(lookup_stem_path(&e, 1), Some(2));
    assert_eq!(lookup_stem_path(&e, 2), Some(2));
    let resolved = OfflineLoudnessScanner::resolve_required_stems(&e).unwrap();
    assert_eq!(
        resolved,
        entries(&[("DX", "/direct.wav"), ("Music", "/bg.wav"), ("Effects", "/bg.wav")])
    );
}

#[test]
fn aliases_are_tried_in_order() {
    let e = entries(&[
        ("dialogue", "/3.wav"),
        ("DX_RAW", "/2.wav"),
        ("Dialogue_Raw", "/1.wav"),
        ("background_raw", "/bg.wav"),
        ("effects_raw", "/e1.wav"),
        ("MUSIC_RAW", "/m1.wav"),
    ]);
    assert_eq!(lookup_stem_path(&e, 0), Some(2));
    // `music_raw` comes before `background_raw` for the music stem, and
    // `effects_raw` before it for the effects stem.
    assert_eq!(lookup_stem_path(&e, 1), Some(5));
    assert_eq!(lookup_stem_path(&e, 2), Some(4));
    // The stem's own name in another case counts as the name itself.
    let e = entries(&[("music_raw", "/m1.wav"), ("music", "/m.wav")]);
    assert_eq!(lookup_stem_path(&e, 1), Some(1));
    assert_eq!(lookup_stem_path(&e, 0), None);
}

#[test]
fn resolved_paths_are_trimmed() {
    let e = entries(&[("DX", "  /d.wav\n"), ("Music", "/m m.wav "), ("Effects", "\t/e.wav")]);
    let resolved = OfflineLoudnessScanner::resolve_required_stems(&e).unwrap();
    assert_eq!(
        resolved,
        entries(&[("DX", "/d.wav"), ("Music", "/m m.wav"), ("Effects", "/e.wav")])
    );
}

#[test]
fn missing_and_blank_paths_fail_with_the_first_stem() {
    let e = entries(&[("DX", "/d.wav"), ("Effects", "/e.wav")]);
    assert!(matches!(
        OfflineLoudnessScanner::resolve_required_stems(&e),
        Err(ScannerError::MissingStemPath { stem: "Music" })
    ));
    let e = entries(&[("DX", " \t "), ("Effects", "/e.wav")]);
    assert!(matches!(
        OfflineLoudnessScanner::resolve_required_stems(&e),
        Err(ScannerError::MissingStemPath { stem: "DX" })
    ));
    // A blank entry under the name is not made up for by an alias.
    let e = entries(&[("DX", ""), ("dialogue", "/d.wav"), ("Music", "/m.wav"), ("Effects", "/e.wav")]);
    assert!(matches!(
        OfflineLoudnessScanner::resolve_required_stems(&e),
        Err(ScannerError::MissingStemPath { stem: "DX" })
    ));
    assert!(matches!(
        OfflineLoudnessScanner::resolve_required_stems(&Vec::new()),
        Err(ScannerError::MissingStemPath { stem: "DX" })
    ));
}

#[test]
fn scan_jobs_need_every_stem_by_its_exact_name() {
    let scanner = OfflineLoudnessScanner::new(2).unwrap();
    let e = entries(&[("Effects", "/e.wav"), ("DX", "/d.wav"), ("Music", "/m.wav")]);
    assert_eq!(
        scanner.scan_jobs(&e).unwrap(),
        entries(&[("DX", "/d.wav"), ("Music", "/m.wav"), ("Effects", "/e.wav")])
    );
    let e = entries(&[("DX", "/d.wav"), ("music", "/m.wav"), ("Effects", "/e.wav")]);
    assert!(matches!(
        scanner.scan_jobs(&e),
        Err(ScannerError::MissingStemPath { stem: "Music" })
    ));
}

#[test]
fn scan_source_failures_come_in_order() {
    let check = |r: &SourceReport| admit_scan_source("DX", "/d.wav", r);
    assert_eq!(check(&wav_report(Some(44_100))).unwrap(), 44_100);
    // The scan leaves a zero rate to the meter.
    assert_eq!(check(&wav_report(Some(0))).unwrap(), 0);

    let mut bad = wav_report(Some(48_000));
    bad.exists = false;
    assert!(matches!(
        check(&bad),
        Err(ScannerError::MissingStemFile { stem, path }) if stem == "DX" && path == "/d.wav"
    ));

    let mut bad = wav_report(Some(48_000));
    bad.header_error = Some("denied".to_string());
    assert!(matches!(
        check(&bad),
        Err(ScannerError::Decode { stem, message }) if stem == "/d.wav" && message == "denied"
    ));

    let mut bad = wav_report(Some(48_000));
    bad.header = b"RIFF".to_vec();
    assert!(matches!(
        check(&bad),
        Err(ScannerError::InvalidStemFormat { stem, path }) if stem == "DX" && path == "/d.wav"
    ));

    let mut bad = wav_report(Some(48_000));
    bad.open_error = Some("busy".to_string());
    assert!(matches!(
        check(&bad),
        Err(ScannerError::Decode { stem, message }) if stem == "DX" && message == "busy"
    ));

    let mut bad = wav_report(Some(48_000));
    bad.probe_error = Some("odd".to_string());
    bad.extension = "mp3".to_string();
    assert!(matches!(check(&bad), Err(ScannerError::Probe(m)) if m == "odd"));

    // The extension does not matter to a scan.
    let mut odd = wav_report(Some(48_000));
    odd.extension = "mp3".to_string();
    assert_eq!(check(&odd).unwrap(), 48_000);

    let mut bad = wav_report(None);
    bad.has_track = false;
    assert!(matches!(
        check(&bad),
        Err(ScannerError::Decode { stem, message }) if stem == "DX" && message == "No decodable audio track found"
    ));

    assert!(matches!(
        check(&wav_report(None)),
        Err(ScannerError::Decode { stem, message }) if stem == "DX" && message == "Missing sample-rate metadata"
    ));

    let mut bad = wav_report(Some(48_000));
    bad.codec_error = Some("no codec".to_string());
    assert!(matches!(
        check(&bad),
        Err(ScannerError::Decode { stem, message }) if stem == "DX" && message == "no codec"
    ));
}

#[test]
fn ten_seconds_at_two_points_per_second_give_21_readings() {
    let scanner = OfflineLoudnessScanner::new(2).unwrap();
    let mut scan = scanner.begin_stem(48_000).unwrap();
    let mut readings: u128 = 0;
    let mut progress = Vec::new();
    let mut left: usize = 480_000;
    while left > 0 {
        let n = left.min(1152);
        match scan.accept("DX", PacketEvent::Decoded(vec![0_i16; n])).unwrap() {
            ScanStep::Measure { samples, captures_due, progress: p } => {
                assert_eq!(samples.len(), n);
                readings += captures_due;
                if let Some(samples_scanned) = p {
                    progress.push(samples_scanned);
                }
            }
            _ => panic!("expected samples to measure"),
        }
        left -= n;
    }
    assert!(matches!(scan.accept("DX", PacketEvent::<i16>::EndOfStream), Ok(ScanStep::Finish)));
    assert_eq!(readings, 21);
    assert_eq!(scan.captures, 21);
    assert_eq!(scan.processed_samples, 480_000);
    // Progress at the first packet that reaches 5 s, and again at 10 s.
    assert_eq!(progress, vec![240_768, 480_000]);
    assert_eq!(scan.next_progress_secs, 15);
}

#[test]
fn readings_do_not_depend_on_how_the_stem_is_cut() {
    let scanner = OfflineLoudnessScanner::new(1).unwrap();
    let mut one = scanner.begin_stem(8_000).unwrap();
    let whole = one.accept("DX", PacketEvent::Decoded(vec![0_i16; 20_000])).unwrap();
    // Readings at 0, 8000 and 16000 samples, all taken at once.
    assert!(matches!(whole, ScanStep::Measure { captures_due: 3, progress: None, .. }));

    let mut many = scanner.begin_stem(8_000).unwrap();
    let mut due = Vec::new();
    for n in [1, 7_998, 1, 1, 11_999] {
        if let ScanStep::Measure { captures_due, .. } =
            many.accept("DX", PacketEvent::Decoded(vec![0_i16; n])).unwrap()
        {
            due.push(captures_due);
        }
    }
    assert_eq!(due, vec![1, 0, 1, 0, 1]);
    assert_eq!(many.captures, one.captures);
}

#[test]
fn half_second_steps_fall_between_samples_at_odd_rates() {
    // At 11025 Hz readings are due every 5512.5 samples.
    let scanner = OfflineLoudnessScanner::new(2).unwrap();
    let mut scan = scanner.begin_stem(11_025).unwrap();
    let mut due = Vec::new();
    for n in [5_512, 1, 5_512, 1] {
        if let ScanStep::Measure { captures_due, .. } =
            scan.accept("DX", PacketEvent::Decoded(vec![0_i16; n])).unwrap()
        {
            due.push(captures_due);
        }
    }
    assert_eq!(due, vec![1, 1, 1, 0]);
}

#[test]
fn a_packet_brings_at_most_one_progress_report() {
    let scanner = OfflineLoudnessScanner::new(1).unwrap();
    let mut scan = scanner.begin_stem(100).unwrap();
    // 12 seconds at once: one report; the next is due at 10 s.
    let step = scan.accept("DX", PacketEvent::Decoded(vec![0_i16; 1_200])).unwrap();
    assert!(matches!(step, ScanStep::Measure { progress: Some(1_200), captures_due: 13, .. }));
    assert_eq!(scan.next_progress_secs, 10);
    let step = scan.accept("DX", PacketEvent::Decoded(vec![0_i16; 1])).unwrap();
    assert!(matches!(step, ScanStep::Measure { progress: Some(1_201), captures_due: 0, .. }));
    assert_eq!(scan.next_progress_secs, 15);
    let step = scan.accept("DX", PacketEvent::Decoded(vec![0_i16; 1])).unwrap();
    assert!(matches!(step, ScanStep::Measure { progress: None, captures_due: 0, .. }));
}

#[test]
fn scan_passes_over_what_it_cannot_use() {
    let scanner = OfflineLoudnessScanner::new(2).unwrap();
    let mut scan = scanner.begin_stem(48_000).unwrap();
    let before = scan;
    assert!(matches!(scan.accept("DX", PacketEvent::<i16>::Corrupt), Ok(ScanStep::Continue)));
    assert!(matches!(scan.accept("DX", PacketEvent::<i16>::OtherTrack), Ok(ScanStep::Continue)));
    assert!(matches!(scan.accept("DX", PacketEvent::<i16>::ResetRequired), Ok(ScanStep::ResetCodec)));
    assert!(matches!(scan.accept("DX", PacketEvent::<i16>::Decoded(Vec::new())), Ok(ScanStep::Continue)));
    assert_eq!(scan, before);
    assert!(matches!(
        scan.accept("DX", PacketEvent::<i16>::Failed("gone".to_string())),
        Err(ScannerError::Decode { stem, message }) if stem == "DX" && message == "gone"
    ));
}

#[test]
fn no_scan_begins_at_rate_zero() {
    assert!(OfflineLoudnessScanner::new(2).unwrap().begin_stem(0).is_none());
    assert!(OfflineLoudnessScanner { points_per_second: 3 }.begin_stem(48_000).is_none());
    assert!(OfflineLoudnessScanner { points_per_second: 0 }.begin_stem(48_000).is_none());
}

#[test]
fn profiles_are_collected_in_order() {
    let outcomes = vec![
        WorkerOutcome::Profile("DX".to_string(), 1),
        WorkerOutcome::Profile("Music".to_string(), 2),
        WorkerOutcome::Profile("Effects".to_string(), 3),
    ];
    assert_eq!(
        collect_profiles(outcomes).unwrap(),
        vec![("DX".to_string(), 1), ("Music".to_string(), 2), ("Effects".to_string(), 3)]
    );
    assert!(collect_profiles(Vec::<WorkerOutcome<u8>>::new()).unwrap().is_empty());
}

#[test]
fn the_first_failed_worker_fails_the_scan() {
    let outcomes = vec![
        WorkerOutcome::Profile("DX".to_string(), 1),
        WorkerOutcome::Failed(ScannerError::Meter("no meter".to_string())),
        WorkerOutcome::Panicked,
    ];
    assert!(matches!(collect_profiles(outcomes), Err(ScannerError::Meter(m)) if m == "no meter"));
    let outcomes = vec![
        WorkerOutcome::Panicked,
        WorkerOutcome::Failed(ScannerError::Meter("no meter".to_string())),
        WorkerOutcome::Profile("Effects".to_string(), 3),
    ];
    assert!(matches!(
        collect_profiles(outcomes),
        Err(ScannerError::ThreadJoin(m)) if m == "scanner worker thread panicked"
    ));
}
