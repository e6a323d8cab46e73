use mikup_dsp::resampler::{MonoResampler, Resampled, Tap};

fn taps_of(out: Resampled<i32>) -> Vec<(i32, i32, u32)> {
    match out {
        Resampled::Blended(taps) => taps.iter().map(|t: &Tap<i32>| (t.current, t.next, t.weight)).collect(),
        Resampled::Copied(_) => panic!("expected blends"),
    }
}

fn blend(taps: &[(i32, i32, u32)], output_rate: u32) -> Vec<f32> {
    taps.iter()
        .map(|(current, next, weight)| {
            let w = *weight as f32 / output_rate as f32;
            *current as f32 * (1.0 - w) + *next as f32 * w
        })
        .collect()
}

#[test]
fn resampler_rejects_zero_rates() {
    assert_eq!(
        MonoResampler::<i32>::new(0, 48_000).unwrap_err(),
        "sample rates must be > 0"
    );
    assert_eq!(
        MonoResampler::<i32>::new(48_000, 0).unwrap_err(),
        "sample rates must be > 0"
    );
    assert!(MonoResampler::<i32>::new(1, 1).is_ok());
}

#[test]
fn resampler_passes_equal_rates_through() {
    let mut r = MonoResampler::<i32>::new(48_000, 48_000).unwrap();
    assert!(r.is_passthrough());
    match r.process(&[5, -6, 7]) {
        Resampled::Copied(samples) => assert_eq!(samples, vec![5, -6, 7]),
        Resampled::Blended(_) => panic!("expected a copy"),
    }
    match r.process(&[]) {
        Resampled::Copied(samples) => assert!(samples.is_empty()),
        Resampled::Blended(_) => panic!("expected a copy"),
    }
}

#[test]
fn resampler_doubles_the_rate() {
    let mut r = MonoResampler::<i32>::new(1, 2).unwrap();
    assert!(!r.is_passthrough());
    assert_eq!(r.input_rate(), 1);
    assert_eq!(r.output_rate(), 2);
    let taps = taps_of(r.process(&[10, 20, 30]));
    assert_eq!(taps, vec![(10, 20, 0), (10, 20, 1), (20, 30, 0), (20, 30, 1)]);
    assert_eq!(blend(&taps, 2), vec![10.0, 15.0, 20.0, 25.0]);
    // The last sample waits for its neighbour.
    let taps = taps_of(r.process(&[40]));
    assert_eq!(taps, vec![(30, 40, 0), (30, 40, 1)]);
}

#[test]
fn resampler_halves_the_rate() {
    let mut r = MonoResampler::<i32>::new(2, 1).unwrap();
    let taps = taps_of(r.process(&[0, 1, 2, 3, 4, 5]));
    assert_eq!(taps, vec![(0, 1, 0), (2, 3, 0), (4, 5, 0)]);
    let taps = taps_of(r.process(&[6, 7]));
    assert_eq!(taps, vec![(6, 7, 0)]);
}

#[test]
fn resampler_keeps_its_fraction_across_blocks() {
    // 3 input samples for every 4 output samples.
    let mut r = MonoResampler::<i32>::new(3, 4).unwrap();
    let mut all = taps_of(r.process(&[0, 4]));
    all.extend(taps_of(r.process(&[8, 12])));
    all.extend(taps_of(r.process(&[16])));
    assert_eq!(
        all,
        vec![
            (0, 4, 0),
            (0, 4, 3),
            (4, 8, 2),
            (8, 12, 1),
            (12, 16, 0),
            (12, 16, 3),
        ]
    );
    assert_eq!(blend(&all, 4), vec![0.0, 3.0, 6.0, 9.0, 12.0, 15.0]);
}

#[test]
fn resampler_gives_nothing_until_two_samples_are_at_hand() {
    let mut r = MonoResampler::<i32>::new(1, 2).unwrap();
    assert!(taps_of(r.process(&[])).is_empty());
    assert!(taps_of(r.process(&[1])).is_empty());
    assert_eq!(taps_of(r.process(&[3])), vec![(1, 3, 0), (1, 3, 1)]);
}

#[test]
fn resampler_steps_over_input_between_blocks() {
    // Three input samples for every output sample: the position runs ahead
    // of a short block and catches up in the next one.
    let mut r = MonoResampler::<i32>::new(3, 1).unwrap();
    assert_eq!(taps_of(r.process(&[1, 2])), vec![(1, 2, 0)]);
    assert_eq!(taps_of(r.process(&[3, 4, 5])), vec![(4, 5, 0)]);
    assert_eq!(taps_of(r.process(&[6, 7, 8])), vec![(7, 8, 0)]);
}

#[test]
fn resampler_reset_forgets_input_and_position() {
    let mut r = MonoResampler::<i32>::new(1, 2).unwrap();
    let _ = r.process(&[10, 20, 30]);
    r.reset();
    assert_eq!(taps_of(r.process(&[1, 3])), vec![(1, 3, 0), (1, 3, 1)]);
}
