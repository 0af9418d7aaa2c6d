use fm_transmit::error::ConfigError;
use fm_transmit::mixer::Mixer;
use fm_transmit::rate::Decimator;

#[test]
fn decimation_whole_groups() {
    // Nine inputs at ratio three: output length 9 / 3, samples 0, 3, 6.
    let mut d = Decimator::new(9, 3).unwrap();
    assert_eq!(d.ratio, 3);
    let input: Vec<i32> = (0..9).collect();
    let out = d.down_sample(&input);
    assert_eq!(out, vec![0, 3, 6]);
}

#[test]
fn decimation_selects_multiples_of_ratio() {
    let mut d = Decimator::new(40, 10).unwrap();
    assert_eq!(d.ratio, 4);
    let input: Vec<i32> = (100..110).collect();
    let out = d.down_sample(&input);
    assert_eq!(out, vec![100, 104, 108]);
}

#[test]
fn decimation_phase_carries_across_chunks() {
    // Splitting a stream into chunks must keep the same samples as one
    // pass: multiples of three of the concatenated stream.
    let mut d = Decimator::new(3, 1).unwrap();
    let first = d.down_sample(&vec![10, 11, 12, 13]);
    let second = d.down_sample(&vec![14, 15, 16, 17]);
    let third = d.down_sample(&vec![18]);
    let mut got = first;
    got.extend(second);
    got.extend(third);
    assert_eq!(got, vec![10, 13, 16]);

    let mut whole = Decimator::new(3, 1).unwrap();
    let all = whole.down_sample(&(10..19).collect::<Vec<i32>>());
    assert_eq!(all, got);
}

#[test]
fn decimation_works_on_float_samples() {
    let mut d = Decimator::new(2, 1).unwrap();
    let out = d.down_sample(&vec![0.5f32, -1.0, 0.25, 2.0]);
    assert_eq!(out, vec![0.5f32, 0.25]);
}

#[test]
fn broadcast_rates_round_to_forty_five() {
    // 2 MHz RF over 44.1 kHz audio rounds to a step of 45.
    let d = Decimator::new(2_000_000, 44_100).unwrap();
    assert_eq!(d.ratio, 45);
    assert_eq!(d.phase, 0);
}

#[test]
fn decimator_rejects_bad_rates() {
    assert_eq!(Decimator::new(1000, 0).unwrap_err(), ConfigError::ZeroAudioRate);
    // A ratio that rounds to zero is refused, not silently inverted.
    assert_eq!(Decimator::new(1, 1000).unwrap_err(), ConfigError::ZeroRatio);
}

#[test]
fn mixer_counts_indices_across_chunks() {
    let mut m = Mixer::new(-900_000, 2_000_000).unwrap();
    assert_eq!(m.index, 0);
    assert_eq!(m.advance(100), 0);
    assert_eq!(m.advance(4), 100);
    assert_eq!(m.advance(0), 104);
    assert_eq!(m.index, 104);
    assert_eq!(m.offset_hz, -900_000);
    assert_eq!(m.sample_rate, 2_000_000);
}

#[test]
fn mixer_rejects_zero_rate() {
    assert!(Mixer::new(100, 0).is_err());
}
