use audio_player::binary64::Binary64;
use audio_player::eq::{
    audio_set_eq, band_filter, limit_sample, BandFilter, EqParams, EqSnapshot, EqSource, FilterQ,
    FilterShape, Lane, EQ_BANDS, EQ_FREQS,
};

fn double(x: f64) -> Binary64 {
    Binary64::from_bits(x.to_bits())
}

fn number(x: Binary64) -> f64 {
    f64::from_bits(x.bits)
}

fn gains_at(source: &EqSource) -> [f64; EQ_BANDS] {
    let mut gains = [0.0; EQ_BANDS];
    for (i, gain) in source.cached_gains.iter().enumerate() {
        gains[i] = number(*gain);
    }
    gains
}

fn snapshot(source: &EqSource, enabled: bool, gains: [f64; EQ_BANDS]) -> EqSnapshot {
    let cached = gains_at(source);
    let mut snapshot = EqSnapshot {
        enabled,
        gains: [double(0.0); EQ_BANDS],
        moves: [double(0.0); EQ_BANDS],
    };
    for i in 0..EQ_BANDS {
        snapshot.gains[i] = double(gains[i]);
        snapshot.moves[i] = double(gains[i] - cached[i]);
    }
    snapshot
}

#[test]
fn comparisons_agree_with_doubles() {
    let values = [
        0.0, -0.0, 1.0, -1.0, 0.5, 12.0, -12.0, 1e-310, -1e-310, 1e300, -1e300, 5e-324, f64::MAX,
        f64::MIN, f64::INFINITY, f64::NEG_INFINITY, f64::NAN, -f64::NAN,
    ];
    for a in values {
        assert_eq!(double(a).is_nan(), a.is_nan());
        assert_eq!(double(a).is_positive(), a > 0.0);
        assert_eq!(double(a).within(double(0.01)), a.abs() < 0.01);
        for b in values {
            assert_eq!(double(a).less_than(&double(b)), a < b, "{} < {}", a, b);
            assert_eq!(double(a).equals(&double(b)), a == b, "{} == {}", a, b);
        }
        let clamped = double(a).clamp(double(-12.0), double(12.0));
        assert_eq!(clamped.bits, a.clamp(-12.0, 12.0).to_bits());
    }
}

#[test]
fn durations_are_recognised() {
    for good in [0.0, -0.0, 1e-320, 1.5, 86400.0, 1.8446744073709550e19] {
        assert!(double(good).is_duration(), "{}", good);
        std::time::Duration::from_secs_f64(good);
    }
    for bad in [-1e-320, -1.0, 1.8446744073709552e19, f64::INFINITY, f64::NAN, -f64::NAN] {
        assert!(!double(bad).is_duration(), "{}", bad);
        assert!(std::time::Duration::try_from_secs_f64(bad).is_err());
    }
}

#[test]
fn equalizer_starts_switched_off_and_flat() {
    let params = EqParams::default();
    assert!(!params.enabled);
    for gain in params.gains {
        assert_eq!(gain.bits, 0);
    }
}

#[test]
fn gains_are_limited_to_twelve_decibels() {
    let mut params = EqParams::default();
    audio_set_eq(&mut params, true, &vec![double(20.0), double(-13.0), double(3.5), double(f64::NAN)]);
    assert!(params.enabled);
    assert_eq!(number(params.gains[0]), 12.0);
    assert_eq!(number(params.gains[1]), -12.0);
    assert_eq!(number(params.gains[2]), 3.5);
    assert!(number(params.gains[3]).is_nan());
    assert_eq!(number(params.gains[4]), 0.0);
}

#[test]
fn missing_gains_keep_their_band_and_surplus_gains_are_ignored() {
    let mut params = EqParams::default();
    let many: Vec<Binary64> = (0..15).map(|i| double(i as f64 - 5.0)).collect();
    audio_set_eq(&mut params, true, &many);
    for i in 0..EQ_BANDS {
        assert_eq!(number(params.gains[i]), i as f64 - 5.0);
    }
    audio_set_eq(&mut params, false, &vec![double(1.0)]);
    assert!(!params.enabled);
    assert_eq!(number(params.gains[0]), 1.0);
    assert_eq!(number(params.gains[9]), 4.0);
    let before = params;
    audio_set_eq(&mut params, false, &vec![double(1.0)]);
    assert_eq!(before.gains, params.gains);
}

#[test]
fn shelves_stand_at_the_ends() {
    let frequencies = [32, 64, 125, 250, 500, 1000, 2000, 4000, 8000, 16000];
    assert_eq!(EQ_FREQS, frequencies);
    for band in 0..EQ_BANDS {
        let filter = band_filter(band, double(2.0));
        let (shape, q) = match band {
            0 => (FilterShape::LowShelf, FilterQ::Butterworth),
            9 => (FilterShape::HighShelf, FilterQ::Butterworth),
            _ => (FilterShape::Peaking, FilterQ::Value(double(1.414))),
        };
        assert_eq!(
            filter,
            BandFilter { band, shape, gain: double(2.0), frequency: frequencies[band], q }
        );
    }
}

#[test]
fn a_track_starts_with_flat_filters() {
    let (source, filters) = EqSource::new(2, 48000);
    assert_eq!((source.channels, source.sample_rate, source.current_channel), (2, 48000, 0));
    assert!(!source.cached_enabled);
    let expected: Vec<BandFilter> = (0..EQ_BANDS).map(|i| band_filter(i, double(0.0))).collect();
    assert_eq!(filters, expected);
}

#[test]
fn channels_take_turns() {
    let (mut source, _) = EqSource::new(3, 44100);
    let on = snapshot(&source, true, [0.0; EQ_BANDS]);
    let lanes: Vec<Lane> = (0..7).map(|_| source.next(Some(1), Some(on)).unwrap().lane).collect();
    assert_eq!(
        lanes,
        vec![Lane::Left, Lane::Right, Lane::Right, Lane::Left, Lane::Right, Lane::Right, Lane::Left]
    );
    assert_eq!(source.current_channel, 1);
}

#[test]
fn samples_pass_untouched_while_off() {
    let (mut source, _) = EqSource::new(2, 44100);
    let mut gains = [0.0; EQ_BANDS];
    gains[4] = 6.0;
    let off = snapshot(&source, false, gains);
    let step = source.next(Some(0.5f32.to_bits()), Some(off)).unwrap();
    assert_eq!(step.sample, 0.5f32.to_bits());
    assert_eq!(step.lane, Lane::Bypass);
    assert!(step.rebuild.is_empty());
    assert_eq!(gains_at(&source), [0.0; EQ_BANDS]);
    assert_eq!(source.next(Some(0), None).unwrap().lane, Lane::Bypass);
}

#[test]
fn moved_bands_are_rebuilt_once() {
    let (mut source, _) = EqSource::new(2, 44100);
    let mut gains = [0.0; EQ_BANDS];
    gains[0] = 3.0;
    gains[4] = -6.0;
    gains[7] = 0.009;
    let on = snapshot(&source, true, gains);
    let step = source.next(Some(7), Some(on)).unwrap();
    assert_eq!(step.sample, 7);
    assert_eq!(step.lane, Lane::Left);
    assert_eq!(step.rebuild, vec![band_filter(0, double(3.0)), band_filter(4, double(-6.0))]);
    assert_eq!(gains_at(&source), gains);

    let again = snapshot(&source, true, gains);
    let step = source.next(Some(8), Some(again)).unwrap();
    assert_eq!(step.lane, Lane::Right);
    assert!(step.rebuild.is_empty());

    let step = source.next(Some(9), None).unwrap();
    assert_eq!(step.lane, Lane::Left);
    assert!(step.rebuild.is_empty());
}

#[test]
fn a_gain_that_is_no_number_is_rebuilt_at_every_sample() {
    let (mut source, _) = EqSource::new(1, 44100);
    let mut gains = [0.0; EQ_BANDS];
    gains[2] = f64::NAN;
    for _ in 0..3 {
        let on = snapshot(&source, true, gains);
        let step = source.next(Some(0), Some(on)).unwrap();
        assert_eq!(step.rebuild.len(), 1);
        assert_eq!(step.rebuild[0].band, 2);
        assert_eq!(step.lane, Lane::Left);
    }
}

#[test]
fn coefficients_follow_the_step() {
    let (mut source, _) = EqSource::new(2, 44100);
    let gains = [double(1.0); EQ_BANDS];
    let mut moves = [double(0.0); EQ_BANDS];
    moves[3] = double(-0.01);
    moves[5] = double(0.0099999);
    let moved = source.update_coefficients(&gains, &moves);
    assert_eq!(moved, vec![band_filter(3, double(1.0))]);
    assert_eq!(source.cached_gains, gains);
}

#[test]
fn the_same_gains_again_build_nothing() {
    let (mut source, _) = EqSource::new(2, 44100);
    let mut gains = [0.0; EQ_BANDS];
    gains[1] = 12.0;
    gains[9] = -0.1;
    let first = snapshot(&source, true, gains);
    assert_eq!(source.update_coefficients(&first.gains, &first.moves).len(), 2);
    let second = snapshot(&source, true, gains);
    assert!(source.update_coefficients(&second.gains, &second.moves).is_empty());
    assert_eq!(gains_at(&source), gains);
}

#[test]
fn the_end_of_a_track_changes_nothing() {
    let (mut source, _) = EqSource::new(2, 44100);
    let on = snapshot(&source, true, [3.0; EQ_BANDS]);
    assert!(source.next(None, Some(on)).is_none());
    assert_eq!(source.current_channel, 0);
    assert!(!source.cached_enabled);
    assert_eq!(gains_at(&source), [0.0; EQ_BANDS]);
    let given = [Some(1), None, Some(2), None, None, Some(3)];
    let passed: Vec<u32> =
        given.iter().filter_map(|s| source.next(*s, None)).map(|step| step.sample).collect();
    assert_eq!(passed, vec![1, 2, 3]);
    assert_eq!(source.current_channel, 1);
}

/// What a stereo track with these samples plays, through filters that sum up what has run
/// through their lane.
fn played(samples: &[u32]) -> Vec<u32> {
    let (mut source, _) = EqSource::new(2, 44100);
    let (mut left, mut right) = (0, 0);
    let mut out = Vec::new();
    for sample in samples {
        let on = snapshot(&source, true, [0.0; EQ_BANDS]);
        let step = source.next(Some(*sample), Some(on)).unwrap();
        match step.lane {
            Lane::Bypass => out.push(step.sample),
            Lane::Left => {
                left += step.sample;
                out.push(left);
            }
            Lane::Right => {
                right += step.sample;
                out.push(right);
            }
        }
    }
    out
}

#[test]
fn the_sides_do_not_mix() {
    let a = played(&[1, 10, 2, 20, 3, 30]);
    let b = played(&[1, 50, 2, 60, 3, 70]);
    assert_eq!(a, vec![1, 10, 3, 30, 6, 60]);
    assert_eq!(b, vec![1, 50, 3, 110, 6, 180]);
}

#[test]
fn filtered_samples_are_limited() {
    assert_eq!(number(limit_sample(double(1.7))), 1.0);
    assert_eq!(number(limit_sample(double(-1.7))), -1.0);
    assert_eq!(number(limit_sample(double(0.3))), 0.3);
    assert!(number(limit_sample(double(f64::NAN))).is_nan());
}
