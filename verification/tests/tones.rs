use cp16::sample_rate::SampleRate;
use cp16::sine_wave_generator::{sine_sample, SineWaveGenerator};

#[test]
fn sine_is_exact_at_crossings_and_peaks() {
    assert_eq!(sine_sample(0), 0);
    assert_eq!(sine_sample(0x4000_0000), 32767);
    assert_eq!(sine_sample(0x8000_0000), 0);
    assert_eq!(sine_sample(0xC000_0000), -32767);
}

#[test]
fn sine_is_odd_around_the_half_turn() {
    for k in 0..64u32 {
        let p = k << 25;
        assert_eq!(sine_sample(p), -sine_sample(p.wrapping_add(0x8000_0000)));
    }
}

#[test]
fn sine_stays_within_amplitude() {
    for k in 0..4096u32 {
        let s = sine_sample(k << 20);
        assert!(-32767 <= s && s <= 32767);
    }
}

#[test]
fn sine_approximates_the_true_wave() {
    // Against the floating-point reference, the rational approximation
    // stays within a fraction of a percent of full scale.
    for k in 0..1024u32 {
        let p = k << 22;
        let t = p as f64 / 4294967296.0 * 2.0 * std::f64::consts::PI;
        let reference = (t.sin() * 32767.0).round() as i32;
        let got = sine_sample(p) as i32;
        assert!((got - reference).abs() <= 60, "phase {}: {} vs {}", p, got, reference);
    }
}

#[test]
fn generator_advances_a_quarter_turn_per_sample() {
    // 2000 Hz at 8000 Hz sampling: a quarter turn per sample, so the
    // samples cycle 0, peak, 0, -peak.
    let mut g = SineWaveGenerator::new(2000, 8000);
    assert_eq!(g.phase_per_sample, 0x4000_0000);
    assert_eq!(g.next(), Some(0));
    assert_eq!(g.next(), Some(32767));
    assert_eq!(g.next(), Some(0));
    assert_eq!(g.next(), Some(-32767));
    assert_eq!(g.next(), Some(0));
}

#[test]
fn generator_phase_step_is_proportional() {
    let g = SineWaveGenerator::new(1000, 8000);
    assert_eq!(g.phase_per_sample, 0x2000_0000);
    assert_eq!(g.phase, 0);
    let h = SineWaveGenerator::new(4000, 8000);
    assert_eq!(h.phase_per_sample, 0x8000_0000);
}

#[test]
fn sample_rate_presets() {
    assert_eq!(SampleRate::LOW.get_sample_rate(), 8000);
    assert_eq!(SampleRate::MEDIUM.get_sample_rate(), 16000);
    assert_eq!(SampleRate::HIGH.get_sample_rate(), 32000);
    assert_eq!(SampleRate::CD.get_sample_rate(), 44100);
    assert_eq!(SampleRate::DVD.get_sample_rate(), 48000);
}
