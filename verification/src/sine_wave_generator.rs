//! A fixed-frequency sine-tone oscillator producing signed 16-bit PCM samples.
//!
//! The phase of the oscillator is kept in fixed point: one full period of
//! the wave is `2^32` phase units, so the phase accumulator wraps through
//! the wave's periodicity by plain `u32` wraparound.  The phase advance per
//! sample for a tone of frequency `f` at sample rate `s` is
//! `f / s` of a turn, that is `f * 2^32 / s` phase units.
//!
//! The sine value itself is evaluated by an integer rational approximation
//! on each half period (exact at the zero crossings and at the peaks), so
//! the whole oscillator is plain integer arithmetic.

use vstd::arithmetic::div_mod::{lemma_div_by_multiple, lemma_div_is_ordered};
use vstd::prelude::*;

verus! {

/// One full turn of oscillator phase, in phase units.
pub const PHASE_TURN: u64 = 0x1_0000_0000;

/// Half a turn of oscillator phase, in phase units.
pub const PHASE_HALF_TURN: u32 = 0x8000_0000;

/// The peak amplitude of a generated tone.
pub const MAX_AMPLITUDE: i16 = 32767;

/// The sample value of the sine wave at the given phase, where one full
/// period of the wave is `2^32` phase units.
///
/// On each half period the wave is the rational approximation
/// `16 t (1 - t) / (5 - 4 t (1 - t))` of `sin(pi t)`, scaled to peak
/// amplitude 32767, with `t` the position within the half period; the
/// second half period is the negation of the first.  The value is `0`
/// exactly at phase `0` and at the half-turn phase, and `32767` exactly a
/// quarter turn after phase `0`.
pub open spec fn spec_sine_sample(phase: u32) -> int {
    let q = (phase as int) % 0x8000_0000;
    let a = q * (0x8000_0000 - q) / 0x8000_0000;
    let mag = (16 * a * 32767) / (5 * 0x8000_0000 - 4 * a);
    if phase >= 0x8000_0000 {
        -mag
    } else {
        mag
    }
}

/// Evaluates the sine wave at the given phase.
pub fn sine_sample(phase: u32) -> (r: i16)
    ensures
        r as int == spec_sine_sample(phase),
        -MAX_AMPLITUDE <= r <= MAX_AMPLITUDE,
{
    let q: u64 = (phase % 0x8000_0000) as u64;
    proof {
        assert(q * (0x8000_0000 - q) <= 0x1000_0000_0000_0000) by (nonlinear_arith)
            requires
                0 <= q < 0x8000_0000,
        {
            assert((0x4000_0000 - q) * (0x4000_0000 - q) >= 0);
        }
    }
    let a: u64 = q * (0x8000_0000 - q) / 0x8000_0000;
    proof {
        lemma_div_is_ordered(
            q as int * (0x8000_0000 - q as int),
            0x1000_0000_0000_0000,
            0x8000_0000,
        );
        assert(a <= 0x2000_0000);
    }
    let num: u64 = 16 * a * 32767;
    let den: u64 = 5 * 0x8000_0000 - 4 * a;
    let mag: u64 = num / den;
    proof {
        assert(num <= 32767 * den as int) by (nonlinear_arith)
            requires
                num == 16 * a * 32767,
                den == 5 * 0x8000_0000 - 4 * a,
                a <= 0x2000_0000,
        ;
        lemma_div_is_ordered(num as int, 32767 * den as int, den as int);
        lemma_div_by_multiple(32767, den as int);
        assert(mag <= 32767);
    }
    if phase >= 0x8000_0000 {
        -(mag as i16)
    } else {
        mag as i16
    }
}

/// A sine-wave sample generator: one tone channel of the encoder.
///
/// Construction fixes the phase advance per sample; afterwards only the
/// current phase mutates, each time a sample is pulled.
#[derive(Clone, Copy, PartialEq, Eq, Structural, Debug)]
pub struct SineWaveGenerator {
    /// The phase advance between two consecutive samples, in `1/2^32`
    /// turn units: `frequency * 2^32 / sample_rate`.
    pub phase_per_sample: u32,

    /// The current phase, in `1/2^32` turn units.
    pub phase: u32,
}

/// The phase advance per sample for a tone of the given frequency at the
/// given sample rate, in `1/2^32` turn units.
pub open spec fn spec_phase_step(frequency: int, sample_rate: int) -> int
    recommends
        sample_rate > 0,
{
    frequency * 0x1_0000_0000 / sample_rate
}

impl SineWaveGenerator {
    /// The generator as it stands after one sample has been pulled: the
    /// phase has advanced by one step, wrapping through the period.
    pub open spec fn spec_advanced(self) -> SineWaveGenerator {
        SineWaveGenerator {
            phase_per_sample: self.phase_per_sample,
            phase: self.phase.wrapping_add(self.phase_per_sample),
        }
    }

    /// Creates a generator for a tone of `frequency` Hz sampled at
    /// `sample_rate` Hz, starting at phase `0`.
    ///
    /// The frequency must respect the Nyquist limit of half the sample
    /// rate, so the phase step is at most half a turn per sample.
    pub fn new(frequency: u32, sample_rate: u32) -> (r: SineWaveGenerator)
        requires
            sample_rate > 0,
            frequency <= sample_rate / 2,
        ensures
            r.phase == 0,
            r.phase_per_sample == spec_phase_step(frequency as int, sample_rate as int),
            r.phase_per_sample <= PHASE_HALF_TURN,
    {
        proof {
            assert(2 * (frequency as int) <= sample_rate as int);
            assert(frequency as int * 0x1_0000_0000 <= sample_rate as int * 0x8000_0000)
                by (nonlinear_arith)
                requires
                    2 * (frequency as int) <= sample_rate as int,
            ;
            lemma_div_is_ordered(
                frequency as int * 0x1_0000_0000,
                sample_rate as int * 0x8000_0000,
                sample_rate as int,
            );
            assert(sample_rate as int * 0x8000_0000 == 0x8000_0000 * sample_rate as int);
            lemma_div_by_multiple(0x8000_0000, sample_rate as int);
        }
        let step: u64 = (frequency as u64) * PHASE_TURN / (sample_rate as u64);
        SineWaveGenerator { phase_per_sample: step as u32, phase: 0 }
    }

    /// Pulls the next sample of the tone: the sine value at the current
    /// phase, after which the phase advances by one step.  The sequence of
    /// samples is infinite, so the result is always `Some`.
    pub fn next(&mut self) -> (r: Option<i16>)
        ensures
            r == Some((spec_sine_sample(old(self).phase) as i16)),
            *final(self) == old(self).spec_advanced(),
            -32767 <= spec_sine_sample(old(self).phase) <= 32767,
    {
        let s = sine_sample(self.phase);
        self.phase = self.phase.wrapping_add(self.phase_per_sample);
        Some(s)
    }
}

} // verus!
