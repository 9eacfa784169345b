//! CP-16 glyph-to-spectrogram audio encoder.
//!
//! Encodes text into a mono 16-bit PCM signal built from up to 16
//! simultaneously keyed sine tones, arranged so that a spectrogram of the
//! audio reproduces the pixel bitmap of each character's font glyph.

pub mod cp_16_generator;
pub mod glyph;
pub mod sample_rate;
pub mod sine_wave_generator;
