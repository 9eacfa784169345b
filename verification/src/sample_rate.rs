//! Preset audio sample rates offered by the interactive front end.

use vstd::prelude::*;

verus! {

/// A preset output sample rate, from telephone quality up to DVD quality.
#[derive(Clone, Copy, PartialEq, Eq, Structural, Debug)]
pub enum SampleRate {
    LOW,
    MEDIUM,
    HIGH,
    CD,
    DVD,
}

impl SampleRate {
    /// The sample rate in Hertz that this preset stands for.
    pub fn get_sample_rate(&self) -> (r: u32)
        ensures
            r == self.spec_sample_rate(),
            r > 0,
    {
        match self {
            SampleRate::LOW => 8000,
            SampleRate::MEDIUM => 16000,
            SampleRate::HIGH => 32000,
            SampleRate::CD => 44100,
            SampleRate::DVD => 48000,
        }
    }

    /// The preset's display label, as the front end shows it.
    pub fn label(&self) -> (r: &'static str)
        ensures
            r@ == self.spec_label(),
    {
        match self {
            SampleRate::LOW => "8kHz",
            SampleRate::MEDIUM => "16kHz",
            SampleRate::HIGH => "32kHz",
            SampleRate::CD => "44.1kHz",
            SampleRate::DVD => "48kHz",
        }
    }

    /// The display label of each preset.
    pub open spec fn spec_label(self) -> Seq<char> {
        match self {
            SampleRate::LOW => "8kHz"@,
            SampleRate::MEDIUM => "16kHz"@,
            SampleRate::HIGH => "32kHz"@,
            SampleRate::CD => "44.1kHz"@,
            SampleRate::DVD => "48kHz"@,
        }
    }

    /// The rate in Hertz of each preset.
    pub open spec fn spec_sample_rate(self) -> u32 {
        match self {
            SampleRate::LOW => 8000,
            SampleRate::MEDIUM => 16000,
            SampleRate::HIGH => 32000,
            SampleRate::CD => 44100,
            SampleRate::DVD => 48000,
        }
    }
}

} // verus!
