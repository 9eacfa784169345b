//! The CP-16 encoder: a glyph-raster sequencer over 16 sine-tone channels.
//!
//! The encoder owns 16 tone channels, one per frequency slot, and the
//! ordered glyph bitmaps of the input text.  Pulled sample by sample, it
//! walks each glyph row by row; at every sample it keys the channels whose
//! slot maps to a set pixel of the current row, sums one sample from each
//! keyed channel (unkeyed channels hold their phase), and emits the sum
//! scaled down to half level.  After each glyph's data rows one silent
//! spacer row is emitted, so the glyphs stand apart on a spectrogram.

use crate::glyph::{lemma_resolve_seq_push, resolve_glyph, spec_resolve, spec_resolve_seq, Glyph,
    GlyphBits};
use crate::sine_wave_generator::{spec_phase_step, spec_sine_sample, SineWaveGenerator};
use vstd::arithmetic::div_mod::{lemma_div_by_multiple, lemma_div_is_ordered};
use vstd::arithmetic::mul::lemma_mul_upper_bound;
use vstd::prelude::*;

verus! {

/// The error of constructing an encoder whose highest derived tone
/// frequency would exceed half the sample rate.
#[derive(Clone, Copy, PartialEq, Eq, Structural, Debug)]
pub struct OutOfMaxFrequencyException;

impl OutOfMaxFrequencyException {
    /// A description of the error.
    pub fn message(&self) -> (r: &'static str)
        ensures
            r@ == "provided start_freq and step will exceed the maximum frequency limit specified by sample_rate"@,
    {
        "provided start_freq and step will exceed the maximum frequency limit specified by sample_rate"
    }
}

/// Why constructing an encoder failed.
#[derive(Clone, Copy, PartialEq, Eq, Structural, Debug)]
pub enum CP16Error {
    /// A derived tone frequency exceeds half the sample rate.
    OutOfMaxFrequency(OutOfMaxFrequencyException),
    /// The text is not empty, yet not one of its characters resolved to a
    /// glyph: nothing could be rendered.
    EmptyGlyphSequence,
}

impl CP16Error {
    /// The description of each failure.
    pub open spec fn spec_message(self) -> Seq<char> {
        match self {
            CP16Error::OutOfMaxFrequency(_) => "provided start_freq and step will exceed the maximum frequency limit specified by sample_rate"@,
            CP16Error::EmptyGlyphSequence => "no character of the provided text resolved to a glyph"@,
        }
    }

    /// A description of the error.
    pub fn message(&self) -> (r: &'static str)
        ensures
            r@ == self.spec_message(),
    {
        match self {
            CP16Error::OutOfMaxFrequency(e) => e.message(),
            CP16Error::EmptyGlyphSequence => "no character of the provided text resolved to a glyph",
        }
    }
}

/// The tone frequency of slot `i`: the start frequency plus `i` steps.
pub open spec fn spec_tone_freq(start_freq: int, step: int, i: int) -> int {
    start_freq + i * step
}

/// Whether every one of the 16 derived tone frequencies respects the
/// Nyquist limit of half the sample rate.
pub open spec fn spec_freqs_ok(start_freq: int, step: int, sample_rate: int) -> bool {
    forall|i: int|
        0 <= i < 16 ==> #[trigger] spec_tone_freq(start_freq, step, i) <= sample_rate / 2
}

/// The number of columns a glyph is inset by, so that it renders centered
/// within the 16 tone slots: 4 for a halfwidth glyph shown upright on the
/// waterfall, otherwise 0.
pub open spec fn spec_padding(g: Glyph, vertical: bool) -> int {
    if vertical && !g.fullwidth {
        4
    } else {
        0
    }
}

/// The slot index one past the last rendered column of a glyph: the glyph
/// width plus its inset when shown upright, all 16 slots otherwise.
pub open spec fn spec_range_end(g: Glyph, vertical: bool) -> int {
    if vertical {
        g.spec_width() + spec_padding(g, vertical)
    } else {
        16
    }
}

/// The number of data rows rendered for a glyph: its 16 bitmap rows when
/// shown upright, one row per bitmap column when rotated sideways.
pub open spec fn spec_line_count(g: Glyph, vertical: bool) -> int {
    if vertical {
        16
    } else {
        g.spec_width() + spec_padding(g, vertical)
    }
}

/// The number of samples a glyph takes: its data rows plus the one silent
/// spacer row, each rendered for `samples_per_line` samples.
pub open spec fn glyph_samples(g: Glyph, vertical: bool, samples_per_line: int) -> int {
    (spec_line_count(g, vertical) + 1) * samples_per_line
}

/// The total number of samples a sequence of glyphs takes: the sum over
/// the glyphs of `(line_count + 1) * samples_per_line`.
pub open spec fn spec_total_samples(glyphs: Seq<Glyph>, vertical: bool, samples_per_line: int) -> int
    decreases glyphs.len(),
{
    if glyphs.len() == 0 {
        0
    } else {
        glyph_samples(glyphs[0], vertical, samples_per_line) + spec_total_samples(
            glyphs.drop_first(),
            vertical,
            samples_per_line,
        )
    }
}

/// With no samples per row, no glyph takes any samples.
pub proof fn lemma_total_samples_zero_rate(glyphs: Seq<Glyph>, vertical: bool)
    ensures
        spec_total_samples(glyphs, vertical, 0) == 0,
    decreases glyphs.len(),
{
    if glyphs.len() > 0 {
        lemma_total_samples_zero_rate(glyphs.drop_first(), vertical);
    }
}

/// The glyph data of a text, in rendering order: the resolved glyphs of
/// its characters, reversed if reverse mode is set (the last character of
/// the input is rendered first).
pub open spec fn spec_glyph_seq(text: Seq<char>, reverse: bool) -> Seq<GlyphBits> {
    if reverse {
        spec_resolve_seq(text).reverse()
    } else {
        spec_resolve_seq(text)
    }
}

/// Reverse mode yields exactly the glyph sequence that resolving the
/// character-reversed text without reverse mode yields.
pub proof fn lemma_reverse_mode(text: Seq<char>)
    ensures
        spec_glyph_seq(text, true) == spec_glyph_seq(text.reverse(), false),
    decreases text.len(),
{
    if text.len() == 0 {
        assert(text.reverse() =~= text);
        assert(spec_resolve_seq(text).reverse() =~= spec_resolve_seq(text));
    } else {
        let init = text.drop_last();
        let last = text.last();
        lemma_reverse_mode(init);
        assert(text =~= init.push(last));
        lemma_resolve_seq_push(init, last);
        let tail = match spec_resolve(last) {
            Some(g) => seq![g],
            None => Seq::<GlyphBits>::empty(),
        };
        assert(spec_resolve_seq(text) == spec_resolve_seq(init) + tail);
        // The reversed text starts with the last character and continues
        // with the reversed initial part.
        assert(text.reverse()[0] == last);
        assert(text.reverse().drop_first() =~= init.reverse());
        match spec_resolve(last) {
            Some(g) => {
                assert(spec_resolve_seq(text.reverse()) == seq![g] + spec_resolve_seq(
                    init.reverse(),
                ));
            },
            None => {
                assert(spec_resolve_seq(text.reverse()) == spec_resolve_seq(init.reverse()));
            },
        }
        assert(spec_resolve_seq(text).reverse() =~= tail + spec_resolve_seq(init).reverse());
    }
}

/// The CP-16 sample generator for one text.
///
/// A strict forward-only cursor: each pulled sample advances the
/// intra-row sample counter, which rolls over into the row index, which
/// rolls over into the glyph index; once the glyph index has moved past
/// the last glyph the generator is exhausted for good.
pub struct CP16Generator {
    /// The 16 sine-tone channels, one per frequency slot.
    pub freqs: Vec<SineWaveGenerator>,

    /// The resolved glyphs of the text, in rendering order.
    pub text_glyph: Vec<Glyph>,

    /// The index of the glyph being rendered.
    pub char_pos: usize,

    /// The first slot the current glyph renders into.
    pub start_padding: usize,

    /// One past the last slot the current glyph renders into.
    pub range_end: usize,

    /// The row being rendered, counted from the glyph's top; the value
    /// `line_count` stands for the silent spacer row.
    pub iter_index: usize,

    /// How many samples of the current row have been emitted.
    pub current_sample: u64,

    /// How many samples each row is rendered for.
    pub samples_per_line: u64,

    /// Whether glyphs are shown upright on the waterfall (`true`) or
    /// rotated 90 degrees for a horizontal spectrogram (`false`).
    pub is_vertical_display_on_waterfall: bool,

    /// The number of data rows of the current glyph.
    pub line_count: usize,
}

impl CP16Generator {
    /// The glyph under the cursor.
    pub open spec fn cur_glyph(self) -> Glyph {
        self.text_glyph@[self.char_pos as int]
    }

    /// Whether the generator has moved past its last glyph.
    pub open spec fn spec_exhausted(self) -> bool {
        self.char_pos >= self.text_glyph@.len()
    }

    /// The generator's invariant: 16 channels, well-formed glyphs, and,
    /// while glyphs remain, per-glyph derived parameters that match the
    /// current glyph and in-range row and sample cursors.
    pub open spec fn wf(self) -> bool {
        let v = self.is_vertical_display_on_waterfall;
        &&& self.freqs@.len() == 16
        &&& (forall|i: int| 0 <= i < self.text_glyph@.len() ==> (#[trigger] self.text_glyph@[i]).wf())
        &&& self.char_pos <= self.text_glyph@.len()
        &&& (!self.spec_exhausted() ==> {
            &&& self.samples_per_line >= 1
            &&& self.start_padding == spec_padding(self.cur_glyph(), v)
            &&& self.range_end == spec_range_end(self.cur_glyph(), v)
            &&& self.line_count == spec_line_count(self.cur_glyph(), v)
            &&& self.iter_index <= self.line_count
            &&& self.current_sample < self.samples_per_line
        })
    }

    /// Whether slot `x` renders a pixel of the current row: the row is a
    /// data row, `x` lies in the glyph's rendered slot range, and the
    /// pixel the slot maps to is set.  Upright, slot `x` reads bitmap
    /// column `x - start_padding` of row `iter_index`; rotated, it reads
    /// bitmap row `16 - x` of column `iter_index`.
    pub open spec fn spec_keyed(self, x: int) -> bool {
        self.iter_index < self.line_count && self.spec_line(x)
    }

    /// The pixel that slot `x` maps to in the current row, read as unset
    /// outside the glyph's slot range (and on the spacer row, where the
    /// mapped coordinates leave the bitmap).
    pub open spec fn spec_line(self, x: int) -> bool {
        let g = self.cur_glyph();
        let pad = self.start_padding as int;
        &&& pad <= x < self.range_end as int
        &&& if self.is_vertical_display_on_waterfall {
            g.spec_pixel(x - pad, self.iter_index as int)
        } else {
            g.spec_pixel(self.iter_index as int - pad, 16 - x)
        }
    }

    /// The sum of one sample from each keyed channel among slots below
    /// `x`.
    pub open spec fn spec_row_sum(self, x: int) -> int
        decreases x,
    {
        if x <= self.start_padding as int {
            0
        } else {
            self.spec_row_sum(x - 1) + if self.spec_keyed(x - 1) {
                spec_sine_sample(self.freqs@[x - 1].phase)
            } else {
                0
            }
        }
    }

    /// The sample the generator emits in its current state: the keyed
    /// channels' sum divided by twice the glyph width (half level),
    /// rounded toward zero.
    pub open spec fn spec_out(self) -> int {
        let sum = self.spec_row_sum(self.range_end as int);
        let d = 2 * self.cur_glyph().spec_width();
        if sum >= 0 {
            sum / d
        } else {
            -((-sum) / d)
        }
    }

    /// Channel `x` as it stands after one sample: advanced by one phase
    /// step if it was keyed, untouched otherwise.
    pub open spec fn spec_channel_after(self, x: int) -> SineWaveGenerator {
        if self.spec_keyed(x) {
            self.freqs@[x].spec_advanced()
        } else {
            self.freqs@[x]
        }
    }

    /// The `(char_pos, iter_index, current_sample)` cursor after one
    /// sample: the sample counter advances; when it reaches the row
    /// length the row index advances; when that passes the spacer row the
    /// cursor moves to the next glyph.
    pub open spec fn spec_next_cursor(self) -> (int, int, int) {
        let cs = self.current_sample as int + 1;
        if cs < self.samples_per_line as int {
            (self.char_pos as int, self.iter_index as int, cs)
        } else if self.iter_index as int + 1 <= self.line_count as int {
            (self.char_pos as int, self.iter_index as int + 1, 0)
        } else {
            (self.char_pos as int + 1, 0, 0)
        }
    }

    /// How many more samples the generator will emit: for the current
    /// glyph, its unfinished rows; then every remaining glyph in full.
    pub open spec fn remaining(self) -> int {
        if self.spec_exhausted() {
            0
        } else {
            spec_total_samples(
                self.text_glyph@.skip(self.char_pos as int + 1),
                self.is_vertical_display_on_waterfall,
                self.samples_per_line as int,
            ) + (self.line_count as int + 1 - self.iter_index as int) * (
            self.samples_per_line as int) - self.current_sample as int
        }
    }

    /// Builds a generator for `text`.
    ///
    /// The 16 tone frequencies are `start_freq + i * step` for slots
    /// `i` in `0..16`; construction fails, before anything is built, if
    /// any of them exceeds half the sample rate.  Each character resolves
    /// to its glyph (a missing one to the fallback glyph), in reverse
    /// input order if `is_reverse` is set; nonempty text none of whose
    /// characters resolves to any glyph is a construction error, while
    /// empty text builds a generator that emits the empty signal.  Each
    /// bitmap row is rendered for `sample_rate / 16 * time_per_font_ms
    /// / 1000` samples, rounded down.
    #[verifier::loop_isolation(false)]
    pub fn new(
        text: &str,
        start_freq: u32,
        step: u32,
        sample_rate: u32,
        is_vertical_display_on_waterfall: bool,
        time_per_font_ms: u32,
        is_reverse: bool,
    ) -> (r: Result<CP16Generator, CP16Error>)
        requires
            sample_rate > 0,
        ensures
            (r is Ok) <==> (spec_freqs_ok(start_freq as int, step as int, sample_rate as int) && !(
            text@.len() > 0 && spec_resolve_seq(text@).len() == 0)),
            (r matches Err(CP16Error::OutOfMaxFrequency(_))) <==> !spec_freqs_ok(
                start_freq as int,
                step as int,
                sample_rate as int,
            ),
            (r matches Err(CP16Error::EmptyGlyphSequence)) <==> (spec_freqs_ok(
                start_freq as int,
                step as int,
                sample_rate as int,
            ) && text@.len() > 0 && spec_resolve_seq(text@).len() == 0),
            r is Ok ==> {
                let e = r.unwrap();
                &&& e.wf()
                &&& e.is_vertical_display_on_waterfall == is_vertical_display_on_waterfall
                &&& e.samples_per_line == sample_rate as int * time_per_font_ms as int / 16000
                &&& e.freqs@.len() == 16
                &&& (forall|i: int|
                    0 <= i < 16 ==> ((#[trigger] e.freqs@[i]).phase == 0 && e.freqs@[i].phase_per_sample
                        == spec_phase_step(
                        spec_tone_freq(start_freq as int, step as int, i),
                        sample_rate as int,
                    )))
                &&& e.text_glyph@.map_values(|g: Glyph| g.bits()) == spec_glyph_seq(
                    text@,
                    is_reverse,
                )
                &&& e.iter_index == 0
                &&& e.current_sample == 0
                &&& (e.spec_exhausted() <==> (e.text_glyph@.len() == 0 || e.samples_per_line == 0))
                &&& e.char_pos == if e.text_glyph@.len() == 0 || e.samples_per_line == 0 {
                    e.text_glyph@.len() as int
                } else {
                    0
                }
                &&& e.remaining() == spec_total_samples(
                    e.text_glyph@,
                    is_vertical_display_on_waterfall,
                    e.samples_per_line as int,
                )
            },
    {
        let max_freq = sample_rate / 2;
        // Validate every derived frequency against the Nyquist limit
        // before any channel is built: construction is all-or-nothing.
        let mut i: usize = 0;
        while i < 16
            invariant
                i <= 16,
                forall|j: int|
                    0 <= j < i ==> #[trigger] spec_tone_freq(start_freq as int, step as int, j)
                        <= max_freq as int,
            decreases 16 - i,
        {
            proof {
                lemma_mul_upper_bound(i as int, 15, step as int, 0xFFFF_FFFF);
            }
            let f: u64 = start_freq as u64 + (i as u64) * (step as u64);
            if f > max_freq as u64 {
                proof {
                    assert(!(spec_tone_freq(start_freq as int, step as int, i as int)
                        <= sample_rate as int / 2));
                    assert(!spec_freqs_ok(start_freq as int, step as int, sample_rate as int));
                }
                return Err(CP16Error::OutOfMaxFrequency(OutOfMaxFrequencyException));
            }
            i += 1;
        }

        let mut freqs: Vec<SineWaveGenerator> = Vec::new();
        let mut i: usize = 0;
        while i < 16
            invariant
                i <= 16,
                sample_rate > 0,
                freqs@.len() == i,
                forall|j: int|
                    0 <= j < 16 ==> #[trigger] spec_tone_freq(start_freq as int, step as int, j)
                        <= sample_rate as int / 2,
                forall|j: int|
                    0 <= j < i ==> ((#[trigger] freqs@[j]).phase == 0 && freqs@[j].phase_per_sample
                        == spec_phase_step(
                        spec_tone_freq(start_freq as int, step as int, j),
                        sample_rate as int,
                    )),
            decreases 16 - i,
        {
            proof {
                lemma_mul_upper_bound(i as int, 15, step as int, 0xFFFF_FFFF);
                assert(spec_tone_freq(start_freq as int, step as int, i as int) <= sample_rate as int
                    / 2);
            }
            let f: u64 = start_freq as u64 + (i as u64) * (step as u64);
            freqs.push(SineWaveGenerator::new(f as u32, sample_rate));
            i += 1;
        }

        // Resolve the glyphs in rendering order.
        let n = text.unicode_len();
        let mut text_glyph: Vec<Glyph> = Vec::new();
        if is_reverse {
            let mut i = n;
            while i > 0
                invariant
                    i <= n,
                    n == text@.len(),
                    forall|k: int| 0 <= k < text_glyph@.len() ==> (#[trigger] text_glyph@[k]).wf(),
                    text_glyph@.map_values(|g: Glyph| g.bits()) == spec_resolve_seq(
                        text@.skip(i as int),
                    ).reverse(),
                decreases i,
            {
                i -= 1;
                let c = text.get_char(i);
                let ghost pre = text_glyph@;
                if let Some(g) = resolve_glyph(c) {
                    text_glyph.push(g);
                }
                proof {
                    lemma_skip_reverse_step(text@, i as int, pre, text_glyph@);
                }
            }
            proof {
                assert(text@.skip(0) =~= text@);
            }
        } else {
            let mut i: usize = 0;
            while i < n
                invariant
                    i <= n,
                    n == text@.len(),
                    forall|k: int| 0 <= k < text_glyph@.len() ==> (#[trigger] text_glyph@[k]).wf(),
                    text_glyph@.map_values(|g: Glyph| g.bits()) == spec_resolve_seq(
                        text@.take(i as int),
                    ),
                decreases n - i,
            {
                let c = text.get_char(i);
                let ghost pre = text_glyph@;
                if let Some(g) = resolve_glyph(c) {
                    text_glyph.push(g);
                }
                proof {
                    assert(text@.take(i + 1) =~= text@.take(i as int).push(text@[i as int]));
                    lemma_resolve_seq_push(text@.take(i as int), text@[i as int]);
                    lemma_map_push(pre, text_glyph@, spec_resolve(text@[i as int]));
                }
                i += 1;
            }
            proof {
                assert(text@.take(n as int) =~= text@);
            }
        }

        proof {
            assert(spec_resolve_seq(text@).reverse().len() == spec_resolve_seq(text@).len());
            assert(spec_glyph_seq(text@, is_reverse).len() == spec_resolve_seq(text@).len());
            assert(text_glyph@.len() == spec_resolve_seq(text@).len());
        }

        // Nonempty text none of whose characters resolved to any glyph
        // leaves nothing to render: that asks for a signal and can give
        // none, so it is a construction error.  Empty text asks for the
        // empty signal, which the generator below emits.
        if n > 0 && text_glyph.len() == 0 {
            return Err(CP16Error::EmptyGlyphSequence);
        }

        proof {
            lemma_mul_upper_bound(sample_rate as int, 0xFFFF_FFFF, time_per_font_ms as int,
                0xFFFF_FFFF);
        }
        let samples_per_line: u64 = (sample_rate as u64) * (time_per_font_ms as u64) / 16000u64;

        // An empty glyph sequence, or a row length of zero samples, leaves
        // nothing to emit: the generator starts out exhausted.
        let len = text_glyph.len();
        if len == 0 || samples_per_line == 0 {
            proof {
                if samples_per_line == 0 {
                    lemma_total_samples_zero_rate(
                        text_glyph@,
                        is_vertical_display_on_waterfall,
                    );
                }
            }
            return Ok(
                CP16Generator {
                    freqs,
                    text_glyph,
                    char_pos: len,
                    start_padding: 0,
                    range_end: 0,
                    iter_index: 0,
                    current_sample: 0,
                    samples_per_line,
                    is_vertical_display_on_waterfall,
                    line_count: 0,
                },
            );
        }

        // Derive the rendering parameters of the first glyph.
        let first = &text_glyph[0];
        let start_padding: usize = if is_vertical_display_on_waterfall && !first.is_fullwidth() {
            4
        } else {
            0
        };
        let range_end: usize = if is_vertical_display_on_waterfall {
            first.get_width() + start_padding
        } else {
            16
        };
        let line_count: usize = if is_vertical_display_on_waterfall {
            16
        } else {
            first.get_width() + start_padding
        };
        let e = CP16Generator {
            freqs,
            text_glyph,
            char_pos: 0,
            start_padding,
            range_end,
            iter_index: 0,
            current_sample: 0,
            samples_per_line,
            is_vertical_display_on_waterfall,
            line_count,
        };
        proof {
            assert(e.text_glyph@.skip(1) =~= e.text_glyph@.drop_first());
        }
        Ok(e)
    }

    /// Reads the pixel row (upright) or pixel column (rotated) that the
    /// current cursor position renders, as one flag per tone slot: slot
    /// `x` is set exactly where it would key its tone channel on a data
    /// row.  On the spacer row every slot reads unset.
    #[verifier::loop_isolation(false)]
    pub fn get_line(&self) -> (r: Vec<bool>)
        requires
            self.wf(),
            !self.spec_exhausted(),
        ensures
            r@.len() == 16,
            forall|x: int| 0 <= x < 16 ==> r@[x] == self.spec_line(x),
    {
        let mut line_info: Vec<bool> = Vec::new();
        let mut i: usize = 0;
        while i < 16
            invariant
                i <= 16,
                line_info@.len() == i,
                forall|j: int| 0 <= j < i ==> !line_info@[j],
            decreases 16 - i,
        {
            line_info.push(false);
            i += 1;
        }
        let g = &self.text_glyph[self.char_pos];
        let mut x = self.start_padding;
        while x < self.range_end
            invariant
                self.start_padding <= x <= 16,
                self.range_end <= 16,
                line_info@.len() == 16,
                forall|j: int|
                    self.start_padding <= j < x ==> line_info@[j] == self.spec_line(j),
                forall|j: int| 0 <= j < self.start_padding ==> !line_info@[j],
                forall|j: int| x <= j < 16 ==> !line_info@[j],
            decreases self.range_end - x,
        {
            let px = if self.is_vertical_display_on_waterfall {
                g.get_pixel(x - self.start_padding, self.iter_index)
            } else {
                g.get_pixel(self.iter_index - self.start_padding, 16 - x)
            };
            line_info.set(x, px);
            x += 1;
        }
        proof {
            assert forall|j: int| 0 <= j < 16 implies line_info@[j] == self.spec_line(j) by {
                if j < self.start_padding as int || j >= x as int {
                    assert(!self.spec_line(j));
                }
            }
        }
        line_info
    }

    /// Row sums agree between two generators whose channel states, glyph
    /// pixels, cursor and parameters agree.
    proof fn lemma_row_sum_congruent(self, other: CP16Generator, x: int)
        requires
            !self.spec_exhausted(),
            self.freqs@ == other.freqs@,
            self.text_glyph@.len() == other.text_glyph@.len(),
            self.cur_glyph().bits() == other.cur_glyph().bits(),
            self.char_pos == other.char_pos,
            self.start_padding == other.start_padding,
            self.range_end == other.range_end,
            self.iter_index == other.iter_index,
            self.is_vertical_display_on_waterfall == other.is_vertical_display_on_waterfall,
            self.line_count == other.line_count,
        ensures
            self.spec_row_sum(x) == other.spec_row_sum(x),
        decreases x,
    {
        if x > self.start_padding as int {
            self.lemma_row_sum_congruent(other, x - 1);
            assert(self.spec_keyed(x - 1) == other.spec_keyed(x - 1));
        }
    }

    /// On and after the spacer row nothing is keyed, so the row sum is
    /// zero.
    proof fn lemma_row_sum_spacer(self, x: int)
        requires
            self.iter_index >= self.line_count,
        ensures
            self.spec_row_sum(x) == 0,
        decreases x,
    {
        if x > self.start_padding as int {
            self.lemma_row_sum_spacer(x - 1);
            assert(!self.spec_keyed(x - 1));
        }
    }

    /// Pulls the next output sample.
    ///
    /// While glyphs remain, the result is the keyed channels' summed
    /// sample at half level; each keyed channel advances its phase, every
    /// other channel holds it, and the `(glyph, row, sample)` cursor
    /// advances by one sample, rolling over row by row and glyph by
    /// glyph.  On the spacer row after a glyph's data rows the sample is
    /// exactly zero.  Once the cursor has moved past the last glyph the
    /// generator reports exhaustion forever.
    #[verifier::loop_isolation(false)]
    pub fn next(&mut self) -> (r: Option<i16>)
        requires
            old(self).wf(),
        ensures
            final(self).wf(),
            (r is Some) <==> old(self).remaining() > 0,
            final(self).remaining() == if old(self).remaining() > 0 {
                old(self).remaining() - 1
            } else {
                0
            },
            old(self).spec_exhausted() ==> (r is None && *final(self) == *old(self)),
            !old(self).spec_exhausted() ==> {
                &&& r is Some
                &&& r.unwrap() as int == old(self).spec_out()
                &&& -32767 <= r.unwrap() as int <= 32767
                &&& final(self).text_glyph@ == old(self).text_glyph@
                &&& final(self).samples_per_line == old(self).samples_per_line
                &&& final(self).is_vertical_display_on_waterfall == old(
                    self,
                ).is_vertical_display_on_waterfall
                &&& final(self).freqs@.len() == 16
                &&& (forall|x: int|
                    0 <= x < 16 ==> final(self).freqs@[x] == old(self).spec_channel_after(x))
                &&& final(self).char_pos as int == old(self).spec_next_cursor().0
                &&& final(self).iter_index as int == old(self).spec_next_cursor().1
                &&& final(self).current_sample as int == old(self).spec_next_cursor().2
            },
            (!old(self).spec_exhausted() && old(self).iter_index == old(self).line_count) ==> r
                == Some(0i16),
    {
        // Past the last glyph the generator stays exhausted for good.
        if self.char_pos >= self.text_glyph.len() {
            return None;
        }

        let line_info = self.get_line();
        let mut sum_up: i32 = 0;

        // A data row keys the channels of its set pixels; the spacer row
        // keys none, leaving silence.
        if self.iter_index < self.line_count {
            let pad = self.start_padding;
            let end = self.range_end;
            let mut x = pad;
            while x < end
                invariant
                    pad <= x <= end,
                    self.text_glyph@ == old(self).text_glyph@,
                    self.char_pos == old(self).char_pos,
                    self.start_padding == old(self).start_padding,
                    self.range_end == old(self).range_end,
                    self.iter_index == old(self).iter_index,
                    self.current_sample == old(self).current_sample,
                    self.samples_per_line == old(self).samples_per_line,
                    self.is_vertical_display_on_waterfall == old(
                        self,
                    ).is_vertical_display_on_waterfall,
                    self.line_count == old(self).line_count,
                    self.freqs@.len() == 16,
                    forall|j: int|
                        0 <= j < 16 && !(pad <= j < x) ==> self.freqs@[j] == old(self).freqs@[j],
                    forall|j: int|
                        pad <= j < x ==> self.freqs@[j] == old(self).spec_channel_after(j),
                    sum_up as int == old(self).spec_row_sum(x as int),
                    -((x - pad) as int * 32767) <= sum_up as int <= (x - pad) as int * 32767,
                decreases end - x,
            {
                if line_info[x] {
                    let mut ch = self.freqs[x];
                    let s = ch.next().unwrap();
                    sum_up = sum_up + s as i32;
                    self.freqs.set(x, ch);
                    proof {
                        assert(old(self).spec_keyed(x as int));
                    }
                } else {
                    proof {
                        assert(!old(self).spec_keyed(x as int));
                    }
                }
                x += 1;
            }
        } else {
            proof {
                old(self).lemma_row_sum_spacer(old(self).range_end as int);
                assert forall|j: int| 0 <= j < 16 implies self.freqs@[j] == old(
                    self,
                ).spec_channel_after(j) by {
                    assert(!old(self).spec_keyed(j));
                }
            }
        }

        // Scale the sum down to half level: divide by twice the glyph
        // width, rounding toward zero.
        let w = self.text_glyph[self.char_pos].get_width();
        let divisor: u32 = (w as u32) * 2;
        proof {
            let sum = sum_up as int;
            let d = divisor as int;
            assert(old(self).range_end as int - old(self).start_padding as int <= d);
            assert(sum <= (old(self).range_end - old(self).start_padding) as int * 32767
                || old(self).iter_index >= old(self).line_count);
            if sum >= 0 {
                lemma_div_is_ordered(sum, d * 32767, d);
                assert(d * 32767 == 32767 * d);
                lemma_div_by_multiple(32767, d);
            } else {
                lemma_div_is_ordered(-sum, d * 32767, d);
                assert(d * 32767 == 32767 * d);
                lemma_div_by_multiple(32767, d);
            }
        }
        let out: i16 = if sum_up >= 0 {
            ((sum_up as u32) / divisor) as i16
        } else {
            -((((-sum_up) as u32) / divisor) as i16)
        };
        proof {
            assert(out as int == old(self).spec_out());
        }

        // Advance the cursor: sample counter, then row, then glyph.
        self.current_sample = self.current_sample + 1;
        if self.current_sample >= self.samples_per_line {
            self.iter_index = self.iter_index + 1;
            self.current_sample = 0;
            if self.iter_index > self.line_count {
                self.char_pos = self.char_pos + 1;
                self.iter_index = 0;
                if self.char_pos < self.text_glyph.len() {
                    let g = &self.text_glyph[self.char_pos];
                    self.start_padding = if self.is_vertical_display_on_waterfall
                        && !g.is_fullwidth() {
                        4
                    } else {
                        0
                    };
                    self.range_end = if self.is_vertical_display_on_waterfall {
                        g.get_width() + self.start_padding
                    } else {
                        16
                    };
                    self.line_count = if self.is_vertical_display_on_waterfall {
                        16
                    } else {
                        g.get_width() + self.start_padding
                    };
                }
            }
        }

        proof {
            let o = *old(self);
            let spl = o.samples_per_line as int;
            let lc = o.line_count as int;
            let it = o.iter_index as int;
            let cs = o.current_sample as int;
            let p = o.char_pos as int;
            let glyphs = o.text_glyph@;
            lemma_total_samples_nonneg(glyphs.skip(p + 1), o.is_vertical_display_on_waterfall, spl);
            assert((lc + 1 - it) * spl >= 1 * spl) by (nonlinear_arith)
                requires
                    lc + 1 - it >= 1,
                    spl >= 0,
            ;
            assert(o.remaining() >= spl - cs);
            assert(o.remaining() > 0);
            if cs + 1 < spl {
                // Same row: only the sample counter moved.
            } else if it + 1 <= lc {
                // Next row of the same glyph.
                assert((lc + 1 - (it + 1)) * spl == (lc + 1 - it) * spl - spl)
                    by (nonlinear_arith);
            } else {
                // The spacer row is done: move to the next glyph.
                assert(it == lc);
                assert((lc + 1 - it) * spl == spl);
                if p + 1 < glyphs.len() {
                    assert(glyphs.skip(p + 1)[0] == glyphs[p + 1]);
                    assert(glyphs.skip(p + 1).drop_first() =~= glyphs.skip(p + 2));
                    let g1 = glyphs[p + 1];
                    let lc1 = spec_line_count(g1, o.is_vertical_display_on_waterfall);
                    assert(spec_total_samples(
                        glyphs.skip(p + 1),
                        o.is_vertical_display_on_waterfall,
                        spl,
                    ) == (lc1 + 1) * spl + spec_total_samples(
                        glyphs.skip(p + 2),
                        o.is_vertical_display_on_waterfall,
                        spl,
                    ));
                } else {
                    assert(glyphs.skip(p + 1).len() == 0);
                }
            }
        }
        Some(out)
    }
}

/// Glyph sequences that agree pixel for pixel take the same number of
/// samples.
proof fn lemma_total_samples_congruent(
    g1: Seq<Glyph>,
    g2: Seq<Glyph>,
    vertical: bool,
    samples_per_line: int,
)
    requires
        g1.len() == g2.len(),
        forall|i: int| 0 <= i < g1.len() ==> (#[trigger] g1[i]).bits() == g2[i].bits(),
    ensures
        spec_total_samples(g1, vertical, samples_per_line) == spec_total_samples(
            g2,
            vertical,
            samples_per_line,
        ),
    decreases g1.len(),
{
    if g1.len() > 0 {
        assert(g1[0].bits() == g2[0].bits());
        assert(spec_line_count(g1[0], vertical) == spec_line_count(g2[0], vertical));
        assert(g1.drop_first().len() == g2.drop_first().len());
        assert forall|i: int| 0 <= i < g1.drop_first().len() implies (#[trigger] g1.drop_first()[i]).bits()
            == g2.drop_first()[i].bits() by {
            assert(g1[i + 1].bits() == g2[i + 1].bits());
        }
        lemma_total_samples_congruent(g1.drop_first(), g2.drop_first(), vertical, samples_per_line);
    }
}

/// Generation is deterministic: two generators whose states agree field by
/// field (equal channel states, glyphs that agree pixel for pixel, and the
/// same cursor and parameters) emit the same sample and advance to states
/// that agree in the same way.  Together with the constructor's contract,
/// which fixes the state as a function of the construction parameters
/// alone, two generators built with identical parameters yield identical
/// sample sequences.
pub proof fn lemma_deterministic(a: CP16Generator, b: CP16Generator)
    requires
        a.freqs@ == b.freqs@,
        a.text_glyph@.len() == b.text_glyph@.len(),
        forall|i: int|
            0 <= i < a.text_glyph@.len() ==> (#[trigger] a.text_glyph@[i]).bits()
                == b.text_glyph@[i].bits(),
        a.char_pos == b.char_pos,
        a.start_padding == b.start_padding,
        a.range_end == b.range_end,
        a.iter_index == b.iter_index,
        a.current_sample == b.current_sample,
        a.samples_per_line == b.samples_per_line,
        a.is_vertical_display_on_waterfall == b.is_vertical_display_on_waterfall,
        a.line_count == b.line_count,
    ensures
        a.spec_exhausted() == b.spec_exhausted(),
        a.remaining() == b.remaining(),
        !a.spec_exhausted() ==> a.spec_out() == b.spec_out(),
        a.spec_next_cursor() == b.spec_next_cursor(),
        !a.spec_exhausted() ==> (forall|x: int|
            0 <= x < 16 ==> a.spec_channel_after(x) == b.spec_channel_after(x)),
{
    if !a.spec_exhausted() {
        let p = a.char_pos as int;
        assert(a.text_glyph@[p].bits() == b.text_glyph@[p].bits());
        assert forall|x: int| a.spec_line(x) == b.spec_line(x) by {
            assert(a.cur_glyph().bits() == b.cur_glyph().bits());
        }
        a.lemma_row_sum_congruent(b, a.range_end as int);
        assert forall|x: int| 0 <= x < 16 implies a.spec_channel_after(x) == b.spec_channel_after(
            x,
        ) by {
            assert(a.spec_keyed(x) == b.spec_keyed(x));
        }
        let s1 = a.text_glyph@.skip(p + 1);
        let s2 = b.text_glyph@.skip(p + 1);
        assert forall|i: int| 0 <= i < s1.len() implies (#[trigger] s1[i]).bits()
            == s2[i].bits() by {
            assert(a.text_glyph@[p + 1 + i].bits() == b.text_glyph@[p + 1 + i].bits());
        }
        lemma_total_samples_congruent(
            s1,
            s2,
            a.is_vertical_display_on_waterfall,
            a.samples_per_line as int,
        );
    }
}

/// No glyph's sample count is negative.
pub proof fn lemma_total_samples_nonneg(glyphs: Seq<Glyph>, vertical: bool, samples_per_line: int)
    requires
        samples_per_line >= 0,
    ensures
        spec_total_samples(glyphs, vertical, samples_per_line) >= 0,
    decreases glyphs.len(),
{
    if glyphs.len() > 0 {
        assert(spec_line_count(glyphs[0], vertical) >= 0);
        assert((spec_line_count(glyphs[0], vertical) + 1) * samples_per_line >= 0)
            by (nonlinear_arith)
            requires
                spec_line_count(glyphs[0], vertical) + 1 >= 0,
                samples_per_line >= 0,
        ;
        assert(glyphs.drop_first().len() == glyphs.len() - 1);
        lemma_total_samples_nonneg(glyphs.drop_first(), vertical, samples_per_line);
    }
}

/// Pushing the resolved glyph of one more character onto the glyph list
/// extends its mapped view by that glyph's data.
proof fn lemma_map_push(pre: Seq<Glyph>, post: Seq<Glyph>, resolved: Option<GlyphBits>)
    requires
        match resolved {
            Some(b) => post.len() == pre.len() + 1 && post.last().bits() == b && (forall|k: int|
                0 <= k < pre.len() ==> post[k] == pre[k]),
            None => post == pre,
        },
    ensures
        post.map_values(|g: Glyph| g.bits()) == pre.map_values(|g: Glyph| g.bits())
            + match resolved {
            Some(b) => seq![b],
            None => Seq::<GlyphBits>::empty(),
        },
{
    match resolved {
        Some(b) => {
            assert(post.map_values(|g: Glyph| g.bits()) =~= pre.map_values(|g: Glyph| g.bits())
                + seq![b]);
        },
        None => {
            assert(post.map_values(|g: Glyph| g.bits()) =~= pre.map_values(|g: Glyph| g.bits())
                + Seq::<GlyphBits>::empty());
        },
    }
}

/// One step of the reverse-order resolution loop: after handling the
/// character at `i`, the built list mirrors the resolved suffix from `i`.
proof fn lemma_skip_reverse_step(text: Seq<char>, i: int, pre: Seq<Glyph>, post: Seq<Glyph>)
    requires
        0 <= i < text.len(),
        pre.map_values(|g: Glyph| g.bits()) == spec_resolve_seq(text.skip(i + 1)).reverse(),
        match spec_resolve(text[i]) {
            Some(b) => post.len() == pre.len() + 1 && post.last().bits() == b && (forall|k: int|
                0 <= k < pre.len() ==> post[k] == pre[k]),
            None => post == pre,
        },
    ensures
        post.map_values(|g: Glyph| g.bits()) == spec_resolve_seq(text.skip(i)).reverse(),
{
    lemma_map_push(pre, post, spec_resolve(text[i]));
    assert(text.skip(i)[0] == text[i]);
    assert(text.skip(i).drop_first() =~= text.skip(i + 1));
    match spec_resolve(text[i]) {
        Some(b) => {
            assert(spec_resolve_seq(text.skip(i)) == seq![b] + spec_resolve_seq(text.skip(i + 1)));
            assert((seq![b] + spec_resolve_seq(text.skip(i + 1))).reverse() =~= spec_resolve_seq(
                text.skip(i + 1),
            ).reverse() + seq![b]);
        },
        None => {
            assert(spec_resolve_seq(text.skip(i)) == spec_resolve_seq(text.skip(i + 1)));
        },
    }
}

} // verus!
