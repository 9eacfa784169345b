use cp16::cp_16_generator::{CP16Error, CP16Generator, OutOfMaxFrequencyException};

fn collect_samples(mut g: CP16Generator) -> Vec<i16> {
    let mut out = Vec::new();
    while let Some(s) = g.next() {
        out.push(s);
    }
    out
}

#[test]
fn construction_succeeds_at_nyquist_limit() {
    // Highest derived frequency: 3850 + 15 * 10 = 4000 == 8000 / 2.
    let r = CP16Generator::new("A", 3850, 10, 8000, true, 1000, false);
    assert!(r.is_ok());
}

#[test]
fn construction_fails_beyond_nyquist() {
    // Channel 15's frequency: 3900 + 150 = 4050 > 8000 / 2.
    let r = CP16Generator::new("A", 3900, 10, 8000, true, 1000, false);
    assert!(matches!(r, Err(CP16Error::OutOfMaxFrequency(_))));
}

#[test]
fn error_message_names_the_limit() {
    let r = CP16Generator::new("A", 3900, 10, 8000, true, 1000, false);
    let e = r.err().unwrap();
    assert_eq!(
        e.message(),
        "provided start_freq and step will exceed the maximum frequency limit specified by sample_rate"
    );
    assert_eq!(
        OutOfMaxFrequencyException.message(),
        "provided start_freq and step will exceed the maximum frequency limit specified by sample_rate"
    );
}

#[test]
fn empty_glyph_sequence_error_message() {
    // The variant itself is reachable only when the font table lacks both
    // a character and the fallback glyph, which the bundled table never
    // does; its description is still fixed.
    assert_eq!(
        CP16Error::EmptyGlyphSequence.message(),
        "no character of the provided text resolved to a glyph"
    );
}

#[test]
fn single_glyph_vertical_totals() {
    // 8000 Hz, 1.0 s per glyph: 8000 / 16 * 1.0 = 500 samples per row;
    // 16 data rows plus the spacer row: 17 * 500 = 8500 samples.
    let g = CP16Generator::new("A", 1600, 15, 8000, true, 1000, false).unwrap();
    assert_eq!(g.samples_per_line, 500);
    let samples = collect_samples(g);
    assert_eq!(samples.len(), 8500);
    // The spacer row (row index 16) is entirely silent.
    for i in 8000..8500 {
        assert_eq!(samples[i], 0);
    }
}

#[test]
fn exhaustion_is_permanent() {
    let mut g = CP16Generator::new("A", 1600, 15, 8000, true, 1000, false).unwrap();
    while g.next().is_some() {}
    assert!(g.next().is_none());
    assert!(g.next().is_none());
}

#[test]
fn horizontal_totals_per_glyph_width() {
    // Rotated rendering: one row per bitmap column, so a halfwidth glyph
    // has 8 data rows; two glyphs: 2 * (8 + 1) * 500 = 9000 samples.
    let g = CP16Generator::new("AB", 1600, 15, 8000, false, 1000, false).unwrap();
    let samples = collect_samples(g);
    assert_eq!(samples.len(), 9000);
}

#[test]
fn shorter_glyph_time_scales_totals() {
    // 0.5 s per glyph: 8000 / 16 * 0.5 = 250 samples per row.
    let g = CP16Generator::new("A", 1600, 15, 8000, true, 500, false).unwrap();
    assert_eq!(g.samples_per_line, 250);
    assert_eq!(collect_samples(g).len(), 17 * 250);
}

#[test]
fn empty_text_yields_no_samples() {
    let mut g = CP16Generator::new("", 1600, 15, 8000, true, 1000, false).unwrap();
    assert!(g.next().is_none());
}

#[test]
fn identical_parameters_give_identical_samples() {
    let a = CP16Generator::new("Hi", 1600, 15, 8000, true, 100, false).unwrap();
    let b = CP16Generator::new("Hi", 1600, 15, 8000, true, 100, false).unwrap();
    assert_eq!(collect_samples(a), collect_samples(b));
}

#[test]
fn reverse_mode_matches_reversed_text() {
    let rev = CP16Generator::new("AB", 1600, 15, 8000, true, 100, true).unwrap();
    let fwd = CP16Generator::new("BA", 1600, 15, 8000, true, 100, false).unwrap();
    assert_eq!(collect_samples(rev), collect_samples(fwd));
}

#[test]
fn samples_stay_within_signed_16_bit_range() {
    let g = CP16Generator::new("W和", 1600, 15, 8000, true, 100, false).unwrap();
    let samples = collect_samples(g);
    assert!(!samples.is_empty());
    for s in samples {
        assert!(-32767 <= s && s <= 32767);
    }
}

#[test]
fn spacer_rows_are_silent_between_glyphs() {
    // Two glyphs, vertical: rows of 100 samples; row 16 of each glyph is
    // the spacer.
    let g = CP16Generator::new("AB", 1600, 15, 8000, true, 200, false).unwrap();
    assert_eq!(g.samples_per_line, 100);
    let samples = collect_samples(g);
    assert_eq!(samples.len(), 2 * 17 * 100);
    for i in 1600..1700 {
        assert_eq!(samples[i], 0);
        assert_eq!(samples[1700 + i], 0);
    }
}

#[test]
fn halfwidth_glyph_is_centered_vertically() {
    // 'A' is halfwidth: inset by 4 slots, rendering into slots 4..12.
    let g = CP16Generator::new("A", 1600, 15, 8000, true, 1000, false).unwrap();
    assert_eq!(g.start_padding, 4);
    assert_eq!(g.range_end, 12);
    assert_eq!(g.line_count, 16);
    let reference = unifont::get_glyph('A').unwrap();
    let line = g.get_line();
    assert_eq!(line.len(), 16);
    for x in 0..16 {
        if (4..12).contains(&x) {
            assert_eq!(line[x], reference.get_pixel(x - 4, 0));
        } else {
            assert!(!line[x]);
        }
    }
}

#[test]
fn fullwidth_glyph_has_no_inset() {
    // A fullwidth glyph renders into all 16 slots with no inset.
    let g = CP16Generator::new("好", 1600, 15, 8000, true, 1000, false).unwrap();
    assert_eq!(g.start_padding, 0);
    assert_eq!(g.range_end, 16);
    let reference = unifont::get_glyph('好').unwrap();
    assert!(reference.is_fullwidth());
    let line = g.get_line();
    for x in 0..16 {
        assert_eq!(line[x], reference.get_pixel(x, 0));
    }
}

#[test]
fn keyed_slots_match_the_bitmap_row_by_row() {
    // Walk the first glyph's data rows and hold every keying line against
    // the font's own pixel data.
    let mut g = CP16Generator::new("R", 1600, 15, 8000, true, 200, false).unwrap();
    assert_eq!(g.samples_per_line, 100);
    let reference = unifont::get_glyph('R').unwrap();
    for row in 0..16 {
        let line = g.get_line();
        for x in 0..16 {
            if (4..12).contains(&x) {
                assert_eq!(line[x], reference.get_pixel(x - 4, row), "row {} slot {}", row, x);
            } else {
                assert!(!line[x]);
            }
        }
        for _ in 0..100 {
            g.next().unwrap();
        }
    }
}

#[test]
fn horizontal_rendering_reads_rotated_columns() {
    // Rotated: the row at cursor r keys slot x from bitmap pixel
    // (r, 16 - x); slot 0 reads row 16, which is out of range and unset.
    let g = CP16Generator::new("A", 1600, 15, 8000, false, 1000, false).unwrap();
    assert_eq!(g.start_padding, 0);
    assert_eq!(g.range_end, 16);
    assert_eq!(g.line_count, 8);
    let reference = unifont::get_glyph('A').unwrap();
    let line = g.get_line();
    assert!(!line[0]);
    for x in 1..16 {
        assert_eq!(line[x], reference.get_pixel(0, 16 - x));
    }
}

#[test]
fn glyph_transition_recomputes_the_inset() {
    // "A" is halfwidth (inset 4), "好" fullwidth (inset 0): after the
    // first glyph's 16 data rows and its spacer row, the parameters are
    // derived anew for the second glyph.
    let mut g = CP16Generator::new("A好", 1600, 15, 8000, true, 200, false).unwrap();
    assert_eq!(g.samples_per_line, 100);
    assert_eq!(g.start_padding, 4);
    assert_eq!(g.range_end, 12);
    for _ in 0..17 * 100 {
        g.next().unwrap();
    }
    assert_eq!(g.char_pos, 1);
    assert_eq!(g.start_padding, 0);
    assert_eq!(g.range_end, 16);
    let reference = unifont::get_glyph('好').unwrap();
    let line = g.get_line();
    for x in 0..16 {
        assert_eq!(line[x], reference.get_pixel(x, 0));
    }
}

#[test]
fn reverse_mode_with_mixed_widths() {
    let rev = CP16Generator::new("A好x", 1600, 15, 8000, true, 100, true).unwrap();
    let fwd = CP16Generator::new("x好A", 1600, 15, 8000, true, 100, false).unwrap();
    assert_eq!(collect_samples(rev), collect_samples(fwd));
}

#[test]
fn active_rows_of_a_glyph_produce_sound() {
    // 'A' has set pixels in most rows; the emitted data rows are not all
    // silent, so keyed channels really contribute.
    let g = CP16Generator::new("A", 1600, 15, 8000, true, 1000, false).unwrap();
    let samples = collect_samples(g);
    assert!(samples[..8000].iter().any(|&s| s != 0));
}
