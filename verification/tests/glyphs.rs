use cp16::glyph::{resolve_glyph, FALLBACK_CHAR};

#[test]
fn resolved_glyph_matches_the_font_pixel_for_pixel() {
    for c in ['A', 'q', '0', '好', '？'] {
        let g = resolve_glyph(c).unwrap();
        let reference = unifont::get_glyph(c).unwrap();
        assert_eq!(g.is_fullwidth(), reference.is_fullwidth());
        assert_eq!(g.get_width(), reference.get_width());
        for y in 0..16 {
            for x in 0..g.get_width() {
                assert_eq!(g.get_pixel(x, y), reference.get_pixel(x, y), "{} ({}, {})", c, x, y);
            }
        }
    }
}

#[test]
fn out_of_range_pixels_read_unset() {
    let g = resolve_glyph('A').unwrap();
    assert!(!g.is_fullwidth());
    assert_eq!(g.get_width(), 8);
    assert!(!g.get_pixel(8, 0));
    assert!(!g.get_pixel(0, 16));
    assert!(!g.get_pixel(16, 16));
}

#[test]
fn missing_character_falls_back_to_the_question_mark() {
    // A character the font table lacks resolves exactly as the fallback
    // character does.
    let missing = '\u{E123}';
    if unifont::get_glyph(missing).is_none() {
        let g = resolve_glyph(missing).unwrap();
        let fb = resolve_glyph(FALLBACK_CHAR).unwrap();
        assert_eq!(g.is_fullwidth(), fb.is_fullwidth());
        for y in 0..16 {
            for x in 0..16 {
                assert_eq!(g.get_pixel(x, y), fb.get_pixel(x, y));
            }
        }
    } else {
        // The table covers the probe character; the fallback path is then
        // not reachable for it.
        assert!(resolve_glyph(missing).is_some());
    }
}

#[test]
fn fallback_is_the_fullwidth_question_mark() {
    let fb = resolve_glyph(FALLBACK_CHAR).unwrap();
    assert!(fb.is_fullwidth());
    assert!((0..16).any(|y| (0..16).any(|x| fb.get_pixel(x, y))));
}
