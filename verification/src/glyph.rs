//! Font glyph bitmaps and their resolution from characters.
//!
//! A glyph is a fixed-height pixel bitmap for one character: 16 rows, each
//! 8 pixels (halfwidth) or 16 pixels (fullwidth) wide, with the origin at
//! the top-left corner, `x` increasing rightward and `y` downward.  Each
//! row is stored as one `u16` whose most significant used bit is the
//! leftmost pixel, exactly as the font data lays it out.
//!
//! Characters are resolved through the `unifont` bitmap-font table; a
//! character the table lacks falls back to the fullwidth question mark.

use vstd::prelude::*;

verus! {

/// The character substituted for one that the font table lacks:
/// the fullwidth question mark.
pub const FALLBACK_CHAR: char = '\u{FF1F}';

/// One character's pixel bitmap: 16 rows of 8 or 16 pixels.
#[derive(Debug)]
pub struct Glyph {
    /// Whether the glyph is fullwidth (16 pixels wide); otherwise it is
    /// halfwidth (8 pixels wide).
    pub fullwidth: bool,

    /// The 16 bitmap rows, top to bottom.  In row `y`, pixel `x` is bit
    /// `width - 1 - x`, so the leftmost pixel is the highest used bit.
    pub rows: Vec<u16>,
}

/// The pair of a glyph's fullwidth flag and its row data: the shape in
/// which the font table's answer is described.
pub type GlyphBits = (bool, Seq<u16>);

/// What the font table holds for a character: `None` if the table lacks
/// the character, otherwise its fullwidth flag and its 16 bitmap rows.
/// The table is fixed font data, so this depends on the character alone.
pub uninterp spec fn glyph_lookup(c: char) -> Option<GlyphBits>;

impl Glyph {
    /// A well-formed glyph has exactly 16 rows.
    pub open spec fn wf(self) -> bool {
        self.rows@.len() == 16
    }

    /// The glyph's width in pixels: 16 if fullwidth, 8 otherwise.
    pub open spec fn spec_width(self) -> int {
        if self.fullwidth {
            16
        } else {
            8
        }
    }

    /// The fullwidth flag and row data of this glyph.
    pub open spec fn bits(self) -> GlyphBits {
        (self.fullwidth, self.rows@)
    }

    /// Whether pixel `(x, y)` of the glyph is set.  Coordinates outside
    /// the bitmap (`x >= width` or `y >= 16`) read as unset.
    pub open spec fn spec_pixel(self, x: int, y: int) -> bool {
        &&& 0 <= x < self.spec_width()
        &&& 0 <= y < 16
        &&& self.rows@[y] >> (self.spec_width() - 1 - x) as u16 & 1u16 == 1u16
    }

    /// The glyph's width in pixels.
    pub fn get_width(&self) -> (w: usize)
        ensures
            w == self.spec_width(),
    {
        if self.fullwidth {
            16
        } else {
            8
        }
    }

    /// Whether the glyph is fullwidth.
    pub fn is_fullwidth(&self) -> (b: bool)
        ensures
            b == self.fullwidth,
    {
        self.fullwidth
    }

    /// Reads pixel `(x, y)` of the glyph; coordinates outside the bitmap
    /// read as unset.
    pub fn get_pixel(&self, x: usize, y: usize) -> (b: bool)
        requires
            self.wf(),
        ensures
            b == self.spec_pixel(x as int, y as int),
    {
        let w = self.get_width();
        if x < w && y < 16 {
            let shift: u16 = (w - 1 - x) as u16;
            self.rows[y] >> shift & 1u16 == 1u16
        } else {
            false
        }
    }
}

/// Relies on `unifont::get_glyph`: the glyph table is fixed font data, so
/// the answer depends on the character alone.  A halfwidth glyph's rows
/// are 16 bytes and a fullwidth glyph's rows 16 words, here widened to 16
/// words either way.
#[verifier::external_body]
fn lookup_glyph(c: char) -> (r: Option<Glyph>)
    ensures
        r is Some <==> glyph_lookup(c) is Some,
        r is Some ==> (r.unwrap().fullwidth == glyph_lookup(c).unwrap().0
            && r.unwrap().rows@ == glyph_lookup(c).unwrap().1 && r.unwrap().wf()),
{
    match unifont::get_glyph(c) {
        None => None,
        Some(unifont::Glyph::Halfwidth(rows)) => Some(
            Glyph { fullwidth: false, rows: rows.iter().map(|b| *b as u16).collect() },
        ),
        Some(unifont::Glyph::Fullwidth(rows)) => Some(
            Glyph { fullwidth: true, rows: rows.to_vec() },
        ),
    }
}

/// What a character resolves to: its own glyph data where the font table
/// has it, else the fallback character's, else nothing.
pub open spec fn spec_resolve(c: char) -> Option<GlyphBits> {
    if glyph_lookup(c) is Some {
        glyph_lookup(c)
    } else {
        glyph_lookup(FALLBACK_CHAR)
    }
}

/// Resolves a character to its glyph, substituting the fallback glyph for
/// a character the font table lacks.
pub fn resolve_glyph(c: char) -> (r: Option<Glyph>)
    ensures
        r is Some <==> spec_resolve(c) is Some,
        r is Some ==> (r.unwrap().bits() == spec_resolve(c).unwrap() && r.unwrap().wf()),
{
    match lookup_glyph(c) {
        Some(g) => Some(g),
        None => lookup_glyph(FALLBACK_CHAR),
    }
}

/// The glyph data that a sequence of characters resolves to, in order: a
/// character the font table lacks resolves to the fallback glyph, and is
/// left out only where the fallback is itself missing from the table.
pub open spec fn spec_resolve_seq(text: Seq<char>) -> Seq<GlyphBits>
    decreases text.len(),
{
    if text.len() == 0 {
        Seq::empty()
    } else {
        match spec_resolve(text[0]) {
            Some(g) => seq![g] + spec_resolve_seq(text.drop_first()),
            None => spec_resolve_seq(text.drop_first()),
        }
    }
}

/// Appending one character to the text appends its resolved glyph, if
/// any, to the resolved sequence.
pub proof fn lemma_resolve_seq_push(text: Seq<char>, c: char)
    ensures
        spec_resolve_seq(text.push(c)) == spec_resolve_seq(text) + match spec_resolve(c) {
            Some(g) => seq![g],
            None => Seq::<GlyphBits>::empty(),
        },
    decreases text.len(),
{
    let tail = match spec_resolve(c) {
        Some(g) => seq![g],
        None => Seq::<GlyphBits>::empty(),
    };
    if text.len() == 0 {
        assert(text.push(c)[0] == c);
        assert(text.push(c).drop_first() =~= Seq::<char>::empty());
        assert(spec_resolve_seq(Seq::<char>::empty()) == Seq::<GlyphBits>::empty());
        match spec_resolve(c) {
            Some(g) => {
                assert(spec_resolve_seq(text.push(c)) == seq![g]
                    + Seq::<GlyphBits>::empty());
                assert(seq![g] + Seq::<GlyphBits>::empty() =~= tail);
            },
            None => {
                assert(spec_resolve_seq(text.push(c)) =~= tail);
            },
        }
        assert(spec_resolve_seq(text) + tail =~= tail);
    } else {
        assert(text.push(c)[0] == text[0]);
        assert(text.push(c).drop_first() =~= text.drop_first().push(c));
        lemma_resolve_seq_push(text.drop_first(), c);
        match spec_resolve(text[0]) {
            Some(g) => {
                assert(spec_resolve_seq(text.push(c)) == seq![g] + spec_resolve_seq(
                    text.drop_first().push(c),
                ));
                assert(seq![g] + (spec_resolve_seq(text.drop_first()) + tail) =~= (seq![g]
                    + spec_resolve_seq(text.drop_first())) + tail);
            },
            None => {},
        }
    }
}

} // verus!
