//! The font renderer, which turns TrueType fonts under a directory into
//! sprite sheets; drawing the glyphs stays with the caller.
use vstd::prelude::*;

verus! {

/// `std::path::PathBuf`, carried as an opaque value.
#[verifier::external_type_specification]
#[verifier::external_body]
pub struct ExPathBuf(std::path::PathBuf);

/// Errors of rendering a font.
#[derive(Debug)]
pub enum FontError {
    Io(std::io::Error),
    NoFontData,
    /// Encoding the sprite sheet failed; holds the image error's message.
    Image(String),
}

/// Renders the fonts found under a directory.
pub struct FontRenderer {
    fonts_path: std::path::PathBuf,
}

impl FontRenderer {
    pub closed spec fn spec_fonts_path(&self) -> std::path::PathBuf {
        self.fonts_path
    }

    /// A renderer for the fonts under `fonts_path`; it always succeeds.
    pub fn new(fonts_path: std::path::PathBuf) -> (r: Result<Self, FontError>)
        ensures
            r matches Ok(f) && f.spec_fonts_path() == fonts_path,
    {
        Ok(Self { fonts_path })
    }

    /// The directory that holds the fonts.
    pub fn fonts_path(&self) -> (p: &std::path::PathBuf)
        ensures
            *p == self.spec_fonts_path(),
    {
        &self.fonts_path
    }
}

/// The byte just below the first printable character of a sprite sheet.
pub const PRINTABLE_ASCII_CHAR_OFFSET: u8 = 0x20;

/// A rectangle: left, top, width, height.
pub type Rect = (i32, i32, u32, u32);

/// Whether a byte has a glyph on the sprite sheet: `!` to `~`.
pub open spec fn printable(c: u8) -> bool {
    c != 0 && c > PRINTABLE_ASCII_CHAR_OFFSET && c <= 0x7e
}

/// The column of a printable byte's glyph on the sprite sheet.
pub open spec fn glyph_column(c: u8) -> int {
    c - PRINTABLE_ASCII_CHAR_OFFSET - 1
}

/// The glyph computations for the byte at `i` stay within `i32`.
pub open spec fn glyph_fits(x: i32, i: int, c: u8, glyph_width: u32) -> bool {
    let w = glyph_width as i32;
    &&& i32::MIN <= glyph_column(c) * w <= i32::MAX
    &&& i32::MIN <= (i as i32) * w <= i32::MAX
    &&& i32::MIN <= x + (i as i32) * w <= i32::MAX
}

/// Where the glyphs of a text go: for each printable byte, in order, the
/// rectangle of its glyph on the sprite sheet and the rectangle it is drawn
/// to, one glyph width further right per byte of the text; bytes without a
/// glyph are skipped but take their place.
pub open spec fn spec_glyph_placements(x: i32, y: i32, s: Seq<u8>, glyph_width: u32, glyph_height: u32) -> Seq<(Rect, Rect)>
    decreases s.len(),
{
    if s.len() == 0 {
        Seq::empty()
    } else {
        let i = s.len() - 1;
        let c = s[i];
        let before = spec_glyph_placements(x, y, s.drop_last(), glyph_width, glyph_height);
        if printable(c) {
            let w = glyph_width as i32;
            before.push(
                (
                    ((glyph_column(c) * w) as i32, 0i32, glyph_width, glyph_height),
                    ((x + (i as i32) * w) as i32, y, glyph_width, glyph_height),
                ),
            )
        } else {
            before
        }
    }
}

/// The rectangles that printing `s` at `x`, `y` copies from the sprite sheet
/// and to the canvas.
pub fn glyph_placements(x: i32, y: i32, s: &[u8], glyph_width: u32, glyph_height: u32) -> (out: Vec<(Rect, Rect)>)
    requires
        forall|i: int| 0 <= i < s@.len() && printable(#[trigger] s@[i]) ==> glyph_fits(x, i, s@[i], glyph_width),
    ensures
        out@ == spec_glyph_placements(x, y, s@, glyph_width, glyph_height),
{
    let w = glyph_width as i32;
    let mut out: Vec<(Rect, Rect)> = Vec::new();
    let mut i: usize = 0;
    while i < s.len()
        invariant
            0 <= i <= s@.len(),
            w == glyph_width as i32,
            forall|j: int| 0 <= j < s@.len() && printable(#[trigger] s@[j]) ==> glyph_fits(x, j, s@[j], glyph_width),
            out@ == spec_glyph_placements(x, y, s@.take(i as int), glyph_width, glyph_height),
        decreases s@.len() - i,
    {
        let c = s[i];
        assert(s@.take(i + 1).drop_last() =~= s@.take(i as int));
        if c == 0 || c <= PRINTABLE_ASCII_CHAR_OFFSET || c > 0x7e {
            i = i + 1;
            continue;
        }
        assert(printable(s@[i as int]));
        let charcode = c - PRINTABLE_ASCII_CHAR_OFFSET - 1;
        let src: Rect = (charcode as i32 * w, 0, glyph_width, glyph_height);
        let dest: Rect = (x + i as i32 * w, y, glyph_width, glyph_height);
        out.push((src, dest));
        i = i + 1;
    }
    assert(s@.take(s@.len() as int) =~= s@);
    out
}

} // verus!
