//! Error kinds of the library.

use vstd::prelude::*;

verus! {

/// A fatal failure while building the glyph index from a font resource.
///
/// Both kinds abort the whole run: no partial index is usable.
#[derive(Clone, Copy, Debug, PartialEq, Eq, Structural)]
pub enum FontError {
    /// The font binary structure could not be parsed.
    Parse,
    /// The font exposes `count` character-mapping subtables instead of
    /// exactly one. Fonts with ambiguous character mappings are rejected
    /// outright rather than guessed at.
    SubtableCount { count: usize },
}

/// A recoverable failure while looking one emoji's glyph image up.
#[derive(Clone, Copy, Debug, PartialEq, Eq, Structural)]
pub enum GlyphLookupError {
    /// The normalized sequence has no code point or more than two.
    UnsupportedCodePointCount,
    /// The font maps no glyph to the requested code points.
    NoGlyphIndex,
    /// The glyph exists but carries no embedded raster image.
    NoImage,
}

} // verus!
