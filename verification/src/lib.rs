//! Reconciles a font's character-to-glyph mapping with an emoji catalog:
//! builds an index of glyphs that carry embedded raster images, matches
//! single-code-point emoji against it, and names extracted assets
//! deterministically so a later lookup can recompute the same name.

pub mod asset_name;
pub mod catalog;
pub mod errors;
pub mod emoji;
pub mod font;
pub mod glyph_index;
pub mod items;
pub mod reconcile;
