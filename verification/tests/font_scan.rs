use emoji_glyphs::emoji::EmojiEntry;
use emoji_glyphs::errors::FontError;
use emoji_glyphs::errors::GlyphLookupError;
use emoji_glyphs::font::build_glyph_index;
use emoji_glyphs::font::glyph_ids;
use emoji_glyphs::font::lookup_glyph_image;
use emoji_glyphs::font::parse_font_face;
use emoji_glyphs::font::scan_font;
use emoji_glyphs::font::FontSource;
use emoji_glyphs::glyph_index::GlyphIndex;
use emoji_glyphs::reconcile::reconcile;

// A minimal font: a format-0 character-mapping subtable that maps 'A' to
// glyph 1 and 'B' to glyph 2, and an embedded-bitmap table that stores a
// raster payload for glyph 1 only.

fn cmap_table(subtable_count: u16) -> Vec<u8> {
    let mut t = Vec::new();
    t.extend(0u16.to_be_bytes()); // version
    t.extend(subtable_count.to_be_bytes());
    let sub_off = 4 + 8 * u32::from(subtable_count);
    for _ in 0..subtable_count {
        t.extend(0u16.to_be_bytes()); // platform: Unicode
        t.extend(3u16.to_be_bytes()); // encoding
        t.extend(sub_off.to_be_bytes());
    }
    t.extend(0u16.to_be_bytes()); // format 0
    t.extend(262u16.to_be_bytes()); // subtable length
    t.extend(0u16.to_be_bytes()); // language
    let mut map = [0u8; 256];
    map[0x41] = 1;
    map[0x42] = 2;
    t.extend(map);
    t
}

fn sbix_table(payload: &[u8]) -> Vec<u8> {
    let mut t = Vec::new();
    t.extend(1u16.to_be_bytes()); // version
    t.extend(0u16.to_be_bytes()); // flags
    t.extend(1u32.to_be_bytes()); // one strike
    t.extend(12u32.to_be_bytes()); // strike offset
    t.extend(64u16.to_be_bytes()); // ppem
    t.extend(72u16.to_be_bytes()); // ppi
    let header: u32 = 4 + 4 * 4; // four glyph data offsets follow
    let glyph1_end = header + 8 + payload.len() as u32;
    t.extend(header.to_be_bytes()); // glyph 0: empty
    t.extend(header.to_be_bytes()); // glyph 1: data below
    t.extend(glyph1_end.to_be_bytes()); // glyph 2: empty
    t.extend(glyph1_end.to_be_bytes());
    t.extend(0u16.to_be_bytes()); // x
    t.extend(0u16.to_be_bytes()); // y
    t.extend(*b"png ");
    t.extend(payload);
    t
}

fn font(subtable_count: u16, payload: &[u8]) -> Vec<u8> {
    let maxp = {
        let mut m = Vec::new();
        m.extend(0x0000_5000u32.to_be_bytes());
        m.extend(3u16.to_be_bytes()); // number of glyphs
        m
    };
    let tables: Vec<([u8; 4], Vec<u8>)> = vec![
        (*b"cmap", cmap_table(subtable_count)),
        (*b"head", vec![0; 54]),
        (*b"hhea", vec![0; 36]),
        (*b"maxp", maxp),
        (*b"sbix", sbix_table(payload)),
    ];
    let mut f = Vec::new();
    f.extend(0x0001_0000u32.to_be_bytes()); // magic
    f.extend((tables.len() as u16).to_be_bytes());
    f.extend([0u8; 6]); // searchRange, entrySelector, rangeShift
    let mut offset = (12 + 16 * tables.len()) as u32;
    let mut body = Vec::new();
    for (tag, content) in &tables {
        f.extend(tag);
        f.extend(0u32.to_be_bytes()); // checksum
        f.extend(offset.to_be_bytes());
        f.extend((content.len() as u32).to_be_bytes());
        offset += content.len() as u32;
        body.extend(content.iter().copied());
    }
    f.extend(body);
    f
}

// The embedded payload must look enough like a PNG for the size probe at
// bytes 16..24 to succeed.
fn png_stub(marker: u8) -> Vec<u8> {
    let mut p = vec![marker; 16];
    p.extend(1u32.to_be_bytes()); // width
    p.extend(1u32.to_be_bytes()); // height
    p
}

fn entry(literal: &str) -> EmojiEntry {
    EmojiEntry { literal: String::from(literal), name: String::from(literal), shortcode: None }
}

#[test]
fn scan_font_records_characters_with_images() {
    let payload = png_stub(7);
    let data = font(1, &payload);
    let mut index = GlyphIndex::new();
    scan_font(&data, 0, "test-font", &mut index).unwrap();
    assert_eq!(index.len(), 1);
    assert!(index.contains_character(0x41));
    assert!(!index.contains_character(0x42)); // glyph 2 has no image
    let rec = index.remove(0x41).unwrap();
    assert_eq!(rec.source_face, "test-font");
    assert_eq!(rec.glyph_id, 1);
    assert_eq!(rec.image_bytes, payload);
}

#[test]
fn two_subtables_fail_before_any_entry() {
    let data = font(2, &png_stub(7));
    let mut index = GlyphIndex::new();
    let r = scan_font(&data, 0, "test-font", &mut index);
    assert!(matches!(r, Err(FontError::SubtableCount { count: 2 })));
    assert_eq!(index.len(), 0);
}

#[test]
fn zero_subtables_fail_before_any_entry() {
    let data = font(0, &png_stub(7));
    let mut index = GlyphIndex::new();
    let r = scan_font(&data, 0, "test-font", &mut index);
    assert!(matches!(r, Err(FontError::SubtableCount { count: 0 })));
    assert_eq!(index.len(), 0);
}

#[test]
fn malformed_font_is_a_parse_error() {
    let mut index = GlyphIndex::new();
    let r = scan_font(b"not a font at all", 0, "junk", &mut index);
    assert!(matches!(r, Err(FontError::Parse)));
    assert_eq!(index.len(), 0);
}

#[test]
fn build_glyph_index_lets_a_later_font_win() {
    let fonts = vec![
        FontSource { path: String::from("first.ttf"), data: font(1, &png_stub(1)) },
        FontSource { path: String::from("second.ttf"), data: font(1, &png_stub(2)) },
    ];
    let mut index = build_glyph_index(&fonts).unwrap();
    assert_eq!(index.len(), 1);
    let rec = index.remove(0x41).unwrap();
    assert_eq!(rec.source_face, "second.ttf");
    assert_eq!(rec.image_bytes, png_stub(2));
}

#[test]
fn build_glyph_index_aborts_on_a_bad_font() {
    let fonts = vec![
        FontSource { path: String::from("first.ttf"), data: font(1, &png_stub(1)) },
        FontSource { path: String::from("second.ttf"), data: font(2, &png_stub(2)) },
    ];
    let r = build_glyph_index(&fonts);
    assert!(matches!(r, Err(FontError::SubtableCount { count: 2 })));
}

#[test]
fn glyph_ids_lists_the_defined_pairs() {
    let data = font(1, &png_stub(7));
    let face = parse_font_face(&data, 0).unwrap();
    let pairs = glyph_ids(&face).unwrap();
    assert_eq!(pairs, vec![(0x41, 1), (0x42, 2)]);
}

#[test]
fn lookup_finds_the_image_for_a_mapped_character() {
    let payload = png_stub(7);
    let data = font(1, &payload);
    let face = parse_font_face(&data, 0).unwrap();
    let image = lookup_glyph_image(&entry("A"), &face).unwrap();
    assert_eq!(image, payload);
}

#[test]
fn lookup_reports_what_is_absent() {
    let data = font(1, &png_stub(7));
    let face = parse_font_face(&data, 0).unwrap();
    let no_image = lookup_glyph_image(&entry("B"), &face);
    assert!(matches!(no_image, Err(GlyphLookupError::NoImage)));
    let no_glyph = lookup_glyph_image(&entry("C"), &face);
    assert!(matches!(no_glyph, Err(GlyphLookupError::NoGlyphIndex)));
    let too_many = lookup_glyph_image(&entry("ABC"), &face);
    assert!(matches!(too_many, Err(GlyphLookupError::UnsupportedCodePointCount)));
}

#[test]
fn scan_then_reconcile_end_to_end() {
    let payload = png_stub(9);
    let data = font(1, &payload);
    let mut index = GlyphIndex::new();
    scan_font(&data, 0, "test-font", &mut index).unwrap();
    let catalog = vec![entry("A"), entry("Z")];
    let report = reconcile(&catalog, &mut index);
    assert_eq!(report.resolved.len(), 1);
    assert_eq!(report.resolved[0].entry.literal, "A");
    assert_eq!(report.resolved[0].record.image_bytes, payload);
    assert_eq!(report.missing.len(), 1);
    assert_eq!(report.missing[0].literal, "Z");
    assert_eq!(index.len(), 0);
}
