use emoji_glyphs::glyph_index::GlyphIndex;
use emoji_glyphs::glyph_index::GlyphRecord;

fn record(source: &str, glyph_id: u16, character: u32, bytes: &[u8]) -> GlyphRecord {
    GlyphRecord {
        source_face: String::from(source),
        glyph_id,
        character,
        image_bytes: bytes.to_vec(),
    }
}

#[test]
fn new_index_is_empty() {
    let index = GlyphIndex::new();
    assert_eq!(index.len(), 0);
    assert!(!index.contains_character(0x41));
}

#[test]
fn insert_then_lookup() {
    let mut index = GlyphIndex::new();
    index.insert(record("font-a", 7, 0x41, b"payload"));
    assert_eq!(index.len(), 1);
    assert!(index.contains_character(0x41));
    assert!(!index.contains_character(0x42));
}

#[test]
fn later_resource_wins_on_same_character() {
    let mut index = GlyphIndex::new();
    index.insert(record("font-a", 7, 0x41, b"first"));
    index.insert(record("font-b", 9, 0x41, b"second"));
    assert_eq!(index.len(), 1);
    let rec = index.remove(0x41).unwrap();
    assert_eq!(rec.source_face, "font-b");
    assert_eq!(rec.glyph_id, 9);
    assert_eq!(rec.image_bytes, b"second".to_vec());
}

#[test]
fn remove_consumes_the_record() {
    let mut index = GlyphIndex::new();
    index.insert(record("font-a", 1, 0x41, b"a"));
    index.insert(record("font-a", 2, 0x42, b"b"));
    let rec = index.remove(0x41).unwrap();
    assert_eq!(rec.character, 0x41);
    assert_eq!(index.len(), 1);
    assert!(index.remove(0x41).is_none());
    assert_eq!(index.len(), 1);
}

#[test]
fn into_records_hands_the_remainder_out() {
    let mut index = GlyphIndex::new();
    index.insert(record("font-a", 1, 0x41, b"a"));
    index.insert(record("font-a", 2, 0x42, b"b"));
    index.remove(0x41);
    let records = index.into_records();
    assert_eq!(records.len(), 1);
    assert_eq!(records[0].character, 0x42);
}
