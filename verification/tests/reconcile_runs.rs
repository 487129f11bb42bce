use emoji_glyphs::emoji::EmojiEntry;
use emoji_glyphs::glyph_index::GlyphIndex;
use emoji_glyphs::glyph_index::GlyphRecord;
use emoji_glyphs::reconcile::reconcile;

fn entry(literal: &str, name: &str) -> EmojiEntry {
    EmojiEntry { literal: String::from(literal), name: String::from(name), shortcode: None }
}

fn record(character: u32, glyph_id: u16) -> GlyphRecord {
    GlyphRecord {
        source_face: String::from("font"),
        glyph_id,
        character,
        image_bytes: vec![1, 2, 3],
    }
}

#[test]
fn single_code_point_match_is_resolved_and_consumed() {
    let mut index = GlyphIndex::new();
    index.insert(record(0x1F600, 5));
    let catalog = vec![entry("\u{1F600}", "grinning face")];
    let report = reconcile(&catalog, &mut index);
    assert_eq!(report.resolved.len(), 1);
    assert_eq!(report.missing.len(), 0);
    assert_eq!(report.resolved[0].entry.name, "grinning face");
    assert_eq!(report.resolved[0].record.glyph_id, 5);
    assert_eq!(index.len(), 0);
}

#[test]
fn normalization_makes_keycap_eligible() {
    let mut index = GlyphIndex::new();
    index.insert(record(0x23, 1));
    let catalog = vec![entry("\u{0023}\u{20E3}", "keycap: #")];
    let report = reconcile(&catalog, &mut index);
    assert_eq!(report.resolved.len(), 1);
    assert_eq!(report.missing.len(), 0);
    assert_eq!(index.len(), 0);
}

#[test]
fn multi_code_point_entries_never_match() {
    let mut index = GlyphIndex::new();
    // Both regional indicators are individually present as keys.
    index.insert(record(0x1F1FA, 1));
    index.insert(record(0x1F1F8, 2));
    let catalog = vec![entry("\u{1F1FA}\u{1F1F8}", "flag: United States")];
    let report = reconcile(&catalog, &mut index);
    assert_eq!(report.resolved.len(), 0);
    assert_eq!(report.missing.len(), 1);
    assert_eq!(report.missing[0].name, "flag: United States");
    assert_eq!(index.len(), 2);
}

#[test]
fn absent_key_is_missing() {
    let mut index = GlyphIndex::new();
    index.insert(record(0x1F601, 1));
    let catalog = vec![entry("\u{1F600}", "grinning face")];
    let report = reconcile(&catalog, &mut index);
    assert_eq!(report.resolved.len(), 0);
    assert_eq!(report.missing.len(), 1);
    assert_eq!(index.len(), 1);
}

#[test]
fn full_run_accounting() {
    // N = 4 entries, M = 3 records, K = 2 true single-character matches.
    let mut index = GlyphIndex::new();
    index.insert(record(0x1F600, 1));
    index.insert(record(0x23, 2));
    index.insert(record(0x77, 3));
    let catalog = vec![
        entry("\u{1F600}", "grinning face"),
        entry("\u{0023}\u{20E3}", "keycap: #"),
        entry("\u{1F1FA}\u{1F1F8}", "flag: United States"),
        entry("\u{1F9A9}", "flamingo"),
    ];
    let report = reconcile(&catalog, &mut index);
    let resolved = report.resolved.len();
    let missing = report.missing.len();
    let orphaned = index.len();
    assert_eq!(resolved, 2);
    assert_eq!(missing, 4 - resolved);
    assert_eq!(orphaned, 3 - resolved);
}

#[test]
fn a_record_is_consumed_only_once() {
    let mut index = GlyphIndex::new();
    index.insert(record(0x1F600, 1));
    let catalog = vec![entry("\u{1F600}", "first"), entry("\u{1F600}", "second")];
    let report = reconcile(&catalog, &mut index);
    assert_eq!(report.resolved.len(), 1);
    assert_eq!(report.resolved[0].entry.name, "first");
    assert_eq!(report.missing.len(), 1);
    assert_eq!(report.missing[0].name, "second");
    assert_eq!(index.len(), 0);
}
