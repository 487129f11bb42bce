use emoji_glyphs::catalog::catalog;
use emoji_glyphs::catalog::search;

#[test]
fn catalog_is_not_empty() {
    assert!(!catalog().is_empty());
}

#[test]
fn catalog_carries_the_grinning_face() {
    let entries = catalog();
    let grinning = entries.iter().find(|e| e.literal == "\u{1F600}").unwrap();
    assert_eq!(grinning.name, "grinning face");
    assert_eq!(grinning.shortcode.as_deref(), Some("grinning"));
    assert_eq!(grinning.code_points(), vec!['\u{1F600}']);
    assert_eq!(grinning.asset_filename(), "-1F600");
}

#[test]
fn search_finds_the_grinning_face() {
    let results = search("grinning");
    assert!(results.iter().any(|e| e.literal == "\u{1F600}"));
}
