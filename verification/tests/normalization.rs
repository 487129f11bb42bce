use emoji_glyphs::emoji::normalized_code_points;
use emoji_glyphs::emoji::EmojiEntry;

#[test]
fn keycap_combining_is_stripped() {
    let cps = vec!['\u{23}', '\u{20E3}'];
    assert_eq!(normalized_code_points(&cps), vec!['\u{23}']);
}

#[test]
fn presentation_selector_is_stripped() {
    let cps = vec!['\u{2764}', '\u{FE0F}'];
    assert_eq!(normalized_code_points(&cps), vec!['\u{2764}']);
}

#[test]
fn other_code_points_are_kept_in_order() {
    let cps = vec!['\u{1F1FA}', '\u{1F1F8}'];
    assert_eq!(normalized_code_points(&cps), cps);
}

#[test]
fn only_the_two_markers_are_stripped() {
    let cps = vec!['\u{FE0F}', 'a', '\u{20E3}', 'b', '\u{FE0F}'];
    assert_eq!(normalized_code_points(&cps), vec!['a', 'b']);
}

#[test]
fn entry_normalization_uses_the_literal() {
    let entry = EmojiEntry {
        literal: String::from("\u{0023}\u{20E3}"),
        name: String::from("keycap: #"),
        shortcode: None,
    };
    assert_eq!(entry.normalized(), vec!['\u{23}']);
    assert_eq!(entry.code_points(), vec!['\u{23}', '\u{20E3}']);
}
