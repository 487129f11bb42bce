use emoji_glyphs::asset_name::asset_filename;
use emoji_glyphs::emoji::EmojiEntry;

#[test]
fn single_code_point_name() {
    let cps = vec!['\u{1F600}'];
    assert_eq!(asset_filename(&cps), "-1F600");
}

#[test]
fn flag_sequence_name() {
    let cps = vec!['\u{1F1FA}', '\u{1F1F8}'];
    assert_eq!(asset_filename(&cps), "-1F1FA-1F1F8");
}

#[test]
fn short_code_point_is_zero_padded() {
    let cps = vec!['\u{23}'];
    assert_eq!(asset_filename(&cps), "-00023");
}

#[test]
fn six_digit_code_point_is_not_truncated() {
    let cps = vec!['\u{10FFFF}'];
    assert_eq!(asset_filename(&cps), "-10FFFF");
}

#[test]
fn empty_sequence_gives_empty_name() {
    let cps: Vec<char> = Vec::new();
    assert_eq!(asset_filename(&cps), "");
}

#[test]
fn computing_twice_yields_identical_names() {
    let cps = vec!['\u{1F468}', '\u{200D}', '\u{1F469}'];
    let first = asset_filename(&cps);
    let second = asset_filename(&cps);
    assert_eq!(first, second);
}

#[test]
fn entry_method_matches_free_function() {
    let entry = EmojiEntry {
        literal: String::from("\u{0023}\u{20E3}"),
        name: String::from("keycap: #"),
        shortcode: None,
    };
    assert_eq!(entry.asset_filename(), "-00023-020E3");
    assert_eq!(entry.asset_filename(), asset_filename(&entry.code_points()));
}
