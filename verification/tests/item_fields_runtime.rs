use emoji_glyphs::emoji::EmojiEntry;
use emoji_glyphs::items::asset_path;
use emoji_glyphs::items::item_fields;
use emoji_glyphs::items::IconRef;

fn entry(literal: &str, name: &str, shortcode: Option<&str>) -> EmojiEntry {
    EmojiEntry {
        literal: String::from(literal),
        name: String::from(name),
        shortcode: shortcode.map(String::from),
    }
}

#[test]
fn asset_path_follows_the_naming_rule() {
    let e = entry("\u{1F600}", "grinning face", Some("grinning"));
    assert_eq!(asset_path(&e), "images/emoji-1F600.png");
}

#[test]
fn existing_asset_uses_its_path() {
    let e = entry("\u{1F600}", "grinning face", Some("grinning"));
    let fields = item_fields(&e, true);
    assert_eq!(fields.title, "grinning face");
    assert_eq!(fields.subtitle, ":grinning:");
    assert_eq!(fields.arg, "\u{1F600}");
    match fields.icon {
        IconRef::Path(p) => assert_eq!(p, "images/emoji-1F600.png"),
        IconRef::FileType(_) => panic!("expected a path icon"),
    }
}

#[test]
fn missing_asset_falls_back_to_generic_icon() {
    let e = entry("\u{1F600}", "grinning face", Some("grinning"));
    let fields = item_fields(&e, false);
    assert_eq!(fields.title, "\u{1F600} grinning face");
    assert_eq!(fields.arg, "\u{1F600}");
    match fields.icon {
        IconRef::FileType(t) => assert_eq!(t, "public.png"),
        IconRef::Path(_) => panic!("expected the generic fallback icon"),
    }
}

#[test]
fn missing_shortcode_gives_empty_subtitle() {
    let e = entry("\u{1F600}", "grinning face", None);
    let fields = item_fields(&e, false);
    assert_eq!(fields.subtitle, "");
}
