//! Runtime icon resolution and result-item fields.
//!
//! At query time the asset file name is recomputed from an entry's original
//! code points; whether a file by that name exists decides the item's title
//! and icon. A missing asset is never an error: the item falls back to a
//! generic icon keyed by a public image-type identifier.

use vstd::prelude::*;
use vstd::string::StringExecFns;
use crate::asset_name::spec_asset_filename;
use crate::emoji::EmojiEntry;
use crate::emoji::EmojiModel;

verus! {

/// The icon of a result item: either the path of a previously extracted
/// image file, or a generic fallback icon keyed by a public image-type
/// identifier.
pub enum IconRef {
    Path(String),
    FileType(String),
}

/// The mathematical model of an [`IconRef`].
pub ghost enum IconModel {
    Path(Seq<char>),
    FileType(Seq<char>),
}

impl View for IconRef {
    type V = IconModel;

    open spec fn view(&self) -> IconModel {
        match self {
            IconRef::Path(p) => IconModel::Path(p@),
            IconRef::FileType(t) => IconModel::FileType(t@),
        }
    }
}

/// The fields of one result item handed to the launcher host: a title, a
/// subtitle, an argument value (the emoji's literal character sequence),
/// and an icon reference.
pub struct ItemFields {
    pub title: String,
    pub subtitle: String,
    pub arg: String,
    pub icon: IconRef,
}

/// The relative path under which the extraction step stores an emoji's
/// image: `images/emoji{filename}.png`, with the filename fragment derived
/// from the original code points.
pub open spec fn spec_asset_path(literal: Seq<char>) -> Seq<char> {
    "images/emoji"@ + spec_asset_filename(literal) + ".png"@
}

/// The subtitle: the shortcode wrapped in colons, or empty if there is
/// none.
pub open spec fn spec_subtitle(shortcode: Option<Seq<char>>) -> Seq<char> {
    match shortcode {
        Some(s) => seq![':'] + s + seq![':'],
        None => Seq::empty(),
    }
}

/// The title: the bare name when the extracted image exists, else the
/// literal emoji followed by a space and the name.
pub open spec fn spec_title(e: EmojiModel, asset_exists: bool) -> Seq<char> {
    if asset_exists {
        e.name
    } else {
        e.literal + seq![' '] + e.name
    }
}

/// The icon: the extracted image's path when it exists, else the generic
/// fallback keyed by the public PNG type identifier.
pub open spec fn spec_icon(e: EmojiModel, asset_exists: bool) -> IconModel {
    if asset_exists {
        IconModel::Path(spec_asset_path(e.literal))
    } else {
        IconModel::FileType("public.png"@)
    }
}

/// The path under which an entry's extracted image is stored.
pub fn asset_path(entry: &EmojiEntry) -> (r: String)
    ensures
        r@ == spec_asset_path(entry@.literal),
{
    let mut p: String = "images/emoji".to_owned();
    let name = entry.asset_filename();
    p.append(name.as_str());
    p.append(".png");
    p
}

/// The fields of the result item for an entry, given whether its extracted
/// asset file exists. A missing asset never fails: the item falls back to
/// the generic icon and shows the literal emoji in the title instead.
pub fn item_fields(entry: &EmojiEntry, asset_exists: bool) -> (r: ItemFields)
    ensures
        r.title@ == spec_title(entry@, asset_exists),
        r.subtitle@ == spec_subtitle(entry@.shortcode),
        r.arg@ == entry@.literal,
        r.icon@ == spec_icon(entry@, asset_exists),
{
    let title: String = if asset_exists {
        entry.name.clone()
    } else {
        let mut t = entry.literal.clone();
        proof {
            reveal_strlit(" ");
        }
        t.append(" ");
        t.append(entry.name.as_str());
        proof {
            assert(t@ =~= spec_title(entry@, false));
        }
        t
    };
    let subtitle: String = match &entry.shortcode {
        Some(s) => {
            proof {
                reveal_strlit(":");
            }
            let mut sub: String = ":".to_owned();
            sub.append(s.as_str());
            sub.append(":");
            proof {
                assert(sub@ =~= spec_subtitle(entry@.shortcode));
            }
            sub
        },
        None => String::new(),
    };
    let arg = entry.literal.clone();
    let icon: IconRef = if asset_exists {
        IconRef::Path(asset_path(entry))
    } else {
        IconRef::FileType("public.png".to_owned())
    };
    ItemFields { title, subtitle, arg, icon }
}

} // verus!
