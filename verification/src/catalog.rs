//! The emoji catalog boundary.
//!
//! The catalog itself — every recognized emoji with its code points, name
//! and optional shortcode — and the free-text search over it are supplied
//! by the `emojis` crate. This module trusts thin wrappers around that
//! crate and converts each emoji into the library's own [`EmojiEntry`],
//! which everything else works on. What each emoji's getters return is
//! named, so the conversion's contract pins every field; which emojis the
//! catalog and the search hand out cannot be named (those calls take no
//! arguments) and stays the collaborator's word.

use vstd::prelude::*;
use crate::emoji::EmojiEntry;

verus! {

#[verifier::external_type_specification]
#[verifier::external_body]
pub struct ExEmoji(emojis::Emoji);

/// What `emojis::Emoji::as_str` returns: the emoji's literal character
/// sequence. A pure function of the emoji value.
pub uninterp spec fn emoji_str_of(e: emojis::Emoji) -> Seq<char>;

/// What `emojis::Emoji::name` returns: the emoji's CLDR short name.
pub uninterp spec fn emoji_name_of(e: emojis::Emoji) -> Seq<char>;

/// What `emojis::Emoji::shortcode` returns: the emoji's gemoji shortcode,
/// if it has one.
pub uninterp spec fn emoji_shortcode_of(e: emojis::Emoji) -> Option<Seq<char>>;

/// Relies on `emojis::iter`: the full emoji catalog, in CLDR order.
#[verifier::external_body]
fn emojis_iter() -> (r: Vec<&'static emojis::Emoji>) {
    emojis::iter().collect()
}

/// Relies on `emojis::search`: the catalog entries matching a free-text
/// query, best match first.
#[verifier::external_body]
fn emojis_search(query: &str) -> (r: Vec<&'static emojis::Emoji>) {
    emojis::search(query).collect()
}

/// Relies on `emojis::Emoji::as_str`: the emoji's literal character
/// sequence.
#[verifier::external_body]
fn emoji_str(e: &'static emojis::Emoji) -> (r: &'static str)
    ensures
        r@ == emoji_str_of(*e),
{
    e.as_str()
}

/// Relies on `emojis::Emoji::name`: the emoji's CLDR short name.
#[verifier::external_body]
fn emoji_name(e: &'static emojis::Emoji) -> (r: &'static str)
    ensures
        r@ == emoji_name_of(*e),
{
    e.name()
}

/// Relies on `emojis::Emoji::shortcode`: the emoji's gemoji shortcode, if
/// it has one.
#[verifier::external_body]
fn emoji_shortcode(e: &'static emojis::Emoji) -> (r: Option<&'static str>)
    ensures
        match r {
            Some(s) => emoji_shortcode_of(*e) == Some(s@),
            None => emoji_shortcode_of(*e) is None,
        },
{
    e.shortcode()
}

/// The library's entry for one emoji of the catalog: its literal, name
/// and shortcode are exactly what the catalog's getters return.
pub fn entry_of(e: &'static emojis::Emoji) -> (r: EmojiEntry)
    ensures
        r@.literal == emoji_str_of(*e),
        r@.name == emoji_name_of(*e),
        r@.shortcode == emoji_shortcode_of(*e),
{
    let literal: String = emoji_str(e).to_owned();
    let name: String = emoji_name(e).to_owned();
    let shortcode: Option<String> = match emoji_shortcode(e) {
        Some(s) => Some(s.to_owned()),
        None => None,
    };
    EmojiEntry { literal, name, shortcode }
}

/// Whether a list of entries mirrors a list of catalog emojis, element by
/// element: same length, and each entry's literal, name and shortcode are
/// what that emoji's getters return.
pub open spec fn entries_match(r: Seq<EmojiEntry>, es: Seq<&'static emojis::Emoji>) -> bool {
    &&& r.len() == es.len()
    &&& forall|i: int|
        0 <= i < r.len() ==> (#[trigger] r[i])@.literal == emoji_str_of(*es[i]) && r[i]@.name
            == emoji_name_of(*es[i]) && r[i]@.shortcode == emoji_shortcode_of(*es[i])
}

fn entries_of(list: &Vec<&'static emojis::Emoji>) -> (r: Vec<EmojiEntry>)
    ensures
        entries_match(r@, list@),
{
    let mut r: Vec<EmojiEntry> = Vec::new();
    let mut i: usize = 0;
    while i < list.len()
        invariant
            i <= list.len(),
            r@.len() == i,
            forall|k: int|
                0 <= k < i ==> (#[trigger] r@[k])@.literal == emoji_str_of(*list@[k])
                    && r@[k]@.name == emoji_name_of(*list@[k]) && r@[k]@.shortcode
                    == emoji_shortcode_of(*list@[k]),
        decreases list.len() - i,
    {
        let entry = entry_of(list[i]);
        r.push(entry);
        i = i + 1;
    }
    r
}

/// The full emoji catalog as the library's entries, in catalog order:
/// each entry mirrors one of the emojis the catalog hands out.
pub fn catalog() -> (r: Vec<EmojiEntry>)
    ensures
        exists|es: Seq<&'static emojis::Emoji>| #[trigger] entries_match(r@, es),
{
    let list = emojis_iter();
    let r = entries_of(&list);
    proof {
        assert(entries_match(r@, list@));
    }
    r
}

/// The catalog entries matching a free-text query, best match first, as
/// the library's entries. The matching itself is delegated to the catalog
/// collaborator.
pub fn search(query: &str) -> (r: Vec<EmojiEntry>)
    ensures
        exists|es: Seq<&'static emojis::Emoji>| #[trigger] entries_match(r@, es),
{
    let list = emojis_search(query);
    let r = entries_of(&list);
    proof {
        assert(entries_match(r@, list@));
    }
    r
}

} // verus!
