//! Emoji entries and code-point normalization.
//!
//! An entry carries an emoji's literal character sequence, its display name
//! and an optional shortcode. Matching against the glyph index never uses
//! the literal sequence directly: it uses the normalized sequence, with the
//! presentation selector (U+FE0F) and the combining enclosing keycap
//! (U+20E3) filtered out.

use vstd::prelude::*;
use vstd::std_specs::iter::IteratorSpec;

verus! {

/// A code point that normalization removes: the presentation selector
/// U+FE0F or the combining enclosing keycap U+20E3.
pub open spec fn is_stripped_code_point(c: char) -> bool {
    c == '\u{FE0F}' || c == '\u{20E3}'
}

/// The normalized code-point sequence: `s` with the presentation-selector
/// and keycap-combining code points filtered out, and nothing else changed.
pub open spec fn spec_normalized(s: Seq<char>) -> Seq<char> {
    s.filter(|c: char| !is_stripped_code_point(c))
}

/// One emoji of the catalog: its literal character sequence, its
/// human-readable name, and an optional shortcode.
pub struct EmojiEntry {
    pub literal: String,
    pub name: String,
    pub shortcode: Option<String>,
}

/// The mathematical model of an [`EmojiEntry`].
pub ghost struct EmojiModel {
    pub literal: Seq<char>,
    pub name: Seq<char>,
    pub shortcode: Option<Seq<char>>,
}

impl View for EmojiEntry {
    type V = EmojiModel;

    open spec fn view(&self) -> EmojiModel {
        EmojiModel {
            literal: self.literal@,
            name: self.name@,
            shortcode: match self.shortcode {
                Some(s) => Some(s@),
                None => None,
            },
        }
    }
}

impl Clone for EmojiEntry {
    fn clone(&self) -> (r: Self)
        ensures
            r@ == self@,
    {
        EmojiEntry {
            literal: self.literal.clone(),
            name: self.name.clone(),
            shortcode: match &self.shortcode {
                Some(s) => Some(s.clone()),
                None => None,
            },
        }
    }
}

/// The characters of a string as a vector, in order.
pub fn chars_vec(s: &str) -> (r: Vec<char>)
    ensures
        r@ == s@,
{
    broadcast use vstd::string::axiom_spec_iter;
    broadcast use vstd::string::next_postcondition;

    let mut it = s.chars();
    let mut r: Vec<char> = Vec::new();
    proof {
        assert(r@ + it.remaining() =~= s@);
    }
    loop
        invariant_except_break
            it.obeys_prophetic_iter_laws(),
            it.decrease() is Some,
            r@ + it.remaining() == s@,
        ensures
            r@ == s@,
        decreases it.decrease()->0,
    {
        match it.next() {
            Some(c) => {
                r.push(c);
                proof {
                    assert(r@ + it.remaining() =~= s@);
                }
            },
            None => {
                proof {
                    assert(r@ =~= s@);
                }
                break ;
            },
        }
    }
    r
}

/// Filters the presentation-selector and keycap-combining code points out
/// of a code-point sequence, keeping everything else in order.
pub fn normalized_code_points(cps: &Vec<char>) -> (r: Vec<char>)
    ensures
        r@ == spec_normalized(cps@),
{
    let mut r: Vec<char> = Vec::new();
    let mut i: usize = 0;
    while i < cps.len()
        invariant
            i <= cps.len(),
            r@ == spec_normalized(cps@.take(i as int)),
        decreases cps.len() - i,
    {
        let c = cps[i];
        if !(c == '\u{FE0F}' || c == '\u{20E3}') {
            r.push(c);
        }
        proof {
            reveal(Seq::filter);
            let pre = cps@.take(i as int);
            let post = cps@.take(i as int + 1);
            assert(post.drop_last() =~= pre);
            assert(post.last() == c);
            assert(r@ == spec_normalized(post));
        }
        i = i + 1;
    }
    proof {
        assert(cps@.take(cps@.len() as int) =~= cps@);
    }
    r
}

impl EmojiEntry {
    /// The entry's original code points, in order.
    pub fn code_points(&self) -> (r: Vec<char>)
        ensures
            r@ == self@.literal,
    {
        chars_vec(self.literal.as_str())
    }

    /// The entry's normalized code points: the original sequence with the
    /// presentation-selector and keycap-combining code points removed.
    pub fn normalized(&self) -> (r: Vec<char>)
        ensures
            r@ == spec_normalized(self@.literal),
    {
        let cps = self.code_points();
        normalized_code_points(&cps)
    }

    /// The deterministic asset file name fragment for this entry, computed
    /// from its original (unnormalized) code points.
    pub fn asset_filename(&self) -> (r: String)
        ensures
            r@ == crate::asset_name::spec_asset_filename(self@.literal),
    {
        let cps = self.code_points();
        crate::asset_name::asset_filename(&cps)
    }
}

} // verus!
