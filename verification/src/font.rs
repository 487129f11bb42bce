//! The font glyph index builder and per-emoji glyph lookup.
//!
//! A font resource is parsed by the `ttf_parser` crate; this module trusts
//! a small set of wrappers around it and verifies everything around them.
//! For each font the builder requires exactly one character-mapping
//! subtable, walks every code point that subtable enumerates, and records
//! the characters whose glyph carries an embedded raster image, inserting
//! into the shared index with last-resource-wins overwrite semantics.

use vstd::prelude::*;
use crate::emoji::EmojiEntry;
use crate::emoji::spec_normalized;
use crate::errors::FontError;
use crate::errors::GlyphLookupError;
use crate::glyph_index::GlyphIndex;
use crate::glyph_index::GlyphModel;
use crate::glyph_index::GlyphRecord;

verus! {

#[verifier::external_type_specification]
#[verifier::external_body]
pub struct ExFace<'a>(ttf_parser::Face<'a>);

#[verifier::external_type_specification]
#[verifier::external_body]
pub struct ExSubtable<'a>(ttf_parser::cmap::Subtable<'a>);

#[verifier::external_type_specification]
#[verifier::external_body]
pub struct ExFaceParsingError(ttf_parser::FaceParsingError);

/// What `cmap::Subtable::glyph_index` returns for a code point: the glyph
/// identifier the subtable maps it to, if any. A pure function of the
/// subtable's data.
pub uninterp spec fn subtable_glyph_of(s: ttf_parser::cmap::Subtable, c: u32) -> Option<u16>;

/// The code points that `cmap::Subtable::codepoints` enumerates, in its
/// enumeration order. A pure function of the subtable's data. Note that a
/// malformed subtable may map further code points that this enumeration
/// does not visit, and may enumerate code points it maps to no glyph: the
/// builder works from the enumeration.
pub uninterp spec fn subtable_codepoints_of(s: ttf_parser::cmap::Subtable) -> Seq<u32>;

/// What `Face::glyph_raster_image` returns for a glyph at the largest
/// strike: the embedded raster image payload, if the font stores one. A
/// pure function of the font's data.
pub uninterp spec fn face_raster_of(f: ttf_parser::Face, glyph_id: u16) -> Option<Seq<u8>>;

/// What `Face::glyph_index` returns for a character: the glyph resolved
/// through the font's Unicode subtables, if any.
pub uninterp spec fn face_glyph_of(f: ttf_parser::Face, c: char) -> Option<u16>;

/// What `Face::glyph_variation_index` returns for a base character and a
/// variation selector.
pub uninterp spec fn face_variation_glyph_of(f: ttf_parser::Face, c: char, v: char) -> Option<
    u16,
>;

/// Whether `Face::from_slice` accepts these bytes as a font face. A pure
/// function of the bytes and the face index.
pub uninterp spec fn parse_ok_of(data: Seq<u8>, face_index: u32) -> bool;

/// How many character-mapping subtables the face parsed from these bytes
/// exposes. A pure function of the bytes and the face index.
pub uninterp spec fn font_cmap_count_of(data: Seq<u8>, face_index: u32) -> nat;

/// How many character-mapping subtables `Face::character_mapping_subtables`
/// hands out for a face value.
pub uninterp spec fn face_cmap_count_of(f: ttf_parser::Face) -> nat;

/// Relies on `ttf_parser::Face::from_slice`: parses one face of a font
/// resource, failing on malformed data instead of panicking. The parsed
/// face — its subtable list included — is a pure function of the bytes and
/// the face index.
#[verifier::external_body]
fn parse_face<'a>(data: &'a [u8], face_index: u32) -> (r: Result<
    ttf_parser::Face<'a>,
    ttf_parser::FaceParsingError,
>)
    ensures
        r is Ok <==> parse_ok_of(data@, face_index),
        r matches Ok(f) ==> face_cmap_count_of(f) == font_cmap_count_of(data@, face_index),
{
    ttf_parser::Face::from_slice(data, face_index)
}

/// Relies on `Face::character_mapping_subtables`: hands out every
/// character-mapping subtable the font exposes, in font order.
#[verifier::external_body]
fn cmap_subtables<'a>(face: &'a ttf_parser::Face<'a>) -> (r: Vec<ttf_parser::cmap::Subtable<'a>>)
    ensures
        r@.len() == face_cmap_count_of(*face),
{
    face.character_mapping_subtables().collect()
}

/// Relies on `cmap::Subtable::codepoints`: calls its callback once per
/// code point it enumerates, in the table's order.
#[verifier::external_body]
fn subtable_codepoints<'a>(s: &ttf_parser::cmap::Subtable<'a>) -> (r: Vec<u32>)
    ensures
        r@ == subtable_codepoints_of(*s),
{
    let mut v = Vec::new();
    s.codepoints(|c| v.push(c));
    v
}

/// Relies on `cmap::Subtable::glyph_index`: maps a code point to the glyph
/// identifier the subtable defines for it.
#[verifier::external_body]
fn subtable_glyph_index<'a>(s: &ttf_parser::cmap::Subtable<'a>, c: u32) -> (r: Option<u16>)
    ensures
        r == subtable_glyph_of(*s, c),
{
    s.glyph_index(c).map(|g| g.0)
}

/// Relies on `Face::glyph_raster_image` at the largest strike
/// (`u16::MAX`): the glyph's embedded raster image payload, if any.
#[verifier::external_body]
fn glyph_raster_image<'a>(face: &ttf_parser::Face<'a>, glyph_id: u16) -> (r: Option<Vec<u8>>)
    ensures
        match r {
            Some(d) => face_raster_of(*face, glyph_id) == Some(d@),
            None => face_raster_of(*face, glyph_id) is None,
        },
{
    face.glyph_raster_image(ttf_parser::GlyphId(glyph_id), u16::MAX).map(|i| i.data.to_vec())
}

/// Relies on `Face::glyph_index`: resolves a glyph for a character through
/// the font's Unicode subtables.
#[verifier::external_body]
fn face_glyph_index<'a>(face: &ttf_parser::Face<'a>, c: char) -> (r: Option<u16>)
    ensures
        r == face_glyph_of(*face, c),
{
    face.glyph_index(c).map(|g| g.0)
}

/// Relies on `Face::glyph_variation_index`: resolves a variation glyph
/// from a base character and a variation selector.
#[verifier::external_body]
fn face_variation_index<'a>(face: &ttf_parser::Face<'a>, c: char, variation: char) -> (r: Option<
    u16,
>)
    ensures
        r == face_variation_glyph_of(*face, c, variation),
{
    face.glyph_variation_index(c, variation).map(|g| g.0)
}

/// Parses one face of a font resource; malformed data is a fatal
/// [`FontError::Parse`].
pub fn parse_font_face<'a>(data: &'a [u8], face_index: u32) -> (r: Result<
    ttf_parser::Face<'a>,
    FontError,
>)
    ensures
        r is Ok <==> parse_ok_of(data@, face_index),
        r matches Err(e) ==> e == FontError::Parse,
        r matches Ok(f) ==> face_cmap_count_of(f) == font_cmap_count_of(data@, face_index),
{
    match parse_face(data, face_index) {
        Ok(face) => Ok(face),
        Err(_) => Err(FontError::Parse),
    }
}

/// Requires exactly one character-mapping subtable and hands it out;
/// a font exposing zero or two-or-more subtables is rejected outright,
/// before any index entry is produced.
pub fn single_subtable<'a>(subtables: Vec<ttf_parser::cmap::Subtable<'a>>) -> (r: Result<
    ttf_parser::cmap::Subtable<'a>,
    FontError,
>)
    ensures
        subtables@.len() == 1 ==> (r matches Ok(s) && s == subtables@[0]),
        subtables@.len() != 1 ==> r == Result::<ttf_parser::cmap::Subtable<'a>, FontError>::Err(
            FontError::SubtableCount { count: subtables@.len() as usize },
        ),
{
    let count = subtables.len();
    if count == 1 {
        let mut subtables = subtables;
        match subtables.pop() {
            Some(s) => Ok(s),
            None => Err(FontError::SubtableCount { count }),
        }
    } else {
        Err(FontError::SubtableCount { count })
    }
}

/// The records that scanning a subtable of a face contributes to the
/// index: one per enumerated code point whose glyph carries a raster
/// image.
pub open spec fn spec_glyph_records(
    face: ttf_parser::Face,
    sub: ttf_parser::cmap::Subtable,
    source: Seq<char>,
) -> Map<u32, GlyphModel> {
    Map::new(
        |c: u32|
            subtable_codepoints_of(sub).contains(c) && subtable_glyph_of(sub, c) is Some
                && face_raster_of(face, subtable_glyph_of(sub, c).unwrap()) is Some,
        |c: u32|
            GlyphModel {
                source_face: source,
                glyph_id: subtable_glyph_of(sub, c).unwrap(),
                character: c,
                image_bytes: face_raster_of(face, subtable_glyph_of(sub, c).unwrap()).unwrap(),
            },
    )
}

proof fn lemma_take_to_set_step(s: Seq<u32>, i: int)
    requires
        0 <= i < s.len(),
    ensures
        s.take(i + 1).to_set() == s.take(i).to_set().insert(s[i]),
{
    broadcast use vstd::set::group_set_axioms;

    assert forall|x: u32| s.take(i + 1).to_set().contains(x) implies s.take(i).to_set().insert(
        s[i],
    ).contains(x) by {
        let j = choose|j: int| 0 <= j < s.take(i + 1).len() && #[trigger] s.take(i + 1)[j] == x;
        if j < i {
            assert(s.take(i)[j] == x);
            assert(s.take(i).contains(x));
        } else {
            assert(x == s[i]);
        }
    }
    assert forall|x: u32|
        s.take(i).to_set().insert(s[i]).contains(x) implies s.take(i + 1).to_set().contains(x) by {
        if x == s[i] {
            assert(s.take(i + 1)[i] == x);
            assert(s.take(i + 1).contains(x));
        } else {
            let j = choose|j: int| 0 <= j < s.take(i).len() && #[trigger] s.take(i)[j] == x;
            assert(s.take(i + 1)[j] == x);
            assert(s.take(i + 1).contains(x));
        }
    }
    assert(s.take(i + 1).to_set() =~= s.take(i).to_set().insert(s[i]));
}

/// Walks every code point the subtable enumerates; each one whose glyph
/// carries an embedded raster image is recorded in the index, keyed by the
/// character, overwriting any record an earlier font contributed.
pub fn scan_subtable<'a>(
    face: &ttf_parser::Face<'a>,
    sub: &ttf_parser::cmap::Subtable<'a>,
    source: &str,
    index: &mut GlyphIndex,
)
    ensures
        final(index)@ == old(index)@.union_prefer_right(
            spec_glyph_records(*face, *sub, source@),
        ),
{
    broadcast use vstd::set::group_set_axioms;

    let ghost records = spec_glyph_records(*face, *sub, source@);
    let cps = subtable_codepoints(sub);
    let mut i: usize = 0;
    proof {
        assert(cps@.take(0).to_set() =~= Set::<u32>::empty());
        assert(index@ =~= old(index)@.union_prefer_right(
            records.restrict(cps@.take(0).to_set()),
        ));
    }
    while i < cps.len()
        invariant
            i <= cps.len(),
            records == spec_glyph_records(*face, *sub, source@),
            cps@ == subtable_codepoints_of(*sub),
            index@ == old(index)@.union_prefer_right(records.restrict(cps@.take(i as int).to_set())),
        decreases cps.len() - i,
    {
        let c = cps[i];
        let ghost pre = records.restrict(cps@.take(i as int).to_set());
        let ghost post = records.restrict(cps@.take(i as int + 1).to_set());
        proof {
            lemma_take_to_set_step(cps@, i as int);
            assert(cps@.contains(c)) by {
                assert(cps@[i as int] == c);
            }
        }
        match subtable_glyph_index(sub, c) {
            Some(glyph_id) => {
                match glyph_raster_image(face, glyph_id) {
                    Some(image_bytes) => {
                        let record = GlyphRecord {
                            source_face: source.to_owned(),
                            glyph_id,
                            character: c,
                            image_bytes,
                        };
                        proof {
                            assert(records.dom().contains(c));
                            assert(record@ == records[c]);
                        }
                        index.insert(record);
                        proof {
                            assert(index@ =~= old(index)@.union_prefer_right(post));
                        }
                    },
                    None => {
                        proof {
                            assert(!records.dom().contains(c));
                            assert(pre =~= post);
                        }
                    },
                }
            },
            None => {
                proof {
                    assert(!records.dom().contains(c));
                    assert(pre =~= post);
                }
            },
        }
        i = i + 1;
    }
    proof {
        assert(cps@.take(cps@.len() as int) =~= cps@);
        assert forall|k: u32| records.dom().contains(k) implies cps@.to_set().contains(k) by {
            assert(subtable_codepoints_of(*sub).contains(k));
        }
        assert(records.restrict(cps@.to_set()) =~= records);
    }
}

/// Scans one parsed font face into the index. The face must expose
/// exactly one character-mapping subtable: any other count is a fatal
/// [`FontError::SubtableCount`], reported before any index entry is
/// produced.
pub fn scan_face<'a>(face: &'a ttf_parser::Face<'a>, source: &str, index: &mut GlyphIndex) -> (r:
    Result<(), FontError>)
    ensures
        r is Ok <==> face_cmap_count_of(*face) == 1,
        r matches Err(e) ==> final(index)@ == old(index)@ && e == (FontError::SubtableCount {
            count: face_cmap_count_of(*face) as usize,
        }),
        r is Ok ==> exists|sub: ttf_parser::cmap::Subtable<'a>|
            final(index)@ == old(index)@.union_prefer_right(
                #[trigger] spec_glyph_records(*face, sub, source@),
            ),
{
    let subtables = cmap_subtables(face);
    match single_subtable(subtables) {
        Ok(sub) => {
            scan_subtable(face, &sub, source, index);
            Ok(())
        },
        Err(e) => Err(e),
    }
}

/// Whether scanning these bytes as a font succeeds: the data parses and
/// the face exposes exactly one character-mapping subtable.
pub open spec fn spec_font_ok(data: Seq<u8>, face_index: u32) -> bool {
    parse_ok_of(data, face_index) && font_cmap_count_of(data, face_index) == 1
}

/// Parses a font resource and scans it into the index. Succeeds exactly
/// when the data parses and the face exposes exactly one character-mapping
/// subtable; any failure is fatal and leaves the index exactly as it was.
pub fn scan_font(data: &[u8], face_index: u32, source: &str, index: &mut GlyphIndex) -> (r: Result<
    (),
    FontError,
>)
    ensures
        r is Ok <==> spec_font_ok(data@, face_index),
        (r == Result::<(), FontError>::Err(FontError::Parse)) <==> !parse_ok_of(
            data@,
            face_index,
        ),
        parse_ok_of(data@, face_index) && font_cmap_count_of(data@, face_index) != 1 ==> r
            == Result::<(), FontError>::Err(
            FontError::SubtableCount { count: font_cmap_count_of(data@, face_index) as usize },
        ),
        r is Err ==> final(index)@ == old(index)@,
        r is Ok ==> exists|f: ttf_parser::Face, sub: ttf_parser::cmap::Subtable|
            final(index)@ == old(index)@.union_prefer_right(
                #[trigger] spec_glyph_records(f, sub, source@),
            ),
{
    match parse_font_face(data, face_index) {
        Ok(face) => scan_face(&face, source, index),
        Err(e) => Err(e),
    }
}

/// One font resource handed to the builder: the path it was read from
/// (the source-face identifier of the records it contributes) and its raw
/// bytes.
pub struct FontSource {
    pub path: String,
    pub data: Vec<u8>,
}

/// The in-list-order union of the record maps that a sequence of scanned
/// `(face, subtable)` pairs contributes, a later font overwriting an
/// earlier one's record for the same character.
pub open spec fn spec_scan_union(
    scans: Seq<(ttf_parser::Face, ttf_parser::cmap::Subtable)>,
    fonts: Seq<FontSource>,
) -> Map<u32, GlyphModel>
    decreases scans.len(),
{
    if scans.len() == 0 {
        Map::empty()
    } else {
        spec_scan_union(scans.drop_last(), fonts.drop_last()).union_prefer_right(
            spec_glyph_records(scans.last().0, scans.last().1, fonts.last().path@),
        )
    }
}

/// Builds the glyph index over an ordered list of font resources: each
/// one is parsed, required to expose exactly one character-mapping
/// subtable, and scanned in list order, so a later resource overwrites an
/// earlier one's record for the same character. Succeeds exactly when
/// every listed font does; any failure is fatal for the whole run, and no
/// partial index is returned.
pub fn build_glyph_index<'a>(fonts: &'a Vec<FontSource>) -> (r: Result<GlyphIndex, FontError>)
    ensures
        r is Ok <==> (forall|k: int|
            0 <= k < fonts@.len() ==> spec_font_ok((#[trigger] fonts@[k]).data@, 0)),
        r matches Ok(idx) ==> exists|
            scans: Seq<(ttf_parser::Face<'a>, ttf_parser::cmap::Subtable<'a>)>,
        | scans.len() == fonts@.len() && idx@ == #[trigger] spec_scan_union(scans, fonts@),
{
    let mut index = GlyphIndex::new();
    let ghost mut scans: Seq<(ttf_parser::Face<'a>, ttf_parser::cmap::Subtable<'a>)> =
        Seq::empty();
    let mut i: usize = 0;
    proof {
        assert(index@ =~= spec_scan_union(scans, fonts@.take(0)));
    }
    while i < fonts.len()
        invariant
            i <= fonts.len(),
            scans.len() == i,
            forall|k: int| 0 <= k < i ==> spec_font_ok((#[trigger] fonts@[k]).data@, 0),
            index@ == spec_scan_union(scans, fonts@.take(i as int)),
        decreases fonts.len() - i,
    {
        let font = &fonts[i];
        let ghost pre = index@;
        match scan_font(font.data.as_slice(), 0, font.path.as_str(), &mut index) {
            Ok(()) => {
                proof {
                    let (f, sub) = choose|
                        f: ttf_parser::Face<'a>,
                        sub: ttf_parser::cmap::Subtable<'a>,
                    |
                        index@ == pre.union_prefer_right(
                            #[trigger] spec_glyph_records(f, sub, font.path@),
                        );
                    let ghost prev = scans;
                    scans = scans.push((f, sub));
                    assert(scans.drop_last() =~= prev);
                    assert(fonts@.take(i as int + 1).drop_last() =~= fonts@.take(i as int));
                    assert(fonts@.take(i as int + 1).last() == fonts@[i as int]);
                    assert(index@ == spec_scan_union(scans, fonts@.take(i as int + 1)));
                }
            },
            Err(e) => {
                proof {
                    assert(!spec_font_ok(fonts@[i as int].data@, 0));
                }
                return Err(e);
            },
        }
        i = i + 1;
    }
    proof {
        assert(fonts@.take(fonts@.len() as int) =~= fonts@);
    }
    Ok(index)
}

/// What looking an emoji's glyph image up in a face returns: the raster
/// image of the glyph its normalized code points resolve to — through the
/// plain character mapping for one code point, through the variation
/// mapping for two — or the error naming what was absent.
pub open spec fn spec_lookup_glyph_image(face: ttf_parser::Face, literal: Seq<char>) -> Result<
    Seq<u8>,
    GlyphLookupError,
> {
    let norm = spec_normalized(literal);
    if norm.len() == 1 {
        match face_glyph_of(face, norm[0]) {
            Some(g) => match face_raster_of(face, g) {
                Some(d) => Ok(d),
                None => Err(GlyphLookupError::NoImage),
            },
            None => Err(GlyphLookupError::NoGlyphIndex),
        }
    } else if norm.len() == 2 {
        match face_variation_glyph_of(face, norm[0], norm[1]) {
            Some(g) => match face_raster_of(face, g) {
                Some(d) => Ok(d),
                None => Err(GlyphLookupError::NoImage),
            },
            None => Err(GlyphLookupError::NoGlyphIndex),
        }
    } else {
        Err(GlyphLookupError::UnsupportedCodePointCount)
    }
}

/// Looks one emoji's glyph image up in a parsed face, by its normalized
/// code points: one code point goes through the plain character mapping,
/// two go through the variation mapping, any other count is unsupported.
pub fn lookup_glyph_image<'a>(entry: &EmojiEntry, face: &ttf_parser::Face<'a>) -> (r: Result<
    Vec<u8>,
    GlyphLookupError,
>)
    ensures
        match (r, spec_lookup_glyph_image(*face, entry@.literal)) {
            (Ok(d), Ok(sd)) => d@ == sd,
            (Err(e), Err(se)) => e == se,
            _ => false,
        },
{
    let norm = entry.normalized();
    if norm.len() == 1 {
        match face_glyph_index(face, norm[0]) {
            Some(g) => match glyph_raster_image(face, g) {
                Some(d) => Ok(d),
                None => Err(GlyphLookupError::NoImage),
            },
            None => Err(GlyphLookupError::NoGlyphIndex),
        }
    } else if norm.len() == 2 {
        match face_variation_index(face, norm[0], norm[1]) {
            Some(g) => match glyph_raster_image(face, g) {
                Some(d) => Ok(d),
                None => Err(GlyphLookupError::NoImage),
            },
            None => Err(GlyphLookupError::NoGlyphIndex),
        }
    } else {
        Err(GlyphLookupError::UnsupportedCodePointCount)
    }
}

/// The `(code point, glyph identifier)` pairs that the first `n` entries
/// of a subtable's enumeration define, in enumeration order: one pair per
/// enumerated code point the subtable maps to a glyph; a code point with
/// no glyph is silently omitted, not an error.
pub open spec fn spec_subtable_pairs(
    sub: ttf_parser::cmap::Subtable,
    cps: Seq<u32>,
) -> Seq<(u32, u16)>
    decreases cps.len(),
{
    if cps.len() == 0 {
        Seq::empty()
    } else {
        spec_subtable_pairs(sub, cps.drop_last()) + (match subtable_glyph_of(sub, cps.last()) {
            Some(g) => seq![(cps.last(), g)],
            None => Seq::<(u32, u16)>::empty(),
        })
    }
}

/// Every `(code point, glyph identifier)` pair the subtable defines, in
/// its enumeration order.
pub fn subtable_pairs<'a>(sub: &ttf_parser::cmap::Subtable<'a>) -> (r: Vec<(u32, u16)>)
    ensures
        r@ == spec_subtable_pairs(*sub, subtable_codepoints_of(*sub)),
{
    let cps = subtable_codepoints(sub);
    let mut r: Vec<(u32, u16)> = Vec::new();
    let mut i: usize = 0;
    proof {
        assert(r@ =~= spec_subtable_pairs(*sub, cps@.take(0)));
    }
    while i < cps.len()
        invariant
            i <= cps.len(),
            cps@ == subtable_codepoints_of(*sub),
            r@ == spec_subtable_pairs(*sub, cps@.take(i as int)),
        decreases cps.len() - i,
    {
        let c = cps[i];
        match subtable_glyph_index(sub, c) {
            Some(g) => {
                r.push((c, g));
            },
            None => {
            },
        }
        proof {
            let pre = cps@.take(i as int);
            let post = cps@.take(i as int + 1);
            assert(post.drop_last() =~= pre);
            assert(post.last() == c);
            assert(r@ =~= spec_subtable_pairs(*sub, post));
        }
        i = i + 1;
    }
    proof {
        assert(cps@.take(cps@.len() as int) =~= cps@);
    }
    r
}

/// The `(code point, glyph identifier)` pairs of a font's single
/// character-mapping subtable, in its enumeration order; a font exposing
/// any other number of subtables is rejected outright, before any pair is
/// produced.
pub fn glyph_ids<'a>(face: &'a ttf_parser::Face<'a>) -> (r: Result<Vec<(u32, u16)>, FontError>)
    ensures
        r is Ok <==> face_cmap_count_of(*face) == 1,
        r matches Err(e) ==> e == (FontError::SubtableCount {
            count: face_cmap_count_of(*face) as usize,
        }),
        r is Ok ==> exists|sub: ttf_parser::cmap::Subtable<'a>|
            (r->Ok_0)@ == #[trigger] spec_subtable_pairs(sub, subtable_codepoints_of(sub)),
{
    let subtables = cmap_subtables(face);
    match single_subtable(subtables) {
        Ok(sub) => {
            let pairs = subtable_pairs(&sub);
            let res: Result<Vec<(u32, u16)>, FontError> = Ok(pairs);
            proof {
                assert((res->Ok_0)@ == spec_subtable_pairs(sub, subtable_codepoints_of(sub)));
            }
            res
        },
        Err(e) => Err(e),
    }
}

} // verus!
