//! The glyph index: one record per character, keyed by the character.
//!
//! A record pairs a character with the glyph that a font maps it to and the
//! glyph's embedded raster image. The index holds at most one record per
//! character across all processed font resources: inserting a character
//! that is already present overwrites the earlier record, so a later
//! resource wins. A record leaves the index the moment an emoji consumes
//! it; whatever is left at the end of a run is the orphaned remainder.

use vstd::prelude::*;

verus! {

broadcast use {vstd::set::group_set_axioms, vstd::seq_lib::group_seq_lib_default, vstd::map::group_map_axioms};

/// One font glyph with an embedded bitmap image: the font resource it came
/// from, the glyph identifier within that resource, the character that the
/// font's character-mapping subtable maps to it, and the raw image payload.
pub struct GlyphRecord {
    pub source_face: String,
    pub glyph_id: u16,
    pub character: u32,
    pub image_bytes: Vec<u8>,
}

/// The mathematical model of a [`GlyphRecord`].
pub ghost struct GlyphModel {
    pub source_face: Seq<char>,
    pub glyph_id: u16,
    pub character: u32,
    pub image_bytes: Seq<u8>,
}

impl View for GlyphRecord {
    type V = GlyphModel;

    open spec fn view(&self) -> GlyphModel {
        GlyphModel {
            source_face: self.source_face@,
            glyph_id: self.glyph_id,
            character: self.character,
            image_bytes: self.image_bytes@,
        }
    }
}

/// The map that a sequence of records denotes: later records win.
spec fn map_of(s: Seq<GlyphRecord>) -> Map<u32, GlyphModel>
    decreases s.len(),
{
    if s.len() == 0 {
        Map::empty()
    } else {
        map_of(s.drop_last()).insert(s.last().character, s.last()@)
    }
}

/// A key is in the denoted map exactly when some record carries it.
proof fn lemma_map_of_dom(s: Seq<GlyphRecord>, c: u32)
    ensures
        map_of(s).dom().contains(c) <==> exists|i: int|
            0 <= i < s.len() && #[trigger] s[i].character == c,
    decreases s.len(),
{
    if s.len() > 0 {
        lemma_map_of_dom(s.drop_last(), c);
        if s.last().character == c {
            assert(s[s.len() - 1].character == c);
        } else if exists|i: int| 0 <= i < s.len() && #[trigger] s[i].character == c {
            let i = choose|i: int| 0 <= i < s.len() && #[trigger] s[i].character == c;
            assert(s.drop_last()[i].character == c);
        }
    }
}

/// The denoted map is finite.
proof fn lemma_map_of_finite(s: Seq<GlyphRecord>)
    ensures
        map_of(s).dom().finite(),
    decreases s.len(),
{
    if s.len() > 0 {
        lemma_map_of_finite(s.drop_last());
    }
}

/// No two records share a character.
spec fn unique_characters(s: Seq<GlyphRecord>) -> bool {
    forall|i: int, j: int|
        0 <= i < j < s.len() ==> (#[trigger] s[i]).character != (#[trigger] s[j]).character
}

/// With unique characters, the denoted map has one entry per record.
proof fn lemma_map_of_len(s: Seq<GlyphRecord>)
    requires
        unique_characters(s),
    ensures
        map_of(s).dom().len() == s.len(),
    decreases s.len(),
{
    if s.len() > 0 {
        let rest = s.drop_last();
        assert(unique_characters(rest)) by {
            assert(forall|i: int, j: int|
                0 <= i < j < rest.len() ==> (#[trigger] rest[i]).character != (#[trigger] rest[j]).character);
        }
        lemma_map_of_len(rest);
        lemma_map_of_finite(rest);
        lemma_map_of_dom(rest, s.last().character);
        assert(forall|i: int| 0 <= i < rest.len() ==> (#[trigger] rest[i]).character != s.last().character) by {
            assert(forall|i: int|
                0 <= i < rest.len() ==> (#[trigger] s[i]).character != s[s.len() - 1].character);
            assert(forall|i: int| 0 <= i < rest.len() ==> rest[i] == s[i]);
        }
        assert(!map_of(rest).dom().contains(s.last().character));
    }
}

/// With unique characters, a record's character looks its model up.
proof fn lemma_map_of_index(s: Seq<GlyphRecord>, i: int)
    requires
        unique_characters(s),
        0 <= i < s.len(),
    ensures
        map_of(s).dom().contains(s[i].character),
        map_of(s)[s[i].character] == s[i]@,
    decreases s.len(),
{
    lemma_map_of_dom(s, s[i].character);
    if i == s.len() - 1 {
    } else {
        let rest = s.drop_last();
        assert(unique_characters(rest));
        assert(rest[i] == s[i]);
        lemma_map_of_index(rest, i);
        assert(s.last().character != s[i].character);
    }
}

/// Removing the record that carries `c` removes `c` from the denoted map.
proof fn lemma_map_of_remove(s: Seq<GlyphRecord>, i: int)
    requires
        unique_characters(s),
        0 <= i < s.len(),
    ensures
        map_of(s.remove(i)) == map_of(s).remove(s[i].character),
    decreases s.len(),
{
    let c = s[i].character;
    if i == s.len() - 1 {
        assert(s.remove(i) =~= s.drop_last());
        lemma_map_of_dom(s.drop_last(), c);
        assert(forall|j: int|
            0 <= j < s.drop_last().len() ==> (#[trigger] s.drop_last()[j]).character != c) by {
            assert(forall|j: int|
                0 <= j < s.len() - 1 ==> (#[trigger] s[j]).character != s[s.len() - 1].character);
        }
        assert(!map_of(s.drop_last()).dom().contains(c));
        assert(map_of(s.drop_last()).insert(c, s.last()@).remove(c) =~= map_of(s.drop_last()));
    } else {
        let rest = s.drop_last();
        assert(unique_characters(rest));
        assert(rest[i] == s[i]);
        lemma_map_of_remove(rest, i);
        assert(s.remove(i).drop_last() =~= rest.remove(i));
        assert(s.remove(i).last() == s.last());
        assert(s.last().character != c);
        assert(map_of(s.remove(i)) == map_of(rest.remove(i)).insert(
            s.last().character,
            s.last()@,
        ));
        assert(map_of(rest).remove(c).insert(s.last().character, s.last()@) =~= map_of(
            rest,
        ).insert(s.last().character, s.last()@).remove(c));
    }
}

/// Removing an absent key leaves the denoted map unchanged.
proof fn lemma_map_of_remove_absent(s: Seq<GlyphRecord>, c: u32)
    requires
        forall|i: int| 0 <= i < s.len() ==> (#[trigger] s[i]).character != c,
    ensures
        map_of(s).remove(c) == map_of(s),
{
    lemma_map_of_dom(s, c);
    assert(map_of(s).remove(c) =~= map_of(s));
}

/// The glyph index: a mapping from character to [`GlyphRecord`], with
/// last-wins overwrite semantics. Its model is a finite `Map` from the
/// character to the record's model.
pub struct GlyphIndex {
    records: Vec<GlyphRecord>,
}

impl View for GlyphIndex {
    type V = Map<u32, GlyphModel>;

    closed spec fn view(&self) -> Map<u32, GlyphModel> {
        map_of(self.records@)
    }
}

impl GlyphIndex {
    #[verifier::type_invariant]
    spec fn wf(&self) -> bool {
        unique_characters(self.records@)
    }

    /// An empty index.
    pub fn new() -> (r: GlyphIndex)
        ensures
            r@ == Map::<u32, GlyphModel>::empty(),
    {
        GlyphIndex { records: Vec::new() }
    }

    /// The position of the record carrying `c`, if any.
    fn find(&self, c: u32) -> (r: Option<usize>)
        ensures
            match r {
                Some(i) => i < self.records@.len() && self.records@[i as int].character == c,
                None => forall|i: int|
                    0 <= i < self.records@.len() ==> (#[trigger] self.records@[i]).character != c,
            },
    {
        let mut i: usize = 0;
        while i < self.records.len()
            invariant
                i <= self.records@.len(),
                forall|j: int| 0 <= j < i ==> (#[trigger] self.records@[j]).character != c,
            decreases self.records@.len() - i,
        {
            if self.records[i].character == c {
                return Some(i);
            }
            i = i + 1;
        }
        None
    }

    /// Whether the index holds a record for character `c`.
    pub fn contains_character(&self, c: u32) -> (r: bool)
        ensures
            r == self@.dom().contains(c),
    {
        proof {
            use_type_invariant(self);
            lemma_map_of_dom(self.records@, c);
        }
        self.find(c).is_some()
    }

    /// Removes and returns the record for character `c`, if one is held.
    pub fn remove(&mut self, c: u32) -> (r: Option<GlyphRecord>)
        ensures
            final(self)@ == old(self)@.remove(c),
            match r {
                Some(rec) => old(self)@.dom().contains(c) && rec@ == old(self)@[c]
                    && rec.character == c,
                None => !old(self)@.dom().contains(c),
            },
    {
        proof {
            use_type_invariant(&*self);
        }
        let ghost s0 = self.records@;
        let found = self.find(c);
        let mut recs: Vec<GlyphRecord> = Vec::new();
        core::mem::swap(&mut self.records, &mut recs);
        let r = match found {
            Some(i) => {
                proof {
                    lemma_map_of_index(s0, i as int);
                    lemma_map_of_remove(s0, i as int);
                }
                Some(recs.remove(i))
            },
            None => {
                proof {
                    lemma_map_of_dom(s0, c);
                    lemma_map_of_remove_absent(s0, c);
                }
                None
            },
        };
        core::mem::swap(&mut self.records, &mut recs);
        proof {
            if let Some(i) = found {
                assert(unique_characters(self.records@)) by {
                    assert(forall|x: int, y: int|
                        0 <= x < y < s0.remove(i as int).len() ==> (#[trigger] s0.remove(
                            i as int,
                        )[x]).character != (#[trigger] s0.remove(i as int)[y]).character);
                }
            }
        }
        r
    }

    /// Inserts a record, keyed by its character; an existing record for the
    /// same character is overwritten, so a later source wins.
    pub fn insert(&mut self, rec: GlyphRecord)
        ensures
            final(self)@ == old(self)@.insert(rec.character, rec@),
    {
        let c = rec.character;
        let _removed = self.remove(c);
        proof {
            use_type_invariant(&*self);
            lemma_map_of_dom(self.records@, c);
        }
        let ghost mid = self.records@;
        let mut recs: Vec<GlyphRecord> = Vec::new();
        core::mem::swap(&mut self.records, &mut recs);
        recs.push(rec);
        core::mem::swap(&mut self.records, &mut recs);
        proof {
            assert(self.records@.drop_last() =~= mid);
            assert(final(self)@ == old(self)@.remove(c).insert(c, rec@));
            assert(old(self)@.remove(c).insert(c, rec@) =~= old(self)@.insert(c, rec@));
            assert(unique_characters(self.records@)) by {
                let s = self.records@;
                assert(forall|i: int| 0 <= i < s.len() - 1 ==> (#[trigger] s[i]).character != c);
                assert(forall|i: int| 0 <= i < s.len() - 1 ==> s[i] == mid[i]);
            }
        }
    }

    /// The index always denotes a finite map: one entry per held record.
    pub proof fn lemma_dom_finite(&self)
        ensures
            self@.dom().finite(),
    {
        lemma_map_of_finite(self.records@);
    }

    /// The number of records held.
    pub fn len(&self) -> (n: usize)
        ensures
            n == self@.dom().len(),
    {
        proof {
            use_type_invariant(self);
            lemma_map_of_len(self.records@);
        }
        self.records.len()
    }

    /// Hands the remaining records out: exactly one record per held
    /// character, each carrying its model, and every held character is
    /// carried by one of them.
    pub fn into_records(self) -> (r: Vec<GlyphRecord>)
        ensures
            r@.len() == self@.dom().len(),
            forall|i: int|
                0 <= i < r@.len() ==> self@.dom().contains((#[trigger] r@[i]).character) && r@[i]@
                    == self@[r@[i].character],
            forall|i: int, j: int|
                0 <= i < j < r@.len() ==> (#[trigger] r@[i]).character != (
                #[trigger] r@[j]).character,
            forall|c: u32|
                self@.dom().contains(c) ==> exists|i: int|
                    0 <= i < r@.len() && (#[trigger] r@[i]).character == c,
    {
        proof {
            use_type_invariant(&self);
            lemma_map_of_len(self.records@);
            assert forall|i: int| 0 <= i < self.records@.len() implies self@.dom().contains(
                (#[trigger] self.records@[i]).character,
            ) && self.records@[i]@ == self@[self.records@[i].character] by {
                lemma_map_of_index(self.records@, i);
            }
            assert forall|c: u32| self@.dom().contains(c) implies exists|i: int|
                0 <= i < self.records@.len() && (#[trigger] self.records@[i]).character == c by {
                lemma_map_of_dom(self.records@, c);
                let j = choose|j: int|
                    0 <= j < self.records@.len() && #[trigger] self.records@[j].character == c;
                assert((self.records@[j]).character == c);
            }
        }
        self.records
    }
}

} // verus!
