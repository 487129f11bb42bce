//! The reconciliation run: partitions a catalog of emoji against the glyph
//! index.
//!
//! Each entry of the catalog, in order, is matched against the index: an
//! entry whose normalized code-point sequence has exactly one code point
//! that is held by the index consumes the record (it leaves the index) and
//! is classified resolved; every other entry is classified missing. The
//! records still in the index after the whole catalog has been processed
//! are the orphaned glyphs.

use vstd::prelude::*;
use crate::emoji::EmojiEntry;
use crate::emoji::EmojiModel;
use crate::emoji::spec_normalized;
use crate::glyph_index::GlyphIndex;
use crate::glyph_index::GlyphModel;
use crate::glyph_index::GlyphRecord;

verus! {

/// A resolved match: the emoji entry and the glyph record it consumed.
pub struct ResolvedMatch {
    pub entry: EmojiEntry,
    pub record: GlyphRecord,
}

/// The mathematical model of a [`ResolvedMatch`].
pub ghost struct ResolvedModel {
    pub entry: EmojiModel,
    pub record: GlyphModel,
}

impl View for ResolvedMatch {
    type V = ResolvedModel;

    open spec fn view(&self) -> ResolvedModel {
        ResolvedModel { entry: self.entry@, record: self.record@ }
    }
}

/// The state of a reconciliation run: what has been resolved, what is
/// missing a glyph, and what is left of the index.
pub ghost struct ReconState {
    pub resolved: Seq<ResolvedModel>,
    pub missing: Seq<EmojiModel>,
    pub index: Map<u32, GlyphModel>,
}

/// Whether an entry can match the index: its normalized sequence has
/// exactly one code point and the index holds that code point.
pub open spec fn spec_eligible(e: EmojiModel, index: Map<u32, GlyphModel>) -> bool {
    let norm = spec_normalized(e.literal);
    norm.len() == 1 && index.dom().contains(norm[0] as u32)
}

/// One reconciliation step: an eligible entry consumes its record and is
/// resolved; any other entry is missing and leaves the index unchanged.
pub open spec fn spec_step(st: ReconState, e: EmojiModel) -> ReconState {
    let norm = spec_normalized(e.literal);
    if spec_eligible(e, st.index) {
        let c = norm[0] as u32;
        ReconState {
            resolved: st.resolved.push(ResolvedModel { entry: e, record: st.index[c] }),
            missing: st.missing,
            index: st.index.remove(c),
        }
    } else {
        ReconState { resolved: st.resolved, missing: st.missing.push(e), index: st.index }
    }
}

/// The state after reconciling a whole catalog, in order, against an index.
pub open spec fn spec_reconcile(catalog: Seq<EmojiModel>, index: Map<u32, GlyphModel>) -> ReconState {
    catalog.fold_left(
        ReconState { resolved: Seq::empty(), missing: Seq::empty(), index },
        |st: ReconState, e: EmojiModel| spec_step(st, e),
    )
}

proof fn lemma_reconcile_snoc(catalog: Seq<EmojiModel>, index: Map<u32, GlyphModel>, e: EmojiModel)
    ensures
        spec_reconcile(catalog.push(e), index) == spec_step(spec_reconcile(catalog, index), e),
{
    assert(catalog.push(e).drop_last() =~= catalog);
    assert(catalog.push(e).last() == e);
}

/// The outcome of a reconciliation run: the resolved matches with their
/// consumed records, and the entries that lack a usable glyph. The records
/// left in the index are the orphaned glyphs.
pub struct ReconcileReport {
    pub resolved: Vec<ResolvedMatch>,
    pub missing: Vec<EmojiEntry>,
}

/// Reconciles the catalog, in order, against the index: every entry whose
/// normalized sequence is a single code point held by the index consumes
/// its record and is returned resolved; every other entry is returned
/// missing; the index keeps exactly the unconsumed records.
pub fn reconcile(catalog: &Vec<EmojiEntry>, index: &mut GlyphIndex) -> (r: ReconcileReport)
    ensures
        ({
            let end = spec_reconcile(catalog@.map_values(|e: EmojiEntry| e@), old(index)@);
            &&& r.resolved@.map_values(|m: ResolvedMatch| m@) == end.resolved
            &&& r.missing@.map_values(|e: EmojiEntry| e@) == end.missing
            &&& final(index)@ == end.index
        }),
        r.resolved@.len() + r.missing@.len() == catalog@.len(),
        r.resolved@.len() <= old(index)@.dom().len(),
        final(index)@.dom().len() == old(index)@.dom().len() - r.resolved@.len(),
{
    let ghost cat = catalog@.map_values(|e: EmojiEntry| e@);
    let ghost index0 = index@;
    proof {
        index.lemma_dom_finite();
        lemma_reconcile_counts(cat, index0);
    }
    let mut resolved: Vec<ResolvedMatch> = Vec::new();
    let mut missing: Vec<EmojiEntry> = Vec::new();
    let mut i: usize = 0;
    proof {
        assert(cat.take(0) =~= Seq::<EmojiModel>::empty());
        assert(resolved@.map_values(|m: ResolvedMatch| m@) =~= Seq::<ResolvedModel>::empty());
        assert(missing@.map_values(|e: EmojiEntry| e@) =~= Seq::<EmojiModel>::empty());
    }
    while i < catalog.len()
        invariant
            i <= catalog.len(),
            cat == catalog@.map_values(|e: EmojiEntry| e@),
            index0 == old(index)@,
            ({
                let st = spec_reconcile(cat.take(i as int), index0);
                &&& resolved@.map_values(|m: ResolvedMatch| m@) == st.resolved
                &&& missing@.map_values(|e: EmojiEntry| e@) == st.missing
                &&& index@ == st.index
            }),
        decreases catalog.len() - i,
    {
        let ghost st = spec_reconcile(cat.take(i as int), index0);
        let entry = &catalog[i];
        let norm = entry.normalized();
        if norm.len() == 1 {
            let c = norm[0] as u32;
            match index.remove(c) {
                Some(rec) => {
                    resolved.push(ResolvedMatch { entry: entry.clone(), record: rec });
                },
                None => {
                    proof {
                        assert(index@ =~= st.index.remove(c));
                    }
                    missing.push(entry.clone());
                },
            }
        } else {
            missing.push(entry.clone());
        }
        proof {
            assert(cat.take(i as int + 1) =~= cat.take(i as int).push(cat[i as int]));
            lemma_reconcile_snoc(cat.take(i as int), index0, cat[i as int]);
            assert(cat[i as int] == entry@);
            let post = spec_reconcile(cat.take(i as int + 1), index0);
            assert(post == spec_step(st, entry@));
            assert(resolved@.map_values(|m: ResolvedMatch| m@) =~= post.resolved);
            assert(missing@.map_values(|e: EmojiEntry| e@) =~= post.missing);
            if !spec_eligible(entry@, st.index) && spec_normalized(entry@.literal).len() == 1 {
                assert(index@ =~= post.index);
            }
        }
        i = i + 1;
    }
    proof {
        assert(cat.take(catalog@.len() as int) =~= cat);
    }
    ReconcileReport { resolved, missing }
}

/// An entry whose normalized sequence is a single code point held by the
/// index is always resolved: the step records the match, consumes exactly
/// that record, and reports nothing missing.
pub proof fn lemma_single_code_point_match_resolves(st: ReconState, e: EmojiModel)
    requires
        spec_normalized(e.literal).len() == 1,
        st.index.dom().contains(spec_normalized(e.literal)[0] as u32),
    ensures
        ({
            let c = spec_normalized(e.literal)[0] as u32;
            &&& spec_step(st, e).resolved == st.resolved.push(
                ResolvedModel { entry: e, record: st.index[c] },
            )
            &&& spec_step(st, e).missing == st.missing
            &&& spec_step(st, e).index == st.index.remove(c)
            &&& !spec_step(st, e).index.dom().contains(c)
        }),
{
}

/// An entry whose normalized sequence does not have exactly one code point
/// is always classified missing, whatever the index holds — even when each
/// of its code points is individually a key of the index.
pub proof fn lemma_multi_code_point_never_matches(st: ReconState, e: EmojiModel)
    requires
        spec_normalized(e.literal).len() != 1,
    ensures
        spec_step(st, e).missing == st.missing.push(e),
        spec_step(st, e).resolved == st.resolved,
        spec_step(st, e).index == st.index,
{
}

/// The accounting of a full run: over a catalog of `N` entries and an
/// index of `M` records, with `K` entries resolved, `N - K` entries are
/// missing and `M - K` records are left orphaned.
pub proof fn lemma_reconcile_counts(catalog: Seq<EmojiModel>, index: Map<u32, GlyphModel>)
    requires
        index.dom().finite(),
    ensures
        ({
            let end = spec_reconcile(catalog, index);
            &&& end.resolved.len() + end.missing.len() == catalog.len()
            &&& end.resolved.len() <= index.dom().len()
            &&& end.index.dom().finite()
            &&& end.index.dom().len() == index.dom().len() - end.resolved.len()
        }),
    decreases catalog.len(),
{
    broadcast use vstd::set::group_set_axioms;

    if catalog.len() == 0 {
    } else {
        let rest = catalog.drop_last();
        let e = catalog.last();
        lemma_reconcile_counts(rest, index);
        assert(rest.push(e) =~= catalog);
        lemma_reconcile_snoc(rest, index, e);
        let mid = spec_reconcile(rest, index);
        if spec_eligible(e, mid.index) {
            let c = spec_normalized(e.literal)[0] as u32;
            assert(mid.index.remove(c).dom() =~= mid.index.dom().remove(c));
        }
    }
}

} // verus!
