//! The selection filter: the ordered subset of the legacy catalog that is
//! not yet present in the target, and the marking of each group's primary
//! entry.
use vstd::prelude::*;
use vstd::seq_lib::group_seq_properties;

use crate::records::{LegacyBeatmap, LegacyBeatmapV};

verus! {

/// The views of a list of legacy entries.
pub open spec fn beatmaps_view(s: Seq<LegacyBeatmap>) -> Seq<LegacyBeatmapV> {
    Seq::new(s.len(), |i: int| s[i]@)
}

/// Whether an entry is selected for migration: its id is absent from the
/// target, it is not the unsubmitted sentinel, and its group is not the
/// ungrouped sentinel.
pub open spec fn selectable(e: LegacyBeatmapV, existing: Seq<u32>) -> bool {
    &&& !existing.contains(e.beatmap_id)
    &&& e.beatmap_id != 0
    &&& e.beatmap_set_id != u32::MAX
}

/// The subset of the catalog selected for migration, in catalog order.
pub open spec fn spec_select(entries: Seq<LegacyBeatmapV>, existing: Seq<u32>) -> Seq<
    LegacyBeatmapV,
> {
    entries.filter(|e: LegacyBeatmapV| selectable(e, existing))
}

/// Non-decreasing external entry ids.
pub open spec fn sorted_by_id(s: Seq<LegacyBeatmapV>) -> bool {
    forall|i: int, j: int|
        0 <= i < j < s.len() ==> (#[trigger] s[i]).beatmap_id <= (#[trigger] s[j]).beatmap_id
}

/// Whether the entry at `i` is the first of its group in the list.
pub open spec fn first_in_group(s: Seq<LegacyBeatmapV>, i: int) -> bool {
    forall|j: int| 0 <= j < i ==> (#[trigger] s[j]).beatmap_set_id != s[i].beatmap_set_id
}

/// Whether the list of ids holds the given id.
pub fn contains_u32(xs: &Vec<u32>, x: u32) -> (r: bool)
    ensures
        r == xs@.contains(x),
{
    let mut i: usize = 0;
    while i < xs.len()
        invariant
            i <= xs@.len(),
            forall|t: int| 0 <= t < i ==> xs@[t] != x,
        decreases xs@.len() - i,
    {
        if xs[i] == x {
            assert(xs@.contains(x));
            return true;
        }
        i = i + 1;
    }
    proof {
        if xs@.contains(x) {
            let t = choose|t: int| 0 <= t < xs@.len() && xs@[t] == x;
            assert(false);
        }
    }
    false
}

/// Computes the selection: every entry whose id the target lacks and that
/// is neither unsubmitted nor ungrouped, ordered by entry id ascending.
pub fn select_entries(entries: Vec<LegacyBeatmap>, existing: &Vec<u32>) -> (r: Vec<LegacyBeatmap>)
    ensures
        sorted_by_id(beatmaps_view(r@)),
        beatmaps_view(r@).to_multiset() == spec_select(
            beatmaps_view(entries@),
            existing@,
        ).to_multiset(),
{
    broadcast use group_seq_properties, vstd::seq_lib::group_to_multiset_ensures;

    let ghost full = beatmaps_view(entries@);
    let ghost ex = existing@;
    let ghost pred = |e: LegacyBeatmapV| selectable(e, ex);
    let mut src = entries;
    let mut out: Vec<LegacyBeatmap> = Vec::new();
    proof {
        reveal(Seq::filter);
        assert(beatmaps_view(src@) =~= full);
        assert(beatmaps_view(out@) =~= Seq::<LegacyBeatmapV>::empty());
        assert(full.filter(pred).to_multiset() =~= beatmaps_view(src@).filter(
            pred,
        ).to_multiset().add(beatmaps_view(out@).to_multiset()));
    }
    while src.len() > 0
        invariant
            ex == existing@,
            sorted_by_id(beatmaps_view(out@)),
            pred == (|e: LegacyBeatmapV| selectable(e, ex)),
            full.filter(pred).to_multiset() == beatmaps_view(src@).filter(
                pred,
            ).to_multiset().add(beatmaps_view(out@).to_multiset()),
        decreases src@.len(),
    {
        let ghost src_pre = beatmaps_view(src@);
        let ghost out_pre = beatmaps_view(out@);
        let e = src.pop().unwrap();
        proof {
            reveal(Seq::filter);
            assert(beatmaps_view(src@) =~= src_pre.drop_last());
            assert(src_pre.last() == e@);
            assert(src_pre.filter(pred) == if pred(e@) {
                src_pre.drop_last().filter(pred).push(e@)
            } else {
                src_pre.drop_last().filter(pred)
            });
        }
        let keep = !contains_u32(existing, e.beatmap_id) && e.beatmap_id != 0 && e.beatmap_set_id
            != u32::MAX;
        proof {
            assert(keep == selectable(e@, ex));
        }
        if keep {
            let mut pos: usize = 0;
            let ghost ov = beatmaps_view(out@);
            while pos < out.len()
                invariant_except_break
                    pos <= ov.len(),
                    ov == beatmaps_view(out@),
                    forall|t: int| 0 <= t < pos ==> (#[trigger] ov[t]).beatmap_id <= e@.beatmap_id,
                ensures
                    ov == beatmaps_view(out@),
                    pos <= ov.len(),
                    forall|t: int| 0 <= t < pos ==> (#[trigger] ov[t]).beatmap_id <= e@.beatmap_id,
                    pos < ov.len() ==> ov[pos as int].beatmap_id > e@.beatmap_id,
                decreases ov.len() - pos,
            {
                if out[pos].beatmap_id > e.beatmap_id {
                    break ;
                }
                pos = pos + 1;
            }
            let ghost ev = e@;
            out.insert(pos, e);
            proof {
                assert(beatmaps_view(out@) =~= ov.insert(pos as int, ev));
                ov.insert_ensures(pos as int, ev);
                assert(sorted_by_id(beatmaps_view(out@))) by {
                    let nv = ov.insert(pos as int, ev);
                    assert forall|i: int, j: int|
                        0 <= i < j < nv.len() implies (#[trigger] nv[i]).beatmap_id <= (
                    #[trigger] nv[j]).beatmap_id by {
                        let p = pos as int;
                        if i < p && j < p {
                        } else if i < p && j == p {
                        } else if i < p && j > p {
                            assert(nv[i] == ov[i]);
                            assert(nv[j] == ov[j - 1]);
                            if i < p && p <= j - 1 {
                                if i < j - 1 {
                                    assert(ov[i].beatmap_id <= ov[j - 1].beatmap_id);
                                }
                            }
                        } else if i == p {
                            assert(nv[j] == ov[j - 1]);
                            assert(ov[j - 1].beatmap_id > ev.beatmap_id);
                        } else {
                            assert(nv[i] == ov[i - 1]);
                            assert(nv[j] == ov[j - 1]);
                            if i - 1 < j - 1 {
                                assert(ov[i - 1].beatmap_id <= ov[j - 1].beatmap_id);
                            }
                        }
                    }
                }
                assert(out_pre == ov);
                vstd::seq_lib::to_multiset_insert::<LegacyBeatmapV>(ov, pos as int, ev);
                assert(ov.insert(pos as int, ev).to_multiset() == ov.to_multiset().insert(ev));
                assert(beatmaps_view(out@).to_multiset() =~= out_pre.to_multiset().insert(ev));
                beatmaps_view(src@).filter(pred).to_multiset_ensures();
                assert(src_pre.filter(pred).to_multiset() =~= beatmaps_view(src@).filter(
                    pred,
                ).to_multiset().insert(ev));
                assert(beatmaps_view(src@).filter(pred).to_multiset().insert(ev).add(
                    out_pre.to_multiset(),
                ) =~= beatmaps_view(src@).filter(pred).to_multiset().add(
                    out_pre.to_multiset().insert(ev),
                ));
                assert(full.filter(pred).to_multiset() =~= beatmaps_view(src@).filter(
                    pred,
                ).to_multiset().add(beatmaps_view(out@).to_multiset()));
            }
        } else {
            proof {
                assert(full.filter(pred).to_multiset() =~= beatmaps_view(src@).filter(
                    pred,
                ).to_multiset().add(beatmaps_view(out@).to_multiset()));
            }
        }
    }
    proof {
        reveal(Seq::filter);
        assert(beatmaps_view(src@).filter(pred) =~= Seq::<LegacyBeatmapV>::empty());
        assert(beatmaps_view(src@).filter(pred).to_multiset().add(
            beatmaps_view(out@).to_multiset(),
        ) =~= beatmaps_view(out@).to_multiset());
        assert(spec_select(full, ex) == full.filter(pred));
    }
    out
}

/// Marks each selected entry as primary or not: the first entry seen for a
/// group id is primary, every later entry of the same group is not.
pub fn mark_primaries(beatmaps: &Vec<LegacyBeatmap>) -> (flags: Vec<bool>)
    ensures
        flags@.len() == beatmaps@.len(),
        forall|i: int|
            0 <= i < flags@.len() ==> flags@[i] == first_in_group(beatmaps_view(beatmaps@), i),
{
    let ghost bv = beatmaps_view(beatmaps@);
    let mut seen: Vec<u32> = Vec::new();
    let mut flags: Vec<bool> = Vec::new();
    let mut i: usize = 0;
    while i < beatmaps.len()
        invariant
            i <= bv.len(),
            bv == beatmaps_view(beatmaps@),
            flags@.len() == i,
            forall|t: int| 0 <= t < i ==> flags@[t] == first_in_group(bv, t),
            forall|id: u32|
                seen@.contains(id) <==> exists|j: int|
                    0 <= j < i && (#[trigger] bv[j]).beatmap_set_id == id,
        decreases bv.len() - i,
    {
        let gid = beatmaps[i].beatmap_set_id;
        let is_new = !contains_u32(&seen, gid);
        proof {
            if is_new {
                assert(first_in_group(bv, i as int));
            } else {
                let j = choose|j: int| 0 <= j < i && (#[trigger] bv[j]).beatmap_set_id == gid;
                assert(!first_in_group(bv, i as int));
            }
        }
        flags.push(is_new);
        let ghost seen_pre = seen@;
        if is_new {
            seen.push(gid);
        }
        proof {
            assert forall|id: u32| seen@.contains(id) implies exists|j: int|
                0 <= j < i + 1 && (#[trigger] bv[j]).beatmap_set_id == id by {
                if id == gid {
                    assert(bv[i as int].beatmap_set_id == id);
                } else {
                    let t = choose|t: int| 0 <= t < seen@.len() && seen@[t] == id;
                    assert(seen_pre[t] == id);
                    assert(seen_pre.contains(id));
                }
            }
            assert forall|id: u32|
                (exists|j: int| 0 <= j < i + 1 && (#[trigger] bv[j]).beatmap_set_id == id)
                    implies seen@.contains(id) by {
                let j = choose|j: int| 0 <= j < i + 1 && (#[trigger] bv[j]).beatmap_set_id == id;
                if j == i as int {
                    if is_new {
                        assert(seen@[seen@.len() - 1] == gid);
                        assert(seen@.contains(id));
                    } else {
                        assert(seen_pre.contains(gid));
                        let t = choose|t: int| 0 <= t < seen_pre.len() && seen_pre[t] == gid;
                        assert(seen@[t] == gid);
                        assert(seen@.contains(id));
                    }
                } else {
                    assert(seen_pre.contains(id));
                    let t = choose|t: int| 0 <= t < seen_pre.len() && seen_pre[t] == id;
                    assert(seen@[t] == id);
                    assert(seen@.contains(id));
                }
            }
        }
        i = i + 1;
    }
    flags
}

/// The ids of the selected entries.
pub open spec fn selected_ids(entries: Seq<LegacyBeatmapV>, existing: Seq<u32>) -> Seq<u32> {
    spec_select(entries, existing).map_values(|e: LegacyBeatmapV| e.beatmap_id)
}

/// Selection is idempotent: once the target also holds every id the first
/// selection produced, a second selection over the same catalog is empty.
pub proof fn lemma_selection_idempotent(entries: Seq<LegacyBeatmapV>, existing: Seq<u32>)
    ensures
        spec_select(entries, existing + selected_ids(entries, existing)) =~= Seq::empty(),
{
    let ex2 = existing + selected_ids(entries, existing);
    let pred2 = |e: LegacyBeatmapV| selectable(e, ex2);
    assert forall|i: int| 0 <= i < entries.len() implies !pred2(#[trigger] entries[i]) by {
        let e = entries[i];
        if selectable(e, existing) {
            entries.lemma_filter_contains(|x: LegacyBeatmapV| selectable(x, existing), i);
            let sel = spec_select(entries, existing);
            let k = choose|k: int| 0 <= k < sel.len() && sel[k] == e;
            assert(selected_ids(entries, existing)[k] == e.beatmap_id);
            assert(ex2[existing.len() + k] == e.beatmap_id);
            assert(ex2.contains(e.beatmap_id));
        } else {
            if existing.contains(e.beatmap_id) {
                let t = choose|t: int| 0 <= t < existing.len() && existing[t] == e.beatmap_id;
                assert(ex2[t] == e.beatmap_id);
                assert(ex2.contains(e.beatmap_id));
            }
        }
    }
    lemma_filter_all_false(entries, pred2);
}

/// A filter whose predicate holds of no element yields the empty sequence.
proof fn lemma_filter_all_false(s: Seq<LegacyBeatmapV>, pred: spec_fn(LegacyBeatmapV) -> bool)
    requires
        forall|i: int| 0 <= i < s.len() ==> !pred(#[trigger] s[i]),
    ensures
        s.filter(pred) =~= Seq::empty(),
    decreases s.len(),
{
    reveal(Seq::filter);
    if s.len() > 0 {
        lemma_filter_all_false(s.drop_last(), pred);
        assert(s.drop_last().len() == s.len() - 1);
        assert(!pred(s.last()));
    }
}

} // verus!
