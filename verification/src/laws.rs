//! The store's laws: deduplication of assets, primary-only overwrites,
//! metadata reuse, and idempotent link materialization, each proved from
//! the inserters' transition functions and the store invariant.
use vstd::prelude::*;

use crate::database::{
    lemma_file_match_exists, lemma_meta_match_exists, lemma_set_match_exists, spec_insert_beatmap,
    spec_insert_hash, spec_resolve_metadata,
};
use crate::store::{file_match_at, meta_match_at};
use crate::digest::digest_of;
use crate::records::{BeatmapProcessedV, HashProcessedV};
use crate::store::{file_ref_count, wf, MetadataRowV, StoreV};

verus! {

/// Dedup invariant: two asset files with identical byte content share one
/// digest; a well-formed store holds at most one asset row for that digest,
/// and its reference count equals the number of mappings pointing at it.
pub proof fn lemma_dedup_invariant(s: StoreV, content1: Seq<u8>, content2: Seq<u8>)
    requires
        wf(s),
        content1 == content2,
    ensures
        digest_of(content1) == digest_of(content2),
        forall|i: int, j: int|
            0 <= i < j < s.files.len() ==> !((#[trigger] s.files[i]).hash == digest_of(content1)
                && (#[trigger] s.files[j]).hash == digest_of(content1)),
        forall|i: int|
            0 <= i < s.files.len() && (#[trigger] s.files[i]).hash == digest_of(content1)
                ==> s.files[i].reference_count == file_ref_count(s.set_files, digest_of(content1)),
        forall|k: int|
            0 <= k < s.set_files.len() && (#[trigger] s.set_files[k]).file_hash == digest_of(
                content1,
            ) ==> exists|i: int|
                0 <= i < s.files.len() && (#[trigger] s.files[i]).hash == digest_of(content1),
{
    let d = digest_of(content1);
    assert forall|k: int|
        0 <= k < s.set_files.len() && (#[trigger] s.set_files[k]).file_hash == d implies exists|
    i: int|
        0 <= i < s.files.len() && (#[trigger] s.files[i]).hash == d by {
        lemma_file_match_exists(s.files, d, 0);
        assert(file_match_at(s.files, s.set_files[k].file_hash, 0) >= 0);
    }
}

/// Primary-only force: replaying a non-primary entry of a group whose set
/// row already exists — written earlier this run, or already present in
/// the target — succeeds without writing or changing any set row.
pub proof fn lemma_primary_only_force(
    s: StoreV,
    item: BeatmapProcessedV,
    author_id: Option<i64>,
    existing: Seq<u32>,
    h: Seq<char>,
)
    requires
        !item.is_main,
        (exists|i: int|
            0 <= i < s.sets.len() && (#[trigger] s.sets[i]).online_beatmap_set_id
                == item.db_beatmap.beatmap_set_id) || existing.contains(
            item.db_beatmap.beatmap_set_id,
        ),
    ensures
        spec_insert_beatmap(s, item, author_id, existing, h).0.sets == s.sets,
        spec_insert_beatmap(s, item, author_id, existing, h).1 is Some,
{
    let gid = item.db_beatmap.beatmap_set_id;
    lemma_set_match_exists(s.sets, gid, 0);
}

/// How a single lookup-or-insert step finds its row in a table extended by
/// one row.
proof fn lemma_meta_match_push(rows: Seq<MetadataRowV>, m: MetadataRowV, x: MetadataRowV, i: int)
    requires
        0 <= i <= rows.len(),
    ensures
        meta_match_at(rows.push(x), m, i) == if meta_match_at(rows, m, i) >= 0 {
            meta_match_at(rows, m, i)
        } else if x == m {
            rows.len() as int
        } else {
            -1
        },
    decreases rows.len() - i,
{
    assert(rows.push(x).len() == rows.len() + 1);
    if i < rows.len() {
        assert(rows.push(x)[i] == rows[i]);
        lemma_meta_match_push(rows, m, x, i + 1);
    } else {
        assert(rows.push(x)[rows.len() as int] == x);
        if x == m {
            assert(meta_match_at(rows.push(x), m, i) == i);
        } else {
            assert(meta_match_at(rows.push(x), m, i + 1) == -1);
            assert(meta_match_at(rows.push(x), m, i) == -1);
        }
    }
}

/// Metadata reuse: resolving two identical metadata tuples in sequence
/// yields one row and one id; resolving two tuples that differ in any
/// field yields two distinct rows, each holding its own tuple.
pub proof fn lemma_metadata_reuse(s: StoreV, m1: MetadataRowV, m2: MetadataRowV)
    ensures
        ({
            let (s1, id1) = spec_resolve_metadata(s, m1);
            let (s2, id2) = spec_resolve_metadata(s1, m2);
            &&& (m1 == m2 ==> s2.metadata == s1.metadata && id2 == id1)
            &&& (m1 != m2 ==> id2 != id1 && s2.metadata[id1 - 1] == m1 && s2.metadata[id2 - 1]
                == m2)
        }),
{
    let (s1, id1) = spec_resolve_metadata(s, m1);
    let (s2, id2) = spec_resolve_metadata(s1, m2);
    let f1 = meta_match_at(s.metadata, m1, 0);
    lemma_meta_match_exists(s.metadata, m1, 0);
    if f1 >= 0 {
        assert(s1.metadata[id1 - 1] == m1);
    } else {
        lemma_meta_match_push(s.metadata, m1, m1, 0);
        assert(s1.metadata[id1 - 1] == m1);
    }
    let f2 = meta_match_at(s1.metadata, m2, 0);
    lemma_meta_match_exists(s1.metadata, m2, 0);
    if m1 == m2 {
        if f1 >= 0 {
            assert(f2 == f1) by {
                lemma_meta_match_unique_prefix(s.metadata, m1, 0);
            }
        } else {
            lemma_meta_match_push(s.metadata, m2, m1, 0);
        }
    } else {
        if f2 >= 0 {
            assert(s1.metadata[f2] == m2);
            assert(s1.metadata[id1 - 1] == m1);
            assert(f2 != id1 - 1);
        } else {
            lemma_meta_match_push(s1.metadata, m2, m2, 0);
            assert(s2.metadata[id2 - 1] == m2);
            assert(id2 == s1.metadata.len() + 1);
            assert(id1 <= s1.metadata.len());
            assert(s2.metadata[id1 - 1] == m1);
        }
    }
}

/// A lookup always yields the first matching position.
proof fn lemma_meta_match_unique_prefix(rows: Seq<MetadataRowV>, m: MetadataRowV, i: int)
    requires
        0 <= i <= rows.len(),
    ensures
        meta_match_at(rows, m, i) >= 0 ==> forall|j: int|
            i <= j < meta_match_at(rows, m, i) ==> rows[j] != m,
    decreases rows.len() - i,
{
    if i < rows.len() {
        lemma_meta_match_unique_prefix(rows, m, i + 1);
    }
}

/// Link idempotence: committing a second file with an already-linked digest
/// emits no link request and leaves the linked set unchanged, while the
/// first commit of a digest emits exactly one.
pub proof fn lemma_link_idempotent(s: StoreV, h1: HashProcessedV, h2: HashProcessedV)
    requires
        h1.hash == h2.hash,
    ensures
        ({
            let (s1, l1) = spec_insert_hash(s, h1);
            let (s2, l2) = spec_insert_hash(s1, h2);
            &&& l2 is None
            &&& s2.linked == s1.linked
            &&& (!s.linked.contains(h1.hash) ==> l1 is Some && s1.linked == s.linked.push(h1.hash))
            &&& (s.linked.contains(h1.hash) ==> l1 is None && s1.linked == s.linked)
        }),
{
    let d = h1.hash;
    let (s1, l1) = spec_insert_hash(s, h1);
    if !s.linked.contains(d) {
        assert(s1.linked == s.linked.push(d));
        assert(s1.linked[s.linked.len() as int] == d);
        assert(s1.linked.contains(d));
    } else {
        assert(s1.linked == s.linked);
    }
    assert(s1.linked.contains(d));
}

} // verus!
