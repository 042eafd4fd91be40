//! The two serialized inserter stages: the metadata inserter and the
//! content-store inserter.
//!
//! Each stage is specified by a transition function over the store's
//! spec-level image; the executable functions are proved to realize those
//! transitions. The placeholder hash written on a set insert is random, so
//! the contracts of the set-writing functions quantify over it.
use vstd::prelude::*;

use crate::clock::{date_text_of, format_date_added, spec_ticks_to_nanos, ticks_to_unix_nanos};
use crate::digest::fresh_set_hash;
use crate::hexfmt::{is_hex64, lemma_hex64_ascii, lemma_zero_hex64, zero_hex64};
use vstd::string::{StrSliceExecFns, StringExecFns};
use crate::records::{
    AssetFileV, BeatmapProcessedV, DecodedBeatmapV, EventRecV, HashProcessedV, HashRequestV,
    InsertItemV, LegacyBeatmapV, LinkRequestV, RatingRec, TimingRec,
};
use crate::records::{
    AssetFile, BeatmapProcessed, DecodedBeatmap, EventRec, HashProcessed, HashRequest, InsertItem,
    LegacyBeatmap, LinkRequest,
};
use crate::selection::contains_u32;
use crate::store::{
    file_match_at, file_ref_count, meta_match_at, opt_text_view, set_match_at, BeatmapInfoRow, BeatmapInfoRowV,
    DifficultyRow, FileInfoRow, FileInfoRowV, MetadataRow, MetadataRowV, SetFileRow, SetFileRowV,
    SetInfoRow, SetInfoRowV, SetRef, SetRefV, Store, StoreError, StoreV, wf,
};
use crate::textfmt::{decs_of, join_decs, join_texts, join_with, texts_view};

verus! {

/// Row ids are one past a position in a table, and must fit the target's
/// signed 64-bit id columns; tables are kept below this bound.
pub const ROWID_LIMIT: u64 = 0x7fff_ffff_ffff_ffff;

/// The difficulty row of a decoded entry: its settings copied verbatim.
pub open spec fn spec_difficulty_row(b: DecodedBeatmapV) -> DifficultyRow {
    DifficultyRow {
        approach_rate: b.approach_rate,
        circle_size: b.circle_size,
        drain_rate: b.hp_drain_rate,
        overall_difficulty: b.overall_difficulty,
        slider_multiplier: b.slider_multiplier,
        slider_tick_rate: b.slider_tick_rate,
    }
}

/// Appending a fresh difficulty row; yields its id.
pub open spec fn spec_insert_difficulty(s: StoreV, b: DecodedBeatmapV) -> (StoreV, int) {
    (
        StoreV { difficulties: s.difficulties.push(spec_difficulty_row(b)), ..s },
        s.difficulties.len() + 1int,
    )
}

/// The first background or video reference among the events: scanning stops
/// at the first event of either kind, so at most one of the two is set.
pub open spec fn spec_first_event_scan(events: Seq<EventRecV>, i: int) -> (
    Option<Seq<char>>,
    Option<Seq<char>>,
)
    decreases events.len() - i when 0 <= i <= events.len()
{
    if i >= events.len() {
        (None, None)
    } else {
        match events[i] {
            EventRecV::Background(f) => (Some(f), None),
            EventRecV::Video(f) => (None, Some(f)),
            EventRecV::Other => spec_first_event_scan(events, i + 1),
        }
    }
}

/// The metadata row of a decoded entry: display fields copied verbatim,
/// tags joined by spaces, and the externally resolved author id, zero when
/// the lookup found none.
pub open spec fn spec_metadata_row(b: DecodedBeatmapV, author_id: Option<i64>) -> MetadataRowV {
    MetadataRowV {
        artist: b.artist,
        artist_unicode: b.artist_unicode,
        audio_file: b.audio_filename,
        author: b.creator,
        background_file: spec_first_event_scan(b.events, 0).0,
        preview_time: b.preview_time,
        source: b.source,
        tags: join_with(b.tags, " "@),
        title: b.title,
        title_unicode: b.title_unicode,
        video_file: spec_first_event_scan(b.events, 0).1,
        author_id: match author_id {
            Some(a) => a,
            None => 0,
        },
    }
}

/// Lookup-or-insert of a metadata row: an exact match across all fields
/// reuses the first matching row; otherwise the row is appended.
pub open spec fn spec_resolve_metadata(s: StoreV, m: MetadataRowV) -> (StoreV, int) {
    let i = meta_match_at(s.metadata, m, 0);
    if i >= 0 {
        (s, i + 1)
    } else {
        (StoreV { metadata: s.metadata.push(m), ..s }, s.metadata.len() + 1int)
    }
}

/// The target's status value for a legacy ranked status: offset by the
/// constant the target enumeration expects.
pub open spec fn spec_status(ranked: u8) -> i32 {
    (((ranked as i8) - 3) as i32)
}

/// The set row written on insert or forced overwrite: a fresh placeholder
/// hash and the date text of the converted modification timestamp.
pub open spec fn spec_set_row(
    l: LegacyBeatmapV,
    metadata_id: int,
    hash: Seq<char>,
    nanos: i64,
) -> SetInfoRowV {
    SetInfoRowV {
        delete_pending: false,
        hash: hash,
        metadata_id: metadata_id,
        online_beatmap_set_id: l.beatmap_set_id,
        protected: false,
        status: spec_status(l.ranked_status),
        date_added: date_text_of(nanos),
    }
}

/// Upsert of the set row for an entry's group, judged against both the
/// rows this run wrote and the groups already present in the target:
/// - written this run: overwritten only when `force` holds (the entry is
///   its group's primary), else reused unchanged;
/// - present only in the target and not forced: nothing is written and the
///   pre-existing row is referenced;
/// - otherwise (absent everywhere, or forced): a row is written, which the
///   surrounding binary persists as insert-or-overwrite on the group id.
/// A write fails, changing nothing, exactly when the modification
/// timestamp cannot be converted.
pub open spec fn spec_upsert_set(
    s: StoreV,
    l: LegacyBeatmapV,
    metadata_id: int,
    force: bool,
    existing: Seq<u32>,
    hash: Seq<char>,
) -> (StoreV, Option<SetRefV>) {
    let i = set_match_at(s.sets, l.beatmap_set_id, 0);
    if i >= 0 && !force {
        (s, Some(SetRefV::Run(i + 1)))
    } else if i < 0 && !force && existing.contains(l.beatmap_set_id) {
        (s, Some(SetRefV::Target(l.beatmap_set_id)))
    } else {
        match spec_ticks_to_nanos(l.modification_date) {
            None => (s, None),
            Some(nanos) => {
                let row = spec_set_row(l, metadata_id, hash, nanos);
                if i >= 0 {
                    (StoreV { sets: s.sets.update(i, row), ..s }, Some(SetRefV::Run(i + 1)))
                } else {
                    (
                        StoreV { sets: s.sets.push(row), ..s },
                        Some(SetRefV::Run(s.sets.len() + 1int)),
                    )
                }
            },
        }
    }
}

/// The milliseconds-per-beat of the first fixed-tempo timing point at or
/// after `i`, when one exists.
pub open spec fn spec_first_mpb(tps: Seq<TimingRec>, i: int) -> Option<u64>
    decreases tps.len() - i when 0 <= i <= tps.len()
{
    if i >= tps.len() {
        None
    } else if tps[i].uninherited {
        Some(tps[i].mpb)
    } else {
        spec_first_mpb(tps, i + 1)
    }
}

/// The rating of the first entry with no mods at or after `i`, when one
/// exists.
pub open spec fn spec_nomod_rating(ratings: Seq<RatingRec>, i: int) -> Option<u64>
    decreases ratings.len() - i when 0 <= i <= ratings.len()
{
    if i >= ratings.len() {
        None
    } else if ratings[i].mods == 0 {
        Some(ratings[i].rating)
    } else {
        spec_nomod_rating(ratings, i + 1)
    }
}

/// The rating list of the entry's game mode.
pub open spec fn spec_ratings_of(l: LegacyBeatmapV, mode: u8) -> Seq<RatingRec> {
    if mode == 0 {
        l.std_star_rating
    } else if mode == 1 {
        l.std_taiko_rating
    } else if mode == 2 {
        l.std_ctb_rating
    } else {
        l.std_mania_rating
    }
}

/// The star rating stored on the entry row: the no-mod rating of the
/// entry's mode, zero bits (the rating 0.0) when absent.
pub open spec fn spec_star_rating(l: LegacyBeatmapV, mode: u8) -> u64 {
    match spec_nomod_rating(spec_ratings_of(l, mode), 0) {
        Some(r) => r,
        None => 0,
    }
}

/// The entry row: ids of the three rows above it, derived tempo source and
/// star rating, and the remaining fields copied verbatim.
pub open spec fn spec_beatmap_row(
    b: DecodedBeatmapV,
    l: LegacyBeatmapV,
    set_ref: SetRefV,
    difficulty_id: int,
    metadata_id: int,
) -> BeatmapInfoRowV {
    BeatmapInfoRowV {
        audio_leadin: b.audio_leadin,
        base_difficulty_id: difficulty_id,
        beat_divisor: b.beat_divisor,
        beatmap_set_info_id: set_ref,
        countdown: b.countdown,
        distance_spacing: b.distance_spacing,
        grid_size: b.grid_size,
        hidden: false,
        letterbox_in_breaks: b.letterbox_in_breaks,
        md5_hash: l.hash,
        metadata_id: metadata_id,
        online_beatmap_id: l.beatmap_id,
        path: l.beatmap_file_name,
        ruleset_id: b.mode,
        special_style: false,
        stack_leniency: b.stack_leniency,
        star_difficulty: spec_star_rating(l, b.mode),
        stored_bookmarks: join_with(decs_of(b.bookmarks), ","@),
        timeline_zoom: b.timeline_zoom,
        version: b.difficulty_name,
        widescreen_storyboard: b.widescreen_storyboard,
        status: spec_status(l.ranked_status),
        bpm_source: spec_first_mpb(b.timing_points, 0),
        length: l.total_time,
        epilepsy_warning: b.epilepsy_warning,
        countdown_offset: false,
        samples_match_playback_rate: false,
        hash: None,
    }
}

/// Appending the entry row.
pub open spec fn spec_insert_beatmap_info(
    s: StoreV,
    b: DecodedBeatmapV,
    l: LegacyBeatmapV,
    set_ref: SetRefV,
    difficulty_id: int,
    metadata_id: int,
) -> StoreV {
    StoreV { beatmaps: s.beatmaps.push(spec_beatmap_row(b, l, set_ref, difficulty_id, metadata_id)), ..s }
}

/// One entry's metadata writes, in order: a fresh difficulty row, the
/// deduplicated metadata row, the set upsert, then the entry row. When the
/// set upsert fails the difficulty and metadata writes remain (the shared
/// transaction is never unwound for one entry) and no entry row is written.
pub open spec fn spec_insert_beatmap(
    s: StoreV,
    item: BeatmapProcessedV,
    author_id: Option<i64>,
    existing: Seq<u32>,
    hash: Seq<char>,
) -> (StoreV, Option<SetRefV>) {
    let (s1, difficulty_id) = spec_insert_difficulty(s, item.beatmap);
    let (s2, metadata_id) = spec_resolve_metadata(s1, spec_metadata_row(item.beatmap, author_id));
    let (s3, set_ref_opt) = spec_upsert_set(
        s2,
        item.db_beatmap,
        metadata_id,
        item.is_main,
        existing,
        hash,
    );
    match set_ref_opt {
        None => (s3, None),
        Some(set_ref) => (
            spec_insert_beatmap_info(s3, item.beatmap, item.db_beatmap, set_ref, difficulty_id, metadata_id),
            Some(set_ref),
        ),
    }
}

/// The hash requests emitted for a primary entry: one per discovered file,
/// carrying the entry's identifiers and the resolved set id.
pub open spec fn spec_hash_requests(item: InsertItemV, set_id: int) -> Seq<HashRequestV> {
    Seq::new(
        item.files.len(),
        |i: int|
            HashRequestV {
                beatmap_id: item.beatmap.db_beatmap.beatmap_id,
                beatmapset_id: item.beatmap.db_beatmap.beatmap_set_id,
                folder_name: item.beatmap.db_beatmap.folder_name,
                file_name: item.beatmap.db_beatmap.beatmap_file_name,
                beatmapset_info_id: set_id,
                stripped_path: item.files[i].stripped_path,
                full_path: item.files[i].full_path,
            },
    )
}

/// The metadata inserter over a whole batch, in arrival order. Yields the
/// final store, the emitted hash requests (only for primary entries whose
/// writes succeeded), and the positions of the entries whose writes failed.
pub open spec fn spec_insert_beatmaps(
    s: StoreV,
    items: Seq<InsertItemV>,
    existing: Seq<u32>,
    hashes: Seq<Seq<char>>,
) -> (StoreV, Seq<HashRequestV>, Seq<int>)
    decreases items.len(),
{
    if items.len() == 0 {
        (s, Seq::empty(), Seq::empty())
    } else {
        let (s1, reqs1, fails1) = spec_insert_beatmaps(
            s,
            items.drop_last(),
            existing,
            hashes.drop_last(),
        );
        let item = items.last();
        let (s2, ref_opt) = spec_insert_beatmap(
            s1,
            item.beatmap,
            item.author_id,
            existing,
            hashes.last(),
        );
        match ref_opt {
            None => (s2, reqs1, fails1.push(items.len() - 1)),
            Some(set_ref) => (
                s2,
                reqs1 + match set_ref {
                    SetRefV::Run(set_id) => if item.beatmap.is_main {
                        spec_hash_requests(item, set_id)
                    } else {
                        Seq::empty()
                    },
                    SetRefV::Target(_) => Seq::empty(),
                },
                fails1,
            ),
        }
    }
}

/// The content-store inserter for one digested file:
/// - the asset row for the digest is created with count zero if absent,
///   then its reference count is incremented;
/// - a mapping row for the group and relative file name is appended;
/// - when the relative file name equals the entry's descriptor file name,
///   the digest is back-filled onto every entry row with the entry's id;
/// - a link request is emitted for the digest's content-addressed path,
///   at most once per digest.
pub open spec fn spec_insert_hash(s: StoreV, h: HashProcessedV) -> (StoreV, Option<LinkRequestV>) {
    let d = h.hash;
    let fi = file_match_at(s.files, d, 0);
    let files1 = if fi >= 0 {
        s.files
    } else {
        s.files.push(FileInfoRowV { hash: d, reference_count: 0 })
    };
    let fidx = if fi >= 0 {
        fi
    } else {
        files1.len() - 1
    };
    let files2 = files1.update(
        fidx,
        FileInfoRowV { hash: d, reference_count: files1[fidx].reference_count + 1 },
    );
    let set_files1 = s.set_files.push(
        SetFileRowV {
            beatmap_set_info_id: h.request.beatmapset_info_id,
            file_hash: d,
            filename: h.request.stripped_path,
        },
    );
    let beatmaps1 = if h.request.stripped_path == h.request.file_name {
        Seq::new(
            s.beatmaps.len(),
            |i: int|
                if s.beatmaps[i].online_beatmap_id == h.request.beatmap_id {
                    BeatmapInfoRowV { hash: Some(d), ..s.beatmaps[i] }
                } else {
                    s.beatmaps[i]
                },
        )
    } else {
        s.beatmaps
    };
    if !s.linked.contains(d) {
        (
            StoreV {
                files: files2,
                set_files: set_files1,
                beatmaps: beatmaps1,
                linked: s.linked.push(d),
                ..s
            },
            Some(
                LinkRequestV {
                    dir1: d.take(1),
                    dir2: d.take(2),
                    digest: d,
                    source_path: h.request.full_path,
                },
            ),
        )
    } else {
        (StoreV { files: files2, set_files: set_files1, beatmaps: beatmaps1, ..s }, None)
    }
}

/// The content-store inserter over a whole batch, in arrival order.
pub open spec fn spec_insert_hashes(s: StoreV, hs: Seq<HashProcessedV>) -> (
    StoreV,
    Seq<LinkRequestV>,
)
    decreases hs.len(),
{
    if hs.len() == 0 {
        (s, Seq::empty())
    } else {
        let (s1, links1) = spec_insert_hashes(s, hs.drop_last());
        let (s2, link) = spec_insert_hash(s1, hs.last());
        (
            s2,
            links1 + match link {
                Some(l) => seq![l],
                None => Seq::empty(),
            },
        )
    }
}

/// Whether two optional text fields hold the same text.
fn opt_text_equal(a: &Option<String>, b: &Option<String>) -> (r: bool)
    ensures
        r == (opt_text_view(*a) == opt_text_view(*b)),
{
    match (a, b) {
        (Some(x), Some(y)) => x.eq(y),
        (None, None) => true,
        _ => false,
    }
}

/// Whether two metadata rows agree on every field.
fn metadata_rows_equal(a: &MetadataRow, b: &MetadataRow) -> (r: bool)
    ensures
        r == (a@ == b@),
{
    let r = a.artist == b.artist && a.artist_unicode == b.artist_unicode && a.audio_file
        == b.audio_file && a.author == b.author && opt_text_equal(
        &a.background_file,
        &b.background_file,
    ) && a.preview_time == b.preview_time && a.source == b.source && a.tags == b.tags && a.title
        == b.title && a.title_unicode == b.title_unicode && opt_text_equal(
        &a.video_file,
        &b.video_file,
    ) && a.author_id == b.author_id;
    proof {
        if r {
            assert(a@ =~= b@);
        }
    }
    r
}

/// Writes the difficulty row of a decoded entry and yields its id.
pub fn insert_beatmap_difficulty(store: &mut Store, beatmap: &DecodedBeatmap) -> (r: i64)
    requires
        old(store)@.difficulties.len() < ROWID_LIMIT,
    ensures
        final(store)@ =~= spec_insert_difficulty(old(store)@, beatmap@).0,
        r as int == spec_insert_difficulty(old(store)@, beatmap@).1,
{
    let row = DifficultyRow {
        approach_rate: beatmap.approach_rate,
        circle_size: beatmap.circle_size,
        drain_rate: beatmap.hp_drain_rate,
        overall_difficulty: beatmap.overall_difficulty,
        slider_multiplier: beatmap.slider_multiplier,
        slider_tick_rate: beatmap.slider_tick_rate,
    };
    store.difficulties.push(row);
    store.difficulties.len() as i64
}

/// Resolves the metadata row for a decoded entry: the first row matching
/// every field is reused; otherwise a new row is written. Yields the row id.
pub fn insert_beatmap_metadata(store: &mut Store, beatmap: &DecodedBeatmap, author_id: Option<
    i64,
>) -> (r: i64)
    requires
        old(store)@.metadata.len() < ROWID_LIMIT,
    ensures
        final(store)@ =~= spec_resolve_metadata(old(store)@, spec_metadata_row(beatmap@, author_id)).0,
        r as int == spec_resolve_metadata(old(store)@, spec_metadata_row(beatmap@, author_id)).1,
{
    let ghost s0 = *store;
    let ghost events_v = beatmap@.events;
    let mut background: Option<String> = None;
    let mut video: Option<String> = None;
    let mut i: usize = 0;
    while i < beatmap.events.len()
        invariant_except_break
            i <= events_v.len(),
            events_v == beatmap@.events,
            *store == s0,
            background is None && video is None,
            spec_first_event_scan(events_v, 0) == spec_first_event_scan(events_v, i as int),
        ensures
            *store == s0,
            (opt_text_view(background), opt_text_view(video)) == spec_first_event_scan(
                events_v,
                0,
            ),
        decreases events_v.len() - i,
    {
        match &beatmap.events[i] {
            EventRec::Background(f) => {
                background = Some(f.clone());
                break ;
            },
            EventRec::Video(f) => {
                video = Some(f.clone());
                break ;
            },
            EventRec::Other => {},
        }
        i = i + 1;
    }
    let row = MetadataRow {
        artist: beatmap.artist.clone(),
        artist_unicode: beatmap.artist_unicode.clone(),
        audio_file: beatmap.audio_filename.clone(),
        author: beatmap.creator.clone(),
        background_file: background,
        preview_time: beatmap.preview_time,
        source: beatmap.source.clone(),
        tags: join_texts(&beatmap.tags, " "),
        title: beatmap.title.clone(),
        title_unicode: beatmap.title_unicode.clone(),
        video_file: video,
        author_id: match author_id {
            Some(a) => a,
            None => 0,
        },
    };
    let ghost m = spec_metadata_row(beatmap@, author_id);
    proof {
        assert(texts_view(beatmap.tags@) =~= beatmap@.tags);
        assert(row@ =~= m);
    }
    let mut k: usize = 0;
    while k < store.metadata.len()
        invariant
            k <= store@.metadata.len(),
            *store == s0,
            row@ == m,
            m == spec_metadata_row(beatmap@, author_id),
            meta_match_at(store@.metadata, m, 0) == meta_match_at(store@.metadata, m, k as int),
            s0@.metadata.len() < ROWID_LIMIT,
        decreases store@.metadata.len() - k,
    {
        if metadata_rows_equal(&store.metadata[k], &row) {
            proof {
                assert(store@.metadata[k as int] == m);
                assert(meta_match_at(store@.metadata, m, k as int) == k as int);
                assert(meta_match_at(s0@.metadata, m, 0) == k as int);
                assert(final(store)@ =~= old(store)@);
            }
            return (k + 1) as i64;
        }
        proof {
            assert(store@.metadata[k as int] != m);
            assert(meta_match_at(store@.metadata, m, k as int) == meta_match_at(
                store@.metadata,
                m,
                k + 1int,
            ));
        }
        k = k + 1;
    }
    proof {
        assert(meta_match_at(store@.metadata, m, k as int) == -1);
    }
    store.metadata.push(row);
    proof {
        assert(store@ =~= spec_resolve_metadata(old(store)@, m).0);
    }
    store.metadata.len() as i64
}

/// Upserts the set row for an entry's group and yields its reference:
/// a group this run has not written and the target does not hold is
/// inserted; one written this run is overwritten only when `force` holds;
/// one present only in the target and not forced is reused with nothing
/// written. Fails, writing nothing, exactly when the modification
/// timestamp is out of range. The placeholder hash written on an insert or
/// overwrite is random; only its shape is promised.
pub fn insert_beatmapset_info(
    store: &mut Store,
    db_beatmap: &LegacyBeatmap,
    metadata_id: i64,
    force: bool,
    existing_groups: &Vec<u32>,
) -> (r: Result<SetRef, StoreError>)
    requires
        old(store)@.sets.len() < ROWID_LIMIT,
    ensures
        exists|h: Seq<char>|
            #[trigger] is_hex64(h) && {
                let (s2, ref_opt) = spec_upsert_set(
                    old(store)@,
                    db_beatmap@,
                    metadata_id as int,
                    force,
                    existing_groups@,
                    h,
                );
                &&& final(store)@ =~= s2
                &&& match r {
                    Ok(sr) => ref_opt == Some(sr@),
                    Err(e) => ref_opt is None && e == StoreError::TimestampOutOfRange,
                }
            },
{
    let ghost s0 = *store;
    let ghost gid = db_beatmap.beatmap_set_id;
    let mut found: Option<usize> = None;
    let mut k: usize = 0;
    while k < store.sets.len()
        invariant_except_break
            k <= store@.sets.len(),
            *store == s0,
            gid == db_beatmap.beatmap_set_id,
            found is None,
            set_match_at(store@.sets, gid, 0) == set_match_at(store@.sets, gid, k as int),
        ensures
            *store == s0,
            gid == db_beatmap.beatmap_set_id,
            match found {
                Some(f) => f < s0@.sets.len() && set_match_at(s0@.sets, gid, 0) == f,
                None => set_match_at(s0@.sets, gid, 0) == -1,
            },
        decreases store@.sets.len() - k,
    {
        if store.sets[k].online_beatmap_set_id == db_beatmap.beatmap_set_id {
            proof {
                assert(set_match_at(store@.sets, gid, k as int) == k as int);
            }
            found = Some(k);
            break ;
        }
        proof {
            assert(store@.sets[k as int].online_beatmap_set_id != gid);
            assert(set_match_at(store@.sets, gid, k as int) == set_match_at(
                store@.sets,
                gid,
                k + 1int,
            ));
        }
        k = k + 1;
    }
    match found {
        Some(f) => {
            if !force {
                proof {
                    lemma_zero_hex64();
                    assert(is_hex64(zero_hex64()) && {
                        let (s2, ref_opt) = spec_upsert_set(
                            old(store)@,
                            db_beatmap@,
                            metadata_id as int,
                            force,
                            existing_groups@,
                            zero_hex64(),
                        );
                        &&& final(store)@ =~= s2
                        &&& ref_opt == Some(SetRefV::Run(f + 1int))
                    });
                }
                return Ok(SetRef::Run(f as i64 + 1));
            }
        },
        None => {
            if !force && contains_u32(existing_groups, db_beatmap.beatmap_set_id) {
                proof {
                    lemma_zero_hex64();
                    assert(is_hex64(zero_hex64()) && {
                        let (s2, ref_opt) = spec_upsert_set(
                            old(store)@,
                            db_beatmap@,
                            metadata_id as int,
                            force,
                            existing_groups@,
                            zero_hex64(),
                        );
                        &&& final(store)@ =~= s2
                        &&& ref_opt == Some(SetRefV::Target(db_beatmap@.beatmap_set_id))
                    });
                }
                return Ok(SetRef::Target(db_beatmap.beatmap_set_id));
            }
        },
    }
    let nanos = match ticks_to_unix_nanos(db_beatmap.modification_date) {
        Some(n) => n,
        None => {
            proof {
                lemma_zero_hex64();
                assert(is_hex64(zero_hex64()) && {
                    let (s2, ref_opt) = spec_upsert_set(
                        old(store)@,
                        db_beatmap@,
                        metadata_id as int,
                        force,
                        existing_groups@,
                        zero_hex64(),
                    );
                    &&& final(store)@ =~= s2
                    &&& ref_opt is None
                });
            }
            return Err(StoreError::TimestampOutOfRange);
        },
    };
    let hash = fresh_set_hash();
    let date_added = format_date_added(nanos);
    let status: i32 = (db_beatmap.ranked_status as i8) as i32 - 3;
    let row = SetInfoRow {
        delete_pending: false,
        hash,
        metadata_id,
        online_beatmap_set_id: db_beatmap.beatmap_set_id,
        protected: false,
        status,
        date_added,
    };
    let ghost hv = row.hash@;
    proof {
        assert(row@ =~= spec_set_row(db_beatmap@, metadata_id as int, hv, nanos));
    }
    match found {
        Some(f) => {
            store.sets[f] = row;
            proof {
                assert(is_hex64(hv) && {
                    let (s2, ref_opt) = spec_upsert_set(
                        old(store)@,
                        db_beatmap@,
                        metadata_id as int,
                        force,
                        existing_groups@,
                        hv,
                    );
                    &&& final(store)@ =~= s2
                    &&& ref_opt == Some(SetRefV::Run(f + 1int))
                });
            }
            Ok(SetRef::Run(f as i64 + 1))
        },
        None => {
            store.sets.push(row);
            proof {
                assert(is_hex64(hv) && {
                    let (s2, ref_opt) = spec_upsert_set(
                        old(store)@,
                        db_beatmap@,
                        metadata_id as int,
                        force,
                        existing_groups@,
                        hv,
                    );
                    &&& final(store)@ =~= s2
                    &&& ref_opt == Some(SetRefV::Run(s0@.sets.len() + 1int))
                });
            }
            Ok(SetRef::Run(store.sets.len() as i64))
        },
    }
}

/// Writes the entry row for a decoded entry, deriving its tempo source from
/// the first fixed-tempo timing point and its star rating from the no-mod
/// rating of the entry's mode.
pub fn insert_beatmap_info(
    store: &mut Store,
    beatmap: &DecodedBeatmap,
    db_beatmap: &LegacyBeatmap,
    set_ref: SetRef,
    difficulty_id: i64,
    metadata_id: i64,
)
    ensures
        final(store)@ =~= spec_insert_beatmap_info(
            old(store)@,
            beatmap@,
            db_beatmap@,
            set_ref@,
            difficulty_id as int,
            metadata_id as int,
        ),
{
    let ghost s0 = *store;
    let ghost tps = beatmap@.timing_points;
    let mut bpm_source: Option<u64> = None;
    let mut i: usize = 0;
    while i < beatmap.timing_points.len()
        invariant_except_break
            i <= tps.len(),
            tps == beatmap@.timing_points,
            *store == s0,
            bpm_source is None,
            spec_first_mpb(tps, 0) == spec_first_mpb(tps, i as int),
        ensures
            *store == s0,
            bpm_source == spec_first_mpb(tps, 0),
        decreases tps.len() - i,
    {
        let tp = beatmap.timing_points[i];
        if tp.uninherited {
            bpm_source = Some(tp.mpb);
            break ;
        }
        i = i + 1;
    }
    let ratings: &Vec<RatingRec> = if beatmap.mode == 0 {
        &db_beatmap.std_star_rating
    } else if beatmap.mode == 1 {
        &db_beatmap.std_taiko_rating
    } else if beatmap.mode == 2 {
        &db_beatmap.std_ctb_rating
    } else {
        &db_beatmap.std_mania_rating
    };
    proof {
        assert(ratings@ == spec_ratings_of(db_beatmap@, beatmap@.mode));
    }
    let ghost rs = ratings@;
    let mut star_difficulty: u64 = 0;
    let mut j: usize = 0;
    while j < ratings.len()
        invariant_except_break
            j <= rs.len(),
            rs == ratings@,
            *store == s0,
            star_difficulty == 0,
            spec_nomod_rating(rs, 0) == spec_nomod_rating(rs, j as int),
        ensures
            *store == s0,
            star_difficulty == match spec_nomod_rating(rs, 0) {
                Some(r) => r,
                None => 0u64,
            },
        decreases rs.len() - j,
    {
        let rr = ratings[j];
        if rr.mods == 0 {
            star_difficulty = rr.rating;
            break ;
        }
        j = j + 1;
    }
    let status: i32 = (db_beatmap.ranked_status as i8) as i32 - 3;
    let row = BeatmapInfoRow {
        audio_leadin: beatmap.audio_leadin,
        base_difficulty_id: difficulty_id,
        beat_divisor: beatmap.beat_divisor,
        beatmap_set_info_id: set_ref,
        countdown: beatmap.countdown,
        distance_spacing: beatmap.distance_spacing,
        grid_size: beatmap.grid_size,
        hidden: false,
        letterbox_in_breaks: beatmap.letterbox_in_breaks,
        md5_hash: db_beatmap.hash.clone(),
        metadata_id,
        online_beatmap_id: db_beatmap.beatmap_id,
        path: db_beatmap.beatmap_file_name.clone(),
        ruleset_id: beatmap.mode,
        special_style: false,
        stack_leniency: beatmap.stack_leniency,
        star_difficulty,
        stored_bookmarks: join_decs(&beatmap.bookmarks, ","),
        timeline_zoom: beatmap.timeline_zoom,
        version: beatmap.difficulty_name.clone(),
        widescreen_storyboard: beatmap.widescreen_storyboard,
        status,
        bpm_source,
        length: db_beatmap.total_time,
        epilepsy_warning: beatmap.epilepsy_warning,
        countdown_offset: false,
        samples_match_playback_rate: false,
        hash: None,
    };
    proof {
        assert(row@ =~= spec_beatmap_row(
            beatmap@,
            db_beatmap@,
            set_ref@,
            difficulty_id as int,
            metadata_id as int,
        ));
    }
    store.beatmaps.push(row);
    proof {
        assert(final(store)@ =~= spec_insert_beatmap_info(
            s0@,
            beatmap@,
            db_beatmap@,
            set_ref@,
            difficulty_id as int,
            metadata_id as int,
        ));
    }
}

/// One entry's writes, in order: a fresh difficulty row, the deduplicated
/// metadata row, the set upsert (forced only for a primary entry, and
/// judged against the group ids the target already holds), then the entry
/// row; yields the entry's set reference. A timestamp failure drops the
/// entry: its difficulty and metadata writes remain, no set or entry row
/// is written, and the run continues.
pub fn insert_beatmap(
    store: &mut Store,
    beatmap_context: &BeatmapProcessed,
    author_id: Option<i64>,
    existing_groups: &Vec<u32>,
) -> (r: Result<SetRef, StoreError>)
    requires
        old(store)@.difficulties.len() < ROWID_LIMIT,
        old(store)@.metadata.len() < ROWID_LIMIT,
        old(store)@.sets.len() < ROWID_LIMIT,
    ensures
        exists|h: Seq<char>|
            #[trigger] is_hex64(h) && {
                let (s2, ref_opt) = spec_insert_beatmap(
                    old(store)@,
                    beatmap_context@,
                    author_id,
                    existing_groups@,
                    h,
                );
                &&& final(store)@ =~= s2
                &&& match r {
                    Ok(sr) => ref_opt == Some(sr@),
                    Err(e) => ref_opt is None && e == StoreError::TimestampOutOfRange,
                }
            },
{
    let ghost s0 = *store;
    let difficulty_id = insert_beatmap_difficulty(store, &beatmap_context.beatmap);
    let ghost d_step = spec_insert_difficulty(s0@, beatmap_context@.beatmap);
    proof {
        assert(store@ == d_step.0);
        assert(difficulty_id as int == d_step.1);
    }
    let metadata_id = insert_beatmap_metadata(store, &beatmap_context.beatmap, author_id);
    let ghost m_step = spec_resolve_metadata(
        d_step.0,
        spec_metadata_row(beatmap_context@.beatmap, author_id),
    );
    proof {
        assert(store@ == m_step.0);
        assert(metadata_id as int == m_step.1);
    }
    let res = insert_beatmapset_info(
        store,
        &beatmap_context.db_beatmap,
        metadata_id,
        beatmap_context.is_main,
        existing_groups,
    );
    proof {
        let h = choose|h: Seq<char>|
            #[trigger] is_hex64(h) && {
                let (s2, ref_opt) = spec_upsert_set(
                    m_step.0,
                    beatmap_context@.db_beatmap,
                    metadata_id as int,
                    beatmap_context.is_main,
                    existing_groups@,
                    h,
                );
                &&& store@ =~= s2
                &&& match res {
                    Ok(sr) => ref_opt == Some(sr@),
                    Err(e) => ref_opt is None && e == StoreError::TimestampOutOfRange,
                }
            };
    }
    match res {
        Err(e) => Err(e),
        Ok(set_ref) => {
            insert_beatmap_info(
                store,
                &beatmap_context.beatmap,
                &beatmap_context.db_beatmap,
                set_ref,
                difficulty_id,
                metadata_id,
            );
            Ok(set_ref)
        },
    }
}

/// A digest found at a position has a match from the start; a digest of no
/// row has none.
pub(crate) proof fn lemma_file_match_exists(rows: Seq<FileInfoRowV>, digest: Seq<char>, i: int)
    requires
        0 <= i <= rows.len(),
    ensures
        (exists|j: int| i <= j < rows.len() && (#[trigger] rows[j]).hash == digest)
            <==> file_match_at(rows, digest, i) >= 0,
        file_match_at(rows, digest, i) >= 0 ==> i <= file_match_at(rows, digest, i) < rows.len()
            && rows[file_match_at(rows, digest, i)].hash == digest,
    decreases rows.len() - i,
{
    if i < rows.len() {
        lemma_file_match_exists(rows, digest, i + 1);
    }
}

/// A reference count never exceeds the number of mappings.
proof fn lemma_ref_count_le_len(rows: Seq<SetFileRowV>, digest: Seq<char>)
    ensures
        file_ref_count(rows, digest) <= rows.len(),
    decreases rows.len(),
{
    if rows.len() > 0 {
        lemma_ref_count_le_len(rows.drop_last(), digest);
    }
}

/// A positive reference count names at least one mapping with the digest.
proof fn lemma_ref_count_positive(rows: Seq<SetFileRowV>, digest: Seq<char>)
    requires
        file_ref_count(rows, digest) > 0,
    ensures
        exists|j: int| 0 <= j < rows.len() && (#[trigger] rows[j]).file_hash == digest,
    decreases rows.len(),
{
    if rows.len() > 0 {
        if rows.last().file_hash == digest {
            assert(rows[rows.len() - 1].file_hash == digest);
        } else {
            lemma_ref_count_positive(rows.drop_last(), digest);
            let j = choose|j: int|
                0 <= j < rows.drop_last().len() && (#[trigger] rows.drop_last()[j]).file_hash
                    == digest;
            assert(rows[j].file_hash == digest);
        }
    }
}

/// Appending one mapping raises the count of its digest by one and leaves
/// every other count unchanged.
proof fn lemma_ref_count_push(rows: Seq<SetFileRowV>, m: SetFileRowV, digest: Seq<char>)
    ensures
        file_ref_count(rows.push(m), digest) == file_ref_count(rows, digest) + if m.file_hash
            == digest {
            1int
        } else {
            0int
        },
{
    assert(rows.push(m).drop_last() =~= rows);
    assert(rows.push(m).last() == m);
}

/// The content-store inserter preserves the store's invariants.
pub proof fn lemma_insert_hash_wf(s: StoreV, h: HashProcessedV)
    requires
        wf(s),
    ensures
        wf(spec_insert_hash(s, h).0),
{
    let d = h.hash;
    let fi = file_match_at(s.files, d, 0);
    lemma_file_match_exists(s.files, d, 0);
    let files1 = if fi >= 0 {
        s.files
    } else {
        s.files.push(FileInfoRowV { hash: d, reference_count: 0 })
    };
    let fidx = if fi >= 0 {
        fi
    } else {
        files1.len() - 1
    };
    let files2 = files1.update(
        fidx,
        FileInfoRowV { hash: d, reference_count: files1[fidx].reference_count + 1 },
    );
    let m = SetFileRowV {
        beatmap_set_info_id: h.request.beatmapset_info_id,
        file_hash: d,
        filename: h.request.stripped_path,
    };
    let set_files1 = s.set_files.push(m);
    let s2 = spec_insert_hash(s, h).0;
    assert(s2.files == files2);
    assert(s2.set_files == set_files1);
    assert(s2.metadata == s.metadata);
    assert(s2.sets == s.sets);
    // Hashes are preserved position by position, and the new row (if any)
    // is the only one holding the digest.
    assert(forall|j: int| 0 <= j < s.files.len() ==> (#[trigger] files2[j]).hash == s.files[j].hash);
    if fi < 0 {
        assert(forall|j: int| 0 <= j < s.files.len() ==> (#[trigger] s.files[j]).hash != d);
        // No mapping holds the digest yet: a positive count would name a
        // mapping, whose asset the invariant guarantees.
        if file_ref_count(s.set_files, d) > 0 {
            lemma_ref_count_positive(s.set_files, d);
            let j = choose|j: int|
                0 <= j < s.set_files.len() && (#[trigger] s.set_files[j]).file_hash == d;
            assert(file_match_at(s.files, s.set_files[j].file_hash, 0) >= 0);
            assert(false);
        }
    }
    // Uniqueness of digests.
    assert forall|i: int, j: int| 0 <= i < j < s2.files.len() implies (#[trigger] s2.files[i]).hash
        != (#[trigger] s2.files[j]).hash by {
        if j < s.files.len() {
            assert(s.files[i].hash != s.files[j].hash);
        } else {
            assert(s2.files[j].hash == d);
            assert(s2.files[i].hash == s.files[i].hash);
        }
    }
    // Reference counts.
    assert forall|i: int| 0 <= i < s2.files.len() implies (#[trigger] s2.files[i]).reference_count
        == file_ref_count(s2.set_files, s2.files[i].hash) by {
        lemma_ref_count_push(s.set_files, m, s2.files[i].hash);
        if i == fidx {
            assert(s2.files[i].hash == d);
            if fi >= 0 {
                assert(s.files[i].reference_count == file_ref_count(s.set_files, d));
            } else {
                assert(file_ref_count(s.set_files, d) == 0);
            }
        } else {
            assert(s2.files[i] == s.files[i]);
            assert(s.files[i].hash != d);
        }
    }
    // Every mapping still points at an asset.
    assert forall|i: int| 0 <= i < s2.set_files.len() implies file_match_at(
        s2.files,
        (#[trigger] s2.set_files[i]).file_hash,
        0,
    ) >= 0 by {
        lemma_file_match_exists(s2.files, s2.set_files[i].file_hash, 0);
        if i < s.set_files.len() {
            let x = s.set_files[i].file_hash;
            lemma_file_match_exists(s.files, x, 0);
            let j = choose|j: int| 0 <= j < s.files.len() && (#[trigger] s.files[j]).hash == x;
            assert(s2.files[j].hash == x);
        } else {
            assert(s2.set_files[i].file_hash == d);
            assert(s2.files[fidx].hash == d);
        }
    }
    // Linked digests stay pairwise distinct.
    if !s.linked.contains(d) {
        assert forall|i: int, j: int| 0 <= i < j < s2.linked.len() implies s2.linked[i]
            != s2.linked[j] by {
            if j == s.linked.len() {
                assert(s2.linked[i] == s.linked[i]);
                assert(s.linked.contains(s.linked[i]));
            }
        }
    }
}

/// The view of an optional link request.
pub open spec fn opt_link_view(o: Option<LinkRequest>) -> Option<LinkRequestV> {
    match o {
        Some(l) => Some(l@),
        None => None,
    }
}

/// Commits one digested file into the content store: dedups the asset row
/// by digest, increments its reference count, records the group's file
/// mapping, back-fills the digest onto the owning entry's row when the file
/// is the entry's own descriptor, and yields the on-disk link to
/// materialize, at most once per digest.
pub fn insert_hash(store: &mut Store, hash: &HashProcessed) -> (link: Option<LinkRequest>)
    requires
        wf(old(store)@),
        is_hex64(hash@.hash),
    ensures
        final(store)@ =~= spec_insert_hash(old(store)@, hash@).0,
        opt_link_view(link) =~~= spec_insert_hash(old(store)@, hash@).1,
        wf(final(store)@),
{
    let ghost s0 = *store;
    let ghost d = hash@.hash;
    let mut fi_found: Option<usize> = None;
    let mut k: usize = 0;
    while k < store.files.len()
        invariant_except_break
            k <= store@.files.len(),
            *store == s0,
            d == hash@.hash,
            fi_found is None,
            file_match_at(store@.files, d, 0) == file_match_at(store@.files, d, k as int),
        ensures
            *store == s0,
            d == hash@.hash,
            match fi_found {
                Some(f) => f < s0@.files.len() && file_match_at(s0@.files, d, 0) == f
                    && s0@.files[f as int].hash == d,
                None => file_match_at(s0@.files, d, 0) == -1,
            },
        decreases store@.files.len() - k,
    {
        if store.files[k].hash == hash.hash {
            proof {
                assert(file_match_at(store@.files, d, k as int) == k as int);
            }
            fi_found = Some(k);
            break ;
        }
        proof {
            assert(store@.files[k as int].hash != d);
            assert(file_match_at(store@.files, d, k as int) == file_match_at(
                store@.files,
                d,
                k + 1int,
            ));
        }
        k = k + 1;
    }
    let fidx: usize = match fi_found {
        Some(f) => f,
        None => {
            store.files.push(FileInfoRow { hash: hash.hash.clone(), reference_count: 0 });
            store.files.len() - 1
        },
    };
    let ghost files1 = if file_match_at(s0@.files, d, 0) >= 0 {
        s0@.files
    } else {
        s0@.files.push(FileInfoRowV { hash: d, reference_count: 0 })
    };
    proof {
        assert(store@.files =~= files1);
        assert(files1[fidx as int].hash == d);
        // The count the asset row holds equals the number of existing
        // mappings with the digest, by the store invariant; a fresh row
        // holds zero, and no mapping can exist for it.
        if fi_found is Some {
            assert(s0@.files[fidx as int].reference_count == file_ref_count(s0@.set_files, d));
        } else {
            if file_ref_count(s0@.set_files, d) > 0 {
                lemma_ref_count_positive(s0@.set_files, d);
                let j = choose|j: int|
                    0 <= j < s0@.set_files.len() && (#[trigger] s0@.set_files[j]).file_hash == d;
                assert(file_match_at(s0@.files, s0@.set_files[j].file_hash, 0) >= 0);
                assert(false);
            }
        }
        assert(files1[fidx as int].reference_count == file_ref_count(s0@.set_files, d));
        lemma_ref_count_le_len(s0@.set_files, d);
    }
    store.set_files.push(
        SetFileRow {
            beatmap_set_info_id: hash.request.beatmapset_info_id,
            file_hash: hash.hash.clone(),
            filename: hash.request.stripped_path.clone(),
        },
    );
    let n = store.set_files.len();
    proof {
        assert(n == s0@.set_files.len() + 1);
    }
    let e = &mut store.files[fidx];
    e.reference_count = e.reference_count + 1;
    let ghost s1 = *store;
    proof {
        assert(s1@.files =~= files1.update(
            fidx as int,
            FileInfoRowV {
                hash: d,
                reference_count: files1[fidx as int].reference_count + 1,
            },
        ));
    }
    let do_backfill = hash.request.stripped_path == hash.request.file_name;
    if do_backfill {
        let mut i: usize = 0;
        while i < store.beatmaps.len()
            invariant
                i <= store@.beatmaps.len(),
                d == hash@.hash,
                store@.beatmaps.len() == s1@.beatmaps.len(),
                store@.difficulties == s1@.difficulties,
                store@.metadata == s1@.metadata,
                store@.sets == s1@.sets,
                store@.files == s1@.files,
                store@.set_files == s1@.set_files,
                store@.linked == s1@.linked,
                forall|t: int|
                    0 <= t < i ==> store@.beatmaps[t] == (if s1@.beatmaps[t].online_beatmap_id
                        == hash@.request.beatmap_id {
                        BeatmapInfoRowV { hash: Some(d), ..s1@.beatmaps[t] }
                    } else {
                        s1@.beatmaps[t]
                    }),
                forall|t: int|
                    i <= t < store@.beatmaps.len() ==> store@.beatmaps[t] == s1@.beatmaps[t],
            decreases store@.beatmaps.len() - i,
        {
            let matches_entry = store.beatmaps[i].online_beatmap_id == hash.request.beatmap_id;
            proof {
                assert(store@.beatmaps[i as int] == s1@.beatmaps[i as int]);
                assert(matches_entry == (s1@.beatmaps[i as int].online_beatmap_id
                    == hash@.request.beatmap_id));
            }
            if matches_entry {
                let e2 = &mut store.beatmaps[i];
                e2.hash = Some(hash.hash.clone());
                proof {
                    assert(store@.beatmaps[i as int] =~= BeatmapInfoRowV {
                        hash: Some(d),
                        ..s1@.beatmaps[i as int]
                    });
                }
            }
            proof {
                assert forall|t: int|
                    0 <= t < i + 1 implies store@.beatmaps[t] == (
                    if s1@.beatmaps[t].online_beatmap_id == hash@.request.beatmap_id {
                        BeatmapInfoRowV { hash: Some(d), ..s1@.beatmaps[t] }
                    } else {
                        s1@.beatmaps[t]
                    }) by {
                    if t == i as int {
                        assert(matches_entry == (s1@.beatmaps[t].online_beatmap_id
                            == hash@.request.beatmap_id));
                    }
                }
            }
            i = i + 1;
        }
    }
    let ghost s2 = *store;
    proof {
        if hash@.request.stripped_path == hash@.request.file_name {
            assert(s2@.beatmaps =~= Seq::new(
                s1@.beatmaps.len(),
                |t: int|
                    if s1@.beatmaps[t].online_beatmap_id == hash@.request.beatmap_id {
                        BeatmapInfoRowV { hash: Some(d), ..s1@.beatmaps[t] }
                    } else {
                        s1@.beatmaps[t]
                    },
            ));
        } else {
            assert(s2@.beatmaps =~= s1@.beatmaps);
        }
        assert(s2@.linked == s0@.linked);
    }
    let mut already = false;
    let mut j2: usize = 0;
    while j2 < store.linked.len()
        invariant_except_break
            j2 <= store@.linked.len(),
            *store == s2,
            d == hash@.hash,
            !already,
            forall|t: int| 0 <= t < j2 ==> store@.linked[t] != d,
        ensures
            *store == s2,
            d == hash@.hash,
            already == s2@.linked.contains(d),
        decreases store@.linked.len() - j2,
    {
        if store.linked[j2] == hash.hash {
            proof {
                assert(s2@.linked[j2 as int] == d);
                assert(s2@.linked.contains(d));
            }
            already = true;
            break ;
        }
        proof {
            assert(store@.linked[j2 as int] != d);
        }
        j2 = j2 + 1;
    }
    proof {
        if !already {
            assert(!s2@.linked.contains(d)) by {
                if s2@.linked.contains(d) {
                    let t = choose|t: int| 0 <= t < s2@.linked.len() && s2@.linked[t] == d;
                    assert(false);
                }
            }
        }
        assert(already == s0@.linked.contains(d));
    }
    let link: Option<LinkRequest> = if !already {
        store.linked.push(hash.hash.clone());
        let hs: &str = hash.hash.as_str();
        proof {
            lemma_hex64_ascii(d);
            assert(hs@.len() == 64);
        }
        let dir1 = String::from_str(hs.substring_ascii(0, 1));
        let dir2 = String::from_str(hs.substring_ascii(0, 2));
        Some(
            LinkRequest {
                dir1,
                dir2,
                digest: hash.hash.clone(),
                source_path: hash.request.full_path.clone(),
            },
        )
    } else {
        None
    };
    proof {
        let (sx, lx) = spec_insert_hash(s0@, hash@);
        assert(final(store)@ =~= sx);
        assert(opt_link_view(link) =~~= lx);
        lemma_insert_hash_wf(s0@, hash@);
    }
    link
}

/// A matching metadata row at a position has a match from the start; with
/// no matching row there is none.
pub(crate) proof fn lemma_meta_match_exists(rows: Seq<MetadataRowV>, m: MetadataRowV, i: int)
    requires
        0 <= i <= rows.len(),
    ensures
        (exists|j: int| i <= j < rows.len() && rows[j] == m) <==> meta_match_at(rows, m, i) >= 0,
        meta_match_at(rows, m, i) >= 0 ==> i <= meta_match_at(rows, m, i) < rows.len() && rows[
            meta_match_at(rows, m, i)
        ] == m,
    decreases rows.len() - i,
{
    if i < rows.len() {
        lemma_meta_match_exists(rows, m, i + 1);
    }
}

/// A set row with the group id at a position has a match from the start;
/// with no such row there is none.
pub(crate) proof fn lemma_set_match_exists(rows: Seq<SetInfoRowV>, set_id: u32, i: int)
    requires
        0 <= i <= rows.len(),
    ensures
        (exists|j: int| i <= j < rows.len() && (#[trigger] rows[j]).online_beatmap_set_id == set_id)
            <==> set_match_at(rows, set_id, i) >= 0,
        set_match_at(rows, set_id, i) >= 0 ==> i <= set_match_at(rows, set_id, i) < rows.len()
            && rows[set_match_at(rows, set_id, i)].online_beatmap_set_id == set_id,
    decreases rows.len() - i,
{
    if i < rows.len() {
        lemma_set_match_exists(rows, set_id, i + 1);
    }
}

/// One entry's writes grow the difficulty table by one row, the metadata
/// and set tables by at most one row each, and leave the content store
/// untouched.
proof fn lemma_insert_beatmap_lens(
    s: StoreV,
    item: BeatmapProcessedV,
    author_id: Option<i64>,
    existing: Seq<u32>,
    h: Seq<char>,
)
    ensures
        ({
            let (s2, _) = spec_insert_beatmap(s, item, author_id, existing, h);
            &&& s2.difficulties.len() == s.difficulties.len() + 1
            &&& s.metadata.len() <= s2.metadata.len() <= s.metadata.len() + 1
            &&& s.sets.len() <= s2.sets.len() <= s.sets.len() + 1
            &&& s2.files == s.files
            &&& s2.set_files == s.set_files
            &&& s2.linked == s.linked
        }),
{
    let (s1, _) = spec_insert_difficulty(s, item.beatmap);
    let (s2, _) = spec_resolve_metadata(s1, spec_metadata_row(item.beatmap, author_id));
    let (s3, _) = spec_upsert_set(
        s2,
        item.db_beatmap,
        spec_resolve_metadata(s1, spec_metadata_row(item.beatmap, author_id)).1,
        item.is_main,
        existing,
        h,
    );
    assert(s3.difficulties == s1.difficulties);
    assert(s3.metadata == s2.metadata);
    assert(s2.sets == s.sets);
    let mid = spec_resolve_metadata(s1, spec_metadata_row(item.beatmap, author_id)).1;
    let fi = set_match_at(s2.sets, item.db_beatmap.beatmap_set_id, 0);
    lemma_set_match_exists(s2.sets, item.db_beatmap.beatmap_set_id, 0);
    if fi >= 0 && !item.is_main {
        assert(s3.sets == s2.sets);
    } else if fi < 0 && !item.is_main && existing.contains(item.db_beatmap.beatmap_set_id) {
        assert(s3.sets == s2.sets);
    } else {
        match spec_ticks_to_nanos(item.db_beatmap.modification_date) {
            None => {
                assert(s3.sets == s2.sets);
            },
            Some(nanos) => {
                let row = spec_set_row(item.db_beatmap, mid, h, nanos);
                if fi >= 0 {
                    assert(s3.sets == s2.sets.update(fi, row));
                    assert(s3.sets.len() == s2.sets.len());
                } else {
                    assert(s3.sets == s2.sets.push(row));
                }
            },
        }
    }
    let (sf, ref_opt) = spec_insert_beatmap(s, item, author_id, existing, h);
    match ref_opt {
        None => {
            assert(sf == s3);
        },
        Some(set_ref) => {
            assert(sf.difficulties == s3.difficulties);
            assert(sf.metadata == s3.metadata);
            assert(sf.sets == s3.sets);
            assert(sf.files == s3.files);
            assert(sf.set_files == s3.set_files);
            assert(sf.linked == s3.linked);
        },
    }
    assert(sf.difficulties.len() == s.difficulties.len() + 1);
    assert(s.metadata.len() <= sf.metadata.len() <= s.metadata.len() + 1);
    assert(s.sets.len() <= sf.sets.len() <= s.sets.len() + 1);
    assert(sf.files == s.files);
    assert(sf.set_files == s.set_files);
    assert(sf.linked == s.linked);
}

/// The metadata inserter preserves the store's invariants.
pub proof fn lemma_insert_beatmap_wf(
    s: StoreV,
    item: BeatmapProcessedV,
    author_id: Option<i64>,
    existing: Seq<u32>,
    h: Seq<char>,
)
    requires
        wf(s),
    ensures
        wf(spec_insert_beatmap(s, item, author_id, existing, h).0),
{
    let (s1, _) = spec_insert_difficulty(s, item.beatmap);
    let m = spec_metadata_row(item.beatmap, author_id);
    let (s2, _) = spec_resolve_metadata(s1, m);
    lemma_meta_match_exists(s1.metadata, m, 0);
    if meta_match_at(s1.metadata, m, 0) < 0 {
        assert forall|i: int, j: int| 0 <= i < j < s2.metadata.len() implies s2.metadata[i]
            != s2.metadata[j] by {
            if j == s1.metadata.len() {
                assert(s2.metadata[i] == s1.metadata[i]);
            }
        }
    }
    let mid = spec_resolve_metadata(s1, m).1;
    let (s3, _) = spec_upsert_set(s2, item.db_beatmap, mid, item.is_main, existing, h);
    let gid = item.db_beatmap.beatmap_set_id;
    let fi = set_match_at(s2.sets, gid, 0);
    lemma_set_match_exists(s2.sets, gid, 0);
    assert(wf(s3)) by {
        if fi >= 0 && !item.is_main {
        } else if fi < 0 && !item.is_main && existing.contains(gid) {
        } else {
            match spec_ticks_to_nanos(item.db_beatmap.modification_date) {
                None => {},
                Some(nanos) => {
                    let row = spec_set_row(item.db_beatmap, mid, h, nanos);
                    if fi >= 0 {
                        assert forall|i: int, j: int|
                            0 <= i < j < s3.sets.len() implies (
                        #[trigger] s3.sets[i]).online_beatmap_set_id != (
                        #[trigger] s3.sets[j]).online_beatmap_set_id by {
                            assert(s2.sets[fi].online_beatmap_set_id == gid);
                        }
                    } else {
                        assert forall|i: int, j: int|
                            0 <= i < j < s3.sets.len() implies (
                        #[trigger] s3.sets[i]).online_beatmap_set_id != (
                        #[trigger] s3.sets[j]).online_beatmap_set_id by {
                            if j == s2.sets.len() {
                                assert(s3.sets[i] == s2.sets[i]);
                            }
                        }
                    }
                },
            }
        }
    }
    let (s4, ref_opt) = spec_insert_beatmap(s, item, author_id, existing, h);
    assert(s4.metadata == s3.metadata);
    assert(s4.sets == s3.sets);
    assert(s4.files == s3.files);
    assert(s4.set_files == s3.set_files);
    assert(s4.linked == s3.linked);
}

/// The views of a batch of work items.
pub open spec fn items_view(s: Seq<InsertItem>) -> Seq<InsertItemV> {
    Seq::new(s.len(), |i: int| s[i]@)
}

/// The views of a batch of emitted hash requests.
pub open spec fn reqs_view(s: Seq<HashRequest>) -> Seq<HashRequestV> {
    Seq::new(s.len(), |i: int| s[i]@)
}

/// The positions of failed entries, as mathematical integers.
pub open spec fn fails_view(s: Seq<usize>) -> Seq<int> {
    Seq::new(s.len(), |i: int| s[i] as int)
}

/// The views of a batch of digested files.
pub open spec fn hashes_view(s: Seq<HashProcessed>) -> Seq<HashProcessedV> {
    Seq::new(s.len(), |i: int| s[i]@)
}

/// The views of a batch of link requests.
pub open spec fn links_view(s: Seq<LinkRequest>) -> Seq<LinkRequestV> {
    Seq::new(s.len(), |i: int| s[i]@)
}

/// The content-store inserter: commits a batch of digested files in
/// arrival order and yields the on-disk links to materialize, at most one
/// per distinct digest.
pub fn insert_hashes(store: &mut Store, hashes: Vec<HashProcessed>) -> (links: Vec<LinkRequest>)
    requires
        wf(old(store)@),
        forall|t: int| 0 <= t < hashes@.len() ==> is_hex64((#[trigger] hashes@[t])@.hash),
    ensures
        final(store)@ =~= spec_insert_hashes(old(store)@, hashes_view(hashes@)).0,
        links_view(links@) =~~= spec_insert_hashes(old(store)@, hashes_view(hashes@)).1,
        wf(final(store)@),
{
    let ghost s0 = *store;
    let ghost hv = hashes_view(hashes@);
    let mut links: Vec<LinkRequest> = Vec::new();
    let mut i: usize = 0;
    while i < hashes.len()
        invariant
            i <= hv.len(),
            hv == hashes_view(hashes@),
            forall|t: int| 0 <= t < hv.len() ==> is_hex64((#[trigger] hv[t]).hash),
            wf(store@),
            store@ == spec_insert_hashes(s0@, hv.take(i as int)).0,
            links_view(links@) == spec_insert_hashes(s0@, hv.take(i as int)).1,
        decreases hv.len() - i,
    {
        let ghost sp = *store;
        let ghost links_pre = links_view(links@);
        proof {
            assert(hv[i as int] == hashes@[i as int]@);
        }
        let link = insert_hash(store, &hashes[i]);
        let ghost lv = opt_link_view(link);
        match link {
            Some(l) => links.push(l),
            None => {},
        }
        proof {
            let pre = hv.take(i + 1int);
            assert(pre.drop_last() =~= hv.take(i as int));
            assert(pre.last() == hashes@[i as int]@);
            let (sx, lx) = spec_insert_hash(sp@, hashes@[i as int]@);
            assert(store@ =~= sx);
            assert(store@ == spec_insert_hashes(s0@, pre).0);
            match lv {
                Some(l) => {
                    assert(links_view(links@) =~= links_pre + seq![l]);
                },
                None => {
                    assert(links_view(links@) =~= links_pre + Seq::<LinkRequestV>::empty());
                },
            }
            assert(links_view(links@) == spec_insert_hashes(s0@, pre).1);
        }
        i = i + 1;
    }
    proof {
        assert(hv.take(hv.len() as int) =~= hv);
    }
    links
}

/// The metadata inserter: consumes a batch of decoded entries in arrival
/// order, writes each entry's rows — judging each set upsert against the
/// group ids the target already holds, so a non-primary entry never
/// touches a pre-existing set row — and emits one hash request per file of
/// a primary entry whose rows were written. Yields the emitted requests and
/// the positions of the entries that were dropped. The placeholder hashes
/// written on set inserts are random; only their shape is promised.
pub fn insert_beatmaps(
    store: &mut Store,
    items: Vec<InsertItem>,
    existing_groups: &Vec<u32>,
) -> (out: (Vec<HashRequest>, Vec<usize>))
    requires
        wf(old(store)@),
        old(store)@.difficulties.len() + items@.len() < ROWID_LIMIT,
        old(store)@.metadata.len() + items@.len() < ROWID_LIMIT,
        old(store)@.sets.len() + items@.len() < ROWID_LIMIT,
    ensures
        wf(final(store)@),
        exists|hs: Seq<Seq<char>>|
            #![trigger spec_insert_beatmaps(old(store)@, items_view(items@), existing_groups@, hs)]
            {
                &&& hs.len() == items@.len()
                &&& (forall|t: int| 0 <= t < hs.len() ==> is_hex64(#[trigger] hs[t]))
                &&& {
                    let (s2, reqs, fails) = spec_insert_beatmaps(
                        old(store)@,
                        items_view(items@),
                        existing_groups@,
                        hs,
                    );
                    &&& final(store)@ =~= s2
                    &&& reqs_view(out.0@) =~~= reqs
                    &&& fails_view(out.1@) == fails
                }
            },
{
    let ghost s0 = *store;
    let ghost ex = existing_groups@;
    let ghost iv = items_view(items@);
    let ghost mut hs: Seq<Seq<char>> = Seq::empty();
    let mut requests: Vec<HashRequest> = Vec::new();
    let mut failures: Vec<usize> = Vec::new();
    let mut i: usize = 0;
    while i < items.len()
        invariant
            i <= iv.len(),
            iv == items_view(items@),
            ex == existing_groups@,
            s0@.difficulties.len() + iv.len() < ROWID_LIMIT,
            s0@.metadata.len() + iv.len() < ROWID_LIMIT,
            s0@.sets.len() + iv.len() < ROWID_LIMIT,
            store@.difficulties.len() <= s0@.difficulties.len() + i,
            store@.metadata.len() <= s0@.metadata.len() + i,
            store@.sets.len() <= s0@.sets.len() + i,
            wf(store@),
            hs.len() == i,
            forall|t: int| 0 <= t < hs.len() ==> is_hex64(#[trigger] hs[t]),
            ({
                let (s2, reqs, fails) = spec_insert_beatmaps(s0@, iv.take(i as int), ex, hs);
                &&& store@ == s2
                &&& reqs_view(requests@) == reqs
                &&& fails_view(failures@) == fails
            }),
        decreases iv.len() - i,
    {
        let ghost sp = *store;
        let ghost reqs_pre = reqs_view(requests@);
        let ghost fails_pre = fails_view(failures@);
        let item = &items[i];
        let res = insert_beatmap(store, &item.beatmap, item.author_id, existing_groups);
        let ghost h = choose|h: Seq<char>|
            #[trigger] is_hex64(h) && {
                let (s2, ref_opt) = spec_insert_beatmap(
                    sp@,
                    item.beatmap@,
                    item.author_id,
                    ex,
                    h,
                );
                &&& store@ =~= s2
                &&& match res {
                    Ok(sr) => ref_opt == Some(sr@),
                    Err(e) => ref_opt is None && e == StoreError::TimestampOutOfRange,
                }
            };
        let ghost sb = *store;
        let ghost hs_pre = hs;
        proof {
            hs = hs.push(h);
            assert(hs.drop_last() =~= hs_pre);
            assert(hs.drop_last() == hs_pre);
            lemma_insert_beatmap_lens(sp@, item.beatmap@, item.author_id, ex, h);
            lemma_insert_beatmap_wf(sp@, item.beatmap@, item.author_id, ex, h);
            assert(iv.take(i + 1int).drop_last() =~= iv.take(i as int));
            assert(hs.drop_last() =~= hs.subrange(0, i as int));
            assert(hs.subrange(0, i as int) =~= hs.take(i as int));
            assert(iv[i as int] == items@[i as int]@);
            assert(iv.take(i + 1int).last() == items@[i as int]@);
            assert(hs.last() == h);
            assert(item.beatmap@ == iv[i as int].beatmap);
        }
        match res {
            Err(_) => {
                failures.push(i);
                proof {
                    assert(fails_view(failures@) =~= fails_pre.push(i as int));
                    assert(reqs_view(requests@) =~= reqs_pre + Seq::<HashRequestV>::empty());
                }
            },
            Ok(SetRef::Target(_)) => {
                proof {
                    assert(reqs_view(requests@) =~= reqs_pre + Seq::<HashRequestV>::empty());
                    assert(fails_view(failures@) =~= fails_pre);
                }
            },
            Ok(SetRef::Run(set_id)) => {
                if item.beatmap.is_main {
                    let ghost emitted = spec_hash_requests(iv[i as int], set_id as int);
                    let mut j: usize = 0;
                    while j < item.files.len()
                        invariant
                            j <= items@[i as int].files@.len(),
                            i < items@.len(),
                            *store == sb,
                            item == &items@[i as int],
                            iv == items_view(items@),
                            iv[i as int] == items@[i as int]@,
                            emitted == spec_hash_requests(iv[i as int], set_id as int),
                            emitted.len() == items@[i as int].files@.len(),
                            reqs_view(requests@) == reqs_pre + emitted.take(j as int),
                        decreases items@[i as int].files@.len() - j,
                    {
                        let f = &item.files[j];
                        let ghost rv_pre = requests@;
                        requests.push(
                            HashRequest {
                                beatmap_id: item.beatmap.db_beatmap.beatmap_id,
                                beatmapset_id: item.beatmap.db_beatmap.beatmap_set_id,
                                folder_name: item.beatmap.db_beatmap.folder_name.clone(),
                                file_name: item.beatmap.db_beatmap.beatmap_file_name.clone(),
                                beatmapset_info_id: set_id,
                                stripped_path: f.stripped_path.clone(),
                                full_path: f.full_path.clone(),
                            },
                        );
                        proof {
                            assert(iv[i as int].files[j as int] == items@[i as int].files@[
                                j as int
                            ]@);
                            assert(requests@.last()@ =~= emitted[j as int]);
                            assert(requests@.last()@ == emitted[j as int]);
                            assert(requests@.len() == rv_pre.len() + 1);
                            assert(reqs_view(rv_pre) == reqs_pre + emitted.take(j as int));
                            assert(reqs_view(rv_pre).len() == rv_pre.len());
                            assert(emitted.take(j as int).len() == j);
                            assert(rv_pre.len() == reqs_pre.len() + j);
                            assert forall|t: int|
                                0 <= t < requests@.len() implies reqs_view(requests@)[t] == (
                            reqs_pre + emitted.take(j + 1int))[t] by {
                                if t < rv_pre.len() {
                                    assert(requests@[t] == rv_pre[t]);
                                    assert(reqs_view(requests@)[t] == reqs_view(rv_pre)[t]);
                                    assert(reqs_view(rv_pre)[t] == (reqs_pre + emitted.take(
                                        j as int,
                                    ))[t]);
                                    if t >= reqs_pre.len() {
                                        assert((reqs_pre + emitted.take(j as int))[t]
                                            == emitted.take(j as int)[t - reqs_pre.len()]);
                                        assert(emitted.take(j as int)[t - reqs_pre.len()]
                                            == emitted[t - reqs_pre.len()]);
                                        assert((reqs_pre + emitted.take(j + 1int))[t] == emitted[
                                            t - reqs_pre.len()
                                        ]);
                                    }
                                } else {
                                    assert(reqs_view(requests@)[t] == requests@.last()@);
                                    assert((reqs_pre + emitted.take(j + 1int))[t] == emitted[
                                        j as int
                                    ]);
                                }
                            }
                            assert(reqs_view(requests@) =~= reqs_pre + emitted.take(j + 1int));
                        }
                        j = j + 1;
                    }
                    proof {
                        assert(emitted.take(emitted.len() as int) =~= emitted);
                        assert(reqs_view(requests@) == reqs_pre + emitted);
                    }
                } else {
                    proof {
                        assert(reqs_view(requests@) =~= reqs_pre + Seq::<HashRequestV>::empty());
                    }
                }
                proof {
                    assert(fails_view(failures@) =~= fails_pre);
                }
            },
        }
        proof {
            let pre_items = iv.take(i + 1int);
            assert(pre_items.drop_last() == iv.take(i as int));
            assert(hs.drop_last() == hs_pre);
            let (s1r, r1, f1) = spec_insert_beatmaps(s0@, iv.take(i as int), ex, hs_pre);
            assert(s1r == sp@);
            assert(r1 == reqs_pre);
            assert(f1 == fails_pre);
            assert(pre_items.last() == items@[i as int]@);
            let (s2, reqs, fails) = spec_insert_beatmaps(s0@, pre_items, ex, hs);
            assert(store@ == s2);
            assert(reqs_view(requests@) == reqs);
            assert(fails_view(failures@) == fails);
        }
        i = i + 1;
    }
    proof {
        assert(iv.take(iv.len() as int) =~= iv);
    }
    (requests, failures)
}

} // verus!
