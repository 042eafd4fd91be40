use osu_link::database::{insert_beatmap, insert_beatmaps, insert_hashes};
use osu_link::digest::hash_content;
use osu_link::records::{
    AssetFile, BeatmapProcessed, DecodedBeatmap, EventRec, HashProcessed, HashRequest, InsertItem,
    LegacyBeatmap, TimingRec,
};
use osu_link::store::{SetRef, Store};

fn legacy(id: u32, gid: u32, folder: &str, file: &str) -> LegacyBeatmap {
    LegacyBeatmap {
        beatmap_id: id,
        beatmap_set_id: gid,
        folder_name: folder.to_string(),
        beatmap_file_name: file.to_string(),
        modification_date: 630_000_000_000_000_000,
        ranked_status: 4,
        total_time: 95_000,
        hash: format!("md5-{}", id),
        std_star_rating: vec![],
        std_taiko_rating: vec![],
        std_ctb_rating: vec![],
        std_mania_rating: vec![],
    }
}

fn decoded(title: &str) -> DecodedBeatmap {
    DecodedBeatmap {
        audio_filename: "audio.mp3".to_string(),
        audio_leadin: 0,
        preview_time: 1_000,
        countdown: false,
        stack_leniency: 0u64,
        mode: 0,
        letterbox_in_breaks: false,
        widescreen_storyboard: true,
        approach_rate: 9.0f32.to_bits(),
        circle_size: 4.0f32.to_bits(),
        hp_drain_rate: 5.0f32.to_bits(),
        overall_difficulty: 8.0f32.to_bits(),
        slider_multiplier: 1.4f64.to_bits(),
        slider_tick_rate: 1.0f64.to_bits(),
        bookmarks: vec![100, 200],
        distance_spacing: 1.0f64.to_bits(),
        beat_divisor: 4,
        grid_size: 8,
        timeline_zoom: 1.0f64.to_bits(),
        title: title.to_string(),
        title_unicode: title.to_string(),
        artist: "artist".to_string(),
        artist_unicode: "artist".to_string(),
        creator: "creator".to_string(),
        difficulty_name: "Hard".to_string(),
        source: "".to_string(),
        tags: vec!["electro".to_string(), "jazz".to_string()],
        events: vec![EventRec::Background("bg.png".to_string())],
        timing_points: vec![
            TimingRec { uninherited: false, mpb: 100.0f64.to_bits() },
            TimingRec { uninherited: true, mpb: 400.0f64.to_bits() },
        ],
        epilepsy_warning: false,
    }
}

fn item(l: LegacyBeatmap, d: DecodedBeatmap, primary: bool, files: Vec<AssetFile>) -> InsertItem {
    InsertItem {
        beatmap: BeatmapProcessed { db_beatmap: l, beatmap: d, is_main: primary },
        author_id: Some(77),
        files,
    }
}

fn asset(stripped: &str, full: &str) -> AssetFile {
    AssetFile { stripped_path: stripped.to_string(), full_path: full.to_string() }
}

fn processed(req: &HashRequest, content: &[u8]) -> HashProcessed {
    HashProcessed {
        request: HashRequest {
            beatmap_id: req.beatmap_id,
            beatmapset_id: req.beatmapset_id,
            folder_name: req.folder_name.clone(),
            file_name: req.file_name.clone(),
            beatmapset_info_id: req.beatmapset_info_id,
            stripped_path: req.stripped_path.clone(),
            full_path: req.full_path.clone(),
        },
        hash: hash_content(&content.to_vec()),
    }
}

/// The full scenario: one group with a primary and a secondary entry
/// sharing a folder with two files.
#[test]
fn scenario_one_group_two_entries() {
    let mut store = Store::new();
    let files = vec![asset("a.osu", "/songs/10/a.osu"), asset("bg.png", "/songs/10/bg.png")];
    let items = vec![
        item(legacy(1, 10, "10", "a.osu"), decoded("song"), true, files),
        item(legacy(2, 10, "10", "a.osu"), decoded("song"), false, vec![]),
    ];
    let (requests, failures) = insert_beatmaps(&mut store, items, &Vec::new());
    assert!(failures.is_empty());
    assert_eq!(store.sets.len(), 1);
    assert_eq!(store.sets[0].online_beatmap_set_id, 10);
    assert_eq!(store.metadata.len(), 1);
    assert_eq!(store.difficulties.len(), 2);
    assert_eq!(store.beatmaps.len(), 2);
    assert_eq!(store.beatmaps[0].online_beatmap_id, 1);
    assert_eq!(store.beatmaps[1].online_beatmap_id, 2);
    // Only the primary entry's files are scheduled for hashing.
    assert_eq!(requests.len(), 2);
    assert_eq!(requests[0].stripped_path, "a.osu");
    assert_eq!(requests[1].stripped_path, "bg.png");

    let d1 = hash_content(&b"osu file format v14".to_vec());
    let d2 = hash_content(&b"png bytes".to_vec());
    let results = vec![
        processed(&requests[0], b"osu file format v14"),
        processed(&requests[1], b"png bytes"),
    ];
    let links = insert_hashes(&mut store, results);
    assert_eq!(store.files.len(), 2);
    assert_eq!(store.files[0].hash, d1);
    assert_eq!(store.files[0].reference_count, 1);
    assert_eq!(store.files[1].hash, d2);
    assert_eq!(store.files[1].reference_count, 1);
    assert_eq!(store.set_files.len(), 2);
    assert_eq!(store.set_files[0].filename, "a.osu");
    // The descriptor file's digest is back-filled onto entry 1's row.
    assert_eq!(store.beatmaps[0].hash.as_deref(), Some(d1.as_str()));
    assert_eq!(store.beatmaps[1].hash, None);
    assert_eq!(links.len(), 2);
    assert_eq!(links[0].digest, d1);
    assert_eq!(links[0].dir1, &d1[..1]);
    assert_eq!(links[0].dir2, &d1[..2]);
    assert_eq!(links[0].source_path, "/songs/10/a.osu");
}

/// Two files with identical bytes: one asset row, reference count two, two
/// mappings, one link.
#[test]
fn dedup_same_content() {
    let mut store = Store::new();
    let files = vec![asset("x/a.wav", "/songs/9/x/a.wav"), asset("y/b.wav", "/songs/9/y/b.wav")];
    let items = vec![item(legacy(5, 9, "9", "a.osu"), decoded("s"), true, files)];
    let (requests, failures) = insert_beatmaps(&mut store, items, &Vec::new());
    assert!(failures.is_empty());
    let results: Vec<HashProcessed> =
        requests.iter().map(|r| processed(r, b"same bytes")).collect();
    let links = insert_hashes(&mut store, results);
    let d = hash_content(&b"same bytes".to_vec());
    assert_eq!(store.files.len(), 1);
    assert_eq!(store.files[0].hash, d);
    assert_eq!(store.files[0].reference_count, 2);
    assert_eq!(store.set_files.len(), 2);
    // Link idempotence: the second commit of the digest emits no link.
    assert_eq!(links.len(), 1);
    assert_eq!(store.linked.len(), 1);
}

/// Only a primary entry may overwrite an existing set row.
#[test]
fn primary_only_force() {
    let mut store = Store::new();
    let (_, failures) = insert_beatmaps(
        &mut store,
        vec![item(legacy(1, 10, "10", "a.osu"), decoded("a"), true, vec![])],
        &Vec::new(),
    );
    assert!(failures.is_empty());
    let before_hash = store.sets[0].hash.clone();
    let before_meta = store.sets[0].metadata_id;

    // Replaying non-primary entries does not touch the existing set row.
    let (_, failures) = insert_beatmaps(
        &mut store,
        vec![
            item(legacy(2, 10, "10", "b.osu"), decoded("b"), false, vec![]),
            item(legacy(3, 10, "10", "c.osu"), decoded("c"), false, vec![]),
        ],
        &Vec::new(),
    );
    assert!(failures.is_empty());
    assert_eq!(store.sets.len(), 1);
    assert_eq!(store.sets[0].hash, before_hash);
    assert_eq!(store.sets[0].metadata_id, before_meta);

    // A primary entry overwrites: the placeholder hash is regenerated and
    // the row still is the only one for the group.
    let (_, failures) = insert_beatmaps(
        &mut store,
        vec![item(legacy(4, 10, "10", "d.osu"), decoded("d"), true, vec![])],
        &Vec::new(),
    );
    assert!(failures.is_empty());
    assert_eq!(store.sets.len(), 1);
    assert_ne!(store.sets[0].metadata_id, before_meta);
}

/// Identical metadata tuples share one row; one differing field makes two.
#[test]
fn metadata_reuse() {
    let mut store = Store::new();
    let items = vec![
        item(legacy(1, 10, "10", "a.osu"), decoded("same"), true, vec![]),
        item(legacy(2, 11, "11", "b.osu"), decoded("same"), true, vec![]),
        item(legacy(3, 12, "12", "other"), decoded("other"), true, vec![]),
    ];
    let (_, failures) = insert_beatmaps(&mut store, items, &Vec::new());
    assert!(failures.is_empty());
    assert_eq!(store.metadata.len(), 2);
    assert_eq!(store.beatmaps[0].metadata_id, store.beatmaps[1].metadata_id);
    assert_ne!(store.beatmaps[0].metadata_id, store.beatmaps[2].metadata_id);
}

/// The author id differing is enough to split otherwise equal tuples.
#[test]
fn metadata_author_id_distinguishes() {
    let mut store = Store::new();
    let mut it1 = item(legacy(1, 10, "10", "a.osu"), decoded("same"), true, vec![]);
    let mut it2 = item(legacy(2, 11, "11", "b.osu"), decoded("same"), true, vec![]);
    it1.author_id = Some(5);
    it2.author_id = None; // resolves to the default author id 0
    let (_, failures) = insert_beatmaps(&mut store, vec![it1, it2], &Vec::new());
    assert!(failures.is_empty());
    assert_eq!(store.metadata.len(), 2);
    assert_eq!(store.metadata[0].author_id, 5);
    assert_eq!(store.metadata[1].author_id, 0);
}

/// A timestamp before the windows-to-unix epoch difference cannot be
/// converted: the entry is dropped, its difficulty and metadata writes
/// remain, and no set or entry row appears.
#[test]
fn timestamp_failure_drops_entry() {
    let mut store = Store::new();
    let mut bad = legacy(1, 10, "10", "a.osu");
    bad.modification_date = 0;
    let (requests, failures) = insert_beatmaps(
        &mut store,
        vec![item(bad, decoded("t"), true, vec![asset("a", "/a")])],
        &Vec::new(),
    );
    assert_eq!(failures, vec![0usize]);
    assert!(requests.is_empty());
    assert_eq!(store.difficulties.len(), 1);
    assert_eq!(store.metadata.len(), 1);
    assert_eq!(store.sets.len(), 0);
    assert_eq!(store.beatmaps.len(), 0);
}

/// Field-level checks of the written rows: derived status, tempo source,
/// star rating, joined columns.
#[test]
fn row_fields() {
    let mut store = Store::new();
    let mut l = legacy(1, 10, "10", "a.osu");
    l.std_star_rating = vec![
        osu_link::records::RatingRec { mods: 64, rating: 7.5f64.to_bits() },
        osu_link::records::RatingRec { mods: 0, rating: 5.25f64.to_bits() },
    ];
    let d = decoded("fields");
    let (_, failures) = insert_beatmaps(&mut store, vec![item(l, d, true, vec![])], &Vec::new());
    assert!(failures.is_empty());
    let row = &store.beatmaps[0];
    // ranked status 4 maps onto the target's enumeration offset by -3
    assert_eq!(row.status, 1);
    assert_eq!(store.sets[0].status, 1);
    // the first no-mod rating is chosen
    assert_eq!(row.star_difficulty, 5.25f64.to_bits());
    // the first fixed-tempo timing point provides the tempo source
    assert_eq!(row.bpm_source, Some(400.0f64.to_bits()));
    assert_eq!(row.stored_bookmarks, "100,200");
    assert_eq!(store.metadata[0].tags, "electro jazz");
    assert_eq!(store.metadata[0].background_file.as_deref(), Some("bg.png"));
    assert_eq!(store.metadata[0].video_file, None);
    assert_eq!(store.metadata[0].author_id, 77);
    // the set row's placeholder hash is 64 lowercase hex digits
    assert_eq!(store.sets[0].hash.len(), 64);
    assert!(store.sets[0].hash.chars().all(|c| c.is_ascii_hexdigit() && !c.is_ascii_uppercase()));
    // date text of 630_000_000_000_000_000 ticks past the windows epoch
    assert_eq!(store.sets[0].date_added, "1997-05-23 16:00:00+00:00");
}

/// A group whose set row is absent is inserted even by a non-primary
/// entry; only overwriting is reserved to primaries.
#[test]
fn absent_set_row_inserted_without_force() {
    let mut store = Store::new();
    let (_, failures) = insert_beatmaps(
        &mut store,
        vec![item(legacy(2, 10, "10", "b.osu"), decoded("b"), false, vec![])],
        &Vec::new(),
    );
    assert!(failures.is_empty());
    assert_eq!(store.sets.len(), 1);
    assert_eq!(store.sets[0].online_beatmap_set_id, 10);
    assert_eq!(store.beatmaps.len(), 1);
    assert_eq!(store.beatmaps[0].beatmap_set_info_id, SetRef::Run(1));
}

/// A group the target already holds: a non-primary entry writes no set
/// row at all and references the pre-existing one; a primary entry
/// overwrites it, so the run holds a written row for the group.
#[test]
fn preexisting_group_guarded() {
    let existing_groups = vec![10u32];

    // Replaying a non-primary entry alone: no set row is written.
    let mut store = Store::new();
    let (_, failures) = insert_beatmaps(
        &mut store,
        vec![item(legacy(2, 10, "10", "b.osu"), decoded("b"), false, vec![])],
        &existing_groups,
    );
    assert!(failures.is_empty());
    assert_eq!(store.sets.len(), 0);
    assert_eq!(store.beatmaps.len(), 1);
    assert_eq!(store.beatmaps[0].beatmap_set_info_id, SetRef::Target(10));

    // The primary entry forces the overwrite: the run writes the row.
    let mut store = Store::new();
    let (_, failures) = insert_beatmaps(
        &mut store,
        vec![item(legacy(1, 10, "10", "a.osu"), decoded("a"), true, vec![])],
        &existing_groups,
    );
    assert!(failures.is_empty());
    assert_eq!(store.sets.len(), 1);
    assert_eq!(store.sets[0].online_beatmap_set_id, 10);
    assert_eq!(store.beatmaps[0].beatmap_set_info_id, SetRef::Run(1));
}

/// A decoded entry whose first display event is a video sets only the
/// video reference, as scanning stops at the first of either kind.
#[test]
fn video_event_first() {
    let mut store = Store::new();
    let mut d = decoded("v");
    d.events = vec![
        EventRec::Other,
        EventRec::Video("clip.avi".to_string()),
        EventRec::Background("bg.png".to_string()),
    ];
    let r = insert_beatmap(
        &mut store,
        &BeatmapProcessed { db_beatmap: legacy(1, 10, "10", "a.osu"), beatmap: d, is_main: true },
        None,
        &Vec::new(),
    );
    assert_eq!(r, Ok(SetRef::Run(1)));
    assert_eq!(store.metadata[0].video_file.as_deref(), Some("clip.avi"));
    assert_eq!(store.metadata[0].background_file, None);
}
