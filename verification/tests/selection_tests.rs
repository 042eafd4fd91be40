use osu_link::clock::{format_date_added, ticks_to_unix_nanos};
use osu_link::digest::hash_content;
use osu_link::preflight::{check_stable_path, check_version};
use osu_link::records::LegacyBeatmap;
use osu_link::selection::{mark_primaries, select_entries};
use osu_link::textfmt::{dec_to_string, join_decs, join_texts};
use osu_link::WIN_TO_UNIX_EPOCH;

fn legacy(id: u32, gid: u32) -> LegacyBeatmap {
    LegacyBeatmap {
        beatmap_id: id,
        beatmap_set_id: gid,
        folder_name: format!("{}", gid),
        beatmap_file_name: format!("{}.osu", id),
        modification_date: WIN_TO_UNIX_EPOCH,
        ranked_status: 4,
        total_time: 1000,
        hash: String::new(),
        std_star_rating: vec![],
        std_taiko_rating: vec![],
        std_ctb_rating: vec![],
        std_mania_rating: vec![],
    }
}

/// The selection drops present, unsubmitted and ungrouped entries and
/// orders the rest by entry id.
#[test]
fn selection_filters_and_sorts() {
    let entries = vec![
        legacy(30, 3),
        legacy(10, 1),
        legacy(0, 5),         // unsubmitted sentinel
        legacy(20, u32::MAX), // ungrouped sentinel
        legacy(40, 4),
        legacy(25, 2),
    ];
    let existing = vec![40u32, 999];
    let selected = select_entries(entries, &existing);
    let ids: Vec<u32> = selected.iter().map(|e| e.beatmap_id).collect();
    assert_eq!(ids, vec![10, 25, 30]);
}

/// Running the selection again, once the target holds everything the first
/// run selected, selects nothing.
#[test]
fn selection_idempotent() {
    let entries = vec![legacy(3, 1), legacy(1, 1), legacy(2, 2)];
    let existing = vec![2u32];
    let first = select_entries(entries.clone(), &existing);
    assert_eq!(first.len(), 2);
    let mut existing2 = existing.clone();
    existing2.extend(first.iter().map(|e| e.beatmap_id));
    let second = select_entries(entries, &existing2);
    assert!(second.is_empty());
}

/// The first entry seen for each group id is primary.
#[test]
fn primaries_marked_in_order() {
    let entries = vec![legacy(1, 10), legacy(2, 10), legacy(3, 11), legacy(4, 10), legacy(5, 12)];
    let flags = mark_primaries(&entries);
    assert_eq!(flags, vec![true, false, true, false, true]);
}

/// The content digest is the SHA-256 of the bytes in lowercase hex.
#[test]
fn digest_known_vector() {
    let d = hash_content(&b"abc".to_vec());
    assert_eq!(d, "ba7816bf8f01cfea414140de5dae2223b00361a396177a9cb410ff61f20015ad");
    assert_eq!(
        hash_content(&Vec::new()),
        "e3b0c44298fc1c149afbf4c8996fb92427ae41e4649b934ca495991b7852b855"
    );
}

/// Tick conversion: the epoch difference itself maps to zero nanoseconds;
/// values before it or past the nanosecond range are rejected.
#[test]
fn tick_conversion() {
    assert_eq!(ticks_to_unix_nanos(WIN_TO_UNIX_EPOCH), Some(0));
    assert_eq!(ticks_to_unix_nanos(WIN_TO_UNIX_EPOCH + 10_000_000), Some(1_000_000_000));
    assert_eq!(ticks_to_unix_nanos(WIN_TO_UNIX_EPOCH - 1), None);
    assert_eq!(ticks_to_unix_nanos(u64::MAX), None);
}

/// The stored date text: UTC rendering with a space separator.
#[test]
fn date_text() {
    assert_eq!(format_date_added(0), "1970-01-01 00:00:00+00:00");
    assert_eq!(format_date_added(1_500_000_000_000_000_000), "2017-07-14 02:40:00+00:00");
}

/// Joined columns: tags by spaces, bookmarks by commas, decimals exact.
#[test]
fn joins_and_decimals() {
    assert_eq!(join_texts(&vec!["a".to_string(), "bc".to_string()], " "), "a bc");
    assert_eq!(join_texts(&Vec::new(), " "), "");
    assert_eq!(join_decs(&vec![1, -2, 30], ","), "1,-2,30");
    assert_eq!(join_decs(&Vec::new(), ","), "");
    assert_eq!(dec_to_string(0), "0");
    assert_eq!(dec_to_string(-1), "-1");
    assert_eq!(dec_to_string(i32::MAX), "2147483647");
    assert_eq!(dec_to_string(i32::MIN), "-2147483648");
}

/// The schema-version preflight accepts exactly the expected marker.
#[test]
fn version_marker() {
    assert!(check_version(&"20210912144011_AddSamplesMatchPlaybackRate".to_string()));
    assert!(!check_version(&"20200101000000_SomethingElse".to_string()));
    assert!(!check_version(&String::new()));
}

/// A legacy installation directory is recognized by its catalog file.
#[test]
fn stable_path_shape() {
    let good = vec!["Songs".to_string(), "osu!.db".to_string(), "scores.db".to_string()];
    let bad = vec!["Songs".to_string(), "collection.db".to_string()];
    assert!(check_stable_path(&good));
    assert!(!check_stable_path(&bad));
    assert!(!check_stable_path(&Vec::new()));
}
