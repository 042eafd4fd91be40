//! The target store as the pipeline sees it: normalized metadata tables and
//! the deduplicating, reference-counted content store.
//!
//! Rows live in insertion order; a row id is its position plus one, as the
//! target database assigns them. The surrounding binary mirrors every
//! mutation of this value onto the database inside the run's single ambient
//! transaction.
use vstd::prelude::*;

verus! {

/// One difficulty row; one per entry, never deduplicated. Fractional
/// settings are raw IEEE bit patterns.
#[derive(Clone, Copy, PartialEq, Eq, Structural, Debug)]
pub struct DifficultyRow {
    pub approach_rate: u32,
    pub circle_size: u32,
    pub drain_rate: u32,
    pub overall_difficulty: u32,
    pub slider_multiplier: u64,
    pub slider_tick_rate: u64,
}

/// One content-deduplicated row of display metadata.
#[derive(Clone, Debug)]
pub struct MetadataRow {
    pub artist: String,
    pub artist_unicode: String,
    pub audio_file: String,
    pub author: String,
    pub background_file: Option<String>,
    pub preview_time: i32,
    pub source: String,
    pub tags: String,
    pub title: String,
    pub title_unicode: String,
    pub video_file: Option<String>,
    pub author_id: i64,
}

/// Spec-level image of a `MetadataRow`.
#[verifier::ext_equal]
pub struct MetadataRowV {
    pub artist: Seq<char>,
    pub artist_unicode: Seq<char>,
    pub audio_file: Seq<char>,
    pub author: Seq<char>,
    pub background_file: Option<Seq<char>>,
    pub preview_time: i32,
    pub source: Seq<char>,
    pub tags: Seq<char>,
    pub title: Seq<char>,
    pub title_unicode: Seq<char>,
    pub video_file: Option<Seq<char>>,
    pub author_id: i64,
}

/// The view of an optional text field.
pub open spec fn opt_text_view(o: Option<String>) -> Option<Seq<char>> {
    match o {
        Some(s) => Some(s@),
        None => None,
    }
}

impl View for MetadataRow {
    type V = MetadataRowV;

    open spec fn view(&self) -> MetadataRowV {
        MetadataRowV {
            artist: self.artist@,
            artist_unicode: self.artist_unicode@,
            audio_file: self.audio_file@,
            author: self.author@,
            background_file: opt_text_view(self.background_file),
            preview_time: self.preview_time,
            source: self.source@,
            tags: self.tags@,
            title: self.title@,
            title_unicode: self.title_unicode@,
            video_file: opt_text_view(self.video_file),
            author_id: self.author_id,
        }
    }
}

/// One row per entry-group; unique on the external group id.
#[derive(Clone, Debug)]
pub struct SetInfoRow {
    pub delete_pending: bool,
    pub hash: String,
    pub metadata_id: i64,
    pub online_beatmap_set_id: u32,
    pub protected: bool,
    pub status: i32,
    pub date_added: String,
}

/// Spec-level image of a `SetInfoRow`.
#[verifier::ext_equal]
pub struct SetInfoRowV {
    pub delete_pending: bool,
    pub hash: Seq<char>,
    pub metadata_id: int,
    pub online_beatmap_set_id: u32,
    pub protected: bool,
    pub status: i32,
    pub date_added: Seq<char>,
}

impl View for SetInfoRow {
    type V = SetInfoRowV;

    open spec fn view(&self) -> SetInfoRowV {
        SetInfoRowV {
            delete_pending: self.delete_pending,
            hash: self.hash@,
            metadata_id: self.metadata_id as int,
            online_beatmap_set_id: self.online_beatmap_set_id,
            protected: self.protected,
            status: self.status,
            date_added: self.date_added@,
        }
    }
}

/// An entry row's reference to its set row: one this run wrote, by its id
/// in the run's store, or one that already existed in the target, by its
/// external group id (the run writes nothing for those).
#[derive(Clone, Copy, PartialEq, Eq, Structural, Debug)]
pub enum SetRef {
    Run(i64),
    Target(u32),
}

/// Spec-level image of a `SetRef`.
pub enum SetRefV {
    Run(int),
    Target(u32),
}

impl View for SetRef {
    type V = SetRefV;

    open spec fn view(&self) -> SetRefV {
        match self {
            SetRef::Run(id) => SetRefV::Run(*id as int),
            SetRef::Target(gid) => SetRefV::Target(*gid),
        }
    }
}

/// One row per entry, referencing its set, metadata and difficulty rows.
#[derive(Clone, Debug)]
pub struct BeatmapInfoRow {
    pub audio_leadin: i32,
    pub base_difficulty_id: i64,
    pub beat_divisor: u8,
    pub beatmap_set_info_id: SetRef,
    pub countdown: bool,
    pub distance_spacing: u64,
    pub grid_size: u8,
    pub hidden: bool,
    pub letterbox_in_breaks: bool,
    pub md5_hash: String,
    pub metadata_id: i64,
    pub online_beatmap_id: u32,
    pub path: String,
    pub ruleset_id: u8,
    pub special_style: bool,
    pub stack_leniency: u64,
    pub star_difficulty: u64,
    pub stored_bookmarks: String,
    pub timeline_zoom: u64,
    pub version: String,
    pub widescreen_storyboard: bool,
    pub status: i32,
    /// Milliseconds-per-beat bit pattern of the first fixed-tempo timing
    /// point; absent when the entry has none (a BPM of zero downstream).
    pub bpm_source: Option<u64>,
    pub length: i32,
    pub epilepsy_warning: bool,
    pub countdown_offset: bool,
    pub samples_match_playback_rate: bool,
    /// Content digest of the entry's own descriptor file, back-filled by the
    /// content-store inserter; absent until then.
    pub hash: Option<String>,
}

/// Spec-level image of a `BeatmapInfoRow`.
#[verifier::ext_equal]
pub struct BeatmapInfoRowV {
    pub audio_leadin: i32,
    pub base_difficulty_id: int,
    pub beat_divisor: u8,
    pub beatmap_set_info_id: SetRefV,
    pub countdown: bool,
    pub distance_spacing: u64,
    pub grid_size: u8,
    pub hidden: bool,
    pub letterbox_in_breaks: bool,
    pub md5_hash: Seq<char>,
    pub metadata_id: int,
    pub online_beatmap_id: u32,
    pub path: Seq<char>,
    pub ruleset_id: u8,
    pub special_style: bool,
    pub stack_leniency: u64,
    pub star_difficulty: u64,
    pub stored_bookmarks: Seq<char>,
    pub timeline_zoom: u64,
    pub version: Seq<char>,
    pub widescreen_storyboard: bool,
    pub status: i32,
    pub bpm_source: Option<u64>,
    pub length: i32,
    pub epilepsy_warning: bool,
    pub countdown_offset: bool,
    pub samples_match_playback_rate: bool,
    pub hash: Option<Seq<char>>,
}

impl View for BeatmapInfoRow {
    type V = BeatmapInfoRowV;

    open spec fn view(&self) -> BeatmapInfoRowV {
        BeatmapInfoRowV {
            audio_leadin: self.audio_leadin,
            base_difficulty_id: self.base_difficulty_id as int,
            beat_divisor: self.beat_divisor,
            beatmap_set_info_id: self.beatmap_set_info_id@,
            countdown: self.countdown,
            distance_spacing: self.distance_spacing,
            grid_size: self.grid_size,
            hidden: self.hidden,
            letterbox_in_breaks: self.letterbox_in_breaks,
            md5_hash: self.md5_hash@,
            metadata_id: self.metadata_id as int,
            online_beatmap_id: self.online_beatmap_id,
            path: self.path@,
            ruleset_id: self.ruleset_id,
            special_style: self.special_style,
            stack_leniency: self.stack_leniency,
            star_difficulty: self.star_difficulty,
            stored_bookmarks: self.stored_bookmarks@,
            timeline_zoom: self.timeline_zoom,
            version: self.version@,
            widescreen_storyboard: self.widescreen_storyboard,
            status: self.status,
            bpm_source: self.bpm_source,
            length: self.length,
            epilepsy_warning: self.epilepsy_warning,
            countdown_offset: self.countdown_offset,
            samples_match_playback_rate: self.samples_match_playback_rate,
            hash: opt_text_view(self.hash),
        }
    }
}

/// One content asset: a digest and the number of mappings pointing at it.
#[derive(Clone, Debug)]
pub struct FileInfoRow {
    pub hash: String,
    pub reference_count: u64,
}

/// Spec-level image of a `FileInfoRow`.
#[verifier::ext_equal]
pub struct FileInfoRowV {
    pub hash: Seq<char>,
    pub reference_count: nat,
}

impl View for FileInfoRow {
    type V = FileInfoRowV;

    open spec fn view(&self) -> FileInfoRowV {
        FileInfoRowV { hash: self.hash@, reference_count: self.reference_count as nat }
    }
}

/// The many-to-one link between an entry-group's logical file name and the
/// content store.
#[derive(Clone, Debug)]
pub struct SetFileRow {
    pub beatmap_set_info_id: i64,
    pub file_hash: String,
    pub filename: String,
}

/// Spec-level image of a `SetFileRow`.
#[verifier::ext_equal]
pub struct SetFileRowV {
    pub beatmap_set_info_id: int,
    pub file_hash: Seq<char>,
    pub filename: Seq<char>,
}

impl View for SetFileRow {
    type V = SetFileRowV;

    open spec fn view(&self) -> SetFileRowV {
        SetFileRowV {
            beatmap_set_info_id: self.beatmap_set_info_id as int,
            file_hash: self.file_hash@,
            filename: self.filename@,
        }
    }
}

/// The state a run builds up: metadata tables, the content store, and the
/// set of digests whose on-disk link has been materialized this run.
#[derive(Debug)]
pub struct Store {
    pub difficulties: Vec<DifficultyRow>,
    pub metadata: Vec<MetadataRow>,
    pub sets: Vec<SetInfoRow>,
    pub beatmaps: Vec<BeatmapInfoRow>,
    pub files: Vec<FileInfoRow>,
    pub set_files: Vec<SetFileRow>,
    pub linked: Vec<String>,
}

/// Spec-level image of a `Store`.
#[verifier::ext_equal]
pub struct StoreV {
    pub difficulties: Seq<DifficultyRow>,
    pub metadata: Seq<MetadataRowV>,
    pub sets: Seq<SetInfoRowV>,
    pub beatmaps: Seq<BeatmapInfoRowV>,
    pub files: Seq<FileInfoRowV>,
    pub set_files: Seq<SetFileRowV>,
    pub linked: Seq<Seq<char>>,
}

impl View for Store {
    type V = StoreV;

    open spec fn view(&self) -> StoreV {
        StoreV {
            difficulties: self.difficulties@,
            metadata: Seq::new(self.metadata@.len(), |i: int| self.metadata@[i]@),
            sets: Seq::new(self.sets@.len(), |i: int| self.sets@[i]@),
            beatmaps: Seq::new(self.beatmaps@.len(), |i: int| self.beatmaps@[i]@),
            files: Seq::new(self.files@.len(), |i: int| self.files@[i]@),
            set_files: Seq::new(self.set_files@.len(), |i: int| self.set_files@[i]@),
            linked: Seq::new(self.linked@.len(), |i: int| self.linked@[i]@),
        }
    }
}

/// The position of the first metadata row equal to `m` at or after `i`, or
/// -1 when there is none.
pub open spec fn meta_match_at(rows: Seq<MetadataRowV>, m: MetadataRowV, i: int) -> int
    decreases rows.len() - i when 0 <= i <= rows.len()
{
    if i >= rows.len() {
        -1
    } else if rows[i] == m {
        i
    } else {
        meta_match_at(rows, m, i + 1)
    }
}

/// The position of the first set row with the external group id at or after
/// `i`, or -1 when there is none.
pub open spec fn set_match_at(rows: Seq<SetInfoRowV>, set_id: u32, i: int) -> int
    decreases rows.len() - i when 0 <= i <= rows.len()
{
    if i >= rows.len() {
        -1
    } else if rows[i].online_beatmap_set_id == set_id {
        i
    } else {
        set_match_at(rows, set_id, i + 1)
    }
}

/// The position of the first content asset with the digest at or after `i`,
/// or -1 when there is none.
pub open spec fn file_match_at(rows: Seq<FileInfoRowV>, digest: Seq<char>, i: int) -> int
    decreases rows.len() - i when 0 <= i <= rows.len()
{
    if i >= rows.len() {
        -1
    } else if rows[i].hash == digest {
        i
    } else {
        file_match_at(rows, digest, i + 1)
    }
}

/// How many mappings reference the digest.
pub open spec fn file_ref_count(rows: Seq<SetFileRowV>, digest: Seq<char>) -> nat
    decreases rows.len(),
{
    if rows.len() == 0 {
        0
    } else {
        file_ref_count(rows.drop_last(), digest) + if rows.last().file_hash == digest {
            1nat
        } else {
            0nat
        }
    }
}

/// A per-entry failure of the metadata inserter. The entry is dropped and
/// the run continues; nothing of the failed step is written.
#[derive(Clone, Copy, PartialEq, Eq, Structural, Debug)]
pub enum StoreError {
    /// The legacy modification timestamp precedes the unix epoch or does
    /// not fit the nanosecond scale.
    TimestampOutOfRange,
}

impl StoreError {
    /// A short description, for the caller's error reporting.
    pub fn text(&self) -> &'static str {
        "modification timestamp out of range"
    }
}

/// The store's invariants:
/// - metadata rows are pairwise distinct (lookup-or-insert is the only
///   mutation);
/// - set rows are unique on the external group id;
/// - content assets are unique on their digest;
/// - each asset's reference count equals the number of mappings referencing
///   its digest;
/// - every mapping points at an existing asset;
/// - at most one link is materialized per digest.
pub open spec fn wf(s: StoreV) -> bool {
    &&& forall|i: int, j: int|
        0 <= i < j < s.metadata.len() ==> s.metadata[i] != s.metadata[j]
    &&& forall|i: int, j: int|
        0 <= i < j < s.sets.len() ==> (#[trigger] s.sets[i]).online_beatmap_set_id != (
        #[trigger] s.sets[j]).online_beatmap_set_id
    &&& forall|i: int, j: int|
        0 <= i < j < s.files.len() ==> (#[trigger] s.files[i]).hash != (#[trigger] s.files[j]).hash
    &&& forall|i: int|
        0 <= i < s.files.len() ==> (#[trigger] s.files[i]).reference_count == file_ref_count(
            s.set_files,
            s.files[i].hash,
        )
    &&& forall|i: int|
        0 <= i < s.set_files.len() ==> file_match_at(
            s.files,
            (#[trigger] s.set_files[i]).file_hash,
            0,
        ) >= 0
    &&& forall|i: int, j: int| 0 <= i < j < s.linked.len() ==> s.linked[i] != s.linked[j]
}

impl Store {
    /// An empty store; the state at the start of a run.
    pub fn new() -> (s: Store)
        ensures
            s@ =~= empty_store(),
            wf(s@),
    {
        let s = Store {
            difficulties: Vec::new(),
            metadata: Vec::new(),
            sets: Vec::new(),
            beatmaps: Vec::new(),
            files: Vec::new(),
            set_files: Vec::new(),
            linked: Vec::new(),
        };
        proof {
            assert(s@ =~= empty_store());
        }
        s
    }
}

/// The store with no rows.
pub open spec fn empty_store() -> StoreV {
    StoreV {
        difficulties: Seq::empty(),
        metadata: Seq::empty(),
        sets: Seq::empty(),
        beatmaps: Seq::empty(),
        files: Seq::empty(),
        set_files: Seq::empty(),
        linked: Seq::empty(),
    }
}

} // verus!
