//! The records that flow through the pipeline: the legacy catalog entry, the
//! decoded descriptor, and the messages between the pipeline stages.
//!
//! Fractional settings of the legacy formats are carried as raw IEEE bit
//! patterns (`u32`/`u64`) and copied verbatim; no arithmetic is done on them
//! here.
use vstd::prelude::*;

verus! {

/// A per-mode quality rating: a mod combination (bit mask) and the rating's
/// raw bit pattern.
#[derive(Clone, Copy, PartialEq, Eq, Structural, Debug)]
pub struct RatingRec {
    pub mods: u32,
    pub rating: u64,
}

/// A timing point as the entry-row derivation reads it: whether it is
/// uninherited (fixed tempo) and the milliseconds-per-beat bit pattern.
#[derive(Clone, Copy, PartialEq, Eq, Structural, Debug)]
pub struct TimingRec {
    pub uninherited: bool,
    pub mpb: u64,
}

/// A display event of a decoded descriptor, as far as metadata reads it.
#[derive(Clone, Debug)]
pub enum EventRec {
    Background(String),
    Video(String),
    Other,
}

/// Spec-level image of an `EventRec`.
pub enum EventRecV {
    Background(Seq<char>),
    Video(Seq<char>),
    Other,
}

impl View for EventRec {
    type V = EventRecV;

    open spec fn view(&self) -> EventRecV {
        match self {
            EventRec::Background(f) => EventRecV::Background(f@),
            EventRec::Video(f) => EventRecV::Video(f@),
            EventRec::Other => EventRecV::Other,
        }
    }
}

/// One entry of the legacy catalog, as the pipeline reads it.
#[derive(Clone, Debug)]
pub struct LegacyBeatmap {
    /// External id of the entry; unique within the legacy library.
    pub beatmap_id: u32,
    /// External id of the entry-group ("set") the entry belongs to.
    pub beatmap_set_id: u32,
    /// Folder of the group, relative to the songs directory.
    pub folder_name: String,
    /// File name of the entry's descriptor within the folder.
    pub beatmap_file_name: String,
    /// Last modification time, in windows ticks (100 ns since 0001-01-01).
    pub modification_date: u64,
    /// Raw ranked-status value of the legacy catalog.
    pub ranked_status: u8,
    /// Total time in milliseconds.
    pub total_time: i32,
    /// Hash of the entry as recorded by the legacy catalog.
    pub hash: String,
    /// Quality ratings per mod combination, one list per game mode.
    pub std_star_rating: Vec<RatingRec>,
    pub std_taiko_rating: Vec<RatingRec>,
    pub std_ctb_rating: Vec<RatingRec>,
    pub std_mania_rating: Vec<RatingRec>,
}

/// Spec-level image of a `LegacyBeatmap`.
#[verifier::ext_equal]
pub struct LegacyBeatmapV {
    pub beatmap_id: u32,
    pub beatmap_set_id: u32,
    pub folder_name: Seq<char>,
    pub beatmap_file_name: Seq<char>,
    pub modification_date: u64,
    pub ranked_status: u8,
    pub total_time: i32,
    pub hash: Seq<char>,
    pub std_star_rating: Seq<RatingRec>,
    pub std_taiko_rating: Seq<RatingRec>,
    pub std_ctb_rating: Seq<RatingRec>,
    pub std_mania_rating: Seq<RatingRec>,
}

impl View for LegacyBeatmap {
    type V = LegacyBeatmapV;

    open spec fn view(&self) -> LegacyBeatmapV {
        LegacyBeatmapV {
            beatmap_id: self.beatmap_id,
            beatmap_set_id: self.beatmap_set_id,
            folder_name: self.folder_name@,
            beatmap_file_name: self.beatmap_file_name@,
            modification_date: self.modification_date,
            ranked_status: self.ranked_status,
            total_time: self.total_time,
            hash: self.hash@,
            std_star_rating: self.std_star_rating@,
            std_taiko_rating: self.std_taiko_rating@,
            std_ctb_rating: self.std_ctb_rating@,
            std_mania_rating: self.std_mania_rating@,
        }
    }
}

/// The structured result of decoding an entry's descriptor file.
#[derive(Clone, Debug)]
pub struct DecodedBeatmap {
    pub audio_filename: String,
    pub audio_leadin: i32,
    pub preview_time: i32,
    pub countdown: bool,
    /// Stack leniency, as a raw `f64` bit pattern.
    pub stack_leniency: u64,
    /// Game mode: 0 standard, 1 taiko, 2 catch, 3 mania.
    pub mode: u8,
    pub letterbox_in_breaks: bool,
    pub widescreen_storyboard: bool,
    /// Difficulty settings, as raw `f32` bit patterns.
    pub approach_rate: u32,
    pub circle_size: u32,
    pub hp_drain_rate: u32,
    pub overall_difficulty: u32,
    /// Slider settings, as raw `f64` bit patterns.
    pub slider_multiplier: u64,
    pub slider_tick_rate: u64,
    pub bookmarks: Vec<i32>,
    /// Editor settings, fractional ones as raw `f64` bit patterns.
    pub distance_spacing: u64,
    pub beat_divisor: u8,
    pub grid_size: u8,
    pub timeline_zoom: u64,
    pub title: String,
    pub title_unicode: String,
    pub artist: String,
    pub artist_unicode: String,
    pub creator: String,
    pub difficulty_name: String,
    pub source: String,
    pub tags: Vec<String>,
    pub events: Vec<EventRec>,
    pub timing_points: Vec<TimingRec>,
    pub epilepsy_warning: bool,
}

/// Spec-level image of a `DecodedBeatmap`.
#[verifier::ext_equal]
pub struct DecodedBeatmapV {
    pub audio_filename: Seq<char>,
    pub audio_leadin: i32,
    pub preview_time: i32,
    pub countdown: bool,
    pub stack_leniency: u64,
    pub mode: u8,
    pub letterbox_in_breaks: bool,
    pub widescreen_storyboard: bool,
    pub approach_rate: u32,
    pub circle_size: u32,
    pub hp_drain_rate: u32,
    pub overall_difficulty: u32,
    pub slider_multiplier: u64,
    pub slider_tick_rate: u64,
    pub bookmarks: Seq<i32>,
    pub distance_spacing: u64,
    pub beat_divisor: u8,
    pub grid_size: u8,
    pub timeline_zoom: u64,
    pub title: Seq<char>,
    pub title_unicode: Seq<char>,
    pub artist: Seq<char>,
    pub artist_unicode: Seq<char>,
    pub creator: Seq<char>,
    pub difficulty_name: Seq<char>,
    pub source: Seq<char>,
    pub tags: Seq<Seq<char>>,
    pub events: Seq<EventRecV>,
    pub timing_points: Seq<TimingRec>,
    pub epilepsy_warning: bool,
}

impl View for DecodedBeatmap {
    type V = DecodedBeatmapV;

    open spec fn view(&self) -> DecodedBeatmapV {
        DecodedBeatmapV {
            audio_filename: self.audio_filename@,
            audio_leadin: self.audio_leadin,
            preview_time: self.preview_time,
            countdown: self.countdown,
            stack_leniency: self.stack_leniency,
            mode: self.mode,
            letterbox_in_breaks: self.letterbox_in_breaks,
            widescreen_storyboard: self.widescreen_storyboard,
            approach_rate: self.approach_rate,
            circle_size: self.circle_size,
            hp_drain_rate: self.hp_drain_rate,
            overall_difficulty: self.overall_difficulty,
            slider_multiplier: self.slider_multiplier,
            slider_tick_rate: self.slider_tick_rate,
            bookmarks: self.bookmarks@,
            distance_spacing: self.distance_spacing,
            beat_divisor: self.beat_divisor,
            grid_size: self.grid_size,
            timeline_zoom: self.timeline_zoom,
            title: self.title@,
            title_unicode: self.title_unicode@,
            artist: self.artist@,
            artist_unicode: self.artist_unicode@,
            creator: self.creator@,
            difficulty_name: self.difficulty_name@,
            source: self.source@,
            tags: Seq::new(self.tags@.len(), |i: int| self.tags@[i]@),
            events: Seq::new(self.events@.len(), |i: int| self.events@[i]@),
            timing_points: self.timing_points@,
            epilepsy_warning: self.epilepsy_warning,
        }
    }
}

/// A decoded entry travelling from the processing pool to the metadata
/// inserter, tagged with whether it is the first entry seen for its group.
#[derive(Clone, Debug)]
pub struct BeatmapProcessed {
    pub db_beatmap: LegacyBeatmap,
    pub beatmap: DecodedBeatmap,
    pub is_main: bool,
}

/// Spec-level image of a `BeatmapProcessed`.
#[verifier::ext_equal]
pub struct BeatmapProcessedV {
    pub db_beatmap: LegacyBeatmapV,
    pub beatmap: DecodedBeatmapV,
    pub is_main: bool,
}

impl View for BeatmapProcessed {
    type V = BeatmapProcessedV;

    open spec fn view(&self) -> BeatmapProcessedV {
        BeatmapProcessedV {
            db_beatmap: self.db_beatmap@,
            beatmap: self.beatmap@,
            is_main: self.is_main,
        }
    }
}

/// One file discovered under an entry-group's folder: its path relative to
/// the group folder and its absolute path.
#[derive(Clone, Debug)]
pub struct AssetFile {
    pub stripped_path: String,
    pub full_path: String,
}

/// Spec-level image of an `AssetFile`.
#[verifier::ext_equal]
pub struct AssetFileV {
    pub stripped_path: Seq<char>,
    pub full_path: Seq<char>,
}

impl View for AssetFile {
    type V = AssetFileV;

    open spec fn view(&self) -> AssetFileV {
        AssetFileV { stripped_path: self.stripped_path@, full_path: self.full_path@ }
    }
}

/// A request to digest one asset file, emitted by the metadata inserter for
/// the primary entry of a group.
#[derive(Clone, Debug)]
pub struct HashRequest {
    pub beatmap_id: u32,
    pub beatmapset_id: u32,
    pub folder_name: String,
    pub file_name: String,
    pub beatmapset_info_id: i64,
    pub stripped_path: String,
    pub full_path: String,
}

/// Spec-level image of a `HashRequest`.
#[verifier::ext_equal]
pub struct HashRequestV {
    pub beatmap_id: u32,
    pub beatmapset_id: u32,
    pub folder_name: Seq<char>,
    pub file_name: Seq<char>,
    pub beatmapset_info_id: int,
    pub stripped_path: Seq<char>,
    pub full_path: Seq<char>,
}

impl View for HashRequest {
    type V = HashRequestV;

    open spec fn view(&self) -> HashRequestV {
        HashRequestV {
            beatmap_id: self.beatmap_id,
            beatmapset_id: self.beatmapset_id,
            folder_name: self.folder_name@,
            file_name: self.file_name@,
            beatmapset_info_id: self.beatmapset_info_id as int,
            stripped_path: self.stripped_path@,
            full_path: self.full_path@,
        }
    }
}

/// A digested asset file: the request it answers and the content digest,
/// as a lowercase hexadecimal string.
#[derive(Clone, Debug)]
pub struct HashProcessed {
    pub request: HashRequest,
    pub hash: String,
}

/// Spec-level image of a `HashProcessed`.
#[verifier::ext_equal]
pub struct HashProcessedV {
    pub request: HashRequestV,
    pub hash: Seq<char>,
}

impl View for HashProcessed {
    type V = HashProcessedV;

    open spec fn view(&self) -> HashProcessedV {
        HashProcessedV { request: self.request@, hash: self.hash@ }
    }
}

/// One unit of work for the metadata inserter: a decoded entry, the author
/// id resolved by the external read-only lookup (absent when unknown), and
/// the files found under the entry's folder (consulted only for a primary
/// entry whose rows were written).
#[derive(Clone, Debug)]
pub struct InsertItem {
    pub beatmap: BeatmapProcessed,
    pub author_id: Option<i64>,
    pub files: Vec<AssetFile>,
}

/// Spec-level image of an `InsertItem`.
#[verifier::ext_equal]
pub struct InsertItemV {
    pub beatmap: BeatmapProcessedV,
    pub author_id: Option<i64>,
    pub files: Seq<AssetFileV>,
}

impl View for InsertItem {
    type V = InsertItemV;

    open spec fn view(&self) -> InsertItemV {
        InsertItemV {
            beatmap: self.beatmap@,
            author_id: self.author_id,
            files: Seq::new(self.files@.len(), |i: int| self.files@[i]@),
        }
    }
}

/// An on-disk link to materialize: the two nested digest-derived directory
/// names, the digest itself (the link's file name), and the absolute path of
/// the original asset the link must resolve to.
#[derive(Clone, Debug)]
pub struct LinkRequest {
    pub dir1: String,
    pub dir2: String,
    pub digest: String,
    pub source_path: String,
}

/// Spec-level image of a `LinkRequest`.
#[verifier::ext_equal]
pub struct LinkRequestV {
    pub dir1: Seq<char>,
    pub dir2: Seq<char>,
    pub digest: Seq<char>,
    pub source_path: Seq<char>,
}

impl View for LinkRequest {
    type V = LinkRequestV;

    open spec fn view(&self) -> LinkRequestV {
        LinkRequestV {
            dir1: self.dir1@,
            dir2: self.dir2@,
            digest: self.digest@,
            source_path: self.source_path@,
        }
    }
}

} // verus!
