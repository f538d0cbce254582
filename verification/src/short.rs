//! Summary-path aggregates, the flat detail row, and the tree materializer
//! that folds flat joined rows into nested catalog entries.

use vstd::prelude::*;

verus! {

/// A difficulty score of a given type, fixed-point.
pub struct Rating {
    pub rating: i64,
    pub rating_type: String,
}

/// One playable difficulty within a catalog entry, as the summary path
/// reports it (variants flattened out).
pub struct Beatmap {
    pub osu_id: Option<i32>,
    pub difficulty: String,
    pub mode: i32,
    pub status: String,
    pub main_pattern: Vec<String>,
    pub ratings: Vec<Rating>,
}

/// A catalog entry summary: descriptive fields, the true pre-truncation
/// item count, and a bounded item list.
pub struct Beatmapset {
    pub osu_id: Option<i32>,
    pub artist: String,
    pub title: String,
    pub creator: String,
    pub cover_url: Option<String>,
    pub total_beatmaps: usize,
    pub beatmaps: Vec<Beatmap>,
}

/// Mathematical view of a summary rating.
#[verifier::ext_equal]
pub struct RatingV {
    pub rating: i64,
    pub rating_type: Seq<char>,
}

impl View for Rating {
    type V = RatingV;

    open spec fn view(&self) -> RatingV {
        RatingV { rating: self.rating, rating_type: self.rating_type@ }
    }
}

/// Mathematical view of a summary item.
#[verifier::ext_equal]
pub struct BeatmapV {
    pub osu_id: Option<i32>,
    pub difficulty: Seq<char>,
    pub mode: i32,
    pub status: Seq<char>,
    pub main_pattern: Seq<Seq<char>>,
    pub ratings: Seq<RatingV>,
}

impl View for Beatmap {
    type V = BeatmapV;

    open spec fn view(&self) -> BeatmapV {
        BeatmapV {
            osu_id: self.osu_id,
            difficulty: self.difficulty@,
            mode: self.mode,
            status: self.status@,
            main_pattern: self.main_pattern.deep_view(),
            ratings: self.ratings@.map_values(|r: Rating| r@),
        }
    }
}

/// Mathematical view of a catalog entry summary.
#[verifier::ext_equal]
pub struct BeatmapsetV {
    pub osu_id: Option<i32>,
    pub artist: Seq<char>,
    pub title: Seq<char>,
    pub creator: Seq<char>,
    pub cover_url: Option<Seq<char>>,
    pub total_beatmaps: usize,
    pub beatmaps: Seq<BeatmapV>,
}

impl View for Beatmapset {
    type V = BeatmapsetV;

    open spec fn view(&self) -> BeatmapsetV {
        BeatmapsetV {
            osu_id: self.osu_id,
            artist: self.artist@,
            title: self.title@,
            creator: self.creator@,
            cover_url: match self.cover_url {
                Some(ref c) => Some(c@),
                None => None,
            },
            total_beatmaps: self.total_beatmaps,
            beatmaps: self.beatmaps@.map_values(|b: Beatmap| b@),
        }
    }
}

/// The rating columns of a detail row, present only when the outer-joined
/// rating data is non-null.
pub struct RowRating {
    pub rating_id: i64,
    pub rating: i64,
    pub rating_type: String,
}

/// One flat row of the detail query: entry fields, item fields, and
/// nullable rating fields.  Identity columns are optional because a
/// malformed projection may omit them; the materializer rejects such rows.
pub struct SearchRow {
    pub set_id: Option<i64>,
    pub set_osu_id: Option<i32>,
    pub artist: String,
    pub title: String,
    pub creator: String,
    pub cover_url: Option<String>,
    pub item_id: Option<i64>,
    pub item_osu_id: Option<i32>,
    pub difficulty: String,
    pub mode: i32,
    pub status: String,
    pub main_pattern: Vec<String>,
    pub rating: Option<RowRating>,
}

/// Mathematical view of the rating columns.
#[verifier::ext_equal]
pub struct RowRatingV {
    pub rating_id: i64,
    pub rating: i64,
    pub rating_type: Seq<char>,
}

impl View for RowRating {
    type V = RowRatingV;

    open spec fn view(&self) -> RowRatingV {
        RowRatingV {
            rating_id: self.rating_id,
            rating: self.rating,
            rating_type: self.rating_type@,
        }
    }
}

/// Mathematical view of a detail row.
#[verifier::ext_equal]
pub struct RowV {
    pub set_id: Option<i64>,
    pub set_osu_id: Option<i32>,
    pub artist: Seq<char>,
    pub title: Seq<char>,
    pub creator: Seq<char>,
    pub cover_url: Option<Seq<char>>,
    pub item_id: Option<i64>,
    pub item_osu_id: Option<i32>,
    pub difficulty: Seq<char>,
    pub mode: i32,
    pub status: Seq<char>,
    pub main_pattern: Seq<Seq<char>>,
    pub rating: Option<RowRatingV>,
}

impl View for SearchRow {
    type V = RowV;

    open spec fn view(&self) -> RowV {
        RowV {
            set_id: self.set_id,
            set_osu_id: self.set_osu_id,
            artist: self.artist@,
            title: self.title@,
            creator: self.creator@,
            cover_url: match self.cover_url {
                Some(ref c) => Some(c@),
                None => None,
            },
            item_id: self.item_id,
            item_osu_id: self.item_osu_id,
            difficulty: self.difficulty@,
            mode: self.mode,
            status: self.status@,
            main_pattern: self.main_pattern.deep_view(),
            rating: match self.rating {
                Some(ref r) => Some(r@),
                None => None,
            },
        }
    }
}

/// The sequence of row views of a row vector.
pub open spec fn rows_view(rows: Seq<SearchRow>) -> Seq<RowV> {
    rows.map_values(|r: SearchRow| r@)
}

/// A row is well-formed when both identity columns are present.
pub open spec fn row_ok(r: RowV) -> bool {
    r.set_id is Some && r.item_id is Some
}

/// All rows of a result set are well-formed.
pub open spec fn rows_ok(rows: Seq<RowV>) -> bool {
    forall|i: int| 0 <= i < rows.len() ==> row_ok(#[trigger] rows[i])
}

/// The materializer's failure: a fetched row lacks an expected identity
/// column, indicating a predicate/projection mismatch.  Non-retriable.
#[derive(Debug, Clone, Copy, PartialEq, Eq)]
pub enum MaterializeError {
    MissingIdentity,
}

} // verus!
