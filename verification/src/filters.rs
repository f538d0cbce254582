//! The filter model: optional search facets and pagination parameters.
//!
//! Continuous bounds (ratings, tempo, overall difficulty, skillset scores)
//! are fixed-point integers; every bound is a closed inequality, and an
//! absent bound means "no constraint".

use vstd::prelude::*;

verus! {

/// Bounds on a rating's score together with an exact match on its type tag.
#[derive(Clone)]
pub struct RatingFilter {
    pub rating_type: Option<String>,
    pub rating_min: Option<i64>,
    pub rating_max: Option<i64>,
}

/// A pattern-membership test plus bounds on the matching skillset score.
#[derive(Clone)]
pub struct SkillsetFilter {
    pub pattern_type: Option<String>,
    pub pattern_min: Option<i64>,
    pub pattern_max: Option<i64>,
}

/// Free-text search across artist/title/creator, plus duration and tempo bounds.
#[derive(Clone)]
pub struct BeatmapFilter {
    pub search_term: Option<String>,
    pub total_time_min: Option<i32>,
    pub total_time_max: Option<i32>,
    pub bpm_min: Option<i64>,
    pub bpm_max: Option<i64>,
}

/// Bounds on overall difficulty and an exact match on status.
#[derive(Clone)]
pub struct BeatmapTechnicalFilter {
    pub od_min: Option<i64>,
    pub od_max: Option<i64>,
    pub status: Option<String>,
}

/// Bounds on a variant's drain time, in seconds.
#[derive(Clone, Copy)]
pub struct RatesFilter {
    pub drain_time_min: Option<i32>,
    pub drain_time_max: Option<i32>,
}

/// The full filter model: independently optional facet groups and pagination.
#[derive(Clone)]
pub struct Filters {
    pub rating: Option<RatingFilter>,
    pub skillset: Option<SkillsetFilter>,
    pub beatmap: Option<BeatmapFilter>,
    pub beatmap_technical: Option<BeatmapTechnicalFilter>,
    pub rates: Option<RatesFilter>,
    pub page: Option<usize>,
    pub per_page: Option<usize>,
}

/// Mathematical view of a rating facet.
pub struct RatingFilterV {
    pub rating_type: Option<Seq<char>>,
    pub rating_min: Option<i64>,
    pub rating_max: Option<i64>,
}

impl View for RatingFilter {
    type V = RatingFilterV;

    open spec fn view(&self) -> RatingFilterV {
        RatingFilterV {
            rating_type: match self.rating_type {
                Some(t) => Some(t@),
                None => None,
            },
            rating_min: self.rating_min,
            rating_max: self.rating_max,
        }
    }
}

/// Mathematical view of a skillset facet.
pub struct SkillsetFilterV {
    pub pattern_type: Option<Seq<char>>,
    pub pattern_min: Option<i64>,
    pub pattern_max: Option<i64>,
}

impl View for SkillsetFilter {
    type V = SkillsetFilterV;

    open spec fn view(&self) -> SkillsetFilterV {
        SkillsetFilterV {
            pattern_type: match self.pattern_type {
                Some(t) => Some(t@),
                None => None,
            },
            pattern_min: self.pattern_min,
            pattern_max: self.pattern_max,
        }
    }
}

/// Mathematical view of a free-text/duration/tempo facet.
pub struct BeatmapFilterV {
    pub search_term: Option<Seq<char>>,
    pub total_time_min: Option<i32>,
    pub total_time_max: Option<i32>,
    pub bpm_min: Option<i64>,
    pub bpm_max: Option<i64>,
}

impl View for BeatmapFilter {
    type V = BeatmapFilterV;

    open spec fn view(&self) -> BeatmapFilterV {
        BeatmapFilterV {
            search_term: match self.search_term {
                Some(t) => Some(t@),
                None => None,
            },
            total_time_min: self.total_time_min,
            total_time_max: self.total_time_max,
            bpm_min: self.bpm_min,
            bpm_max: self.bpm_max,
        }
    }
}

/// Mathematical view of a technical facet.
pub struct BeatmapTechnicalFilterV {
    pub od_min: Option<i64>,
    pub od_max: Option<i64>,
    pub status: Option<Seq<char>>,
}

impl View for BeatmapTechnicalFilter {
    type V = BeatmapTechnicalFilterV;

    open spec fn view(&self) -> BeatmapTechnicalFilterV {
        BeatmapTechnicalFilterV {
            od_min: self.od_min,
            od_max: self.od_max,
            status: match self.status {
                Some(t) => Some(t@),
                None => None,
            },
        }
    }
}

impl View for RatesFilter {
    type V = RatesFilter;

    open spec fn view(&self) -> RatesFilter {
        *self
    }
}

/// Mathematical view of the whole filter model.
pub struct FiltersV {
    pub rating: Option<RatingFilterV>,
    pub skillset: Option<SkillsetFilterV>,
    pub beatmap: Option<BeatmapFilterV>,
    pub beatmap_technical: Option<BeatmapTechnicalFilterV>,
    pub rates: Option<RatesFilter>,
    pub page: Option<usize>,
    pub per_page: Option<usize>,
}

impl View for Filters {
    type V = FiltersV;

    open spec fn view(&self) -> FiltersV {
        FiltersV {
            rating: match self.rating {
                Some(f) => Some(f@),
                None => None,
            },
            skillset: match self.skillset {
                Some(f) => Some(f@),
                None => None,
            },
            beatmap: match self.beatmap {
                Some(f) => Some(f@),
                None => None,
            },
            beatmap_technical: match self.beatmap_technical {
                Some(f) => Some(f@),
                None => None,
            },
            rates: self.rates,
            page: self.page,
            per_page: self.per_page,
        }
    }
}

impl FiltersV {
    /// The effective zero-based page: absent means page 0.
    pub open spec fn page_or_default(self) -> usize {
        match self.page {
            Some(p) => p,
            None => 0,
        }
    }

    /// The effective page size: absent means 9 entries per page.
    pub open spec fn per_page_or_default(self) -> usize {
        match self.per_page {
            Some(p) => p,
            None => 9,
        }
    }
}

/// The fixed enumerated set of skillset pattern names that carry a
/// mode-specific numeric column; any other pattern name is inert for
/// min/max bounds (membership-only).
pub open spec fn known_pattern(p: Seq<char>) -> bool {
    ||| p == "stream"@
    ||| p == "jumpstream"@
    ||| p == "handstream"@
    ||| p == "stamina"@
    ||| p == "jackspeed"@
    ||| p == "chordjack"@
    ||| p == "technical"@
}

} // verus!
