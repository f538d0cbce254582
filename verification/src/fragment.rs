//! The predicate builder: turns the filter model into a parameterized
//! query fragment — a sequence of fixed SQL text pieces and bound
//! parameters, never a value interpolated into the text — and the four
//! query shapes (count, candidate ids, random candidate ids, detail) that
//! share it.

use vstd::prelude::*;
use crate::filters::{
    BeatmapFilterV, BeatmapTechnicalFilterV, Filters, FiltersV, RatesFilter, RatingFilterV,
    SkillsetFilterV, known_pattern,
};
use crate::store::{is_known_pattern, needs_rating_join, needs_skill_join};
use crate::text::str_eq;

verus! {

/// A bound parameter: the value travels beside the text, typed, and is
/// never rendered into it.
pub enum Param {
    /// An 8-byte integer (pagination limits and offsets).
    Int(i64),
    /// A 4-byte integer (durations in seconds).
    Small(i32),
    /// A fixed-point numeric (ratings, tempo, difficulty, skillset bounds).
    Num(i64),
    /// A text value.
    Text(String),
    /// A JSON value, as its rendered text.
    Json(String),
    /// An 8-byte integer array (candidate-id membership).
    IdList(Vec<i64>),
}

/// One piece of a query: fixed SQL text, or a bound parameter.
pub enum Piece {
    Sql(String),
    Bind(Param),
}

/// A query under construction.
pub struct QueryFragment {
    pub pieces: Vec<Piece>,
}

/// Mathematical view of a bound parameter.
#[verifier::ext_equal]
pub enum ParamV {
    Int(i64),
    Small(i32),
    Num(i64),
    Text(Seq<char>),
    Json(Seq<char>),
    IdList(Seq<i64>),
}

impl View for Param {
    type V = ParamV;

    open spec fn view(&self) -> ParamV {
        match self {
            Param::Int(v) => ParamV::Int(*v),
            Param::Small(v) => ParamV::Small(*v),
            Param::Num(v) => ParamV::Num(*v),
            Param::Text(t) => ParamV::Text(t@),
            Param::Json(t) => ParamV::Json(t@),
            Param::IdList(v) => ParamV::IdList(v@),
        }
    }
}

/// Mathematical view of a query piece.
#[verifier::ext_equal]
pub enum PieceV {
    Sql(Seq<char>),
    Bind(ParamV),
}

impl View for Piece {
    type V = PieceV;

    open spec fn view(&self) -> PieceV {
        match self {
            Piece::Sql(t) => PieceV::Sql(t@),
            Piece::Bind(p) => PieceV::Bind(p@),
        }
    }
}

impl View for QueryFragment {
    type V = Seq<PieceV>;

    open spec fn view(&self) -> Seq<PieceV> {
        self.pieces@.map_values(|p: Piece| p@)
    }
}

impl QueryFragment {
    /// An empty fragment.
    pub fn new() -> (r: QueryFragment)
        ensures
            r@ == Seq::<PieceV>::empty(),
    {
        let r = QueryFragment { pieces: Vec::new() };
        proof {
            assert(r@ =~= Seq::<PieceV>::empty());
        }
        r
    }

    /// Append fixed SQL text.
    pub fn push_sql(&mut self, s: &str)
        ensures
            final(self)@ == old(self)@.push(PieceV::Sql(s@)),
    {
        let ghost pre = self@;
        self.pieces.push(Piece::Sql(s.to_owned()));
        proof {
            assert(self@ =~= pre.push(PieceV::Sql(s@)));
        }
    }

    /// Append a bound parameter.
    pub fn push_bind(&mut self, p: Param)
        ensures
            final(self)@ == old(self)@.push(PieceV::Bind(p@)),
    {
        let ghost pre = self@;
        let ghost pv = p@;
        self.pieces.push(Piece::Bind(p));
        proof {
            assert(self@ =~= pre.push(PieceV::Bind(pv)));
        }
    }
}

/// The rendered JSON text of the one-element array holding a pattern name.
pub uninterp spec fn json_singleton_array(s: Seq<char>) -> Seq<char>;

/// Relies on serde_json's `Display for Value`: the compact JSON text of
/// the one-element array holding the given string, a function of the
/// string alone.
#[verifier::external_body]
fn json_pattern_param(p: &str) -> (r: String)
    ensures
        r@ == json_singleton_array(p@),
{
    serde_json::Value::Array(vec![serde_json::Value::String(p.to_string())]).to_string()
}

/// A fixed SQL text piece.
pub open spec fn sqlp(s: Seq<char>) -> PieceV {
    PieceV::Sql(s)
}

/// The pieces of the rating facet.
pub open spec fn rating_pieces(r: Option<RatingFilterV>) -> Seq<PieceV> {
    match r {
        None => seq![],
        Some(r) => (match r.rating_type {
            Some(t) => seq![sqlp(" AND br.rating_type = "@), PieceV::Bind(ParamV::Text(t))],
            None => seq![],
        }) + (match r.rating_min {
            Some(m) => seq![sqlp(" AND br.rating >= "@), PieceV::Bind(ParamV::Num(m))],
            None => seq![],
        }) + (match r.rating_max {
            Some(m) => seq![sqlp(" AND br.rating <= "@), PieceV::Bind(ParamV::Num(m))],
            None => seq![],
        }),
    }
}

/// The pattern a search term is matched under: anywhere in the column.
pub open spec fn like_pattern(t: Seq<char>) -> Seq<char> {
    "%"@ + t + "%"@
}

/// The pieces of the free-text/duration/tempo facet.
pub open spec fn beatmap_pieces(b: Option<BeatmapFilterV>) -> Seq<PieceV> {
    match b {
        None => seq![],
        Some(b) => (match b.search_term {
            Some(t) => seq![
                sqlp(" AND (bs.artist ILIKE "@),
                PieceV::Bind(ParamV::Text(like_pattern(t))),
                sqlp(" OR bs.title ILIKE "@),
                PieceV::Bind(ParamV::Text(like_pattern(t))),
                sqlp(" OR bs.creator ILIKE "@),
                PieceV::Bind(ParamV::Text(like_pattern(t))),
                sqlp(")"@),
            ],
            None => seq![],
        }) + (match b.total_time_min {
            Some(m) => seq![sqlp(" AND r.total_time >= "@), PieceV::Bind(ParamV::Small(m))],
            None => seq![],
        }) + (match b.total_time_max {
            Some(m) => seq![sqlp(" AND r.total_time <= "@), PieceV::Bind(ParamV::Small(m))],
            None => seq![],
        }) + (match b.bpm_min {
            Some(m) => seq![sqlp(" AND r.bpm >= "@), PieceV::Bind(ParamV::Num(m))],
            None => seq![],
        }) + (match b.bpm_max {
            Some(m) => seq![sqlp(" AND r.bpm <= "@), PieceV::Bind(ParamV::Num(m))],
            None => seq![],
        }),
    }
}

/// The pieces of the technical facet.
pub open spec fn technical_pieces(t: Option<BeatmapTechnicalFilterV>) -> Seq<PieceV> {
    match t {
        None => seq![],
        Some(t) => (match t.od_min {
            Some(m) => seq![sqlp(" AND b.od >= "@), PieceV::Bind(ParamV::Num(m))],
            None => seq![],
        }) + (match t.od_max {
            Some(m) => seq![sqlp(" AND b.od <= "@), PieceV::Bind(ParamV::Num(m))],
            None => seq![],
        }) + (match t.status {
            Some(st) => seq![sqlp(" AND b.status = "@), PieceV::Bind(ParamV::Text(st))],
            None => seq![],
        }),
    }
}

/// The column clause a known pattern's lower bound compares against.
pub open spec fn skill_min_sql(p: Seq<char>) -> Seq<char> {
    if p == "stream"@ {
        " AND bmr.stream >= "@
    } else if p == "jumpstream"@ {
        " AND bmr.jumpstream >= "@
    } else if p == "handstream"@ {
        " AND bmr.handstream >= "@
    } else if p == "stamina"@ {
        " AND bmr.stamina >= "@
    } else if p == "jackspeed"@ {
        " AND bmr.jackspeed >= "@
    } else if p == "chordjack"@ {
        " AND bmr.chordjack >= "@
    } else {
        " AND bmr.technical >= "@
    }
}

/// The column clause a known pattern's upper bound compares against.
pub open spec fn skill_max_sql(p: Seq<char>) -> Seq<char> {
    if p == "stream"@ {
        " AND bmr.stream <= "@
    } else if p == "jumpstream"@ {
        " AND bmr.jumpstream <= "@
    } else if p == "handstream"@ {
        " AND bmr.handstream <= "@
    } else if p == "stamina"@ {
        " AND bmr.stamina <= "@
    } else if p == "jackspeed"@ {
        " AND bmr.jackspeed <= "@
    } else if p == "chordjack"@ {
        " AND bmr.chordjack <= "@
    } else {
        " AND bmr.technical <= "@
    }
}

/// The pieces of the skillset facet: the membership test against the
/// item's pattern tag set, then — only for a known pattern name — the
/// bounds against its mode-specific column.  Unknown names keep the
/// membership test and apply no bound.
pub open spec fn skillset_pieces(s: Option<SkillsetFilterV>) -> Seq<PieceV> {
    match s {
        None => seq![],
        Some(s) => match s.pattern_type {
            None => seq![],
            Some(p) => seq![
                sqlp(" AND b.main_pattern @> "@),
                PieceV::Bind(ParamV::Json(json_singleton_array(p))),
            ] + (match s.pattern_min {
                Some(m) => if known_pattern(p) {
                    seq![sqlp(skill_min_sql(p)), PieceV::Bind(ParamV::Num(m))]
                } else {
                    seq![]
                },
                None => seq![],
            }) + (match s.pattern_max {
                Some(m) => if known_pattern(p) {
                    seq![sqlp(skill_max_sql(p)), PieceV::Bind(ParamV::Num(m))]
                } else {
                    seq![]
                },
                None => seq![],
            }),
        },
    }
}

/// The pieces of the drain-time facet.
pub open spec fn rates_pieces(r: Option<RatesFilter>) -> Seq<PieceV> {
    match r {
        None => seq![],
        Some(r) => (match r.drain_time_min {
            Some(m) => seq![sqlp(" AND r.drain_time >= "@), PieceV::Bind(ParamV::Small(m))],
            None => seq![],
        }) + (match r.drain_time_max {
            Some(m) => seq![sqlp(" AND r.drain_time <= "@), PieceV::Bind(ParamV::Small(m))],
            None => seq![],
        }),
    }
}

/// Every facet's pieces, in one fixed order: the same conjunction for the
/// count, candidate-id, and detail queries.
pub open spec fn filter_pieces(f: FiltersV) -> Seq<PieceV> {
    rating_pieces(f.rating) + beatmap_pieces(f.beatmap) + technical_pieces(f.beatmap_technical)
        + skillset_pieces(f.skillset) + rates_pieces(f.rates)
}

/// Append the rating facet's predicates.
fn apply_rating(builder: &mut QueryFragment, rating: &Option<crate::filters::RatingFilter>)
    ensures
        final(builder)@ == old(builder)@ + rating_pieces(match *rating {
            Some(ref r) => Some(r@),
            None => None,
        }),
{
    let ghost base = builder@;
    match rating {
        Some(r) => {
            match &r.rating_type {
                Some(t) => {
                    builder.push_sql(" AND br.rating_type = ");
                    builder.push_bind(Param::Text(t.clone()));
                },
                None => {},
            }
            match r.rating_min {
                Some(m) => {
                    builder.push_sql(" AND br.rating >= ");
                    builder.push_bind(Param::Num(m));
                },
                None => {},
            }
            match r.rating_max {
                Some(m) => {
                    builder.push_sql(" AND br.rating <= ");
                    builder.push_bind(Param::Num(m));
                },
                None => {},
            }
        },
        None => {},
    }
    proof {
        assert(builder@ =~= base + rating_pieces(match *rating {
            Some(ref r) => Some(r@),
            None => None,
        }));
    }
}

/// Append the free-text/duration/tempo facet's predicates.
fn apply_beatmap(builder: &mut QueryFragment, beatmap: &Option<crate::filters::BeatmapFilter>)
    ensures
        final(builder)@ == old(builder)@ + beatmap_pieces(match *beatmap {
            Some(ref b) => Some(b@),
            None => None,
        }),
{
    let ghost base = builder@;
    match beatmap {
        Some(b) => {
            match &b.search_term {
                Some(t) => {
                    builder.push_sql(" AND (bs.artist ILIKE ");
                    builder.push_bind(Param::Text(like_param(t.as_str())));
                    builder.push_sql(" OR bs.title ILIKE ");
                    builder.push_bind(Param::Text(like_param(t.as_str())));
                    builder.push_sql(" OR bs.creator ILIKE ");
                    builder.push_bind(Param::Text(like_param(t.as_str())));
                    builder.push_sql(")");
                },
                None => {},
            }
            match b.total_time_min {
                Some(m) => {
                    builder.push_sql(" AND r.total_time >= ");
                    builder.push_bind(Param::Small(m));
                },
                None => {},
            }
            match b.total_time_max {
                Some(m) => {
                    builder.push_sql(" AND r.total_time <= ");
                    builder.push_bind(Param::Small(m));
                },
                None => {},
            }
            match b.bpm_min {
                Some(m) => {
                    builder.push_sql(" AND r.bpm >= ");
                    builder.push_bind(Param::Num(m));
                },
                None => {},
            }
            match b.bpm_max {
                Some(m) => {
                    builder.push_sql(" AND r.bpm <= ");
                    builder.push_bind(Param::Num(m));
                },
                None => {},
            }
        },
        None => {},
    }
    proof {
        assert(builder@ =~= base + beatmap_pieces(match *beatmap {
            Some(ref b) => Some(b@),
            None => None,
        }));
    }
}

/// Append the technical facet's predicates.
fn apply_technical(
    builder: &mut QueryFragment,
    technical: &Option<crate::filters::BeatmapTechnicalFilter>,
)
    ensures
        final(builder)@ == old(builder)@ + technical_pieces(match *technical {
            Some(ref t) => Some(t@),
            None => None,
        }),
{
    let ghost base = builder@;
    match technical {
        Some(t) => {
            match t.od_min {
                Some(m) => {
                    builder.push_sql(" AND b.od >= ");
                    builder.push_bind(Param::Num(m));
                },
                None => {},
            }
            match t.od_max {
                Some(m) => {
                    builder.push_sql(" AND b.od <= ");
                    builder.push_bind(Param::Num(m));
                },
                None => {},
            }
            match &t.status {
                Some(st) => {
                    builder.push_sql(" AND b.status = ");
                    builder.push_bind(Param::Text(st.clone()));
                },
                None => {},
            }
        },
        None => {},
    }
    proof {
        assert(builder@ =~= base + technical_pieces(match *technical {
            Some(ref t) => Some(t@),
            None => None,
        }));
    }
}

/// Append the skillset facet's predicates.
fn apply_skillset(builder: &mut QueryFragment, skillset: &Option<crate::filters::SkillsetFilter>)
    ensures
        final(builder)@ == old(builder)@ + skillset_pieces(match *skillset {
            Some(ref s) => Some(s@),
            None => None,
        }),
{
    let ghost base = builder@;
    match skillset {
        Some(s) => {
            match &s.pattern_type {
                Some(p) => {
                    builder.push_sql(" AND b.main_pattern @> ");
                    builder.push_bind(Param::Json(json_pattern_param(p.as_str())));
                    let known = is_known_pattern(p.as_str());
                    match s.pattern_min {
                        Some(m) => {
                            if known {
                                push_skill_min(builder, p.as_str());
                                builder.push_bind(Param::Num(m));
                            }
                        },
                        None => {},
                    }
                    match s.pattern_max {
                        Some(m) => {
                            if known {
                                push_skill_max(builder, p.as_str());
                                builder.push_bind(Param::Num(m));
                            }
                        },
                        None => {},
                    }
                },
                None => {},
            }
        },
        None => {},
    }
    proof {
        assert(builder@ =~= base + skillset_pieces(match *skillset {
            Some(ref s) => Some(s@),
            None => None,
        }));
    }
}

/// Append the drain-time facet's predicates.
fn apply_rates(builder: &mut QueryFragment, rates: &Option<RatesFilter>)
    ensures
        final(builder)@ == old(builder)@ + rates_pieces(*rates),
{
    let ghost base = builder@;
    match rates {
        Some(r) => {
            match r.drain_time_min {
                Some(m) => {
                    builder.push_sql(" AND r.drain_time >= ");
                    builder.push_bind(Param::Small(m));
                },
                None => {},
            }
            match r.drain_time_max {
                Some(m) => {
                    builder.push_sql(" AND r.drain_time <= ");
                    builder.push_bind(Param::Small(m));
                },
                None => {},
            }
        },
        None => {},
    }
    proof {
        assert(builder@ =~= base + rates_pieces(*rates));
    }
}

/// Append the bound predicates of every present facet to the query under
/// construction — the single conjunction builder shared by every query
/// shape.  Values travel only as bound parameters.
pub fn apply_filters(builder: &mut QueryFragment, filters: &Filters)
    ensures
        final(builder)@ == old(builder)@ + filter_pieces(filters@),
{
    let ghost base = builder@;
    apply_rating(builder, &filters.rating);
    proof {
        assert(builder@ == base + rating_pieces(filters@.rating));
    }
    apply_beatmap(builder, &filters.beatmap);
    proof {
        assert(builder@ == base + rating_pieces(filters@.rating) + beatmap_pieces(
            filters@.beatmap,
        ));
    }
    apply_technical(builder, &filters.beatmap_technical);
    apply_skillset(builder, &filters.skillset);
    apply_rates(builder, &filters.rates);
    proof {
        lemma_concat_assoc5(
            base,
            rating_pieces(filters@.rating),
            beatmap_pieces(filters@.beatmap),
            technical_pieces(filters@.beatmap_technical),
            skillset_pieces(filters@.skillset),
            rates_pieces(filters@.rates),
        );
    }
}

/// Concatenation is associative: appending five runs one by one equals
/// appending their concatenation.
proof fn lemma_concat_assoc5(
    base: Seq<PieceV>,
    a: Seq<PieceV>,
    b: Seq<PieceV>,
    c: Seq<PieceV>,
    d: Seq<PieceV>,
    e: Seq<PieceV>,
)
    ensures
        base + a + b + c + d + e == base + (a + b + c + d + e),
{
    assert(base + a + b + c + d + e =~= base + (a + b + c + d + e));
}

/// The anywhere-match pattern for a search term.
fn like_param(t: &str) -> (r: String)
    ensures
        r@ == like_pattern(t@),
{
    let mut r = String::from_str("%");
    r.append(t);
    r.append("%");
    r
}

/// Append the lower-bound clause of a known pattern's column.
fn push_skill_min(builder: &mut QueryFragment, p: &str)
    requires
        known_pattern(p@),
    ensures
        final(builder)@ == old(builder)@.push(sqlp(skill_min_sql(p@))),
{
    if str_eq(p, "stream") {
        builder.push_sql(" AND bmr.stream >= ");
    } else if str_eq(p, "jumpstream") {
        builder.push_sql(" AND bmr.jumpstream >= ");
    } else if str_eq(p, "handstream") {
        builder.push_sql(" AND bmr.handstream >= ");
    } else if str_eq(p, "stamina") {
        builder.push_sql(" AND bmr.stamina >= ");
    } else if str_eq(p, "jackspeed") {
        builder.push_sql(" AND bmr.jackspeed >= ");
    } else if str_eq(p, "chordjack") {
        builder.push_sql(" AND bmr.chordjack >= ");
    } else {
        builder.push_sql(" AND bmr.technical >= ");
    }
}

/// Append the upper-bound clause of a known pattern's column.
fn push_skill_max(builder: &mut QueryFragment, p: &str)
    requires
        known_pattern(p@),
    ensures
        final(builder)@ == old(builder)@.push(sqlp(skill_max_sql(p@))),
{
    if str_eq(p, "stream") {
        builder.push_sql(" AND bmr.stream <= ");
    } else if str_eq(p, "jumpstream") {
        builder.push_sql(" AND bmr.jumpstream <= ");
    } else if str_eq(p, "handstream") {
        builder.push_sql(" AND bmr.handstream <= ");
    } else if str_eq(p, "stamina") {
        builder.push_sql(" AND bmr.stamina <= ");
    } else if str_eq(p, "jackspeed") {
        builder.push_sql(" AND bmr.jackspeed <= ");
    } else if str_eq(p, "chordjack") {
        builder.push_sql(" AND bmr.chordjack <= ");
    } else {
        builder.push_sql(" AND bmr.technical <= ");
    }
}

/// The shared join block: the base joins, the rating join when a rating or
/// skillset facet needs it, and the outer mode-specific join when a
/// skillset facet needs that.
pub open spec fn join_pieces(f: FiltersV) -> Seq<PieceV> {
    (if needs_rating_join(f) {
        seq![sqlp(" INNER JOIN beatmap_rating br ON r.id = br.rates_id"@)]
    } else {
        seq![]
    }) + (if needs_skill_join(f) {
        seq![sqlp(" LEFT JOIN beatmap_mania_rating bmr ON br.id = bmr.rating_id"@)]
    } else {
        seq![]
    })
}

/// Append the join block.
fn push_joins(builder: &mut QueryFragment, filters: &Filters)
    ensures
        final(builder)@ == old(builder)@ + join_pieces(filters@),
{
    let ghost base = builder@;
    if crate::store::needs_rating_join_exec(filters) {
        builder.push_sql(" INNER JOIN beatmap_rating br ON r.id = br.rates_id");
    }
    let skill = match &filters.skillset {
        Some(s) => s.pattern_type.is_some(),
        None => false,
    };
    if skill {
        builder.push_sql(" LEFT JOIN beatmap_mania_rating bmr ON br.id = bmr.rating_id");
    }
    proof {
        assert(builder@ =~= base + join_pieces(filters@));
    }
}

/// The count query: the distinct matching entries, under the same joins
/// and the same conjunction as every other shape.
pub open spec fn count_query_pieces(f: FiltersV) -> Seq<PieceV> {
    seq![
        sqlp(
            "SELECT COUNT(DISTINCT bs.id) AS total FROM beatmapset bs INNER JOIN beatmap b ON bs.id = b.beatmapset_id INNER JOIN rates r ON b.id = r.beatmap_id"@,
        ),
    ] + join_pieces(f) + seq![sqlp(" WHERE r.centirate = 100"@)] + filter_pieces(f)
}

/// Build the count query.
pub fn build_count_query(filters: &Filters) -> (r: QueryFragment)
    ensures
        r@ == count_query_pieces(filters@),
{
    let mut b = QueryFragment::new();
    b.push_sql(
        "SELECT COUNT(DISTINCT bs.id) AS total FROM beatmapset bs INNER JOIN beatmap b ON bs.id = b.beatmapset_id INNER JOIN rates r ON b.id = r.beatmap_id",
    );
    push_joins(&mut b, filters);
    b.push_sql(" WHERE r.centirate = 100");
    apply_filters(&mut b, filters);
    proof {
        assert(b@ =~= count_query_pieces(filters@));
    }
    b
}

/// The candidate-id query: the distinct matching entry ids in ascending
/// order, cut to the requested page.
pub open spec fn candidate_query_pieces(f: FiltersV) -> Seq<PieceV> {
    seq![
        sqlp(
            "SELECT DISTINCT bs.id FROM beatmapset bs INNER JOIN beatmap b ON bs.id = b.beatmapset_id INNER JOIN rates r ON b.id = r.beatmap_id"@,
        ),
    ] + join_pieces(f) + seq![sqlp(" WHERE r.centirate = 100"@)] + filter_pieces(f) + seq![
        sqlp(" ORDER BY bs.id LIMIT "@),
        PieceV::Bind(ParamV::Int(f.per_page_or_default() as i64)),
        sqlp(" OFFSET "@),
        PieceV::Bind(ParamV::Int((f.page_or_default() * f.per_page_or_default()) as i64)),
    ]
}

/// Build the candidate-id query for the requested page.
pub fn build_candidate_query(filters: &Filters) -> (r: QueryFragment)
    requires
        filters@.page_or_default() * filters@.per_page_or_default() <= usize::MAX,
        filters@.page_or_default() * filters@.per_page_or_default() <= i64::MAX,
        filters@.per_page_or_default() <= i64::MAX,
    ensures
        r@ == candidate_query_pieces(filters@),
{
    let mut b = QueryFragment::new();
    b.push_sql(
        "SELECT DISTINCT bs.id FROM beatmapset bs INNER JOIN beatmap b ON bs.id = b.beatmapset_id INNER JOIN rates r ON b.id = r.beatmap_id",
    );
    push_joins(&mut b, filters);
    b.push_sql(" WHERE r.centirate = 100");
    apply_filters(&mut b, filters);
    let page = match filters.page {
        Some(p) => p,
        None => 0,
    };
    let per_page = match filters.per_page {
        Some(p) => p,
        None => 9,
    };
    b.push_sql(" ORDER BY bs.id LIMIT ");
    b.push_bind(Param::Int(per_page as i64));
    b.push_sql(" OFFSET ");
    b.push_bind(Param::Int((page * per_page) as i64));
    proof {
        assert(b@ =~= candidate_query_pieces(filters@));
    }
    b
}

/// The random-sample candidate query: the same distinct filtered id set,
/// in randomized order, capped at the fixed sample size.
pub open spec fn random_query_pieces(f: FiltersV) -> Seq<PieceV> {
    seq![
        sqlp(
            "SELECT id FROM (SELECT DISTINCT bs.id FROM beatmapset bs INNER JOIN beatmap b ON bs.id = b.beatmapset_id INNER JOIN rates r ON b.id = r.beatmap_id"@,
        ),
    ] + join_pieces(f) + seq![sqlp(" WHERE r.centirate = 100"@)] + filter_pieces(f) + seq![
        sqlp(") AS filtered_ids ORDER BY RANDOM() LIMIT 9"@),
    ]
}

/// Build the random-sample candidate query.
pub fn build_random_query(filters: &Filters) -> (r: QueryFragment)
    ensures
        r@ == random_query_pieces(filters@),
{
    let mut b = QueryFragment::new();
    b.push_sql(
        "SELECT id FROM (SELECT DISTINCT bs.id FROM beatmapset bs INNER JOIN beatmap b ON bs.id = b.beatmapset_id INNER JOIN rates r ON b.id = r.beatmap_id",
    );
    push_joins(&mut b, filters);
    b.push_sql(" WHERE r.centirate = 100");
    apply_filters(&mut b, filters);
    b.push_sql(") AS filtered_ids ORDER BY RANDOM() LIMIT 9");
    proof {
        assert(b@ =~= random_query_pieces(filters@));
    }
    b
}

/// The detail query: every column the materializer needs, the rating join
/// outer unless a facet needs it, restricted to the candidate ids, ordered
/// by identity.
pub open spec fn detail_query_pieces(f: FiltersV, ids: Seq<i64>) -> Seq<PieceV> {
    seq![
        sqlp(
            "SELECT bs.id AS beatmapset_id, bs.osu_id AS beatmapset_osu_id, bs.artist, bs.title, bs.creator, bs.cover_url, b.id AS beatmap_id, b.osu_id AS beatmap_osu_id, b.difficulty, b.mode, b.status, b.main_pattern, br.id AS rating_id, br.rating, br.rating_type FROM beatmapset bs INNER JOIN beatmap b ON bs.id = b.beatmapset_id INNER JOIN rates r ON b.id = r.beatmap_id"@,
        ),
    ] + (if needs_rating_join(f) {
        seq![sqlp(" INNER JOIN beatmap_rating br ON r.id = br.rates_id"@)]
    } else {
        seq![sqlp(" LEFT JOIN beatmap_rating br ON r.id = br.rates_id"@)]
    }) + (if needs_skill_join(f) {
        seq![sqlp(" LEFT JOIN beatmap_mania_rating bmr ON br.id = bmr.rating_id"@)]
    } else {
        seq![]
    }) + seq![sqlp(" WHERE r.centirate = 100"@)] + filter_pieces(f) + seq![
        sqlp(" AND bs.id = ANY("@),
        PieceV::Bind(ParamV::IdList(ids)),
        sqlp(") ORDER BY bs.id, b.id, br.id"@),
    ]
}

/// Build the detail query for a candidate-id set.
pub fn build_detail_query(filters: &Filters, ids: Vec<i64>) -> (r: QueryFragment)
    ensures
        r@ == detail_query_pieces(filters@, ids@),
{
    let ghost idsv = ids@;
    let mut b = QueryFragment::new();
    b.push_sql(
        "SELECT bs.id AS beatmapset_id, bs.osu_id AS beatmapset_osu_id, bs.artist, bs.title, bs.creator, bs.cover_url, b.id AS beatmap_id, b.osu_id AS beatmap_osu_id, b.difficulty, b.mode, b.status, b.main_pattern, br.id AS rating_id, br.rating, br.rating_type FROM beatmapset bs INNER JOIN beatmap b ON bs.id = b.beatmapset_id INNER JOIN rates r ON b.id = r.beatmap_id",
    );
    if crate::store::needs_rating_join_exec(filters) {
        b.push_sql(" INNER JOIN beatmap_rating br ON r.id = br.rates_id");
    } else {
        b.push_sql(" LEFT JOIN beatmap_rating br ON r.id = br.rates_id");
    }
    let skill = match &filters.skillset {
        Some(s) => s.pattern_type.is_some(),
        None => false,
    };
    if skill {
        b.push_sql(" LEFT JOIN beatmap_mania_rating bmr ON br.id = bmr.rating_id");
    }
    b.push_sql(" WHERE r.centirate = 100");
    apply_filters(&mut b, filters);
    b.push_sql(" AND bs.id = ANY(");
    b.push_bind(Param::IdList(ids));
    b.push_sql(") ORDER BY bs.id, b.id, br.id");
    proof {
        assert(b@ =~= detail_query_pieces(filters@, idsv));
    }
    b
}

} // verus!
