//! The relational read model and the matching predicate: which catalog
//! entries a filter model selects, and the distinct ordered candidate-id
//! computation shared by count, paginated search, and random sampling.

use vstd::prelude::*;
use crate::filters::{
    BeatmapFilterV, BeatmapTechnicalFilterV, Filters, FiltersV, RatesFilter, RatingFilterV,
    SkillsetFilterV, known_pattern,
};
use crate::text::{ci_contains, ci_contains_str, str_eq};

verus! {

/// A catalog entry row (a beatmapset).
pub struct EntryRec {
    pub id: i64,
    pub osu_id: Option<i32>,
    pub artist: String,
    pub artist_unicode: Option<String>,
    pub title: String,
    pub title_unicode: Option<String>,
    pub creator: String,
    pub source: Option<String>,
    pub tags: Option<Vec<String>>,
    pub has_video: bool,
    pub has_storyboard: bool,
    pub is_explicit: bool,
    pub is_featured: bool,
    pub cover_url: Option<String>,
    pub preview_url: Option<String>,
    pub osu_file_url: Option<String>,
}

/// An item row (a beatmap): one playable difficulty of an entry.
pub struct ItemRec {
    pub id: i64,
    pub set_id: i64,
    pub osu_id: Option<i32>,
    pub difficulty: String,
    pub count_circles: i32,
    pub count_sliders: i32,
    pub count_spinners: i32,
    pub max_combo: i32,
    pub cs: i64,
    pub ar: i64,
    pub od: i64,
    pub hp: i64,
    pub mode: i32,
    pub status: String,
    pub main_pattern: Vec<String>,
}

/// A variant row (a rate): the item at a tempo multiplier; 100 is canonical.
pub struct VariantRec {
    pub id: i64,
    pub item_id: i64,
    pub osu_hash: String,
    pub centirate: i32,
    pub drain_time: i32,
    pub total_time: i32,
    pub bpm: i64,
}

/// A rating row: one scored difficulty of a variant, tagged by type.
pub struct RatingRec {
    pub id: i64,
    pub variant_id: i64,
    pub rating: i64,
    pub rating_type: String,
}

/// A mode-specific sub-rating row: the seven mania skillset scores.
#[derive(Clone, Copy)]
pub struct ManiaRec {
    pub id: i64,
    pub rating_id: i64,
    pub stream: i64,
    pub jumpstream: i64,
    pub handstream: i64,
    pub stamina: i64,
    pub jackspeed: i64,
    pub chordjack: i64,
    pub technical: i64,
}

/// A pending-import queue row.
#[derive(Clone, Copy)]
pub struct PendingRec {
    pub osu_id: i32,
    pub created_at: i64,
}

/// A snapshot of the relational store, as flat tables.
pub struct Store {
    pub entries: Vec<EntryRec>,
    pub items: Vec<ItemRec>,
    pub variants: Vec<VariantRec>,
    pub ratings: Vec<RatingRec>,
    pub mania: Vec<ManiaRec>,
}

/// Mathematical view of an entry row.
#[verifier::ext_equal]
pub struct EntryRecV {
    pub id: i64,
    pub osu_id: Option<i32>,
    pub artist: Seq<char>,
    pub artist_unicode: Option<Seq<char>>,
    pub title: Seq<char>,
    pub title_unicode: Option<Seq<char>>,
    pub creator: Seq<char>,
    pub source: Option<Seq<char>>,
    pub tags: Option<Seq<Seq<char>>>,
    pub has_video: bool,
    pub has_storyboard: bool,
    pub is_explicit: bool,
    pub is_featured: bool,
    pub cover_url: Option<Seq<char>>,
    pub preview_url: Option<Seq<char>>,
    pub osu_file_url: Option<Seq<char>>,
}

impl View for EntryRec {
    type V = EntryRecV;

    open spec fn view(&self) -> EntryRecV {
        EntryRecV {
            id: self.id,
            osu_id: self.osu_id,
            artist: self.artist@,
            artist_unicode: opt_view(self.artist_unicode),
            title: self.title@,
            title_unicode: opt_view(self.title_unicode),
            creator: self.creator@,
            source: opt_view(self.source),
            tags: match self.tags {
                Some(ref t) => Some(t.deep_view()),
                None => None,
            },
            has_video: self.has_video,
            has_storyboard: self.has_storyboard,
            is_explicit: self.is_explicit,
            is_featured: self.is_featured,
            cover_url: opt_view(self.cover_url),
            preview_url: opt_view(self.preview_url),
            osu_file_url: opt_view(self.osu_file_url),
        }
    }
}

/// The view of an optional string.
pub open spec fn opt_view(s: Option<String>) -> Option<Seq<char>> {
    match s {
        Some(x) => Some(x@),
        None => None,
    }
}

/// Mathematical view of an item row.
#[verifier::ext_equal]
pub struct ItemRecV {
    pub id: i64,
    pub set_id: i64,
    pub osu_id: Option<i32>,
    pub difficulty: Seq<char>,
    pub count_circles: i32,
    pub count_sliders: i32,
    pub count_spinners: i32,
    pub max_combo: i32,
    pub cs: i64,
    pub ar: i64,
    pub od: i64,
    pub hp: i64,
    pub mode: i32,
    pub status: Seq<char>,
    pub main_pattern: Seq<Seq<char>>,
}

impl View for ItemRec {
    type V = ItemRecV;

    open spec fn view(&self) -> ItemRecV {
        ItemRecV {
            id: self.id,
            set_id: self.set_id,
            osu_id: self.osu_id,
            difficulty: self.difficulty@,
            count_circles: self.count_circles,
            count_sliders: self.count_sliders,
            count_spinners: self.count_spinners,
            max_combo: self.max_combo,
            cs: self.cs,
            ar: self.ar,
            od: self.od,
            hp: self.hp,
            mode: self.mode,
            status: self.status@,
            main_pattern: self.main_pattern.deep_view(),
        }
    }
}

/// Mathematical view of a variant row.
#[verifier::ext_equal]
pub struct VariantRecV {
    pub id: i64,
    pub item_id: i64,
    pub osu_hash: Seq<char>,
    pub centirate: i32,
    pub drain_time: i32,
    pub total_time: i32,
    pub bpm: i64,
}

impl View for VariantRec {
    type V = VariantRecV;

    open spec fn view(&self) -> VariantRecV {
        VariantRecV {
            id: self.id,
            item_id: self.item_id,
            osu_hash: self.osu_hash@,
            centirate: self.centirate,
            drain_time: self.drain_time,
            total_time: self.total_time,
            bpm: self.bpm,
        }
    }
}

/// Mathematical view of a rating row.
#[verifier::ext_equal]
pub struct RatingRecV {
    pub id: i64,
    pub variant_id: i64,
    pub rating: i64,
    pub rating_type: Seq<char>,
}

impl View for RatingRec {
    type V = RatingRecV;

    open spec fn view(&self) -> RatingRecV {
        RatingRecV {
            id: self.id,
            variant_id: self.variant_id,
            rating: self.rating,
            rating_type: self.rating_type@,
        }
    }
}

/// Mathematical view of the store.
#[verifier::ext_equal]
pub struct StoreV {
    pub entries: Seq<EntryRecV>,
    pub items: Seq<ItemRecV>,
    pub variants: Seq<VariantRecV>,
    pub ratings: Seq<RatingRecV>,
    pub mania: Seq<ManiaRec>,
}

impl View for Store {
    type V = StoreV;

    open spec fn view(&self) -> StoreV {
        StoreV {
            entries: self.entries@.map_values(|e: EntryRec| e@),
            items: self.items@.map_values(|i: ItemRec| i@),
            variants: self.variants@.map_values(|v: VariantRec| v@),
            ratings: self.ratings@.map_values(|r: RatingRec| r@),
            mania: self.mania@,
        }
    }
}

/// Store well-formedness: identities are unique in every table, an item
/// has at most one canonical variant, and a rating has at most one
/// mode-specific sub-rating.
pub open spec fn store_wf(s: StoreV) -> bool {
    &&& forall|i: int, j: int|
        0 <= i < j < s.entries.len() ==> (#[trigger] s.entries[i]).id != (#[trigger] s.entries[j]).id
    &&& forall|i: int, j: int|
        0 <= i < j < s.items.len() ==> (#[trigger] s.items[i]).id != (#[trigger] s.items[j]).id
    &&& forall|i: int, j: int|
        0 <= i < j < s.variants.len() ==> (#[trigger] s.variants[i]).id != (#[trigger] s.variants[j]).id
    &&& forall|i: int, j: int|
        0 <= i < j < s.ratings.len() ==> (#[trigger] s.ratings[i]).id != (#[trigger] s.ratings[j]).id
    &&& forall|i: int, j: int|
        0 <= i < j < s.variants.len() ==> !((#[trigger] s.variants[i]).item_id == (
        #[trigger] s.variants[j]).item_id && s.variants[i].centirate == 100
            && s.variants[j].centirate == 100)
    &&& forall|i: int, j: int|
        0 <= i < j < s.mania.len() ==> (#[trigger] s.mania[i]).rating_id != (#[trigger] s.mania[j]).rating_id
}

/// Whether the mode-specific rating join is needed: a skillset facet with a
/// pattern type is present.
pub open spec fn needs_skill_join(f: FiltersV) -> bool {
    match f.skillset {
        Some(sk) => sk.pattern_type is Some,
        None => false,
    }
}

/// Whether the rating join is needed: a rating facet is present, or the
/// skillset facet reaches through ratings to the mode-specific columns.
pub open spec fn needs_rating_join(f: FiltersV) -> bool {
    f.rating is Some || needs_skill_join(f)
}

/// The free-text/duration/tempo facet, evaluated against an entry and a
/// variant.  The search term matches case-insensitively anywhere in the
/// artist, title, or creator.
pub open spec fn beatmap_facet_ok(bf: Option<BeatmapFilterV>, e: EntryRecV, v: VariantRecV) -> bool {
    match bf {
        None => true,
        Some(b) => {
            &&& match b.search_term {
                Some(term) => ci_contains(e.artist, term) || ci_contains(e.title, term)
                    || ci_contains(e.creator, term),
                None => true,
            }
            &&& match b.total_time_min {
                Some(m) => v.total_time >= m,
                None => true,
            }
            &&& match b.total_time_max {
                Some(m) => v.total_time <= m,
                None => true,
            }
            &&& match b.bpm_min {
                Some(m) => v.bpm >= m,
                None => true,
            }
            &&& match b.bpm_max {
                Some(m) => v.bpm <= m,
                None => true,
            }
        },
    }
}

/// The technical facet, evaluated against an item.
pub open spec fn technical_ok(tf: Option<BeatmapTechnicalFilterV>, i: ItemRecV) -> bool {
    match tf {
        None => true,
        Some(t) => {
            &&& match t.od_min {
                Some(m) => i.od >= m,
                None => true,
            }
            &&& match t.od_max {
                Some(m) => i.od <= m,
                None => true,
            }
            &&& match t.status {
                Some(st) => i.status == st,
                None => true,
            }
        },
    }
}

/// The drain-time facet, evaluated against a variant.
pub open spec fn rates_ok(rf: Option<RatesFilter>, v: VariantRecV) -> bool {
    match rf {
        None => true,
        Some(r) => {
            &&& match r.drain_time_min {
                Some(m) => v.drain_time >= m,
                None => true,
            }
            &&& match r.drain_time_max {
                Some(m) => v.drain_time <= m,
                None => true,
            }
        },
    }
}

/// The pattern-membership part of the skillset facet: the pattern name
/// must be in the item's pattern tag set, whatever the name is.
pub open spec fn membership_ok(sk: Option<SkillsetFilterV>, i: ItemRecV) -> bool {
    match sk {
        None => true,
        Some(s) => match s.pattern_type {
            Some(p) => i.main_pattern.contains(p),
            None => true,
        },
    }
}

/// The rating facet, evaluated against a rating row.
pub open spec fn rating_facet_ok(rf: Option<RatingFilterV>, r: RatingRecV) -> bool {
    match rf {
        None => true,
        Some(f) => {
            &&& match f.rating_type {
                Some(t) => r.rating_type == t,
                None => true,
            }
            &&& match f.rating_min {
                Some(m) => r.rating >= m,
                None => true,
            }
            &&& match f.rating_max {
                Some(m) => r.rating <= m,
                None => true,
            }
        },
    }
}

/// The mode-specific column selected by a known pattern name.
pub open spec fn mania_col(m: ManiaRec, p: Seq<char>) -> i64 {
    if p == "stream"@ {
        m.stream
    } else if p == "jumpstream"@ {
        m.jumpstream
    } else if p == "handstream"@ {
        m.handstream
    } else if p == "stamina"@ {
        m.stamina
    } else if p == "jackspeed"@ {
        m.jackspeed
    } else if p == "chordjack"@ {
        m.chordjack
    } else if p == "technical"@ {
        m.technical
    } else {
        0
    }
}

/// The min/max part of the skillset facet for the rating with id `rid`:
/// a known pattern name with a bound requires a mode-specific sub-rating
/// row whose selected column lies within the bounds (an outer-joined null
/// never satisfies a bound); an unknown pattern name applies no bound.
pub open spec fn skill_bounds_ok(sk: Option<SkillsetFilterV>, s: StoreV, rid: i64) -> bool {
    match sk {
        None => true,
        Some(k) => match k.pattern_type {
            None => true,
            Some(p) => {
                if known_pattern(p) && (k.pattern_min is Some || k.pattern_max is Some) {
                    exists|mi: int|
                        0 <= mi < s.mania.len() && (#[trigger] s.mania[mi]).rating_id == rid && (
                        match k.pattern_min {
                            Some(m) => mania_col(s.mania[mi], p) >= m,
                            None => true,
                        }) && (match k.pattern_max {
                            Some(m) => mania_col(s.mania[mi], p) <= m,
                            None => true,
                        })
                } else {
                    true
                }
            },
        },
    }
}

/// Everything a rating row must satisfy: the rating facet and the skillset
/// bounds.
pub open spec fn rating_ok(f: FiltersV, s: StoreV, r: RatingRecV) -> bool {
    rating_facet_ok(f.rating, r) && skill_bounds_ok(f.skillset, s, r.id)
}

/// A rating witness for a variant: the `ri`-th rating row belongs to the
/// variant and satisfies the rating-level conditions.
pub open spec fn rating_witness(f: FiltersV, s: StoreV, vid: i64, ri: int) -> bool {
    0 <= ri < s.ratings.len() && s.ratings[ri].variant_id == vid && rating_ok(f, s, s.ratings[ri])
}

/// All conditions below the rating level, on one (entry, item, variant)
/// chain: the join keys line up, the variant is canonical, and the
/// non-rating facets hold.
pub open spec fn base_ok(f: FiltersV, e: EntryRecV, i: ItemRecV, v: VariantRecV) -> bool {
    &&& i.set_id == e.id
    &&& v.item_id == i.id
    &&& v.centirate == 100
    &&& beatmap_facet_ok(f.beatmap, e, v)
    &&& technical_ok(f.beatmap_technical, i)
    &&& rates_ok(f.rates, v)
    &&& membership_ok(f.skillset, i)
}

/// A variant witness for an item: the `vi`-th variant row completes a
/// matching chain, with a rating witness when the rating join is needed.
pub open spec fn variant_witness(s: StoreV, f: FiltersV, e: EntryRecV, i: ItemRecV, vi: int) -> bool {
    &&& 0 <= vi < s.variants.len()
    &&& base_ok(f, e, i, s.variants[vi])
    &&& (needs_rating_join(f) ==> exists|ri: int| rating_witness(f, s, s.variants[vi].id, ri))
}

/// An item matches when some variant row completes a matching chain.
pub open spec fn item_matches(s: StoreV, f: FiltersV, e: EntryRecV, i: ItemRecV) -> bool {
    exists|vi: int| variant_witness(s, f, e, i, vi)
}

/// An entry matches when some of its items matches.
pub open spec fn entry_matches(s: StoreV, f: FiltersV, e: EntryRecV) -> bool {
    exists|ii: int| 0 <= ii < s.items.len() && item_matches(s, f, e, #[trigger] s.items[ii])
}

/// An id matches when some entry row carries it and matches.
pub open spec fn id_matches(s: StoreV, f: FiltersV, id: i64) -> bool {
    exists|ei: int|
        0 <= ei < s.entries.len() && (#[trigger] s.entries[ei]).id == id && entry_matches(
            s,
            f,
            s.entries[ei],
        )
}

/// The matching predicate reads only the facets, never the pagination
/// fields.
pub open spec fn same_facets(f1: FiltersV, f2: FiltersV) -> bool {
    &&& f1.rating == f2.rating
    &&& f1.skillset == f2.skillset
    &&& f1.beatmap == f2.beatmap
    &&& f1.beatmap_technical == f2.beatmap_technical
    &&& f1.rates == f2.rates
}

/// The first index satisfying a predicate, or -1.
pub open spec fn first_idx<T>(s: Seq<T>, p: spec_fn(T) -> bool) -> int
    decreases s.len(),
{
    if s.len() == 0 {
        -1
    } else if p(s[0]) {
        0
    } else {
        let r = first_idx(s.drop_first(), p);
        if r == -1 {
            -1
        } else {
            r + 1
        }
    }
}

/// The first index is a first occurrence, and -1 means no occurrence.
pub proof fn lemma_first_idx<T>(s: Seq<T>, p: spec_fn(T) -> bool)
    ensures
        first_idx(s, p) == -1 ==> forall|i: int| 0 <= i < s.len() ==> !p(#[trigger] s[i]),
        first_idx(s, p) != -1 ==> {
            let k = first_idx(s, p);
            &&& 0 <= k < s.len()
            &&& p(s[k])
            &&& forall|i: int| 0 <= i < k ==> !p(#[trigger] s[i])
        },
    decreases s.len(),
{
    if s.len() == 0 {
    } else if p(s[0]) {
    } else {
        let rest = s.drop_first();
        lemma_first_idx(rest, p);
        let r = first_idx(rest, p);
        if r == -1 {
            assert forall|i: int| 0 <= i < s.len() implies !p(#[trigger] s[i]) by {
                if i > 0 {
                    assert(s[i] == rest[i - 1]);
                }
            }
        } else {
            assert(s[r + 1] == rest[r]);
            assert forall|i: int| 0 <= i < r + 1 implies !p(#[trigger] s[i]) by {
                if i > 0 {
                    assert(s[i] == rest[i - 1]);
                }
            }
        }
    }
}

/// Whether the pattern name is one of the fixed skillset names.
pub fn is_known_pattern(p: &str) -> (b: bool)
    ensures
        b == known_pattern(p@),
{
    str_eq(p, "stream") || str_eq(p, "jumpstream") || str_eq(p, "handstream") || str_eq(
        p,
        "stamina",
    ) || str_eq(p, "jackspeed") || str_eq(p, "chordjack") || str_eq(p, "technical")
}

/// Whether the pattern name is in the item's pattern tag set.
fn pattern_member(pats: &Vec<String>, p: &str) -> (b: bool)
    ensures
        b == pats.deep_view().contains(p@),
{
    let mut i: usize = 0;
    while i < pats.len()
        invariant
            i <= pats@.len(),
            forall|j: int| 0 <= j < i ==> pats.deep_view()[j] != p@,
        decreases pats@.len() - i,
    {
        if str_eq(pats[i].as_str(), p) {
            proof {
                assert(pats.deep_view()[i as int] == p@);
            }
            return true;
        }
        i = i + 1;
    }
    proof {
        assert forall|j: int| 0 <= j < pats.deep_view().len() implies pats.deep_view()[j] != p@ by {}
    }
    false
}

/// Whether the rating join is needed, computed.
pub fn needs_rating_join_exec(filters: &Filters) -> (b: bool)
    ensures
        b == needs_rating_join(filters@),
{
    if filters.rating.is_some() {
        return true;
    }
    match &filters.skillset {
        Some(sk) => sk.pattern_type.is_some(),
        None => false,
    }
}

/// Evaluate everything below the rating level on one chain.
pub fn base_ok_exec(filters: &Filters, e: &EntryRec, i: &ItemRec, v: &VariantRec) -> (b: bool)
    ensures
        b == base_ok(filters@, e@, i@, v@),
{
    if i.set_id != e.id || v.item_id != i.id || v.centirate != 100 {
        return false;
    }
    match &filters.beatmap {
        Some(bf) => {
            match &bf.search_term {
                Some(term) => {
                    let hit = ci_contains_str(e.artist.as_str(), term.as_str()) || ci_contains_str(
                        e.title.as_str(),
                        term.as_str(),
                    ) || ci_contains_str(e.creator.as_str(), term.as_str());
                    if !hit {
                        return false;
                    }
                },
                None => {},
            }
            match bf.total_time_min {
                Some(m) => {
                    if !(v.total_time >= m) {
                        return false;
                    }
                },
                None => {},
            }
            match bf.total_time_max {
                Some(m) => {
                    if !(v.total_time <= m) {
                        return false;
                    }
                },
                None => {},
            }
            match bf.bpm_min {
                Some(m) => {
                    if !(v.bpm >= m) {
                        return false;
                    }
                },
                None => {},
            }
            match bf.bpm_max {
                Some(m) => {
                    if !(v.bpm <= m) {
                        return false;
                    }
                },
                None => {},
            }
        },
        None => {},
    }
    match &filters.beatmap_technical {
        Some(tf) => {
            match tf.od_min {
                Some(m) => {
                    if !(i.od >= m) {
                        return false;
                    }
                },
                None => {},
            }
            match tf.od_max {
                Some(m) => {
                    if !(i.od <= m) {
                        return false;
                    }
                },
                None => {},
            }
            match &tf.status {
                Some(st) => {
                    if !str_eq(i.status.as_str(), st.as_str()) {
                        return false;
                    }
                },
                None => {},
            }
        },
        None => {},
    }
    match &filters.rates {
        Some(rf) => {
            match rf.drain_time_min {
                Some(m) => {
                    if !(v.drain_time >= m) {
                        return false;
                    }
                },
                None => {},
            }
            match rf.drain_time_max {
                Some(m) => {
                    if !(v.drain_time <= m) {
                        return false;
                    }
                },
                None => {},
            }
        },
        None => {},
    }
    match &filters.skillset {
        Some(sk) => {
            match &sk.pattern_type {
                Some(p) => {
                    if !pattern_member(&i.main_pattern, p.as_str()) {
                        return false;
                    }
                },
                None => {},
            }
        },
        None => {},
    }
    true
}

/// The mode-specific column selected by a pattern name, computed.
fn mania_col_exec(m: &ManiaRec, p: &str) -> (r: i64)
    ensures
        r == mania_col(*m, p@),
{
    if str_eq(p, "stream") {
        m.stream
    } else if str_eq(p, "jumpstream") {
        m.jumpstream
    } else if str_eq(p, "handstream") {
        m.handstream
    } else if str_eq(p, "stamina") {
        m.stamina
    } else if str_eq(p, "jackspeed") {
        m.jackspeed
    } else if str_eq(p, "chordjack") {
        m.chordjack
    } else if str_eq(p, "technical") {
        m.technical
    } else {
        0
    }
}

/// Evaluate the skillset bounds for the rating with id `rid`.
fn skill_bounds_exec(store: &Store, filters: &Filters, rid: i64) -> (b: bool)
    ensures
        b == skill_bounds_ok(filters@.skillset, store@, rid),
{
    let sk = match &filters.skillset {
        Some(sk) => sk,
        None => {
            return true;
        },
    };
    let p = match &sk.pattern_type {
        Some(p) => p,
        None => {
            return true;
        },
    };
    let has_bound = sk.pattern_min.is_some() || sk.pattern_max.is_some();
    if !(is_known_pattern(p.as_str()) && has_bound) {
        return true;
    }
    let ghost k0 = sk@;
    let ghost pv = p@;
    proof {
        assert(filters@.skillset == Some(k0));
        assert(k0.pattern_type == Some(pv));
    }
    let ghost sv = store@;
    let mut mi: usize = 0;
    while mi < store.mania.len()
        invariant
            mi <= store.mania@.len(),
            sv == store@,
            sv.mania == store.mania@,
            k0 == sk@,
            pv == p@,
            k0.pattern_min == sk.pattern_min,
            k0.pattern_max == sk.pattern_max,
            filters@.skillset == Some(k0),
            k0.pattern_type == Some(pv),
            known_pattern(pv),
            k0.pattern_min is Some || k0.pattern_max is Some,
            forall|j: int|
                0 <= j < mi ==> !((#[trigger] sv.mania[j]).rating_id == rid && (
                match k0.pattern_min {
                    Some(m) => mania_col(sv.mania[j], pv) >= m,
                    None => true,
                }) && (match k0.pattern_max {
                    Some(m) => mania_col(sv.mania[j], pv) <= m,
                    None => true,
                })),
        decreases store.mania@.len() - mi,
    {
        let m = &store.mania[mi];
        proof {
            assert(sv.mania[mi as int] == *m);
        }
        if m.rating_id == rid {
            let col = mania_col_exec(m, p.as_str());
            let min_ok = match sk.pattern_min {
                Some(lo) => col >= lo,
                None => true,
            };
            let max_ok = match sk.pattern_max {
                Some(hi) => col <= hi,
                None => true,
            };
            if min_ok && max_ok {
                proof {
                    assert(col == mania_col(sv.mania[mi as int], pv));
                    assert(exists|j: int|
                        0 <= j < sv.mania.len() && (#[trigger] sv.mania[j]).rating_id == rid && (
                        match k0.pattern_min {
                            Some(m) => mania_col(sv.mania[j], pv) >= m,
                            None => true,
                        }) && (match k0.pattern_max {
                            Some(m) => mania_col(sv.mania[j], pv) <= m,
                            None => true,
                        })) by {
                        assert(0 <= (mi as int) < sv.mania.len() && (sv.mania[mi as int]).rating_id
                            == rid && (match k0.pattern_min {
                            Some(m) => mania_col(sv.mania[mi as int], pv) >= m,
                            None => true,
                        }) && (match k0.pattern_max {
                            Some(m) => mania_col(sv.mania[mi as int], pv) <= m,
                            None => true,
                        }));
                    }
                    assert(filters@.skillset is Some);
                    assert(filters@.skillset->Some_0 == k0);
                    assert(k0.pattern_type->Some_0 == pv);
                    assert(exists|j: int|
                        0 <= j < sv.mania.len() && (#[trigger] sv.mania[j]).rating_id == rid && (
                        match k0.pattern_min {
                            Some(m) => mania_col(sv.mania[j], k0.pattern_type->Some_0) >= m,
                            None => true,
                        }) && (match k0.pattern_max {
                            Some(m) => mania_col(sv.mania[j], k0.pattern_type->Some_0) <= m,
                            None => true,
                        }));
                    assert(skill_bounds_ok(Some(k0), sv, rid));
                    assert(skill_bounds_ok(filters@.skillset, sv, rid));
                }
                return true;
            }
        }
        mi = mi + 1;
    }
    false
}

/// Evaluate the rating-level conditions on one rating row.
pub fn rating_ok_exec(store: &Store, filters: &Filters, r: &RatingRec) -> (b: bool)
    ensures
        b == rating_ok(filters@, store@, r@),
{
    match &filters.rating {
        Some(rf) => {
            match &rf.rating_type {
                Some(t) => {
                    if !str_eq(r.rating_type.as_str(), t.as_str()) {
                        return false;
                    }
                },
                None => {},
            }
            match rf.rating_min {
                Some(m) => {
                    if !(r.rating >= m) {
                        return false;
                    }
                },
                None => {},
            }
            match rf.rating_max {
                Some(m) => {
                    if !(r.rating <= m) {
                        return false;
                    }
                },
                None => {},
            }
        },
        None => {},
    }
    skill_bounds_exec(store, filters, r.id)
}

/// Whether some rating row of the variant satisfies the rating-level
/// conditions.
pub fn exists_rating_for(store: &Store, filters: &Filters, vid: i64) -> (b: bool)
    ensures
        b == exists|ri: int| rating_witness(filters@, store@, vid, ri),
{
    let ghost sv = store@;
    let mut ri: usize = 0;
    while ri < store.ratings.len()
        invariant
            ri <= store.ratings@.len(),
            sv == store@,
            sv.ratings.len() == store.ratings@.len(),
            forall|j: int| 0 <= j < ri ==> !rating_witness(filters@, sv, vid, j),
        decreases store.ratings@.len() - ri,
    {
        let r = &store.ratings[ri];
        if r.variant_id == vid {
            if rating_ok_exec(store, filters, r) {
                proof {
                    assert(sv.ratings[ri as int] == r@);
                    assert(rating_witness(filters@, sv, vid, ri as int));
                }
                return true;
            }
        }
        ri = ri + 1;
    }
    false
}

/// Whether some variant row completes a matching chain for the item.
pub fn item_matches_exec(store: &Store, filters: &Filters, e: &EntryRec, it: &ItemRec) -> (b: bool)
    ensures
        b == item_matches(store@, filters@, e@, it@),
{
    let ghost sv = store@;
    let needs_rating = needs_rating_join_exec(filters);
    let mut vi: usize = 0;
    while vi < store.variants.len()
        invariant
            vi <= store.variants@.len(),
            sv == store@,
            sv.variants.len() == store.variants@.len(),
            needs_rating == needs_rating_join(filters@),
            forall|j: int| 0 <= j < vi ==> !variant_witness(sv, filters@, e@, it@, j),
        decreases store.variants@.len() - vi,
    {
        let v = &store.variants[vi];
        proof {
            assert(sv.variants[vi as int] == v@);
        }
        if base_ok_exec(filters, e, it, v) {
            if !needs_rating || exists_rating_for(store, filters, v.id) {
                proof {
                    assert(base_ok(filters@, e@, it@, sv.variants[vi as int]));
                    assert(v@.id == sv.variants[vi as int].id);
                    if needs_rating_join(filters@) {
                        assert(exists|ri: int| rating_witness(filters@, sv, v@.id, ri));
                        let ri = choose|ri: int| rating_witness(filters@, sv, v@.id, ri);
                        assert(rating_witness(filters@, sv, sv.variants[vi as int].id, ri));
                    }
                    assert(variant_witness(sv, filters@, e@, it@, vi as int));
                }
                return true;
            }
        }
        vi = vi + 1;
    }
    false
}

/// Whether the entry matches the filters: some of its items does.
pub fn entry_matches_exec(store: &Store, filters: &Filters, e: &EntryRec) -> (b: bool)
    ensures
        b == entry_matches(store@, filters@, e@),
{
    let ghost sv = store@;
    let mut ii: usize = 0;
    while ii < store.items.len()
        invariant
            ii <= store.items@.len(),
            sv == store@,
            sv.items.len() == store.items@.len(),
            forall|j: int|
                0 <= j < ii ==> !item_matches(sv, filters@, e@, #[trigger] sv.items[j]),
        decreases store.items@.len() - ii,
    {
        let it = &store.items[ii];
        proof {
            assert(sv.items[ii as int] == it@);
        }
        if item_matches_exec(store, filters, e, it) {
            return true;
        }
        ii = ii + 1;
    }
    false
}

} // verus!
