//! The simple per-entry view: one catalog entry by external id, its items
//! restricted to the canonical variant, each with the ratings of a chosen
//! type (or all of them).

use vstd::prelude::*;
use crate::rows::{canon_vi, lemma_canon_vi};
use crate::store::{EntryRecV, ItemRecV, Store, StoreV, VariantRecV, opt_view};
use crate::text::str_eq;

verus! {

/// One catalog entry with its rating-bearing items.
pub struct Beatmapset {
    pub id: i64,
    pub osu_id: Option<i32>,
    pub artist: String,
    pub artist_unicode: Option<String>,
    pub title: String,
    pub title_unicode: Option<String>,
    pub creator: String,
    pub source: Option<String>,
    pub tags: Option<Vec<String>>,
    pub has_video: bool,
    pub has_storyboard: bool,
    pub is_explicit: bool,
    pub is_featured: bool,
    pub cover_url: Option<String>,
    pub preview_url: Option<String>,
    pub osu_file_url: Option<String>,
    pub beatmaps: Vec<BeatmapInfo>,
}

/// One item at its canonical variant, with its selected ratings.
pub struct BeatmapInfo {
    pub beatmap_osu_id: i32,
    pub name: String,
    pub count_circles: i32,
    pub count_sliders: i32,
    pub count_spinners: i32,
    pub od: i64,
    pub hp: i64,
    pub main_pattern: Vec<String>,
    pub ratings: Vec<RatingInfo>,
}

/// A rating's type tag and fixed-point score.
pub struct RatingInfo {
    pub rating_type: String,
    pub rating_value: i64,
}

/// Mathematical view of a rating entry.
#[verifier::ext_equal]
pub struct RatingInfoV {
    pub rating_type: Seq<char>,
    pub rating_value: i64,
}

impl View for RatingInfo {
    type V = RatingInfoV;

    open spec fn view(&self) -> RatingInfoV {
        RatingInfoV { rating_type: self.rating_type@, rating_value: self.rating_value }
    }
}

/// Mathematical view of an item entry.
#[verifier::ext_equal]
pub struct BeatmapInfoV {
    pub beatmap_osu_id: i32,
    pub name: Seq<char>,
    pub count_circles: i32,
    pub count_sliders: i32,
    pub count_spinners: i32,
    pub od: i64,
    pub hp: i64,
    pub main_pattern: Seq<Seq<char>>,
    pub ratings: Seq<RatingInfoV>,
}

impl View for BeatmapInfo {
    type V = BeatmapInfoV;

    open spec fn view(&self) -> BeatmapInfoV {
        BeatmapInfoV {
            beatmap_osu_id: self.beatmap_osu_id,
            name: self.name@,
            count_circles: self.count_circles,
            count_sliders: self.count_sliders,
            count_spinners: self.count_spinners,
            od: self.od,
            hp: self.hp,
            main_pattern: self.main_pattern.deep_view(),
            ratings: self.ratings@.map_values(|r: RatingInfo| r@),
        }
    }
}

/// Mathematical view of the entry.
#[verifier::ext_equal]
pub struct BeatmapsetV {
    pub id: i64,
    pub osu_id: Option<i32>,
    pub artist: Seq<char>,
    pub artist_unicode: Option<Seq<char>>,
    pub title: Seq<char>,
    pub title_unicode: Option<Seq<char>>,
    pub creator: Seq<char>,
    pub source: Option<Seq<char>>,
    pub tags: Option<Seq<Seq<char>>>,
    pub has_video: bool,
    pub has_storyboard: bool,
    pub is_explicit: bool,
    pub is_featured: bool,
    pub cover_url: Option<Seq<char>>,
    pub preview_url: Option<Seq<char>>,
    pub osu_file_url: Option<Seq<char>>,
    pub beatmaps: Seq<BeatmapInfoV>,
}

impl View for Beatmapset {
    type V = BeatmapsetV;

    open spec fn view(&self) -> BeatmapsetV {
        BeatmapsetV {
            id: self.id,
            osu_id: self.osu_id,
            artist: self.artist@,
            artist_unicode: opt_view(self.artist_unicode),
            title: self.title@,
            title_unicode: opt_view(self.title_unicode),
            creator: self.creator@,
            source: opt_view(self.source),
            tags: match self.tags {
                Some(ref t) => Some(t.deep_view()),
                None => None,
            },
            has_video: self.has_video,
            has_storyboard: self.has_storyboard,
            is_explicit: self.is_explicit,
            is_featured: self.is_featured,
            cover_url: opt_view(self.cover_url),
            preview_url: opt_view(self.preview_url),
            osu_file_url: opt_view(self.osu_file_url),
            beatmaps: self.beatmaps@.map_values(|b: BeatmapInfo| b@),
        }
    }
}

/// The selected ratings of the variant with id `vid` among the first `n`
/// rating rows: all of them, or only those of the requested type.
pub open spec fn simple_ratings_rec(
    s: StoreV,
    vid: i64,
    t: Option<Seq<char>>,
    n: int,
) -> Seq<RatingInfoV>
    decreases n,
{
    if n <= 0 {
        seq![]
    } else {
        simple_ratings_rec(s, vid, t, n - 1) + (if s.ratings[n - 1].variant_id == vid && (
        match t {
            Some(tt) => s.ratings[n - 1].rating_type == tt,
            None => true,
        }) {
            seq![
                RatingInfoV {
                    rating_type: s.ratings[n - 1].rating_type,
                    rating_value: s.ratings[n - 1].rating,
                },
            ]
        } else {
            seq![]
        })
    }
}

/// The entry an item contributes: nothing without a canonical variant or
/// without a selected rating; otherwise its fields at the canonical
/// variant with the selected ratings.  An absent external item id reports
/// as zero.
pub open spec fn simple_item_of(s: StoreV, i: ItemRecV, t: Option<Seq<char>>) -> Option<
    BeatmapInfoV,
> {
    let vi = canon_vi(s.variants, i.id);
    if vi == -1 {
        None
    } else {
        let rs = simple_ratings_rec(s, s.variants[vi].id, t, s.ratings.len() as int);
        if rs.len() == 0 {
            None
        } else {
            Some(
                BeatmapInfoV {
                    beatmap_osu_id: match i.osu_id {
                        Some(x) => x,
                        None => 0,
                    },
                    name: i.difficulty,
                    count_circles: i.count_circles,
                    count_sliders: i.count_sliders,
                    count_spinners: i.count_spinners,
                    od: i.od,
                    hp: i.hp,
                    main_pattern: i.main_pattern,
                    ratings: rs,
                },
            )
        }
    }
}

/// The rating-bearing items of the entry with id `set_id` among the first
/// `n` item rows, in table order.
pub open spec fn simple_items_rec(s: StoreV, set_id: i64, t: Option<Seq<char>>, n: int) -> Seq<
    BeatmapInfoV,
>
    decreases n,
{
    if n <= 0 {
        seq![]
    } else {
        simple_items_rec(s, set_id, t, n - 1) + (if s.items[n - 1].set_id == set_id {
            match simple_item_of(s, s.items[n - 1], t) {
                Some(b) => seq![b],
                None => seq![],
            }
        } else {
            seq![]
        })
    }
}

/// The simple view of one entry row under a rating-type selection.
pub open spec fn simple_of(s: StoreV, e: EntryRecV, t: Option<Seq<char>>) -> BeatmapsetV {
    BeatmapsetV {
        id: e.id,
        osu_id: e.osu_id,
        artist: e.artist,
        artist_unicode: e.artist_unicode,
        title: e.title,
        title_unicode: e.title_unicode,
        creator: e.creator,
        source: e.source,
        tags: e.tags,
        has_video: e.has_video,
        has_storyboard: e.has_storyboard,
        is_explicit: e.is_explicit,
        is_featured: e.is_featured,
        cover_url: e.cover_url,
        preview_url: e.preview_url,
        osu_file_url: e.osu_file_url,
        beatmaps: simple_items_rec(s, e.id, t, s.items.len() as int),
    }
}

/// The view of an optional rating-type selection.
pub open spec fn sel_view(t: Option<String>) -> Option<Seq<char>> {
    match t {
        Some(x) => Some(x@),
        None => None,
    }
}

/// Whether an item yields a row of the simple view's joined result set:
/// it has a canonical variant and — when a rating type is selected — that
/// variant carries a rating of the selected type.  Without a selection the
/// outer-joined rating may be null, so the canonical variant alone yields
/// a row.
pub open spec fn item_row_exists(s: StoreV, i: ItemRecV, t: Option<Seq<char>>) -> bool {
    let vi = canon_vi(s.variants, i.id);
    &&& vi != -1
    &&& match t {
        None => true,
        Some(tt) => exists|ri: int|
            0 <= ri < s.ratings.len() && (#[trigger] s.ratings[ri]).variant_id == s.variants[vi].id
                && s.ratings[ri].rating_type == tt,
    }
}

/// Whether the entry yields any row of the simple view's joined result
/// set: absence of rows is the loader's normal "not found" outcome.
pub open spec fn simple_row_exists(s: StoreV, e: EntryRecV, t: Option<Seq<char>>) -> bool {
    exists|ii: int|
        0 <= ii < s.items.len() && (#[trigger] s.items[ii]).set_id == e.id && item_row_exists(
            s,
            s.items[ii],
            t,
        )
}

/// A variant's selected-rating run is nonempty exactly when a selected
/// rating row exists.
proof fn lemma_simple_ratings_nonempty_iff(s: StoreV, vid: i64, t: Option<Seq<char>>, n: int)
    requires
        n <= s.ratings.len(),
    ensures
        (simple_ratings_rec(s, vid, t, n).len() > 0) <==> exists|ri: int|
            0 <= ri < n && (#[trigger] s.ratings[ri]).variant_id == vid && (match t {
                Some(tt) => s.ratings[ri].rating_type == tt,
                None => true,
            }),
    decreases n,
{
    if n > 0 {
        lemma_simple_ratings_nonempty_iff(s, vid, t, n - 1);
        if s.ratings[n - 1].variant_id == vid && (match t {
            Some(tt) => s.ratings[n - 1].rating_type == tt,
            None => true,
        }) {
        } else {
            if simple_ratings_rec(s, vid, t, n).len() > 0 {
                assert(simple_ratings_rec(s, vid, t, n - 1).len() > 0) by {
                    assert(simple_ratings_rec(s, vid, t, n) == simple_ratings_rec(s, vid, t, n - 1)
                        + Seq::<RatingInfoV>::empty());
                    assert(simple_ratings_rec(s, vid, t, n).len() == simple_ratings_rec(
                        s,
                        vid,
                        t,
                        n - 1,
                    ).len());
                }
            }
        }
    }
}

/// An item materializes in the simple view exactly when it yields a row —
/// except that without a selection an item whose canonical variant has no
/// ratings yields a row but no materialized entry.
proof fn lemma_simple_item_row(s: StoreV, i: ItemRecV, t: Option<Seq<char>>)
    ensures
        (simple_item_of(s, i, t) is Some) ==> item_row_exists(s, i, t),
        (t is Some && item_row_exists(s, i, t)) ==> simple_item_of(s, i, t) is Some,
{
    let vi = canon_vi(s.variants, i.id);
    if vi != -1 {
        lemma_simple_ratings_nonempty_iff(s, s.variants[vi].id, t, s.ratings.len() as int);
    }
}

/// The simple view's item list is nonempty exactly when some item of the
/// entry materializes.
proof fn lemma_simple_items_nonempty_iff(s: StoreV, set_id: i64, t: Option<Seq<char>>, n: int)
    requires
        n <= s.items.len(),
    ensures
        (simple_items_rec(s, set_id, t, n).len() > 0) <==> exists|ii: int|
            0 <= ii < n && (#[trigger] s.items[ii]).set_id == set_id && simple_item_of(
                s,
                s.items[ii],
                t,
            ) is Some,
    decreases n,
{
    if n > 0 {
        lemma_simple_items_nonempty_iff(s, set_id, t, n - 1);
        if s.items[n - 1].set_id == set_id && simple_item_of(s, s.items[n - 1], t) is Some {
        } else {
            if simple_items_rec(s, set_id, t, n).len() > 0 {
                assert(simple_items_rec(s, set_id, t, n).len() == simple_items_rec(
                    s,
                    set_id,
                    t,
                    n - 1,
                ).len());
            }
        }
    }
}

/// Whether any item of the entry has a canonical variant.
fn any_canonical_item(store: &Store, set_id: i64) -> (b: bool)
    ensures
        b == exists|ii: int|
            0 <= ii < store@.items.len() && (#[trigger] store@.items[ii]).set_id == set_id
                && canon_vi(store@.variants, store@.items[ii].id) != -1,
{
    let ghost sv = store@;
    let mut ii: usize = 0;
    while ii < store.items.len()
        invariant
            ii <= store.items@.len(),
            sv == store@,
            sv.items.len() == store.items@.len(),
            forall|j: int|
                0 <= j < ii ==> !((#[trigger] sv.items[j]).set_id == set_id && canon_vi(
                    sv.variants,
                    sv.items[j].id,
                ) != -1),
        decreases store.items@.len() - ii,
    {
        let it = &store.items[ii];
        proof {
            assert(sv.items[ii as int] == it@);
        }
        if it.set_id == set_id {
            match crate::rows::find_canon_variant(store, it.id) {
                Some(_) => {
                    proof {
                        assert(sv.items[ii as int].set_id == set_id && canon_vi(
                            sv.variants,
                            sv.items[ii as int].id,
                        ) != -1);
                    }
                    return true;
                },
                None => {},
            }
        }
        ii = ii + 1;
    }
    false
}

/// Collect the selected ratings of one variant.
fn collect_simple_ratings(store: &Store, vid: i64, t: &Option<String>) -> (r: Vec<RatingInfo>)
    ensures
        r@.map_values(|x: RatingInfo| x@) == simple_ratings_rec(
            store@,
            vid,
            sel_view(*t),
            store@.ratings.len() as int,
        ),
{
    let ghost sv = store@;
    let ghost tv = sel_view(*t);
    let mut out: Vec<RatingInfo> = Vec::new();
    let mut ri: usize = 0;
    while ri < store.ratings.len()
        invariant
            ri <= store.ratings@.len(),
            sv == store@,
            tv == sel_view(*t),
            sv.ratings.len() == store.ratings@.len(),
            out@.map_values(|x: RatingInfo| x@) == simple_ratings_rec(sv, vid, tv, ri as int),
        decreases store.ratings@.len() - ri,
    {
        let rec = &store.ratings[ri];
        proof {
            assert(sv.ratings[ri as int] == rec@);
        }
        if rec.variant_id == vid {
            let selected = match t {
                Some(tt) => str_eq(rec.rating_type.as_str(), tt.as_str()),
                None => true,
            };
            if selected {
                out.push(
                    RatingInfo {
                        rating_type: rec.rating_type.clone(),
                        rating_value: rec.rating,
                    },
                );
            }
        }
        proof {
            assert(out@.map_values(|x: RatingInfo| x@) =~= simple_ratings_rec(
                sv,
                vid,
                tv,
                ri as int + 1,
            ));
        }
        ri = ri + 1;
    }
    out
}

/// Collect the rating-bearing items of one entry.
fn collect_simple_items(store: &Store, set_id: i64, t: &Option<String>) -> (r: Vec<BeatmapInfo>)
    ensures
        r@.map_values(|x: BeatmapInfo| x@) == simple_items_rec(
            store@,
            set_id,
            sel_view(*t),
            store@.items.len() as int,
        ),
{
    let ghost sv = store@;
    let ghost tv = sel_view(*t);
    let mut out: Vec<BeatmapInfo> = Vec::new();
    let mut ii: usize = 0;
    while ii < store.items.len()
        invariant
            ii <= store.items@.len(),
            sv == store@,
            tv == sel_view(*t),
            sv.items.len() == store.items@.len(),
            out@.map_values(|x: BeatmapInfo| x@) == simple_items_rec(sv, set_id, tv, ii as int),
        decreases store.items@.len() - ii,
    {
        let it = &store.items[ii];
        proof {
            assert(sv.items[ii as int] == it@);
        }
        if it.set_id == set_id {
            match crate::rows::find_canon_variant(store, it.id) {
                None => {
                    proof {
                        assert(simple_item_of(sv, it@, tv) is None);
                    }
                },
                Some(vi) => {
                    proof {
                        lemma_canon_vi(sv.variants, it@.id);
                    }
                    let v = &store.variants[vi];
                    proof {
                        assert(sv.variants[vi as int] == v@);
                    }
                    let ratings = collect_simple_ratings(store, v.id, t);
                    if ratings.len() > 0 {
                        let b = BeatmapInfo {
                            beatmap_osu_id: match it.osu_id {
                                Some(x) => x,
                                None => 0,
                            },
                            name: it.difficulty.clone(),
                            count_circles: it.count_circles,
                            count_sliders: it.count_sliders,
                            count_spinners: it.count_spinners,
                            od: it.od,
                            hp: it.hp,
                            main_pattern: crate::materialize::clone_string_vec(&it.main_pattern),
                            ratings,
                        };
                        proof {
                            assert(b@.ratings == simple_item_of(sv, it@, tv)->Some_0.ratings);
                            assert(b@ =~~= simple_item_of(sv, it@, tv)->Some_0);
                        }
                        out.push(b);
                    } else {
                        proof {
                            assert(simple_item_of(sv, it@, tv) is None);
                        }
                    }
                },
            }
        }
        proof {
            assert(out@.map_values(|x: BeatmapInfo| x@) =~= simple_items_rec(
                sv,
                set_id,
                tv,
                ii as int + 1,
            ));
        }
        ii = ii + 1;
    }
    out
}

/// Load the simple view of one catalog entry by external id, its items
/// restricted to the canonical variant and to those carrying a selected
/// rating.  Absence is a normal outcome, not an error, and it means the
/// joined result set is empty: no entry carries the external id, or the
/// entry yields no row — without a selection, no item has a canonical
/// variant; with one, no canonical variant carries a rating of the
/// selected type.
pub fn find_by_osu_id(store: &Store, osu_id: i32, rating_type: Option<String>) -> (r: Option<
    Beatmapset,
>)
    ensures
        ({
            let k = crate::full::entry_by_osu_idx(store@.entries, osu_id);
            match r {
                None => k == -1 || !simple_row_exists(
                    store@,
                    store@.entries[k],
                    sel_view(rating_type),
                ),
                Some(b) => {
                    &&& k != -1
                    &&& simple_row_exists(store@, store@.entries[k], sel_view(rating_type))
                    &&& b@ == simple_of(store@, store@.entries[k], sel_view(rating_type))
                },
            }
        }),
{
    let ghost sv = store@;
    let ghost tv = sel_view(rating_type);
    let e = match crate::full::find_entry_by_osu_id(store, osu_id) {
        Some(e) => e,
        None => {
            return None;
        },
    };
    let beatmaps = collect_simple_items(store, e.id, &rating_type);
    let row_found: bool;
    if beatmaps.len() > 0 {
        proof {
            lemma_simple_items_nonempty_iff(sv, e@.id, tv, sv.items.len() as int);
            let ii = choose|ii: int|
                0 <= ii < sv.items.len() && (#[trigger] sv.items[ii]).set_id == e@.id
                    && simple_item_of(sv, sv.items[ii], tv) is Some;
            lemma_simple_item_row(sv, sv.items[ii], tv);
            assert(simple_row_exists(sv, e@, tv));
        }
        row_found = true;
    } else {
        match &rating_type {
            Some(_) => {
                proof {
                    lemma_simple_items_nonempty_iff(sv, e@.id, tv, sv.items.len() as int);
                    if simple_row_exists(sv, e@, tv) {
                        let ii = choose|ii: int|
                            0 <= ii < sv.items.len() && (#[trigger] sv.items[ii]).set_id == e@.id
                                && item_row_exists(sv, sv.items[ii], tv);
                        lemma_simple_item_row(sv, sv.items[ii], tv);
                        assert(simple_item_of(sv, sv.items[ii], tv) is Some);
                        assert(false);
                    }
                }
                row_found = false;
            },
            None => {
                row_found = any_canonical_item(store, e.id);
                proof {
                    if row_found {
                        let ii = choose|ii: int|
                            0 <= ii < sv.items.len() && (#[trigger] sv.items[ii]).set_id == e@.id
                                && canon_vi(sv.variants, sv.items[ii].id) != -1;
                        assert(item_row_exists(sv, sv.items[ii], tv));
                        assert(simple_row_exists(sv, e@, tv));
                    } else {
                        if simple_row_exists(sv, e@, tv) {
                            let ii = choose|ii: int|
                                0 <= ii < sv.items.len() && (#[trigger] sv.items[ii]).set_id
                                    == e@.id && item_row_exists(sv, sv.items[ii], tv);
                            assert(canon_vi(sv.variants, sv.items[ii].id) != -1);
                            assert(false);
                        }
                    }
                }
            },
        }
    }
    if !row_found {
        return None;
    }
    let b = Beatmapset {
        id: e.id,
        osu_id: e.osu_id,
        artist: e.artist.clone(),
        artist_unicode: clone_opt_str(&e.artist_unicode),
        title: e.title.clone(),
        title_unicode: clone_opt_str(&e.title_unicode),
        creator: e.creator.clone(),
        source: clone_opt_str(&e.source),
        tags: match &e.tags {
            Some(ts) => Some(crate::materialize::clone_string_vec(ts)),
            None => None,
        },
        has_video: e.has_video,
        has_storyboard: e.has_storyboard,
        is_explicit: e.is_explicit,
        is_featured: e.is_featured,
        cover_url: clone_opt_str(&e.cover_url),
        preview_url: clone_opt_str(&e.preview_url),
        osu_file_url: clone_opt_str(&e.osu_file_url),
        beatmaps,
    };
    proof {
        let k = crate::full::entry_by_osu_idx(sv.entries, osu_id);
        assert(b@ =~~= simple_of(sv, sv.entries[k], sel_view(rating_type)));
    }
    Some(b)
}

/// An owned copy of an optional string, with the same view.
fn clone_opt_str(s: &Option<String>) -> (r: Option<String>)
    ensures
        opt_view(r) == opt_view(*s),
{
    match s {
        Some(x) => Some(x.clone()),
        None => None,
    }
}

} // verus!
