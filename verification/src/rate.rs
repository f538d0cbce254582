//! Full variant ("rate") aggregates: a variant with its ratings, each
//! rating with its mode-specific sub-rating, and the loaders that fetch one
//! variant of an item by external id and tempo multiplier.

use vstd::prelude::*;
use crate::store::{
    ItemRecV, ManiaRec, RatingRecV, Store, StoreV, VariantRecV, first_idx, lemma_first_idx,
};

verus! {

/// The seven mania skillset scores of a rating, fixed-point.
#[derive(Clone, Copy)]
pub struct ManiaRating {
    pub id: Option<i64>,
    pub stream: i64,
    pub jumpstream: i64,
    pub handstream: i64,
    pub stamina: i64,
    pub jackspeed: i64,
    pub chordjack: i64,
    pub technical: i64,
}

/// Mode-specific sub-rating: only the mania mode carries a payload.
#[derive(Clone, Copy)]
pub enum ModeRating {
    Mania(ManiaRating),
    Std,
    Ctb,
    Taiko,
}

/// A rating of a variant, with its mode-specific sub-rating.
pub struct Rating {
    pub id: Option<i64>,
    pub rates_id: Option<i64>,
    pub rating: i64,
    pub rating_type: String,
    pub mode_rating: ModeRating,
}

/// A variant with its ratings.
pub struct Rates {
    pub id: Option<i64>,
    pub osu_hash: Option<String>,
    pub centirate: i32,
    pub drain_time: i32,
    pub total_time: i32,
    pub bpm: i64,
    pub rating: Vec<Rating>,
}

/// Mathematical view of a rating.
#[verifier::ext_equal]
pub struct RatingV {
    pub id: Option<i64>,
    pub rates_id: Option<i64>,
    pub rating: i64,
    pub rating_type: Seq<char>,
    pub mode_rating: ModeRating,
}

impl View for Rating {
    type V = RatingV;

    open spec fn view(&self) -> RatingV {
        RatingV {
            id: self.id,
            rates_id: self.rates_id,
            rating: self.rating,
            rating_type: self.rating_type@,
            mode_rating: self.mode_rating,
        }
    }
}

/// Mathematical view of a variant with its ratings.
#[verifier::ext_equal]
pub struct RatesV {
    pub id: Option<i64>,
    pub osu_hash: Option<Seq<char>>,
    pub centirate: i32,
    pub drain_time: i32,
    pub total_time: i32,
    pub bpm: i64,
    pub rating: Seq<RatingV>,
}

impl View for Rates {
    type V = RatesV;

    open spec fn view(&self) -> RatesV {
        RatesV {
            id: self.id,
            osu_hash: crate::store::opt_view(self.osu_hash),
            centirate: self.centirate,
            drain_time: self.drain_time,
            total_time: self.total_time,
            bpm: self.bpm,
            rating: self.rating@.map_values(|r: Rating| r@),
        }
    }
}

/// The mode-specific sub-rating of the rating with id `rid`: its mania
/// skillset row when one exists, default-zero when absent.
pub open spec fn mode_rating_of(s: StoreV, rid: i64) -> ModeRating {
    let mi = first_idx(s.mania, |m: ManiaRec| m.rating_id == rid);
    if mi == -1 {
        ModeRating::Mania(
            ManiaRating {
                id: None,
                stream: 0,
                jumpstream: 0,
                handstream: 0,
                stamina: 0,
                jackspeed: 0,
                chordjack: 0,
                technical: 0,
            },
        )
    } else {
        ModeRating::Mania(
            ManiaRating {
                id: Some(s.mania[mi].id),
                stream: s.mania[mi].stream,
                jumpstream: s.mania[mi].jumpstream,
                handstream: s.mania[mi].handstream,
                stamina: s.mania[mi].stamina,
                jackspeed: s.mania[mi].jackspeed,
                chordjack: s.mania[mi].chordjack,
                technical: s.mania[mi].technical,
            },
        )
    }
}

/// The full view of one rating row.
pub open spec fn rating_of_rec(s: StoreV, r: RatingRecV) -> RatingV {
    RatingV {
        id: Some(r.id),
        rates_id: Some(r.variant_id),
        rating: r.rating,
        rating_type: r.rating_type,
        mode_rating: mode_rating_of(s, r.id),
    }
}

/// The identity a loaded rating is ordered by.
pub open spec fn rating_id_of(r: RatingV) -> i64 {
    match r.id {
        Some(i) => i,
        None => 0,
    }
}

/// Insert a rating into an id-ascending list, after any equal ids.
pub open spec fn insert_by_id(x: RatingV, s: Seq<RatingV>) -> Seq<RatingV>
    decreases s.len(),
{
    if s.len() == 0 {
        seq![x]
    } else if rating_id_of(s[0]) <= rating_id_of(x) {
        seq![s[0]] + insert_by_id(x, s.drop_first())
    } else {
        seq![x] + s
    }
}

/// The position where insertion places the rating: past the run of ids at
/// or below its own.
pub open spec fn insert_by_id_pos(x: RatingV, s: Seq<RatingV>) -> int
    decreases s.len(),
{
    if s.len() == 0 {
        0
    } else if rating_id_of(s[0]) <= rating_id_of(x) {
        1 + insert_by_id_pos(x, s.drop_first())
    } else {
        0
    }
}

/// Insertion splits the list at the insertion position.
pub proof fn lemma_insert_by_id_split(x: RatingV, s: Seq<RatingV>)
    ensures
        0 <= insert_by_id_pos(x, s) <= s.len(),
        insert_by_id(x, s) == s.take(insert_by_id_pos(x, s)) + seq![x] + s.skip(
            insert_by_id_pos(x, s),
        ),
        forall|j: int|
            0 <= j < insert_by_id_pos(x, s) ==> rating_id_of(#[trigger] s[j]) <= rating_id_of(x),
        insert_by_id_pos(x, s) < s.len() ==> !(rating_id_of(s[insert_by_id_pos(x, s)])
            <= rating_id_of(x)),
    decreases s.len(),
{
    if s.len() == 0 {
        assert(insert_by_id(x, s) =~= s.take(0) + seq![x] + s.skip(0));
    } else if rating_id_of(s[0]) <= rating_id_of(x) {
        let rest = s.drop_first();
        lemma_insert_by_id_split(x, rest);
        let p = insert_by_id_pos(x, rest);
        assert(s.take(p + 1) =~= seq![s[0]] + rest.take(p));
        assert(s.skip(p + 1) =~= rest.skip(p));
        assert(insert_by_id(x, s) =~= s.take(p + 1) + seq![x] + s.skip(p + 1));
        assert forall|j: int|
            0 <= j < insert_by_id_pos(x, s) implies rating_id_of(#[trigger] s[j]) <= rating_id_of(
            x,
        ) by {
            if j > 0 {
                assert(s[j] == rest[j - 1]);
            }
        }
        if p < rest.len() {
            assert(s[p + 1] == rest[p]);
        }
    } else {
        assert(insert_by_id(x, s) =~= s.take(0) + seq![x] + s.skip(0));
    }
}

/// Ratings in ascending id order.
pub open spec fn sorted_by_rating_id(s: Seq<RatingV>) -> bool {
    forall|i: int, j: int|
        0 <= i < j < s.len() ==> rating_id_of(#[trigger] s[i]) <= rating_id_of(#[trigger] s[j])
}

/// Insertion into an id-ascending list keeps it so.
pub proof fn lemma_insert_by_id_sorted(x: RatingV, s: Seq<RatingV>)
    requires
        sorted_by_rating_id(s),
    ensures
        sorted_by_rating_id(insert_by_id(x, s)),
        insert_by_id(x, s).len() == s.len() + 1,
{
    lemma_insert_by_id_split(x, s);
    let p = insert_by_id_pos(x, s);
    let r = insert_by_id(x, s);
    assert forall|i: int, j: int|
        0 <= i < j < r.len() implies rating_id_of(#[trigger] r[i]) <= rating_id_of(
        #[trigger] r[j],
    ) by {
        if i < p {
            assert(r[i] == s[i]);
        } else if i == p {
            assert(r[i] == x);
        } else {
            assert(r[i] == s[i - 1]);
        }
        if j < p {
            assert(r[j] == s[j]);
        } else if j == p {
            assert(r[j] == x);
        } else {
            assert(r[j] == s[j - 1]);
        }
    }
}

/// The ratings of the variant with id `vid` among the first `n` rating
/// rows, in ascending rating-id order.
pub open spec fn variant_ratings_rec(s: StoreV, vid: i64, n: int) -> Seq<RatingV>
    decreases n,
{
    if n <= 0 {
        seq![]
    } else {
        let prev = variant_ratings_rec(s, vid, n - 1);
        if s.ratings[n - 1].variant_id == vid {
            insert_by_id(rating_of_rec(s, s.ratings[n - 1]), prev)
        } else {
            prev
        }
    }
}

/// All ratings of the variant with id `vid`, in ascending rating-id order.
pub open spec fn variant_ratings(s: StoreV, vid: i64) -> Seq<RatingV> {
    variant_ratings_rec(s, vid, s.ratings.len() as int)
}

/// A loaded variant's ratings come out in ascending rating-id order.
pub proof fn lemma_variant_ratings_sorted(s: StoreV, vid: i64, n: int)
    ensures
        sorted_by_rating_id(variant_ratings_rec(s, vid, n)),
    decreases n,
{
    if n > 0 {
        lemma_variant_ratings_sorted(s, vid, n - 1);
        if s.ratings[n - 1].variant_id == vid {
            lemma_insert_by_id_sorted(
                rating_of_rec(s, s.ratings[n - 1]),
                variant_ratings_rec(s, vid, n - 1),
            );
        }
    }
}

/// A variant with all its ratings.
pub open spec fn rates_of_variant(s: StoreV, v: VariantRecV) -> RatesV {
    RatesV {
        id: Some(v.id),
        osu_hash: Some(v.osu_hash),
        centirate: v.centirate,
        drain_time: v.drain_time,
        total_time: v.total_time,
        bpm: v.bpm,
        rating: variant_ratings(s, v.id),
    }
}

/// The first item row carrying the external id.
pub open spec fn item_by_osu_idx(items: Seq<ItemRecV>, osu_id: i32) -> int {
    first_idx(items, |i: ItemRecV| i.osu_id == Some(osu_id))
}

/// The first variant row of the item with the given tempo multiplier.
pub open spec fn variant_by_cr_idx(vs: Seq<VariantRecV>, item_id: i64, centirate: i32) -> int {
    first_idx(vs, |v: VariantRecV| v.item_id == item_id && v.centirate == centirate)
}

/// The mode-specific sub-rating of a rating, computed.
fn mode_rating_exec(store: &Store, rid: i64) -> (r: ModeRating)
    ensures
        r == mode_rating_of(store@, rid),
{
    let ghost sv = store@;
    let ghost p = |m: ManiaRec| m.rating_id == rid;
    proof {
        lemma_first_idx(sv.mania, p);
    }
    let mut mi: usize = 0;
    while mi < store.mania.len()
        invariant
            mi <= store.mania@.len(),
            sv == store@,
            sv.mania == store.mania@,
            p == (|m: ManiaRec| m.rating_id == rid),
            forall|j: int| 0 <= j < mi ==> !p(#[trigger] sv.mania[j]),
        decreases store.mania@.len() - mi,
    {
        let m = &store.mania[mi];
        if m.rating_id == rid {
            proof {
                assert(p(sv.mania[mi as int]));
                lemma_first_idx(sv.mania, p);
                assert(first_idx(sv.mania, p) == mi as int);
            }
            return ModeRating::Mania(
                ManiaRating {
                    id: Some(m.id),
                    stream: m.stream,
                    jumpstream: m.jumpstream,
                    handstream: m.handstream,
                    stamina: m.stamina,
                    jackspeed: m.jackspeed,
                    chordjack: m.chordjack,
                    technical: m.technical,
                },
            );
        }
        mi = mi + 1;
    }
    proof {
        lemma_first_idx(sv.mania, p);
        assert(first_idx(sv.mania, p) == -1);
    }
    ModeRating::Mania(
        ManiaRating {
            id: None,
            stream: 0,
            jumpstream: 0,
            handstream: 0,
            stamina: 0,
            jackspeed: 0,
            chordjack: 0,
            technical: 0,
        },
    )
}

/// The identity a loaded rating is ordered by, computed.
fn rating_id_of_exec(r: &Rating) -> (i: i64)
    ensures
        i == rating_id_of(r@),
{
    match r.id {
        Some(i) => i,
        None => 0,
    }
}

/// Insert a rating into an id-ascending vector, after any equal ids.
fn insert_rating_sorted(out: &mut Vec<Rating>, rt: Rating)
    ensures
        final(out)@.map_values(|x: Rating| x@) == insert_by_id(
            rt@,
            old(out)@.map_values(|x: Rating| x@),
        ),
{
    let ghost sv = out@.map_values(|x: Rating| x@);
    let rid = rating_id_of_exec(&rt);
    let mut idx: usize = 0;
    while idx < out.len() && rating_id_of_exec(&out[idx]) <= rid
        invariant
            idx <= out@.len(),
            sv == out@.map_values(|x: Rating| x@),
            sv.len() == out@.len(),
            rid == rating_id_of(rt@),
            forall|j: int| 0 <= j < idx ==> rating_id_of(#[trigger] sv[j]) <= rating_id_of(rt@),
        decreases out@.len() - idx,
    {
        idx = idx + 1;
    }
    proof {
        lemma_insert_by_id_split(rt@, sv);
        let p = insert_by_id_pos(rt@, sv);
        if p < idx {
            assert(rating_id_of(sv[p]) <= rating_id_of(rt@));
        }
        if idx < p {
            assert(rating_id_of(sv[idx as int]) <= rating_id_of(rt@));
        }
        assert(p == idx);
    }
    let ghost rtv = rt@;
    out.insert(idx, rt);
    proof {
        assert(out@.map_values(|x: Rating| x@) =~= sv.take(idx as int) + seq![rtv] + sv.skip(
            idx as int,
        ));
    }
}

/// Collect all ratings of one variant, nested sub-ratings included, in
/// ascending rating-id order.
pub fn collect_variant_ratings(store: &Store, vid: i64) -> (r: Vec<Rating>)
    ensures
        r@.map_values(|x: Rating| x@) == variant_ratings(store@, vid),
{
    let ghost sv = store@;
    let mut out: Vec<Rating> = Vec::new();
    let mut ri: usize = 0;
    while ri < store.ratings.len()
        invariant
            ri <= store.ratings@.len(),
            sv == store@,
            sv.ratings.len() == store.ratings@.len(),
            out@.map_values(|x: Rating| x@) == variant_ratings_rec(sv, vid, ri as int),
        decreases store.ratings@.len() - ri,
    {
        let rec = &store.ratings[ri];
        proof {
            assert(sv.ratings[ri as int] == rec@);
        }
        if rec.variant_id == vid {
            let mr = mode_rating_exec(store, rec.id);
            let rt = Rating {
                id: Some(rec.id),
                rates_id: Some(rec.variant_id),
                rating: rec.rating,
                rating_type: rec.rating_type.clone(),
                mode_rating: mr,
            };
            proof {
                assert(rt@ =~~= rating_of_rec(sv, sv.ratings[ri as int]));
            }
            insert_rating_sorted(&mut out, rt);
        }
        proof {
            assert(out@.map_values(|x: Rating| x@) == variant_ratings_rec(sv, vid, ri as int + 1));
        }
        ri = ri + 1;
    }
    out
}

/// Load one variant of an item (found by external id) at the given tempo
/// multiplier, with all its ratings; nothing when the item or the variant
/// does not exist.
pub fn find_rate_by_osu_id_and_centirate(store: &Store, beatmap_osu_id: i32, centirate: i32) -> (r:
    Option<Rates>)
    ensures
        ({
            let ii = item_by_osu_idx(store@.items, beatmap_osu_id);
            match r {
                None => ii == -1 || variant_by_cr_idx(store@.variants, store@.items[ii].id, centirate)
                    == -1,
                Some(rt) => ii != -1 && {
                    let vi = variant_by_cr_idx(store@.variants, store@.items[ii].id, centirate);
                    &&& vi != -1
                    &&& rt@ == rates_of_variant(store@, store@.variants[vi])
                },
            }
        }),
{
    let ghost sv = store@;
    let it = match find_item_by_osu_id(store, beatmap_osu_id) {
        Some(it) => it,
        None => {
            return None;
        },
    };
    let v = match find_variant_by_centirate(store, it.id, centirate) {
        Some(v) => v,
        None => {
            return None;
        },
    };
    let ratings = collect_variant_ratings(store, v.id);
    let rt = Rates {
        id: Some(v.id),
        osu_hash: Some(v.osu_hash.clone()),
        centirate: v.centirate,
        drain_time: v.drain_time,
        total_time: v.total_time,
        bpm: v.bpm,
        rating: ratings,
    };
    proof {
        assert(rt@ =~~= rates_of_variant(sv, sv.variants[variant_by_cr_idx(
            sv.variants,
            sv.items[item_by_osu_idx(sv.items, beatmap_osu_id)].id,
            centirate,
        )]));
    }
    Some(rt)
}

/// Load the ratings of one variant of an item (found by external id) at
/// the given tempo multiplier; empty when the item or the variant does not
/// exist.
pub fn find_ratings_by_osu_id_and_centirate(store: &Store, beatmap_osu_id: i32, centirate: i32) -> (
    r: Vec<Rating>)
    ensures
        ({
            let ii = item_by_osu_idx(store@.items, beatmap_osu_id);
            if ii == -1 {
                r@.len() == 0
            } else {
                let vi = variant_by_cr_idx(store@.variants, store@.items[ii].id, centirate);
                if vi == -1 {
                    r@.len() == 0
                } else {
                    r@.map_values(|x: Rating| x@) == variant_ratings(
                        store@,
                        store@.variants[vi].id,
                    )
                }
            }
        }),
{
    let it = match find_item_by_osu_id(store, beatmap_osu_id) {
        Some(it) => it,
        None => {
            return Vec::new();
        },
    };
    let v = match find_variant_by_centirate(store, it.id, centirate) {
        Some(v) => v,
        None => {
            return Vec::new();
        },
    };
    collect_variant_ratings(store, v.id)
}

/// Load one variant of an item by the item's external id and the tempo
/// multiplier.  Same lookup as `find_rate_by_osu_id_and_centirate`,
/// reachable from the variant-centric route.
pub fn find_rate_by_beatmap_osu_id_and_centirate(
    store: &Store,
    beatmap_osu_id: i32,
    centirate: i32,
) -> (r: Option<Rates>)
    ensures
        ({
            let ii = item_by_osu_idx(store@.items, beatmap_osu_id);
            match r {
                None => ii == -1 || variant_by_cr_idx(store@.variants, store@.items[ii].id, centirate)
                    == -1,
                Some(rt) => ii != -1 && {
                    let vi = variant_by_cr_idx(store@.variants, store@.items[ii].id, centirate);
                    &&& vi != -1
                    &&& rt@ == rates_of_variant(store@, store@.variants[vi])
                },
            }
        }),
{
    find_rate_by_osu_id_and_centirate(store, beatmap_osu_id, centirate)
}

/// Find the first item row carrying the external id.
pub fn find_item_by_osu_id(store: &Store, osu_id: i32) -> (r: Option<&crate::store::ItemRec>)
    ensures
        ({
            let k = item_by_osu_idx(store@.items, osu_id);
            match r {
                Some(it) => k != -1 && it@ == store@.items[k],
                None => k == -1,
            }
        }),
{
    let ghost sv = store@;
    let ghost p = |i: ItemRecV| i.osu_id == Some(osu_id);
    let mut ii: usize = 0;
    while ii < store.items.len()
        invariant
            ii <= store.items@.len(),
            sv == store@,
            sv.items.len() == store.items@.len(),
            p == (|i: ItemRecV| i.osu_id == Some(osu_id)),
            forall|j: int| 0 <= j < ii ==> !p(#[trigger] sv.items[j]),
        decreases store.items@.len() - ii,
    {
        let it = &store.items[ii];
        proof {
            assert(sv.items[ii as int] == it@);
        }
        let hit = match it.osu_id {
            Some(x) => x == osu_id,
            None => false,
        };
        if hit {
            proof {
                assert(p(sv.items[ii as int]));
                lemma_first_idx(sv.items, p);
                assert(first_idx(sv.items, p) == ii as int);
            }
            return Some(it);
        }
        ii = ii + 1;
    }
    proof {
        lemma_first_idx(sv.items, p);
    }
    None
}

/// Find the first variant row of an item with the given tempo multiplier.
pub fn find_variant_by_centirate(store: &Store, item_id: i64, centirate: i32) -> (r: Option<
    &crate::store::VariantRec>)
    ensures
        ({
            let k = variant_by_cr_idx(store@.variants, item_id, centirate);
            match r {
                Some(v) => k != -1 && v@ == store@.variants[k],
                None => k == -1,
            }
        }),
{
    let ghost sv = store@;
    let ghost p = |v: VariantRecV| v.item_id == item_id && v.centirate == centirate;
    let mut vi: usize = 0;
    while vi < store.variants.len()
        invariant
            vi <= store.variants@.len(),
            sv == store@,
            sv.variants.len() == store.variants@.len(),
            p == (|v: VariantRecV| v.item_id == item_id && v.centirate == centirate),
            forall|j: int| 0 <= j < vi ==> !p(#[trigger] sv.variants[j]),
        decreases store.variants@.len() - vi,
    {
        let v = &store.variants[vi];
        proof {
            assert(sv.variants[vi as int] == v@);
        }
        if v.item_id == item_id && v.centirate == centirate {
            proof {
                assert(p(sv.variants[vi as int]));
                lemma_first_idx(sv.variants, p);
                assert(first_idx(sv.variants, p) == vi as int);
            }
            return Some(v);
        }
        vi = vi + 1;
    }
    proof {
        lemma_first_idx(sv.variants, p);
    }
    None
}

} // verus!
