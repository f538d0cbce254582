//! The detail fetcher: for a candidate entry, the flat joined row set
//! (entry, item, canonical variant, outer-joined rating) restricted to the
//! rows the filters admit, as the materializer consumes it.

use vstd::prelude::*;
use crate::filters::{Filters, FiltersV};
use crate::materialize::idx_of_id;
use crate::short::{RowRating, RowRatingV, RowV, SearchRow};
use crate::store::{
    EntryRec, EntryRecV, ItemRec, ItemRecV, RatingRecV, Store, StoreV, VariantRecV, base_ok,
    base_ok_exec, needs_rating_join, needs_rating_join_exec, rating_ok, rating_ok_exec,
};

verus! {

/// The ids of the entry rows, in table order.
pub open spec fn entry_ids_of(s: StoreV) -> Seq<i64> {
    s.entries.map_values(|e: EntryRecV| e.id)
}

/// The rating columns a rating row contributes to a detail row.
pub open spec fn row_rating_of(r: RatingRecV) -> RowRatingV {
    RowRatingV { rating_id: r.id, rating: r.rating, rating_type: r.rating_type }
}

/// A detail row: entry fields, item fields, and optional rating columns.
pub open spec fn row_of(e: EntryRecV, i: ItemRecV, rr: Option<RowRatingV>) -> RowV {
    RowV {
        set_id: Some(e.id),
        set_osu_id: e.osu_id,
        artist: e.artist,
        title: e.title,
        creator: e.creator,
        cover_url: e.cover_url,
        item_id: Some(i.id),
        item_osu_id: i.osu_id,
        difficulty: i.difficulty,
        mode: i.mode,
        status: i.status,
        main_pattern: i.main_pattern,
        rating: rr,
    }
}

/// The rating-bearing rows of one item chain, from the first `n` rating
/// rows of the store: one per rating of the variant that satisfies the
/// rating-level conditions.
pub open spec fn rating_rows_rec(
    s: StoreV,
    f: FiltersV,
    e: EntryRecV,
    i: ItemRecV,
    vid: i64,
    n: int,
) -> Seq<RowV>
    decreases n,
{
    if n <= 0 {
        seq![]
    } else {
        rating_rows_rec(s, f, e, i, vid, n - 1) + (if s.ratings[n - 1].variant_id == vid
            && rating_ok(f, s, s.ratings[n - 1]) {
            seq![row_of(e, i, Some(row_rating_of(s.ratings[n - 1])))]
        } else {
            seq![]
        })
    }
}

/// The first canonical (centirate 100) variant row of an item, or -1.
pub open spec fn canon_vi(vs: Seq<VariantRecV>, item_id: i64) -> int
    decreases vs.len(),
{
    if vs.len() == 0 {
        -1
    } else if vs[0].item_id == item_id && vs[0].centirate == 100 {
        0
    } else {
        let r = canon_vi(vs.drop_first(), item_id);
        if r == -1 {
            -1
        } else {
            r + 1
        }
    }
}

/// The canonical-variant index is the first match, and -1 means there is
/// none.
pub proof fn lemma_canon_vi(vs: Seq<VariantRecV>, item_id: i64)
    ensures
        canon_vi(vs, item_id) == -1 ==> forall|i: int|
            0 <= i < vs.len() ==> !((#[trigger] vs[i]).item_id == item_id && vs[i].centirate == 100),
        canon_vi(vs, item_id) != -1 ==> {
            let k = canon_vi(vs, item_id);
            &&& 0 <= k < vs.len()
            &&& vs[k].item_id == item_id
            &&& vs[k].centirate == 100
            &&& forall|i: int|
                0 <= i < k ==> !((#[trigger] vs[i]).item_id == item_id && vs[i].centirate == 100)
        },
    decreases vs.len(),
{
    if vs.len() == 0 {
    } else if vs[0].item_id == item_id && vs[0].centirate == 100 {
    } else {
        let rest = vs.drop_first();
        lemma_canon_vi(rest, item_id);
        let r = canon_vi(rest, item_id);
        if r == -1 {
            assert forall|i: int|
                0 <= i < vs.len() implies !((#[trigger] vs[i]).item_id == item_id
                && vs[i].centirate == 100) by {
                if i > 0 {
                    assert(vs[i] == rest[i - 1]);
                }
            }
        } else {
            assert(vs[r + 1] == rest[r]);
            assert forall|i: int|
                0 <= i < r + 1 implies !((#[trigger] vs[i]).item_id == item_id && vs[i].centirate
                == 100) by {
                if i > 0 {
                    assert(vs[i] == rest[i - 1]);
                }
            }
        }
    }
}

/// The detail rows one item contributes: nothing without a canonical
/// variant or when the non-rating facets fail; otherwise its admitted
/// rating rows, or a single null-rating row when the rating join is outer
/// and the variant has no admitted ratings.
pub open spec fn item_rows(s: StoreV, f: FiltersV, e: EntryRecV, i: ItemRecV) -> Seq<RowV> {
    let vi = canon_vi(s.variants, i.id);
    if vi == -1 {
        seq![]
    } else {
        let v = s.variants[vi];
        if !base_ok(f, e, i, v) {
            seq![]
        } else {
            let rs = rating_rows_rec(s, f, e, i, v.id, s.ratings.len() as int);
            if rs.len() == 0 {
                if needs_rating_join(f) {
                    seq![]
                } else {
                    seq![row_of(e, i, None)]
                }
            } else {
                rs
            }
        }
    }
}

/// The detail rows of one entry, over the first `n` item rows of the
/// store, ordered by item table order then rating table order.
pub open spec fn entry_rows_rec(s: StoreV, f: FiltersV, e: EntryRecV, n: int) -> Seq<RowV>
    decreases n,
{
    if n <= 0 {
        seq![]
    } else {
        entry_rows_rec(s, f, e, n - 1) + (if s.items[n - 1].set_id == e.id {
            item_rows(s, f, e, s.items[n - 1])
        } else {
            seq![]
        })
    }
}

/// The detail rows of the entry with the given id: empty when no entry row
/// carries the id.
pub open spec fn entry_rows(s: StoreV, f: FiltersV, id: i64) -> Seq<RowV> {
    let k = idx_of_id(entry_ids_of(s), id);
    if k == -1 {
        seq![]
    } else {
        entry_rows_rec(s, f, s.entries[k], s.items.len() as int)
    }
}

/// Every detail row of an entry carries that entry's id and an item id.
pub proof fn lemma_entry_rows_rec_ids(s: StoreV, f: FiltersV, e: EntryRecV, n: int)
    ensures
        forall|j: int|
            0 <= j < entry_rows_rec(s, f, e, n).len() ==> (#[trigger] entry_rows_rec(
                s,
                f,
                e,
                n,
            )[j]).set_id == Some(e.id) && entry_rows_rec(s, f, e, n)[j].item_id is Some,
    decreases n,
{
    if n > 0 {
        lemma_entry_rows_rec_ids(s, f, e, n - 1);
        let i = s.items[n - 1];
        if i.set_id == e.id {
            lemma_item_rows_ids(s, f, e, i);
        }
    }
}

/// Every detail row of one item chain carries the entry id and the item id.
pub proof fn lemma_item_rows_ids(s: StoreV, f: FiltersV, e: EntryRecV, i: ItemRecV)
    ensures
        forall|j: int|
            0 <= j < item_rows(s, f, e, i).len() ==> (#[trigger] item_rows(s, f, e, i)[j]).set_id
                == Some(e.id) && item_rows(s, f, e, i)[j].item_id == Some(i.id),
{
    let vi = canon_vi(s.variants, i.id);
    if vi != -1 && base_ok(f, e, i, s.variants[vi]) {
        lemma_rating_rows_rec_ids(s, f, e, i, s.variants[vi].id, s.ratings.len() as int);
    }
}

/// Every rating-bearing row of one item chain carries its identities.
pub proof fn lemma_rating_rows_rec_ids(
    s: StoreV,
    f: FiltersV,
    e: EntryRecV,
    i: ItemRecV,
    vid: i64,
    n: int,
)
    ensures
        forall|j: int|
            0 <= j < rating_rows_rec(s, f, e, i, vid, n).len() ==> (#[trigger] rating_rows_rec(
                s,
                f,
                e,
                i,
                vid,
                n,
            )[j]).set_id == Some(e.id) && rating_rows_rec(s, f, e, i, vid, n)[j].item_id == Some(
                i.id,
            ),
    decreases n,
{
    if n > 0 {
        lemma_rating_rows_rec_ids(s, f, e, i, vid, n - 1);
    }
}

/// A witnessed admitted rating makes the rating-row run nonempty.
pub proof fn lemma_rating_rows_rec_nonempty(
    s: StoreV,
    f: FiltersV,
    e: EntryRecV,
    i: ItemRecV,
    vid: i64,
    n: int,
    ri: int,
)
    requires
        0 <= ri < n <= s.ratings.len(),
        s.ratings[ri].variant_id == vid,
        rating_ok(f, s, s.ratings[ri]),
    ensures
        rating_rows_rec(s, f, e, i, vid, n).len() > 0,
    decreases n,
{
    if n - 1 > ri {
        lemma_rating_rows_rec_nonempty(s, f, e, i, vid, n - 1, ri);
    }
}

/// An entry's row run is at least as long as any one of its items' runs.
pub proof fn lemma_entry_rows_rec_lb(s: StoreV, f: FiltersV, e: EntryRecV, n: int, ii: int)
    requires
        0 <= ii < n <= s.items.len(),
        s.items[ii].set_id == e.id,
    ensures
        entry_rows_rec(s, f, e, n).len() >= item_rows(s, f, e, s.items[ii]).len(),
    decreases n,
{
    if n - 1 > ii {
        lemma_entry_rows_rec_lb(s, f, e, n - 1, ii);
    }
}

/// A nonempty rating-row run owns a witnessing admitted rating.
pub proof fn lemma_rating_rows_rec_inhabited(
    s: StoreV,
    f: FiltersV,
    e: EntryRecV,
    i: ItemRecV,
    vid: i64,
    n: int,
)
    requires
        n <= s.ratings.len(),
        rating_rows_rec(s, f, e, i, vid, n).len() > 0,
    ensures
        exists|ri: int|
            0 <= ri < n && (#[trigger] s.ratings[ri]).variant_id == vid && rating_ok(
                f,
                s,
                s.ratings[ri],
            ),
    decreases n,
{
    if n > 0 {
        if s.ratings[n - 1].variant_id == vid && rating_ok(f, s, s.ratings[n - 1]) {
        } else {
            lemma_rating_rows_rec_inhabited(s, f, e, i, vid, n - 1);
        }
    }
}

/// Under the store invariants, an item contributes detail rows exactly
/// when it matches the filters.
pub proof fn lemma_item_rows_nonempty_iff(s: StoreV, f: FiltersV, e: EntryRecV, i: ItemRecV)
    requires
        crate::store::store_wf(s),
    ensures
        (item_rows(s, f, e, i).len() > 0) == crate::store::item_matches(s, f, e, i),
{
    lemma_canon_vi(s.variants, i.id);
    let cv = canon_vi(s.variants, i.id);
    if item_rows(s, f, e, i).len() > 0 {
        let v = s.variants[cv];
        if needs_rating_join(f) {
            let rs = rating_rows_rec(s, f, e, i, v.id, s.ratings.len() as int);
            assert(rs.len() > 0);
            lemma_rating_rows_rec_inhabited(s, f, e, i, v.id, s.ratings.len() as int);
            let ri = choose|ri: int|
                0 <= ri < s.ratings.len() && (#[trigger] s.ratings[ri]).variant_id == v.id
                    && rating_ok(f, s, s.ratings[ri]);
            assert(crate::store::rating_witness(f, s, v.id, ri));
        }
        assert(crate::store::variant_witness(s, f, e, i, cv));
    }
    if crate::store::item_matches(s, f, e, i) {
        let vi = choose|vi: int| crate::store::variant_witness(s, f, e, i, vi);
        assert(s.variants[vi].item_id == i.id && s.variants[vi].centirate == 100);
        if cv == -1 {
            assert(false);
        }
        if cv != vi {
            if cv < vi {
                assert(!(s.variants[cv].item_id == s.variants[vi].item_id
                    && s.variants[cv].centirate == 100 && s.variants[vi].centirate == 100));
            } else {
                assert(!(s.variants[vi].item_id == s.variants[cv].item_id
                    && s.variants[vi].centirate == 100 && s.variants[cv].centirate == 100));
            }
            assert(false);
        }
        let v = s.variants[cv];
        assert(base_ok(f, e, i, v));
        if needs_rating_join(f) {
            let ri = choose|ri: int| crate::store::rating_witness(f, s, v.id, ri);
            lemma_rating_rows_rec_nonempty(s, f, e, i, v.id, s.ratings.len() as int, ri);
        }
        assert(item_rows(s, f, e, i).len() > 0);
    }
}

/// A matching id owns a nonempty detail row set: the matching chain
/// witnesses at least one row.  Needs the store invariants: with duplicate
/// canonical variants the first one found could fail the facets that the
/// witness satisfies.
pub proof fn lemma_matching_entry_rows_nonempty(s: StoreV, f: FiltersV, id: i64)
    requires
        crate::store::store_wf(s),
        crate::store::id_matches(s, f, id),
    ensures
        idx_of_id(entry_ids_of(s), id) != -1,
        0 <= idx_of_id(entry_ids_of(s), id) < s.entries.len(),
        entry_rows(s, f, id).len() > 0,
{
    let ei = choose|ei: int|
        0 <= ei < s.entries.len() && (#[trigger] s.entries[ei]).id == id && crate::store::entry_matches(
            s,
            f,
            s.entries[ei],
        );
    let ids = entry_ids_of(s);
    crate::materialize::lemma_idx_of_id(ids, id);
    let k = idx_of_id(ids, id);
    assert(ids[ei] == id);
    if k == -1 {
        assert(false);
    }
    assert(ids[k] == s.entries[k].id);
    if k != ei {
        if k < ei {
            assert(s.entries[k].id != s.entries[ei].id);
        } else {
            assert(s.entries[ei].id != s.entries[k].id);
        }
        assert(false);
    }
    let e = s.entries[ei];
    let ii = choose|ii: int|
        0 <= ii < s.items.len() && crate::store::item_matches(s, f, e, #[trigger] s.items[ii]);
    let i = s.items[ii];
    let vi = choose|vi: int| crate::store::variant_witness(s, f, e, i, vi);
    lemma_canon_vi(s.variants, i.id);
    let cv = canon_vi(s.variants, i.id);
    assert(s.variants[vi].item_id == i.id && s.variants[vi].centirate == 100);
    if cv == -1 {
        assert(false);
    }
    if cv != vi {
        if cv < vi {
            assert(!(s.variants[cv].item_id == s.variants[vi].item_id && s.variants[cv].centirate
                == 100 && s.variants[vi].centirate == 100));
        } else {
            assert(!(s.variants[vi].item_id == s.variants[cv].item_id && s.variants[vi].centirate
                == 100 && s.variants[cv].centirate == 100));
        }
        assert(false);
    }
    let v = s.variants[cv];
    assert(base_ok(f, e, i, v));
    if needs_rating_join(f) {
        let ri = choose|ri: int| crate::store::rating_witness(f, s, v.id, ri);
        lemma_rating_rows_rec_nonempty(s, f, e, i, v.id, s.ratings.len() as int, ri);
    }
    assert(item_rows(s, f, e, i).len() > 0);
    lemma_entry_rows_rec_lb(s, f, e, s.items.len() as int, ii);
}

/// An owned detail row from one chain, with optional rating columns.
fn make_row(e: &EntryRec, i: &ItemRec, rr: Option<RowRating>) -> (r: SearchRow)
    ensures
        r@ == row_of(e@, i@, match rr {
            Some(x) => Some(x@),
            None => None,
        }),
{
    let r = SearchRow {
        set_id: Some(e.id),
        set_osu_id: e.osu_id,
        artist: e.artist.clone(),
        title: e.title.clone(),
        creator: e.creator.clone(),
        cover_url: match &e.cover_url {
            Some(c) => Some(c.clone()),
            None => None,
        },
        item_id: Some(i.id),
        item_osu_id: i.osu_id,
        difficulty: i.difficulty.clone(),
        mode: i.mode,
        status: i.status.clone(),
        main_pattern: crate::materialize::clone_string_vec(&i.main_pattern),
        rating: rr,
    };
    proof {
        assert(r@ =~~= row_of(e@, i@, match r.rating {
            Some(ref x) => Some(x@),
            None => None,
        }));
    }
    r
}

/// Find the first canonical variant row of an item.
pub fn find_canon_variant(store: &Store, item_id: i64) -> (r: Option<usize>)
    ensures
        ({
            let k = canon_vi(store@.variants, item_id);
            match r {
                Some(vi) => k == vi,
                None => k == -1,
            }
        }),
{
    let ghost vs = store@.variants;
    proof {
        lemma_canon_vi(vs, item_id);
    }
    let mut vi: usize = 0;
    while vi < store.variants.len()
        invariant
            vi <= store.variants@.len(),
            vs == store@.variants,
            vs.len() == store.variants@.len(),
            forall|j: int|
                0 <= j < vi ==> !((#[trigger] vs[j]).item_id == item_id && vs[j].centirate == 100),
        decreases store.variants@.len() - vi,
    {
        let v = &store.variants[vi];
        proof {
            assert(vs[vi as int] == v@);
        }
        if v.item_id == item_id && v.centirate == 100 {
            proof {
                lemma_canon_vi(vs, item_id);
            }
            return Some(vi);
        }
        vi = vi + 1;
    }
    proof {
        lemma_canon_vi(vs, item_id);
    }
    None
}

/// Append the detail rows of one entry: phase two of the search for one
/// candidate, mirroring the joined, filtered, identity-ordered row set.
pub fn push_entry_rows(store: &Store, filters: &Filters, e: &EntryRec, out: &mut Vec<SearchRow>)
    ensures
        final(out)@.map_values(|r: SearchRow| r@) == old(out)@.map_values(|r: SearchRow| r@)
            + entry_rows_rec(store@, filters@, e@, store@.items.len() as int),
{
    let ghost sv = store@;
    let ghost base = out@.map_values(|r: SearchRow| r@);
    let needs_rating = needs_rating_join_exec(filters);
    let mut ii: usize = 0;
    while ii < store.items.len()
        invariant
            ii <= store.items@.len(),
            sv == store@,
            sv.items.len() == store.items@.len(),
            needs_rating == needs_rating_join(filters@),
            base == old(out)@.map_values(|r: SearchRow| r@),
            out@.map_values(|r: SearchRow| r@) == base + entry_rows_rec(sv, filters@, e@, ii as int),
        decreases store.items@.len() - ii,
    {
        let it = &store.items[ii];
        proof {
            assert(sv.items[ii as int] == it@);
        }
        let ghost pre = out@.map_values(|r: SearchRow| r@);
        if it.set_id == e.id {
            match find_canon_variant(store, it.id) {
                None => {
                    proof {
                        assert(item_rows(sv, filters@, e@, it@) =~= Seq::<RowV>::empty());
                    }
                },
                Some(vi) => {
                    proof {
                        lemma_canon_vi(sv.variants, it@.id);
                    }
                    let v = &store.variants[vi];
                    proof {
                        assert(sv.variants[vi as int] == v@);
                    }
                    if base_ok_exec(filters, e, it, v) {
                        let mut pushed = false;
                        let mut ri: usize = 0;
                        while ri < store.ratings.len()
                            invariant
                                ri <= store.ratings@.len(),
                                sv == store@,
                                sv.ratings.len() == store.ratings@.len(),
                                pre == base + entry_rows_rec(sv, filters@, e@, ii as int),
                                out@.map_values(|r: SearchRow| r@) == pre + rating_rows_rec(
                                    sv,
                                    filters@,
                                    e@,
                                    it@,
                                    v@.id,
                                    ri as int,
                                ),
                                pushed == (rating_rows_rec(
                                    sv,
                                    filters@,
                                    e@,
                                    it@,
                                    v@.id,
                                    ri as int,
                                ).len() > 0),
                            decreases store.ratings@.len() - ri,
                        {
                            let r = &store.ratings[ri];
                            proof {
                                assert(sv.ratings[ri as int] == r@);
                            }
                            if r.variant_id == v.id {
                                if rating_ok_exec(store, filters, r) {
                                    let row = make_row(
                                        e,
                                        it,
                                        Some(
                                            RowRating {
                                                rating_id: r.id,
                                                rating: r.rating,
                                                rating_type: r.rating_type.clone(),
                                            },
                                        ),
                                    );
                                    proof {
                                        assert(row@ == row_of(
                                            e@,
                                            it@,
                                            Some(row_rating_of(sv.ratings[ri as int])),
                                        ));
                                    }
                                    let ghost out_pre = out@;
                                    let ghost rowv = row@;
                                    out.push(row);
                                    pushed = true;
                                    proof {
                                        assert(rating_rows_rec(sv, filters@, e@, it@, v@.id, ri as int + 1)
                                            =~= rating_rows_rec(sv, filters@, e@, it@, v@.id, ri as int)
                                            + seq![rowv]);
                                        assert(out@ == out_pre.push(row));
                                        assert(out@.map_values(|r: SearchRow| r@) =~= out_pre.map_values(
                                            |r: SearchRow| r@,
                                        ).push(rowv));
                                        assert(out@.map_values(|r: SearchRow| r@) =~= pre
                                            + rating_rows_rec(
                                            sv,
                                            filters@,
                                            e@,
                                            it@,
                                            v@.id,
                                            ri as int + 1,
                                        ));
                                    }
                                } else {
                                    proof {
                                        assert(rating_rows_rec(sv, filters@, e@, it@, v@.id, ri as int + 1)
                                            =~= rating_rows_rec(sv, filters@, e@, it@, v@.id, ri as int));
                                    }
                                }
                            } else {
                                proof {
                                    assert(rating_rows_rec(sv, filters@, e@, it@, v@.id, ri as int + 1)
                                        =~= rating_rows_rec(sv, filters@, e@, it@, v@.id, ri as int));
                                }
                            }
                            ri = ri + 1;
                        }
                        if !pushed && !needs_rating {
                            let row = make_row(e, it, None);
                            out.push(row);
                        }
                        proof {
                            assert(out@.map_values(|r: SearchRow| r@) =~= pre + item_rows(
                                sv,
                                filters@,
                                e@,
                                it@,
                            ));
                        }
                    } else {
                        proof {
                            assert(item_rows(sv, filters@, e@, it@) =~= Seq::<RowV>::empty());
                        }
                    }
                },
            }
        }
        proof {
            assert(out@.map_values(|r: SearchRow| r@) =~= base + entry_rows_rec(
                sv,
                filters@,
                e@,
                ii as int + 1,
            ));
        }
        ii = ii + 1;
    }
}

} // verus!
