//! The engine's laws, stated and proved once over the specifications that
//! the entry points' contracts use: count agrees with the matching set and
//! ignores pagination, pages cover the matching set exactly, a summary
//! depends on the facets alone, truncation keeps the five easiest plus the
//! hardest, and scores fall back from the preferred type to "osu".

use vstd::prelude::*;
use vstd::arithmetic::div_mod::{lemma_div_is_ordered, lemma_fundamental_div_mod, lemma_mod_bound};
use crate::candidate::{
    ids_insert, ids_pos, lemma_ids_insert_split, lemma_matching_ids, lemma_matching_ids_facets,
    matching_ids_rec, matching_ids_spec,
};
use crate::filters::FiltersV;
use crate::rows::{entry_rows, entry_rows_rec, item_rows, rating_rows_rec};
use crate::search::{page_ids, summary_of};
use crate::short::BeatmapV;
use crate::store::{EntryRecV, ItemRecV, StoreV, id_matches, same_facets};
use crate::subset::{
    first_of_type, lemma_sort_items_props, limited_items, processed_set, score_le, score_of,
    sort_items, sorted_by_score,
};

verus! {

/// The count is the size of a duplicate-free list holding exactly the
/// matching entry ids: the true number of distinct matching entries.
pub proof fn lemma_count_distinct_matches(s: StoreV, f: FiltersV)
    ensures
        matching_ids_spec(s, f).no_duplicates(),
        forall|x: i64| matching_ids_spec(s, f).contains(x) <==> id_matches(s, f, x),
{
    lemma_matching_ids(s, f);
}

/// The count never depends on the pagination fields: filters that agree on
/// every facet count the same entries.
pub proof fn lemma_count_pagination_independent(s: StoreV, f1: FiltersV, f2: FiltersV)
    requires
        same_facets(f1, f2),
    ensures
        matching_ids_spec(s, f1).len() == matching_ids_spec(s, f2).len(),
{
    lemma_matching_ids_facets(s, f1, f2);
}

/// Inserting an id grows the candidate list by at most one.
proof fn lemma_ids_insert_len(id: i64, s: Seq<i64>)
    ensures
        ids_insert(id, s).len() <= s.len() + 1,
{
    lemma_ids_insert_split(id, s);
    let p = ids_pos(id, s);
    if !(p < s.len() && s[p] == id) {
        assert(ids_insert(id, s).len() == (s.take(p) + seq![id] + s.skip(p)).len());
    }
}

/// There are no more candidates than entry rows.
pub proof fn lemma_matching_ids_len(s: StoreV, f: FiltersV, n: int)
    requires
        0 <= n,
    ensures
        matching_ids_rec(s, f, n).len() <= n,
    decreases n,
{
    if n > 0 {
        lemma_matching_ids_len(s, f, n - 1);
        lemma_ids_insert_len(s.entries[n - 1].id, matching_ids_rec(s, f, n - 1));
    }
}

/// Pagination is complete and sound: with a positive page size, an id is
/// matched by the facets exactly when some page contains it — no
/// duplication, no omission across page boundaries.
pub proof fn lemma_pages_cover(s: StoreV, f: FiltersV, id: i64)
    requires
        f.per_page_or_default() > 0,
        s.entries.len() <= usize::MAX,
    ensures
        id_matches(s, f, id) <==> exists|p: usize|
            page_ids(s, FiltersV { page: Some(p), ..f }).contains(id),
{
    let pp = f.per_page_or_default() as int;
    let all = matching_ids_spec(s, f);
    lemma_matching_ids(s, f);
    if id_matches(s, f, id) {
        assert(all.contains(id));
        let k = choose|k: int| 0 <= k < all.len() && all[k] == id;
        lemma_matching_ids_len(s, f, s.entries.len() as int);
        assert(all.len() <= s.entries.len());
        lemma_fundamental_div_mod(k, pp);
        lemma_mod_bound(k, pp);
        let p = k / pp;
        lemma_div_is_ordered(0, k, pp);
        lemma_div_is_ordered(k, all.len() as int - 1, pp);
        assert(0 <= p <= k);
        let fp = FiltersV { page: Some(p as usize), ..f };
        lemma_matching_ids_facets(s, f, fp);
        assert(matching_ids_spec(s, fp) == all);
        let lo = p * pp;
        assert(lo <= k < lo + pp) by {
            assert(k == pp * (k / pp) + (k % pp));
            assert(0 <= k % pp < pp);
        }
        assert(fp.page_or_default() == p as usize && fp.per_page_or_default()
            == f.per_page_or_default());
        let pg = page_ids(s, fp);
        assert(lo < all.len());
        assert(pg[k - lo] == id);
        assert(pg.contains(id));
        assert(exists|q: usize| page_ids(s, FiltersV { page: Some(q), ..f }).contains(id));
    }
    if exists|p: usize| page_ids(s, FiltersV { page: Some(p), ..f }).contains(id) {
        let p = choose|p: usize| page_ids(s, FiltersV { page: Some(p), ..f }).contains(id);
        let fp = FiltersV { page: Some(p), ..f };
        lemma_matching_ids_facets(s, f, fp);
        let pg = page_ids(s, fp);
        let j = choose|j: int| 0 <= j < pg.len() && pg[j] == id;
        let lo = fp.page_or_default() as int * pp;
        if lo < all.len() {
            assert(all[lo + j] == id);
            assert(all.contains(id));
        }
    }
}

/// Page zero with the count as the page size is the whole matching set in
/// one call.
pub proof fn lemma_single_page_is_all(s: StoreV, f: FiltersV)
    requires
        f.page_or_default() == 0,
        f.per_page_or_default() >= matching_ids_spec(s, f).len(),
    ensures
        page_ids(s, f) == matching_ids_spec(s, f),
{
    let all = matching_ids_spec(s, f);
    if all.len() == 0 {
        assert(page_ids(s, f) =~= all);
    } else {
        assert(page_ids(s, f) == all.subrange(0, all.len() as int));
        assert(all.subrange(0, all.len() as int) =~= all);
    }
}

/// Rating-level row selection reads only the facets.
proof fn lemma_rating_rows_facets(
    s: StoreV,
    f1: FiltersV,
    f2: FiltersV,
    e: EntryRecV,
    i: ItemRecV,
    vid: i64,
    n: int,
)
    requires
        same_facets(f1, f2),
    ensures
        rating_rows_rec(s, f1, e, i, vid, n) == rating_rows_rec(s, f2, e, i, vid, n),
    decreases n,
{
    if n > 0 {
        lemma_rating_rows_facets(s, f1, f2, e, i, vid, n - 1);
    }
}

/// Item-level row selection reads only the facets.
proof fn lemma_item_rows_facets(s: StoreV, f1: FiltersV, f2: FiltersV, e: EntryRecV, i: ItemRecV)
    requires
        same_facets(f1, f2),
    ensures
        item_rows(s, f1, e, i) == item_rows(s, f2, e, i),
{
    let vi = crate::rows::canon_vi(s.variants, i.id);
    if vi != -1 {
        lemma_rating_rows_facets(s, f1, f2, e, i, s.variants[vi].id, s.ratings.len() as int);
    }
}

/// Entry-level row selection reads only the facets.
proof fn lemma_entry_rows_rec_facets(s: StoreV, f1: FiltersV, f2: FiltersV, e: EntryRecV, n: int)
    requires
        same_facets(f1, f2),
    ensures
        entry_rows_rec(s, f1, e, n) == entry_rows_rec(s, f2, e, n),
    decreases n,
{
    if n > 0 {
        lemma_entry_rows_rec_facets(s, f1, f2, e, n - 1);
        lemma_item_rows_facets(s, f1, f2, e, s.items[n - 1]);
    }
}

/// A returned summary is a function of the store, the facets, and the
/// entry id alone: pagination never changes what any one entry looks like,
/// so the items collected across pages are the items of the single
/// full-size call.
pub proof fn lemma_summary_facets(s: StoreV, f1: FiltersV, f2: FiltersV, id: i64)
    requires
        same_facets(f1, f2),
    ensures
        summary_of(s, f1, id) == summary_of(s, f2, id),
{
    let k = crate::materialize::idx_of_id(crate::rows::entry_ids_of(s), id);
    if k != -1 {
        lemma_entry_rows_rec_facets(s, f1, f2, s.entries[k], s.items.len() as int);
    }
    assert(entry_rows(s, f1, id) == entry_rows(s, f2, id));
    assert(crate::subset::preferred_type_of(f1) == crate::subset::preferred_type_of(f2));
}

/// The truncation law: sorting yields an ascending permutation of the
/// matched items; at most six survive — everything when six or fewer
/// matched, otherwise exactly the five lowest-scoring plus the single
/// highest-scoring, six distinct positions of the sorted permutation.
pub proof fn lemma_truncation_law(items: Seq<BeatmapV>, t: Seq<char>)
    ensures
        sort_items(items, t).len() == items.len(),
        sort_items(items, t).to_multiset() == items.to_multiset(),
        sorted_by_score(sort_items(items, t), t),
        items.len() <= 6 ==> limited_items(items, t) == sort_items(items, t),
        items.len() > 6 ==> limited_items(items, t) == sort_items(items, t).take(5).push(
            sort_items(items, t).last(),
        ) && limited_items(items, t).len() == 6,
{
    lemma_sort_items_props(items, t);
}

/// The recorded item count is always the pre-truncation count, whatever
/// the truncation left.
pub proof fn lemma_true_item_count(b: crate::short::BeatmapsetV, t: Seq<char>)
    ensures
        processed_set(b, t).total_beatmaps == b.beatmaps.len() as usize,
        b.beatmaps.len() <= 6 ==> processed_set(b, t).beatmaps.len() == b.beatmaps.len(),
        b.beatmaps.len() > 6 ==> processed_set(b, t).beatmaps.len() == 6,
{
    lemma_sort_items_props(b.beatmaps, t);
}

/// The ids of the entry's matching items among the first `n` item rows,
/// in table order.
pub open spec fn matching_item_ids(s: StoreV, f: FiltersV, e: EntryRecV, n: int) -> Seq<i64>
    decreases n,
{
    if n <= 0 {
        seq![]
    } else {
        matching_item_ids(s, f, e, n - 1) + (if crate::store::item_matches(
            s,
            f,
            e,
            s.items[n - 1],
        ) {
            seq![s.items[n - 1].id]
        } else {
            seq![]
        })
    }
}

/// Materializing an entry's detail rows yields one item slot per matching
/// item, keyed by its id: repeated rows merge and never duplicate an item.
proof fn lemma_mat_entry_rec(s: StoreV, f: FiltersV, e: EntryRecV, n: int)
    requires
        crate::store::store_wf(s),
        0 <= n <= s.items.len(),
    ensures
        entry_rows_rec(s, f, e, n).len() == 0 ==> matching_item_ids(s, f, e, n).len() == 0,
        entry_rows_rec(s, f, e, n).len() > 0 ==> {
            let m = crate::materialize::mat(entry_rows_rec(s, f, e, n));
            &&& m.len() == 1
            &&& m[0].id == e.id
            &&& m[0].item_ids == matching_item_ids(s, f, e, n)
            &&& crate::materialize::mat_set_wf(m[0])
        },
        forall|x: i64|
            matching_item_ids(s, f, e, n).contains(x) ==> exists|j: int|
                0 <= j < n && (#[trigger] s.items[j]).id == x,
        matching_item_ids(s, f, e, n).no_duplicates(),
    decreases n,
{
    if n > 0 {
        lemma_mat_entry_rec(s, f, e, n - 1);
        let prev = entry_rows_rec(s, f, e, n - 1);
        let prev_ids = matching_item_ids(s, f, e, n - 1);
        let i = s.items[n - 1];
        crate::rows::lemma_item_rows_nonempty_iff(s, f, e, i);
        if crate::store::item_matches(s, f, e, i) {
            let vi = choose|vi: int| crate::store::variant_witness(s, f, e, i, vi);
            assert(i.set_id == e.id);
        }
        let blk = if i.set_id == e.id {
            item_rows(s, f, e, i)
        } else {
            Seq::<crate::short::RowV>::empty()
        };
        assert(entry_rows_rec(s, f, e, n) == prev + blk) by {
            if i.set_id == e.id {
            } else {
                assert(prev + Seq::<crate::short::RowV>::empty() =~= prev);
            }
        }
        if blk.len() == 0 {
            assert(!crate::store::item_matches(s, f, e, i));
            assert(matching_item_ids(s, f, e, n) =~= prev_ids);
            assert(entry_rows_rec(s, f, e, n) =~= prev);
        } else {
            assert(crate::store::item_matches(s, f, e, i));
            assert(matching_item_ids(s, f, e, n) == prev_ids + seq![i.id]);
            crate::rows::lemma_item_rows_ids(s, f, e, i);
            assert forall|j: int| 0 <= j < blk.len() implies (#[trigger] blk[j]).set_id == Some(
                e.id,
            ) && blk[j].item_id == Some(i.id) by {}
            // the new item's id is fresh: earlier matching items are earlier
            // rows, and item ids are unique
            assert(!prev_ids.contains(i.id)) by {
                if prev_ids.contains(i.id) {
                    let j = choose|j: int|
                        0 <= j < n - 1 && (#[trigger] s.items[j]).id == i.id;
                    assert(s.items[j].id != s.items[n - 1].id);
                }
            }
            crate::materialize::lemma_mat_acc_concat(
                Seq::<crate::materialize::MatSetV>::empty(),
                prev,
                blk,
            );
            if prev.len() == 0 {
                assert(prev =~= Seq::<crate::short::RowV>::empty());
                assert(crate::materialize::mat(entry_rows_rec(s, f, e, n))
                    == crate::materialize::mat(blk)) by {
                    assert(prev + blk =~= blk);
                }
                crate::materialize::lemma_mat_block(
                    Seq::<crate::materialize::MatSetV>::empty(),
                    blk,
                    e.id,
                );
                let m0 = crate::materialize::new_mat_set(blk[0]);
                assert(m0.item_ids =~= seq![i.id]);
                assert(crate::materialize::mat_set_wf(m0));
                crate::materialize::lemma_fold_set_item_tail(m0, blk.drop_first(), i.id);
                assert(prev_ids.len() == 0);
                assert(matching_item_ids(s, f, e, n) =~= seq![i.id]);
            } else {
                let m = crate::materialize::mat(prev)[0];
                assert(crate::materialize::mat(prev) =~= seq![m]);
                crate::materialize::lemma_mat_tail(seq![m], blk, e.id);
                assert(seq![m].drop_last() =~= Seq::<crate::materialize::MatSetV>::empty());
                crate::materialize::lemma_fold_set_item_block(m, blk, i.id);
                let folded = crate::materialize::fold_set(m, blk);
                assert(crate::materialize::mat(entry_rows_rec(s, f, e, n)) =~= seq![folded]);
                assert(folded.item_ids =~= matching_item_ids(s, f, e, n));
            }
        }
        assert forall|x: i64|
            matching_item_ids(s, f, e, n).contains(x) implies exists|j: int|
            0 <= j < n && (#[trigger] s.items[j]).id == x by {
            let k = choose|k: int|
                0 <= k < matching_item_ids(s, f, e, n).len() && matching_item_ids(s, f, e, n)[k]
                    == x;
            if k < prev_ids.len() {
                assert(prev_ids[k] == x);
                assert(prev_ids.contains(x));
            } else {
                assert(x == i.id);
                assert(s.items[n - 1].id == x);
            }
        }
        assert(matching_item_ids(s, f, e, n).no_duplicates()) by {
            let cur = matching_item_ids(s, f, e, n);
            assert forall|a: int, b: int| 0 <= a < b < cur.len() implies cur[a] != cur[b] by {
                if b < prev_ids.len() {
                    assert(cur[a] == prev_ids[a] && cur[b] == prev_ids[b]);
                } else if cur.len() > prev_ids.len() {
                    assert(cur[a] == prev_ids[a]);
                    assert(cur[b] == i.id);
                    assert(!prev_ids.contains(i.id) ==> prev_ids[a] != i.id) by {
                        if prev_ids[a] == i.id {
                            assert(prev_ids.contains(i.id));
                        }
                    }
                    assert(!prev_ids.contains(i.id)) by {
                        if prev_ids.contains(i.id) {
                            let j = choose|j: int|
                                0 <= j < n - 1 && (#[trigger] s.items[j]).id == i.id;
                            assert(s.items[j].id != s.items[n - 1].id);
                        }
                    }
                }
            }
        }
    }
}

/// The true item count law: for a matching entry, the recorded
/// pre-truncation count is exactly the number of distinct items that match
/// the filters, however many survive truncation.
pub proof fn lemma_true_count_is_matching_items(s: StoreV, f: FiltersV, id: i64)
    requires
        crate::store::store_wf(s),
        id_matches(s, f, id),
    ensures
        ({
            let e = s.entries[crate::materialize::idx_of_id(crate::rows::entry_ids_of(s), id)];
            let ids = matching_item_ids(s, f, e, s.items.len() as int);
            &&& crate::search::mat_entry(s, f, id).beatmaps.len() == ids.len()
            &&& summary_of(s, f, id).total_beatmaps == ids.len() as usize
            &&& ids.no_duplicates()
            &&& forall|x: i64|
                ids.contains(x) <==> exists|ii: int|
                    0 <= ii < s.items.len() && (#[trigger] s.items[ii]).id == x
                        && crate::store::item_matches(s, f, e, s.items[ii])
        }),
{
    crate::rows::lemma_matching_entry_rows_nonempty(s, f, id);
    let k = crate::materialize::idx_of_id(crate::rows::entry_ids_of(s), id);
    let e = s.entries[k];
    let n = s.items.len() as int;
    lemma_mat_entry_rec(s, f, e, n);
    let m = crate::materialize::mat(entry_rows(s, f, id));
    assert(entry_rows(s, f, id) == entry_rows_rec(s, f, e, n));
    assert(m[0].set.beatmaps.len() == m[0].item_ids.len());
    assert forall|x: i64|
        matching_item_ids(s, f, e, n).contains(x) implies exists|ii: int|
        0 <= ii < s.items.len() && (#[trigger] s.items[ii]).id == x && crate::store::item_matches(
        s,
        f,
        e,
        s.items[ii],
    ) by {
        lemma_matching_item_ids_member(s, f, e, n, x);
    }
    assert forall|x: i64|
        (exists|ii: int|
            0 <= ii < s.items.len() && (#[trigger] s.items[ii]).id == x
                && crate::store::item_matches(s, f, e, s.items[ii])) implies matching_item_ids(
        s,
        f,
        e,
        n,
    ).contains(x) by {
        let ii = choose|ii: int|
            0 <= ii < s.items.len() && (#[trigger] s.items[ii]).id == x
                && crate::store::item_matches(s, f, e, s.items[ii]);
        lemma_matching_item_ids_covers(s, f, e, n, ii);
    }
}

/// A member of the matching-item list is the id of a matching item.
proof fn lemma_matching_item_ids_member(s: StoreV, f: FiltersV, e: EntryRecV, n: int, x: i64)
    requires
        matching_item_ids(s, f, e, n).contains(x),
    ensures
        exists|ii: int|
            0 <= ii < n && (#[trigger] s.items[ii]).id == x && crate::store::item_matches(
                s,
                f,
                e,
                s.items[ii],
            ),
    decreases n,
{
    if n > 0 {
        let prev = matching_item_ids(s, f, e, n - 1);
        let cur = matching_item_ids(s, f, e, n);
        let k = choose|k: int| 0 <= k < cur.len() && cur[k] == x;
        if k < prev.len() {
            assert(prev[k] == x);
            assert(prev.contains(x));
            lemma_matching_item_ids_member(s, f, e, n - 1, x);
        } else {
            assert(crate::store::item_matches(s, f, e, s.items[n - 1]));
            assert(s.items[n - 1].id == x);
        }
    }
}

/// A matching item's id is in the matching-item list.
proof fn lemma_matching_item_ids_covers(s: StoreV, f: FiltersV, e: EntryRecV, n: int, ii: int)
    requires
        0 <= ii < n,
        crate::store::item_matches(s, f, e, s.items[ii]),
    ensures
        matching_item_ids(s, f, e, n).contains(s.items[ii].id),
    decreases n,
{
    if ii == n - 1 {
        let cur = matching_item_ids(s, f, e, n);
        assert(cur[cur.len() - 1] == s.items[ii].id);
    } else {
        lemma_matching_item_ids_covers(s, f, e, n - 1, ii);
        let prev = matching_item_ids(s, f, e, n - 1);
        let cur = matching_item_ids(s, f, e, n);
        let k = choose|k: int| 0 <= k < prev.len() && prev[k] == s.items[ii].id;
        assert(cur[k] == s.items[ii].id);
    }
}

/// A type tag occurs among an item's ratings exactly when a first rating
/// of that type exists.
pub proof fn lemma_first_of_type_exists(rs: Seq<crate::short::RatingV>, t: Seq<char>)
    ensures
        (first_of_type(rs, t) is Some) <==> exists|i: int|
            0 <= i < rs.len() && (#[trigger] rs[i]).rating_type == t,
    decreases rs.len(),
{
    if rs.len() > 0 {
        lemma_first_of_type_exists(rs.drop_first(), t);
        if rs[0].rating_type == t {
        } else {
            assert forall|i: int|
                0 <= i < rs.len() && (#[trigger] rs[i]).rating_type == t implies first_of_type(
                rs,
                t,
            ) is Some by {
                assert(rs.drop_first()[i - 1] == rs[i]);
            }
            if first_of_type(rs, t) is Some {
                let i = choose|i: int|
                    0 <= i < rs.drop_first().len() && (#[trigger] rs.drop_first()[i]).rating_type
                        == t;
                assert(rs[i + 1] == rs.drop_first()[i]);
            }
        }
    }
}

/// The score fallback law: the preferred type's rating when present,
/// otherwise the "osu" rating, otherwise no score — and an item without a
/// score sorts at or below every item.
pub proof fn lemma_score_fallback(b: BeatmapV, t: Seq<char>)
    ensures
        first_of_type(b.ratings, t) is Some ==> score_of(b, t) == first_of_type(b.ratings, t),
        first_of_type(b.ratings, t) is None ==> score_of(b, t) == first_of_type(
            b.ratings,
            "osu"@,
        ),
        score_of(b, t) is None ==> forall|o: Option<i64>| score_le(score_of(b, t), o),
{
}

} // verus!
