//! The search entry points: paginated summary search, the matching-entry
//! count, and bounded random sampling — two phases (candidate ids, then
//! detail rows) folded through the materializer and the representative
//! subset selector.

use vstd::prelude::*;
use crate::candidate::{lemma_matching_ids, matching_entry_ids, matching_ids_spec};
use crate::filters::{Filters, FiltersV};
use crate::materialize::{
    group_beatmapset_rows, idx_of_id, lemma_mat_acc_concat, lemma_mat_block, mat, mat_sets,
    MatSetV,
};
use crate::rows::{
    entry_ids_of, entry_rows, lemma_entry_rows_rec_ids, lemma_matching_entry_rows_nonempty,
    push_entry_rows,
};
use crate::short::{Beatmapset, BeatmapsetV, RowV, SearchRow, row_ok, rows_ok, rows_view};
use crate::store::{EntryRec, Store, StoreV, id_matches, store_wf};
use crate::subset::{preferred_rating_type, preferred_type_of, processed_set, sort_and_limit_beatmaps};

verus! {

/// The materialized (pre-truncation) catalog entry for a matching id: the
/// single entry that its detail rows fold to.
pub open spec fn mat_entry(s: StoreV, f: FiltersV, id: i64) -> BeatmapsetV {
    mat(entry_rows(s, f, id))[0].set
}

/// The summary a search returns for a matching id: its materialized entry
/// after the representative subset selector.
pub open spec fn summary_of(s: StoreV, f: FiltersV, id: i64) -> BeatmapsetV {
    processed_set(mat_entry(s, f, id), preferred_type_of(f))
}

/// The candidate ids of the requested page: the slice of the ascending
/// distinct matching ids at `page * per_page`, at most `per_page` long.
pub open spec fn page_ids(s: StoreV, f: FiltersV) -> Seq<i64> {
    let all = matching_ids_spec(s, f);
    let pp = f.per_page_or_default() as int;
    let lo = f.page_or_default() as int * pp;
    if lo >= all.len() {
        seq![]
    } else if lo + pp <= all.len() {
        all.subrange(lo, lo + pp)
    } else {
        all.subrange(lo, all.len() as int)
    }
}

/// Find the first entry row with the given id.
fn find_entry_by_id(store: &Store, id: i64) -> (r: Option<&EntryRec>)
    ensures
        match r {
            Some(e) => idx_of_id(entry_ids_of(store@), id) != -1 && e@ == store@.entries[idx_of_id(
                entry_ids_of(store@),
                id,
            )],
            None => idx_of_id(entry_ids_of(store@), id) == -1,
        },
{
    let ghost ids = entry_ids_of(store@);
    proof {
        crate::materialize::lemma_idx_of_id(ids, id);
    }
    let mut i: usize = 0;
    while i < store.entries.len()
        invariant
            i <= store.entries@.len(),
            ids == entry_ids_of(store@),
            ids.len() == store.entries@.len(),
            forall|j: int| 0 <= j < i ==> ids[j] != id,
        decreases store.entries@.len() - i,
    {
        let e = &store.entries[i];
        proof {
            assert(ids[i as int] == store@.entries[i as int].id);
            assert(store@.entries[i as int] == e@);
        }
        if e.id == id {
            proof {
                crate::materialize::lemma_idx_of_id(ids, id);
            }
            return Some(e);
        }
        i = i + 1;
    }
    proof {
        crate::materialize::lemma_idx_of_id(ids, id);
    }
    None
}

/// Phase two for a list of distinct matching candidate ids: fetch each
/// one's detail rows, materialize the flat row run into nested entries,
/// and apply the representative subset selector.  Returns one summary per
/// candidate, in the candidates' order.
pub fn assemble_summaries(store: &Store, filters: &Filters, ids: &Vec<i64>) -> (r: Vec<Beatmapset>)
    requires
        store_wf(store@),
        ids@.no_duplicates(),
        forall|k: int| 0 <= k < ids@.len() ==> id_matches(store@, filters@, #[trigger] ids@[k]),
    ensures
        r@.len() == ids@.len(),
        forall|k: int|
            0 <= k < ids@.len() ==> (#[trigger] r@[k])@ == summary_of(store@, filters@, ids@[k]),
{
    let ghost sv = store@;
    let ghost fv = filters@;
    let mut rows: Vec<SearchRow> = Vec::new();
    let mut k: usize = 0;
    while k < ids.len()
        invariant
            k <= ids@.len(),
            sv == store@,
            fv == filters@,
            store_wf(sv),
            ids@.no_duplicates(),
            forall|j: int| 0 <= j < ids@.len() ==> id_matches(sv, fv, #[trigger] ids@[j]),
            rows_ok(rows_view(rows@)),
            mat(rows_view(rows@)).len() == k,
            forall|j: int|
                0 <= j < k ==> #[trigger] mat(rows_view(rows@))[j] == mat(
                    entry_rows(sv, fv, ids@[j]),
                )[0] && mat(rows_view(rows@))[j].id == ids@[j],
        decreases ids@.len() - k,
    {
        let id = ids[k];
        proof {
            lemma_matching_entry_rows_nonempty(sv, fv, id);
        }
        let e = match find_entry_by_id(store, id) {
            Some(e) => e,
            None => {
                proof {
                    assert(false);
                }
                unreached()
            },
        };
        let ghost pre = rows_view(rows@);
        let ghost block = entry_rows(sv, fv, id);
        proof {
            assert(e@ == sv.entries[idx_of_id(entry_ids_of(sv), id)]);
            assert(e@.id == id) by {
                crate::materialize::lemma_idx_of_id(entry_ids_of(sv), id);
            }
        }
        push_entry_rows(store, filters, e, &mut rows);
        proof {
            assert(block == crate::rows::entry_rows_rec(sv, fv, e@, sv.items.len() as int));
            assert(rows_view(rows@) == pre + block);
            lemma_entry_rows_rec_ids(sv, fv, e@, sv.items.len() as int);
            assert forall|j: int| 0 <= j < block.len() implies (#[trigger] block[j]).set_id
                == Some(id) && row_ok(block[j]) by {}
            assert(rows_ok(rows_view(rows@)));
            // the new block's id is fresh among the accumulated entries
            assert forall|j: int| 0 <= j < mat(pre).len() implies (#[trigger] mat(pre)[j]).id
                != id by {
                assert(mat(pre)[j].id == ids@[j]);
                assert(ids@[j] != ids@[k as int]);
            }
            lemma_mat_acc_concat(Seq::<MatSetV>::empty(), pre, block);
            lemma_mat_block(mat(pre), block, id);
            assert(mat(rows_view(rows@)) == mat(pre) + mat(block));
            assert forall|j: int|
                0 <= j < k + 1 implies #[trigger] mat(rows_view(rows@))[j] == mat(
                    entry_rows(sv, fv, ids@[j]),
                )[0] && mat(rows_view(rows@))[j].id == ids@[j] by {
                if j < k {
                    assert(mat(rows_view(rows@))[j] == mat(pre)[j]);
                } else {
                    assert(mat(rows_view(rows@))[j] == mat(block)[0]);
                }
            }
        }
        k = k + 1;
    }
    let mut sets = match group_beatmapset_rows(&rows) {
        Ok(sets) => sets,
        Err(_) => {
            proof {
                assert(false);
            }
            unreached()
        },
    };
    let ghost before = sets@.map_values(|s: Beatmapset| s@);
    proof {
        assert(before == mat_sets(rows_view(rows@)));
        assert(before.len() == ids@.len());
        assert forall|j: int| 0 <= j < ids@.len() implies before[j] == mat_entry(
            sv,
            fv,
            ids@[j],
        ) by {
            assert(mat(rows_view(rows@))[j].set == mat(entry_rows(sv, fv, ids@[j]))[0].set);
        }
    }
    let t = preferred_rating_type(filters);
    sort_and_limit_beatmaps(&mut sets, t);
    proof {
        assert forall|j: int| 0 <= j < ids@.len() implies (#[trigger] sets@[j])@ == summary_of(
            sv,
            fv,
            ids@[j],
        ) by {
            assert(sets@[j]@ == processed_set(before[j], t@));
        }
    }
    sets
}

/// Count the distinct matching entries.  The result never depends on the
/// pagination fields: the candidate computation reads only the facets.
pub fn count_with_filters(store: &Store, filters: &Filters) -> (r: usize)
    ensures
        r == matching_ids_spec(store@, filters@).len(),
{
    let ids = matching_entry_ids(store, filters);
    ids.len()
}

/// One step of a xorshift pseudo-random walk over the sample seed.
fn xorshift(x: u64) -> u64 {
    let a = x ^ (x << 13u64);
    let b = a ^ (a >> 7u64);
    b ^ (b << 17u64)
}

/// Swapping two positions leaves a sequence's multiset unchanged.
proof fn lemma_swap_multiset(s: Seq<i64>, i: int, j: int)
    requires
        0 <= i < s.len(),
        0 <= j < s.len(),
    ensures
        s.update(i, s[j]).update(j, s[i]).to_multiset() == s.to_multiset(),
{
    broadcast use vstd::seq_lib::group_to_multiset_ensures;
    broadcast use vstd::multiset::group_multiset_axioms;

    if i == j {
        assert(s.update(i, s[i]).update(i, s[i]) =~= s);
    } else {
        let u = s.update(i, s[j]);
        let w = u.update(j, s[i]);
        assert(u.to_multiset() == s.to_multiset().insert(s[j]).remove(s[i]));
        assert(u[j] == s[j]);
        assert(w.to_multiset() == u.to_multiset().insert(s[i]).remove(s[j]));
        assert(s.to_multiset().contains(s[i]));
        assert(s.to_multiset().contains(s[j]));
        assert(w.to_multiset() =~= s.to_multiset());
    }
}

/// Permute the candidate ids, driven by the seed: the contents are kept,
/// only the order changes.
fn shuffle_ids(v: &mut Vec<i64>, seed: u64)
    ensures
        final(v)@.len() == old(v)@.len(),
        final(v)@.to_multiset() == old(v)@.to_multiset(),
{
    let mut state = seed;
    let mut i = v.len();
    while i > 1
        invariant
            i <= v@.len(),
            v@.len() == old(v)@.len(),
            v@.to_multiset() == old(v)@.to_multiset(),
        decreases i,
    {
        state = xorshift(state);
        let j = (state % (i as u64)) as usize;
        proof {
            assert(j < i);
        }
        let a = v[i - 1];
        let b = v[j];
        let ghost sv = v@;
        v.set(i - 1, b);
        v.set(j, a);
        proof {
            assert(v@ == sv.update(i - 1, sv[j as int]).update(j as int, sv[i - 1]));
            lemma_swap_multiset(sv, i - 1, j as int);
        }
        i = i - 1;
    }
}

/// Random sampling: up to nine distinct matching entries, chosen from the
/// full candidate set by a seed-driven permutation, each carried through
/// the same detail, materialization, and subset-selection pipeline as the
/// paginated search.  Every returned summary belongs to a matching entry,
/// and no entry appears twice; which entries come back, and in what order,
/// depends on the seed.
pub fn find_random_with_filters(store: &Store, filters: &Filters, seed: u64) -> (r: Vec<Beatmapset>)
    requires
        store_wf(store@),
    ensures
        r@.len() == if matching_ids_spec(store@, filters@).len() <= 9 {
            matching_ids_spec(store@, filters@).len()
        } else {
            9
        },
        exists|picked: Seq<i64>|
            #![auto]
            picked.no_duplicates() && picked.len() == r@.len() && (forall|k: int|
                0 <= k < picked.len() ==> id_matches(store@, filters@, picked[k]) && r@[k]@
                    == summary_of(store@, filters@, picked[k])),
{
    let ghost sv = store@;
    let ghost fv = filters@;
    let ghost all = matching_ids_spec(sv, fv);
    proof {
        lemma_matching_ids(sv, fv);
    }
    let mut ids = matching_entry_ids(store, filters);
    shuffle_ids(&mut ids, seed);
    let ghost shuffled = ids@;
    if ids.len() > 9 {
        ids.truncate(9);
        proof {
            assert(ids@ == shuffled.subrange(0, 9));
        }
    }
    proof {
        broadcast use vstd::seq_lib::group_to_multiset_ensures;

        assert(all.no_duplicates()) by {
            assert forall|a: int, b: int|
                0 <= a < b < all.len() implies all[a] != all[b] by {}
        }
        all.lemma_multiset_has_no_duplicates();
        assert forall|x: i64| shuffled.to_multiset().contains(x) implies shuffled.to_multiset().count(
            x,
        ) == 1 by {}
        shuffled.lemma_multiset_has_no_duplicates_conv();
        assert(ids@.no_duplicates()) by {
            assert forall|a: int, b: int| 0 <= a < b < ids@.len() implies ids@[a] != ids@[b] by {
                assert(ids@[a] == shuffled[a]);
                assert(ids@[b] == shuffled[b]);
            }
        }
        assert forall|k: int| 0 <= k < ids@.len() implies id_matches(sv, fv, #[trigger] ids@[k]) by {
            assert(ids@[k] == shuffled[k]);
            assert(shuffled.contains(shuffled[k]));
            assert(shuffled.to_multiset().contains(shuffled[k]));
            assert(all.to_multiset().contains(shuffled[k]));
            assert(all.contains(shuffled[k]));
        }
    }
    let r = assemble_summaries(store, filters, &ids);
    proof {
        let picked = ids@;
        assert(picked.no_duplicates() && picked.len() == r@.len() && (forall|k: int|
            0 <= k < picked.len() ==> id_matches(store@, filters@, picked[k]) && r@[k]@
                == summary_of(store@, filters@, picked[k])));
    }
    r
}

/// Paginated summary search: select the requested page of the ascending
/// distinct matching entry ids, fetch and materialize their detail rows,
/// and bound each entry's item list, recording its true item count.
/// Returns one summary per candidate on the page, in ascending entry-id
/// order.
pub fn find_all_with_filters(store: &Store, filters: &Filters) -> (r: Vec<Beatmapset>)
    requires
        store_wf(store@),
        filters@.page_or_default() * filters@.per_page_or_default() <= usize::MAX,
    ensures
        r@.len() == page_ids(store@, filters@).len(),
        forall|k: int|
            0 <= k < r@.len() ==> (#[trigger] r@[k])@ == summary_of(
                store@,
                filters@,
                page_ids(store@, filters@)[k],
            ),
{
    let ghost sv = store@;
    let ghost fv = filters@;
    let ghost all = matching_ids_spec(sv, fv);
    proof {
        lemma_matching_ids(sv, fv);
    }
    let ids = matching_entry_ids(store, filters);
    let page = match filters.page {
        Some(p) => p,
        None => 0,
    };
    let per_page = match filters.per_page {
        Some(p) => p,
        None => 9,
    };
    let offset = page * per_page;
    if offset >= ids.len() {
        proof {
            assert(page_ids(sv, fv) =~= Seq::<i64>::empty());
        }
        return Vec::new();
    }
    let hi = if per_page > ids.len() - offset {
        ids.len()
    } else {
        offset + per_page
    };
    let ghost pids = page_ids(sv, fv);
    proof {
        assert(pids == all.subrange(offset as int, hi as int));
    }
    let mut picked: Vec<i64> = Vec::new();
    let mut k = offset;
    while k < hi
        invariant
            offset <= k <= hi <= ids@.len(),
            ids@ == all,
            picked@ == all.subrange(offset as int, k as int),
        decreases hi - k,
    {
        picked.push(ids[k]);
        proof {
            assert(picked@ =~= all.subrange(offset as int, k as int + 1));
        }
        k = k + 1;
    }
    proof {
        assert(picked@ == pids);
        assert(picked@.no_duplicates()) by {
            assert forall|a: int, b: int|
                0 <= a < b < picked@.len() implies picked@[a] != picked@[b] by {
                assert(picked@[a] == all[offset + a]);
                assert(picked@[b] == all[offset + b]);
            }
        }
        assert forall|j: int| 0 <= j < picked@.len() implies id_matches(
            sv,
            fv,
            #[trigger] picked@[j],
        ) by {
            assert(picked@[j] == all[offset + j]);
            assert(all.contains(all[offset + j]));
        }
    }
    assemble_summaries(store, filters, &picked)
}

} // verus!
