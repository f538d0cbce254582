//! The candidate selector: the distinct set of matching entry identifiers,
//! in ascending order, shared by the count, paginated, and random-sample
//! paths.

use vstd::prelude::*;
use crate::filters::{Filters, FiltersV};
use crate::store::{Store, StoreV, entry_matches, id_matches, entry_matches_exec, same_facets};

verus! {

/// Strictly ascending: sorted and duplicate-free.
pub open spec fn strictly_sorted(s: Seq<i64>) -> bool {
    forall|i: int, j: int| 0 <= i < j < s.len() ==> s[i] < s[j]
}

/// Insert an id into an ascending duplicate-free list, keeping it so.
pub open spec fn ids_insert(id: i64, s: Seq<i64>) -> Seq<i64>
    decreases s.len(),
{
    if s.len() == 0 {
        seq![id]
    } else if s[0] < id {
        seq![s[0]] + ids_insert(id, s.drop_first())
    } else if s[0] == id {
        s
    } else {
        seq![id] + s
    }
}

/// The insertion position: past the leading run of smaller ids.
pub open spec fn ids_pos(id: i64, s: Seq<i64>) -> int
    decreases s.len(),
{
    if s.len() == 0 {
        0
    } else if s[0] < id {
        1 + ids_pos(id, s.drop_first())
    } else {
        0
    }
}

/// Insertion splits the list at the insertion position, or leaves it alone
/// when the id is already there.
pub proof fn lemma_ids_insert_split(id: i64, s: Seq<i64>)
    ensures
        0 <= ids_pos(id, s) <= s.len(),
        forall|j: int| 0 <= j < ids_pos(id, s) ==> s[j] < id,
        ids_pos(id, s) < s.len() ==> !(s[ids_pos(id, s)] < id),
        ids_pos(id, s) < s.len() && s[ids_pos(id, s)] == id ==> ids_insert(id, s) == s,
        !(ids_pos(id, s) < s.len() && s[ids_pos(id, s)] == id) ==> ids_insert(id, s) == s.take(
            ids_pos(id, s),
        ) + seq![id] + s.skip(ids_pos(id, s)),
    decreases s.len(),
{
    if s.len() == 0 {
        assert(ids_insert(id, s) =~= s.take(0) + seq![id] + s.skip(0));
    } else if s[0] < id {
        let rest = s.drop_first();
        lemma_ids_insert_split(id, rest);
        let p = ids_pos(id, rest);
        assert forall|j: int| 0 <= j < ids_pos(id, s) implies s[j] < id by {
            if j > 0 {
                assert(s[j] == rest[j - 1]);
            }
        }
        if p < rest.len() {
            assert(s[p + 1] == rest[p]);
        }
        if p < rest.len() && rest[p] == id {
            assert(ids_insert(id, s) =~= s);
        } else {
            assert(s.take(p + 1) =~= seq![s[0]] + rest.take(p));
            assert(s.skip(p + 1) =~= rest.skip(p));
            assert(ids_insert(id, s) =~= s.take(p + 1) + seq![id] + s.skip(p + 1));
        }
    } else {
        if s[0] == id {
        } else {
            assert(ids_insert(id, s) =~= s.take(0) + seq![id] + s.skip(0));
        }
    }
}

/// Insertion keeps the list ascending and duplicate-free, and its element
/// set gains exactly the inserted id.
pub proof fn lemma_ids_insert(id: i64, s: Seq<i64>)
    requires
        strictly_sorted(s),
    ensures
        strictly_sorted(ids_insert(id, s)),
        forall|x: i64| ids_insert(id, s).contains(x) <==> (x == id || s.contains(x)),
        s.contains(id) ==> ids_insert(id, s) == s,
        !s.contains(id) ==> ids_insert(id, s).len() == s.len() + 1,
{
    lemma_ids_insert_split(id, s);
    let p = ids_pos(id, s);
    let r = ids_insert(id, s);
    if p < s.len() && s[p] == id {
        assert(s.contains(id));
        assert forall|x: i64| r.contains(x) implies (x == id || s.contains(x)) by {}
    } else {
        // the id is absent: everything left of p is below it, everything at
        // or right of p is above it
        assert(r == s.take(p) + seq![id] + s.skip(p));
        assert forall|j: int| p <= j < s.len() implies id < #[trigger] s[j] by {
            if j > p {
                assert(s[p] < s[j]);
            }
        }
        if s.contains(id) {
            let i = choose|i: int| 0 <= i < s.len() && s[i] == id;
            assert(false);
        }
        assert(strictly_sorted(r)) by {
            assert forall|i: int, j: int| 0 <= i < j < r.len() implies r[i] < r[j] by {
                if i < p {
                    assert(r[i] == s[i]);
                } else if i == p {
                    assert(r[i] == id);
                } else {
                    assert(r[i] == s[i - 1]);
                }
                if j < p {
                    assert(r[j] == s[j]);
                } else if j == p {
                    assert(r[j] == id);
                } else {
                    assert(r[j] == s[j - 1]);
                }
            }
        }
        assert forall|x: i64| r.contains(x) implies (x == id || s.contains(x)) by {
            let i = choose|i: int| 0 <= i < r.len() && r[i] == x;
            if i < p {
                assert(s[i] == x);
            } else if i == p {
            } else {
                assert(s[i - 1] == x);
            }
        }
        assert forall|x: i64| (x == id || s.contains(x)) implies r.contains(x) by {
            if x == id {
                assert(r[p] == x);
            } else {
                let i = choose|i: int| 0 <= i < s.len() && s[i] == x;
                if i < p {
                    assert(r[i] == x);
                } else {
                    assert(r[i + 1] == x);
                }
            }
        }
    }
}

/// The matching ids among the first `n` entry rows, ascending and
/// duplicate-free.
pub open spec fn matching_ids_rec(s: StoreV, f: FiltersV, n: int) -> Seq<i64>
    decreases n,
{
    if n <= 0 {
        seq![]
    } else {
        let prev = matching_ids_rec(s, f, n - 1);
        if entry_matches(s, f, s.entries[n - 1]) {
            ids_insert(s.entries[n - 1].id, prev)
        } else {
            prev
        }
    }
}

/// The distinct matching entry ids, in ascending order.
pub open spec fn matching_ids_spec(s: StoreV, f: FiltersV) -> Seq<i64> {
    matching_ids_rec(s, f, s.entries.len() as int)
}

/// The candidate list is ascending, duplicate-free, and holds exactly the
/// ids of the first `n` entries that match.
pub proof fn lemma_matching_ids_rec(s: StoreV, f: FiltersV, n: int)
    requires
        0 <= n <= s.entries.len(),
    ensures
        strictly_sorted(matching_ids_rec(s, f, n)),
        forall|x: i64|
            matching_ids_rec(s, f, n).contains(x) <==> exists|ei: int|
                0 <= ei < n && (#[trigger] s.entries[ei]).id == x && entry_matches(s, f, s.entries[ei]),
    decreases n,
{
    if n > 0 {
        lemma_matching_ids_rec(s, f, n - 1);
        let prev = matching_ids_rec(s, f, n - 1);
        if entry_matches(s, f, s.entries[n - 1]) {
            lemma_ids_insert(s.entries[n - 1].id, prev);
        }
        assert forall|x: i64| matching_ids_rec(s, f, n).contains(x) implies exists|ei: int|
            0 <= ei < n && (#[trigger] s.entries[ei]).id == x && entry_matches(s, f, s.entries[ei]) by {
            if prev.contains(x) {
                let ei = choose|ei: int|
                    0 <= ei < n - 1 && (#[trigger] s.entries[ei]).id == x && entry_matches(
                        s,
                        f,
                        s.entries[ei],
                    );
                assert(0 <= ei < n && s.entries[ei].id == x && entry_matches(s, f, s.entries[ei]));
            } else {
                assert(entry_matches(s, f, s.entries[n - 1]) && s.entries[n - 1].id == x);
            }
        }
        assert forall|x: i64| (exists|ei: int|
            0 <= ei < n && (#[trigger] s.entries[ei]).id == x && entry_matches(s, f, s.entries[ei]))
            implies matching_ids_rec(s, f, n).contains(x) by {
            let ei = choose|ei: int|
                0 <= ei < n && (#[trigger] s.entries[ei]).id == x && entry_matches(
                    s,
                    f,
                    s.entries[ei],
                );
            if ei < n - 1 {
                assert(prev.contains(x));
            }
        }
    }
}

/// The candidate list is ascending, duplicate-free, and holds exactly the
/// matching ids.
pub proof fn lemma_matching_ids(s: StoreV, f: FiltersV)
    ensures
        strictly_sorted(matching_ids_spec(s, f)),
        forall|x: i64| matching_ids_spec(s, f).contains(x) <==> id_matches(s, f, x),
{
    lemma_matching_ids_rec(s, f, s.entries.len() as int);
}

/// Insert an id into an ascending duplicate-free vector.
fn insert_id_sorted(v: &mut Vec<i64>, id: i64)
    ensures
        final(v)@ == ids_insert(id, old(v)@),
{
    let ghost s = v@;
    proof {
        lemma_ids_insert_split(id, s);
    }
    let mut idx: usize = 0;
    while idx < v.len() && v[idx] < id
        invariant
            idx <= v@.len(),
            s == v@,
            forall|j: int| 0 <= j < idx ==> s[j] < id,
        decreases v@.len() - idx,
    {
        idx = idx + 1;
    }
    proof {
        lemma_ids_insert_split(id, s);
        let p = ids_pos(id, s);
        if p < idx {
            assert(s[p] < id);
        }
        if idx < p {
            assert(s[idx as int] < id);
        }
        assert(p == idx);
    }
    if idx < v.len() && v[idx] == id {
        return ;
    }
    v.insert(idx, id);
    proof {
        assert(v@ =~= s.take(idx as int) + seq![id] + s.skip(idx as int));
    }
}

/// Compute the distinct matching entry ids, ascending: phase one of the
/// search, shared by the count, paginated, and random-sample paths.
pub fn matching_entry_ids(store: &Store, filters: &Filters) -> (r: Vec<i64>)
    ensures
        r@ == matching_ids_spec(store@, filters@),
{
    let ghost sv = store@;
    let mut r: Vec<i64> = Vec::new();
    let mut i: usize = 0;
    while i < store.entries.len()
        invariant
            i <= store.entries@.len(),
            sv == store@,
            sv.entries.len() == store.entries@.len(),
            r@ == matching_ids_rec(sv, filters@, i as int),
        decreases store.entries@.len() - i,
    {
        let e = &store.entries[i];
        proof {
            assert(sv.entries[i as int] == e@);
        }
        if entry_matches_exec(store, filters, e) {
            insert_id_sorted(&mut r, e.id);
        }
        i = i + 1;
    }
    r
}

/// The matching predicate never reads the pagination fields: filters that
/// agree on every facet select the same candidates.
pub proof fn lemma_matching_ids_facets(s: StoreV, f1: FiltersV, f2: FiltersV)
    requires
        same_facets(f1, f2),
    ensures
        matching_ids_spec(s, f1) == matching_ids_spec(s, f2),
{
    lemma_matching_ids_rec_facets(s, f1, f2, s.entries.len() as int);
}

/// One direction of entry-match transfer between facet-equal filters.
proof fn lemma_entry_matches_facets_one(s: StoreV, f1: FiltersV, f2: FiltersV, e: crate::store::EntryRecV)
    requires
        same_facets(f1, f2),
        entry_matches(s, f1, e),
    ensures
        entry_matches(s, f2, e),
{
    let ii = choose|ii: int|
        0 <= ii < s.items.len() && crate::store::item_matches(s, f1, e, #[trigger] s.items[ii]);
    let i = s.items[ii];
    let vi = choose|vi: int| crate::store::variant_witness(s, f1, e, i, vi);
    assert(crate::store::base_ok(f2, e, i, s.variants[vi]));
    if crate::store::needs_rating_join(f2) {
        assert(crate::store::needs_rating_join(f1));
        let ri = choose|ri: int| crate::store::rating_witness(f1, s, s.variants[vi].id, ri);
        assert(crate::store::rating_witness(f2, s, s.variants[vi].id, ri));
    }
    assert(crate::store::variant_witness(s, f2, e, i, vi));
    assert(crate::store::item_matches(s, f2, e, s.items[ii]));
}

/// Entry matching agrees between facet-equal filters.
pub proof fn lemma_entry_matches_facets(s: StoreV, f1: FiltersV, f2: FiltersV, e: crate::store::EntryRecV)
    requires
        same_facets(f1, f2),
    ensures
        entry_matches(s, f1, e) == entry_matches(s, f2, e),
{
    if entry_matches(s, f1, e) {
        lemma_entry_matches_facets_one(s, f1, f2, e);
    }
    if entry_matches(s, f2, e) {
        lemma_entry_matches_facets_one(s, f2, f1, e);
    }
}

/// Candidate computation agrees between facet-equal filters, prefix by
/// prefix.
proof fn lemma_matching_ids_rec_facets(s: StoreV, f1: FiltersV, f2: FiltersV, n: int)
    requires
        same_facets(f1, f2),
    ensures
        matching_ids_rec(s, f1, n) == matching_ids_rec(s, f2, n),
    decreases n,
{
    if n > 0 {
        lemma_matching_ids_rec_facets(s, f1, f2, n - 1);
        lemma_entry_matches_facets(s, f1, f2, s.entries[n - 1]);
    }
}

} // verus!
