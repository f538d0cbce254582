//! The tree materializer: folds a flat joined row sequence into nested
//! catalog entries, keyed by identity, merging repeated rows instead of
//! duplicating children.

use vstd::prelude::*;
use crate::short::{
    Beatmap, BeatmapV, Beatmapset, BeatmapsetV, MaterializeError, Rating, RatingV, RowV, SearchRow,
    row_ok, rows_ok, rows_view,
};

verus! {

/// A catalog entry under construction, carrying the identity keys that the
/// public summary type does not expose: the entry id and, per item, the
/// item id (parallel to `set.beatmaps`).
pub struct MatSet {
    pub id: i64,
    pub item_ids: Vec<i64>,
    pub set: Beatmapset,
}

/// Mathematical view of an entry under construction.
#[verifier::ext_equal]
pub struct MatSetV {
    pub id: i64,
    pub item_ids: Seq<i64>,
    pub set: BeatmapsetV,
}

impl View for MatSet {
    type V = MatSetV;

    open spec fn view(&self) -> MatSetV {
        MatSetV { id: self.id, item_ids: self.item_ids@, set: self.set@ }
    }
}

/// The first index at which `id` occurs, or -1 when absent.
pub open spec fn idx_of_id(ids: Seq<i64>, id: i64) -> int
    decreases ids.len(),
{
    if ids.len() == 0 {
        -1
    } else if ids[0] == id {
        0
    } else {
        let r = idx_of_id(ids.drop_first(), id);
        if r == -1 {
            -1
        } else {
            r + 1
        }
    }
}

/// The index found by `idx_of_id` is the first occurrence, and -1 means
/// the id is absent.
pub proof fn lemma_idx_of_id(ids: Seq<i64>, id: i64)
    ensures
        idx_of_id(ids, id) == -1 ==> forall|i: int| 0 <= i < ids.len() ==> ids[i] != id,
        idx_of_id(ids, id) != -1 ==> {
            let k = idx_of_id(ids, id);
            &&& 0 <= k < ids.len()
            &&& ids[k] == id
            &&& forall|i: int| 0 <= i < k ==> ids[i] != id
        },
    decreases ids.len(),
{
    if ids.len() == 0 {
    } else if ids[0] == id {
    } else {
        let rest = ids.drop_first();
        lemma_idx_of_id(rest, id);
        let r = idx_of_id(rest, id);
        if r == -1 {
            assert forall|i: int| 0 <= i < ids.len() implies ids[i] != id by {
                if i > 0 {
                    assert(ids[i] == rest[i - 1]);
                }
            }
        } else {
            assert(ids[r + 1] == rest[r]);
            assert forall|i: int| 0 <= i < r + 1 implies ids[i] != id by {
                if i > 0 {
                    assert(ids[i] == rest[i - 1]);
                }
            }
        }
    }
}

/// The ids of the entries under construction.
pub open spec fn set_ids(sets: Seq<MatSetV>) -> Seq<i64> {
    sets.map_values(|m: MatSetV| m.id)
}

/// Each entry under construction keeps one item id per item slot.
pub open spec fn mat_set_wf(m: MatSetV) -> bool {
    m.item_ids.len() == m.set.beatmaps.len()
}

/// All accumulated entries are well-formed.
pub open spec fn sets_wf(sets: Seq<MatSetV>) -> bool {
    forall|i: int| 0 <= i < sets.len() ==> mat_set_wf(#[trigger] sets[i])
}

/// A fresh item from a row: first-seen row supplies the item-level fields;
/// no ratings yet.
pub open spec fn new_item(r: RowV) -> BeatmapV {
    BeatmapV {
        osu_id: r.item_osu_id,
        difficulty: r.difficulty,
        mode: r.mode,
        status: r.status,
        main_pattern: r.main_pattern,
        ratings: seq![],
    }
}

/// Append the row's rating to an item, when the row carries one; rows with
/// null rating data contribute nothing.
pub open spec fn add_rating(b: BeatmapV, r: RowV) -> BeatmapV {
    match r.rating {
        Some(rr) => BeatmapV {
            ratings: b.ratings.push(RatingV { rating: rr.rating, rating_type: rr.rating_type }),
            ..b
        },
        None => b,
    }
}

/// A fresh entry from a row: first-seen row supplies the entry-level
/// fields; the pre-truncation count is filled in later.
pub open spec fn new_mat_set(r: RowV) -> MatSetV {
    MatSetV {
        id: r.set_id->0,
        item_ids: seq![r.item_id->0],
        set: BeatmapsetV {
            osu_id: r.set_osu_id,
            artist: r.artist,
            title: r.title,
            creator: r.creator,
            cover_url: r.cover_url,
            total_beatmaps: 0,
            beatmaps: seq![add_rating(new_item(r), r)],
        },
    }
}

/// Merge a row into an existing entry: look up or create the item by id,
/// then append the row's rating to it.
pub open spec fn add_row_to_set(m: MatSetV, r: RowV) -> MatSetV {
    let k = idx_of_id(m.item_ids, r.item_id->0);
    if k == -1 {
        MatSetV {
            id: m.id,
            item_ids: m.item_ids.push(r.item_id->0),
            set: BeatmapsetV {
                beatmaps: m.set.beatmaps.push(add_rating(new_item(r), r)),
                ..m.set
            },
        }
    } else {
        MatSetV {
            id: m.id,
            item_ids: m.item_ids,
            set: BeatmapsetV {
                beatmaps: m.set.beatmaps.update(k, add_rating(m.set.beatmaps[k], r)),
                ..m.set
            },
        }
    }
}

/// Merge one row into the accumulated entries: look up or create the entry
/// by id.
pub open spec fn add_row(sets: Seq<MatSetV>, r: RowV) -> Seq<MatSetV> {
    let k = idx_of_id(set_ids(sets), r.set_id->0);
    if k == -1 {
        sets.push(new_mat_set(r))
    } else {
        sets.update(k, add_row_to_set(sets[k], r))
    }
}

/// Fold a row sequence into accumulated entries, left to right.
pub open spec fn mat_acc(sets: Seq<MatSetV>, rows: Seq<RowV>) -> Seq<MatSetV>
    decreases rows.len(),
{
    if rows.len() == 0 {
        sets
    } else {
        mat_acc(add_row(sets, rows[0]), rows.drop_first())
    }
}

/// Materialize a row sequence from scratch.
pub open spec fn mat(rows: Seq<RowV>) -> Seq<MatSetV> {
    mat_acc(seq![], rows)
}

/// Folding is one row at a time: appending a row folds it onto the result.
pub proof fn lemma_mat_acc_snoc(sets: Seq<MatSetV>, rows: Seq<RowV>, r: RowV)
    ensures
        mat_acc(sets, rows.push(r)) == add_row(mat_acc(sets, rows), r),
    decreases rows.len(),
{
    if rows.len() == 0 {
        assert(rows.push(r)[0] == r);
        assert(rows.push(r).drop_first() =~= Seq::<RowV>::empty());
        assert(mat_acc(sets, rows.push(r)) == mat_acc(add_row(sets, r), Seq::<RowV>::empty()));
    } else {
        assert(rows.push(r)[0] == rows[0]);
        assert(rows.push(r).drop_first() =~= rows.drop_first().push(r));
        lemma_mat_acc_snoc(add_row(sets, rows[0]), rows.drop_first(), r);
        assert(mat_acc(sets, rows.push(r)) == mat_acc(add_row(sets, rows[0]), rows.drop_first().push(r)));
        assert(mat_acc(sets, rows) == mat_acc(add_row(sets, rows[0]), rows.drop_first()));
    }
}

/// The summaries of the accumulated entries, in first-seen order.
pub open spec fn mat_sets(rows: Seq<RowV>) -> Seq<BeatmapsetV> {
    mat(rows).map_values(|m: MatSetV| m.set)
}

/// Merge a row sequence into one entry under construction.
pub open spec fn fold_set(m: MatSetV, rows: Seq<RowV>) -> MatSetV
    decreases rows.len(),
{
    if rows.len() == 0 {
        m
    } else {
        fold_set(add_row_to_set(m, rows[0]), rows.drop_first())
    }
}

/// Merging rows never changes an entry's id.
pub proof fn lemma_fold_set_id(m: MatSetV, rows: Seq<RowV>)
    ensures
        fold_set(m, rows).id == m.id,
    decreases rows.len(),
{
    if rows.len() > 0 {
        lemma_fold_set_id(add_row_to_set(m, rows[0]), rows.drop_first());
    }
}

/// Folding distributes over concatenation.
pub proof fn lemma_mat_acc_concat(sets: Seq<MatSetV>, a: Seq<RowV>, b: Seq<RowV>)
    ensures
        mat_acc(sets, a + b) == mat_acc(mat_acc(sets, a), b),
    decreases a.len(),
{
    if a.len() == 0 {
        assert(a + b =~= b);
    } else {
        assert((a + b)[0] == a[0]);
        assert((a + b).drop_first() =~= a.drop_first() + b);
        lemma_mat_acc_concat(add_row(sets, a[0]), a.drop_first(), b);
    }
}

/// Rows that all carry the id of the last accumulated entry merge into
/// that entry and touch nothing else.
pub proof fn lemma_mat_tail(sets: Seq<MatSetV>, rows: Seq<RowV>, id: i64)
    requires
        sets.len() > 0,
        sets.last().id == id,
        forall|j: int| 0 <= j < sets.len() - 1 ==> (#[trigger] sets[j]).id != id,
        forall|j: int| 0 <= j < rows.len() ==> (#[trigger] rows[j]).set_id == Some(id),
    ensures
        mat_acc(sets, rows) == sets.drop_last().push(fold_set(sets.last(), rows)),
    decreases rows.len(),
{
    if rows.len() == 0 {
        assert(sets.drop_last().push(sets.last()) =~= sets);
    } else {
        let ids = set_ids(sets);
        lemma_idx_of_id(ids, id);
        let k = idx_of_id(ids, id);
        assert(ids[sets.len() - 1] == id);
        if k == -1 {
            assert(false);
        }
        assert(ids[k] == id);
        if k < sets.len() - 1 {
            assert(sets[k].id != id);
            assert(false);
        }
        assert(k == sets.len() - 1);
        let m2 = add_row_to_set(sets.last(), rows[0]);
        let sets2 = sets.update(k, m2);
        assert(add_row(sets, rows[0]) == sets2);
        assert(m2.id == id);
        assert(sets2.len() == sets.len());
        assert(sets2.last() == m2);
        assert forall|j: int| 0 <= j < sets2.len() - 1 implies (#[trigger] sets2[j]).id != id by {
            assert(sets2[j] == sets[j]);
        }
        lemma_mat_tail(sets2, rows.drop_first(), id);
        assert(sets2.drop_last() =~= sets.drop_last());
        assert(fold_set(sets.last(), rows) == fold_set(m2, rows.drop_first()));
    }
}

/// Merging one row preserves unique identity keys at both levels.
proof fn lemma_add_row_unique_keys(sets: Seq<MatSetV>, r: RowV)
    requires
        set_ids(sets).no_duplicates(),
        forall|j: int|
            0 <= j < sets.len() ==> (#[trigger] sets[j]).item_ids.no_duplicates() && mat_set_wf(
                sets[j],
            ),
    ensures
        set_ids(add_row(sets, r)).no_duplicates(),
        forall|j: int|
            0 <= j < add_row(sets, r).len() ==> (#[trigger] add_row(sets, r)[j]).item_ids.no_duplicates()
                && mat_set_wf(add_row(sets, r)[j]),
{
    let id = r.set_id->0;
    let ids = set_ids(sets);
    lemma_idx_of_id(ids, id);
    let k = idx_of_id(ids, id);
    if k == -1 {
        let out = sets.push(new_mat_set(r));
        assert(set_ids(out) =~= ids.push(id));
        assert forall|a: int, b: int|
            0 <= a < b < set_ids(out).len() implies set_ids(out)[a] != set_ids(out)[b] by {
            if b < ids.len() {
            } else {
                assert(set_ids(out)[a] == ids[a]);
                assert(set_ids(out)[b] == id);
            }
        }
        assert(new_mat_set(r).item_ids.no_duplicates());
        assert(mat_set_wf(new_mat_set(r)));
        assert forall|j: int|
            0 <= j < out.len() implies (#[trigger] out[j]).item_ids.no_duplicates() && mat_set_wf(
            out[j],
        ) by {
            if j < sets.len() {
                assert(out[j] == sets[j]);
            }
        }
    } else {
        let m = sets[k];
        let m2 = add_row_to_set(m, r);
        let out = sets.update(k, m2);
        assert(m2.id == m.id);
        assert(set_ids(out) =~= ids);
        let iid = r.item_id->0;
        lemma_idx_of_id(m.item_ids, iid);
        let k2 = idx_of_id(m.item_ids, iid);
        if k2 == -1 {
            assert(m2.item_ids == m.item_ids.push(iid));
            assert forall|a: int, b: int|
                0 <= a < b < m2.item_ids.len() implies m2.item_ids[a] != m2.item_ids[b] by {
                if b < m.item_ids.len() {
                } else {
                    assert(m2.item_ids[a] == m.item_ids[a]);
                    assert(m2.item_ids[b] == iid);
                }
            }
        } else {
            assert(m2.item_ids == m.item_ids);
        }
        assert(m2.item_ids.no_duplicates());
        assert(mat_set_wf(m2));
        assert forall|j: int|
            0 <= j < out.len() implies (#[trigger] out[j]).item_ids.no_duplicates() && mat_set_wf(
            out[j],
        ) by {
            if j != k {
                assert(out[j] == sets[j]);
            }
        }
    }
}

/// Folding preserves unique identity keys at both levels.
proof fn lemma_mat_acc_unique_keys(sets: Seq<MatSetV>, rows: Seq<RowV>)
    requires
        set_ids(sets).no_duplicates(),
        forall|j: int|
            0 <= j < sets.len() ==> (#[trigger] sets[j]).item_ids.no_duplicates() && mat_set_wf(
                sets[j],
            ),
    ensures
        set_ids(mat_acc(sets, rows)).no_duplicates(),
        forall|j: int|
            0 <= j < mat_acc(sets, rows).len() ==> (#[trigger] mat_acc(sets, rows)[j]).item_ids.no_duplicates()
                && mat_set_wf(mat_acc(sets, rows)[j]),
    decreases rows.len(),
{
    if rows.len() > 0 {
        lemma_add_row_unique_keys(sets, rows[0]);
        lemma_mat_acc_unique_keys(add_row(sets, rows[0]), rows.drop_first());
    }
}

/// Tree reconstruction never creates two objects for the same identity
/// key: whatever the row sequence, the materialized entries carry distinct
/// entry ids, and each entry's item slots carry distinct item ids, one
/// slot per id.
pub proof fn lemma_mat_unique_keys(rows: Seq<RowV>)
    ensures
        set_ids(mat(rows)).no_duplicates(),
        forall|j: int|
            0 <= j < mat(rows).len() ==> (#[trigger] mat(rows)[j]).item_ids.no_duplicates()
                && mat_set_wf(mat(rows)[j]),
{
    lemma_mat_acc_unique_keys(Seq::<MatSetV>::empty(), rows);
}

/// Rows that all carry the id of the entry's last item slot merge into
/// that slot and leave the item list unchanged.
pub proof fn lemma_fold_set_item_tail(m: MatSetV, rows: Seq<RowV>, iid: i64)
    requires
        mat_set_wf(m),
        m.item_ids.len() > 0,
        m.item_ids.last() == iid,
        forall|j: int| 0 <= j < m.item_ids.len() - 1 ==> m.item_ids[j] != iid,
        forall|j: int| 0 <= j < rows.len() ==> (#[trigger] rows[j]).item_id == Some(iid),
    ensures
        fold_set(m, rows).id == m.id,
        fold_set(m, rows).item_ids == m.item_ids,
        mat_set_wf(fold_set(m, rows)),
    decreases rows.len(),
{
    if rows.len() > 0 {
        lemma_idx_of_id(m.item_ids, iid);
        let k = idx_of_id(m.item_ids, iid);
        if k == -1 {
            assert(false);
        }
        if k < m.item_ids.len() - 1 {
            assert(m.item_ids[k] != iid);
            assert(false);
        }
        let m2 = add_row_to_set(m, rows[0]);
        assert(m2.item_ids == m.item_ids);
        assert(m2.set.beatmaps.len() == m.set.beatmaps.len());
        lemma_fold_set_item_tail(m2, rows.drop_first(), iid);
    }
}

/// A nonempty run of rows that all carry one fresh item id adds exactly
/// one item slot to the entry.
pub proof fn lemma_fold_set_item_block(m: MatSetV, rows: Seq<RowV>, iid: i64)
    requires
        mat_set_wf(m),
        rows.len() > 0,
        !m.item_ids.contains(iid),
        forall|j: int| 0 <= j < rows.len() ==> (#[trigger] rows[j]).item_id == Some(iid),
    ensures
        fold_set(m, rows).id == m.id,
        fold_set(m, rows).item_ids == m.item_ids.push(iid),
        mat_set_wf(fold_set(m, rows)),
{
    lemma_idx_of_id(m.item_ids, iid);
    let k = idx_of_id(m.item_ids, iid);
    if k != -1 {
        assert(m.item_ids[k] == iid);
        assert(m.item_ids.contains(iid));
        assert(false);
    }
    let m2 = add_row_to_set(m, rows[0]);
    assert(m2.item_ids == m.item_ids.push(iid));
    assert(mat_set_wf(m2));
    assert forall|j: int| 0 <= j < m2.item_ids.len() - 1 implies m2.item_ids[j] != iid by {
        assert(m2.item_ids[j] == m.item_ids[j]);
        if m.item_ids[j] == iid {
            assert(m.item_ids.contains(iid));
        }
    }
    lemma_fold_set_item_tail(m2, rows.drop_first(), iid);
}

/// A nonempty run of rows that all carry one fresh id materializes to the
/// accumulated entries plus exactly one new entry with that id.
pub proof fn lemma_mat_block(sets: Seq<MatSetV>, rows: Seq<RowV>, id: i64)
    requires
        rows.len() > 0,
        forall|j: int| 0 <= j < rows.len() ==> (#[trigger] rows[j]).set_id == Some(id),
        forall|j: int| 0 <= j < sets.len() ==> (#[trigger] sets[j]).id != id,
    ensures
        mat_acc(sets, rows) == sets + mat(rows),
        mat(rows).len() == 1,
        mat(rows)[0].id == id,
        mat(rows) == seq![fold_set(new_mat_set(rows[0]), rows.drop_first())],
{
    let ids = set_ids(sets);
    lemma_idx_of_id(ids, id);
    let k = idx_of_id(ids, id);
    if k != -1 {
        assert(ids[k] == id);
        assert(sets[k].id != id);
        assert(false);
    }
    let m0 = new_mat_set(rows[0]);
    assert(m0.id == id);
    assert(add_row(sets, rows[0]) == sets.push(m0));
    assert forall|j: int| 0 <= j < sets.push(m0).len() - 1 implies (#[trigger] sets.push(m0)[j]).id
        != id by {
        assert(sets.push(m0)[j] == sets[j]);
    }
    assert forall|j: int| 0 <= j < rows.drop_first().len() implies (#[trigger] rows.drop_first()[j]).set_id
        == Some(id) by {
        assert(rows.drop_first()[j] == rows[j + 1]);
    }
    lemma_mat_tail(sets.push(m0), rows.drop_first(), id);
    assert(sets.push(m0).drop_last() =~= sets);
    assert(sets.push(m0).last() == m0);
    assert(mat_acc(sets, rows) == sets.push(fold_set(m0, rows.drop_first())));
    // the same run from an empty accumulator
    let empty = Seq::<MatSetV>::empty();
    lemma_idx_of_id(set_ids(empty), id);
    assert(add_row(empty, rows[0]) == empty.push(m0));
    lemma_mat_tail(empty.push(m0), rows.drop_first(), id);
    assert(empty.push(m0).drop_last() =~= empty);
    assert(mat(rows) == empty.push(fold_set(m0, rows.drop_first())));
    assert(mat(rows) =~= seq![fold_set(m0, rows.drop_first())]);
    lemma_fold_set_id(m0, rows.drop_first());
    assert(mat_acc(sets, rows) =~= sets + mat(rows));
}

/// Look up an entry under construction by id.
fn find_set(sets: &Vec<MatSet>, id: i64) -> (r: Option<usize>)
    ensures
        ({
            let k = idx_of_id(set_ids(sets@.map_values(|m: MatSet| m@)), id);
            match r {
                Some(i) => k == i,
                None => k == -1,
            }
        }),
{
    let ghost ids = set_ids(sets@.map_values(|m: MatSet| m@));
    proof {
        lemma_idx_of_id(ids, id);
        assert(ids.len() == sets@.len());
    }
    let mut i: usize = 0;
    while i < sets.len()
        invariant
            i <= sets@.len(),
            ids == set_ids(sets@.map_values(|m: MatSet| m@)),
            ids.len() == sets@.len(),
            forall|j: int| 0 <= j < i ==> ids[j] != id,
            forall|j: int| 0 <= j < sets@.len() ==> ids[j] == sets@[j].id,
        decreases sets@.len() - i,
    {
        if sets[i].id == id {
            proof {
                assert(ids[i as int] == sets@.map_values(|m: MatSet| m@)[i as int].id);
                assert(ids[i as int] == id);
                lemma_idx_of_id(ids, id);
            }
            return Some(i);
        }
        i = i + 1;
    }
    proof {
        lemma_idx_of_id(ids, id);
    }
    None
}

/// Look up an item slot by id within one entry under construction.
fn find_item(ids: &Vec<i64>, id: i64) -> (r: Option<usize>)
    ensures
        ({
            let k = idx_of_id(ids@, id);
            match r {
                Some(i) => k == i,
                None => k == -1,
            }
        }),
{
    proof {
        lemma_idx_of_id(ids@, id);
    }
    let mut i: usize = 0;
    while i < ids.len()
        invariant
            i <= ids@.len(),
            forall|j: int| 0 <= j < i ==> ids@[j] != id,
        decreases ids@.len() - i,
    {
        if ids[i] == id {
            proof {
                lemma_idx_of_id(ids@, id);
            }
            return Some(i);
        }
        i = i + 1;
    }
    proof {
        lemma_idx_of_id(ids@, id);
    }
    None
}

/// An owned copy of a string vector, with the same view.
pub fn clone_string_vec(v: &Vec<String>) -> (r: Vec<String>)
    ensures
        r.deep_view() == v.deep_view(),
{
    let mut r: Vec<String> = Vec::new();
    let mut i: usize = 0;
    while i < v.len()
        invariant
            i <= v@.len(),
            r@.len() == i,
            forall|j: int| 0 <= j < i ==> r.deep_view()[j] == v.deep_view()[j],
        decreases v@.len() - i,
    {
        r.push(v[i].clone());
        i = i + 1;
    }
    proof {
        assert(r.deep_view() =~= v.deep_view());
    }
    r
}

/// The item a row creates when its id is first seen, with the row's rating
/// appended if the row carries one.
fn item_from_row(row: &SearchRow) -> (b: Beatmap)
    ensures
        b@ == add_rating(new_item(row@), row@),
{
    let mut ratings: Vec<Rating> = Vec::new();
    match &row.rating {
        Some(rr) => {
            ratings.push(Rating { rating: rr.rating, rating_type: rr.rating_type.clone() });
        },
        None => {},
    }
    let b = Beatmap {
        osu_id: row.item_osu_id,
        difficulty: row.difficulty.clone(),
        mode: row.mode,
        status: row.status.clone(),
        main_pattern: clone_string_vec(&row.main_pattern),
        ratings,
    };
    proof {
        assert(b@.ratings =~= add_rating(new_item(row@), row@).ratings);
        assert(b@ =~= add_rating(new_item(row@), row@));
    }
    b
}

/// Consume the flat row sequence and produce the nested catalog entries,
/// in first-seen entry order: for each row, look up or create the entry by
/// id (first-seen row supplies the entry fields), look up or create the
/// item by id within it (first-seen row supplies the item fields), and
/// append the row's rating to that item when the row carries rating data.
/// A row lacking an identity column is rejected; the materializer never
/// guesses identity.
pub fn group_beatmapset_rows(rows: &Vec<SearchRow>) -> (r: Result<Vec<Beatmapset>, MaterializeError>)
    ensures
        match r {
            Ok(sets) => rows_ok(rows_view(rows@)) && sets@.map_values(|s: Beatmapset| s@)
                == mat_sets(rows_view(rows@)),
            Err(_) => !rows_ok(rows_view(rows@)),
        },
{
    let ghost rv = rows_view(rows@);
    let mut out: Vec<MatSet> = Vec::new();
    let mut i: usize = 0;
    while i < rows.len()
        invariant
            i <= rows@.len(),
            rv == rows_view(rows@),
            rv.len() == rows@.len(),
            forall|j: int| 0 <= j < i ==> row_ok(#[trigger] rv[j]),
            out@.map_values(|m: MatSet| m@) == mat_acc(seq![], rv.take(i as int)),
            sets_wf(out@.map_values(|m: MatSet| m@)),
        decreases rows@.len() - i,
    {
        let row = &rows[i];
        let set_id: i64 = match row.set_id {
            Some(id) => id,
            None => {
                proof {
                    assert(!row_ok(rv[i as int]));
                }
                return Err(MaterializeError::MissingIdentity);
            },
        };
        let item_id: i64 = match row.item_id {
            Some(id) => id,
            None => {
                proof {
                    assert(!row_ok(rv[i as int]));
                }
                return Err(MaterializeError::MissingIdentity);
            },
        };
        let ghost pre = out@.map_values(|m: MatSet| m@);
        match find_set(&out, set_id) {
            None => {
                let item = item_from_row(row);
                let m = MatSet {
                    id: set_id,
                    item_ids: vec![item_id],
                    set: Beatmapset {
                        osu_id: row.set_osu_id,
                        artist: row.artist.clone(),
                        title: row.title.clone(),
                        creator: row.creator.clone(),
                        cover_url: match &row.cover_url {
                            Some(c) => Some(c.clone()),
                            None => None,
                        },
                        total_beatmaps: 0,
                        beatmaps: vec![item],
                    },
                };
                proof {
                    assert(m@ =~~= new_mat_set(rv[i as int]));
                }
                out.push(m);
                proof {
                    assert(out@.map_values(|m: MatSet| m@) =~= add_row(pre, rv[i as int]));
                }
            },
            Some(k) => {
                proof {
                    lemma_idx_of_id(set_ids(pre), set_id);
                    assert(set_ids(pre).len() == out@.len());
                }
                let mut m = out.remove(k);
                let ghost m0 = m@;
                proof {
                    assert(mat_set_wf(m0));
                }
                match find_item(&m.item_ids, item_id) {
                    None => {
                        let item = item_from_row(row);
                        m.item_ids.push(item_id);
                        m.set.beatmaps.push(item);
                    },
                    Some(k2) => {
                        proof {
                            lemma_idx_of_id(m0.item_ids, item_id);
                        }
                        match &row.rating {
                            Some(rr) => {
                                let ghost bm0 = m.set.beatmaps@;
                                let mut b = m.set.beatmaps.remove(k2);
                                let ghost b0 = b@;
                                b.ratings.push(
                                    Rating {
                                        rating: rr.rating,
                                        rating_type: rr.rating_type.clone(),
                                    },
                                );
                                proof {
                                    assert(b0 == bm0[k2 as int]@);
                                    assert(b@ =~~= add_rating(b0, rv[i as int]));
                                }
                                m.set.beatmaps.insert(k2, b);
                                proof {
                                    assert(m0.set.beatmaps == bm0.map_values(
                                        |x: Beatmap| x@,
                                    ));
                                    assert forall|j: int|
                                        0 <= j < m.set.beatmaps@.len() && j != k2 implies
                                        m.set.beatmaps@[j] == bm0[j] by {
                                        assert(m.set.beatmaps@ == bm0.remove(k2 as int).insert(
                                            k2 as int,
                                            m.set.beatmaps@[k2 as int],
                                        ));
                                    }
                                    assert(m.set.beatmaps@.map_values(|x: Beatmap| x@)
                                        =~~= m0.set.beatmaps.update(
                                        k2 as int,
                                        add_rating(m0.set.beatmaps[k2 as int], rv[i as int]),
                                    ));
                                }
                            },
                            None => {
                                proof {
                                    assert(m0.set.beatmaps.update(
                                        k2 as int,
                                        add_rating(m0.set.beatmaps[k2 as int], rv[i as int]),
                                    ) =~= m0.set.beatmaps);
                                }
                            },
                        }
                    },
                }
                proof {
                    assert(m@ =~~= add_row_to_set(m0, rv[i as int]));
                }
                out.insert(k, m);
                proof {
                    assert(out@.map_values(|m: MatSet| m@) =~= add_row(pre, rv[i as int]));
                }
            },
        }
        proof {
            assert(rv.take(i as int).push(rv[i as int]) =~= rv.take(i as int + 1));
            lemma_mat_acc_snoc(seq![], rv.take(i as int), rv[i as int]);
        }
        i = i + 1;
    }
    proof {
        assert(rv.take(rows@.len() as int) =~= rv);
    }
    let mut res: Vec<Beatmapset> = Vec::new();
    let ghost total = out@.map_values(|m: MatSet| m@);
    let mut j: usize = 0;
    let n = out.len();
    while j < n
        invariant
            j <= n,
            n == out@.len(),
            total == out@.map_values(|m: MatSet| m@),
            total.len() == n,
            res@.len() == j,
            forall|k: int| 0 <= k < j ==> res@.map_values(|s: Beatmapset| s@)[k] == total[k].set,
        decreases n - j,
    {
        let m = MatSet {
            id: out[j].id,
            item_ids: Vec::new(),
            set: Beatmapset {
                osu_id: out[j].set.osu_id,
                artist: out[j].set.artist.clone(),
                title: out[j].set.title.clone(),
                creator: out[j].set.creator.clone(),
                cover_url: match &out[j].set.cover_url {
                    Some(c) => Some(c.clone()),
                    None => None,
                },
                total_beatmaps: out[j].set.total_beatmaps,
                beatmaps: clone_beatmaps(&out[j].set.beatmaps),
            },
        };
        proof {
            assert(m.set@ =~~= total[j as int].set);
        }
        res.push(m.set);
        j = j + 1;
    }
    proof {
        assert(res@.map_values(|s: Beatmapset| s@) =~= mat_sets(rv));
    }
    Ok(res)
}

/// An owned copy of a rating list, with the same view.
fn clone_ratings(v: &Vec<Rating>) -> (r: Vec<Rating>)
    ensures
        r@.map_values(|x: Rating| x@) == v@.map_values(|x: Rating| x@),
{
    let mut r: Vec<Rating> = Vec::new();
    let mut i: usize = 0;
    while i < v.len()
        invariant
            i <= v@.len(),
            r@.len() == i,
            forall|j: int| 0 <= j < i ==> (#[trigger] r@[j])@ == v@[j]@,
        decreases v@.len() - i,
    {
        r.push(Rating { rating: v[i].rating, rating_type: v[i].rating_type.clone() });
        i = i + 1;
    }
    proof {
        assert(r@.map_values(|x: Rating| x@) =~= v@.map_values(|x: Rating| x@));
    }
    r
}

/// An owned copy of one item, with the same view.
pub fn clone_beatmap(b: &Beatmap) -> (r: Beatmap)
    ensures
        r@ == b@,
{
    let r = Beatmap {
        osu_id: b.osu_id,
        difficulty: b.difficulty.clone(),
        mode: b.mode,
        status: b.status.clone(),
        main_pattern: clone_string_vec(&b.main_pattern),
        ratings: clone_ratings(&b.ratings),
    };
    proof {
        assert(r@ =~~= b@);
    }
    r
}

/// An owned copy of an item list, with the same view.
pub fn clone_beatmaps(v: &Vec<Beatmap>) -> (r: Vec<Beatmap>)
    ensures
        r@.map_values(|x: Beatmap| x@) == v@.map_values(|x: Beatmap| x@),
{
    let mut r: Vec<Beatmap> = Vec::new();
    let mut i: usize = 0;
    while i < v.len()
        invariant
            i <= v@.len(),
            r@.len() == i,
            forall|j: int| 0 <= j < i ==> (#[trigger] r@[j])@ == v@[j]@,
        decreases v@.len() - i,
    {
        r.push(clone_beatmap(&v[i]));
        i = i + 1;
    }
    proof {
        assert(r@.map_values(|x: Beatmap| x@) =~= v@.map_values(|x: Beatmap| x@));
    }
    r
}

} // verus!
