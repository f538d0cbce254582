//! The representative subset selector: scores items by a chosen rating
//! facet, sorts ascending, keeps a bounded sample (the five easiest plus
//! the single hardest), and records the true pre-truncation count.

use vstd::prelude::*;
use vstd::seq_lib::lemma_multiset_commutative;
use crate::filters::{Filters, FiltersV};
use crate::materialize::clone_beatmap;
use crate::short::{Beatmap, BeatmapV, Beatmapset, BeatmapsetV, Rating, RatingV};
use crate::text::str_eq;

verus! {

/// The score of the first rating with the given type tag, if any.
pub open spec fn first_of_type(rs: Seq<RatingV>, t: Seq<char>) -> Option<i64>
    decreases rs.len(),
{
    if rs.len() == 0 {
        None
    } else if rs[0].rating_type == t {
        Some(rs[0].rating)
    } else {
        first_of_type(rs.drop_first(), t)
    }
}

/// An item's effective score under a preferred rating type: the rating of
/// the preferred type if present, otherwise the rating of type "osu" if
/// present, otherwise no score (which sorts first, below every score).
pub open spec fn score_of(b: BeatmapV, t: Seq<char>) -> Option<i64> {
    match first_of_type(b.ratings, t) {
        Some(s) => Some(s),
        None => first_of_type(b.ratings, "osu"@),
    }
}

/// Score order: an absent score is below every score.
pub open spec fn score_le(a: Option<i64>, b: Option<i64>) -> bool {
    match (a, b) {
        (Option::None, _) => true,
        (Option::Some(_), Option::None) => false,
        (Option::Some(x), Option::Some(y)) => x <= y,
    }
}

/// Strict score order.
pub open spec fn score_lt(a: Option<i64>, b: Option<i64>) -> bool {
    !score_le(b, a)
}

/// Items in ascending score order.
pub open spec fn sorted_by_score(s: Seq<BeatmapV>, t: Seq<char>) -> bool {
    forall|i: int, j: int| 0 <= i < j < s.len() ==> score_le(
        score_of(#[trigger] s[i], t),
        score_of(#[trigger] s[j], t),
    )
}

/// Stable insertion into an ascending list: the new item goes before the
/// first element whose score is not strictly below its own.
pub open spec fn insert_sorted(x: BeatmapV, s: Seq<BeatmapV>, t: Seq<char>) -> Seq<BeatmapV>
    decreases s.len(),
{
    if s.len() == 0 {
        seq![x]
    } else if score_lt(score_of(s[0], t), score_of(x, t)) {
        seq![s[0]] + insert_sorted(x, s.drop_first(), t)
    } else {
        seq![x] + s
    }
}

/// Stable ascending sort by effective score.
pub open spec fn sort_items(s: Seq<BeatmapV>, t: Seq<char>) -> Seq<BeatmapV>
    decreases s.len(),
{
    if s.len() == 0 {
        seq![]
    } else {
        insert_sorted(s[0], sort_items(s.drop_first(), t), t)
    }
}

/// The position where stable insertion places the new item: past the
/// leading run of strictly lower-scored elements.
pub open spec fn insert_pos(x: BeatmapV, s: Seq<BeatmapV>, t: Seq<char>) -> int
    decreases s.len(),
{
    if s.len() == 0 {
        0
    } else if score_lt(score_of(s[0], t), score_of(x, t)) {
        1 + insert_pos(x, s.drop_first(), t)
    } else {
        0
    }
}

/// Stable insertion splits the list at the insertion position.
pub proof fn lemma_insert_sorted_split(x: BeatmapV, s: Seq<BeatmapV>, t: Seq<char>)
    ensures
        0 <= insert_pos(x, s, t) <= s.len(),
        insert_sorted(x, s, t) == s.take(insert_pos(x, s, t)) + seq![x] + s.skip(
            insert_pos(x, s, t),
        ),
        forall|j: int| 0 <= j < insert_pos(x, s, t) ==> score_lt(
            score_of(#[trigger] s[j], t),
            score_of(x, t),
        ),
        insert_pos(x, s, t) < s.len() ==> !score_lt(score_of(s[insert_pos(x, s, t)], t), score_of(x, t)),
    decreases s.len(),
{
    if s.len() == 0 {
        assert(insert_sorted(x, s, t) =~= s.take(0) + seq![x] + s.skip(0));
    } else if score_lt(score_of(s[0], t), score_of(x, t)) {
        let rest = s.drop_first();
        lemma_insert_sorted_split(x, rest, t);
        let p = insert_pos(x, rest, t);
        assert(s.take(p + 1) =~= seq![s[0]] + rest.take(p));
        assert(s.skip(p + 1) =~= rest.skip(p));
        assert(insert_sorted(x, s, t) =~= s.take(p + 1) + seq![x] + s.skip(p + 1));
        assert forall|j: int| 0 <= j < insert_pos(x, s, t) implies score_lt(
            score_of(#[trigger] s[j], t),
            score_of(x, t),
        ) by {
            if j > 0 {
                assert(s[j] == rest[j - 1]);
            }
        }
        if p < rest.len() {
            assert(s[p + 1] == rest[p]);
        }
    } else {
        assert(insert_sorted(x, s, t) =~= s.take(0) + seq![x] + s.skip(0));
    }
}

/// Stable insertion into a sorted list keeps it sorted and adds exactly the
/// new item.
pub proof fn lemma_insert_sorted_props(x: BeatmapV, s: Seq<BeatmapV>, t: Seq<char>)
    requires
        sorted_by_score(s, t),
    ensures
        insert_sorted(x, s, t).len() == s.len() + 1,
        insert_sorted(x, s, t).to_multiset() == s.push(x).to_multiset(),
        sorted_by_score(insert_sorted(x, s, t), t),
{
    broadcast use vstd::seq_lib::group_to_multiset_ensures;

    lemma_insert_sorted_split(x, s, t);
    let p = insert_pos(x, s, t);
    let r = insert_sorted(x, s, t);
    // the result is the insertion of x at position p
    assert(r =~= s.insert(p, x));
    vstd::seq_lib::to_multiset_insert(s, p, x);
    vstd::seq_lib::to_multiset_build(s, x);
    // sortedness: elements left of x are strictly below it, elements right
    // of it are at or above it
    assert forall|i: int, j: int| 0 <= i < j < r.len() implies score_le(
        score_of(#[trigger] r[i], t),
        score_of(#[trigger] r[j], t),
    ) by {
        if i < p {
            assert(r[i] == s[i]);
        } else if i == p {
            assert(r[i] == x);
        } else {
            assert(r[i] == s[i - 1]);
        }
        if j < p {
            assert(r[j] == s[j]);
        } else if j == p {
            assert(r[j] == x);
        } else {
            assert(r[j] == s[j - 1]);
        }
        if p < s.len() {
            assert(!score_lt(score_of(s[p], t), score_of(x, t)));
        }
    }
}

/// Sorting yields an ascending permutation of the input.
pub proof fn lemma_sort_items_props(s: Seq<BeatmapV>, t: Seq<char>)
    ensures
        sort_items(s, t).len() == s.len(),
        sort_items(s, t).to_multiset() == s.to_multiset(),
        sorted_by_score(sort_items(s, t), t),
    decreases s.len(),
{
    broadcast use vstd::seq_lib::group_to_multiset_ensures;

    if s.len() == 0 {
    } else {
        let rest = s.drop_first();
        lemma_sort_items_props(rest, t);
        lemma_insert_sorted_props(s[0], sort_items(rest, t), t);
        assert(sort_items(rest, t).push(s[0]).to_multiset() == sort_items(
            rest,
            t,
        ).to_multiset().insert(s[0]));
        assert(rest.to_multiset().insert(s[0]) == s.to_multiset()) by {
            assert(s =~= seq![s[0]] + rest);
            lemma_multiset_commutative(seq![s[0]], rest);
            assert(seq![s[0]] + rest =~= rest.insert(0, s[0]));
            assert(rest.insert(0, s[0]).to_multiset() == rest.to_multiset().insert(s[0]));
        }
    }
}

/// The item list after the representative subset selector: sorted
/// ascending, and truncated to the five easiest plus the single hardest
/// when more than six items matched.
pub open spec fn limited_items(items: Seq<BeatmapV>, t: Seq<char>) -> Seq<BeatmapV> {
    let s = sort_items(items, t);
    if items.len() > 6 {
        s.take(5).push(s.last())
    } else {
        s
    }
}

/// A catalog entry after the representative subset selector: the true
/// pre-truncation item count is recorded, the item list is sorted and
/// bounded, and the entry-level fields are untouched.
pub open spec fn processed_set(b: BeatmapsetV, t: Seq<char>) -> BeatmapsetV {
    BeatmapsetV {
        total_beatmaps: b.beatmaps.len() as usize,
        beatmaps: limited_items(b.beatmaps, t),
        ..b
    }
}

/// The preferred rating type: the rating facet's type when given,
/// otherwise "osu".
pub open spec fn preferred_type_of(f: FiltersV) -> Seq<char> {
    match f.rating {
        Some(r) => match r.rating_type {
            Some(t) => t,
            None => "osu"@,
        },
        None => "osu"@,
    }
}

/// Determine the preferred rating type from the filters, falling back to
/// "osu".
pub fn preferred_rating_type(filters: &Filters) -> (r: &str)
    ensures
        r@ == preferred_type_of(filters@),
{
    match &filters.rating {
        Some(r) => match &r.rating_type {
            Some(t) => t.as_str(),
            None => "osu",
        },
        None => "osu",
    }
}

/// The score of the first rating with the given type tag, if any.
fn find_rating_of_type(rs: &Vec<Rating>, t: &str) -> (r: Option<i64>)
    ensures
        r == first_of_type(rs@.map_values(|x: Rating| x@), t@),
{
    let ghost rsv = rs@.map_values(|x: Rating| x@);
    proof {
        assert(rsv.skip(0) =~= rsv);
    }
    let mut i: usize = 0;
    while i < rs.len()
        invariant
            i <= rs@.len(),
            rsv == rs@.map_values(|x: Rating| x@),
            rsv.len() == rs@.len(),
            first_of_type(rsv, t@) == first_of_type(rsv.skip(i as int), t@),
        decreases rs@.len() - i,
    {
        proof {
            assert(rsv.skip(i as int)[0] == rsv[i as int]);
            assert(rsv.skip(i as int).drop_first() =~= rsv.skip(i as int + 1));
        }
        if str_eq(rs[i].rating_type.as_str(), t) {
            return Some(rs[i].rating);
        }
        i = i + 1;
    }
    proof {
        assert(rsv.skip(rs@.len() as int) =~= Seq::<RatingV>::empty());
    }
    None
}

/// Compute an item's comparable score under the preferred rating type,
/// falling back to the "osu" rating, and to no score when both are absent.
pub fn beatmap_score(beatmap: &Beatmap, preferred_type: &str) -> (r: Option<i64>)
    ensures
        r == score_of(beatmap@, preferred_type@),
{
    match find_rating_of_type(&beatmap.ratings, preferred_type) {
        Some(s) => Some(s),
        None => find_rating_of_type(&beatmap.ratings, "osu"),
    }
}

/// Strict score comparison, computed.
fn score_lt_exec(a: Option<i64>, b: Option<i64>) -> (r: bool)
    ensures
        r == score_lt(a, b),
{
    match (a, b) {
        (Option::Some(x), Option::Some(y)) => x < y,
        (Option::None, Option::Some(_)) => true,
        (Option::None, Option::None) => false,
        (Option::Some(_), Option::None) => false,
    }
}

/// Insert an item into an ascending list, stably.
fn insert_sorted_exec(x: Beatmap, v: &mut Vec<Beatmap>, t: &str)
    ensures
        final(v)@.map_values(|b: Beatmap| b@) == insert_sorted(
            x@,
            old(v)@.map_values(|b: Beatmap| b@),
            t@,
        ),
{
    let ghost sv = v@.map_values(|b: Beatmap| b@);
    let xs = beatmap_score(&x, t);
    let mut idx: usize = 0;
    let mut scanning = true;
    while scanning
        invariant
            idx <= v@.len(),
            sv == v@.map_values(|b: Beatmap| b@),
            sv.len() == v@.len(),
            xs == score_of(x@, t@),
            forall|j: int| 0 <= j < idx ==> score_lt(score_of(#[trigger] sv[j], t@), score_of(x@, t@)),
            !scanning ==> (idx == sv.len() || !score_lt(score_of(sv[idx as int], t@), score_of(x@, t@))),
        decreases v@.len() - idx + (if scanning { 1int } else { 0int }),
    {
        if idx >= v.len() {
            scanning = false;
        } else {
            let c = beatmap_score(&v[idx], t);
            if score_lt_exec(c, xs) {
                idx = idx + 1;
            } else {
                scanning = false;
            }
        }
    }
    proof {
        lemma_insert_sorted_split(x@, sv, t@);
        let p = insert_pos(x@, sv, t@);
        if p < idx {
            assert(score_lt(score_of(sv[p], t@), score_of(x@, t@)));
        }
        if idx < p {
            assert(score_lt(score_of(sv[idx as int], t@), score_of(x@, t@)));
        }
        assert(p == idx);
    }
    v.insert(idx, x);
    proof {
        assert(v@.map_values(|b: Beatmap| b@) =~= sv.take(idx as int) + seq![x@] + sv.skip(
            idx as int,
        ));
    }
}

/// Sort items ascending by effective score, stably.
pub fn sort_beatmaps_by_score(v: Vec<Beatmap>, t: &str) -> (r: Vec<Beatmap>)
    ensures
        r@.map_values(|b: Beatmap| b@) == sort_items(v@.map_values(|b: Beatmap| b@), t@),
{
    let ghost sv = v@.map_values(|b: Beatmap| b@);
    let mut v = v;
    let mut r: Vec<Beatmap> = Vec::new();
    while v.len() > 0
        invariant
            v@.map_values(|b: Beatmap| b@) == sv.take(v@.len() as int),
            sv.len() >= v@.len(),
            r@.map_values(|b: Beatmap| b@) == sort_items(sv.skip(v@.len() as int), t@),
        decreases v@.len(),
    {
        let ghost n = v@.len() as int;
        let ghost prev = v@;
        let x = match v.pop() {
            Some(x) => x,
            None => {
                proof {
                    assert(false);
                }
                unreached()
            },
        };
        proof {
            assert(x == prev[n - 1]);
            assert(prev.map_values(|b: Beatmap| b@)[n - 1] == sv.take(n)[n - 1]);
            assert(x@ == sv[n - 1]);
            assert(v@ =~= prev.take(n - 1));
            assert forall|j: int| 0 <= j < n - 1 implies v@.map_values(|b: Beatmap| b@)[j]
                == #[trigger] sv.take(n - 1)[j] by {
                assert(prev.map_values(|b: Beatmap| b@)[j] == sv.take(n)[j]);
                assert(v@[j] == prev[j]);
            }
            assert(v@.map_values(|b: Beatmap| b@) =~= sv.take(n - 1));
            assert(sv.skip(n - 1)[0] == sv[n - 1]);
            assert(sv.skip(n - 1).drop_first() =~= sv.skip(n));
        }
        insert_sorted_exec(x, &mut r, t);
    }
    proof {
        assert(sv.skip(0) =~= sv);
    }
    r
}

/// Sort each entry's items ascending by the preferred rating type, record
/// the true pre-truncation item count, and when more than six items
/// matched keep the five easiest plus the single hardest.  Ties for the
/// hardest resolve to the last maximal item of the stable sort.
pub fn sort_and_limit_beatmaps(beatmapsets: &mut Vec<Beatmapset>, preferred_type: &str)
    ensures
        final(beatmapsets)@.len() == old(beatmapsets)@.len(),
        forall|k: int|
            0 <= k < old(beatmapsets)@.len() ==> (#[trigger] final(beatmapsets)@[k])@
                == processed_set(old(beatmapsets)@[k]@, preferred_type@),
{
    let ghost orig = beatmapsets@;
    let mut i: usize = 0;
    while i < beatmapsets.len()
        invariant
            i <= orig.len(),
            beatmapsets@.len() == orig.len(),
            forall|k: int| i <= k < orig.len() ==> beatmapsets@[k] == orig[k],
            forall|k: int| 0 <= k < i ==> (#[trigger] beatmapsets@[k])@ == processed_set(
                orig[k]@,
                preferred_type@,
            ),
        decreases orig.len() - i,
    {
        let ghost pre = beatmapsets@;
        let mut s = beatmapsets.remove(i);
        let ghost s0 = s@;
        let mut items = Vec::new();
        core::mem::swap(&mut items, &mut s.beatmaps);
        let n = items.len();
        let sorted = sort_beatmaps_by_score(items, preferred_type);
        proof {
            lemma_sort_items_props(s0.beatmaps, preferred_type@);
        }
        if n > 6 {
            let mut kept: Vec<Beatmap> = Vec::new();
            let mut j: usize = 0;
            while j < 5
                invariant
                    j <= 5,
                    n == sorted@.len(),
                    n > 6,
                    kept@.len() == j,
                    forall|l: int| 0 <= l < j ==> (#[trigger] kept@[l])@ == sorted@[l]@,
                decreases 5 - j,
            {
                kept.push(clone_beatmap(&sorted[j]));
                j = j + 1;
            }
            kept.push(clone_beatmap(&sorted[n - 1]));
            proof {
                let sv = sort_items(s0.beatmaps, preferred_type@);
                assert(kept@.map_values(|b: Beatmap| b@) =~= sv.take(5).push(sv.last()));
            }
            s.beatmaps = kept;
        } else {
            s.beatmaps = sorted;
        }
        s.total_beatmaps = n;
        proof {
            assert(s@ =~~= processed_set(s0, preferred_type@));
        }
        beatmapsets.insert(i, s);
        proof {
            assert(beatmapsets@ =~= pre.update(i as int, beatmapsets@[i as int]));
        }
        i = i + 1;
    }
}

} // verus!
