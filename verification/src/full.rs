//! The full-entity loader: one catalog entry by external id with its
//! complete nested tree — every item, every variant, every rating with its
//! mode-specific sub-rating — untruncated.

use vstd::prelude::*;
use crate::rate::{Rates, RatesV, collect_variant_ratings, rates_of_variant};
use crate::store::{
    EntryRec, EntryRecV, ItemRecV, Store, StoreV, VariantRecV, first_idx, lemma_first_idx,
    opt_view,
};

verus! {

/// One playable difficulty with all its variants.
pub struct Beatmap {
    pub id: Option<i64>,
    pub osu_id: Option<i32>,
    pub beatmapset_id: Option<i64>,
    pub difficulty: String,
    pub count_circles: i32,
    pub count_sliders: i32,
    pub count_spinners: i32,
    pub max_combo: i32,
    pub cs: i64,
    pub ar: i64,
    pub od: i64,
    pub hp: i64,
    pub mode: i32,
    pub status: String,
    pub main_pattern: Vec<String>,
    pub rates: Vec<Rates>,
}

/// A catalog entry with its complete nested tree.
pub struct Beatmapset {
    pub id: Option<i64>,
    pub osu_id: Option<i32>,
    pub artist: String,
    pub artist_unicode: Option<String>,
    pub title: String,
    pub title_unicode: Option<String>,
    pub creator: String,
    pub source: Option<String>,
    pub tags: Option<String>,
    pub has_video: bool,
    pub has_storyboard: bool,
    pub is_explicit: bool,
    pub is_featured: bool,
    pub cover_url: Option<String>,
    pub preview_url: Option<String>,
    pub osu_file_url: Option<String>,
    pub beatmaps: Vec<Beatmap>,
}

/// Mathematical view of a fully loaded item.
#[verifier::ext_equal]
pub struct BeatmapV {
    pub id: Option<i64>,
    pub osu_id: Option<i32>,
    pub beatmapset_id: Option<i64>,
    pub difficulty: Seq<char>,
    pub count_circles: i32,
    pub count_sliders: i32,
    pub count_spinners: i32,
    pub max_combo: i32,
    pub cs: i64,
    pub ar: i64,
    pub od: i64,
    pub hp: i64,
    pub mode: i32,
    pub status: Seq<char>,
    pub main_pattern: Seq<Seq<char>>,
    pub rates: Seq<RatesV>,
}

impl View for Beatmap {
    type V = BeatmapV;

    open spec fn view(&self) -> BeatmapV {
        BeatmapV {
            id: self.id,
            osu_id: self.osu_id,
            beatmapset_id: self.beatmapset_id,
            difficulty: self.difficulty@,
            count_circles: self.count_circles,
            count_sliders: self.count_sliders,
            count_spinners: self.count_spinners,
            max_combo: self.max_combo,
            cs: self.cs,
            ar: self.ar,
            od: self.od,
            hp: self.hp,
            mode: self.mode,
            status: self.status@,
            main_pattern: self.main_pattern.deep_view(),
            rates: self.rates@.map_values(|r: Rates| r@),
        }
    }
}

/// Mathematical view of a fully loaded entry.
#[verifier::ext_equal]
pub struct BeatmapsetV {
    pub id: Option<i64>,
    pub osu_id: Option<i32>,
    pub artist: Seq<char>,
    pub artist_unicode: Option<Seq<char>>,
    pub title: Seq<char>,
    pub title_unicode: Option<Seq<char>>,
    pub creator: Seq<char>,
    pub source: Option<Seq<char>>,
    pub tags: Option<Seq<char>>,
    pub has_video: bool,
    pub has_storyboard: bool,
    pub is_explicit: bool,
    pub is_featured: bool,
    pub cover_url: Option<Seq<char>>,
    pub preview_url: Option<Seq<char>>,
    pub osu_file_url: Option<Seq<char>>,
    pub beatmaps: Seq<BeatmapV>,
}

impl View for Beatmapset {
    type V = BeatmapsetV;

    open spec fn view(&self) -> BeatmapsetV {
        BeatmapsetV {
            id: self.id,
            osu_id: self.osu_id,
            artist: self.artist@,
            artist_unicode: opt_view(self.artist_unicode),
            title: self.title@,
            title_unicode: opt_view(self.title_unicode),
            creator: self.creator@,
            source: opt_view(self.source),
            tags: opt_view(self.tags),
            has_video: self.has_video,
            has_storyboard: self.has_storyboard,
            is_explicit: self.is_explicit,
            is_featured: self.is_featured,
            cover_url: opt_view(self.cover_url),
            preview_url: opt_view(self.preview_url),
            osu_file_url: opt_view(self.osu_file_url),
            beatmaps: self.beatmaps@.map_values(|b: Beatmap| b@),
        }
    }
}

/// Tag words joined with single spaces.
pub open spec fn joined_tags(ts: Seq<Seq<char>>) -> Seq<char>
    decreases ts.len(),
{
    if ts.len() == 0 {
        Seq::empty()
    } else if ts.len() == 1 {
        ts[0]
    } else {
        joined_tags(ts.drop_last()) + " "@ + ts.last()
    }
}

/// The entry's tag text: the tag words joined with spaces, or nothing when
/// the tag list is absent or empty.
pub open spec fn tags_text(tags: Option<Seq<Seq<char>>>) -> Option<Seq<char>> {
    match tags {
        None => None,
        Some(ts) => if ts.len() == 0 {
            None
        } else {
            Some(joined_tags(ts))
        },
    }
}

/// Join the tag words with single spaces.
fn join_tags(ts: &Vec<String>) -> (r: String)
    requires
        ts@.len() > 0,
    ensures
        r@ == joined_tags(ts.deep_view()),
{
    let mut r = ts[0].clone();
    proof {
        assert(ts.deep_view().take(1) =~= seq![ts.deep_view()[0]]);
    }
    let mut i: usize = 1;
    while i < ts.len()
        invariant
            1 <= i <= ts@.len(),
            ts@.len() == ts.deep_view().len(),
            r@ == joined_tags(ts.deep_view().take(i as int)),
        decreases ts@.len() - i,
    {
        r.append(" ");
        r.append(ts[i].as_str());
        proof {
            let tv = ts.deep_view();
            assert(tv.take(i as int + 1).drop_last() =~= tv.take(i as int));
            assert(tv.take(i as int + 1).last() == tv[i as int]);
        }
        i = i + 1;
    }
    proof {
        assert(ts.deep_view().take(ts@.len() as int) =~= ts.deep_view());
    }
    r
}

/// All variants of the item with id `item_id` among the first `n` variant
/// rows, each with all its ratings, in table order.
pub open spec fn item_variants_rec(s: StoreV, item_id: i64, n: int) -> Seq<RatesV>
    decreases n,
{
    if n <= 0 {
        seq![]
    } else {
        item_variants_rec(s, item_id, n - 1) + (if s.variants[n - 1].item_id == item_id {
            seq![rates_of_variant(s, s.variants[n - 1])]
        } else {
            seq![]
        })
    }
}

/// The fully loaded view of one item row.
pub open spec fn full_item_of(s: StoreV, i: ItemRecV) -> BeatmapV {
    BeatmapV {
        id: Some(i.id),
        osu_id: i.osu_id,
        beatmapset_id: Some(i.set_id),
        difficulty: i.difficulty,
        count_circles: i.count_circles,
        count_sliders: i.count_sliders,
        count_spinners: i.count_spinners,
        max_combo: i.max_combo,
        cs: i.cs,
        ar: i.ar,
        od: i.od,
        hp: i.hp,
        mode: i.mode,
        status: i.status,
        main_pattern: i.main_pattern,
        rates: item_variants_rec(s, i.id, s.variants.len() as int),
    }
}

/// The fully loaded items of the entry with id `set_id` among the first
/// `n` item rows, in table order.
pub open spec fn entry_items_rec(s: StoreV, set_id: i64, n: int) -> Seq<BeatmapV>
    decreases n,
{
    if n <= 0 {
        seq![]
    } else {
        entry_items_rec(s, set_id, n - 1) + (if s.items[n - 1].set_id == set_id {
            seq![full_item_of(s, s.items[n - 1])]
        } else {
            seq![]
        })
    }
}

/// The first entry row carrying the external id.
pub open spec fn entry_by_osu_idx(entries: Seq<EntryRecV>, osu_id: i32) -> int {
    first_idx(entries, |e: EntryRecV| e.osu_id == Some(osu_id))
}

/// The fully loaded view of one entry row.
pub open spec fn full_of(s: StoreV, e: EntryRecV) -> BeatmapsetV {
    BeatmapsetV {
        id: Some(e.id),
        osu_id: e.osu_id,
        artist: e.artist,
        artist_unicode: e.artist_unicode,
        title: e.title,
        title_unicode: e.title_unicode,
        creator: e.creator,
        source: e.source,
        tags: tags_text(e.tags),
        has_video: e.has_video,
        has_storyboard: e.has_storyboard,
        is_explicit: e.is_explicit,
        is_featured: e.is_featured,
        cover_url: e.cover_url,
        preview_url: e.preview_url,
        osu_file_url: e.osu_file_url,
        beatmaps: entry_items_rec(s, e.id, s.items.len() as int),
    }
}

/// Collect all variants of one item, with their ratings.
fn collect_item_variants(store: &Store, item_id: i64) -> (r: Vec<Rates>)
    ensures
        r@.map_values(|x: Rates| x@) == item_variants_rec(
            store@,
            item_id,
            store@.variants.len() as int,
        ),
{
    let ghost sv = store@;
    let mut out: Vec<Rates> = Vec::new();
    let mut vi: usize = 0;
    while vi < store.variants.len()
        invariant
            vi <= store.variants@.len(),
            sv == store@,
            sv.variants.len() == store.variants@.len(),
            out@.map_values(|x: Rates| x@) == item_variants_rec(sv, item_id, vi as int),
        decreases store.variants@.len() - vi,
    {
        let v = &store.variants[vi];
        proof {
            assert(sv.variants[vi as int] == v@);
        }
        if v.item_id == item_id {
            let ratings = collect_variant_ratings(store, v.id);
            let rt = Rates {
                id: Some(v.id),
                osu_hash: Some(v.osu_hash.clone()),
                centirate: v.centirate,
                drain_time: v.drain_time,
                total_time: v.total_time,
                bpm: v.bpm,
                rating: ratings,
            };
            proof {
                assert(rt@ =~~= rates_of_variant(sv, sv.variants[vi as int]));
            }
            out.push(rt);
        }
        proof {
            assert(out@.map_values(|x: Rates| x@) =~= item_variants_rec(sv, item_id, vi as int + 1));
        }
        vi = vi + 1;
    }
    out
}

/// Collect all items of one entry, each with all its variants.
fn collect_entry_items(store: &Store, set_id: i64) -> (r: Vec<Beatmap>)
    ensures
        r@.map_values(|x: Beatmap| x@) == entry_items_rec(store@, set_id, store@.items.len() as int),
{
    let ghost sv = store@;
    let mut out: Vec<Beatmap> = Vec::new();
    let mut ii: usize = 0;
    while ii < store.items.len()
        invariant
            ii <= store.items@.len(),
            sv == store@,
            sv.items.len() == store.items@.len(),
            out@.map_values(|x: Beatmap| x@) == entry_items_rec(sv, set_id, ii as int),
        decreases store.items@.len() - ii,
    {
        let it = &store.items[ii];
        proof {
            assert(sv.items[ii as int] == it@);
        }
        if it.set_id == set_id {
            let rates = collect_item_variants(store, it.id);
            let b = Beatmap {
                id: Some(it.id),
                osu_id: it.osu_id,
                beatmapset_id: Some(it.set_id),
                difficulty: it.difficulty.clone(),
                count_circles: it.count_circles,
                count_sliders: it.count_sliders,
                count_spinners: it.count_spinners,
                max_combo: it.max_combo,
                cs: it.cs,
                ar: it.ar,
                od: it.od,
                hp: it.hp,
                mode: it.mode,
                status: it.status.clone(),
                main_pattern: crate::materialize::clone_string_vec(&it.main_pattern),
                rates,
            };
            proof {
                assert(b@ =~~= full_item_of(sv, sv.items[ii as int]));
            }
            out.push(b);
        }
        proof {
            assert(out@.map_values(|x: Beatmap| x@) =~= entry_items_rec(sv, set_id, ii as int + 1));
        }
        ii = ii + 1;
    }
    out
}

/// Load one catalog entry by external id, with its complete nested tree
/// and no truncation.  Absence of a matching entry is a normal outcome —
/// nothing is returned, never an error.
pub fn find_full_by_osu_id(store: &Store, osu_id: i32) -> (r: Option<Beatmapset>)
    ensures
        match r {
            None => entry_by_osu_idx(store@.entries, osu_id) == -1,
            Some(b) => entry_by_osu_idx(store@.entries, osu_id) != -1 && b@ == full_of(
                store@,
                store@.entries[entry_by_osu_idx(store@.entries, osu_id)],
            ),
        },
        (r is None) <==> (forall|i: int|
            0 <= i < store@.entries.len() ==> (#[trigger] store@.entries[i]).osu_id != Some(osu_id)),
{
    let ghost sv = store@;
    let ghost p = |e: EntryRecV| e.osu_id == Some(osu_id);
    proof {
        lemma_first_idx(sv.entries, p);
    }
    let e = match find_entry_by_osu_id(store, osu_id) {
        Some(e) => e,
        None => {
            proof {
                lemma_first_idx(sv.entries, p);
                assert forall|i: int|
                    0 <= i < sv.entries.len() implies (#[trigger] sv.entries[i]).osu_id != Some(
                    osu_id,
                ) by {
                    assert(!p(sv.entries[i]));
                }
            }
            return None;
        },
    };
    let beatmaps = collect_entry_items(store, e.id);
    let tags = match &e.tags {
        Some(ts) => {
            if ts.len() == 0 {
                None
            } else {
                Some(join_tags(ts))
            }
        },
        None => None,
    };
    let b = Beatmapset {
        id: Some(e.id),
        osu_id: e.osu_id,
        artist: e.artist.clone(),
        artist_unicode: clone_opt(&e.artist_unicode),
        title: e.title.clone(),
        title_unicode: clone_opt(&e.title_unicode),
        creator: e.creator.clone(),
        source: clone_opt(&e.source),
        tags,
        has_video: e.has_video,
        has_storyboard: e.has_storyboard,
        is_explicit: e.is_explicit,
        is_featured: e.is_featured,
        cover_url: clone_opt(&e.cover_url),
        preview_url: clone_opt(&e.preview_url),
        osu_file_url: clone_opt(&e.osu_file_url),
        beatmaps,
    };
    proof {
        let k = entry_by_osu_idx(sv.entries, osu_id);
        assert(b@ =~~= full_of(sv, sv.entries[k]));
        lemma_first_idx(sv.entries, p);
        assert(p(sv.entries[k]));
    }
    Some(b)
}

/// An owned copy of an optional string, with the same view.
fn clone_opt(s: &Option<String>) -> (r: Option<String>)
    ensures
        opt_view(r) == opt_view(*s),
{
    match s {
        Some(x) => Some(x.clone()),
        None => None,
    }
}

/// Find the first entry row carrying the external id.
pub fn find_entry_by_osu_id(store: &Store, osu_id: i32) -> (r: Option<&EntryRec>)
    ensures
        ({
            let k = entry_by_osu_idx(store@.entries, osu_id);
            match r {
                Some(e) => k != -1 && e@ == store@.entries[k],
                None => k == -1,
            }
        }),
{
    let ghost sv = store@;
    let ghost p = |e: EntryRecV| e.osu_id == Some(osu_id);
    let mut i: usize = 0;
    while i < store.entries.len()
        invariant
            i <= store.entries@.len(),
            sv == store@,
            sv.entries.len() == store.entries@.len(),
            p == (|e: EntryRecV| e.osu_id == Some(osu_id)),
            forall|j: int| 0 <= j < i ==> !p(#[trigger] sv.entries[j]),
        decreases store.entries@.len() - i,
    {
        let e = &store.entries[i];
        proof {
            assert(sv.entries[i as int] == e@);
        }
        let hit = match e.osu_id {
            Some(x) => x == osu_id,
            None => false,
        };
        if hit {
            proof {
                assert(p(sv.entries[i as int]));
                lemma_first_idx(sv.entries, p);
                assert(first_idx(sv.entries, p) == i as int);
            }
            return Some(e);
        }
        i = i + 1;
    }
    proof {
        lemma_first_idx(sv.entries, p);
    }
    None
}

} // verus!
