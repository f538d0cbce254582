use beatmap_catalog::filters::{BeatmapFilter, Filters, RatingFilter, SkillsetFilter};
use beatmap_catalog::materialize::group_beatmapset_rows;
use beatmap_catalog::search::{count_with_filters, find_all_with_filters, find_random_with_filters};
use beatmap_catalog::short::{Beatmap, Beatmapset, Rating, RowRating, SearchRow};
use beatmap_catalog::store::{EntryRec, ItemRec, ManiaRec, RatingRec, Store, VariantRec};
use beatmap_catalog::subset::{beatmap_score, preferred_rating_type, sort_and_limit_beatmaps};

fn entry(id: i64, osu_id: i32, artist: &str, title: &str, creator: &str) -> EntryRec {
    EntryRec {
        id,
        osu_id: Some(osu_id),
        artist: artist.to_string(),
        artist_unicode: None,
        title: title.to_string(),
        title_unicode: None,
        creator: creator.to_string(),
        source: None,
        tags: None,
        has_video: false,
        has_storyboard: false,
        is_explicit: false,
        is_featured: false,
        cover_url: Some(format!("https://covers.example/{}.jpg", id)),
        preview_url: None,
        osu_file_url: None,
    }
}

fn item(id: i64, set_id: i64, difficulty: &str, patterns: &[&str]) -> ItemRec {
    ItemRec {
        id,
        set_id,
        osu_id: Some(1000 + id as i32),
        difficulty: difficulty.to_string(),
        count_circles: 100,
        count_sliders: 20,
        count_spinners: 1,
        max_combo: 500,
        cs: 40000,
        ar: 90000,
        od: 80000,
        hp: 70000,
        mode: 3,
        status: "ranked".to_string(),
        main_pattern: patterns.iter().map(|p| p.to_string()).collect(),
    }
}

fn variant(id: i64, item_id: i64, centirate: i32) -> VariantRec {
    VariantRec {
        id,
        item_id,
        osu_hash: format!("hash{}", id),
        centirate,
        drain_time: 120,
        total_time: 150,
        bpm: 1800000,
    }
}

fn rating(id: i64, variant_id: i64, value: i64, rating_type: &str) -> RatingRec {
    RatingRec { id, variant_id, rating: value, rating_type: rating_type.to_string() }
}

/// One entry titled "Lovesick" with eight rated items, and one unrelated
/// entry that no "love" search should match.
fn lovesick_store() -> Store {
    let mut items = Vec::new();
    let mut variants = Vec::new();
    let mut ratings = Vec::new();
    for k in 0..8i64 {
        items.push(item(10 + k, 1, &format!("diff{}", k), &["stream"]));
        variants.push(variant(100 + k, 10 + k, 100));
        ratings.push(rating(200 + k, 100 + k, (k + 1) * 10000, "osu"));
    }
    items.push(item(30, 2, "other", &["jumpstream"]));
    variants.push(variant(130, 30, 100));
    ratings.push(rating(230, 130, 55000, "osu"));
    Store {
        entries: vec![
            entry(1, 111, "Artist A", "Lovesick", "mapper1"),
            entry(2, 222, "Artist B", "Unrelated", "mapper2"),
        ],
        items,
        variants,
        ratings,
        mania: Vec::new(),
    }
}

fn love_filters() -> Filters {
    Filters {
        rating: None,
        skillset: None,
        beatmap: Some(BeatmapFilter {
            search_term: Some("love".to_string()),
            total_time_min: None,
            total_time_max: None,
            bpm_min: None,
            bpm_max: None,
        }),
        beatmap_technical: None,
        rates: None,
        page: Some(0),
        per_page: Some(9),
    }
}

#[test]
fn search_term_truncates_to_six_and_keeps_true_count() {
    let store = lovesick_store();
    let result = find_all_with_filters(&store, &love_filters());
    assert_eq!(result.len(), 1);
    let set = &result[0];
    assert_eq!(set.title, "Lovesick");
    assert_eq!(set.osu_id, Some(111));
    assert_eq!(set.total_beatmaps, 8);
    assert_eq!(set.beatmaps.len(), 6);
    // ascending by score: the five easiest, then the single hardest
    let names: Vec<&str> = set.beatmaps.iter().map(|b| b.difficulty.as_str()).collect();
    assert_eq!(names, vec!["diff0", "diff1", "diff2", "diff3", "diff4", "diff7"]);
}

#[test]
fn count_is_independent_of_pagination() {
    let store = lovesick_store();
    let mut f = love_filters();
    assert_eq!(count_with_filters(&store, &f), 1);
    f.page = Some(7);
    f.per_page = Some(1);
    assert_eq!(count_with_filters(&store, &f), 1);
    // without the text facet both entries match
    f.beatmap = None;
    assert_eq!(count_with_filters(&store, &f), 2);
}

#[test]
fn empty_candidate_set_short_circuits() {
    let store = lovesick_store();
    let mut f = love_filters();
    f.beatmap.as_mut().unwrap().search_term = Some("zzz-no-such".to_string());
    assert_eq!(count_with_filters(&store, &f), 0);
    let result = find_all_with_filters(&store, &f);
    assert!(result.is_empty());
}

fn many_entries_store(n: i64) -> Store {
    let mut entries = Vec::new();
    let mut items = Vec::new();
    let mut variants = Vec::new();
    let mut ratings = Vec::new();
    for k in 0..n {
        entries.push(entry(k + 1, 100 + k as i32, "someone", &format!("song {}", k), "mapper"));
        items.push(item(1000 + k, k + 1, "easy", &["stream"]));
        variants.push(variant(2000 + k, 1000 + k, 100));
        ratings.push(rating(3000 + k, 2000 + k, 15000 + k * 100, "osu"));
    }
    Store { entries, items, variants, ratings, mania: Vec::new() }
}

#[test]
fn pages_union_equals_single_full_page() {
    let store = many_entries_store(5);
    let base = Filters {
        rating: None,
        skillset: None,
        beatmap: None,
        beatmap_technical: None,
        rates: None,
        page: Some(0),
        per_page: Some(2),
    };
    let total = count_with_filters(&store, &base);
    assert_eq!(total, 5);
    let mut union_ids: Vec<Option<i32>> = Vec::new();
    for p in 0..3usize {
        let mut f = base.clone();
        f.page = Some(p);
        for set in find_all_with_filters(&store, &f) {
            union_ids.push(set.osu_id);
        }
    }
    let mut one_call = base.clone();
    one_call.page = Some(0);
    one_call.per_page = Some(total);
    let all: Vec<Option<i32>> =
        find_all_with_filters(&store, &one_call).iter().map(|s| s.osu_id).collect();
    let mut union_sorted = union_ids.clone();
    union_sorted.sort();
    let mut all_sorted = all.clone();
    all_sorted.sort();
    assert_eq!(union_sorted, all_sorted);
    assert_eq!(union_ids.len(), 5);
}

#[test]
fn random_sample_is_bounded_distinct_and_matching() {
    let store = many_entries_store(12);
    let f = Filters {
        rating: None,
        skillset: None,
        beatmap: None,
        beatmap_technical: None,
        rates: None,
        page: None,
        per_page: None,
    };
    let a = find_random_with_filters(&store, &f, 1);
    let b = find_random_with_filters(&store, &f, 2);
    assert_eq!(a.len(), 9);
    assert_eq!(b.len(), 9);
    let mut ids: Vec<Option<i32>> = a.iter().map(|s| s.osu_id).collect();
    ids.sort();
    ids.dedup();
    assert_eq!(ids.len(), 9);
    // different seeds give a different ordering of a 12-entry population
    let order_a: Vec<Option<i32>> = a.iter().map(|s| s.osu_id).collect();
    let order_b: Vec<Option<i32>> = b.iter().map(|s| s.osu_id).collect();
    assert_ne!(order_a, order_b);
}

#[test]
fn skillset_bounds_use_the_mania_columns() {
    let mut store = lovesick_store();
    // give item 10's rating a mania sub-rating with a high stream score
    store.mania.push(ManiaRec {
        id: 1,
        rating_id: 200,
        stream: 250000,
        jumpstream: 0,
        handstream: 0,
        stamina: 0,
        jackspeed: 0,
        chordjack: 0,
        technical: 0,
    });
    let f = Filters {
        rating: None,
        skillset: Some(SkillsetFilter {
            pattern_type: Some("stream".to_string()),
            pattern_min: Some(200000),
            pattern_max: None,
        }),
        beatmap: None,
        beatmap_technical: None,
        rates: None,
        page: Some(0),
        per_page: Some(9),
    };
    // only the entry whose item carries a qualifying mania row matches
    assert_eq!(count_with_filters(&store, &f), 1);
    let result = find_all_with_filters(&store, &f);
    assert_eq!(result.len(), 1);
    assert_eq!(result[0].title, "Lovesick");
    assert_eq!(result[0].total_beatmaps, 1);
    // an unknown pattern name applies no bound, only membership
    let g = Filters {
        skillset: Some(SkillsetFilter {
            pattern_type: Some("mystery".to_string()),
            pattern_min: Some(999999),
            pattern_max: None,
        }),
        ..f.clone()
    };
    assert_eq!(count_with_filters(&store, &g), 0);
}

#[test]
fn each_bound_facet_narrows_the_candidates() {
    let store = lovesick_store();
    let none = Filters {
        rating: None,
        skillset: None,
        beatmap: None,
        beatmap_technical: None,
        rates: None,
        page: None,
        per_page: None,
    };
    // rating facet: both entries carry an osu rating of at least 50000,
    // only the first reaches 60000, and none reaches 90000
    let mut f = none.clone();
    f.rating = Some(RatingFilter {
        rating_type: Some("osu".to_string()),
        rating_min: Some(50000),
        rating_max: None,
    });
    assert_eq!(count_with_filters(&store, &f), 2);
    f.rating.as_mut().unwrap().rating_min = Some(60000);
    assert_eq!(count_with_filters(&store, &f), 1);
    f.rating.as_mut().unwrap().rating_min = Some(90000);
    assert_eq!(count_with_filters(&store, &f), 0);
    // tempo: every variant sits at 180 bpm (fixed-point)
    let mut g = none.clone();
    g.beatmap = Some(BeatmapFilter {
        search_term: None,
        total_time_min: Some(140),
        total_time_max: Some(160),
        bpm_min: Some(1700000),
        bpm_max: Some(1900000),
    });
    assert_eq!(count_with_filters(&store, &g), 2);
    g.beatmap.as_mut().unwrap().total_time_max = Some(100);
    assert_eq!(count_with_filters(&store, &g), 0);
    // technical: overall difficulty and status
    let mut h = none.clone();
    h.beatmap_technical = Some(beatmap_catalog::filters::BeatmapTechnicalFilter {
        od_min: Some(70000),
        od_max: Some(90000),
        status: Some("ranked".to_string()),
    });
    assert_eq!(count_with_filters(&store, &h), 2);
    h.beatmap_technical.as_mut().unwrap().status = Some("loved".to_string());
    assert_eq!(count_with_filters(&store, &h), 0);
    // drain time, in seconds
    let mut k = none.clone();
    k.rates = Some(beatmap_catalog::filters::RatesFilter {
        drain_time_min: Some(60),
        drain_time_max: Some(130),
    });
    assert_eq!(count_with_filters(&store, &k), 2);
    k.rates.as_mut().unwrap().drain_time_min = Some(121);
    assert_eq!(count_with_filters(&store, &k), 0);
}

#[test]
fn non_canonical_variants_do_not_match_the_search() {
    let mut store = lovesick_store();
    // a matching rating, but only on a sped-up variant
    store.entries.push(entry(3, 333, "Solo", "Rate Only", "mapper3"));
    store.items.push(item(40, 3, "fast", &["stream"]));
    store.variants.push(variant(140, 40, 150));
    store.ratings.push(rating(240, 140, 99000, "osu"));
    let f = Filters {
        rating: None,
        skillset: None,
        beatmap: None,
        beatmap_technical: None,
        rates: None,
        page: None,
        per_page: None,
    };
    assert_eq!(count_with_filters(&store, &f), 2);
}

#[test]
fn score_fallback_prefers_then_falls_back_then_none() {
    let with = |types: &[(&str, i64)]| Beatmap {
        osu_id: Some(1),
        difficulty: "d".to_string(),
        mode: 3,
        status: "ranked".to_string(),
        main_pattern: Vec::new(),
        ratings: types
            .iter()
            .map(|(t, v)| Rating { rating: *v, rating_type: t.to_string() })
            .collect(),
    };
    assert_eq!(beatmap_score(&with(&[("etterna", 70000), ("osu", 30000)]), "etterna"), Some(70000));
    assert_eq!(beatmap_score(&with(&[("osu", 30000)]), "etterna"), Some(30000));
    assert_eq!(beatmap_score(&with(&[("mania", 90000)]), "etterna"), None);
}

#[test]
fn sort_and_limit_keeps_five_easiest_plus_hardest() {
    let mk = |n: i32, score: i64| Beatmap {
        osu_id: Some(n),
        difficulty: format!("d{}", n),
        mode: 3,
        status: "ranked".to_string(),
        main_pattern: Vec::new(),
        ratings: vec![Rating { rating: score, rating_type: "osu".to_string() }],
    };
    let mut sets = vec![Beatmapset {
        osu_id: Some(1),
        artist: "a".to_string(),
        title: "t".to_string(),
        creator: "c".to_string(),
        cover_url: None,
        total_beatmaps: 0,
        beatmaps: vec![
            mk(1, 50000),
            mk(2, 10000),
            mk(3, 80000),
            mk(4, 30000),
            mk(5, 70000),
            mk(6, 20000),
            mk(7, 60000),
            mk(8, 40000),
        ],
    }];
    sort_and_limit_beatmaps(&mut sets, "osu");
    let set = &sets[0];
    assert_eq!(set.total_beatmaps, 8);
    let kept: Vec<Option<i32>> = set.beatmaps.iter().map(|b| b.osu_id).collect();
    // ascending: 10000, 20000, 30000, 40000, 50000 then the hardest 80000
    assert_eq!(kept, vec![Some(2), Some(6), Some(4), Some(8), Some(1), Some(3)]);
    // six or fewer items: the full sorted list is kept
    let mut small = vec![Beatmapset {
        osu_id: Some(2),
        artist: "a".to_string(),
        title: "t".to_string(),
        creator: "c".to_string(),
        cover_url: None,
        total_beatmaps: 0,
        beatmaps: vec![mk(1, 30000), mk(2, 10000), mk(3, 20000)],
    }];
    sort_and_limit_beatmaps(&mut small, "osu");
    assert_eq!(small[0].total_beatmaps, 3);
    let kept_small: Vec<Option<i32>> = small[0].beatmaps.iter().map(|b| b.osu_id).collect();
    assert_eq!(kept_small, vec![Some(2), Some(3), Some(1)]);
}

#[test]
fn preferred_type_defaults_to_osu() {
    let mut f = love_filters();
    assert_eq!(preferred_rating_type(&f), "osu");
    f.rating = Some(RatingFilter {
        rating_type: Some("etterna".to_string()),
        rating_min: None,
        rating_max: None,
    });
    assert_eq!(preferred_rating_type(&f), "etterna");
}

fn ok_row(set_id: i64, item_id: i64, rating: Option<(i64, i64, &str)>) -> SearchRow {
    SearchRow {
        set_id: Some(set_id),
        set_osu_id: Some(set_id as i32),
        artist: "a".to_string(),
        title: "t".to_string(),
        creator: "c".to_string(),
        cover_url: None,
        item_id: Some(item_id),
        item_osu_id: Some(item_id as i32),
        difficulty: format!("d{}", item_id),
        mode: 3,
        status: "ranked".to_string(),
        main_pattern: vec!["stream".to_string()],
        rating: rating.map(|(id, value, t)| RowRating {
            rating_id: id,
            rating: value,
            rating_type: t.to_string(),
        }),
    }
}

#[test]
fn materializer_merges_repeated_identities() {
    let rows = vec![
        ok_row(1, 10, Some((1, 11000, "osu"))),
        ok_row(1, 10, Some((2, 12000, "etterna"))),
        ok_row(1, 20, None),
        ok_row(2, 30, Some((3, 13000, "osu"))),
    ];
    let sets = group_beatmapset_rows(&rows).expect("well-formed rows");
    assert_eq!(sets.len(), 2);
    assert_eq!(sets[0].beatmaps.len(), 2);
    assert_eq!(sets[0].beatmaps[0].ratings.len(), 2);
    assert_eq!(sets[0].beatmaps[0].ratings[0].rating_type, "osu");
    assert_eq!(sets[0].beatmaps[0].ratings[1].rating_type, "etterna");
    // a null-rating row still creates its item, with no ratings
    assert_eq!(sets[0].beatmaps[1].ratings.len(), 0);
    assert_eq!(sets[1].beatmaps.len(), 1);
}

#[test]
fn materializer_rejects_missing_identity() {
    let mut bad = ok_row(1, 10, None);
    bad.set_id = None;
    assert!(group_beatmapset_rows(&vec![bad]).is_err());
    let mut bad2 = ok_row(1, 10, None);
    bad2.item_id = None;
    assert!(group_beatmapset_rows(&vec![bad2]).is_err());
}
