use beatmap_catalog::common::ApiResponse;
use beatmap_catalog::filters::{Filters, SkillsetFilter};
use beatmap_catalog::fragment::{apply_filters, Param, Piece, QueryFragment};
use beatmap_catalog::full::find_full_by_osu_id;
use beatmap_catalog::pending::find_status_by_osu_id;
use beatmap_catalog::rate::{
    find_rate_by_beatmap_osu_id_and_centirate, find_rate_by_osu_id_and_centirate,
    find_ratings_by_osu_id_and_centirate, ModeRating,
};
use beatmap_catalog::simple::find_by_osu_id;
use beatmap_catalog::store::{EntryRec, ItemRec, ManiaRec, PendingRec, RatingRec, Store, VariantRec};

fn entry(id: i64, osu_id: i32, title: &str) -> EntryRec {
    EntryRec {
        id,
        osu_id: Some(osu_id),
        artist: "artist".to_string(),
        artist_unicode: None,
        title: title.to_string(),
        title_unicode: None,
        creator: "creator".to_string(),
        source: None,
        tags: Some(vec!["jazz".to_string(), "swing".to_string()]),
        has_video: false,
        has_storyboard: true,
        is_explicit: false,
        is_featured: false,
        cover_url: None,
        preview_url: None,
        osu_file_url: None,
    }
}

fn item(id: i64, set_id: i64, osu_id: i32, difficulty: &str) -> ItemRec {
    ItemRec {
        id,
        set_id,
        osu_id: Some(osu_id),
        difficulty: difficulty.to_string(),
        count_circles: 10,
        count_sliders: 5,
        count_spinners: 0,
        max_combo: 42,
        cs: 40000,
        ar: 90000,
        od: 85000,
        hp: 60000,
        mode: 3,
        status: "ranked".to_string(),
        main_pattern: vec!["stream".to_string()],
    }
}

fn variant(id: i64, item_id: i64, centirate: i32) -> VariantRec {
    VariantRec {
        id,
        item_id,
        osu_hash: format!("h{}", id),
        centirate,
        drain_time: 100,
        total_time: 120,
        bpm: 1750000,
    }
}

fn rating(id: i64, variant_id: i64, value: i64, t: &str) -> RatingRec {
    RatingRec { id, variant_id, rating: value, rating_type: t.to_string() }
}

fn nested_store() -> Store {
    Store {
        entries: vec![entry(1, 4242, "Full Tree")],
        items: vec![item(10, 1, 900, "hard"), item(11, 1, 901, "easy")],
        variants: vec![
            variant(100, 10, 100),
            variant(101, 10, 150),
            variant(102, 11, 100),
        ],
        ratings: vec![
            rating(200, 100, 52000, "osu"),
            rating(201, 100, 61000, "etterna"),
            rating(202, 101, 83000, "osu"),
            rating(203, 102, 21000, "osu"),
        ],
        mania: vec![ManiaRec {
            id: 7,
            rating_id: 200,
            stream: 111000,
            jumpstream: 1,
            handstream: 2,
            stamina: 3,
            jackspeed: 4,
            chordjack: 5,
            technical: 6,
        }],
    }
}

#[test]
fn load_full_returns_the_whole_tree() {
    let store = nested_store();
    let set = find_full_by_osu_id(&store, 4242).expect("entry exists");
    assert_eq!(set.id, Some(1));
    assert_eq!(set.osu_id, Some(4242));
    assert_eq!(set.title, "Full Tree");
    assert_eq!(set.tags, Some("jazz swing".to_string()));
    assert_eq!(set.beatmaps.len(), 2);
    // the first item carries both variants, canonical and not
    let hard = &set.beatmaps[0];
    assert_eq!(hard.difficulty, "hard");
    assert_eq!(hard.rates.len(), 2);
    assert_eq!(hard.rates[0].centirate, 100);
    assert_eq!(hard.rates[1].centirate, 150);
    assert_eq!(hard.rates[0].rating.len(), 2);
    assert_eq!(hard.rates[1].rating.len(), 1);
    // the mania sub-rating rides on its rating; absent ones default to zero
    match &hard.rates[0].rating[0].mode_rating {
        ModeRating::Mania(m) => {
            assert_eq!(m.id, Some(7));
            assert_eq!(m.stream, 111000);
        }
        _ => panic!("expected a mania sub-rating"),
    }
    match &hard.rates[0].rating[1].mode_rating {
        ModeRating::Mania(m) => {
            assert_eq!(m.id, None);
            assert_eq!(m.stream, 0);
        }
        _ => panic!("expected a mania sub-rating"),
    }
}

#[test]
fn load_full_on_unknown_id_is_absent_not_an_error() {
    let store = nested_store();
    assert!(find_full_by_osu_id(&store, 12345).is_none());
}

#[test]
fn find_rate_fetches_one_variant_with_its_ratings() {
    let store = nested_store();
    let rate = find_rate_by_osu_id_and_centirate(&store, 900, 150).expect("variant exists");
    assert_eq!(rate.id, Some(101));
    assert_eq!(rate.centirate, 150);
    assert_eq!(rate.rating.len(), 1);
    assert_eq!(rate.rating[0].rating, 83000);
    assert!(find_rate_by_osu_id_and_centirate(&store, 900, 200).is_none());
    assert!(find_rate_by_osu_id_and_centirate(&store, 999, 100).is_none());
    // the variant-centric route answers identically
    let again = find_rate_by_beatmap_osu_id_and_centirate(&store, 900, 150).expect("variant");
    assert_eq!(again.id, Some(101));
}

#[test]
fn find_ratings_fetches_the_variant_ratings() {
    let store = nested_store();
    let ratings = find_ratings_by_osu_id_and_centirate(&store, 900, 100);
    assert_eq!(ratings.len(), 2);
    assert_eq!(ratings[0].rating_type, "osu");
    assert_eq!(ratings[1].rating_type, "etterna");
    assert!(find_ratings_by_osu_id_and_centirate(&store, 900, 999).is_empty());
}

#[test]
fn simple_view_selects_by_rating_type() {
    let store = nested_store();
    let set = find_by_osu_id(&store, 4242, Some("etterna".to_string())).expect("entry exists");
    assert_eq!(set.id, 1);
    // only the item whose canonical variant carries an "etterna" rating
    assert_eq!(set.beatmaps.len(), 1);
    assert_eq!(set.beatmaps[0].beatmap_osu_id, 900);
    assert_eq!(set.beatmaps[0].ratings.len(), 1);
    assert_eq!(set.beatmaps[0].ratings[0].rating_value, 61000);
    // without a selection, every rated item appears with all its ratings
    let all = find_by_osu_id(&store, 4242, None).expect("entry exists");
    assert_eq!(all.beatmaps.len(), 2);
    assert_eq!(all.beatmaps[0].ratings.len(), 2);
    assert!(find_by_osu_id(&store, 5555, None).is_none());
}

#[test]
fn simple_view_absence_mirrors_the_empty_result_set() {
    // an entry whose only item has no canonical variant yields no row
    let store_no_canon = Store {
        entries: vec![entry(1, 777, "No Canon")],
        items: vec![item(10, 1, 900, "only")],
        variants: vec![variant(100, 10, 150)],
        ratings: vec![rating(200, 100, 50000, "osu")],
        mania: Vec::new(),
    };
    assert!(find_by_osu_id(&store_no_canon, 777, None).is_none());
    assert!(find_by_osu_id(&store_no_canon, 777, Some("osu".to_string())).is_none());
    // with a selection that no canonical variant's rating carries, no row
    let store = nested_store();
    assert!(find_by_osu_id(&store, 4242, Some("unknown".to_string())).is_none());
    // without a selection, a canonical variant with no ratings still yields
    // a null-extended row: the entry comes back, with no materialized items
    let store_unrated = Store {
        entries: vec![entry(1, 888, "Unrated")],
        items: vec![item(10, 1, 900, "only")],
        variants: vec![variant(100, 10, 100)],
        ratings: Vec::new(),
        mania: Vec::new(),
    };
    let set = find_by_osu_id(&store_unrated, 888, None).expect("a row exists");
    assert!(set.beatmaps.is_empty());
    // but with a selection the null rating fails the type test: no row
    assert!(find_by_osu_id(&store_unrated, 888, Some("osu".to_string())).is_none());
}

#[test]
fn variant_ratings_come_back_in_ascending_id_order() {
    // rating rows stored newest-first: the loader orders them by id
    let store = Store {
        entries: vec![entry(1, 4242, "Order")],
        items: vec![item(10, 1, 900, "hard")],
        variants: vec![variant(100, 10, 100)],
        ratings: vec![
            rating(203, 100, 40000, "d"),
            rating(201, 100, 20000, "b"),
            rating(202, 100, 30000, "c"),
            rating(200, 100, 10000, "a"),
        ],
        mania: Vec::new(),
    };
    let ratings = find_ratings_by_osu_id_and_centirate(&store, 900, 100);
    let ids: Vec<Option<i64>> = ratings.iter().map(|r| r.id).collect();
    assert_eq!(ids, vec![Some(200), Some(201), Some(202), Some(203)]);
    let types: Vec<&str> = ratings.iter().map(|r| r.rating_type.as_str()).collect();
    assert_eq!(types, vec!["a", "b", "c", "d"]);
}

#[test]
fn pending_status_ranks_by_submission_time() {
    let queue = vec![
        PendingRec { osu_id: 7, created_at: 300 },
        PendingRec { osu_id: 8, created_at: 100 },
        PendingRec { osu_id: 9, created_at: 200 },
    ];
    let st = find_status_by_osu_id(&queue, 7).expect("queued");
    assert_eq!(st.position, 3);
    assert_eq!(st.total, 3);
    let st8 = find_status_by_osu_id(&queue, 8).expect("queued");
    assert_eq!(st8.position, 1);
    assert!(find_status_by_osu_id(&queue, 99).is_none());
}

#[test]
fn api_response_envelopes() {
    let ok: ApiResponse<u32> = ApiResponse::ok("done".to_string(), Some(5));
    assert_eq!(ok.status, "200");
    assert_eq!(ok.message, "done");
    assert_eq!(ok.data, Some(5));
    let err: ApiResponse<u32> = ApiResponse::error("404".to_string(), "missing".to_string());
    assert_eq!(err.status, "404");
    assert_eq!(err.data, None);
}

#[test]
fn query_shapes_share_the_joins_and_the_conjunction() {
    let f = Filters {
        rating: Some(beatmap_catalog::filters::RatingFilter {
            rating_type: None,
            rating_min: Some(20000),
            rating_max: None,
        }),
        skillset: None,
        beatmap: None,
        beatmap_technical: None,
        rates: None,
        page: Some(2),
        per_page: Some(10),
    };
    let sql_of = |q: &QueryFragment| {
        let mut sql = String::new();
        for piece in &q.pieces {
            match piece {
                Piece::Sql(s) => sql.push_str(s),
                Piece::Bind(_) => sql.push('?'),
            }
        }
        sql
    };
    let count = sql_of(&beatmap_catalog::fragment::build_count_query(&f));
    let cand = sql_of(&beatmap_catalog::fragment::build_candidate_query(&f));
    let random = sql_of(&beatmap_catalog::fragment::build_random_query(&f));
    let detail = sql_of(&beatmap_catalog::fragment::build_detail_query(&f, vec![1, 2]));
    // the rating facet forces the rating join in every shape
    for sql in [&count, &cand, &random, &detail] {
        assert!(sql.contains("INNER JOIN beatmap_rating br"));
        assert!(sql.contains(" WHERE r.centirate = 100 AND br.rating >= ?"));
        assert!(!sql.contains("beatmap_mania_rating"));
    }
    assert!(count.starts_with("SELECT COUNT(DISTINCT bs.id)"));
    assert!(cand.ends_with(" ORDER BY bs.id LIMIT ? OFFSET ?"));
    assert!(random.ends_with(") AS filtered_ids ORDER BY RANDOM() LIMIT 9"));
    assert!(detail.ends_with(" AND bs.id = ANY(?) ORDER BY bs.id, b.id, br.id"));
    // without any rating-level facet the detail rating join turns outer
    let bare = Filters {
        rating: None,
        skillset: None,
        beatmap: None,
        beatmap_technical: None,
        rates: None,
        page: None,
        per_page: None,
    };
    let bare_count = sql_of(&beatmap_catalog::fragment::build_count_query(&bare));
    let bare_detail = sql_of(&beatmap_catalog::fragment::build_detail_query(&bare, vec![1]));
    assert!(!bare_count.contains("beatmap_rating"));
    assert!(bare_detail.contains("LEFT JOIN beatmap_rating br"));
}

#[test]
fn builder_binds_values_instead_of_interpolating() {
    let f = Filters {
        rating: None,
        skillset: Some(SkillsetFilter {
            pattern_type: Some("stream".to_string()),
            pattern_min: Some(150000),
            pattern_max: None,
        }),
        beatmap: Some(beatmap_catalog::filters::BeatmapFilter {
            search_term: Some("it's \"quoted\"".to_string()),
            total_time_min: None,
            total_time_max: None,
            bpm_min: None,
            bpm_max: None,
        }),
        beatmap_technical: None,
        rates: None,
        page: None,
        per_page: None,
    };
    let mut b = QueryFragment::new();
    apply_filters(&mut b, &f);
    let mut sql = String::new();
    let mut texts: Vec<String> = Vec::new();
    let mut jsons: Vec<String> = Vec::new();
    let mut nums: Vec<i64> = Vec::new();
    for piece in &b.pieces {
        match piece {
            Piece::Sql(s) => sql.push_str(s),
            Piece::Bind(Param::Text(t)) => texts.push(t.clone()),
            Piece::Bind(Param::Json(j)) => jsons.push(j.clone()),
            Piece::Bind(Param::Num(n)) => nums.push(*n),
            Piece::Bind(_) => {}
        }
    }
    // the raw search term never reaches the SQL text, only the parameters
    assert!(!sql.contains("quoted"));
    assert_eq!(
        sql,
        " AND (bs.artist ILIKE  OR bs.title ILIKE  OR bs.creator ILIKE ) AND b.main_pattern @>  AND bmr.stream >= "
    );
    assert_eq!(texts.len(), 3);
    assert!(texts.iter().all(|t| t == "%it's \"quoted\"%"));
    // the membership parameter is the rendered JSON one-element array
    assert_eq!(jsons, vec!["[\"stream\"]".to_string()]);
    assert_eq!(nums, vec![150000]);
}
