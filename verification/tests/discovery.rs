//! Catalog rows.

use std::collections::HashMap;

use card_feeder::card::{Card, CardLinks, DiscoveryRecord};
use card_feeder::consts::{DISCOVERY_EXCLUDED_KEYWORDS, DISCOVERY_MAX_PAGES};
use card_feeder::discovery::{
    build_path_and_query, card_from_hit, cards_for_discovery, discovery_kind, discovery_mode,
    filter_is_true, genre_fold, is_discovery_query, requested_genres, with_genres_ids,
    DiscoveryMode, RowWalk,
};
use card_feeder::keyed::KeyMap;
use card_feeder::query::GatewayQuery;
use card_feeder::tmdb_client::{TmdbClient, TmdbHit, TmdbKind};

fn query(filters: &[(&str, &str)]) -> GatewayQuery {
    let mut map: KeyMap<Vec<String>> = KeyMap::new();
    for (k, v) in filters {
        let mut values = map.get(k).cloned().unwrap_or_default();
        values.push(v.to_string());
        map.insert(k.to_string(), values);
    }
    GatewayQuery { free_text: String::new(), filters: map }
}

fn genre_table() -> HashMap<u32, String> {
    HashMap::from([(16, "Animation".to_string()), (18, "Drama".to_string())])
}

fn hit() -> TmdbHit {
    TmdbHit {
        tmdbid: 95479,
        title: "Frieren: Beyond Journey's End".to_string(),
        original_title: Some("葬送のフリーレン".to_string()),
        original_language: Some("ja".to_string()),
        overview: Some("A mage reflects on her long life.".to_string()),
        year: Some(2023),
        poster_path: Some("/poster.jpg".to_string()),
        genre_ids: vec![16],
        alt_titles: Vec::new(),
        akas: Vec::new(),
        posters: Vec::new(),
    }
}

fn links() -> CardLinks {
    CardLinks { cid: None, domain: None, work_form: None, locators: KeyMap::new() }
}

fn field<'a>(rec: &'a DiscoveryRecord, key: &str) -> Option<&'a str> {
    rec.fields.get(key).map(|v| v.as_str())
}

#[test]
fn selects_only_keyword_less_mode_queries() {
    assert!(is_discovery_query(&query(&[
        ("popular", "true"),
        ("contentKind", "series"),
        ("fileType", "card"),
    ])));
    // A mode marker but with free text: the principal search owns it.
    let mut with_text = query(&[("popular", "true"), ("contentKind", "series")]);
    with_text.free_text = "frieren".to_string();
    assert!(!is_discovery_query(&with_text));
    // An explicit id: the by-id lookup owns it.
    assert!(!is_discovery_query(&query(&[("popular", "true"), ("tmdbid", "95479")])));
    // contentKind alone must not select this branch.
    assert!(!is_discovery_query(&query(&[("contentKind", "series"), ("fileType", "card")])));
    // A falsey marker is not a marker.
    assert!(!is_discovery_query(&query(&[("popular", "false")])));
}

#[test]
fn modes_are_taken_in_precedence_order() {
    assert_eq!(
        discovery_mode(&query(&[("top_rated", "true"), ("popular", "TRUE"), ("trending", "no")])),
        Some(DiscoveryMode::Popular)
    );
    assert_eq!(
        discovery_mode(&query(&[("popular", "true"), ("trending", "no"), ("trending", "True")])),
        Some(DiscoveryMode::Trending)
    );
    assert_eq!(discovery_mode(&query(&[("top_rated", "true")])), Some(DiscoveryMode::TopRated));
    assert_eq!(discovery_mode(&query(&[])), None);
    assert!(filter_is_true(&query(&[("anime", "tRuE")]), "anime"));
    assert!(!filter_is_true(&query(&[("anime", " true")]), "anime"));
    assert_eq!(DiscoveryMode::Popular.marker(), "popular");
    assert_eq!(DiscoveryMode::Trending.marker(), "trending");
    assert_eq!(DiscoveryMode::TopRated.marker(), "top_rated");
    assert_eq!(DiscoveryMode::Trending.discover_sort(), "popularity.desc");
    assert_eq!(DiscoveryMode::TopRated.discover_sort(), "vote_average.desc");
}

#[test]
fn content_kind_maps_series_and_the_legacy_spellings() {
    assert_eq!(discovery_kind(&query(&[("contentKind", "series")])), Some(TmdbKind::Tv));
    assert_eq!(discovery_kind(&query(&[("contentKind", "episode")])), Some(TmdbKind::Tv));
    assert_eq!(discovery_kind(&query(&[("contentKind", "movie")])), Some(TmdbKind::Movie));
    assert_eq!(discovery_kind(&query(&[("contentKind", "audiobook")])), None);
    assert_eq!(discovery_kind(&query(&[])), None);
    // The first value with a kind decides, spaces and case aside.
    assert_eq!(
        discovery_kind(&query(&[("contentKind", "audiobook"), ("contentKind", " TvShow ")])),
        Some(TmdbKind::Tv)
    );
}

#[test]
fn builds_the_catalog_endpoints() {
    let pop = build_path_and_query(DiscoveryMode::Popular, TmdbKind::Movie, false, &[], 1);
    assert!(pop.starts_with("discover/movie?"), "{pop}");
    assert!(pop.contains("sort_by=popularity.desc"), "{pop}");
    assert!(pop.contains("page=1"), "{pop}");

    let paged = build_path_and_query(DiscoveryMode::Popular, TmdbKind::Tv, false, &[], 2);
    assert!(paged.starts_with("discover/tv?"), "{paged}");
    assert!(paged.contains("page=2"), "{paged}");

    let top = build_path_and_query(DiscoveryMode::TopRated, TmdbKind::Movie, false, &[], 1);
    assert!(top.contains("sort_by=vote_average.desc"), "{top}");
    assert!(top.contains("vote_count.gte=200"), "{top}");

    assert_eq!(
        build_path_and_query(DiscoveryMode::Trending, TmdbKind::Tv, false, &[], 1),
        "trending/tv/week?page=1"
    );
}

#[test]
fn a_catalog_path_is_spelled_out() {
    assert_eq!(
        build_path_and_query(DiscoveryMode::Trending, TmdbKind::Movie, true, &[16, 35], 3),
        "discover/movie?with_keywords=210024&with_genres=16%7C35&sort_by=popularity.desc\
         &include_adult=false&without_keywords=198385,155477,325693,445,161919\
         &vote_count.gte=50&page=3"
    );
    assert_eq!(
        build_path_and_query(DiscoveryMode::TopRated, TmdbKind::Tv, false, &[], 1),
        "discover/tv?sort_by=vote_average.desc&include_adult=false\
         &without_keywords=198385,155477,325693,445,161919&vote_count.gte=200&page=1"
    );
}

#[test]
fn anime_switches_to_the_keyword_filtered_discover_endpoint() {
    let p = build_path_and_query(DiscoveryMode::Popular, TmdbKind::Tv, true, &[], 1);
    assert!(p.starts_with("discover/tv?"), "{p}");
    assert!(p.contains("with_keywords=210024"), "{p}");
    assert!(p.contains("sort_by=popularity.desc"), "{p}");
    let top = build_path_and_query(DiscoveryMode::TopRated, TmdbKind::Movie, true, &[], 1);
    assert!(top.contains("sort_by=vote_average.desc"), "{top}");
    assert!(top.contains("vote_count.gte=200"), "{top}");
}

#[test]
fn non_anime_popular_and_top_rated_also_gate() {
    for mode in [DiscoveryMode::Popular, DiscoveryMode::TopRated] {
        let p = build_path_and_query(mode, TmdbKind::Tv, false, &[], 1);
        assert!(p.starts_with("discover/tv?"), "{p}");
        assert!(!p.contains("with_keywords="), "no anime narrowing here: {p}");
        assert!(p.contains("without_keywords="), "{p}");
        assert!(p.contains("vote_count.gte="), "{p}");
    }
}

#[test]
fn non_anime_trending_keeps_the_real_trending_endpoint() {
    let p = build_path_and_query(DiscoveryMode::Trending, TmdbKind::Tv, false, &[], 1);
    assert_eq!(p, "trending/tv/week?page=1");
    let a = build_path_and_query(DiscoveryMode::Trending, TmdbKind::Tv, true, &[], 1);
    assert!(a.starts_with("discover/tv?"), "{a}");
    assert!(a.contains("without_keywords="), "{a}");
}

#[test]
fn a_genre_row_narrows_upstream() {
    let p = build_path_and_query(DiscoveryMode::Popular, TmdbKind::Tv, false, &[10759], 1);
    assert!(p.contains("with_genres=10759"), "{p}");
    // Multi-valued = OR, so pipe-joined (comma would mean AND to TMDB).
    let multi = build_path_and_query(DiscoveryMode::Popular, TmdbKind::Tv, false, &[16, 35], 1);
    assert!(multi.contains("with_genres=16%7C35"), "{multi}");
    // No genre filter: the parameter is absent, not empty.
    let none = build_path_and_query(DiscoveryMode::Popular, TmdbKind::Tv, false, &[], 1);
    assert!(!none.contains("with_genres"), "{none}");
}

#[test]
fn a_genre_scoped_trending_row_falls_back_to_discover() {
    let p = build_path_and_query(DiscoveryMode::Trending, TmdbKind::Tv, false, &[10759], 1);
    assert!(p.starts_with("discover/tv?"), "{p}");
    assert!(p.contains("with_genres=10759"), "{p}");
}

#[test]
fn genre_slugs_resolve_to_tmdb_ids() {
    let names = HashMap::from([
        (16u32, "Animation".to_string()),
        (10759, "Action & Adventure".to_string()),
        (10765, "Sci-Fi & Fantasy".to_string()),
    ]);
    let want = |s: &str| with_genres_ids(&vec![genre_fold(s)], &names);
    assert_eq!(want("action-adventure"), vec![10759]);
    assert_eq!(want("Action & Adventure"), vec![10759]);
    assert_eq!(want("scififantasy"), vec![10765]);
    assert_eq!(want("animation"), vec![16]);
    assert!(want("horror").is_empty(), "unknown slug resolves to nothing");
}

#[test]
fn wanted_ids_come_in_ascending_order() {
    let names: HashMap<u32, String> = (0..40u32).map(|i| (97 * i % 41, "Drama".to_string())).collect();
    let ids = with_genres_ids(&vec!["drama".to_string(), "other".to_string()], &names);
    let mut expected: Vec<u32> = names.keys().copied().collect();
    expected.sort();
    assert_eq!(ids, expected);
}

#[test]
fn genre_fold_matches_the_consumer_side_rule() {
    assert_eq!(genre_fold("Action & Adventure"), "actionadventure");
    assert_eq!(genre_fold("action-adventure"), "actionadventure");
    assert_eq!(genre_fold("Sci-Fi & Fantasy"), "scififantasy");
    assert_eq!(genre_fold("Science Fiction"), "sciencefiction");
    assert_eq!(genre_fold("  "), "");
    assert_eq!(genre_fold("ÉPOPÉE İ"), "épopée i\u{307}".replace(' ', ""));
}

#[test]
fn requested_genres_are_folded_and_blank_ones_dropped() {
    let q = query(&[("genres", "Sci-Fi"), ("genres", " & "), ("genres", "drama")]);
    assert_eq!(requested_genres(&q), vec!["scifi", "drama"]);
    assert!(requested_genres(&query(&[])).is_empty());
}

#[test]
fn anime_rows_gate_adult_content_three_ways() {
    for mode in [DiscoveryMode::Popular, DiscoveryMode::Trending, DiscoveryMode::TopRated] {
        for kind in [TmdbKind::Tv, TmdbKind::Movie] {
            let p = build_path_and_query(mode, kind, true, &[], 1);
            assert!(p.contains("include_adult=false"), "{p}");
            assert!(
                p.contains(&format!("without_keywords={DISCOVERY_EXCLUDED_KEYWORDS}")),
                "{p}"
            );
            assert!(p.contains("vote_count.gte="), "{p}");
        }
    }
}

#[test]
fn a_list_hit_becomes_a_complete_card() {
    let c = card_from_hit(&hit(), TmdbKind::Tv, &genre_table());
    assert_eq!(c.tmdbid, Some(95479));
    assert!(c.overview.is_some(), "overview is what to_record requires");
    assert!(c.poster_path.is_some(), "poster is what to_record requires");
    assert_eq!(c.year, Some(2023));
    assert_eq!(c.content_kind(), "series");
    assert_eq!(c.genres, vec!["Animation".to_string()]);
    assert_eq!(c.tvdb_id, None);
    assert_eq!(c.imdb_id, None);
    assert_eq!(
        c.guard_titles,
        vec!["Frieren: Beyond Journey's End".to_string(), "葬送のフリーレン".to_string()]
    );
    assert_eq!(
        c.names,
        vec![
            ("jpn", "葬送のフリーレン".to_string()),
            ("eng", "Frieren: Beyond Journey's End".to_string()),
        ]
    );
}

#[test]
fn record_id_matches_the_by_id_path() {
    assert_eq!(
        card_from_hit(&hit(), TmdbKind::Tv, &genre_table()).record_id(),
        "tmdb:tv:95479"
    );
    assert_eq!(
        card_from_hit(&hit(), TmdbKind::Movie, &genre_table()).record_id(),
        "tmdb:movie:95479"
    );
}

#[test]
fn a_discovery_card_survives_the_consumer_re_filter() {
    let q = query(&[
        ("popular", "true"),
        ("contentKind", "series"),
        ("fileType", "card"),
        ("anime", "true"),
    ]);
    let card = card_from_hit(&hit(), TmdbKind::Tv, &genre_table());
    let tmdb = TmdbClient::new("token".to_string());
    let rec = card.to_record(&tmdb, &q.filters, &links()).expect("displayable card emits");

    assert_eq!(field(&rec, "popular"), Some("true"));
    assert_eq!(field(&rec, "anime"), Some("true"));
    assert_eq!(field(&rec, "fileType"), Some("card"));
    assert_eq!(
        field(&rec, "contentKind"),
        Some("series"),
        "the card's own kind must win over the query filter"
    );
    assert!(rec.fields.contains_key("description/eng"));
    assert!(rec.fields.contains_key("poster_url"));
    assert_eq!(field(&rec, "genres/Animation"), Some("true"));
    assert!(!rec.fields.contains_key("genres"), "must not write the legacy csv-set");
    assert!(!rec.fields.contains_key("tvdbid"));
    assert!(!rec.fields.contains_key("imdbid"));
    assert!(!rec.fields.contains_key("seasonCount"));

    // Re-applying the filters: each is present, with the value asked for.
    for i in 0..q.filters.len() {
        let value = rec.fields.get(q.filters.key_at(i)).expect("a missing field fails the match");
        assert!(q.filters.value_at(i).contains(value));
    }
}

#[test]
fn an_incomplete_hit_is_not_displayable() {
    let mut no_overview = hit();
    no_overview.overview = None;
    assert!(!card_from_hit(&no_overview, TmdbKind::Tv, &genre_table()).is_displayable());

    let mut no_poster = hit();
    no_poster.poster_path = None;
    assert!(!card_from_hit(&no_poster, TmdbKind::Tv, &genre_table()).is_displayable());

    let mut blank_poster = hit();
    blank_poster.poster_path = Some("  ".to_string());
    assert!(!card_from_hit(&blank_poster, TmdbKind::Tv, &genre_table()).is_displayable());

    assert!(card_from_hit(&hit(), TmdbKind::Tv, &genre_table()).is_displayable());
}

#[test]
fn content_kind_comes_from_the_card_not_the_filter() {
    let tv = card_from_hit(&hit(), TmdbKind::Tv, &genre_table());
    assert_eq!(tv.content_kind(), "series");
    let movie = card_from_hit(&hit(), TmdbKind::Movie, &genre_table());
    assert_eq!(movie.content_kind(), "movie");
}

fn page(from: u64, displayable: usize, declined: usize) -> Option<Vec<TmdbHit>> {
    let mut hits = Vec::new();
    for i in 0..displayable + declined {
        let mut h = hit();
        h.tmdbid = from + i as u64;
        if i >= displayable {
            h.overview = None;
        }
        hits.push(h);
    }
    Some(hits)
}

fn row_query() -> GatewayQuery {
    query(&[("popular", "true"), ("contentKind", "series")])
}

fn ids(cards: &[Card]) -> Vec<u64> {
    cards.iter().map(|c| c.tmdbid.unwrap()).collect()
}

#[test]
fn a_row_walks_pages_until_it_is_full() {
    let replies = vec![page(0, 17, 3), page(100, 20, 0), page(200, 20, 0)];
    let cards = cards_for_discovery(&row_query(), &genre_table(), replies, 20);
    let expected: Vec<u64> = (0..17).chain(100..103).collect();
    assert_eq!(ids(&cards), expected);
}

#[test]
fn a_row_keeps_what_it_has_when_a_page_fails_or_is_empty() {
    let replies = vec![page(0, 5, 0), None, page(200, 20, 0)];
    assert_eq!(
        ids(&cards_for_discovery(&row_query(), &genre_table(), replies, 20)),
        (0..5).collect::<Vec<u64>>()
    );
    let replies = vec![page(0, 5, 0), Some(Vec::new()), page(200, 20, 0)];
    assert_eq!(cards_for_discovery(&row_query(), &genre_table(), replies, 20).len(), 5);
}

#[test]
fn a_row_needs_a_mode_a_kind_and_a_known_genre() {
    let replies = || vec![page(0, 20, 0)];
    let no_kind = query(&[("popular", "true")]);
    assert!(cards_for_discovery(&no_kind, &genre_table(), replies(), 20).is_empty());
    let no_mode = query(&[("contentKind", "movie")]);
    assert!(cards_for_discovery(&no_mode, &genre_table(), replies(), 20).is_empty());
    let unknown = query(&[("popular", "true"), ("contentKind", "movie"), ("genres", "kids")]);
    assert!(cards_for_discovery(&unknown, &genre_table(), replies(), 20).is_empty());
    assert!(RowWalk::start(&unknown, &genre_table(), 20).is_none());
    let known = query(&[("popular", "true"), ("contentKind", "movie"), ("genres", "drama")]);
    assert_eq!(cards_for_discovery(&known, &genre_table(), replies(), 20).len(), 20);
}

#[test]
fn a_row_asks_for_its_pages_in_order_and_for_five_at_most() {
    let table = genre_table();
    for (max, pages) in [(0, 0), (1, 2), (20, 2), (21, 3), (40, 3), (60, 4), (61, 5), (5000, 5)] {
        let mut walk = RowWalk::start(&row_query(), &table, max).expect("a row");
        let mut asked = 0u32;
        while let Some(path) = walk.request() {
            asked += 1;
            assert!(path.ends_with(&format!("&page={asked}")), "{path}");
            walk = walk.answered(page(0, 0, 20), &table);
        }
        assert_eq!(asked, pages, "{max}");
        assert!(asked <= DISCOVERY_MAX_PAGES);
        assert!(walk.into_cards().is_empty());
    }
}
