//! Caches, replies, and the cards made of them.

use std::collections::HashMap;

use card_feeder::card::CardLinks;
use card_feeder::discovery::card_from_hit;
use card_feeder::keyed::KeyMap;
use card_feeder::principal::{anchor_list, principal_top_n, TmdbMultiItem};
use card_feeder::principal_list::{
    decode_principal_list, encode_principal_list, kind_from_str, read_principal_list,
    PrincipalEntry,
};
use card_feeder::resolve::{
    budgeted, card_by_id, cards_for_text, dedup_titles, external_ids_step, genre_names_of,
    genre_table, movie_card, movie_hit_step, name_genres, principal_from_cache,
    principal_from_reply, principal_key, source_id_of, tv_card, tv_details_step, CacheStep,
    GenreTables, WorkDetails,
};
use card_feeder::titles::{TmdbAltTitle, TmdbAltTitles};
use card_feeder::tmdb_client::{
    kind_str, TmdbCall, TmdbClient, TmdbExternalIds, TmdbGenre, TmdbHit, TmdbImage, TmdbImages, TmdbKind,
    TmdbMovieDetails, TmdbSeasonSummary, TmdbTvDetails,
};
use serde_json::Value;

/// Decodes a persisted principal search as the entry type's JSON shape asks for.
fn parse_entries(json: &str) -> Option<Vec<PrincipalEntry>> {
    let v: Value = serde_json::from_str(json).ok()?;
    v.as_array()?
        .iter()
        .map(|e| {
            Some(PrincipalEntry {
                tmdbid: e.get("tmdbid")?.as_u64()?,
                kind: e.get("kind")?.as_str()?.to_string(),
            })
        })
        .collect()
}

fn decode(json: &str) -> Vec<(u64, TmdbKind)> {
    decode_principal_list(json, parse_entries(json))
}

#[test]
fn principal_list_round_trips() {
    let list = vec![(95479, TmdbKind::Tv), (27205, TmdbKind::Movie)];
    let json = encode_principal_list(&list);
    assert_eq!(json, r#"[{"tmdbid":95479,"kind":"tv"},{"tmdbid":27205,"kind":"movie"}]"#);
    assert_eq!(decode(&json), list);
}

#[test]
fn principal_list_tolerates_garbage_and_unknown_kinds() {
    assert!(decode("not json").is_empty());
    assert!(decode(r#"[{"tmdbid":1,"kind":"person"}]"#).is_empty());
    assert!(decode("[]").is_empty());
}

#[test]
fn the_persisted_text_is_what_serde_json_writes() {
    for list in [
        vec![],
        vec![(0, TmdbKind::Movie)],
        vec![(u64::MAX, TmdbKind::Tv), (10, TmdbKind::Tv), (7, TmdbKind::Movie)],
    ] {
        let json = encode_principal_list(&list);
        let mut parts = Vec::new();
        for (id, kind) in &list {
            parts.push(format!(
                "{{\"tmdbid\":{},\"kind\":{}}}",
                serde_json::to_string(id).unwrap(),
                serde_json::to_string(kind_str(*kind)).unwrap()
            ));
        }
        assert_eq!(json, format!("[{}]", parts.join(",")));
        assert_eq!(decode(&json), list);
        // What was written is read back without any other decoder's help.
        assert_eq!(read_principal_list(&json), Some(list.clone()));
        assert_eq!(decode_principal_list(&json, None), list);
    }
}

#[test]
fn only_the_very_text_is_read_back() {
    for json in [
        "",
        "[",
        "[]x",
        "[] ",
        "[,]",
        r#"[{"tmdbid":1,"kind":"tv"}"#,
        r#"[{"tmdbid":1,"kind":"tv"},]"#,
        r#"[{"tmdbid":01,"kind":"tv"}]"#,
        r#"[{"tmdbid":+1,"kind":"tv"}]"#,
        r#"[{"tmdbid":,"kind":"tv"}]"#,
        r#"[{"tmdbid":18446744073709551616,"kind":"tv"}]"#,
        r#"[{"tmdbid":1,"kind":"person"}]"#,
        r#"[{"kind":"tv","tmdbid":1}]"#,
        r#"[ {"tmdbid":1,"kind":"tv"}]"#,
    ] {
        assert_eq!(read_principal_list(json), None, "{json}");
    }
    // Other spellings of JSON, and entries of other kinds beside known ones, go by the decoder.
    assert_eq!(
        decode(
            r#"[ {"kind":"tv","tmdbid":1}, {"tmdbid":2,"kind":"person"}, {"tmdbid":3,"kind":"movie"} ]"#
        ),
        vec![(1, TmdbKind::Tv), (3, TmdbKind::Movie)]
    );
}

#[test]
fn kinds_read_back() {
    for kind in [TmdbKind::Movie, TmdbKind::Tv] {
        assert_eq!(kind_from_str(kind_str(kind)), Some(kind));
    }
    assert_eq!(kind_from_str("person"), None);
    assert_eq!(kind_from_str("Movie"), None);
}

#[test]
fn dedup_titles_is_case_insensitive_and_order_preserving() {
    let out = dedup_titles(vec![
        "Frieren".to_string(),
        "  frieren  ".to_string(),
        "Sousou no Frieren".to_string(),
        "".to_string(),
    ]);
    assert_eq!(out, vec!["Frieren", "Sousou no Frieren"]);
}

#[test]
fn dedup_folds_case_beyond_ascii_and_is_stable() {
    let list: Vec<String> =
        ["POKÉMON", "pokémon", "ΣΑΣ", "σας", "x "].iter().map(|s| s.to_string()).collect();
    let once = dedup_titles(list);
    assert_eq!(once, vec!["POKÉMON", "ΣΑΣ", "x"]);
    assert_eq!(dedup_titles(once.clone()), once);
}

fn genre(id: u32, name: &str) -> TmdbGenre {
    TmdbGenre { id, name: name.to_string() }
}

#[test]
fn genre_names_are_trimmed_and_listed_once() {
    let names = genre_names_of(&[genre(1, " Drama "), genre(2, "drama"), genre(3, ""), genre(4, "War")]);
    assert_eq!(names, vec!["Drama", "War"]);
}

#[test]
fn a_genre_table_is_held_only_when_it_has_an_entry() {
    let mut tables = GenreTables::new();
    assert!(tables.get(TmdbKind::Tv).is_none());
    // A failed fetch, and one that names nothing, yield an empty table and are asked for again.
    assert!(tables.keep(TmdbKind::Tv, None).is_empty());
    assert!(tables.get(TmdbKind::Tv).is_none());
    assert!(tables.keep(TmdbKind::Tv, Some(vec![genre(1, " ")])).is_empty());
    assert!(tables.get(TmdbKind::Tv).is_none());
    // A table with an entry is given again; the other kind's is another matter.
    let shows = HashMap::from([(16, "Animation".to_string())]);
    let fetched = Some(vec![genre(16, "Animation"), genre(18, "  ")]);
    assert_eq!(tables.keep(TmdbKind::Tv, fetched), shows);
    assert_eq!(tables.get(TmdbKind::Tv), Some(&shows));
    assert!(tables.get(TmdbKind::Movie).is_none());
    let films = HashMap::from([(28, "Action".to_string())]);
    assert_eq!(tables.keep(TmdbKind::Movie, Some(vec![genre(28, "Action")])), films);
    assert!(tables.keep(TmdbKind::Movie, None).is_empty());
    assert_eq!(tables.get(TmdbKind::Movie), Some(&films));
    assert_eq!(tables.get(TmdbKind::Tv), Some(&shows));
    // A repeated id takes the last name.
    assert_eq!(
        genre_table(&vec![genre(1, "a"), genre(1, "b")]),
        HashMap::from([(1, "b".to_string())])
    );
    let table = HashMap::from([(16, "Animation".to_string()), (18, "Drama".to_string())]);
    assert_eq!(name_genres(&vec![18, 99, 16, 18], &table), vec!["Drama", "Animation", "Drama"]);
}

#[test]
fn a_rate_limit_pauses_and_a_miss_does_not() {
    let b = budgeted(Some(TmdbCall::Hit(5)));
    assert_eq!((b.value, b.pause), (Some(5), None));
    let b = budgeted::<u32>(Some(TmdbCall::Miss));
    assert_eq!((b.value, b.pause), (None, None));
    let b = budgeted::<u32>(Some(TmdbCall::RateLimited(9)));
    assert_eq!((b.value, b.pause), (None, Some(9)));
    let b = budgeted::<u32>(None);
    assert_eq!((b.value, b.pause), (None, None));
}

fn details() -> TmdbTvDetails {
    TmdbTvDetails {
        number_of_seasons: 1,
        genres: vec![genre(16, "Animation")],
        seasons: vec![TmdbSeasonSummary { season_number: 1, episode_count: 28 }],
        name: "Frieren: Beyond Journey's End".to_string(),
        original_name: Some("葬送のフリーレン".to_string()),
        original_language: Some("ja".to_string()),
        overview: Some("The story follows the elf mage Frieren.".to_string()),
        first_air_date: Some("2023-09-29".to_string()),
        poster_path: Some("/poster.jpg".to_string()),
        alternative_titles: Some(TmdbAltTitles {
            results: vec![TmdbAltTitle {
                title: "Sousou no Frieren".to_string(),
                iso_3166_1: "JP".to_string(),
            }],
            titles: Vec::new(),
        }),
        images: None,
    }
}

#[test]
fn cached_show_details_heal_with_one_refetch() {
    assert!(matches!(tv_details_step(Some(details())), CacheStep::Answer(Some(_))));
    let mut unnamed = details();
    unnamed.name = " ".to_string();
    assert!(matches!(tv_details_step(Some(unnamed)), CacheStep::Fetch));
    let mut no_akas = details();
    no_akas.alternative_titles = None;
    assert!(matches!(tv_details_step(Some(no_akas)), CacheStep::Fetch));
    let mut no_markets = details();
    no_markets.alternative_titles.as_mut().unwrap().results[0].iso_3166_1 = String::new();
    assert!(matches!(tv_details_step(Some(no_markets)), CacheStep::Fetch));
    assert!(matches!(tv_details_step(None), CacheStep::Fetch));
}

fn film() -> TmdbMovieDetails {
    TmdbMovieDetails {
        id: 27205,
        genres: vec![genre(28, "Action"), genre(878, "Science Fiction")],
        title: Some("Inception".to_string()),
        original_title: Some("Inception".to_string()),
        original_language: Some("en".to_string()),
        overview: Some("A thief.".to_string()),
        release_date: Some("2010-07-15".to_string()),
        poster_path: Some("/inception.jpg".to_string()),
        alternative_titles: Some(TmdbAltTitles {
            results: Vec::new(),
            titles: vec![TmdbAltTitle {
                title: "Origen".to_string(),
                iso_3166_1: "ES".to_string(),
            }],
        }),
        images: Some(TmdbImages {
            posters: vec![TmdbImage {
                file_path: "/es.jpg".to_string(),
                iso_639_1: Some("es".to_string()),
                vote_average: 5.0f64.to_bits(),
                vote_count: 1,
            }],
        }),
    }
}

fn film_hit() -> TmdbHit {
    film().into_hit()
}

#[test]
fn cached_films_are_refetched_when_they_predate_markets() {
    assert!(matches!(movie_hit_step(Some(("{}", Some(film_hit())))), CacheStep::Answer(Some(_))));
    let mut old = film_hit();
    old.akas = Vec::new();
    assert!(matches!(movie_hit_step(Some(("{}", Some(old)))), CacheStep::Fetch));
    assert!(matches!(movie_hit_step(Some(("null", Some(film_hit())))), CacheStep::Fetch));
    assert!(matches!(movie_hit_step(Some(("oops", None))), CacheStep::Fetch));
    assert!(matches!(movie_hit_step(None), CacheStep::Fetch));
}

#[test]
fn cached_external_ids_are_final() {
    let ids = || TmdbExternalIds { tvdb_id: Some(1), imdb_id: None };
    assert!(matches!(external_ids_step(Some(Some(ids()))), CacheStep::Answer(Some(_))));
    assert!(matches!(external_ids_step(Some(None)), CacheStep::Answer(None)));
    assert!(matches!(external_ids_step(None), CacheStep::Fetch));
}

fn multi(id: u64, media_type: &str, title: &str, popularity: f64) -> TmdbMultiItem {
    TmdbMultiItem {
        id,
        media_type: Some(media_type.to_string()),
        title: None,
        name: Some(title.to_string()),
        popularity: popularity.to_bits(),
    }
}

fn found() -> Vec<TmdbMultiItem> {
    vec![
        multi(1, "tv", "Frieren", 3.0),
        multi(2, "person", "Frieren", 9.0),
        multi(3, "movie", "Frieren the film", 8.0),
        multi(4, "tv", "Something else", 99.0),
    ]
}

#[test]
fn a_principal_search_is_cached_whole_and_sliced_on_read() {
    let fresh = principal_from_reply(Some(TmdbCall::Hit(found())), "frieren", 1);
    assert_eq!(fresh.answer, vec![(3, TmdbKind::Movie)]);
    let json = fresh.persist.expect("an answer is remembered");
    assert_eq!(json, r#"[{"tmdbid":3,"kind":"movie"},{"tmdbid":1,"kind":"tv"}]"#);
    for n in 0..4 {
        let again = principal_from_reply(Some(TmdbCall::Hit(found())), "frieren", n);
        assert_eq!(again.answer, principal_from_cache(&json, parse_entries(&json), n));
    }
}

#[test]
fn only_an_answer_is_remembered() {
    let none = principal_from_reply(Some(TmdbCall::Hit(Vec::new())), "frieren", 5);
    assert!(none.answer.is_empty());
    assert_eq!(none.persist.as_deref(), Some("[]"));
    let miss = principal_from_reply(Some(TmdbCall::Miss), "frieren", 5);
    assert!(miss.answer.is_empty() && miss.persist.is_none() && miss.pause.is_none());
    let limited = principal_from_reply(Some(TmdbCall::RateLimited(30)), "frieren", 5);
    assert!(limited.answer.is_empty() && limited.persist.is_none());
    assert_eq!(limited.pause, Some(30));
    let late = principal_from_reply(None, "frieren", 5);
    assert!(late.answer.is_empty() && late.persist.is_none() && late.pause.is_none());
}

#[test]
fn principal_keys_are_trimmed_and_in_lower_case() {
    assert_eq!(principal_key("  FRIEREN É ", 3).as_deref(), Some("frieren é"));
    assert_eq!(principal_key("  ", 3), None);
    assert_eq!(principal_key("frieren", 0), None);
}

#[test]
fn ranking_keeps_confident_works_most_popular_first() {
    let hits = found();
    let top = principal_top_n(&hits, "frieren", 10);
    assert_eq!(top.iter().map(|h| h.id).collect::<Vec<_>>(), vec![3, 1]);
    assert_eq!(anchor_list(&top), vec![(3, TmdbKind::Movie), (1, TmdbKind::Tv)]);
    assert_eq!(principal_top_n(&hits, "frieren", 1).len(), 1);
}

#[test]
fn a_show_card_carries_the_whole_id_bag() {
    let ext = TmdbExternalIds {
        tvdb_id: Some(367189),
        imdb_id: Some("tt22248376".to_string()),
    };
    let card = tv_card(95479, Some(ext), &details());
    assert_eq!(card.record_id(), "tmdb:tv:95479");
    assert_eq!(card.tmdbid, Some(95479));
    assert_eq!(card.tvdb_id, Some(367189));
    assert_eq!(card.imdb_id.as_deref(), Some("tt22248376"));
    assert_eq!(card.year, Some(2023));
    assert_eq!(card.seasons, 1);
    assert_eq!(card.season_summaries.len(), 1);
    assert_eq!(card.genres, vec!["Animation"]);
    assert_eq!(
        card.guard_titles,
        vec!["Frieren: Beyond Journey's End", "葬送のフリーレン", "Sousou no Frieren"]
    );
    assert_eq!(
        card.names,
        vec![
            ("jpn", "葬送のフリーレン".to_string()),
            ("eng", "Frieren: Beyond Journey's End".to_string()),
            ("jpn", "Sousou no Frieren".to_string()),
        ]
    );
    // Missing external ids only thin the bag.
    let thin = tv_card(95479, None, &details());
    assert_eq!((thin.tvdb_id, thin.imdb_id), (None, None));
}

#[test]
fn a_film_card_names_its_genres_by_the_table() {
    let table = HashMap::from([(878, "Science Fiction".to_string())]);
    let ext = TmdbExternalIds { tvdb_id: Some(5), imdb_id: Some("tt1375666".to_string()) };
    let card = movie_card(27205, Some(ext), film_hit(), &table);
    assert_eq!(card.record_id(), "tmdb:movie:27205");
    assert_eq!(card.tvdb_id, None);
    assert_eq!(card.imdb_id.as_deref(), Some("tt1375666"));
    assert_eq!(card.genres, vec!["Science Fiction"]);
    assert_eq!(card.year, Some(2010));
    assert_eq!(card.seasons, 0);
    assert_eq!(card.posters.len(), 1);
    assert_eq!(card.guard_titles, vec!["Inception", "Origen"]);
    assert_eq!(
        card.names,
        vec![("eng", "Inception".to_string()), ("spa", "Origen".to_string())]
    );
}

#[test]
fn a_card_needs_its_details() {
    assert!(card_by_id(1, None, WorkDetails::Tv(None)).is_none());
    assert!(card_by_id(1, None, WorkDetails::Movie(None, HashMap::new())).is_none());
    assert!(card_by_id(1, None, WorkDetails::Tv(Some(details()))).is_some());
    let film = card_by_id(1, None, WorkDetails::Movie(Some(film_hit()), HashMap::new()));
    assert_eq!(film.expect("a film").record_id(), "tmdb:movie:1");
}

#[test]
fn a_failed_lookup_is_skipped() {
    let card = |id: u64| card_by_id(id, None, WorkDetails::Tv(Some(details())));
    let cards = cards_for_text(vec![card(1), None, card(3)]);
    assert_eq!(cards.iter().map(|c| c.tmdbid).collect::<Vec<_>>(), vec![Some(1), Some(3)]);
}

#[test]
fn source_ids_name_kind_and_number() {
    assert_eq!(source_id_of(TmdbKind::Tv, 95479), "tv:95479");
    assert_eq!(source_id_of(TmdbKind::Movie, u64::MAX), "movie:18446744073709551615");
    assert_eq!(source_id_of(TmdbKind::Movie, 0), "movie:0");
}

#[test]
fn a_search_title_is_one_of_the_names() {
    let aka = |m: &str, t: &str| TmdbAltTitle {
        title: t.to_string(),
        iso_3166_1: m.to_string(),
    };
    let mut d = details();
    d.name = "3%".to_string();
    d.original_name = Some("3%".to_string());
    d.original_language = Some("pt".to_string());
    d.alternative_titles = Some(TmdbAltTitles {
        results: vec![aka("FR", "3 Pourcent"), aka("US", " 3   Percent "), aka("BR", "3 %")],
        titles: Vec::new(),
    });
    let card = tv_card(68467, None, &d);
    assert_eq!(
        card.names,
        vec![
            ("por", "3%".to_string()),
            ("eng", "3 Percent".to_string()),
            ("fra", "3 Pourcent".to_string()),
            ("por", "3 %".to_string()),
        ]
    );
    let tmdb = TmdbClient::new("token".to_string());
    let links =
        CardLinks { cid: None, domain: None, work_form: None, locators: KeyMap::new() };
    let rec = card.to_record(&tmdb, &KeyMap::new(), &links).expect("record");
    let search = rec.fields.get("searchTitle").expect("a search title");
    assert_eq!(search, "3 Percent");
    assert!(card.names.iter().any(|(_, n)| n == search));
    assert!(rec.fields.contains_key("titles/eng/3 Percent"));
}

#[test]
fn every_path_gives_one_record_id() {
    let hit = details().as_hit(95479).expect("a hit");
    let row = card_from_hit(&hit, TmdbKind::Tv, &HashMap::new());
    assert_eq!(row.record_id(), tv_card(95479, None, &details()).record_id());
    let film = card_from_hit(&film_hit(), TmdbKind::Movie, &HashMap::new());
    assert_eq!(
        film.record_id(),
        movie_card(27205, None, film_hit(), &HashMap::new()).record_id()
    );
    assert_ne!(row.record_id(), card_from_hit(&hit, TmdbKind::Movie, &HashMap::new()).record_id());
}
