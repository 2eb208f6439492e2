//! Requests, replies, and the payloads decoded from them.

use card_feeder::seasons::{episode_in_season, season_episode_bounds, SeasonEpisodeBounds};
use card_feeder::titles::{TmdbAltTitle, TmdbAltTitles};
use card_feeder::tmdb_client::{
    discovery_outcome, on_body, on_response, parse_tmdb_retry_after, search_outcome, year_of,
    ResponseStep, TmdbCall, TmdbClient, TmdbKind, TmdbMovieDetails, TmdbSearchItem,
    TmdbSeasonSummary, TmdbTvDetails,
};

fn details(num_seasons: u32, seasons: &[(i64, u32)]) -> TmdbTvDetails {
    TmdbTvDetails {
        number_of_seasons: num_seasons,
        seasons: seasons
            .iter()
            .map(|&(season_number, episode_count)| TmdbSeasonSummary {
                season_number,
                episode_count,
            })
            .collect(),
        ..Default::default()
    }
}

#[test]
fn bounds_ok_within_season() {
    let d = details(2, &[(1, 26), (2, 24)]);
    assert_eq!(season_episode_bounds(&d, Some(1), Some(5)), SeasonEpisodeBounds::InBounds);
    assert_eq!(season_episode_bounds(&d, Some(2), Some(24)), SeasonEpisodeBounds::InBounds);
}

#[test]
fn bounds_no_season_or_unknown_structure_is_ok() {
    let d = details(2, &[(1, 26), (2, 24)]);
    assert_eq!(season_episode_bounds(&d, None, Some(999)), SeasonEpisodeBounds::InBounds);
    let unknown = details(0, &[]);
    assert_eq!(season_episode_bounds(&unknown, Some(5), Some(40)), SeasonEpisodeBounds::InBounds);
}

#[test]
fn bounds_season_past_total_is_overflow() {
    let d = details(1, &[(1, 28)]);
    assert_eq!(
        season_episode_bounds(&d, Some(2), Some(3)),
        SeasonEpisodeBounds::SeasonOverflow
    );
}

#[test]
fn bounds_episode_past_matched_season_is_episode_overflow() {
    let d = details(4, &[(1, 26), (2, 13), (3, 13), (4, 12)]);
    assert_eq!(
        season_episode_bounds(&d, Some(1), Some(27)),
        SeasonEpisodeBounds::EpisodeOverflow
    );
}

#[test]
fn bounds_negative_season_is_contradiction() {
    let d = details(4, &[(1, 26), (2, 13), (3, 13), (4, 12)]);
    assert_eq!(season_episode_bounds(&d, Some(-1), None), SeasonEpisodeBounds::Contradiction);
}

#[test]
fn an_episode_is_in_a_season_that_is_listed_and_counted() {
    let d = details(2, &[(0, 3), (1, 26), (2, 0)]);
    assert!(episode_in_season(&d, 1, 1));
    assert!(episode_in_season(&d, 1, 26));
    assert!(episode_in_season(&d, 0, 3));
    assert!(!episode_in_season(&d, 1, 0));
    assert!(!episode_in_season(&d, 1, 27));
    assert!(!episode_in_season(&d, 2, 1), "the count is unknown");
    assert!(!episode_in_season(&d, 3, 1), "the season is not listed");
}

#[test]
fn requests_are_spelled_out() {
    let c = TmdbClient::with_bases(
        "t".to_string(),
        "http://api//".to_string(),
        "http://img/".to_string(),
    );
    assert_eq!(
        c.search_url(TmdbKind::Movie, "a%20b", Some(1999)),
        "http://api/search/movie?query=a%20b&include_adult=false&year=1999"
    );
    assert_eq!(
        c.search_url(TmdbKind::Tv, "x", None),
        "http://api/search/tv?query=x&include_adult=false"
    );
    assert_eq!(c.poster_cdn_url("/p.jpg"), "http://img/w500/p.jpg");
    assert_eq!(c.poster_cdn_url("p.jpg"), "http://img/w500/p.jpg");
    assert_eq!(
        c.tv_details_url(95479),
        "http://api/tv/95479?append_to_response=alternative_titles,images"
    );
    assert_eq!(
        c.movie_details_url(27205),
        "http://api/movie/27205?append_to_response=alternative_titles,images"
    );
    assert_eq!(c.external_ids_url(TmdbKind::Tv, 1), "http://api/tv/1/external_ids");
    assert_eq!(
        c.search_multi_url("frieren"),
        "http://api/search/multi?query=frieren&include_adult=false"
    );
    assert_eq!(c.discovery_url("/discover/tv?page=1"), "http://api/discover/tv?page=1");
    assert_eq!(c.genre_list_url(TmdbKind::Movie), "http://api/genre/movie/list");
    assert_eq!(
        TmdbClient::new("t".to_string()).genre_list_url(TmdbKind::Tv),
        "https://api.themoviedb.org/3/genre/tv/list"
    );
}

#[test]
fn a_response_head_decides_what_follows() {
    assert_eq!(on_response(None, None), ResponseStep::Miss);
    assert_eq!(on_response(Some(200), None), ResponseStep::Decode);
    assert_eq!(on_response(Some(299), None), ResponseStep::Decode);
    assert_eq!(on_response(Some(304), None), ResponseStep::Miss);
    assert_eq!(on_response(Some(404), None), ResponseStep::Miss);
    assert_eq!(on_response(Some(500), Some("3")), ResponseStep::Miss);
    assert_eq!(on_response(Some(429), Some("17")), ResponseStep::RateLimited(17));
    assert_eq!(on_response(Some(429), None), ResponseStep::RateLimited(5));
}

#[test]
fn a_retry_after_that_is_no_number_of_seconds_takes_the_default() {
    assert_eq!(parse_tmdb_retry_after(Some("30")), 30);
    assert_eq!(parse_tmdb_retry_after(Some("0")), 0);
    assert_eq!(parse_tmdb_retry_after(Some("Fri, 31 Dec 1999 23:59:59 GMT")), 5);
    assert_eq!(parse_tmdb_retry_after(Some("")), 5);
    assert_eq!(parse_tmdb_retry_after(Some("-1")), 5);
    assert_eq!(parse_tmdb_retry_after(Some("18446744073709551616")), 5);
    assert_eq!(parse_tmdb_retry_after(None), 5);
}

#[test]
fn a_body_that_does_not_decode_is_a_miss() {
    assert!(matches!(on_body(Some(1)), TmdbCall::Hit(1)));
    assert!(matches!(on_body::<u8>(None), TmdbCall::Miss));
}

fn item(id: u64) -> TmdbSearchItem {
    TmdbSearchItem {
        id,
        title: Some("A film".to_string()),
        name: Some("A show".to_string()),
        original_title: Some("Un film".to_string()),
        original_name: None,
        overview: Some("o".to_string()),
        release_date: Some("2001-02-03".to_string()),
        first_air_date: Some("2004".to_string()),
        poster_path: Some("/p".to_string()),
        genre_ids: vec![1, 2],
        original_language: Some("fr".to_string()),
    }
}

#[test]
fn a_list_item_is_read_by_its_kind() {
    let film = item(7).into_hit(TmdbKind::Movie);
    assert_eq!(film.title, "A film");
    assert_eq!(film.original_title.as_deref(), Some("Un film"));
    assert_eq!(film.year, Some(2001));
    assert_eq!(film.genre_ids, vec![1, 2]);
    assert_eq!(film.original_lang3(), Some("fra"));
    let show = item(7).into_hit(TmdbKind::Tv);
    assert_eq!(show.title, "A show");
    assert_eq!(show.original_title, None);
    assert_eq!(show.year, Some(2004));
    let mut nameless = item(7);
    nameless.name = None;
    assert_eq!(nameless.into_hit(TmdbKind::Tv).title, "(untitled)");
}

#[test]
fn years_are_the_first_four_digits() {
    let year = |s: &str| year_of(&Some(s.to_string()));
    assert_eq!(year("2023-09-29"), Some(2023));
    assert_eq!(year("2023"), Some(2023));
    assert_eq!(year("202"), None);
    assert_eq!(year(""), None);
    assert_eq!(year("20é3-01-01"), None);
    assert_eq!(year("é"), None);
    assert_eq!(year("+123-"), Some(123));
    assert_eq!(year_of(&None), None);
}

#[test]
fn a_search_takes_the_first_result_and_a_list_takes_all() {
    match search_outcome(TmdbKind::Movie, vec![item(1), item(2)]) {
        TmdbCall::Hit(h) => assert_eq!(h.tmdbid, 1),
        _ => panic!("a hit"),
    }
    assert!(matches!(search_outcome(TmdbKind::Movie, Vec::new()), TmdbCall::Miss));
    match discovery_outcome(TmdbKind::Tv, TmdbCall::Hit(vec![item(1), item(2)])) {
        TmdbCall::Hit(hits) => {
            assert_eq!(hits.iter().map(|h| h.tmdbid).collect::<Vec<_>>(), vec![1, 2])
        }
        _ => panic!("hits"),
    }
    assert!(matches!(
        discovery_outcome(TmdbKind::Tv, TmdbCall::RateLimited(4)),
        TmdbCall::RateLimited(4)
    ));
    assert!(matches!(discovery_outcome(TmdbKind::Tv, TmdbCall::Miss), TmdbCall::Miss));
}

#[test]
fn details_become_hits() {
    let mut show = details(1, &[]);
    assert!(show.as_hit(5).is_none(), "no display fields");
    show.name = "Show".to_string();
    show.first_air_date = Some("1999-01-01".to_string());
    let hit = show.as_hit(5).expect("a hit");
    assert_eq!((hit.tmdbid, hit.title.as_str(), hit.year), (5, "Show", Some(1999)));

    let film = TmdbMovieDetails {
        id: 9,
        title: Some("Film".to_string()),
        alternative_titles: Some(TmdbAltTitles {
            results: Vec::new(),
            titles: vec![TmdbAltTitle { title: " Aka ".to_string(), iso_3166_1: "GB".to_string() }],
        }),
        ..Default::default()
    };
    let hit = film.into_hit();
    assert_eq!((hit.tmdbid, hit.title.as_str()), (9, "Film"));
    assert_eq!(hit.alt_titles, vec!["Aka"]);
    assert_eq!(hit.akas.len(), 1);
}
