//! The plugin: configuration, routing, queries, outcomes.

use std::collections::HashMap;

use card_feeder::card::{Card, CardLinks, DiscoveryRecord};
use card_feeder::consts::{
    DEFAULT_CARD_DISCOVERY_N, DEFAULT_CARD_TOP_N, DEFAULT_TMDB_BURST, DEFAULT_TMDB_REFILL_PER_SEC,
};
use card_feeder::keyed::KeyMap;
use card_feeder::principal::TmdbMultiItem;
use card_feeder::query::GatewayQuery;
use card_feeder::resolve::{card_by_id, cards_for_text, principal_from_reply, WorkDetails};
use card_feeder::titles::{TmdbAltTitle, TmdbAltTitles};
use card_feeder::tmdb::{
    compute_outcomes, kind_hint, outcome_preimage, parse_source_id, project_cards, FieldKind,
    GatewayError, HashKind, QueryPlan, TmdbCardPlugin, TmdbConfig,
};
use card_feeder::tmdb_client::{
    TmdbCall, TmdbClient, TmdbExternalIds, TmdbKind, TmdbSeasonSummary, TmdbTvDetails,
};

fn no_env() -> TmdbConfig {
    TmdbConfig::from_env(None, None, None, None)
}

fn plugin() -> TmdbCardPlugin {
    TmdbCardPlugin::new(no_env())
}

/// A plugin that talks to a test server, ready to answer.
fn ready() -> TmdbCardPlugin {
    let base = "http://127.0.0.1:9/".to_string();
    let mut p = TmdbCardPlugin::with_api_base(no_env(), "test-token", base.clone(), base);
    p.load_config(None);
    p.configure();
    p
}

fn with_filter(free_text: &str, filters: &[(&str, &str)]) -> GatewayQuery {
    let mut q = GatewayQuery::from_free_text(free_text);
    for (k, v) in filters {
        q.filters.insert(k.to_string(), vec![v.to_string()]);
    }
    q
}

/// A stand-in for the SDK's card locators.
fn card_cid(source: &str, id: &str) -> Option<String> {
    if source.len() + id.len() > 64 {
        None
    } else {
        Some(format!("b{}-{}", source, id))
    }
}

/// What the SDK says of the type filters: a plugin is accepted unless they name another type.
fn accepts(q: &GatewayQuery, p: &TmdbCardPlugin) -> bool {
    match q.first("fileType") {
        Some(t) => p.served_file_types().contains(&t),
        None => true,
    }
}

#[test]
fn source_id_parses_both_kinds() {
    assert!(matches!(parse_source_id("tv:95479"), Some((TmdbKind::Tv, 95479))));
    assert!(matches!(parse_source_id("movie:27205"), Some((TmdbKind::Movie, 27205))));
    assert!(parse_source_id("person:123").is_none());
    assert!(parse_source_id("tv:notanumber").is_none());
    assert!(parse_source_id("95479").is_none());
}

#[test]
fn source_ids_are_read_as_numbers_are() {
    assert_eq!(parse_source_id("tv: 7 "), Some((TmdbKind::Tv, 7)));
    assert_eq!(parse_source_id("tv:+7"), Some((TmdbKind::Tv, 7)));
    assert_eq!(parse_source_id("tv:18446744073709551615"), Some((TmdbKind::Tv, u64::MAX)));
    assert_eq!(parse_source_id("tv:18446744073709551616"), None);
    assert_eq!(parse_source_id("tv:"), None);
    assert_eq!(parse_source_id("tv:1:2"), None);
    assert_eq!(parse_source_id("TV:1"), None);
}

#[test]
fn declares_the_card_file_type() {
    let p = plugin();
    assert_eq!(p.served_file_types(), &["card"]);
    assert_eq!(p.served_content_kinds(), &["movie", "series"]);
    assert_eq!(p.upstream_id(), "tmdb");
}

#[test]
fn compute_outcomes_yields_a_byteless_locator_without_a_token() {
    let p = plugin();
    let (source, id) = outcome_preimage("tmdb:tv:95479").ok().expect("preimage");
    assert_eq!(p.outcome_work(id), None, "nothing is looked up without a token");
    let outcomes =
        compute_outcomes("tmdb:tv:95479", card_cid(source, id), None).ok().expect("outcomes");
    assert_eq!(outcomes.len(), 1);
    let o = &outcomes[0];
    assert_eq!(o.hash_kind, HashKind::CardLocator);
    assert!(o.bytes.is_none(), "a card has no bytes, ever");
    assert!(o.file_extension.is_none());
    assert!(o.record.is_none());
    assert_eq!(o.hash, card_cid("tmdb", "tv:95479").unwrap());
}

fn message(e: GatewayError) -> String {
    match e {
        GatewayError::NotFound => "not found".to_string(),
        GatewayError::Permanent(m) => m,
    }
}

#[test]
fn compute_outcomes_rejects_a_foreign_or_malformed_id() {
    assert!(compute_outcomes("mal:52991", card_cid("mal", "52991"), None).is_err());
    assert!(compute_outcomes("nosource", None, None).is_err());
    assert_eq!(message(outcome_preimage("mal:52991").err().unwrap()), "not found");
    assert_eq!(
        message(compute_outcomes("mal:52991", Some("b".to_string()), None).err().unwrap()),
        "not found"
    );
    assert_eq!(
        message(compute_outcomes("nosource", Some("b".to_string()), None).err().unwrap()),
        "malformed card record_id 'nosource'"
    );
    let long = format!("tmdb:tv:{}", "9".repeat(100));
    let (source, id) = outcome_preimage(&long).ok().unwrap();
    assert_eq!(
        message(compute_outcomes(&long, card_cid(source, id), None).err().unwrap()),
        format!("card id too long to encode: '{long}'")
    );
}

#[test]
fn queries_return_nothing_without_a_token() {
    let mut p = plugin();
    p.load_config(None);
    p.configure();
    let q = GatewayQuery::from_free_text("frieren");
    assert!(matches!(p.plan_query(&q, true, 10), QueryPlan::Nothing));
    assert!(p.resolver.is_none());
    assert_eq!(p.top_n, DEFAULT_CARD_TOP_N);
}

#[test]
fn rejects_a_query_for_a_type_it_does_not_serve() {
    let q = with_filter("frieren", &[("fileType", "video")]);
    let p = plugin();
    assert!(matches!(p.plan_query(&q, accepts(&q, &p), 10), QueryPlan::Nothing));
}

#[test]
fn manifest_advertises_the_card_file_type() {
    let p = ready();
    assert_eq!(p.upstream_id(), "tmdb");
    assert_eq!(p.served_file_types(), vec!["card".to_string()]);
    assert_eq!(p.served_content_kinds(), vec!["movie".to_string(), "series".to_string()]);
}

const ORIGINAL: &str =
    "\u{845}\u{9001}\u{306e}\u{30d5}\u{30ea}\u{30fc}\u{30ec}\u{30f3}";

fn multi_reply() -> TmdbCall<Vec<TmdbMultiItem>> {
    TmdbCall::Hit(vec![TmdbMultiItem {
        id: 95479,
        media_type: Some("tv".to_string()),
        title: None,
        name: Some("Frieren: Beyond Journey's End".to_string()),
        popularity: 300.0f64.to_bits(),
    }])
}

fn tv_details() -> TmdbTvDetails {
    TmdbTvDetails {
        name: "Frieren: Beyond Journey's End".to_string(),
        original_name: Some(ORIGINAL.to_string()),
        original_language: Some("ja".to_string()),
        overview: Some("The story follows the elf mage Frieren.".to_string()),
        first_air_date: Some("2023-09-29".to_string()),
        poster_path: Some("/poster.jpg".to_string()),
        number_of_seasons: 1,
        seasons: vec![TmdbSeasonSummary { season_number: 1, episode_count: 28 }],
        alternative_titles: Some(TmdbAltTitles {
            results: vec![TmdbAltTitle {
                title: "Sousou no Frieren".to_string(),
                iso_3166_1: "JP".to_string(),
            }],
            titles: Vec::new(),
        }),
        ..Default::default()
    }
}

fn external_ids() -> TmdbExternalIds {
    TmdbExternalIds { imdb_id: Some("tt22248376".to_string()), tvdb_id: Some(367189) }
}

fn linked(cards: Vec<Card>) -> Vec<(Card, CardLinks)> {
    cards
        .into_iter()
        .map(|c| {
            let (source, id) = c.cid_preimage();
            let cid = card_cid(source, id);
            let links =
                CardLinks { cid, domain: None, work_form: None, locators: KeyMap::new() };
            (c, links)
        })
        .collect()
}

fn field<'a>(rec: &'a DiscoveryRecord, key: &str) -> Option<&'a str> {
    rec.fields.get(key).map(|v| v.as_str())
}

/// The records that a free-text query leads to, with what the test server would answer.
fn answer(q: &GatewayQuery, max_results: usize) -> Vec<DiscoveryRecord> {
    let p = ready();
    let (text, n) = match p.plan_query(q, accepts(q, &p), max_results) {
        QueryPlan::FreeText(text, n) => (text, n),
        _ => return Vec::new(),
    };
    let found = principal_from_reply(Some(multi_reply()), &text, n);
    let lookups = found
        .answer
        .into_iter()
        .map(|(id, kind)| match kind {
            TmdbKind::Tv => {
                card_by_id(id, Some(external_ids()), WorkDetails::Tv(Some(tv_details())))
            }
            TmdbKind::Movie => card_by_id(id, None, WorkDetails::Movie(None, HashMap::new())),
        })
        .collect();
    let client = &p.resolver.as_ref().unwrap().client;
    project_cards(&linked(cards_for_text(lookups)), client, q, max_results)
}

#[test]
fn query_returns_a_card_with_both_axes_and_the_id_bag() {
    let records = answer(&with_filter("frieren", &[("fileType", "card")]), 10);
    assert_eq!(records.len(), 1, "one confident TMDB hit, one card");
    let f = &records[0];
    assert_eq!(field(f, "fileType"), Some("card"));
    assert_eq!(field(f, "contentKind"), Some("series"));
    assert_eq!(field(f, "title"), Some("Frieren: Beyond Journey's End"));
    for key in [
        format!("titles/jpn/{ORIGINAL}"),
        "titles/eng/Frieren: Beyond Journey's End".to_string(),
        "titles/jpn/Sousou no Frieren".to_string(),
    ] {
        assert_eq!(field(f, &key), Some("true"), "{key}");
    }
    assert_eq!(field(f, "tmdbid"), Some("95479"));
    assert_eq!(field(f, "tvdbid"), Some("367189"));
    assert_eq!(field(f, "imdbid"), Some("tt22248376"));
    assert!(f.fields.contains_key("description/eng"));
    assert!(field(f, "poster_url").unwrap().contains("poster.jpg"));
    assert_eq!(records[0].record_id, "tmdb:tv:95479");
}

#[test]
fn compute_returns_a_byteless_card_locator() {
    let p = ready();
    let record_id = "tmdb:tv:95479";
    let (source, id) = outcome_preimage(record_id).ok().expect("preimage");
    assert_eq!(p.outcome_work(id), Some((TmdbKind::Tv, 95479)));
    let card = card_by_id(95479, Some(external_ids()), WorkDetails::Tv(Some(tv_details())))
        .expect("a card");
    let client = &p.resolver.as_ref().unwrap().client;
    let no_query = GatewayQuery::from_free_text("");
    let record = project_cards(&linked(vec![card]), client, &no_query, 1).pop();
    let outcomes =
        compute_outcomes(record_id, card_cid(source, id), record).ok().expect("outcomes");

    assert_eq!(outcomes.len(), 1);
    let o = &outcomes[0];
    assert!(matches!(o.hash_kind, HashKind::CardLocator));
    assert!(o.bytes.is_none(), "a card has no bytes, ever");
    assert!(o.file_extension.is_none());
    assert!(o.record.is_some(), "the record IS the payload");
    assert_eq!(o.hash, card_cid("tmdb", "tv:95479").unwrap());
}

#[test]
fn a_video_query_does_not_hit_tmdb() {
    let q = with_filter("frieren", &[("fileType", "video")]);
    let p = ready();
    assert!(matches!(p.plan_query(&q, accepts(&q, &p), 10), QueryPlan::Nothing));
    assert!(answer(&q, 10).is_empty());
}

fn plan(q: &GatewayQuery, max_results: usize) -> String {
    match ready().plan_query(q, true, max_results) {
        QueryPlan::Nothing => "nothing".to_string(),
        QueryPlan::ById(id, kind) => format!("id {id} {kind:?}"),
        QueryPlan::Discovery(n) => format!("row {n}"),
        QueryPlan::FreeText(t, n) => format!("text {t} {n}"),
    }
}

#[test]
fn every_query_goes_one_way() {
    let by_id = with_filter("ignored", &[("tmdbid", " 7 "), ("popular", "true")]);
    assert_eq!(plan(&by_id, 10), "id 7 None");
    for (kind, expected) in [
        ("movie", "Some(Movie)"),
        ("series", "Some(Tv)"),
        ("episode", "Some(Tv)"),
        ("tvshow", "Some(Tv)"),
        ("tv", "None"),
    ] {
        let q = with_filter("", &[("tmdbid", "7"), ("contentKind", kind)]);
        assert_eq!(plan(&q, 10), format!("id 7 {expected}"));
    }
    let row = with_filter(" ", &[("popular", "true"), ("contentKind", "series")]);
    assert_eq!(plan(&row, 50), format!("row {DEFAULT_CARD_DISCOVERY_N}"));
    assert_eq!(plan(&row, 3), "row 3");
    assert_eq!(plan(&row, 0), "row 1");
    let text = with_filter("  frieren ", &[("popular", "true")]);
    assert_eq!(plan(&text, 50), "text frieren 10");
    assert_eq!(plan(&text, 0), "text frieren 1");
    // An id that is no number leaves the text, and never a row.
    assert_eq!(plan(&with_filter("x", &[("tmdbid", "abc")]), 10), "text x 10");
    assert_eq!(plan(&with_filter("", &[("tmdbid", "abc"), ("popular", "true")]), 10), "nothing");
    assert_eq!(plan(&with_filter("", &[]), 10), "nothing");
}

#[test]
fn a_kind_is_said_or_probed() {
    assert_eq!(kind_hint(Some(TmdbKind::Movie), Some(&tv_details())), TmdbKind::Movie);
    assert_eq!(kind_hint(None, Some(&tv_details())), TmdbKind::Tv);
    let mut flat = tv_details();
    flat.number_of_seasons = 0;
    assert_eq!(kind_hint(None, Some(&flat)), TmdbKind::Movie);
    assert_eq!(kind_hint(None, None), TmdbKind::Movie);
}

#[test]
fn an_answer_holds_what_is_displayable_and_no_more_than_was_asked_for() {
    let client = TmdbClient::new("token".to_string());
    let q = GatewayQuery::from_free_text("x");
    let card = |id: u64, shown: bool| {
        let mut d = tv_details();
        if !shown {
            d.poster_path = None;
        }
        card_by_id(id, None, WorkDetails::Tv(Some(d))).unwrap()
    };
    let cards = || linked(vec![card(1, false), card(2, true), card(3, true), card(4, true)]);
    let ids = |max: usize| -> Vec<String> {
        project_cards(&cards(), &client, &q, max).into_iter().map(|r| r.record_id).collect()
    };
    assert_eq!(ids(2), vec!["tmdb:tv:2", "tmdb:tv:3"]);
    assert_eq!(ids(9).len(), 3);
    assert!(ids(0).is_empty());
}

#[test]
fn the_environment_seeds_the_config() {
    let c = TmdbConfig::from_env(
        Some("secret".to_string()),
        Some(2.5f64.to_bits()),
        None,
        Some("12"),
    );
    assert_eq!(c.tmdb_token, "secret");
    assert_eq!(c.tmdb_rate_per_sec.map(f64::from_bits), Some(2.5));
    assert_eq!(c.tmdb_burst, None);
    assert_eq!(c.card_top_n, Some(12));
    assert_eq!(TmdbConfig::from_env(None, None, None, Some(" 12")).card_top_n, None);
    assert_eq!(no_env().tmdb_token, "");
}

#[test]
fn the_config_file_wins_over_the_environment() {
    let env = TmdbConfig::from_env(
        Some("env".to_string()),
        Some(1.0f64.to_bits()),
        Some(2.0f64.to_bits()),
        Some("3"),
    );
    let mut p = TmdbCardPlugin::new(env);
    p.load_config(Some(TmdbConfig {
        tmdb_token: " file ".to_string(),
        tmdb_rate_per_sec: None,
        tmdb_burst: Some(7.0f64.to_bits()),
        card_top_n: Some(0),
    }));
    p.configure();
    let setup = p.resolver.as_ref().expect("ready");
    assert_eq!(setup.client.bearer_token, "file");
    assert_eq!(f64::from_bits(setup.rate_per_sec), 1.0);
    assert_eq!(f64::from_bits(setup.burst), 7.0);
    assert_eq!(p.top_n, DEFAULT_CARD_TOP_N, "zero keeps the default");
    assert_eq!(setup.client.api_base, "https://api.themoviedb.org/3");
    // A blank token in the file leaves the seeded one.
    p.load_config(Some(TmdbConfig {
        tmdb_token: "  ".to_string(),
        tmdb_rate_per_sec: None,
        tmdb_burst: None,
        card_top_n: Some(4),
    }));
    assert_eq!(p.config.tmdb_token, " file ");
    p.configure();
    assert_eq!(p.top_n, 4);
}

#[test]
fn rates_that_are_not_positive_keep_the_default() {
    assert_eq!(f64::from_bits(DEFAULT_TMDB_REFILL_PER_SEC), 20.0);
    assert_eq!(f64::from_bits(DEFAULT_TMDB_BURST), 20.0);
    for bad in [0.0f64, -0.0, -3.0, f64::NAN, -f64::NAN, f64::NEG_INFINITY] {
        let env = TmdbConfig::from_env(Some("t".to_string()), Some(bad.to_bits()), None, None);
        let mut p = TmdbCardPlugin::new(env);
        p.configure();
        assert_eq!(p.resolver.unwrap().rate_per_sec, DEFAULT_TMDB_REFILL_PER_SEC, "{bad}");
    }
    for good in [f64::MIN_POSITIVE, 0.5, f64::INFINITY] {
        let env = TmdbConfig::from_env(Some("t".to_string()), Some(good.to_bits()), None, None);
        let mut p = TmdbCardPlugin::new(env);
        p.configure();
        assert_eq!(f64::from_bits(p.resolver.unwrap().rate_per_sec), good);
    }
}

#[test]
fn the_config_form_has_four_fields() {
    let fields = plugin().config_schema();
    let keys: Vec<&str> = fields.iter().map(|f| f.key).collect();
    assert_eq!(keys, vec!["tmdb_token", "tmdb_rate_per_sec", "tmdb_burst", "card_top_n"]);
    assert_eq!(fields[0].kind, FieldKind::Secret);
    assert!(fields[1..].iter().all(|f| f.kind == FieldKind::Number));
}
