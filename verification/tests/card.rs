//! The card model and its projection to a record.

use card_feeder::card::{
    is_search_hostile_symbol, search_aka, split_record_id, Card, CardLinks, CardSource,
    DiscoveryRecord,
};
use card_feeder::consts::{MAX_CARD_SEASONS, MAX_POSTER_MEMBERS};
use card_feeder::keyed::KeyMap;
use card_feeder::posters::{poster_member_keys, poster_urls};
use card_feeder::resolve::tv_card as show_card;
use card_feeder::titles::{
    normalize_title_name, title_member_key, title_names, TmdbAltTitle, TmdbAltTitles,
};
use card_feeder::tmdb_client::{TmdbClient, TmdbImage, TmdbImages, TmdbKind, TmdbTvDetails};
use serde_json::Value;

fn tv_card() -> Card {
    Card {
        source: CardSource::Tmdb,
        kind: TmdbKind::Tv,
        source_id: "tv:95479".to_string(),
        tmdbid: Some(95479),
        tvdb_id: Some(367189),
        imdb_id: Some("tt22248376".to_string()),
        title: "Frieren: Beyond Journey's End".to_string(),
        guard_titles: vec!["Sousou no Frieren".to_string()],
        names: vec![
            ("jpn", "葬送のフリーレン".to_string()),
            ("eng", "Frieren: Beyond Journey's End".to_string()),
            ("jpn", "Sousou no Frieren".to_string()),
        ],
        overview: Some("The story follows the elf mage Frieren.".to_string()),
        poster_path: Some("/dqZENchTd7lp5zit1Q7Bkjzcxpi.jpg".to_string()),
        genres: vec!["Animation".to_string(), "Sci-Fi & Fantasy".to_string()],
        year: Some(2023),
        seasons: 1,
        season_summaries: Vec::new(),
        posters: Vec::new(),
    }
}

/// A stand-in for the SDK's URL locators: one distinct CID per address.
fn locator(url: &str) -> String {
    let mut cid = String::from("b");
    for b in url.bytes() {
        cid.push_str(&format!("{b:02x}"));
    }
    cid
}

/// A card locator: an identity-multihash CIDv1 of codec 0x1007 in base32, its payload the length of
/// the source, the source and the id.
fn card_cid(source: &str, id: &str) -> String {
    let mut bytes = vec![0x01u8, 0x87, 0x20, 0x00, (1 + source.len() + id.len()) as u8];
    bytes.push(source.len() as u8);
    bytes.extend(source.bytes());
    bytes.extend(id.bytes());
    let alphabet: Vec<char> = "abcdefghijklmnopqrstuvwxyz234567".chars().collect();
    let bits: Vec<u8> =
        bytes.iter().flat_map(|b| (0..8).rev().map(move |i| (b >> i) & 1)).collect();
    let mut cid = String::from("b");
    for five in bits.chunks(5) {
        let value = (0..5).fold(0u8, |v, i| v * 2 + five.get(i).copied().unwrap_or(0));
        cid.push(alphabet[value as usize]);
    }
    cid
}

fn links_of(card: &Card, tmdb: &TmdbClient) -> CardLinks {
    let (source, id) = card.cid_preimage();
    let mut locators: KeyMap<String> = KeyMap::new();
    if let Some(primary) = card.poster() {
        for url in poster_urls(tmdb, primary, &card.posters) {
            let cid = locator(&url);
            locators.insert(url, cid);
        }
    }
    CardLinks {
        cid: Some(card_cid(source, id)),
        domain: None,
        work_form: None,
        locators,
    }
}

fn record_with(card: &Card, filters: &KeyMap<Vec<String>>) -> Option<DiscoveryRecord> {
    let tmdb = TmdbClient::new("token".to_string());
    card.to_record(&tmdb, filters, &links_of(card, &tmdb))
}

fn record(card: &Card) -> Option<DiscoveryRecord> {
    record_with(card, &KeyMap::new())
}

fn field<'a>(rec: &'a DiscoveryRecord, key: &str) -> Option<&'a str> {
    rec.fields.get(key).map(|v| v.as_str())
}

fn keys(rec: &DiscoveryRecord) -> Vec<String> {
    (0..rec.fields.len()).map(|i| rec.fields.key_at(i).to_string()).collect()
}

fn slashes(key: &str) -> usize {
    key.chars().filter(|c| *c == '/').count()
}

fn text_at(v: &Value, key: &str) -> Option<String> {
    v.get(key).and_then(|x| x.as_str()).map(|s| s.to_string())
}

fn alt_titles(json: &str) -> TmdbAltTitles {
    let v: Value = serde_json::from_str(json).expect("decode");
    let list = |key: &str| -> Vec<TmdbAltTitle> {
        v.get(key)
            .and_then(|x| x.as_array())
            .map(|a| {
                a.iter()
                    .map(|e| TmdbAltTitle {
                        title: text_at(e, "title").unwrap_or_default(),
                        iso_3166_1: text_at(e, "iso_3166_1").unwrap_or_default(),
                    })
                    .collect()
            })
            .unwrap_or_default()
    };
    TmdbAltTitles { results: list("results"), titles: list("titles") }
}

#[test]
fn record_id_round_trips_to_the_cid_preimage() {
    let card = tv_card();
    let record_id = card.record_id();
    assert_eq!(record_id, "tmdb:tv:95479");
    let (source, id) = split_record_id(&record_id).unwrap();
    assert_eq!((source, id), ("tmdb", "tv:95479"));
    // The id a peer would derive offline must equal the one we publish.
    assert_eq!((source, id), card.cid_preimage());
    let tmdb = TmdbClient::new("token".to_string());
    assert_eq!(Some(card_cid(source, id)), links_of(&card, &tmdb).cid);
}

#[test]
fn record_carries_both_type_axes_and_the_whole_id_bag() {
    let rec = record(&tv_card()).expect("record");
    assert_eq!(field(&rec, "fileType"), Some("card"));
    assert_eq!(field(&rec, "contentKind"), Some("series"));
    assert_eq!(field(&rec, "tmdbid"), Some("95479"));
    assert_eq!(field(&rec, "tvdbid"), Some("367189"));
    assert_eq!(field(&rec, "imdbid"), Some("tt22248376"));
    assert!(field(&rec, "poster_url").unwrap().contains("dqZENchTd7lp5zit1Q7Bkjzcxpi.jpg"));
    assert!(rec.fields.contains_key("description/eng"));
    assert!(!rec.fields.contains_key("videoType"));
    assert!(!rec.fields.contains_key("anchorPlaceholder"));
    assert!(!rec.fields.contains_key("posterPath"));
}

#[test]
fn record_spells_every_plain_field() {
    let mut card = tv_card();
    card.tvdb_id = Some(-7);
    let tmdb = TmdbClient::new("token".to_string());
    let mut links = links_of(&card, &tmdb);
    links.domain = Some("video".to_string());
    links.work_form = Some("serial".to_string());
    let rec = card.to_record(&tmdb, &KeyMap::new(), &links).expect("record");
    assert_eq!(rec.upstream_id, "tmdb");
    assert_eq!(rec.record_id, "tmdb:tv:95479");
    assert_eq!(field(&rec, "domain"), Some("video"));
    assert_eq!(field(&rec, "workForm"), Some("serial"));
    assert_eq!(field(&rec, "title"), Some("Frieren: Beyond Journey's End"));
    assert_eq!(field(&rec, "tvdbid"), Some("-7"));
    assert_eq!(field(&rec, "movieYear"), Some("2023"));
    assert_eq!(field(&rec, "seasonCount"), Some("1"));
    assert_eq!(
        field(&rec, "poster_url"),
        Some("https://image.tmdb.org/t/p/w500/dqZENchTd7lp5zit1Q7Bkjzcxpi.jpg")
    );
    assert_eq!(
        field(&rec, "description/eng"),
        Some("The story follows the elf mage Frieren.")
    );
    // Eight plain fields and the four above, three names, two genres, one locator, the synopsis.
    assert_eq!(rec.fields.len(), 11 + 3 + 2 + 1 + 1);
}

#[test]
fn record_carries_its_locator_as_a_cids_keyset_member() {
    let card = tv_card();
    let rec = record(&card).expect("record");
    let tmdb = TmdbClient::new("token".to_string());
    let cid = links_of(&card, &tmdb).cid.expect("locator");
    assert_eq!(
        field(&rec, &format!("cids/{cid}")),
        Some("true"),
        "a card must be persistable"
    );
    // The derived locator, not some other cid shape, and the only one.
    assert!(cid.starts_with('b'));
    let filed: Vec<String> = keys(&rec).into_iter().filter(|k| k.starts_with("cids/")).collect();
    assert_eq!(filed, vec!["cids/bagdsaaanar2g2zdcor3duojvgq3ts".to_string()]);
    // Another work's record carries another locator, and one without a locator carries none.
    let mut movie = tv_card();
    movie.kind = TmdbKind::Movie;
    movie.source_id = "movie:95479".to_string();
    assert!(!record(&movie).expect("record").fields.contains_key(&filed[0]));
    let mut links = links_of(&card, &tmdb);
    links.cid = None;
    let bare = card.to_record(&tmdb, &KeyMap::new(), &links).expect("record");
    assert!(!keys(&bare).iter().any(|k| k.starts_with("cids/")));
}

#[test]
fn card_without_poster_or_overview_is_not_emitted() {
    let mut no_poster = tv_card();
    no_poster.poster_path = None;
    assert!(record(&no_poster).is_none());

    let mut no_overview = tv_card();
    no_overview.overview = Some("   ".to_string());
    assert!(record(&no_overview).is_none());

    let mut empty_poster = tv_card();
    empty_poster.poster_path = Some(String::new());
    assert!(record(&empty_poster).is_none());
}

#[test]
fn symbol_title_card_carries_a_search_title() {
    let mut card = tv_card();
    card.title = "3%".to_string();
    card.guard_titles = ["3%", "3 %", "3", "Three Percent", "3 percent", "3 Pourcent"]
        .iter()
        .map(|s| s.to_string())
        .collect();
    let rec = record(&card).expect("record");
    assert_eq!(field(&rec, "title"), Some("3%"));
    assert_eq!(field(&rec, "searchTitle"), Some("3 percent"));
    let rec = record(&tv_card()).expect("record");
    assert!(!rec.fields.contains_key("searchTitle"));
}

#[test]
fn record_files_every_name_as_a_language_nested_key_set() {
    let rec = record(&tv_card()).expect("record");
    for key in [
        "titles/jpn/葬送のフリーレン",
        "titles/eng/Frieren: Beyond Journey's End",
        "titles/jpn/Sousou no Frieren",
    ] {
        assert_eq!(field(&rec, key), Some("true"), "{key}");
    }
    // Leaves only: no scalar at the language level.
    assert!(!keys(&rec).iter().any(|k| k.starts_with("titles/") && slashes(k) == 1));
}

#[test]
fn title_names_match_the_three_percent_example() {
    let aka = |m: &str, t: &str| TmdbAltTitle {
        title: t.to_string(),
        iso_3166_1: m.to_string(),
    };
    let names = title_names(
        "3%",
        Some("3%"),
        Some("pt"),
        &[
            aka("US", "3 Percent"),
            aka("FR", "3 Pourcent"),
            aka("BR", "3%"),
            aka("CA", "3 Por  Cento "),
        ],
    );
    assert_eq!(
        names,
        vec![
            ("por", "3%".to_string()),
            ("eng", "3 Percent".to_string()),
            ("fra", "3 Pourcent".to_string()),
            ("und", "3 Por Cento".to_string()),
        ]
    );
    let names = title_names("Naruto", Some("ナルト"), Some("ja"), &[]);
    assert_eq!(names, vec![("jpn", "ナルト".to_string()), ("eng", "Naruto".to_string())]);
    assert_eq!(
        title_names("(untitled)", Some("X"), Some("xx"), &[]),
        vec![("und", "X".to_string())]
    );
}

#[test]
fn title_member_key_normalises_like_two_peers_must() {
    assert_eq!(
        title_member_key("jpn", "Fate/Zero").as_deref(),
        Some("titles/jpn/Fate\u{2215}Zero")
    );
    assert_eq!(
        title_member_key("eng", "  3   Percent ").as_deref(),
        Some("titles/eng/3 Percent")
    );
    assert_eq!(title_member_key("eng", "Pokémon").as_deref(), Some("titles/eng/Pokémon"));
    assert_eq!(title_member_key("eng", "   "), None);
}

#[test]
fn normal_names_are_stable() {
    for name in ["  3   Percent ", "a\u{3000}b", "\t", "x"] {
        let once = normalize_title_name(name);
        assert_eq!(normalize_title_name(&once), once);
        assert_eq!(normalize_title_name(name.trim()), once);
    }
    assert_eq!(normalize_title_name("a\u{3000} b"), "a b");
}

#[test]
fn search_aka_never_picks_something_weaker() {
    let akas = |v: &[&str]| v.iter().map(|s| s.to_string()).collect::<Vec<_>>();
    assert_eq!(search_aka("M*A*S*H", &akas(&["MASH"])), None);
    assert_eq!(search_aka("3%", &akas(&["3", "3 %"])), None);
    assert_eq!(search_aka("Law & Order", &akas(&["Law and Order"])), Some("Law and Order"));
    assert_eq!(search_aka("Naruto", &akas(&["Naruto Shippuden"])), None);
}

#[test]
fn search_aka_takes_the_first_that_qualifies() {
    let akas: Vec<String> =
        ["3 & more", "Three", "3 PERCENT", "3 percent"].iter().map(|s| s.to_string()).collect();
    assert_eq!(search_aka("3%", &akas), Some("3 PERCENT"));
    // A title without a word is not searched for at all.
    assert_eq!(search_aka("%", &akas), None);
}

#[test]
fn hostile_symbols_are_those_keyword_searches_do_not_fold() {
    for c in ['%', '*', '&', '#', '@', '+', '"', '$', '<', '~'] {
        assert!(is_search_hostile_symbol(c), "{c}");
    }
    for c in ['\'', '.', '_', ':', ';', ',', '-', '/', '(', ')', '=', '!', 'a', '1', ' ', '½'] {
        assert!(!is_search_hostile_symbol(c), "{c}");
    }
}

#[test]
fn tmdb_alt_titles_put_english_markets_first() {
    let alt = alt_titles(
        r#"{"results":[{"iso_3166_1":"FR","title":"3 Pourcent"},{"iso_3166_1":"US","title":"3 percent"},{"title":"no market"}]}"#,
    );
    assert_eq!(alt.all(), vec!["3 percent", "3 Pourcent", "no market"]);
    assert!(alt.has_markets());
    let legacy = alt_titles(r#"{"results":[{"title":"3 Pourcent"},{"title":"3 percent"}]}"#);
    assert!(!legacy.has_markets(), "a pre-market cache entry must refetch");
    assert!(TmdbAltTitles::default().has_markets(), "no AKAs is complete");
}

#[test]
fn alternative_titles_of_both_shapes_are_trimmed_and_kept_in_order() {
    let alt = alt_titles(
        r#"{"results":[{"iso_3166_1":"JP","title":" a "},{"iso_3166_1":"GB","title":"b"}],"titles":[{"iso_3166_1":"US","title":"c"},{"iso_3166_1":"DE","title":"  "}]}"#,
    );
    assert_eq!(alt.all(), vec!["b", "c", "a"]);
    let markets: Vec<String> = alt.entries().into_iter().map(|e| e.iso_3166_1).collect();
    assert_eq!(markets, vec!["GB", "US", "JP"]);
}

#[test]
fn movie_card_uses_the_movie_content_kind() {
    let mut card = tv_card();
    card.kind = TmdbKind::Movie;
    card.source_id = "movie:27205".to_string();
    assert_eq!(card.content_kind(), "movie");
    assert_eq!(card.record_id(), "tmdb:movie:27205");
    // Distinct id namespace, distinct CID from the tv card.
    assert_ne!(card.cid_preimage(), tv_card().cid_preimage());
    let tmdb = TmdbClient::new("token".to_string());
    assert_ne!(links_of(&card, &tmdb).cid, links_of(&tv_card(), &tmdb).cid);
    // A film has no season count.
    assert!(!record(&card).expect("record").fields.contains_key("seasonCount"));
}

fn filters(list: &[(&str, &[&str])]) -> KeyMap<Vec<String>> {
    let mut map: KeyMap<Vec<String>> = KeyMap::new();
    for (k, vs) in list {
        map.insert(k.to_string(), vs.iter().map(|v| v.to_string()).collect());
    }
    map
}

#[test]
fn query_filters_are_echoed_except_the_key_set_fields() {
    let f = filters(&[
        ("fileType", &["card"]),
        ("popular", &["true"]),
        ("genres", &["action-adventure"]),
        ("languages", &["jpn"]),
    ]);
    let rec = record_with(&tv_card(), &f).expect("record");
    assert_eq!(field(&rec, "popular"), Some("true"), "ordinary filters echo");
    assert_eq!(field(&rec, "fileType"), Some("card"), "own value wins the echo");
    assert!(!rec.fields.contains_key("languages"));
    assert!(
        !rec.fields.contains_key("genres"),
        "the genre slug must not be echoed as a flat field"
    );
    assert_eq!(field(&rec, "genres/Animation"), Some("true"));
    assert_eq!(field(&rec, "genres/Sci-Fi & Fantasy"), Some("true"));
}

#[test]
fn an_echo_joins_the_values_and_never_overrides_the_card() {
    let f = filters(&[
        ("popular", &["true", "maybe"]),
        ("contentKind", &["episode"]),
        ("title", &["another"]),
        ("empty", &[]),
    ]);
    let rec = record_with(&tv_card(), &f).expect("record");
    assert_eq!(field(&rec, "popular"), Some("true,maybe"));
    assert_eq!(field(&rec, "contentKind"), Some("series"));
    assert_eq!(field(&rec, "title"), Some("Frieren: Beyond Journey's End"));
    assert!(!rec.fields.contains_key("empty"));
}

fn img(path: &str, lang: Option<&str>, avg: f64, count: u32) -> TmdbImage {
    TmdbImage {
        file_path: path.to_string(),
        iso_639_1: lang.map(str::to_string),
        vote_average: avg.to_bits(),
        vote_count: count,
    }
}

#[test]
fn record_files_the_primary_poster_as_a_locator_member() {
    let tmdb = TmdbClient::new("token".to_string());
    let mut card = tv_card();
    let primary = card.poster_path.clone().expect("fixture poster");
    card.posters = vec![
        img("/alt-fr.jpg", Some("fr"), 5.5, 10),
        img(&primary, Some("ja"), 5.0, 3),
        img("/textless.jpg", None, 6.0, 1),
    ];
    let rec = record(&card).expect("record");

    let primary_cid = locator(field(&rec, "poster_url").unwrap());
    assert_eq!(field(&rec, &format!("posters/jpn/{primary_cid}")), Some("true"));
    let fr = locator(&tmdb.poster_cdn_url("/alt-fr.jpg"));
    let textless = locator(&tmdb.poster_cdn_url("/textless.jpg"));
    assert!(rec.fields.contains_key(&format!("posters/fra/{fr}")));
    assert!(rec.fields.contains_key(&format!("posters/zxx/{textless}")));
    let members = keys(&rec).iter().filter(|k| k.starts_with("posters/")).count();
    assert_eq!(members, 3, "the primary is listed once, not twice");
    // Leaves only, and never a 639-2/B code.
    assert!(!keys(&rec).iter().any(|k| k.starts_with("posters/") && slashes(k) != 2));
    assert!(!keys(&rec).iter().any(|k| k.starts_with("posters/fre/")));
}

fn poster_keys(primary: &str, candidates: &Vec<TmdbImage>) -> Vec<String> {
    let tmdb = TmdbClient::new("token".to_string());
    let mut locators: KeyMap<String> = KeyMap::new();
    for url in poster_urls(&tmdb, primary, candidates) {
        let cid = locator(&url);
        locators.insert(url, cid);
    }
    poster_member_keys(&tmdb, primary, candidates, &locators)
}

#[test]
fn poster_members_rank_by_votes_and_cap_at_ten() {
    let tmdb = TmdbClient::new("token".to_string());
    let candidates: Vec<TmdbImage> = (0..15)
        .map(|i| img(&format!("/p{i:02}.jpg"), Some("en"), f64::from(i), 1))
        .collect();
    let keys = poster_keys("/primary.jpg", &candidates);
    assert_eq!(keys.len(), MAX_POSTER_MEMBERS);
    // Primary first; TMDB didn't list it among its images, so `und`.
    let primary = locator(&tmdb.poster_cdn_url("/primary.jpg"));
    assert_eq!(keys[0], format!("posters/und/{primary}"));
    // Then the best vote_average: p14, p13, … p06 — p05 is cut.
    let best = locator(&tmdb.poster_cdn_url("/p14.jpg"));
    assert_eq!(keys[1], format!("posters/eng/{best}"));
    let cut = locator(&tmdb.poster_cdn_url("/p05.jpg"));
    assert!(!keys.contains(&format!("posters/eng/{cut}")));
    // vote_count breaks a vote_average tie.
    let tie = poster_keys(
        "/primary.jpg",
        &vec![img("/few.jpg", None, 5.0, 1), img("/many.jpg", None, 5.0, 9)],
    );
    let many = locator(&tmdb.poster_cdn_url("/many.jpg"));
    assert_eq!(tie[1], format!("posters/zxx/{many}"));
    // An unmapped language is `und`, never a 2-letter key.
    let odd = poster_keys("/primary.jpg", &vec![img("/x.jpg", Some("xx"), 1.0, 1)]);
    assert!(odd[1].starts_with("posters/und/"), "{odd:?}");
}

#[test]
fn posters_without_a_locator_or_a_path_are_left_out() {
    let tmdb = TmdbClient::new("token".to_string());
    let candidates = vec![
        img("  ", Some("en"), 9.0, 9),
        img("/b.jpg", Some("en"), 2.0, 1),
        img("/a.jpg", Some("en"), 2.0, 1),
        img("/gone.jpg", Some("en"), 8.0, 1),
    ];
    let mut locators: KeyMap<String> = KeyMap::new();
    for path in ["  ", "/b.jpg", "/a.jpg"] {
        let url = tmdb.poster_cdn_url(path);
        let cid = locator(&url);
        locators.insert(url, cid);
    }
    let keys = poster_member_keys(&tmdb, "/primary.jpg", &candidates, &locators);
    // The path settles a full tie.
    assert_eq!(
        keys,
        vec![
            format!("posters/eng/{}", locator(&tmdb.poster_cdn_url("/a.jpg"))),
            format!("posters/eng/{}", locator(&tmdb.poster_cdn_url("/b.jpg"))),
        ]
    );
}

#[test]
fn card_without_an_image_list_files_no_poster_set() {
    let rec = record(&tv_card()).expect("record");
    assert!(rec.fields.contains_key("poster_url"), "poster itself is unaffected");
    assert!(!keys(&rec).iter().any(|k| k.starts_with("posters/")));
}

fn tv_details(json: &str) -> TmdbTvDetails {
    let v: Value = serde_json::from_str(json).expect("decode");
    let images = v.get("images").map(|i| TmdbImages {
        posters: i
            .get("posters")
            .and_then(|p| p.as_array())
            .map(|a| {
                a.iter()
                    .map(|e| TmdbImage {
                        file_path: text_at(e, "file_path").unwrap_or_default(),
                        iso_639_1: text_at(e, "iso_639_1"),
                        vote_average: e
                            .get("vote_average")
                            .and_then(|x| x.as_f64())
                            .unwrap_or_default()
                            .to_bits(),
                        vote_count: e
                            .get("vote_count")
                            .and_then(|x| x.as_u64())
                            .unwrap_or_default() as u32,
                    })
                    .collect()
            })
            .unwrap_or_default(),
    });
    TmdbTvDetails {
        name: text_at(&v, "name").unwrap_or_default(),
        images,
        ..Default::default()
    }
}

#[test]
fn tmdb_images_append_decodes() {
    let d = tv_details(
        r#"{"name":"X","images":{"posters":[{"file_path":"/a.jpg","iso_639_1":null,"vote_average":5.3,"vote_count":4},{"file_path":"/b.jpg","iso_639_1":"fr","vote_average":0}]}}"#,
    );
    // The decoded list reaches the hit and the card as it is.
    for posters in [
        d.as_hit(1).expect("a hit").posters,
        show_card(1, None, &d).posters,
        d.images.clone().expect("images").posters,
    ] {
        assert_eq!(posters.len(), 2);
        assert_eq!(posters[0].iso_639_1, None);
        assert_eq!(posters[1].iso_639_1.as_deref(), Some("fr"));
        assert_eq!(posters[1].vote_count, 0);
        let keys = poster_keys("/a.jpg", &posters);
        assert!(keys[0].starts_with("posters/zxx/") && keys[1].starts_with("posters/fra/"));
        assert_eq!(keys.len(), 2);
    }
    // A pre-append cache entry still decodes, with no image list, and no poster set comes of it.
    let old = tv_details(r#"{"name":"X"}"#);
    assert!(old.images.is_none());
    assert!(old.as_hit(1).expect("a hit").posters.is_empty());
    assert!(show_card(1, None, &old).posters.is_empty());
    assert!(poster_keys("/a.jpg", &show_card(1, None, &old).posters).is_empty());
}

#[test]
fn record_ids_split_at_the_first_colon() {
    assert_eq!(split_record_id("tmdb:tv:95479"), Some(("tmdb", "tv:95479")));
    assert_eq!(split_record_id("nosource"), None);
    assert_eq!(split_record_id(":tv:1"), None);
    assert_eq!(split_record_id("tmdb:"), None);
    assert_eq!(CardSource::Tmdb.as_str(), "tmdb");
}

#[test]
fn season_counts_are_clamped() {
    assert_eq!(Card::clamp_seasons(0), 1);
    assert_eq!(Card::clamp_seasons(7), 7);
    assert_eq!(Card::clamp_seasons(9999), MAX_CARD_SEASONS);
}
