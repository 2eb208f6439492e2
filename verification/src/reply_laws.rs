//! What requests ask for, what replies and cached entries lead to, and what is kept of them.

use std::collections::HashMap;

use vstd::prelude::*;

use crate::card::{Card, CardView};
use crate::consts::{
    CACHED_PRINCIPAL_DEPTH, TMDB_DISCOVERY_WAIT_DEADLINE_SECS, TMDB_POSTER_TIMEOUT_SECS,
    TMDB_SEARCH_TIMEOUT_SECS, TMDB_WAIT_DEADLINE_SECS,
};
use crate::decimal;
use crate::languages;
use crate::name_laws;
use crate::principal;
use crate::principal::TmdbMultiItem;
use crate::principal_list;
use crate::resolve;
use crate::resolve::{CacheStep, WorkDetails};
use crate::search_laws;
use crate::text;
use crate::tmdb_client;
use crate::tmdb_client::{
    HitView, ImageView, ResponseStep, TmdbCall, TmdbClient, TmdbExternalIds, TmdbGenre, TmdbHit,
    TmdbImages, TmdbKind, TmdbMovieDetails, TmdbSearchItem, TmdbTvDetails,
};
use crate::words;

verus! {

// -- requests -------------------------------------------------------------------------------

/// The word for a kind.
pub open spec fn word(kind: TmdbKind) -> Seq<char> {
    match kind {
        TmdbKind::Movie => "movie"@,
        TmdbKind::Tv => "tv"@,
    }
}

/// Each address goes to the API base without the slashes at its end, and names the kind and the
/// work, or carries the text to look for, as TMDB expects it.
pub proof fn requests_name_what_they_ask_for(
    client: TmdbClient,
    kind: TmdbKind,
    tmdbid: u64,
    encoded: Seq<char>,
    year: u16,
)
    ensures
        ({
            let base = text::strip_trailing(client.api_base@, '/');
            let id = decimal::numeral(tmdbid as nat);
            &&& client.base() == base
            &&& tmdb_client::details_address(base, kind, tmdbid) == base + "/"@ + word(kind) + "/"@
                + id + "?append_to_response=alternative_titles,images"@
            &&& tmdb_client::external_ids_address(base, kind, tmdbid) == base + "/"@ + word(kind)
                + "/"@ + id + "/external_ids"@
            &&& tmdb_client::genres_address(base, kind) == base + "/genre/"@ + word(kind)
                + "/list"@
            &&& tmdb_client::multi_address(base, encoded) == base + "/search/multi?query="@
                + encoded + "&include_adult=false"@
            &&& tmdb_client::search_address(base, kind, encoded, None) == base + "/search/"@ + word(
                kind,
            ) + "?query="@ + encoded + "&include_adult=false"@
            &&& tmdb_client::search_address(base, kind, encoded, Some(year))
                == tmdb_client::search_address(base, kind, encoded, None) + "&year="@
                + decimal::numeral(year as nat)
        }),
{
    let base = text::strip_trailing(client.api_base@, '/');
    let id = decimal::numeral(tmdbid as nat);
    reveal_strlit("/movie/");
    reveal_strlit("/tv/");
    reveal_strlit("movie");
    reveal_strlit("tv");
    reveal_strlit("/");
    assert("/movie/"@ =~= "/"@ + "movie"@ + "/"@);
    assert("/tv/"@ =~= "/"@ + "tv"@ + "/"@);
    let path = "/"@ + word(kind) + "/"@;
    assert(tmdb_client::details_address(base, kind, tmdbid) == base + path + id
        + "?append_to_response=alternative_titles,images"@);
    assert(base + path =~= base + "/"@ + word(kind) + "/"@);
}

/// A list is asked for at the API base, one slash before its path however many the path starts with.
pub proof fn a_list_is_asked_for_below_the_base(base: Seq<char>, path: Seq<char>, slashes: Seq<char>)
    requires
        path.len() > 0 && path[0] != '/',
        forall|i: int| 0 <= i < slashes.len() ==> #[trigger] slashes[i] == '/',
    ensures
        tmdb_client::list_address(base, slashes + path) == base + "/"@ + path,
{
    let s = slashes + path;
    let lo = text::stripping_the_start(s, '/');
    let n = slashes.len() as int;
    if lo < n {
        assert(s[lo] == slashes[lo]);
    } else if lo > n {
        assert(s[n] == path[0]);
    }
    assert(s.subrange(n, s.len() as int) =~= path);
}

// -- replies --------------------------------------------------------------------------------

/// A response is decoded exactly when its status says success; a request that failed and any other
/// status is a miss, but for too many requests, which pauses.
pub proof fn only_success_is_decoded(status: Option<u16>, header: Option<Seq<char>>)
    ensures
        tmdb_client::response_step(status, header) == ResponseStep::Decode <==> (status is Some
            && 200 <= status->0 < 300),
        tmdb_client::response_step(status, header) is RateLimited <==> status == Some(429u16),
        status is None ==> tmdb_client::response_step(status, header) == ResponseStep::Miss,
{
}

/// Too many requests pause for as many seconds as the header's numeral says, whatever the number;
/// for five where there is no header, an empty one, or one with anything but digits after its first
/// character.
pub proof fn a_rate_limit_pauses_as_long_as_it_says(header: Option<Seq<char>>, n: u64)
    ensures
        header == Some(decimal::numeral(n as nat)) ==> tmdb_client::response_step(
            Some(429u16),
            header,
        ) == ResponseStep::RateLimited(n),
        header is None || header->0.len() == 0 ==> tmdb_client::response_step(Some(429u16), header)
            == ResponseStep::RateLimited(5),
        header matches Some(h) ==> (exists|i: int|
            1 <= i < h.len() && !('0' <= #[trigger] h[i] && h[i] <= '9'))
            ==> tmdb_client::response_step(Some(429u16), header) == ResponseStep::RateLimited(5),
{
    decimal::lemma_unsigned_value_of_numeral(n as nat, u64::MAX as nat);
    if let Some(h) = header {
        if exists|i: int| 1 <= i < h.len() && !('0' <= #[trigger] h[i] && h[i] <= '9') {
            let i = choose|i: int| 1 <= i < h.len() && !('0' <= #[trigger] h[i] && h[i] <= '9');
            let body = decimal::without_plus(h);
            if h[0] == '+' {
                assert(body[i - 1] == h[i]);
                assert(!text::ascii_digit(body[i - 1]));
            } else {
                assert(!text::ascii_digit(body[i]));
            }
        }
    }
}

/// A call brings its value when it hit, and asks for a pause when it was limited; nothing otherwise,
/// and never both.
pub proof fn a_call_brings_a_value_or_a_pause<T>(reply: Option<TmdbCall<T>>, x: T, secs: u64)
    ensures
        reply == Some(TmdbCall::Hit(x)) ==> resolve::called_value(reply) == Some(x),
        reply == Some(TmdbCall::<T>::RateLimited(secs)) ==> resolve::called_pause(reply) == Some(
            secs,
        ),
        resolve::called_value(reply) is Some ==> reply is Some && reply->0 is Hit,
        resolve::called_pause(reply) is Some ==> reply is Some && reply->0 is RateLimited,
{
}

/// A body that decoded is the value of its call, and one that did not is a miss; a catalog page keeps
/// what became of its call, and the pause.
pub proof fn a_decoded_body_is_the_value<T>(
    body: Option<T>,
    kind: TmdbKind,
    reply: TmdbCall<Vec<TmdbSearchItem>>,
)
    ensures
        body matches Some(b) ==> tmdb_client::body_call(body) == TmdbCall::Hit(b),
        body is None ==> tmdb_client::body_call(body) is Miss,
        reply is Hit <==> tmdb_client::page_call(kind, reply) is Hit,
        reply is Miss <==> tmdb_client::page_call(kind, reply) is Miss,
        reply matches TmdbCall::RateLimited(secs) ==> tmdb_client::page_call(kind, reply)
            == TmdbCall::<Seq<HitView>>::RateLimited(secs),
        reply matches TmdbCall::Hit(items) ==> tmdb_client::page_call(kind, reply) == TmdbCall::Hit(
            Seq::new(items@.len(), |i: int| tmdb_client::list_hit(items@[i], kind)),
        ),
{
    if let TmdbCall::Hit(items) = reply {
        assert(tmdb_client::page_hits(kind, items@) =~= Seq::new(
            items@.len(),
            |i: int| tmdb_client::list_hit(items@[i], kind),
        ));
    }
}

// -- cached entries -------------------------------------------------------------------------

/// Cached show details are the answer when they have a name that is not blank and alternative
/// titles that are empty or have a market among them; anything less is fetched again.
pub proof fn complete_show_details_are_not_fetched_again(cached: Option<TmdbTvDetails>)
    ensures
        cached is None ==> resolve::show_step(cached) == CacheStep::<TmdbTvDetails>::Fetch,
        cached matches Some(d) ==> {
            let fetch = resolve::show_step(cached) == CacheStep::<TmdbTvDetails>::Fetch;
            &&& !fetch ==> resolve::show_step(cached) == CacheStep::Answer(Some(d))
            &&& text::trim(d.name@).len() == 0 ==> fetch
            &&& d.alternative_titles is None ==> fetch
            &&& d.alternative_titles matches Some(a) ==> {
                let some = a.results@.len() + a.titles@.len() > 0;
                let marked = (exists|i: int|
                    0 <= i < a.results@.len() && (#[trigger] a.results@[i]).iso_3166_1@.len() > 0)
                    || (exists|i: int|
                    0 <= i < a.titles@.len() && (#[trigger] a.titles@[i]).iso_3166_1@.len() > 0);
                &&& some && !marked ==> fetch
                &&& text::trim(d.name@).len() > 0 && (!some || marked) ==> !fetch
            }
        },
{
    if let Some(d) = cached {
        if let Some(a) = d.alternative_titles {
            name_laws::a_list_with_a_market_was_decoded_with_markets(a);
        }
    }
}

/// A cached film is the answer when its text is not `null` and it decodes, and its alternative
/// titles, if it has any, came with their markets; anything less is fetched again.
pub proof fn complete_films_are_not_fetched_again(json: Seq<char>, film: Option<TmdbHit>)
    ensures
        resolve::film_step(None) == CacheStep::<TmdbHit>::Fetch,
        film is None ==> resolve::film_step(Some((json, film))) == CacheStep::<TmdbHit>::Fetch,
        json == "null"@ ==> resolve::film_step(Some((json, film))) == CacheStep::<TmdbHit>::Fetch,
        film matches Some(hit) ==> {
            let step = resolve::film_step(Some((json, film)));
            &&& hit.alt_titles@.len() > 0 && hit.akas@.len() == 0 ==> step == CacheStep::<
                TmdbHit,
            >::Fetch
            &&& json != "null"@ && (hit.alt_titles@.len() == 0 || hit.akas@.len() > 0) ==> step
                == CacheStep::Answer(Some(hit))
        },
{
    if let Some(hit) = film {
        assert(hit@.alt_titles.len() == hit.alt_titles@.len());
        assert(hit@.akas.len() == hit.akas@.len());
    }
}

/// Cached external ids are final, though they do not decode.
pub proof fn external_ids_are_asked_for_once(ids: Option<TmdbExternalIds>)
    ensures
        resolve::ids_step(Some(ids)) == CacheStep::Answer(ids),
        resolve::ids_step(None) == CacheStep::<TmdbExternalIds>::Fetch,
{
}

// -- genre tables ---------------------------------------------------------------------------

/// Is `i` the last entry for a genre id whose name is not blank?
pub open spec fn is_last_entry(genres: Seq<TmdbGenre>, id: u32, i: int) -> bool {
    &&& 0 <= i < genres.len()
    &&& genres[i].id == id
    &&& text::trim(genres[i].name@).len() > 0
    &&& forall|k: int|
        i < k < genres.len() ==> (#[trigger] genres[k]).id != id || text::trim(
            genres[k].name@,
        ).len() == 0
}

/// A genre table names each id of its list by the last entry for it whose name is not blank, and has
/// no other id.
pub proof fn a_genre_table_names_the_ids_of_its_list(genres: Seq<TmdbGenre>, id: u32)
    ensures
        resolve::genre_map(genres).contains_key(id) <==> exists|i: int|
            0 <= i < genres.len() && (#[trigger] genres[i]).id == id && text::trim(
                genres[i].name@,
            ).len() > 0,
        forall|i: int| #[trigger]
            is_last_entry(genres, id, i) ==> resolve::genre_map(genres)[id] == genres[i].name@,
    decreases genres.len(),
{
    if genres.len() > 0 {
        let init = genres.drop_last();
        let last = genres.last();
        a_genre_table_names_the_ids_of_its_list(init, id);
        let now = resolve::genre_map(genres);
        if now.contains_key(id) {
            if last.id == id && text::trim(last.name@).len() > 0 {
                assert(genres[genres.len() - 1].id == id);
            } else {
                let i = choose|i: int|
                    0 <= i < init.len() && (#[trigger] init[i]).id == id && text::trim(
                        init[i].name@,
                    ).len() > 0;
                assert(genres[i].id == id);
            }
        }
        if exists|i: int|
            0 <= i < genres.len() && (#[trigger] genres[i]).id == id && text::trim(
                genres[i].name@,
            ).len() > 0 {
            let i = choose|i: int|
                0 <= i < genres.len() && (#[trigger] genres[i]).id == id && text::trim(
                    genres[i].name@,
                ).len() > 0;
            if i < init.len() {
                assert(init[i].id == id);
            }
        }
        assert forall|i: int| #[trigger]
            is_last_entry(genres, id, i) implies now[id] == genres[i].name@ by {
            if i < init.len() {
                assert(genres[genres.len() - 1].id != id || text::trim(
                    genres[genres.len() - 1].name@,
                ).len() == 0);
                assert forall|k: int| i < k < init.len() implies (#[trigger] init[k]).id != id
                    || text::trim(init[k].name@).len() == 0 by {
                    assert(init[k] == genres[k]);
                }
                assert(init[i] == genres[i]);
                assert(is_last_entry(init, id, i));
                assert(init[i].id == id && text::trim(init[i].name@).len() > 0);
            }
        }
    }
}

/// A genre list that was not fetched makes an empty table.
pub proof fn no_list_makes_an_empty_table(fetched: Option<Vec<TmdbGenre>>, id: u32)
    ensures
        fetched is None ==> !resolve::fetched_table(fetched).contains_key(id),
        fetched matches Some(list) ==> resolve::fetched_table(fetched).contains_key(id) == (
        exists|i: int|
            0 <= i < list@.len() && (#[trigger] list@[i]).id == id && text::trim(
                list@[i].name@,
            ).len() > 0),
{
    if let Some(list) = fetched {
        a_genre_table_names_the_ids_of_its_list(list@, id);
    }
}

// -- lists of titles and cards --------------------------------------------------------------

/// What was kept stays: one more title at the end of a list adds itself, trimmed, when it is not
/// blank and differs from all kept ones up to case, and changes nothing otherwise. So the first of
/// several equal titles is the one that is kept.
pub proof fn one_more_title_changes_none_before_it(list: Seq<Seq<char>>, title: Seq<char>)
    ensures
        ({
            let kept = resolve::first_seen(list);
            let now = resolve::first_seen(list.push(title));
            let t = text::trim(title);
            let known = exists|i: int|
                0 <= i < kept.len() && text::lowercase(#[trigger] kept[i]) == text::lowercase(t);
            &&& t.len() > 0 && !known ==> now == kept.push(t)
            &&& t.len() == 0 || known ==> now == kept
        }),
        resolve::first_seen(Seq::empty()).len() == 0,
{
    let kept = resolve::first_seen(list);
    let lows = resolve::lowercases(kept);
    let t = text::trim(title);
    assert(list.push(title).drop_last() =~= list);
    if lows.contains(text::lowercase(t)) {
        let i = choose|i: int| 0 <= i < lows.len() && lows[i] == text::lowercase(t);
        assert(text::lowercase(kept[i]) == text::lowercase(t));
    }
    if exists|i: int|
        0 <= i < kept.len() && text::lowercase(#[trigger] kept[i]) == text::lowercase(t) {
        let i = choose|i: int|
            0 <= i < kept.len() && text::lowercase(#[trigger] kept[i]) == text::lowercase(t);
        assert(lows[i] == text::lowercase(t));
    }
}

/// The cards of a search are those of the look-ups that succeeded, one after the other.
pub proof fn failed_look_ups_are_left_out(lookups: Seq<Option<Card>>, card: Card)
    ensures
        resolve::found_cards(Seq::empty()).len() == 0,
        resolve::found_cards(lookups.push(None)) == resolve::found_cards(lookups),
        resolve::found_cards(lookups.push(Some(card))) == resolve::found_cards(lookups).push(card),
{
    assert(lookups.push(None).drop_last() =~= lookups);
    assert(lookups.push(Some(card)).drop_last() =~= lookups);
}

/// The names of genre ids come one after the other, an id that the table lacks adding none.
pub proof fn unknown_genres_are_left_out(ids: Seq<u32>, table: Map<u32, Seq<char>>, id: u32)
    ensures
        resolve::named_genres(Seq::empty(), table).len() == 0,
        table.contains_key(id) ==> resolve::named_genres(ids.push(id), table)
            == resolve::named_genres(ids, table).push(table[id]),
        !table.contains_key(id) ==> resolve::named_genres(ids.push(id), table)
            == resolve::named_genres(ids, table),
{
    assert(ids.push(id).drop_last() =~= ids);
}

// -- details --------------------------------------------------------------------------------

/// Does a list of poster candidates say what the payload's images say, one by one?
pub open spec fn are_posters_of(posters: Seq<ImageView>, images: Option<TmdbImages>) -> bool {
    match images {
        Some(list) => {
            &&& posters.len() == list.posters@.len()
            &&& forall|i: int|
                0 <= i < posters.len() ==> {
                    let image = list.posters@[i];
                    &&& (#[trigger] posters[i]).file_path == image.file_path@
                    &&& posters[i].language == text::text_of(image.iso_639_1)
                    &&& posters[i].vote_average == image.vote_average
                    &&& posters[i].vote_count == image.vote_count
                }
        },
        None => posters.len() == 0,
    }
}

/// A work that was looked up lists the posters of its details, each with its path, its language and
/// its votes; and a show keeps its season summaries.
pub proof fn a_work_has_the_posters_of_its_details(
    tmdbid: u64,
    ext: Option<TmdbExternalIds>,
    details: TmdbTvDetails,
    film: TmdbMovieDetails,
    table: Map<u32, Seq<char>>,
)
    ensures
        are_posters_of(resolve::tv_card_view(tmdbid, ext, details).posters, details.images),
        are_posters_of(
            resolve::movie_card_view(tmdbid, ext, film.hit(), table).posters,
            film.images,
        ),
        resolve::tv_card_view(tmdbid, ext, details).season_summaries == details.seasons@,
{
}

/// A show remembered as a hit says what its details say.
pub proof fn a_show_as_a_hit_says_what_its_details_say(details: TmdbTvDetails, tmdbid: u64)
    ensures
        ({
            let hit = details.hit(tmdbid);
            &&& hit.tmdbid == tmdbid
            &&& hit.title == details.name@
            &&& hit.original_title == text::text_of(details.original_name)
            &&& hit.original_language == text::text_of(details.original_language)
            &&& hit.overview == text::text_of(details.overview)
            &&& hit.year == tmdb_client::leading_year(text::text_of(details.first_air_date))
            &&& hit.poster_path == text::text_of(details.poster_path)
            &&& hit.genre_ids.len() == 0
            &&& are_posters_of(hit.posters, details.images)
            &&& details.alternative_titles is None ==> hit.akas.len() == 0
            &&& details.alternative_titles matches Some(a) ==> hit.akas == a.ordered()
            &&& hit.alt_titles.len() == hit.akas.len()
            &&& forall|i: int|
                0 <= i < hit.akas.len() ==> #[trigger] hit.alt_titles[i] == hit.akas[i].0
        }),
        details.displays() <==> text::trim(details.name@).len() > 0,
{
}

/// A film remembered as a hit says what its details say, its genres by their ids.
pub proof fn a_film_as_a_hit_says_what_its_details_say(film: TmdbMovieDetails)
    ensures
        ({
            let hit = film.hit();
            &&& hit.tmdbid == film.id
            &&& film.title matches Some(t) ==> hit.title == t@
            &&& film.title is None ==> hit.title == "(untitled)"@
            &&& hit.original_title == text::text_of(film.original_title)
            &&& hit.original_language == text::text_of(film.original_language)
            &&& hit.overview == text::text_of(film.overview)
            &&& hit.year == tmdb_client::leading_year(text::text_of(film.release_date))
            &&& hit.poster_path == text::text_of(film.poster_path)
            &&& hit.genre_ids.len() == film.genres@.len()
            &&& forall|i: int|
                0 <= i < film.genres@.len() ==> #[trigger] hit.genre_ids[i] == film.genres@[i].id
            &&& are_posters_of(hit.posters, film.images)
            &&& film.alternative_titles is None ==> hit.akas.len() == 0
            &&& film.alternative_titles matches Some(a) ==> hit.akas == a.ordered()
            &&& hit.alt_titles.len() == hit.akas.len()
            &&& forall|i: int|
                0 <= i < hit.akas.len() ==> #[trigger] hit.alt_titles[i] == hit.akas[i].0
        }),
{
}

// -- the principal search -------------------------------------------------------------------

/// A search is remembered under its text, trimmed and in lower case; one for blank text or for no
/// works is neither made nor remembered.
pub proof fn a_search_is_remembered_under_its_text(query: Seq<char>, n: nat)
    ensures
        n == 0 ==> resolve::principal_key_text(query, n) is None,
        resolve::principal_key_text(query, n) matches Some(key) ==> key == text::lowercase(
            text::trim(query),
        ) && key.len() > 0 && n > 0,
        n > 0 && text::lowercase(text::trim(query)).len() > 0 ==> resolve::principal_key_text(
            query,
            n,
        ) is Some,
{
}

/// What is remembered of a search is a list of thirty works at most, most popular first, each by id
/// and kind one of TMDB's results that is a film or a show and whose title holds half of the words
/// of the query.
pub proof fn remembered_works_are_found_works(hits: Seq<TmdbMultiItem>, query: Seq<char>, i: int)
    requires
        0 <= i < resolve::persisted_works(hits, query).len(),
    ensures
        resolve::persisted_works(hits, query).len() <= 30,
        exists|k: int, title: Seq<char>, places: Set<int>|
            0 <= k < hits.len() && {
                let work = resolve::persisted_works(hits, query)[i];
                let item = (#[trigger] hits[k])@;
                &&& work.0 == item.id
                &&& work.1 == TmdbKind::Movie <==> item.media_type == Some("movie"@)
                &&& work.1 == TmdbKind::Tv <==> item.media_type == Some("tv"@)
                &&& search_laws::is_called(item, title)
                &&& #[trigger] search_laws::are_half_the_words(places, query, title)
            },
{
    let all = principal::multis_of(hits);
    let n = CACHED_PRINCIPAL_DEPTH as nat;
    let top = principal::top_results(all, query, n);
    search_laws::every_work_found_holds_half_the_query(all, query, n);
    principal::top_results_are_confident_and_ranked(all, query, n);
    assert forall|j: int| 0 <= j < top.len() implies search_laws::is_work(#[trigger] top[j]) by {
    }
    search_laws::found_works_are_listed_by_id_and_kind(top);
    let item = top[i];
    let k = choose|k: int| 0 <= k < all.len() && all[k] == item;
    assert(hits[k]@ == item);
    let (title, places) = choose|title: Seq<char>, places: Set<int>|
        search_laws::is_called(item, title) && #[trigger] search_laws::are_half_the_words(
            places,
            query,
            title,
        );
    let work = resolve::persisted_works(hits, query)[i];
    assert(work == principal::anchors_of(top)[i]);
    assert(0 <= k < hits.len() && search_laws::is_called(hits[k]@, title)
        && search_laws::are_half_the_words(places, query, title));
}

/// The remembered text is a JSON array: empty brackets for no works, and for one more work what was
/// written before with the work's object at its end.
pub proof fn a_remembered_list_is_a_json_array(list: Seq<(u64, TmdbKind)>, id: u64, kind: TmdbKind)
    ensures
        ({
            let entry = "{\"tmdbid\":"@ + decimal::numeral(id as nat) + ",\"kind\":\""@ + word(kind)
                + "\"}"@;
            let before = principal_list::principal_json(list);
            let now = principal_list::principal_json(list.push((id, kind)));
            &&& principal_list::principal_json(Seq::empty()) == "["@ + "]"@
            &&& list.len() == 0 ==> now == "["@ + entry + "]"@
            &&& list.len() > 0 ==> before.len() > 0 && now == before.drop_last() + ","@ + entry
                + "]"@
        }),
{
    let entry = principal_list::entry_json((id, kind));
    let parts = list.map_values(|e: (u64, TmdbKind)| principal_list::entry_json(e));
    let none = Seq::<(u64, TmdbKind)>::empty();
    reveal_strlit("]");
    assert(list.push((id, kind)).map_values(
        |e: (u64, TmdbKind)| principal_list::entry_json(e),
    ) =~= parts + seq![entry]);
    assert(none.map_values(|e: (u64, TmdbKind)| principal_list::entry_json(e)) =~= Seq::empty());
    assert("["@ + Seq::empty() + "]"@ =~= "["@ + "]"@);
    name_laws::joining_lists(parts, seq![entry], entry, ","@);
    if list.len() > 0 {
        let joined = words::join(parts, ","@);
        let before = principal_list::principal_json(list);
        assert(before.drop_last() =~= "["@ + joined);
        assert("["@ + (joined + ","@ + entry) + "]"@ =~= before.drop_last() + ","@ + entry + "]"@);
    }
}

/// The entries of a parsed list come one after the other, one that names neither a film nor a show
/// adding none.
pub proof fn entries_of_unknown_kind_are_left_out(
    entries: Seq<(u64, Seq<char>)>,
    id: u64,
    kind: Seq<char>,
)
    ensures
        principal_list::known_entries(Seq::empty()).len() == 0,
        kind == "movie"@ ==> principal_list::known_entries(entries.push((id, kind)))
            == principal_list::known_entries(entries).push((id, TmdbKind::Movie)),
        kind == "tv"@ ==> principal_list::known_entries(entries.push((id, kind)))
            == principal_list::known_entries(entries).push((id, TmdbKind::Tv)),
        kind != "movie"@ && kind != "tv"@ ==> principal_list::known_entries(
            entries.push((id, kind)),
        ) == principal_list::known_entries(entries),
{
    reveal_strlit("movie");
    reveal_strlit("tv");
    assert("movie"@.len() == 5 && "tv"@.len() == 2);
    assert(entries.push((id, kind)).drop_last() =~= entries);
}

/// Every film or show among TMDB's results whose title holds half of the words of the query is
/// remembered, unless thirty works are.
pub proof fn every_found_work_is_remembered(
    hits: Seq<TmdbMultiItem>,
    query: Seq<char>,
    k: int,
    title: Seq<char>,
    places: Set<int>,
)
    requires
        words::tokens(query).len() > 0,
        0 <= k < hits.len(),
        search_laws::is_work(hits[k]@),
        search_laws::is_called(hits[k]@, title),
        search_laws::are_half_the_words(places, query, title),
    ensures
        ({
            let works = resolve::persisted_works(hits, query);
            let kind = if hits[k]@.media_type == Some("movie"@) {
                TmdbKind::Movie
            } else {
                TmdbKind::Tv
            };
            works.contains((hits[k].id, kind)) || works.len() == 30
        }),
{
    let all = principal::multis_of(hits);
    let n = CACHED_PRINCIPAL_DEPTH as nat;
    let top = principal::top_results(all, query, n);
    let works = resolve::persisted_works(hits, query);
    assert(all[k] == hits[k]@);
    assert(all.contains(all[k]));
    search_laws::every_work_that_holds_half_the_query_is_found(
        all,
        query,
        n,
        all[k],
        title,
        places,
    );
    search_laws::every_work_found_holds_half_the_query(all, query, n);
    assert forall|j: int| 0 <= j < top.len() implies search_laws::is_work(#[trigger] top[j]) by {
    }
    search_laws::found_works_are_listed_by_id_and_kind(top);
    if top.contains(all[k]) {
        let i = choose|i: int| 0 <= i < top.len() && top[i] == all[k];
        let work = principal::anchors_of(top)[i];
        assert(works[i] == work);
        assert(work.0 == hits[k].id);
        reveal_strlit("movie");
        reveal_strlit("tv");
        assert("movie"@.len() == 5 && "tv"@.len() == 2);
        assert(works.contains(works[i]));
    }
}

/// A search that TMDB answered is answered with the first works it is remembered by, as many as were
/// asked for, and is remembered whole, though it found nothing; one that TMDB did not answer is
/// answered with nothing and not remembered. Only a rate limit pauses.
pub proof fn a_search_is_remembered_when_it_was_answered(
    reply: Option<TmdbCall<Vec<TmdbMultiItem>>>,
    query: Seq<char>,
    few: nat,
    many: nat,
)
    requires
        few <= many,
    ensures
        ({
            let a = resolve::principal_outcome(reply, query, few);
            let b = resolve::principal_outcome(reply, query, many);
            let hit = reply matches Some(TmdbCall::Hit(_));
            &&& a.persist == b.persist
            &&& hit <==> a.persist is Some
            &&& a.answer.len() <= few
            &&& a.answer.is_prefix_of(b.answer)
            &&& b.answer.len() <= few ==> a.answer == b.answer
            &&& b.answer.len() > few ==> a.answer.len() == few
            &&& !hit ==> a.answer.len() == 0
            &&& a.pause is Some <==> (reply is Some && reply->0 is RateLimited)
            &&& reply is Some && reply->0 is RateLimited ==> a.pause == Some(
                reply->0->RateLimited_0,
            )
            &&& reply matches Some(TmdbCall::Hit(hits)) ==> a.persist == Some(
                principal_list::principal_json(resolve::persisted_works(hits@, query)),
            ) && (few >= 30 ==> a.answer == resolve::persisted_works(hits@, query))
        }),
{
    if let Some(TmdbCall::Hit(hits)) = reply {
        let works = resolve::persisted_works(hits@, query);
        let a = resolve::principal_outcome(reply, query, few).answer;
        let b = resolve::principal_outcome(reply, query, many).answer;
        assert(a =~= b.subrange(0, a.len() as int));
        if works.len() > 0 {
            remembered_works_are_found_works(hits@, query, 0);
        }
    }
}

/// A remembered search is answered with the first works of the list it was written for, as many as
/// are asked for; a text that was not written here with the entries of known kind that a decoder
/// finds in it, and with nothing where it finds no list.
pub proof fn a_remembered_search_is_answered_from_its_list(
    list: Seq<(u64, TmdbKind)>,
    json: Seq<char>,
    parsed: Option<Seq<(u64, Seq<char>)>>,
    n: nat,
)
    ensures
        ({
            let answer = resolve::cached_answer(principal_list::principal_json(list), parsed, n);
            &&& list.len() <= n ==> answer == list
            &&& list.len() > n ==> answer == list.subrange(0, n as int)
        }),
        (forall|l: Seq<(u64, TmdbKind)>| json != #[trigger] principal_list::principal_json(l)) ==> {
            let answer = resolve::cached_answer(json, parsed, n);
            &&& parsed is None ==> answer.len() == 0
            &&& parsed matches Some(entries) ==> principal_list::known_entries(entries).len() <= n
                ==> answer == principal_list::known_entries(entries)
        },
{
    principal_list::principal_list_round_trips(list, parsed);
    if list.len() > n {
        assert(resolve::cached_answer(principal_list::principal_json(list), parsed, n)
            =~= list.subrange(0, n as int));
    }
}

// -- works ----------------------------------------------------------------------------------

/// A work has a card exactly when its look-up succeeded; the card has the id that was looked up and
/// the kind and title of what was found, and missing external ids take nothing else from it.
pub proof fn a_found_work_has_a_card(
    tmdbid: u64,
    ext: Option<TmdbExternalIds>,
    show: Option<TmdbTvDetails>,
    film: Option<TmdbHit>,
    table: HashMap<u32, String>,
)
    ensures
        ({
            let c = resolve::work_card(tmdbid, ext, WorkDetails::Tv(show));
            let d = resolve::work_card(tmdbid, ext, WorkDetails::Movie(film, table));
            &&& show is Some <==> c is Some
            &&& film is Some <==> d is Some
            &&& show is Some ==> c->0.kind == TmdbKind::Tv && c->0.tmdbid == Some(tmdbid)
                && c->0.title == show->0.name@
            &&& film is Some ==> d->0.kind == TmdbKind::Movie && d->0.tmdbid == Some(tmdbid)
                && d->0.title == film->0.title@
            &&& show is Some && ext is Some ==> resolve::work_card(
                tmdbid,
                None,
                WorkDetails::Tv(show),
            ) == Some(CardView { tvdb_id: None, imdb_id: None, ..c->0 })
            &&& film is Some && ext is Some ==> resolve::work_card(
                tmdbid,
                None,
                WorkDetails::Movie(film, table),
            ) == Some(CardView { imdb_id: None, ..d->0 })
        }),
{
}

/// A title search hits with its first result; a page gives all of its results, in order; each with
/// its own id.
pub proof fn a_page_gives_all_its_results(
    kind: TmdbKind,
    results: Seq<TmdbSearchItem>,
    i: int,
)
    requires
        0 <= i < results.len(),
    ensures
        tmdb_client::first_hit(kind, results) matches Some(hit) && hit.tmdbid == results[0].id
            && hit == tmdb_client::page_hits(kind, results)[0],
        tmdb_client::first_hit(kind, Seq::empty()) is None,
        tmdb_client::page_hits(kind, results).len() == results.len(),
        tmdb_client::page_hits(kind, results)[i].tmdbid == results[i].id,
        tmdb_client::page_hits(kind, results)[i].overview == text::text_of(results[i].overview),
        tmdb_client::page_hits(kind, results)[i].poster_path == text::text_of(
            results[i].poster_path,
        ),
        tmdb_client::page_hits(kind, results)[i].genre_ids == results[i].genre_ids@,
{
}

/// The language of a hit's original title is the one that its code names, whatever whitespace
/// surrounds the code.
pub proof fn a_hit_is_in_the_language_of_its_code(hit: HitView)
    ensures
        hit.original_language is None ==> hit.lang3() is None,
        hit.original_language matches Some(code) ==> hit.lang3() == languages::lang3_of_code(
            text::trim(code),
        ),
{
}

/// A catalog page is waited for far less than any other call.
pub proof fn a_catalog_page_is_not_waited_for()
    ensures
        100 * TMDB_DISCOVERY_WAIT_DEADLINE_SECS <= TMDB_WAIT_DEADLINE_SECS,
        TMDB_DISCOVERY_WAIT_DEADLINE_SECS > 0,
        TMDB_SEARCH_TIMEOUT_SECS <= TMDB_POSTER_TIMEOUT_SECS,
{
}

} // verus!
