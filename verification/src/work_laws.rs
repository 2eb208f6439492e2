//! From what TMDB says of a work to what its record says, field by field.

use vstd::prelude::*;

use crate::card;
use crate::card::{CardView, LinksView};
use crate::decimal;
use crate::discovery;
use crate::languages;
use crate::laws;
use crate::name_laws;
use crate::posters;
use crate::resolve;
use crate::text;
use crate::titles;
use crate::titles::TmdbAltTitles;
use crate::tmdb_client;
use crate::tmdb_client::{
    HitView, TmdbExternalIds, TmdbKind, TmdbMovieDetails, TmdbSearchItem, TmdbTvDetails,
};
use crate::words;

verus! {

/// Does a record say `value` under `key`? Where there is no value, only the echo of a filter may
/// stand there.
pub open spec fn says(
    fields: Map<Seq<char>, Seq<char>>,
    filters: Map<Seq<char>, Seq<Seq<char>>>,
    key: Seq<char>,
    value: Option<Seq<char>>,
) -> bool {
    match value {
        Some(v) => fields.contains_key(key) && fields[key] == v,
        None => filters.contains_key(key) || !fields.contains_key(key),
    }
}

/// Is this text there, with a visible character in it?
pub open spec fn is_visible(t: Option<Seq<char>>) -> bool {
    t matches Some(s) && exists|i: int| 0 <= i < s.len() && !text::is_whitespace(#[trigger] s[i])
}

proof fn lemma_visible(t: Option<Seq<char>>)
    ensures
        is_visible(t) <==> t is Some && text::trim(t->0).len() > 0,
{
    if let Some(s) = t {
        text::blank_texts_trim_to_nothing(s);
        if text::trim(s).len() > 0 {
            let i = choose|i: int| 0 <= i < s.len() && !text::is_whitespace(#[trigger] s[i]);
            assert(!text::is_whitespace(s[i]));
        }
        if is_visible(t) {
            let i = choose|i: int| 0 <= i < s.len() && !text::is_whitespace(#[trigger] s[i]);
            assert(!text::is_whitespace(s[i]));
        }
    }
}

/// The numeral of an optional number.
pub open spec fn numeral_of(n: Option<u64>) -> Option<Seq<char>> {
    match n {
        Some(x) => Some(decimal::numeral(x as nat)),
        None => None,
    }
}

proof fn lemma_says_of_card(
    c: CardView,
    links: LinksView,
    image_base: Seq<char>,
    filters: Map<Seq<char>, Seq<Seq<char>>>,
)
    requires
        c.displayable(),
    ensures
        ({
            let fields = card::record_fields(c, links, image_base, filters);
            &&& says(fields, filters, "tmdbid"@, numeral_of(c.tmdbid))
            &&& says(
                fields,
                filters,
                "tvdbid"@,
                match c.tvdb_id {
                    Some(id) => Some(decimal::signed_numeral(id as int)),
                    None => None,
                },
            )
            &&& says(
                fields,
                filters,
                "imdbid"@,
                if c.imdb_id is Some && c.imdb_id->0.len() > 0 {
                    c.imdb_id
                } else {
                    None
                },
            )
            &&& says(
                fields,
                filters,
                "movieYear"@,
                match c.year {
                    Some(y) => Some(decimal::numeral(y as nat)),
                    None => None,
                },
            )
            &&& says(
                fields,
                filters,
                "seasonCount"@,
                if c.kind == TmdbKind::Tv && c.seasons > 0 {
                    Some(decimal::numeral(c.seasons as nat))
                } else {
                    None
                },
            )
            &&& says(fields, filters, "searchTitle"@, card::search_title(c))
            &&& says(fields, filters, "domain"@, links.domain)
            &&& says(fields, filters, "workForm"@, links.work_form)
        }),
{
    laws::a_record_describes_its_card(c, links, image_base, filters);
    laws::lemma_plain_keys_are_distinct();
    laws::lemma_own_value(c, links, image_base, "domain"@);
    laws::lemma_own_value(c, links, image_base, "workForm"@);
    laws::lemma_own_value(c, links, image_base, "searchTitle"@);
    laws::lemma_own_value(c, links, image_base, "tmdbid"@);
    laws::lemma_own_value(c, links, image_base, "tvdbid"@);
    laws::lemma_own_value(c, links, image_base, "imdbid"@);
    laws::lemma_own_value(c, links, image_base, "movieYear"@);
    laws::lemma_own_value(c, links, image_base, "seasonCount"@);
}

// -- shows ----------------------------------------------------------------------------------

/// A show is emitted exactly when its details have a synopsis with a visible character and a poster
/// path that is not empty; its record's synopsis is then that of the details, trimmed, and its title
/// the details' name. It is a card of a series.
pub proof fn a_show_is_emitted_with_its_synopsis_and_title(
    tmdbid: u64,
    ext: Option<TmdbExternalIds>,
    details: TmdbTvDetails,
    links: LinksView,
    image_base: Seq<char>,
    filters: Map<Seq<char>, Seq<Seq<char>>>,
)
    ensures
        ({
            let c = resolve::tv_card_view(tmdbid, ext, details);
            let fields = card::record_fields(c, links, image_base, filters);
            &&& c.displayable() <==> is_visible(text::text_of(details.overview))
                && details.poster_path is Some && details.poster_path->0@.len() > 0
            &&& c.displayable() ==> {
                &&& says(
                    fields,
                    filters,
                    "description/eng"@,
                    Some(text::trim(details.overview->0@)),
                )
                &&& says(fields, filters, "title"@, Some(details.name@))
                &&& says(fields, filters, "fileType"@, Some("card"@))
                &&& says(fields, filters, "contentKind"@, Some("series"@))
            }
        }),
{
    let c = resolve::tv_card_view(tmdbid, ext, details);
    lemma_visible(text::text_of(details.overview));
    if let Some(o) = details.overview {
        text::trimming_shortens(o@);
    }
    if c.displayable() {
        laws::a_record_describes_its_card(c, links, image_base, filters);
    }
}

/// The season count of a show's record is the number of seasons that its details state, whatever the
/// list of season summaries holds: as it is from one to fifty, and the nearer of these bounds
/// outside.
pub proof fn a_show_counts_the_seasons_its_details_state(
    tmdbid: u64,
    ext: Option<TmdbExternalIds>,
    details: TmdbTvDetails,
    links: LinksView,
    image_base: Seq<char>,
    filters: Map<Seq<char>, Seq<Seq<char>>>,
)
    requires
        resolve::tv_card_view(tmdbid, ext, details).displayable(),
    ensures
        ({
            let c = resolve::tv_card_view(tmdbid, ext, details);
            let fields = card::record_fields(c, links, image_base, filters);
            let stated = details.number_of_seasons;
            &&& 1 <= stated <= 50 ==> says(
                fields,
                filters,
                "seasonCount"@,
                Some(decimal::numeral(stated as nat)),
            )
            &&& stated == 0 ==> says(fields, filters, "seasonCount"@, Some(decimal::numeral(1)))
            &&& stated > 50 ==> says(fields, filters, "seasonCount"@, Some(decimal::numeral(50)))
        }),
{
    let c = resolve::tv_card_view(tmdbid, ext, details);
    lemma_says_of_card(c, links, image_base, filters);
}

/// Two shows that state one number of seasons say one season count, though their season summaries
/// differ.
pub proof fn season_summaries_do_not_count(
    tmdbid: u64,
    ext: Option<TmdbExternalIds>,
    a: TmdbTvDetails,
    b: TmdbTvDetails,
)
    requires
        a.number_of_seasons == b.number_of_seasons,
    ensures
        resolve::tv_card_view(tmdbid, ext, a).seasons == resolve::tv_card_view(tmdbid, ext, b).seasons,
{
}

/// A show's record carries its id bag: the TMDB id it was looked up by, and the TheTVDB and IMDb ids
/// that its external ids hold, an empty IMDb id left out. Its record id is made of the source, the
/// kind and the TMDB id.
pub proof fn a_show_carries_its_ids(
    tmdbid: u64,
    ext: Option<TmdbExternalIds>,
    details: TmdbTvDetails,
    links: LinksView,
    image_base: Seq<char>,
    filters: Map<Seq<char>, Seq<Seq<char>>>,
)
    requires
        resolve::tv_card_view(tmdbid, ext, details).displayable(),
    ensures
        ({
            let c = resolve::tv_card_view(tmdbid, ext, details);
            let fields = card::record_fields(c, links, image_base, filters);
            &&& says(fields, filters, "tmdbid"@, Some(decimal::numeral(tmdbid as nat)))
            &&& says(
                fields,
                filters,
                "tvdbid"@,
                if ext is Some && ext->0.tvdb_id is Some {
                    Some(decimal::signed_numeral(ext->0.tvdb_id->0 as int))
                } else {
                    None
                },
            )
            &&& says(
                fields,
                filters,
                "imdbid"@,
                if ext is Some && ext->0.imdb_id is Some && ext->0.imdb_id->0@.len() > 0 {
                    Some(ext->0.imdb_id->0@)
                } else {
                    None
                },
            )
            &&& c.record_id() == "tmdb"@ + ":"@ + "tv"@ + ":"@ + decimal::numeral(tmdbid as nat)
            &&& card::source_text(c.source) == "tmdb"@
        }),
{
    let c = resolve::tv_card_view(tmdbid, ext, details);
    lemma_says_of_card(c, links, image_base, filters);
    assert(c.record_id() =~= "tmdb"@ + ":"@ + "tv"@ + ":"@ + decimal::numeral(tmdbid as nat));
}

/// A show's record says the year its details' first air date starts with, and the address of the
/// poster its details name.
pub proof fn a_show_says_its_year_and_poster(
    tmdbid: u64,
    ext: Option<TmdbExternalIds>,
    details: TmdbTvDetails,
    links: LinksView,
    image_base: Seq<char>,
    filters: Map<Seq<char>, Seq<Seq<char>>>,
)
    requires
        resolve::tv_card_view(tmdbid, ext, details).displayable(),
    ensures
        ({
            let c = resolve::tv_card_view(tmdbid, ext, details);
            let fields = card::record_fields(c, links, image_base, filters);
            &&& says(fields, filters, "movieYear"@, year_text(text::text_of(details.first_air_date)))
            &&& says(
                fields,
                filters,
                "poster_url"@,
                Some(poster_address(image_base, details.poster_path->0@)),
            )
        }),
{
    let c = resolve::tv_card_view(tmdbid, ext, details);
    lemma_says_of_card(c, links, image_base, filters);
    laws::a_record_describes_its_card(c, links, image_base, filters);
    lemma_poster_address(image_base, details.poster_path->0@);
}

/// Every genre of a show's details that is not blank is filed on its record, trimmed; of genres
/// equal up to case the first alone.
pub proof fn a_show_files_its_genres(
    tmdbid: u64,
    ext: Option<TmdbExternalIds>,
    details: TmdbTvDetails,
    links: LinksView,
    image_base: Seq<char>,
    filters: Map<Seq<char>, Seq<Seq<char>>>,
    i: int,
) -> (k: int)
    requires
        0 <= i < details.genres@.len(),
        text::trim(details.genres@[i].name@).len() > 0,
    ensures
        0 <= k < details.genres@.len(),
        text::lowercase(text::trim(details.genres@[k].name@)) == text::lowercase(
            text::trim(details.genres@[i].name@),
        ),
        says(
            card::record_fields(
                resolve::tv_card_view(tmdbid, ext, details),
                links,
                image_base,
                filters,
            ),
            filters,
            "genres/"@ + text::trim(details.genres@[k].name@),
            Some("true"@),
        ),
{
    let c = resolve::tv_card_view(tmdbid, ext, details);
    let list = resolve::genre_texts(details.genres@);
    resolve::dedup_keeps_one_of_each(list);
    laws::every_member_is_filed(c, links, image_base, filters);
    assert(list[i] == details.genres@[i].name@);
    let low = text::lowercase(text::trim(list[i]));
    let m = choose|m: int|
        0 <= m < resolve::lowercases(c.genres).len() && resolve::lowercases(c.genres)[m] == low;
    assert(text::lowercase(c.genres[m]) == low);
    let k = choose|k: int| 0 <= k < list.len() && c.genres[m] == text::trim(#[trigger] list[k]);
    assert(list[k] == details.genres@[k].name@);
    assert(text::trim(c.genres[m]) == c.genres[m]);
    assert(text::trim(c.genres[m]).len() > 0);
    k
}

// -- films ----------------------------------------------------------------------------------

/// A film is emitted exactly when its details have a synopsis with a visible character and a poster
/// path that is not empty; its record's synopsis is then that of the details, trimmed, and its title
/// the details' title, or TMDB's placeholder where there is none. It is a card of a movie.
pub proof fn a_film_is_emitted_with_its_synopsis_and_title(
    tmdbid: u64,
    ext: Option<TmdbExternalIds>,
    film: TmdbMovieDetails,
    table: Map<u32, Seq<char>>,
    links: LinksView,
    image_base: Seq<char>,
    filters: Map<Seq<char>, Seq<Seq<char>>>,
)
    ensures
        ({
            let c = resolve::movie_card_view(tmdbid, ext, film.hit(), table);
            let fields = card::record_fields(c, links, image_base, filters);
            &&& c.displayable() <==> is_visible(text::text_of(film.overview))
                && film.poster_path is Some && film.poster_path->0@.len() > 0
            &&& c.displayable() ==> {
                &&& says(fields, filters, "description/eng"@, Some(text::trim(film.overview->0@)))
                &&& says(
                    fields,
                    filters,
                    "title"@,
                    if film.title is Some {
                        Some(film.title->0@)
                    } else {
                        Some("(untitled)"@)
                    },
                )
                &&& says(fields, filters, "fileType"@, Some("card"@))
                &&& says(fields, filters, "contentKind"@, Some("movie"@))
                &&& says(fields, filters, "seasonCount"@, None)
            }
        }),
{
    let c = resolve::movie_card_view(tmdbid, ext, film.hit(), table);
    lemma_visible(text::text_of(film.overview));
    if let Some(o) = film.overview {
        text::trimming_shortens(o@);
    }
    if c.displayable() {
        laws::a_record_describes_its_card(c, links, image_base, filters);
        lemma_says_of_card(c, links, image_base, filters);
    }
}

/// The same of a film remembered as a hit.
pub proof fn a_remembered_film_is_emitted_with_its_synopsis_and_title(
    tmdbid: u64,
    ext: Option<TmdbExternalIds>,
    hit: HitView,
    table: Map<u32, Seq<char>>,
    links: LinksView,
    image_base: Seq<char>,
    filters: Map<Seq<char>, Seq<Seq<char>>>,
)
    ensures
        ({
            let c = resolve::movie_card_view(tmdbid, ext, hit, table);
            let fields = card::record_fields(c, links, image_base, filters);
            &&& c.displayable() <==> is_visible(hit.overview) && hit.poster_path is Some
                && hit.poster_path->0.len() > 0
            &&& c.displayable() ==> {
                &&& says(fields, filters, "description/eng"@, Some(text::trim(hit.overview->0)))
                &&& says(fields, filters, "title"@, Some(hit.title))
                &&& says(
                    fields,
                    filters,
                    "movieYear"@,
                    if hit.year is Some {
                        Some(decimal::numeral(hit.year->0 as nat))
                    } else {
                        None
                    },
                )
                &&& says(
                    fields,
                    filters,
                    "poster_url"@,
                    Some(poster_address(image_base, hit.poster_path->0)),
                )
            }
        }),
{
    let c = resolve::movie_card_view(tmdbid, ext, hit, table);
    lemma_visible(hit.overview);
    if let Some(o) = hit.overview {
        text::trimming_shortens(o);
    }
    if c.displayable() {
        laws::a_record_describes_its_card(c, links, image_base, filters);
        lemma_says_of_card(c, links, image_base, filters);
        lemma_poster_address(image_base, hit.poster_path->0);
    }
}

/// A film's record carries its id bag: the TMDB id it was looked up by and the IMDb id that its
/// external ids hold, an empty one left out; a film has no TheTVDB id. Its record id is made of the
/// source, the kind and the TMDB id.
pub proof fn a_film_carries_its_ids(
    tmdbid: u64,
    ext: Option<TmdbExternalIds>,
    hit: HitView,
    table: Map<u32, Seq<char>>,
    links: LinksView,
    image_base: Seq<char>,
    filters: Map<Seq<char>, Seq<Seq<char>>>,
)
    requires
        resolve::movie_card_view(tmdbid, ext, hit, table).displayable(),
    ensures
        ({
            let c = resolve::movie_card_view(tmdbid, ext, hit, table);
            let fields = card::record_fields(c, links, image_base, filters);
            &&& says(fields, filters, "tmdbid"@, Some(decimal::numeral(tmdbid as nat)))
            &&& says(fields, filters, "tvdbid"@, None)
            &&& says(
                fields,
                filters,
                "imdbid"@,
                if ext is Some && ext->0.imdb_id is Some && ext->0.imdb_id->0@.len() > 0 {
                    Some(ext->0.imdb_id->0@)
                } else {
                    None
                },
            )
            &&& c.record_id() == "tmdb"@ + ":"@ + "movie"@ + ":"@ + decimal::numeral(
                tmdbid as nat,
            )
        }),
{
    let c = resolve::movie_card_view(tmdbid, ext, hit, table);
    lemma_says_of_card(c, links, image_base, filters);
    assert(c.record_id() =~= "tmdb"@ + ":"@ + "movie"@ + ":"@ + decimal::numeral(tmdbid as nat));
}

/// A film's record says the year its details' release date starts with, and the address of the
/// poster its details name.
pub proof fn a_film_says_its_year_and_poster(
    tmdbid: u64,
    ext: Option<TmdbExternalIds>,
    film: TmdbMovieDetails,
    table: Map<u32, Seq<char>>,
    links: LinksView,
    image_base: Seq<char>,
    filters: Map<Seq<char>, Seq<Seq<char>>>,
)
    requires
        resolve::movie_card_view(tmdbid, ext, film.hit(), table).displayable(),
    ensures
        ({
            let c = resolve::movie_card_view(tmdbid, ext, film.hit(), table);
            let fields = card::record_fields(c, links, image_base, filters);
            &&& says(fields, filters, "movieYear"@, year_text(text::text_of(film.release_date)))
            &&& says(
                fields,
                filters,
                "poster_url"@,
                Some(poster_address(image_base, film.poster_path->0@)),
            )
        }),
{
    let c = resolve::movie_card_view(tmdbid, ext, film.hit(), table);
    lemma_says_of_card(c, links, image_base, filters);
    laws::a_record_describes_its_card(c, links, image_base, filters);
    lemma_poster_address(image_base, film.poster_path->0@);
}

/// Every genre of a film's details that the genre table names is filed on its record, under the
/// table's name, trimmed.
pub proof fn a_film_files_its_genres(
    tmdbid: u64,
    ext: Option<TmdbExternalIds>,
    film: TmdbMovieDetails,
    table: Map<u32, Seq<char>>,
    links: LinksView,
    image_base: Seq<char>,
    filters: Map<Seq<char>, Seq<Seq<char>>>,
    i: int,
)
    requires
        0 <= i < film.genres@.len(),
        table.contains_key(film.genres@[i].id),
        text::trim(table[film.genres@[i].id]).len() > 0,
    ensures
        says(
            card::record_fields(
                resolve::movie_card_view(tmdbid, ext, film.hit(), table),
                links,
                image_base,
                filters,
            ),
            filters,
            "genres/"@ + text::trim(table[film.genres@[i].id]),
            Some("true"@),
        ),
{
    let c = resolve::movie_card_view(tmdbid, ext, film.hit(), table);
    let ids = film.hit().genre_ids;
    let id = film.genres@[i].id;
    assert(ids[i] == id);
    assert(ids.contains(id));
    laws::lemma_named_genres(ids, table, id);
    laws::every_member_is_filed(c, links, image_base, filters);
    let k = choose|k: int| 0 <= k < c.genres.len() && c.genres[k] == table[id];
    assert(text::trim(c.genres[k]).len() > 0);
}

// -- catalog entries ------------------------------------------------------------------------

/// A catalog entry is emitted exactly when it has a synopsis and a poster path with a visible
/// character each; its record's synopsis is then the entry's, trimmed. The title is the film's or
/// the show's own, or TMDB's placeholder where there is none. Its id bag holds its TMDB id alone,
/// and it counts no seasons.
pub proof fn a_catalog_entry_is_emitted_with_its_synopsis_and_title(
    item: TmdbSearchItem,
    kind: TmdbKind,
    table: Map<u32, Seq<char>>,
    links: LinksView,
    image_base: Seq<char>,
    filters: Map<Seq<char>, Seq<Seq<char>>>,
)
    ensures
        ({
            let c = discovery::hit_card(tmdb_client::list_hit(item, kind), kind, table);
            let fields = card::record_fields(c, links, image_base, filters);
            let title = if kind == TmdbKind::Movie {
                item.title
            } else {
                item.name
            };
            &&& c.displayable() <==> is_visible(text::text_of(item.overview)) && is_visible(
                text::text_of(item.poster_path),
            )
            &&& c.displayable() ==> {
                &&& says(fields, filters, "description/eng"@, Some(text::trim(item.overview->0@)))
                &&& says(
                    fields,
                    filters,
                    "title"@,
                    if title is Some {
                        Some(title->0@)
                    } else {
                        Some("(untitled)"@)
                    },
                )
                &&& says(
                    fields,
                    filters,
                    "contentKind"@,
                    Some(
                        if kind == TmdbKind::Movie {
                            "movie"@
                        } else {
                            "series"@
                        },
                    ),
                )
                &&& says(fields, filters, "tmdbid"@, Some(decimal::numeral(item.id as nat)))
                &&& says(fields, filters, "tvdbid"@, None)
                &&& says(fields, filters, "imdbid"@, None)
                &&& says(fields, filters, "seasonCount"@, None)
            }
        }),
{
    let c = discovery::hit_card(tmdb_client::list_hit(item, kind), kind, table);
    lemma_visible(text::text_of(item.overview));
    lemma_visible(text::text_of(item.poster_path));
    if let Some(o) = item.overview {
        text::trimming_shortens(o@);
    }
    if let Some(p) = item.poster_path {
        text::trimming_shortens(p@);
    }
    if c.displayable() {
        laws::a_record_describes_its_card(c, links, image_base, filters);
        lemma_says_of_card(c, links, image_base, filters);
    }
}

/// A catalog entry's record says the year its own date starts with (a film's release, a show's first
/// airing), the address of its poster, and its record id is made of the source, the kind and the
/// TMDB id.
pub proof fn a_catalog_entry_says_its_year_and_poster(
    item: TmdbSearchItem,
    kind: TmdbKind,
    table: Map<u32, Seq<char>>,
    links: LinksView,
    image_base: Seq<char>,
    filters: Map<Seq<char>, Seq<Seq<char>>>,
)
    requires
        discovery::hit_card(tmdb_client::list_hit(item, kind), kind, table).displayable(),
    ensures
        ({
            let c = discovery::hit_card(tmdb_client::list_hit(item, kind), kind, table);
            let fields = card::record_fields(c, links, image_base, filters);
            let date = if kind == TmdbKind::Movie {
                item.release_date
            } else {
                item.first_air_date
            };
            let word = if kind == TmdbKind::Movie {
                "movie"@
            } else {
                "tv"@
            };
            &&& says(fields, filters, "movieYear"@, year_text(text::text_of(date)))
            &&& says(
                fields,
                filters,
                "poster_url"@,
                Some(poster_address(image_base, item.poster_path->0@)),
            )
            &&& c.record_id() == "tmdb"@ + ":"@ + word + ":"@ + decimal::numeral(item.id as nat)
        }),
{
    let c = discovery::hit_card(tmdb_client::list_hit(item, kind), kind, table);
    lemma_says_of_card(c, links, image_base, filters);
    laws::a_record_describes_its_card(c, links, image_base, filters);
    lemma_poster_address(image_base, item.poster_path->0@);
    let word = if kind == TmdbKind::Movie {
        "movie"@
    } else {
        "tv"@
    };
    assert(c.record_id() =~= "tmdb"@ + ":"@ + word + ":"@ + decimal::numeral(item.id as nat));
}

/// Every genre of a catalog entry that the genre table names is filed on its record.
pub proof fn a_catalog_entry_files_its_genres(
    item: TmdbSearchItem,
    kind: TmdbKind,
    table: Map<u32, Seq<char>>,
    links: LinksView,
    image_base: Seq<char>,
    filters: Map<Seq<char>, Seq<Seq<char>>>,
    i: int,
)
    requires
        0 <= i < item.genre_ids@.len(),
        table.contains_key(item.genre_ids@[i]),
        text::trim(table[item.genre_ids@[i]]).len() > 0,
    ensures
        says(
            card::record_fields(
                discovery::hit_card(tmdb_client::list_hit(item, kind), kind, table),
                links,
                image_base,
                filters,
            ),
            filters,
            "genres/"@ + text::trim(table[item.genre_ids@[i]]),
            Some("true"@),
        ),
{
    let c = discovery::hit_card(tmdb_client::list_hit(item, kind), kind, table);
    let id = item.genre_ids@[i];
    assert(item.genre_ids@.contains(id));
    laws::lemma_named_genres(item.genre_ids@, table, id);
    laws::every_member_is_filed(c, links, image_base, filters);
    let k = choose|k: int| 0 <= k < c.genres.len() && c.genres[k] == table[id];
    assert(text::trim(c.genres[k]).len() > 0);
}

// -- years ----------------------------------------------------------------------------------

/// The year that a date starts with, as it is written on a record: its first four characters, where
/// they are digits or a plus sign and digits, without leading zeros and the plus sign.
pub open spec fn year_text(date: Option<Seq<char>>) -> Option<Seq<char>> {
    match tmdb_client::leading_year(date) {
        Some(y) => Some(decimal::numeral(y as nat)),
        None => None,
    }
}

proof fn lemma_digits_read_back(s: Seq<char>)
    requires
        s.len() > 0,
        decimal::all_digits(s),
        s[0] != '0' || s.len() == 1,
    ensures
        decimal::numeral(decimal::digits_value(s)) == s,
        s[0] != '0' ==> decimal::digits_value(s) > 0,
    decreases s.len(),
{
    let init = s.drop_last();
    let v = decimal::digits_value(s);
    let d = ((s.last() as nat) - 48) as nat;
    assert(text::ascii_digit(s[s.len() - 1]));
    assert(decimal::digit_char(d) == s.last());
    if s.len() == 1 {
        assert(decimal::digits_value(init) == 0);
        assert(decimal::numeral(v) =~= s);
    } else {
        assert(init[0] == s[0]);
        assert(decimal::all_digits(init)) by {
            assert forall|i: int| 0 <= i < init.len() implies text::ascii_digit(
                #[trigger] init[i],
            ) by {
                assert(init[i] == s[i]);
            }
        }
        lemma_digits_read_back(init);
        let before = decimal::digits_value(init);
        assert(before > 0);
        assert(v == before * 10 + d);
        assert(v / 10 == before && v % 10 == d);
        assert(decimal::numeral(v) =~= s);
    }
}

/// A date that starts with four digits, the first of them not zero, gives those four characters as
/// the year; a date that is absent or shorter, or starts with anything but digits after one plus
/// sign at the most, gives none.
pub proof fn a_year_is_the_first_four_digits_of_a_date(date: Option<Seq<char>>)
    ensures
        date matches Some(d) ==> d.len() >= 4 && decimal::all_digits(d.take(4)) && d[0] != '0'
            ==> year_text(date) == Some(d.take(4)),
        date is None ==> year_text(date) is None,
        date matches Some(d) ==> d.len() < 4 ==> year_text(date) is None,
        date matches Some(d) ==> d.len() >= 4 && (exists|i: int|
            1 <= i < 4 && !text::ascii_digit(#[trigger] d[i])) ==> year_text(date) is None,
        date matches Some(d) ==> d.len() >= 4 && d[0] != '+' && !text::ascii_digit(d[0])
            ==> year_text(date) is None,
{
    if let Some(d) = date {
        if d.len() >= 4 {
            let four = d.take(4);
            if decimal::all_digits(four) && d[0] != '0' {
                assert(text::ascii_digit(four[0]));
                lemma_digits_read_back(four);
                lemma_four_digits_are_small(four);
            }
            if exists|i: int| 1 <= i < 4 && !text::ascii_digit(#[trigger] d[i]) {
                let i = choose|i: int| 1 <= i < 4 && !text::ascii_digit(#[trigger] d[i]);
                let body = decimal::without_plus(four);
                if d[0] == '+' {
                    assert(body[i - 1] == d[i]);
                } else {
                    assert(body[i] == d[i]);
                }
            }
            if d[0] != '+' && !text::ascii_digit(d[0]) {
                assert(decimal::without_plus(four)[0] == d[0]);
            }
        }
    }
}

proof fn lemma_four_digits_are_small(s: Seq<char>)
    requires
        s.len() == 4,
        decimal::all_digits(s),
    ensures
        decimal::digits_value(s) <= 9999,
{
    let a = s.drop_last();
    let b = a.drop_last();
    let c = b.drop_last();
    let e = c.drop_last();
    assert(text::ascii_digit(s[3]) && text::ascii_digit(s[2]) && text::ascii_digit(s[1])
        && text::ascii_digit(s[0]));
    assert(s.last() == s[3] && a.last() == s[2] && b.last() == s[1] && c.last() == s[0]);
    assert(decimal::digits_value(e) == 0);
    assert(decimal::digits_value(c) <= 9);
    assert(decimal::digits_value(b) <= 99);
    assert(decimal::digits_value(a) <= 999);
}

// -- poster addresses -----------------------------------------------------------------------

/// The address of a poster: the image base without the slashes at its end, the size, and the path
/// without the slashes at its start, one slash between them.
pub open spec fn poster_address(image_base: Seq<char>, path: Seq<char>) -> Seq<char> {
    text::strip_trailing(image_base, '/') + "/"@ + "w500"@ + "/"@ + text::strip_leading(path, '/')
}

proof fn lemma_poster_address(image_base: Seq<char>, path: Seq<char>)
    ensures
        tmdb_client::poster_url(image_base, path) == poster_address(image_base, path),
{
}

// -- names ----------------------------------------------------------------------------------

/// Is this name of the work filed on the record, under this language?
pub open spec fn is_filed(
    fields: Map<Seq<char>, Seq<char>>,
    lang3: Seq<char>,
    name: Seq<char>,
) -> bool {
    titles::title_key(lang3, name) matches Some(key) && fields.contains_key(key) && fields[key]
        == "true"@
}

proof fn lemma_name_is_filed(
    c: CardView,
    links: LinksView,
    image_base: Seq<char>,
    filters: Map<Seq<char>, Seq<Seq<char>>>,
    lang3: Seq<char>,
    name: Seq<char>,
)
    requires
        c.names.contains((lang3, titles::normal_name(name))),
        titles::normal_name(name).len() > 0,
    ensures
        is_filed(card::record_fields(c, links, image_base, filters), lang3, name),
{
    laws::every_member_is_filed(c, links, image_base, filters);
    titles::title_key_ignores_spacing(lang3, name);
    let entry = (lang3, titles::normal_name(name));
    let i = choose|i: int| 0 <= i < c.names.len() && c.names[i] == entry;
    assert(titles::title_key(c.names[i].0, c.names[i].1) == titles::title_key(lang3, name));
}

proof fn lemma_original_is_filed(
    c: CardView,
    links: LinksView,
    image_base: Seq<char>,
    filters: Map<Seq<char>, Seq<Seq<char>>>,
    original: Seq<char>,
    code: Seq<char>,
    lang3: Seq<char>,
    akas: Seq<(Seq<char>, Seq<char>)>,
)
    requires
        c.names == titles::work_names(c.title, Some(original), Some(code), akas),
        text::trim(original).len() > 0,
        languages::lang3_of_code(text::trim(code)) == Some(lang3),
    ensures
        is_filed(card::record_fields(c, links, image_base, filters), lang3, original),
{
    name_laws::a_blank_name_has_no_normal_form(original);
    name_laws::an_original_title_is_filed_under_its_language(c.title, original, Some(code), akas);
    assert(c.names[0] == (lang3, titles::normal_name(original)));
    assert(c.names.contains(c.names[0]));
    lemma_name_is_filed(c, links, image_base, filters, lang3, original);
}

proof fn lemma_title_is_filed(
    c: CardView,
    links: LinksView,
    image_base: Seq<char>,
    filters: Map<Seq<char>, Seq<Seq<char>>>,
    original: Option<Seq<char>>,
    code: Option<Seq<char>>,
    akas: Seq<(Seq<char>, Seq<char>)>,
)
    requires
        c.names == titles::work_names(c.title, original, code, akas),
        text::trim(c.title).len() > 0,
        titles::normal_name(c.title) != "(untitled)"@,
        original matches Some(o) ==> titles::normal_name(o) != titles::normal_name(c.title),
    ensures
        is_filed(card::record_fields(c, links, image_base, filters), "eng"@, c.title),
{
    name_laws::a_blank_name_has_no_normal_form(c.title);
    name_laws::a_title_is_filed_as_english(c.title, original, code, akas);
    lemma_name_is_filed(c, links, image_base, filters, "eng"@, c.title);
}

proof fn lemma_aka_is_filed(
    c: CardView,
    links: LinksView,
    image_base: Seq<char>,
    filters: Map<Seq<char>, Seq<Seq<char>>>,
    original: Option<Seq<char>>,
    code: Option<Seq<char>>,
    listed: TmdbAltTitles,
    p: int,
)
    requires
        c.names == titles::work_names(c.title, original, code, listed.ordered()),
        0 <= p < listed.listed().len(),
        text::trim(listed.listed()[p].0).len() > 0,
    ensures
        is_filed(
            card::record_fields(c, links, image_base, filters),
            languages::lang3_of_market(listed.listed()[p].1),
            listed.listed()[p].0,
        ),
{
    let (title, market) = listed.listed()[p];
    let akas = listed.ordered();
    let from = name_laws::alternative_titles_are_listed_english_first(listed);
    let i = choose|i: int| 0 <= i < from.len() && from[i] == p;
    assert(akas[i] == (text::trim(title), text::trim(market)));
    titles::normal_name_ignores_trimming(title);
    text::trimming_is_stable(market);
    name_laws::a_blank_name_has_no_normal_form(title);
    name_laws::an_alternative_title_is_filed_by_its_market(c.title, original, code, akas, i);
    lemma_name_is_filed(c, links, image_base, filters, languages::lang3_of_market(market), title);
}

/// The original title of a show is filed under the language that its code names, its title as
/// English unless it repeats the original or is TMDB's placeholder, and each alternative title under
/// the language that its market implies.
pub proof fn a_show_files_its_names(
    tmdbid: u64,
    ext: Option<TmdbExternalIds>,
    details: TmdbTvDetails,
    links: LinksView,
    image_base: Seq<char>,
    filters: Map<Seq<char>, Seq<Seq<char>>>,
    lang3: Seq<char>,
    p: int,
)
    ensures
        ({
            let c = resolve::tv_card_view(tmdbid, ext, details);
            let fields = card::record_fields(c, links, image_base, filters);
            let title = details.name@;
            let original = text::text_of(details.original_name);
            let code = text::text_of(details.original_language);
            &&& original is Some && code is Some && text::trim(original->0).len() > 0
                && languages::lang3_of_code(text::trim(code->0)) == Some(lang3) ==> is_filed(
                fields,
                lang3,
                original->0,
            )
            &&& text::trim(title).len() > 0 && titles::normal_name(title) != "(untitled)"@ && (
            original matches Some(o) ==> titles::normal_name(o) != titles::normal_name(title))
                ==> is_filed(fields, "eng"@, title)
            &&& details.alternative_titles matches Some(a) ==> 0 <= p < a.listed().len()
                && text::trim(a.listed()[p].0).len() > 0 ==> is_filed(
                fields,
                languages::lang3_of_market(a.listed()[p].1),
                a.listed()[p].0,
            )
        }),
{
    let c = resolve::tv_card_view(tmdbid, ext, details);
    let title = details.name@;
    let original = text::text_of(details.original_name);
    let code = text::text_of(details.original_language);
    let akas = tmdb_client::akas_in(details.alternative_titles);
    if original is Some && code is Some && text::trim(original->0).len() > 0
        && languages::lang3_of_code(text::trim(code->0)) == Some(lang3) {
        lemma_original_is_filed(
            c,
            links,
            image_base,
            filters,
            original->0,
            code->0,
            lang3,
            akas,
        );
    }
    if text::trim(title).len() > 0 && titles::normal_name(title) != "(untitled)"@ && (
    original matches Some(o) ==> titles::normal_name(o) != titles::normal_name(title)) {
        lemma_title_is_filed(c, links, image_base, filters, original, code, akas);
    }
    if let Some(a) = details.alternative_titles {
        if 0 <= p < a.listed().len() && text::trim(a.listed()[p].0).len() > 0 {
            lemma_aka_is_filed(c, links, image_base, filters, original, code, a, p);
        }
    }
}

/// The same of a film.
pub proof fn a_film_files_its_names(
    tmdbid: u64,
    ext: Option<TmdbExternalIds>,
    film: TmdbMovieDetails,
    table: Map<u32, Seq<char>>,
    links: LinksView,
    image_base: Seq<char>,
    filters: Map<Seq<char>, Seq<Seq<char>>>,
    lang3: Seq<char>,
    p: int,
)
    ensures
        ({
            let c = resolve::movie_card_view(tmdbid, ext, film.hit(), table);
            let fields = card::record_fields(c, links, image_base, filters);
            let original = text::text_of(film.original_title);
            let code = text::text_of(film.original_language);
            &&& original is Some && code is Some && text::trim(original->0).len() > 0
                && languages::lang3_of_code(text::trim(code->0)) == Some(lang3) ==> is_filed(
                fields,
                lang3,
                original->0,
            )
            &&& film.title matches Some(t) ==> text::trim(t@).len() > 0 && titles::normal_name(t@)
                != "(untitled)"@ && (original matches Some(o) ==> titles::normal_name(o)
                != titles::normal_name(t@)) ==> is_filed(fields, "eng"@, t@)
            &&& film.alternative_titles matches Some(a) ==> 0 <= p < a.listed().len()
                && text::trim(a.listed()[p].0).len() > 0 ==> is_filed(
                fields,
                languages::lang3_of_market(a.listed()[p].1),
                a.listed()[p].0,
            )
        }),
{
    let c = resolve::movie_card_view(tmdbid, ext, film.hit(), table);
    let original = text::text_of(film.original_title);
    let code = text::text_of(film.original_language);
    let akas = tmdb_client::akas_in(film.alternative_titles);
    if original is Some && code is Some && text::trim(original->0).len() > 0
        && languages::lang3_of_code(text::trim(code->0)) == Some(lang3) {
        lemma_original_is_filed(
            c,
            links,
            image_base,
            filters,
            original->0,
            code->0,
            lang3,
            akas,
        );
    }
    if let Some(t) = film.title {
        if text::trim(t@).len() > 0 && titles::normal_name(t@) != "(untitled)"@ && (
        original matches Some(o) ==> titles::normal_name(o) != titles::normal_name(t@)) {
            lemma_title_is_filed(c, links, image_base, filters, original, code, akas);
        }
    }
    if let Some(a) = film.alternative_titles {
        if 0 <= p < a.listed().len() && text::trim(a.listed()[p].0).len() > 0 {
            lemma_aka_is_filed(c, links, image_base, filters, original, code, a, p);
        }
    }
}

/// The same of a catalog entry, which has no alternative titles: its title and original title are
/// the film's or the show's own.
pub proof fn a_catalog_entry_files_its_names(
    item: TmdbSearchItem,
    kind: TmdbKind,
    table: Map<u32, Seq<char>>,
    links: LinksView,
    image_base: Seq<char>,
    filters: Map<Seq<char>, Seq<Seq<char>>>,
    lang3: Seq<char>,
)
    ensures
        ({
            let c = discovery::hit_card(tmdb_client::list_hit(item, kind), kind, table);
            let fields = card::record_fields(c, links, image_base, filters);
            let title = text::text_of(
                if kind == TmdbKind::Movie {
                    item.title
                } else {
                    item.name
                },
            );
            let original = text::text_of(
                if kind == TmdbKind::Movie {
                    item.original_title
                } else {
                    item.original_name
                },
            );
            let code = text::text_of(item.original_language);
            &&& original is Some && code is Some && text::trim(original->0).len() > 0
                && languages::lang3_of_code(text::trim(code->0)) == Some(lang3) ==> is_filed(
                fields,
                lang3,
                original->0,
            )
            &&& title matches Some(t) ==> text::trim(t).len() > 0 && titles::normal_name(t)
                != "(untitled)"@ && (original matches Some(o) ==> titles::normal_name(o)
                != titles::normal_name(t)) ==> is_filed(fields, "eng"@, t)
            &&& c.names.len() <= 2
            &&& c.posters.len() == 0
        }),
{
    let c = discovery::hit_card(tmdb_client::list_hit(item, kind), kind, table);
    let title = text::text_of(
        if kind == TmdbKind::Movie {
            item.title
        } else {
            item.name
        },
    );
    let original = text::text_of(
        if kind == TmdbKind::Movie {
            item.original_title
        } else {
            item.original_name
        },
    );
    let code = text::text_of(item.original_language);
    let akas = Seq::<(Seq<char>, Seq<char>)>::empty();
    if original is Some && code is Some && text::trim(original->0).len() > 0
        && languages::lang3_of_code(text::trim(code->0)) == Some(lang3) {
        lemma_original_is_filed(
            c,
            links,
            image_base,
            filters,
            original->0,
            code->0,
            lang3,
            akas,
        );
    }
    if let Some(t) = title {
        if text::trim(t).len() > 0 && titles::normal_name(t) != "(untitled)"@ && (
        original matches Some(o) ==> titles::normal_name(o) != titles::normal_name(t)) {
            lemma_title_is_filed(c, links, image_base, filters, original, code, akas);
        }
    }
}

// -- the search title -----------------------------------------------------------------------

/// Is this one of the symbols that a search can neither carry nor lose?
pub open spec fn is_hard_to_search(c: char) -> bool {
    c == '"' || c == '#' || c == '$' || c == '%' || c == '&' || c == '*' || c == '+' || c == '<'
        || c == '>' || c == '?' || c == '@' || c == '[' || c == '\\' || c == ']' || c == '^' || c
        == '`' || c == '{' || c == '|' || c == '}' || c == '~'
}

/// Does a text hold such a symbol?
pub open spec fn holds_a_hard_symbol(t: Seq<char>) -> bool {
    exists|i: int| 0 <= i < t.len() && is_hard_to_search(#[trigger] t[i])
}

/// Is `aka` a better text to search with than `title`: free of such symbols, with every word of the
/// title in it and more words than the title has?
pub open spec fn searches_better(title: Seq<char>, aka: Seq<char>) -> bool {
    &&& !holds_a_hard_symbol(aka)
    &&& words::tokens(aka).len() > words::tokens(title).len()
    &&& forall|i: int|
        0 <= i < words::tokens(title).len() ==> words::tokens(aka).contains(
            #[trigger] words::tokens(title)[i],
        )
}

proof fn lemma_hard_symbols(t: Seq<char>)
    ensures
        card::has_hostile(t) == holds_a_hard_symbol(t),
{
    if card::has_hostile(t) {
        let i = choose|i: int| 0 <= i < t.len() && card::search_hostile(#[trigger] t[i]);
        assert(is_hard_to_search(t[i]));
    }
    if holds_a_hard_symbol(t) {
        let i = choose|i: int| 0 <= i < t.len() && is_hard_to_search(#[trigger] t[i]);
        assert(card::search_hostile(t[i]));
    }
}

proof fn lemma_first_stand_in(title: Seq<char>, akas: Seq<Seq<char>>, i: int)
    requires
        0 <= i <= akas.len(),
        forall|k: int| 0 <= k < i ==> !searches_better(title, #[trigger] akas[k]),
    ensures
        i < akas.len() && searches_better(title, akas[i]) ==> card::first_stand_in(title, akas)
            == Some(akas[i]),
        i == akas.len() ==> card::first_stand_in(title, akas) is None,
    decreases akas.len(),
{
    if akas.len() > 0 {
        lemma_hard_symbols(akas[0]);
        assert(searches_better(title, akas[0]) == card::stands_in(title, akas[0]));
    }
    if i > 0 {
        let rest = akas.skip(1);
        assert(!searches_better(title, akas[0]));
        assert forall|k: int| 0 <= k < i - 1 implies !searches_better(title, #[trigger] rest[k]) by {
            assert(rest[k] == akas[k + 1]);
        }
        lemma_first_stand_in(title, rest, i - 1);
        if i < akas.len() {
            assert(rest[i - 1] == akas[i]);
        }
    }
}

/// A record's search title is the first of the work's titles that searches better than a title which
/// holds a hard symbol and a word, in its normal form. A title without such a symbol, one without a
/// word, and one that no other betters, is searched as it is.
pub proof fn a_record_says_the_first_title_that_searches_better(
    c: CardView,
    links: LinksView,
    image_base: Seq<char>,
    filters: Map<Seq<char>, Seq<Seq<char>>>,
    i: int,
)
    requires
        c.displayable(),
        0 <= i <= c.guard_titles.len(),
        forall|k: int| 0 <= k < i ==> !searches_better(c.title, #[trigger] c.guard_titles[k]),
    ensures
        ({
            let fields = card::record_fields(c, links, image_base, filters);
            let hard = holds_a_hard_symbol(c.title) && words::tokens(c.title).len() > 0;
            &&& hard && i < c.guard_titles.len() && searches_better(c.title, c.guard_titles[i])
                ==> says(
                fields,
                filters,
                "searchTitle"@,
                Some(titles::normal_name(c.guard_titles[i])),
            )
            &&& !hard || i == c.guard_titles.len() ==> says(fields, filters, "searchTitle"@, None)
        }),
{
    lemma_hard_symbols(c.title);
    lemma_first_stand_in(c.title, c.guard_titles, i);
    lemma_says_of_card(c, links, image_base, filters);
}

/// The titles that a search title is picked from are those of the work: the title, then the original
/// title, then the alternative titles, trimmed and each once.
pub proof fn search_titles_are_picked_from_all_titles(
    tmdbid: u64,
    ext: Option<TmdbExternalIds>,
    details: TmdbTvDetails,
    film: TmdbMovieDetails,
    table: Map<u32, Seq<char>>,
    item: TmdbSearchItem,
    kind: TmdbKind,
)
    ensures
        resolve::tv_card_view(tmdbid, ext, details).guard_titles == resolve::first_seen(
            titles_in_order(
                details.name@,
                text::text_of(details.original_name),
                details.alternative_titles,
            ),
        ),
        resolve::movie_card_view(tmdbid, ext, film.hit(), table).guard_titles
            == resolve::first_seen(
            titles_in_order(
                if film.title is Some {
                    film.title->0@
                } else {
                    "(untitled)"@
                },
                text::text_of(film.original_title),
                film.alternative_titles,
            ),
        ),
        discovery::hit_card(tmdb_client::list_hit(item, kind), kind, table).guard_titles
            == resolve::first_seen(
            titles_in_order(
                tmdb_client::list_hit(item, kind).title,
                text::text_of(
                    if kind == TmdbKind::Movie {
                        item.original_title
                    } else {
                        item.original_name
                    },
                ),
                None,
            ),
        ),
{
    let show = resolve::tv_card_view(tmdbid, ext, details);
    lemma_titles_in_order(
        details.name@,
        text::text_of(details.original_name),
        details.alternative_titles,
    );
    lemma_titles_in_order(
        film.hit().title,
        text::text_of(film.original_title),
        film.alternative_titles,
    );
    let original = text::text_of(
        if kind == TmdbKind::Movie {
            item.original_title
        } else {
            item.original_name
        },
    );
    lemma_titles_in_order(tmdb_client::list_hit(item, kind).title, original, None);
    assert(titles::aka_titles(Seq::empty()) =~= Seq::empty());
}

/// A title, the original where there is one, and the alternative titles in their order.
pub open spec fn titles_in_order(
    title: Seq<char>,
    original: Option<Seq<char>>,
    alternatives: Option<TmdbAltTitles>,
) -> Seq<Seq<char>> {
    let more = match alternatives {
        Some(a) => Seq::new(a.ordered().len(), |i: int| a.ordered()[i].0),
        None => Seq::empty(),
    };
    match original {
        Some(o) => seq![title, o] + more,
        None => seq![title] + more,
    }
}

proof fn lemma_titles_in_order(
    title: Seq<char>,
    original: Option<Seq<char>>,
    alternatives: Option<TmdbAltTitles>,
)
    ensures
        titles_in_order(title, original, alternatives) == tmdb_client::and_text(
            seq![title],
            original,
        ) + titles::aka_titles(tmdb_client::akas_in(alternatives)),
{
    assert(titles_in_order(title, original, alternatives) =~= tmdb_client::and_text(
        seq![title],
        original,
    ) + titles::aka_titles(tmdb_client::akas_in(alternatives)));
}

// -- nothing else ---------------------------------------------------------------------------

/// Is `key` a member that the card accounts for: one of its names, one of its genres, its locator or
/// one of its posters?
pub open spec fn is_accounted_for(
    c: CardView,
    links: LinksView,
    image_base: Seq<char>,
    key: Seq<char>,
) -> bool {
    ||| exists|i: int|
        0 <= i < c.names.len() && titles::title_key((#[trigger] c.names[i]).0, c.names[i].1) == Some(
            key,
        )
    ||| exists|i: int|
        0 <= i < c.genres.len() && text::trim(#[trigger] c.genres[i]).len() > 0 && key == "genres/"@
            + text::trim(c.genres[i])
    ||| links.cid matches Some(cid) && key == "cids/"@ + cid
    ||| posters::poster_keys(image_base, c.poster()->0, c.posters, links.locators).contains(key)
}

proof fn lemma_title_key_is_of_a_name(names: Seq<(Seq<char>, Seq<char>)>, key: Seq<char>)
    requires
        card::title_keys(names).contains(key),
    ensures
        exists|i: int|
            0 <= i < names.len() && titles::title_key((#[trigger] names[i]).0, names[i].1) == Some(
                key,
            ),
    decreases names.len(),
{
    let now = card::title_keys(names);
    let k = choose|k: int| 0 <= k < now.len() && now[k] == key;
    if names.len() > 0 {
        let init = names.drop_last();
        let before = card::title_keys(init);
        if k < before.len() {
            assert(before[k] == key);
            assert(before.contains(key));
            lemma_title_key_is_of_a_name(init, key);
            let i = choose|i: int|
                0 <= i < init.len() && titles::title_key((#[trigger] init[i]).0, init[i].1) == Some(
                    key,
                );
            assert(names[i] == init[i]);
        } else {
            assert(names[names.len() - 1] == names.last());
        }
    }
}

proof fn lemma_genre_key_is_of_a_genre(genres: Seq<Seq<char>>, key: Seq<char>)
    requires
        card::genre_keys(genres).contains(key),
    ensures
        exists|i: int|
            0 <= i < genres.len() && text::trim(#[trigger] genres[i]).len() > 0 && key == "genres/"@
                + text::trim(genres[i]),
    decreases genres.len(),
{
    let now = card::genre_keys(genres);
    let k = choose|k: int| 0 <= k < now.len() && now[k] == key;
    if genres.len() > 0 {
        let init = genres.drop_last();
        let before = card::genre_keys(init);
        if k < before.len() {
            assert(before[k] == key);
            assert(before.contains(key));
            lemma_genre_key_is_of_a_genre(init, key);
            let i = choose|i: int|
                0 <= i < init.len() && text::trim(#[trigger] init[i]).len() > 0 && key
                    == "genres/"@ + text::trim(init[i]);
            assert(genres[i] == init[i]);
        } else {
            assert(text::trim(genres[genres.len() - 1]).len() > 0);
        }
    }
}

/// A record has no other member than those its card accounts for, and no other key at all but the
/// twelve plain ones, the synopsis and those of the query's filters.
pub proof fn a_record_has_no_other_key(
    c: CardView,
    links: LinksView,
    image_base: Seq<char>,
    filters: Map<Seq<char>, Seq<Seq<char>>>,
    key: Seq<char>,
)
    requires
        card::record_fields(c, links, image_base, filters).contains_key(key),
    ensures
        laws::is_plain_key(key) || is_accounted_for(c, links, image_base, key) || key
            == "description/eng"@ || filters.contains_key(key),
{
    laws::a_record_holds_nothing_else(c, links, image_base, filters);
    let all = c.member_keys(links, image_base);
    if all.contains(key) {
        let a = card::title_keys(c.names);
        let b = card::genre_keys(c.genres);
        let d = card::cid_keys(links.cid);
        let e = posters::poster_keys(image_base, c.poster()->0, c.posters, links.locators);
        let i = choose|i: int| 0 <= i < all.len() && all[i] == key;
        if i < a.len() {
            assert(a[i] == key);
            assert(a.contains(key));
            lemma_title_key_is_of_a_name(c.names, key);
        } else if i < a.len() + b.len() {
            assert(b[i - a.len()] == key);
            assert(b.contains(key));
            lemma_genre_key_is_of_a_genre(c.genres, key);
        } else if i < a.len() + b.len() + d.len() {
            assert(d[i - a.len() - b.len()] == key);
        } else {
            assert(e[i - a.len() - b.len() - d.len()] == key);
            assert(e.contains(key));
        }
    }
}

proof fn lemma_named_genre_is_in_the_table(
    ids: Seq<u32>,
    table: Map<u32, Seq<char>>,
    k: int,
) -> (i: int)
    requires
        0 <= k < resolve::named_genres(ids, table).len(),
    ensures
        0 <= i < ids.len(),
        table.contains_key(ids[i]),
        resolve::named_genres(ids, table)[k] == table[ids[i]],
    decreases ids.len(),
{
    let init = ids.drop_last();
    let before = resolve::named_genres(init, table);
    if k < before.len() {
        let i = lemma_named_genre_is_in_the_table(init, table, k);
        assert(ids[i] == init[i]);
        i
    } else {
        ids.len() - 1
    }
}

/// A work has no other genres than those of its details or its entry: a show those its details name,
/// trimmed; a film and a catalog entry those that the table names their ids by.
pub proof fn a_work_has_no_other_genre(
    tmdbid: u64,
    ext: Option<TmdbExternalIds>,
    details: TmdbTvDetails,
    film: TmdbMovieDetails,
    item: TmdbSearchItem,
    kind: TmdbKind,
    table: Map<u32, Seq<char>>,
    k: int,
)
    ensures
        ({
            let c = resolve::tv_card_view(tmdbid, ext, details);
            0 <= k < c.genres.len() ==> exists|i: int|
                0 <= i < details.genres@.len() && c.genres[k] == text::trim(
                    (#[trigger] details.genres@[i]).name@,
                )
        }),
        ({
            let c = resolve::movie_card_view(tmdbid, ext, film.hit(), table);
            0 <= k < c.genres.len() ==> exists|i: int|
                0 <= i < film.genres@.len() && table.contains_key(
                    (#[trigger] film.genres@[i]).id,
                ) && c.genres[k] == table[film.genres@[i].id]
        }),
        ({
            let c = discovery::hit_card(tmdb_client::list_hit(item, kind), kind, table);
            0 <= k < c.genres.len() ==> exists|i: int|
                0 <= i < item.genre_ids@.len() && table.contains_key(
                    #[trigger] item.genre_ids@[i],
                ) && c.genres[k] == table[item.genre_ids@[i]]
        }),
{
    let list = resolve::genre_texts(details.genres@);
    let show = resolve::tv_card_view(tmdbid, ext, details);
    if 0 <= k < show.genres.len() {
        resolve::dedup_keeps_one_of_each(list);
        let i = choose|i: int|
            0 <= i < list.len() && show.genres[k] == text::trim(#[trigger] list[i]);
        assert(list[i] == details.genres@[i].name@);
    }
    let ids = film.hit().genre_ids;
    if 0 <= k < resolve::named_genres(ids, table).len() {
        let i = lemma_named_genre_is_in_the_table(ids, table, k);
        assert(ids[i] == film.genres@[i].id);
    }
    if 0 <= k < resolve::named_genres(item.genre_ids@, table).len() {
        let i = lemma_named_genre_is_in_the_table(item.genre_ids@, table, k);
        assert(table.contains_key(item.genre_ids@[i]));
    }
}

} // verus!
