//! What holds of every card and every record, whichever path made them.

use vstd::prelude::*;

use crate::card;
use crate::card::{CardView, LinksView};
use crate::decimal;
use crate::discovery;
use crate::discovery::DiscoveryMode;
use crate::languages::METADATA_LANG3;
use crate::posters;
use crate::query::QueryView;
use crate::resolve;
use crate::text;
use crate::titles;
use crate::tmdb_client;
use crate::tmdb_client::{
    HitView, TmdbExternalIds, TmdbKind, TmdbMovieDetails, TmdbSearchItem, TmdbTvDetails,
};
use crate::words;
use crate::words::WordClass;

verus! {

// -- the fields of a record -----------------------------------------------------------------

proof fn lemma_with_members(fields: Map<Seq<char>, Seq<char>>, keys: Seq<Seq<char>>)
    ensures
        forall|k: Seq<char>| #[trigger]
            card::with_members(fields, keys).contains_key(k) <==> fields.contains_key(k)
                || keys.contains(k),
        forall|k: Seq<char>|
            keys.contains(k) ==> #[trigger] card::with_members(fields, keys)[k] == "true"@,
        forall|k: Seq<char>|
            !keys.contains(k) ==> #[trigger] card::with_members(fields, keys)[k] == fields[k],
    decreases keys.len(),
{
    if keys.len() > 0 {
        let init = keys.drop_last();
        lemma_with_members(fields, init);
        assert forall|k: Seq<char>| #[trigger] keys.contains(k) <==> init.contains(k) || k
            == keys.last() by {
            if keys.contains(k) {
                let i = choose|i: int| 0 <= i < keys.len() && keys[i] == k;
                if i < init.len() {
                    assert(init[i] == k);
                }
            }
            if init.contains(k) {
                let i = choose|i: int| 0 <= i < init.len() && init[i] == k;
                assert(keys[i] == k);
            }
            assert(keys[keys.len() - 1] == keys.last());
        }
        let before = card::with_members(fields, init);
        let now = card::with_members(fields, keys);
        assert(now == before.insert(keys.last(), "true"@));
        assert forall|k: Seq<char>| #[trigger] now.contains_key(k) <==> fields.contains_key(k)
            || keys.contains(k) by {
            assert(before.contains_key(k) <==> fields.contains_key(k) || init.contains(k));
        }
        assert forall|k: Seq<char>| keys.contains(k) implies #[trigger] now[k] == "true"@ by {
            assert(k != keys.last() ==> before[k] == "true"@);
        }
        assert forall|k: Seq<char>| !keys.contains(k) implies #[trigger] now[k] == fields[k] by {
            assert(!init.contains(k) && k != keys.last());
            assert(before[k] == fields[k]);
        }
    }
}

/// Is `key` filed under one of the key-sets?
pub open spec fn is_member_key(key: Seq<char>) -> bool {
    "titles/"@.is_prefix_of(key) || "genres/"@.is_prefix_of(key) || "cids/"@.is_prefix_of(key)
        || "posters/"@.is_prefix_of(key)
}

/// Is `key` one of the fields with a value of its own?
pub open spec fn is_plain_key(key: Seq<char>) -> bool {
    key == "fileType"@ || key == "contentKind"@ || key == "domain"@ || key == "workForm"@ || key
        == "title"@ || key == "searchTitle"@ || key == "tmdbid"@ || key == "tvdbid"@ || key
        == "imdbid"@ || key == "movieYear"@ || key == "seasonCount"@ || key == "poster_url"@
}

proof fn lemma_title_keys(names: Seq<(Seq<char>, Seq<char>)>)
    ensures
        forall|k: int|
            0 <= k < card::title_keys(names).len() ==> is_member_key(
                #[trigger] card::title_keys(names)[k],
            ),
        forall|i: int|
            0 <= i < names.len() && titles::title_key((#[trigger] names[i]).0, names[i].1) is Some
                ==> card::title_keys(names).contains(
                titles::title_key(names[i].0, names[i].1)->0,
            ),
    decreases names.len(),
{
    if names.len() > 0 {
        let init = names.drop_last();
        lemma_title_keys(init);
        let before = card::title_keys(init);
        let now = card::title_keys(names);
        let last = names.last();
        if let Some(key) = titles::title_key(last.0, last.1) {
            assert("titles/"@.is_prefix_of(key));
            assert(now[before.len() as int] == key);
        }
        assert forall|k: int| 0 <= k < now.len() implies is_member_key(#[trigger] now[k]) by {
            if k < before.len() {
                assert(now[k] == before[k]);
            }
        }
        assert forall|i: int|
            0 <= i < names.len() && titles::title_key(
                (#[trigger] names[i]).0,
                names[i].1,
            ) is Some implies now.contains(titles::title_key(names[i].0, names[i].1)->0) by {
            if i < init.len() {
                assert(init[i] == names[i]);
                let key = titles::title_key(names[i].0, names[i].1)->0;
                let k = choose|k: int| 0 <= k < before.len() && before[k] == key;
                assert(now[k] == key);
            }
        }
    }
}

proof fn lemma_genre_keys(genres: Seq<Seq<char>>)
    ensures
        forall|k: int|
            0 <= k < card::genre_keys(genres).len() ==> is_member_key(
                #[trigger] card::genre_keys(genres)[k],
            ),
        forall|i: int|
            0 <= i < genres.len() && text::trim(#[trigger] genres[i]).len() > 0
                ==> card::genre_keys(genres).contains("genres/"@ + text::trim(genres[i])),
    decreases genres.len(),
{
    if genres.len() > 0 {
        let init = genres.drop_last();
        lemma_genre_keys(init);
        let before = card::genre_keys(init);
        let now = card::genre_keys(genres);
        let key = "genres/"@ + text::trim(genres.last());
        assert("genres/"@.is_prefix_of(key));
        if now.len() > before.len() {
            assert(now[before.len() as int] == key);
        }
        assert forall|k: int| 0 <= k < now.len() implies is_member_key(#[trigger] now[k]) by {
            if k < before.len() {
                assert(now[k] == before[k]);
            }
        }
        assert forall|i: int|
            0 <= i < genres.len() && text::trim(#[trigger] genres[i]).len() > 0 implies now.contains(
            "genres/"@ + text::trim(genres[i]),
        ) by {
            if i < init.len() {
                assert(init[i] == genres[i]);
                let g = "genres/"@ + text::trim(genres[i]);
                let k = choose|k: int| 0 <= k < before.len() && before[k] == g;
                assert(now[k] == g);
            }
        }
    }
}

proof fn lemma_poster_members(
    keys: Seq<Seq<char>>,
    images: Seq<crate::tmdb_client::ImageView>,
    image_base: Seq<char>,
    locators: Map<Seq<char>, Seq<char>>,
)
    requires
        forall|k: int| 0 <= k < keys.len() ==> is_member_key(#[trigger] keys[k]),
    ensures
        forall|k: int|
            0 <= k < posters::with_posters(keys, images, image_base, locators).len()
                ==> is_member_key(
                #[trigger] posters::with_posters(keys, images, image_base, locators)[k],
            ),
    decreases images.len(),
{
    if images.len() > 0 {
        let init = images.drop_last();
        lemma_poster_members(keys, init, image_base, locators);
        let before = posters::with_posters(keys, init, image_base, locators);
        let now = posters::with_posters(keys, images, image_base, locators);
        assert forall|k: int| 0 <= k < now.len() implies is_member_key(#[trigger] now[k]) by {
            if k < before.len() {
                assert(now[k] == before[k]);
            } else {
                assert("posters/"@.is_prefix_of(now[k]));
            }
        }
    }
}

proof fn lemma_members(c: CardView, links: LinksView, image_base: Seq<char>)
    ensures
        forall|k: Seq<char>| #[trigger]
            c.member_keys(links, image_base).contains(k) ==> is_member_key(k),
{
    let a = card::title_keys(c.names);
    let b = card::genre_keys(c.genres);
    let d = card::cid_keys(links.cid);
    let e = posters::poster_keys(image_base, c.poster()->0, c.posters, links.locators);
    lemma_title_keys(c.names);
    lemma_genre_keys(c.genres);
    if let Some(cid) = links.cid {
        assert("cids/"@.is_prefix_of(d[0]));
    }
    let first = posters::primary_keys(image_base, c.poster()->0, c.posters, links.locators);
    assert forall|k: int| 0 <= k < first.len() implies is_member_key(#[trigger] first[k]) by {
        assert("posters/"@.is_prefix_of(first[k]));
    }
    lemma_poster_members(
        first,
        posters::alternatives(c.posters, c.poster()->0),
        image_base,
        links.locators,
    );
    let all = c.member_keys(links, image_base);
    assert forall|k: Seq<char>| #[trigger] all.contains(k) implies is_member_key(k) by {
        let i = choose|i: int| 0 <= i < all.len() && all[i] == k;
        if i < a.len() {
            assert(all[i] == a[i]);
        } else if i < a.len() + b.len() {
            assert(all[i] == b[i - a.len()]);
        } else if i < a.len() + b.len() + d.len() {
            assert(all[i] == d[i - a.len() - b.len()]);
        } else {
            assert(all[i] == e[i - a.len() - b.len() - d.len()]);
        }
    }
}

proof fn lemma_keys_are_apart(key: Seq<char>)
    ensures
        is_member_key(key) ==> !is_plain_key(key) && key != "description/eng"@ && key != "genres"@
            && key != "languages"@,
        is_plain_key(key) ==> key != "description/eng"@ && key != "genres"@ && key != "languages"@,
        "description/eng"@ != "genres"@,
        "description/eng"@ != "languages"@,
{
    reveal_strlit("titles/");
    reveal_strlit("genres/");
    reveal_strlit("cids/");
    reveal_strlit("posters/");
    reveal_strlit("fileType");
    reveal_strlit("contentKind");
    reveal_strlit("domain");
    reveal_strlit("workForm");
    reveal_strlit("title");
    reveal_strlit("searchTitle");
    reveal_strlit("tmdbid");
    reveal_strlit("tvdbid");
    reveal_strlit("imdbid");
    reveal_strlit("movieYear");
    reveal_strlit("seasonCount");
    reveal_strlit("poster_url");
    reveal_strlit("description/eng");
    reveal_strlit("genres");
    reveal_strlit("languages");
    assert("genres"@.len() == 6 && "languages"@.len() == 9 && "description/eng"@.len() == 15);
    assert("genres"@[0] == 'g' && "languages"@[0] == 'l' && "description/eng"@[0] == 'd');
    if is_member_key(key) {
        if "titles/"@.is_prefix_of(key) {
            assert(key[0] == "titles/"@[0] && key[6] == "titles/"@[6]);
        } else if "genres/"@.is_prefix_of(key) {
            assert(key[0] == "genres/"@[0] && key[6] == "genres/"@[6]);
        } else if "cids/"@.is_prefix_of(key) {
            assert(key[0] == "cids/"@[0] && key[4] == "cids/"@[4]);
        } else {
            assert(key[0] == "posters/"@[0] && key[7] == "posters/"@[7]);
        }
    }
}

/// A record holds nothing but the card's own fields, its key-set members, the synopsis and the
/// echoed filters; a field of the card's own keeps its value.
pub proof fn a_record_holds_nothing_else(
    c: CardView,
    links: LinksView,
    image_base: Seq<char>,
    filters: Map<Seq<char>, Seq<Seq<char>>>,
)
    ensures
        forall|k: Seq<char>| #[trigger]
            card::record_fields(c, links, image_base, filters).contains_key(k) ==> is_plain_key(k)
                || c.member_keys(links, image_base).contains(k) || k == "description/eng"@
                || card::is_echoed(filters, k),
        forall|k: Seq<char>|
            c.own_fields(links, image_base).contains_key(k) ==> #[trigger] card::record_fields(
                c,
                links,
                image_base,
                filters,
            )[k] == c.own_fields(links, image_base)[k],
{
    lemma_with_members(c.plain_fields(links, image_base), c.member_keys(links, image_base));
}

/// The genres and the languages of a work are key-sets: no record has a flat field for them, not
/// even as the echo of a filter.
pub proof fn key_sets_are_never_flat(
    c: CardView,
    links: LinksView,
    image_base: Seq<char>,
    filters: Map<Seq<char>, Seq<Seq<char>>>,
)
    ensures
        !card::record_fields(c, links, image_base, filters).contains_key("genres"@),
        !card::record_fields(c, links, image_base, filters).contains_key("languages"@),
{
    a_record_holds_nothing_else(c, links, image_base, filters);
    lemma_members(c, links, image_base);
    lemma_keys_are_apart("genres"@);
    lemma_keys_are_apart("languages"@);
    let fields = card::record_fields(c, links, image_base, filters);
    assert(!is_member_key("genres"@) && !is_plain_key("genres"@));
    assert(!is_member_key("languages"@) && !is_plain_key("languages"@));
    if fields.contains_key("genres"@) {
        assert(!c.member_keys(links, image_base).contains("genres"@));
    }
    if fields.contains_key("languages"@) {
        assert(!c.member_keys(links, image_base).contains("languages"@));
    }
}

/// Every filter with a value is answered by the record (but for the two that name a key-set), so
/// that the record survives having the query's filters applied to it again: under a key the card
/// does not use itself stands what the query asked for.
pub proof fn every_filter_is_answered(
    c: CardView,
    links: LinksView,
    image_base: Seq<char>,
    filters: Map<Seq<char>, Seq<Seq<char>>>,
    key: Seq<char>,
)
    requires
        filters.contains_key(key),
        filters[key].len() > 0,
        key != "genres"@,
        key != "languages"@,
    ensures
        card::record_fields(c, links, image_base, filters).contains_key(key),
        !c.own_fields(links, image_base).contains_key(key) ==> card::record_fields(
            c,
            links,
            image_base,
            filters,
        )[key] == words::join(filters[key], ","@),
        !c.own_fields(links, image_base).contains_key(key) && filters[key].len() == 1
            ==> card::record_fields(c, links, image_base, filters)[key] == filters[key][0],
{
}

/// A key that is neither a field nor a member of the card leaves room for an echo.
pub proof fn a_card_uses_its_own_keys_only(
    c: CardView,
    links: LinksView,
    image_base: Seq<char>,
    key: Seq<char>,
)
    requires
        !is_plain_key(key),
        !is_member_key(key),
        key != "description/eng"@,
    ensures
        !c.own_fields(links, image_base).contains_key(key),
{
    lemma_with_members(c.plain_fields(links, image_base), c.member_keys(links, image_base));
    lemma_members(c, links, image_base);
    assert(!c.member_keys(links, image_base).contains(key));
}

/// A catalog card carries the markers of the row it was asked for: each stands on the record as the
/// query gave it.
pub proof fn a_card_carries_the_markers_of_its_row(
    c: CardView,
    links: LinksView,
    image_base: Seq<char>,
    filters: Map<Seq<char>, Seq<Seq<char>>>,
    key: Seq<char>,
)
    requires
        key == "popular"@ || key == "trending"@ || key == "top_rated"@ || key == "anime"@,
        filters.contains_key(key),
        filters[key].len() > 0,
    ensures
        card::record_fields(c, links, image_base, filters).contains_key(key),
        card::record_fields(c, links, image_base, filters)[key] == words::join(filters[key], ","@),
        filters[key].len() == 1 ==> card::record_fields(c, links, image_base, filters)[key]
            == filters[key][0],
{
    lemma_markers_are_apart(key);
    a_card_uses_its_own_keys_only(c, links, image_base, key);
    every_filter_is_answered(c, links, image_base, filters, key);
}

proof fn lemma_markers_are_apart(key: Seq<char>)
    requires
        key == "popular"@ || key == "trending"@ || key == "top_rated"@ || key == "anime"@,
    ensures
        !is_plain_key(key),
        !is_member_key(key),
        key != "description/eng"@,
        key != "genres"@,
        key != "languages"@,
{
    reveal_strlit("popular");
    reveal_strlit("trending");
    reveal_strlit("top_rated");
    reveal_strlit("anime");
    reveal_strlit("titles/");
    reveal_strlit("genres/");
    reveal_strlit("cids/");
    reveal_strlit("posters/");
    reveal_strlit("fileType");
    reveal_strlit("contentKind");
    reveal_strlit("domain");
    reveal_strlit("workForm");
    reveal_strlit("title");
    reveal_strlit("searchTitle");
    reveal_strlit("tmdbid");
    reveal_strlit("tvdbid");
    reveal_strlit("imdbid");
    reveal_strlit("movieYear");
    reveal_strlit("seasonCount");
    reveal_strlit("poster_url");
    reveal_strlit("description/eng");
    reveal_strlit("genres");
    reveal_strlit("languages");
    assert(key.len() == 7 && key[0] == 'p' || key.len() == 8 && key[0] == 't' && key[1] == 'r'
        || key.len() == 9 && key[0] == 't' && key[1] == 'o' || key.len() == 5 && key[0] == 'a');
    assert(!is_plain_key(key)) by {
        assert("workForm"@[0] == 'w' && "fileType"@[0] == 'f' && "movieYear"@[0] == 'm'
            && "title"@[0] == 't' && "languages"@[0] == 'l');
        assert("domain"@.len() == 6 && "tmdbid"@.len() == 6 && "tvdbid"@.len() == 6
            && "imdbid"@.len() == 6 && "contentKind"@.len() == 11 && "searchTitle"@.len() == 11
            && "seasonCount"@.len() == 11 && "poster_url"@.len() == 10);
    }
    if "titles/"@.is_prefix_of(key) {
        assert(key[1] == "titles/"@[1]);
    }
    if "genres/"@.is_prefix_of(key) {
        assert(key[0] == "genres/"@[0]);
    }
    if "cids/"@.is_prefix_of(key) {
        assert(key[0] == "cids/"@[0]);
    }
    assert(key.len() < 8 || key[0] != 'p');
    if "posters/"@.is_prefix_of(key) {
        assert(key[0] == "posters/"@[0]);
    }
    assert("genres"@.len() == 6 && "languages"@[0] == 'l' && "description/eng"@.len() == 15);
}

pub proof fn lemma_own_value(c: CardView, links: LinksView, image_base: Seq<char>, key: Seq<char>)
    requires
        is_plain_key(key),
    ensures
        c.own_fields(links, image_base).contains_key(key) == c.plain_fields(
            links,
            image_base,
        ).contains_key(key),
        c.own_fields(links, image_base)[key] == c.plain_fields(links, image_base)[key],
{
    lemma_with_members(c.plain_fields(links, image_base), c.member_keys(links, image_base));
    lemma_members(c, links, image_base);
    lemma_keys_are_apart(key);
    assert(!c.member_keys(links, image_base).contains(key));
}

pub proof fn lemma_plain_keys_are_distinct()
    ensures
        "fileType"@ != "contentKind"@,
        "title"@ != "fileType"@ && "title"@ != "contentKind"@,
        "poster_url"@ != "title"@ && "poster_url"@ != "fileType"@ && "poster_url"@ != "contentKind"@,
        "domain"@ != "fileType"@ && "domain"@ != "contentKind"@ && "domain"@ != "title"@,
        "workForm"@ != "fileType"@ && "workForm"@ != "contentKind"@ && "workForm"@ != "title"@,
        "workForm"@ != "domain"@,
        "searchTitle"@ != "fileType"@ && "searchTitle"@ != "contentKind"@ && "searchTitle"@
            != "title"@ && "searchTitle"@ != "domain"@ && "searchTitle"@ != "workForm"@,
        "tmdbid"@ != "fileType"@ && "tmdbid"@ != "contentKind"@ && "tmdbid"@ != "title"@ && "tmdbid"@
            != "domain"@ && "tmdbid"@ != "workForm"@ && "tmdbid"@ != "searchTitle"@,
        "tvdbid"@ != "fileType"@ && "tvdbid"@ != "contentKind"@ && "tvdbid"@ != "title"@ && "tvdbid"@
            != "domain"@ && "tvdbid"@ != "workForm"@ && "tvdbid"@ != "searchTitle"@ && "tvdbid"@
            != "tmdbid"@,
        "imdbid"@ != "fileType"@ && "imdbid"@ != "contentKind"@ && "imdbid"@ != "title"@ && "imdbid"@
            != "domain"@ && "imdbid"@ != "workForm"@ && "imdbid"@ != "searchTitle"@ && "imdbid"@
            != "tmdbid"@ && "imdbid"@ != "tvdbid"@,
        "movieYear"@ != "fileType"@ && "movieYear"@ != "contentKind"@ && "movieYear"@ != "title"@
            && "movieYear"@ != "domain"@ && "movieYear"@ != "workForm"@ && "movieYear"@
            != "searchTitle"@ && "movieYear"@ != "tmdbid"@ && "movieYear"@ != "tvdbid"@
            && "movieYear"@ != "imdbid"@,
        "seasonCount"@ != "fileType"@ && "seasonCount"@ != "contentKind"@ && "seasonCount"@
            != "title"@ && "seasonCount"@ != "domain"@ && "seasonCount"@ != "workForm"@
            && "seasonCount"@ != "searchTitle"@ && "seasonCount"@ != "tmdbid"@ && "seasonCount"@
            != "tvdbid"@ && "seasonCount"@ != "imdbid"@ && "seasonCount"@ != "movieYear"@,
        "poster_url"@ != "domain"@ && "poster_url"@ != "workForm"@ && "poster_url"@ != "searchTitle"@
            && "poster_url"@ != "tmdbid"@ && "poster_url"@ != "tvdbid"@ && "poster_url"@
            != "imdbid"@ && "poster_url"@ != "movieYear"@ && "poster_url"@ != "seasonCount"@,
{
    reveal_strlit("fileType");
    reveal_strlit("contentKind");
    reveal_strlit("domain");
    reveal_strlit("workForm");
    reveal_strlit("title");
    reveal_strlit("searchTitle");
    reveal_strlit("tmdbid");
    reveal_strlit("tvdbid");
    reveal_strlit("imdbid");
    reveal_strlit("movieYear");
    reveal_strlit("seasonCount");
    reveal_strlit("poster_url");
    assert("fileType"@.len() == 8 && "fileType"@[0] == 'f');
    assert("workForm"@.len() == 8 && "workForm"@[0] == 'w');
    assert("title"@.len() == 5);
    assert("contentKind"@.len() == 11 && "contentKind"@[1] == 'o');
    assert("searchTitle"@.len() == 11 && "searchTitle"@[2] == 'a' && "searchTitle"@[1] == 'e');
    assert("seasonCount"@.len() == 11 && "seasonCount"@[2] == 'a' && "seasonCount"@[1] == 'e');
    assert("searchTitle"@[3] == 'r' && "seasonCount"@[3] == 's');
    assert("domain"@.len() == 6 && "domain"@[0] == 'd');
    assert("tmdbid"@.len() == 6 && "tmdbid"@[0] == 't' && "tmdbid"@[1] == 'm');
    assert("tvdbid"@.len() == 6 && "tvdbid"@[0] == 't' && "tvdbid"@[1] == 'v');
    assert("imdbid"@.len() == 6 && "imdbid"@[0] == 'i');
    assert("movieYear"@.len() == 9);
    assert("poster_url"@.len() == 10);
}

/// What a field of a record says: nothing, or a value.
pub open spec fn field(fields: Map<Seq<char>, Seq<char>>, key: Seq<char>) -> Option<Seq<char>> {
    if fields.contains_key(key) {
        Some(fields[key])
    } else {
        None
    }
}

/// The record of a displayable card says what the card is: both type axes, the title, the synopsis,
/// the poster, and the whole id bag. Where the card has nothing to say the field is left to the
/// query's filters.
pub proof fn a_record_describes_its_card(
    c: CardView,
    links: LinksView,
    image_base: Seq<char>,
    filters: Map<Seq<char>, Seq<Seq<char>>>,
)
    requires
        c.displayable(),
    ensures
        ({
            let fields = card::record_fields(c, links, image_base, filters);
            &&& field(fields, "fileType"@) == Some("card"@)
            &&& field(fields, "contentKind"@) == Some(card::content_kind_text(c.kind))
            &&& field(fields, "title"@) == Some(c.title)
            &&& field(fields, "description/eng"@) == c.overview_text()
            &&& field(fields, "poster_url"@) == Some(
                tmdb_client::poster_url(image_base, c.poster()->0),
            )
            &&& links.domain is Some ==> field(fields, "domain"@) == links.domain
            &&& links.work_form is Some ==> field(fields, "workForm"@) == links.work_form
            &&& card::search_title(c) is Some ==> field(fields, "searchTitle"@)
                == card::search_title(c)
            &&& c.tmdbid matches Some(id) ==> field(fields, "tmdbid"@) == Some(
                decimal::numeral(id as nat),
            )
            &&& c.tvdb_id matches Some(id) ==> field(fields, "tvdbid"@) == Some(
                decimal::signed_numeral(id as int),
            )
            &&& card::non_empty(c.imdb_id) is Some ==> field(fields, "imdbid"@) == c.imdb_id
            &&& c.year matches Some(y) ==> field(fields, "movieYear"@) == Some(
                decimal::numeral(y as nat),
            )
            &&& c.kind == TmdbKind::Tv && c.seasons > 0 ==> field(fields, "seasonCount"@) == Some(
                decimal::numeral(c.seasons as nat),
            )
        }),
{
    lemma_plain_keys_are_distinct();
    lemma_own_value(c, links, image_base, "fileType"@);
    lemma_own_value(c, links, image_base, "contentKind"@);
    lemma_own_value(c, links, image_base, "title"@);
    lemma_own_value(c, links, image_base, "poster_url"@);
    lemma_own_value(c, links, image_base, "domain"@);
    lemma_own_value(c, links, image_base, "workForm"@);
    lemma_own_value(c, links, image_base, "searchTitle"@);
    lemma_own_value(c, links, image_base, "tmdbid"@);
    lemma_own_value(c, links, image_base, "tvdbid"@);
    lemma_own_value(c, links, image_base, "imdbid"@);
    lemma_own_value(c, links, image_base, "movieYear"@);
    lemma_own_value(c, links, image_base, "seasonCount"@);
}

/// Every member of the card's key-sets is filed: each of its names, each of its genres, its locator
/// and its posters.
pub proof fn every_member_is_filed(
    c: CardView,
    links: LinksView,
    image_base: Seq<char>,
    filters: Map<Seq<char>, Seq<Seq<char>>>,
)
    ensures
        ({
            let fields = card::record_fields(c, links, image_base, filters);
            let posters = posters::poster_keys(
                image_base,
                c.poster()->0,
                c.posters,
                links.locators,
            );
            &&& forall|i: int|
                0 <= i < c.names.len() && titles::title_key((#[trigger] c.names[i]).0, c.names[i].1)
                    is Some ==> field(
                    fields,
                    titles::title_key(c.names[i].0, c.names[i].1)->0,
                ) == Some("true"@)
            &&& forall|i: int|
                0 <= i < c.genres.len() && text::trim(#[trigger] c.genres[i]).len() > 0 ==> field(
                    fields,
                    "genres/"@ + text::trim(c.genres[i]),
                ) == Some("true"@)
            &&& links.cid matches Some(cid) ==> field(fields, "cids/"@ + cid) == Some("true"@)
            &&& forall|i: int|
                0 <= i < posters.len() ==> field(fields, #[trigger] posters[i]) == Some("true"@)
        }),
{
    let fields = card::record_fields(c, links, image_base, filters);
    let a = card::title_keys(c.names);
    let b = card::genre_keys(c.genres);
    let d = card::cid_keys(links.cid);
    let e = posters::poster_keys(image_base, c.poster()->0, c.posters, links.locators);
    let all = c.member_keys(links, image_base);
    lemma_with_members(c.plain_fields(links, image_base), all);
    lemma_members(c, links, image_base);
    lemma_title_keys(c.names);
    lemma_genre_keys(c.genres);
    assert forall|k: Seq<char>| #[trigger] all.contains(k) implies field(fields, k) == Some(
        "true"@,
    ) by {
        lemma_keys_are_apart(k);
        assert(c.own_fields(links, image_base).contains_key(k));
        assert(c.own_fields(links, image_base)[k] == "true"@);
    }
    assert forall|k: Seq<char>|
        a.contains(k) || b.contains(k) || d.contains(k) || e.contains(k) implies #[trigger]
        all.contains(k) by {
        if a.contains(k) {
            let i = choose|i: int| 0 <= i < a.len() && a[i] == k;
            assert(all[i] == k);
        } else if b.contains(k) {
            let i = choose|i: int| 0 <= i < b.len() && b[i] == k;
            assert(all[a.len() + i] == k);
        } else if d.contains(k) {
            let i = choose|i: int| 0 <= i < d.len() && d[i] == k;
            assert(all[a.len() + b.len() + i] == k);
        } else {
            let i = choose|i: int| 0 <= i < e.len() && e[i] == k;
            assert(all[a.len() + b.len() + d.len() + i] == k);
        }
    }
    assert forall|i: int|
        0 <= i < c.names.len() && titles::title_key((#[trigger] c.names[i]).0, c.names[i].1)
            is Some implies field(fields, titles::title_key(c.names[i].0, c.names[i].1)->0) == Some(
        "true"@,
    ) by {
        assert(all.contains(titles::title_key(c.names[i].0, c.names[i].1)->0));
    }
    assert forall|i: int|
        0 <= i < c.genres.len() && text::trim(#[trigger] c.genres[i]).len() > 0 implies field(
        fields,
        "genres/"@ + text::trim(c.genres[i]),
    ) == Some("true"@) by {
        assert(all.contains("genres/"@ + text::trim(c.genres[i])));
    }
    if let Some(cid) = links.cid {
        assert(d[0] == "cids/"@ + cid);
        assert(d.contains("cids/"@ + cid));
        assert(all.contains("cids/"@ + cid));
    }
    assert forall|i: int| 0 <= i < e.len() implies field(fields, #[trigger] e[i]) == Some(
        "true"@,
    ) by {
        assert(e.contains(e[i]));
        assert(all.contains(e[i]));
    }
}

// -- the names of a work --------------------------------------------------------------------

/// Is this normal form one of the names, in some language?
pub open spec fn is_named(names: Seq<(Seq<char>, Seq<char>)>, normal: Seq<char>) -> bool {
    exists|i: int| 0 <= i < names.len() && (#[trigger] names[i]).1 == normal
}

proof fn lemma_with_name(
    names: Seq<(Seq<char>, Seq<char>)>,
    lang3: Seq<char>,
    name: Seq<char>,
    normal: Seq<char>,
)
    ensures
        is_named(names, normal) ==> is_named(titles::with_name(names, lang3, name), normal),
        titles::normal_name(name) == normal && normal.len() > 0 ==> is_named(
            titles::with_name(names, lang3, name),
            normal,
        ),
{
    let now = titles::with_name(names, lang3, name);
    if is_named(names, normal) {
        let i = choose|i: int| 0 <= i < names.len() && (#[trigger] names[i]).1 == normal;
        assert(now[i] == names[i]);
    }
    if titles::normal_name(name) == normal && normal.len() > 0 {
        let entry = (lang3, normal);
        if names.contains(entry) {
            let i = choose|i: int| 0 <= i < names.len() && names[i] == entry;
            assert(now[i].1 == normal);
        } else {
            assert(now[names.len() as int].1 == normal);
        }
    }
}

proof fn lemma_with_akas(
    names: Seq<(Seq<char>, Seq<char>)>,
    akas: Seq<(Seq<char>, Seq<char>)>,
    normal: Seq<char>,
)
    ensures
        is_named(names, normal) ==> is_named(titles::with_akas(names, akas), normal),
        forall|i: int|
            0 <= i < akas.len() && titles::normal_name((#[trigger] akas[i]).0) == normal
                && normal.len() > 0 ==> is_named(titles::with_akas(names, akas), normal),
    decreases akas.len(),
{
    if akas.len() > 0 {
        let init = akas.drop_last();
        lemma_with_akas(names, init, normal);
        let (title, market) = akas.last();
        lemma_with_name(
            titles::with_akas(names, init),
            crate::languages::lang3_of_market(market),
            title,
            normal,
        );
        assert forall|i: int|
            0 <= i < akas.len() && titles::normal_name((#[trigger] akas[i]).0) == normal
                && normal.len() > 0 implies is_named(titles::with_akas(names, akas), normal) by {
            if i < init.len() {
                assert(init[i] == akas[i]);
            }
        }
    }
}

/// Every title of a work is among its names, spelled in its normal form: the original, the
/// alternative titles, and the title itself unless it is TMDB's placeholder for a missing one.
pub proof fn every_title_is_a_name(
    title: Seq<char>,
    original: Option<Seq<char>>,
    original_language: Option<Seq<char>>,
    akas: Seq<(Seq<char>, Seq<char>)>,
)
    ensures
        ({
            let names = titles::work_names(title, original, original_language, akas);
            &&& titles::normal_name(title).len() > 0 && titles::normal_name(title)
                != titles::untitled() ==> is_named(names, titles::normal_name(title))
            &&& original matches Some(o) ==> titles::normal_name(o).len() > 0 ==> is_named(
                names,
                titles::normal_name(o),
            )
            &&& forall|i: int|
                0 <= i < akas.len() && titles::normal_name((#[trigger] akas[i]).0).len() > 0
                    ==> is_named(names, titles::normal_name(akas[i].0))
        }),
{
    let names = titles::work_names(title, original, original_language, akas);
    let first = match original {
        Some(o) => titles::with_name(
            Seq::empty(),
            titles::original_lang3_or_und(original_language),
            o,
        ),
        None => Seq::empty(),
    };
    let is_original = original is Some && titles::normal_name(original->0) == titles::normal_name(
        title,
    );
    let second = if titles::normal_name(title) == titles::untitled() || is_original {
        first
    } else {
        titles::with_name(first, METADATA_LANG3@, title)
    };
    let normal = titles::normal_name(title);
    if let Some(o) = original {
        let n = titles::normal_name(o);
        lemma_with_name(Seq::empty(), titles::original_lang3_or_und(original_language), o, n);
        lemma_with_name(first, METADATA_LANG3@, title, n);
        lemma_with_akas(second, akas, n);
    }
    lemma_with_name(first, METADATA_LANG3@, title, normal);
    lemma_with_akas(second, akas, normal);
    assert forall|i: int|
        0 <= i < akas.len() && titles::normal_name((#[trigger] akas[i]).0).len()
            > 0 implies is_named(names, titles::normal_name(akas[i].0)) by {
        lemma_with_akas(second, akas, titles::normal_name(akas[i].0));
    }
}

proof fn lemma_words_hold_every_character(s: Seq<char>, i: int, class: WordClass)
    requires
        0 <= i < s.len(),
        class.has(s[i]),
    ensures
        exists|j: int|
            0 <= j < words::words(s, class).len() && (#[trigger] words::words(s, class)[j]).contains(
                s[i],
            ),
    decreases s.len(),
{
    let t = s.drop_last();
    let now = words::words(s, class);
    let before = words::words(t, class);
    words::lemma_words_are_words(s, class);
    words::lemma_words_are_words(t, class);
    if i == s.len() - 1 {
        let w = now.last();
        assert(w[w.len() - 1] == s[i]);
        assert(now[now.len() - 1].contains(s[i]));
    } else {
        assert(t[i] == s[i]);
        lemma_words_hold_every_character(t, i, class);
        let j = choose|j: int| 0 <= j < before.len() && (#[trigger] before[j]).contains(s[i]);
        let k = choose|k: int| 0 <= k < before[j].len() && before[j][k] == s[i];
        if j < now.len() && now[j] == before[j] {
            assert(now[j].contains(s[i]));
        } else {
            assert(now[j] == before[j].push(s.last()));
            assert(now[j][k] == s[i]);
            assert(now[j].contains(s[i]));
        }
    }
}

proof fn lemma_join_holds_every_part(parts: Seq<Seq<char>>, sep: Seq<char>, j: int, c: char)
    requires
        0 <= j < parts.len(),
        parts[j].contains(c),
    ensures
        words::join(parts, sep).contains(c),
    decreases parts.len(),
{
    let k = choose|k: int| 0 <= k < parts[j].len() && parts[j][k] == c;
    if parts.len() == 1 {
        assert(words::join(parts, sep)[k] == c);
    } else {
        let init = words::join(parts.drop_last(), sep);
        if j == parts.len() - 1 {
            assert(words::join(parts, sep)[init.len() + sep.len() + k] == c);
        } else {
            assert(parts.drop_last()[j] == parts[j]);
            lemma_join_holds_every_part(parts.drop_last(), sep, j, c);
            let m = choose|m: int| 0 <= m < init.len() && init[m] == c;
            assert(words::join(parts, sep)[m] == c);
        }
    }
}

proof fn lemma_placeholder_is_harmless(title: Seq<char>)
    requires
        titles::normal_name(title) == titles::untitled(),
    ensures
        !card::has_hostile(title),
{
    if card::has_hostile(title) {
        let i = choose|i: int| 0 <= i < title.len() && card::search_hostile(#[trigger] title[i]);
        let c = title[i];
        lemma_words_hold_every_character(title, i, WordClass::Visible);
        let ws = words::words(title, WordClass::Visible);
        let j = choose|j: int| 0 <= j < ws.len() && (#[trigger] ws[j]).contains(c);
        lemma_join_holds_every_part(ws, seq![' '], j, c);
        reveal_strlit("(untitled)");
        let k = choose|k: int| 0 <= k < titles::untitled().len() && titles::untitled()[k] == c;
        assert(!card::search_hostile(titles::untitled()[k]));
    }
}

/// The search title of a card whose titles were de-duplicated from those of its work is one of the
/// work's names, spelled the same way.
proof fn lemma_search_title_is_named(
    c: CardView,
    original: Option<Seq<char>>,
    original_language: Option<Seq<char>>,
    akas: Seq<(Seq<char>, Seq<char>)>,
)
    requires
        c.guard_titles == resolve::first_seen(
            tmdb_client::and_text(seq![c.title], original) + titles::aka_titles(akas),
        ),
        c.names == titles::work_names(c.title, original, original_language, akas),
    ensures
        card::search_title(c) matches Some(t) ==> is_named(c.names, t),
{
    let all = tmdb_client::and_text(seq![c.title], original) + titles::aka_titles(akas);
    let head = tmdb_client::and_text(seq![c.title], original);
    if let Some(aka) = card::search_pick(c.title, c.guard_titles) {
        card::a_stand_in_is_stronger(c.title, c.guard_titles);
        resolve::dedup_keeps_one_of_each(all);
        every_title_is_a_name(c.title, original, original_language, akas);
        let k = choose|k: int| 0 <= k < c.guard_titles.len() && c.guard_titles[k] == aka;
        let i = choose|i: int| 0 <= i < all.len() && c.guard_titles[k] == text::trim(
            #[trigger] all[i],
        );
        let t = titles::normal_name(aka);
        titles::normal_name_ignores_trimming(all[i]);
        assert(t.len() > 0) by {
            text::trimmed_ends_are_visible(all[i]);
            lemma_words_hold_every_character(aka, 0, WordClass::Visible);
            let ws = words::words(aka, WordClass::Visible);
            let j = choose|j: int| 0 <= j < ws.len() && (#[trigger] ws[j]).contains(aka[0]);
            lemma_join_holds_every_part(ws, seq![' '], j, aka[0]);
        }
        if i == 0 {
            assert(all[i] == c.title);
            if t == titles::untitled() {
                lemma_placeholder_is_harmless(c.title);
            }
        } else if i < head.len() {
            assert(all[i] == original->0);
        } else {
            assert(all[i] == akas[i - head.len()].0);
        }
    }
}

/// A show's search title is one of the names on its record, spelled the same way.
pub proof fn search_title_of_a_show_is_one_of_its_names(
    tmdbid: u64,
    ext: Option<TmdbExternalIds>,
    details: TmdbTvDetails,
)
    ensures
        card::search_title(resolve::tv_card_view(tmdbid, ext, details)) matches Some(t) ==> is_named(
            resolve::tv_card_view(tmdbid, ext, details).names,
            t,
        ),
{
    lemma_search_title_is_named(
        resolve::tv_card_view(tmdbid, ext, details),
        text::text_of(details.original_name),
        text::text_of(details.original_language),
        tmdb_client::akas_in(details.alternative_titles),
    );
}

/// Do the two lists of alternative titles that a hit carries, with and without markets, agree?
pub open spec fn akas_agree(hit: HitView) -> bool {
    hit.alt_titles == titles::aka_titles(hit.akas)
}

/// The two lists agree on every hit that the library makes.
pub proof fn akas_of_fresh_hits_agree(
    item: TmdbSearchItem,
    kind: TmdbKind,
    film: TmdbMovieDetails,
    show: TmdbTvDetails,
    tmdbid: u64,
)
    ensures
        akas_agree(tmdb_client::list_hit(item, kind)),
        akas_agree(film.hit()),
        akas_agree(show.hit(tmdbid)),
{
    assert(titles::aka_titles(Seq::empty()) =~= Seq::empty());
}

/// A film's search title is one of the names on its record, spelled the same way.
pub proof fn search_title_of_a_film_is_one_of_its_names(
    tmdbid: u64,
    ext: Option<TmdbExternalIds>,
    hit: HitView,
    table: Map<u32, Seq<char>>,
)
    requires
        akas_agree(hit),
    ensures
        card::search_title(resolve::movie_card_view(tmdbid, ext, hit, table)) matches Some(t)
            ==> is_named(resolve::movie_card_view(tmdbid, ext, hit, table).names, t),
{
    lemma_search_title_is_named(
        resolve::movie_card_view(tmdbid, ext, hit, table),
        hit.original_title,
        hit.original_language,
        hit.akas,
    );
}

/// A catalog card's search title is one of the names on its record, spelled the same way.
pub proof fn search_title_of_a_catalog_card_is_one_of_its_names(
    hit: HitView,
    kind: TmdbKind,
    table: Map<u32, Seq<char>>,
)
    requires
        akas_agree(hit),
    ensures
        card::search_title(discovery::hit_card(hit, kind, table)) matches Some(t) ==> is_named(
            discovery::hit_card(hit, kind, table).names,
            t,
        ),
{
    lemma_search_title_is_named(
        discovery::hit_card(hit, kind, table),
        hit.original_title,
        hit.original_language,
        hit.akas,
    );
}

// -- identity -------------------------------------------------------------------------------

/// A work has one record id, whichever path surfaced it: a catalog card and a card looked up by id
/// converge on one record.
pub proof fn every_path_gives_one_record_id(
    hit: HitView,
    table: Map<u32, Seq<char>>,
    ext: Option<TmdbExternalIds>,
    details: TmdbTvDetails,
    film: HitView,
)
    ensures
        discovery::hit_card(hit, TmdbKind::Tv, table).record_id() == resolve::tv_card_view(
            hit.tmdbid,
            ext,
            details,
        ).record_id(),
        discovery::hit_card(hit, TmdbKind::Movie, table).record_id() == resolve::movie_card_view(
            hit.tmdbid,
            ext,
            film,
            table,
        ).record_id(),
{
}

/// A show and a film never share a record id, nor do two works of one kind.
pub proof fn record_ids_are_unique(
    a: HitView,
    kind_a: TmdbKind,
    b: HitView,
    kind_b: TmdbKind,
    table: Map<u32, Seq<char>>,
)
    requires
        discovery::hit_card(a, kind_a, table).record_id() == discovery::hit_card(
            b,
            kind_b,
            table,
        ).record_id(),
    ensures
        kind_a == kind_b,
        a.tmdbid == b.tmdbid,
{
    crate::tmdb::record_id_leads_back_to_the_work(kind_a, a.tmdbid);
    crate::tmdb::record_id_leads_back_to_the_work(kind_b, b.tmdbid);
}

// -- catalog rows ---------------------------------------------------------------------------

proof fn lemma_canonical_kinds(kind: TmdbKind)
    ensures
        discovery::kind_of_value(card::content_kind_text(kind)) == Some(kind),
{
    reveal_strlit("movie");
    reveal_strlit("series");
    let value = card::content_kind_text(kind);
    assert(!text::is_whitespace(value[0]) && !text::is_whitespace(value.last()));
    text::trimming_is_stable(value);
    assert(text::ascii_lowercase(value) =~= value);
    assert("movie"@.len() == 5 && "series"@.len() == 6);
}

/// A catalog card survives having its own query applied to it again. Of the record of any card in
/// the row of a query: a `fileType` filter finds `card`; a `contentKind` filter in its canonical
/// spelling finds that very value; the marker of a mode, and `anime`, find what the query gave.
pub proof fn a_catalog_record_repeats_its_query(
    query: QueryView,
    table: Map<u32, Seq<char>>,
    replies: Seq<Option<Seq<HitView>>>,
    max: nat,
    i: int,
    links: LinksView,
    image_base: Seq<char>,
)
    requires
        0 <= i < discovery::row_cards(query, table, replies, max).len(),
    ensures
        ({
            let c = discovery::row_cards(query, table, replies, max)[i];
            let fields = card::record_fields(c, links, image_base, query.filters);
            &&& field(fields, "fileType"@) == Some("card"@)
            &&& forall|kind: TmdbKind|
                query.values("contentKind"@) == seq![#[trigger] card::content_kind_text(kind)]
                    ==> field(fields, "contentKind"@) == Some(card::content_kind_text(kind))
            &&& forall|mode: DiscoveryMode|
                query.values(#[trigger] discovery::marker_text(mode)).len() > 0 ==> field(
                    fields,
                    discovery::marker_text(mode),
                ) == Some(words::join(query.values(discovery::marker_text(mode)), ","@))
            &&& query.values("anime"@).len() > 0 ==> field(fields, "anime"@) == Some(
                words::join(query.values("anime"@), ","@),
            )
        }),
{
    discovery::rows_are_short_and_displayable(query, table, replies, max);
    let c = discovery::row_cards(query, table, replies, max)[i];
    let fields = card::record_fields(c, links, image_base, query.filters);
    a_record_describes_its_card(c, links, image_base, query.filters);
    assert forall|kind: TmdbKind|
        query.values("contentKind"@) == seq![
            #[trigger] card::content_kind_text(kind),
        ] implies field(fields, "contentKind"@) == Some(card::content_kind_text(kind)) by {
        lemma_canonical_kinds(kind);
        assert(query.values("contentKind"@)[0] == card::content_kind_text(kind));
        assert(query.row_kind() == Some(kind));
    }
    assert forall|mode: DiscoveryMode|
        query.values(#[trigger] discovery::marker_text(mode)).len() > 0 implies field(
        fields,
        discovery::marker_text(mode),
    ) == Some(words::join(query.values(discovery::marker_text(mode)), ","@)) by {
        let key = discovery::marker_text(mode);
        a_card_carries_the_markers_of_its_row(c, links, image_base, query.filters, key);
    }
    if query.values("anime"@).len() > 0 {
        a_card_carries_the_markers_of_its_row(c, links, image_base, query.filters, "anime"@);
    }
}

pub proof fn lemma_named_genres(ids: Seq<u32>, table: Map<u32, Seq<char>>, id: u32)
    requires
        ids.contains(id),
        table.contains_key(id),
    ensures
        resolve::named_genres(ids, table).contains(table[id]),
    decreases ids.len(),
{
    let init = ids.drop_last();
    let before = resolve::named_genres(init, table);
    let now = resolve::named_genres(ids, table);
    let i = choose|i: int| 0 <= i < ids.len() && ids[i] == id;
    if i < init.len() {
        assert(init[i] == id);
        lemma_named_genres(init, table, id);
        let k = choose|k: int| 0 <= k < before.len() && before[k] == table[id];
        assert(now[k] == table[id]);
    } else {
        assert(now[before.len() as int] == table[id]);
    }
}

/// A card of a row that was narrowed to genres files the genre it was found by: for a work that
/// carries one of the genres asked for, that genre is a member of its record.
pub proof fn a_wanted_genre_is_filed(
    hit: HitView,
    kind: TmdbKind,
    table: Map<u32, Seq<char>>,
    wanted: Seq<Seq<char>>,
    id: u32,
    links: LinksView,
    image_base: Seq<char>,
    filters: Map<Seq<char>, Seq<Seq<char>>>,
)
    requires
        hit.genre_ids.contains(id),
        discovery::is_wanted(id, wanted, table),
        text::trim(table[id]).len() > 0,
    ensures
        field(
            card::record_fields(
                discovery::hit_card(hit, kind, table),
                links,
                image_base,
                filters,
            ),
            "genres/"@ + text::trim(table[id]),
        ) == Some("true"@),
        wanted.contains(discovery::folded(table[id])),
{
    let c = discovery::hit_card(hit, kind, table);
    lemma_named_genres(hit.genre_ids, table, id);
    let k = choose|k: int| 0 <= k < c.genres.len() && c.genres[k] == table[id];
    every_member_is_filed(c, links, image_base, filters);
    assert(text::trim(c.genres[k]).len() > 0);
}

} // verus!
