//! What a catalog row asks TMDB for and what it is filled with, said of the query and of the pages.

use vstd::prelude::*;

use crate::card::CardView;
use crate::decimal;
use crate::discovery;
use crate::discovery::{DiscoveryMode, WalkView};
use crate::query::QueryView;
use crate::text;
use crate::tmdb_client::{HitView, TmdbKind};
use crate::words;

verus! {

// -- what the query asks for ----------------------------------------------------------------

/// Does the query carry the filter `key` with a value that is `true` up to ASCII case?
pub open spec fn asks(query: QueryView, key: Seq<char>) -> bool {
    query.filters.contains_key(key) && exists|i: int|
        0 <= i < query.filters[key].len() && text::ascii_lowercase(
            #[trigger] query.filters[key][i],
        ) == "true"@
}

proof fn lemma_asks(query: QueryView, key: Seq<char>)
    ensures
        asks(query, key) == query.is_true(key),
{
    if asks(query, key) {
        let i = choose|i: int|
            0 <= i < query.filters[key].len() && text::ascii_lowercase(
                #[trigger] query.filters[key][i],
            ) == "true"@;
        assert(text::ascii_lowercase(query.values(key)[i]) == "true"@);
    }
    if query.is_true(key) {
        let i = choose|i: int|
            0 <= i < query.values(key).len() && text::ascii_lowercase(
                #[trigger] query.values(key)[i],
            ) == "true"@;
        assert(text::ascii_lowercase(query.filters[key][i]) == "true"@);
    }
}

/// The mode of a query: trending wherever it asks for that, popular where it does not, top-rated
/// where it asks for neither; none where it asks for none of the three.
pub proof fn trending_wins_over_popular_over_top_rated(query: QueryView)
    ensures
        asks(query, "trending"@) ==> query.mode() == Some(DiscoveryMode::Trending),
        !asks(query, "trending"@) && asks(query, "popular"@) ==> query.mode() == Some(
            DiscoveryMode::Popular,
        ),
        !asks(query, "trending"@) && !asks(query, "popular"@) && asks(query, "top_rated"@)
            ==> query.mode() == Some(DiscoveryMode::TopRated),
        !asks(query, "trending"@) && !asks(query, "popular"@) && !asks(query, "top_rated"@)
            ==> query.mode() is None,
{
    lemma_asks(query, "trending"@);
    lemma_asks(query, "popular"@);
    lemma_asks(query, "top_rated"@);
}

/// The filter that a mode answers to is its name.
pub proof fn modes_answer_to_their_names(query: QueryView)
    requires
        query.mode() is Some,
    ensures
        asks(query, discovery::marker_text(query.mode()->0)),
        query.mode() == Some(DiscoveryMode::Trending) <==> asks(query, "trending"@),
{
    trending_wins_over_popular_over_top_rated(query);
}

/// A query browses the catalog when it holds no visible text and no explicit id, and asks for one of
/// the three lists.
pub proof fn browsing_takes_a_list_and_nothing_to_look_for(query: QueryView)
    ensures
        query.is_discovery() <==> {
            &&& forall|i: int|
                0 <= i < query.free_text.len() ==> text::is_whitespace(#[trigger] query.free_text[i])
            &&& !query.filters.contains_key("tmdbid"@)
            &&& asks(query, "trending"@) || asks(query, "popular"@) || asks(query, "top_rated"@)
        },
{
    lemma_asks(query, "trending"@);
    lemma_asks(query, "popular"@);
    lemma_asks(query, "top_rated"@);
    text::blank_texts_trim_to_nothing(query.free_text);
}

/// Does a `contentKind` value spell film?
pub open spec fn spells_film(value: Seq<char>) -> bool {
    text::ascii_lowercase(text::trim(value)) == "movie"@
}

/// Does a `contentKind` value spell show, in any of its four spellings?
pub open spec fn spells_show(value: Seq<char>) -> bool {
    let v = text::ascii_lowercase(text::trim(value));
    v == "series"@ || v == "episode"@ || v == "tvshow"@ || v == "tv"@
}

proof fn lemma_first_kind(values: Seq<Seq<char>>, i: int)
    requires
        0 <= i <= values.len(),
        forall|k: int|
            0 <= k < i ==> !spells_film(#[trigger] values[k]) && !spells_show(values[k]),
    ensures
        i == values.len() ==> discovery::first_kind(values) is None,
        i < values.len() && spells_film(values[i]) ==> discovery::first_kind(values) == Some(
            TmdbKind::Movie,
        ),
        i < values.len() && spells_show(values[i]) ==> discovery::first_kind(values) == Some(
            TmdbKind::Tv,
        ),
    decreases values.len(),
{
    reveal_strlit("movie");
    reveal_strlit("series");
    reveal_strlit("episode");
    reveal_strlit("tvshow");
    reveal_strlit("tv");
    assert("movie"@.len() == 5 && "series"@.len() == 6 && "episode"@.len() == 7 && "tvshow"@.len()
        == 6 && "tv"@.len() == 2);
    if i > 0 {
        let rest = values.skip(1);
        assert(!spells_film(values[0]) && !spells_show(values[0]));
        assert forall|k: int| 0 <= k < i - 1 implies !spells_film(#[trigger] rest[k])
            && !spells_show(rest[k]) by {
            assert(rest[k] == values[k + 1]);
        }
        lemma_first_kind(rest, i - 1);
        if i < values.len() {
            assert(rest[i - 1] == values[i]);
        }
    }
}

/// The kind of a row is what the first `contentKind` value that spells one spells.
pub proof fn the_first_kind_spelled_is_the_rows(query: QueryView, values: Seq<Seq<char>>, i: int)
    requires
        query.filters.contains_key("contentKind"@),
        values == query.filters["contentKind"@],
        0 <= i < values.len(),
        forall|k: int|
            0 <= k < i ==> !spells_film(#[trigger] values[k]) && !spells_show(values[k]),
    ensures
        spells_film(values[i]) ==> query.row_kind() == Some(TmdbKind::Movie),
        spells_show(values[i]) ==> query.row_kind() == Some(TmdbKind::Tv),
{
    lemma_first_kind(values, i);
}

/// A query without a `contentKind` value that spells a kind asks for no row.
pub proof fn a_row_needs_a_kind(query: QueryView, table: Map<u32, Seq<char>>, max: nat)
    requires
        query.filters.contains_key("contentKind"@) ==> forall|k: int|
            0 <= k < query.filters["contentKind"@].len() ==> !spells_film(
                #[trigger] query.filters["contentKind"@][k],
            ) && !spells_show(query.filters["contentKind"@][k]),
    ensures
        query.row_kind() is None,
        discovery::row_start(query, table, max) is None,
{
    let values = query.values("contentKind"@);
    lemma_first_kind(values, values.len() as int);
}

// -- genres ---------------------------------------------------------------------------------

/// Folding goes character by character: a letter or digit becomes its lower case, anything else
/// nothing, and two texts fold to what each folds to.
pub proof fn folding_goes_character_by_character(a: Seq<char>, c: char, b: Seq<char>)
    ensures
        discovery::folded(Seq::empty()).len() == 0,
        text::is_alphanumeric(c) ==> discovery::folded(seq![c]) == text::lowercase_char(c),
        !text::is_alphanumeric(c) ==> discovery::folded(seq![c]).len() == 0,
        discovery::folded(a + b) == discovery::folded(a) + discovery::folded(b),
    decreases b.len(),
{
    assert(seq![c].drop_last() =~= Seq::empty());
    assert(Seq::<char>::empty() + text::lowercase_char(c) =~= text::lowercase_char(c));
    if b.len() == 0 {
        assert(a + b =~= a);
        assert(discovery::folded(a) + discovery::folded(b) =~= discovery::folded(a));
    } else {
        let init = b.drop_last();
        folding_goes_character_by_character(a, c, init);
        assert((a + b).drop_last() =~= a + init);
        assert((a + b).last() == b.last());
        assert(discovery::folded(a + b) =~= discovery::folded(a) + discovery::folded(b));
    }
}

/// Does the query ask for genres that fold to `label`, which is not empty?
pub open spec fn asks_for_genre(query: QueryView, label: Seq<char>) -> bool {
    &&& label.len() > 0
    &&& query.filters.contains_key("genres"@)
    &&& exists|i: int|
        0 <= i < query.filters["genres"@].len() && discovery::folded(
            #[trigger] query.filters["genres"@][i],
        ) == label
}

proof fn lemma_folded_labels(values: Seq<Seq<char>>, label: Seq<char>)
    ensures
        discovery::folded_labels(values).contains(label) <==> label.len() > 0 && exists|i: int|
            0 <= i < values.len() && discovery::folded(#[trigger] values[i]) == label,
        discovery::folded_labels(values).len() > 0 ==> exists|i: int|
            0 <= i < values.len() && discovery::folded(#[trigger] values[i]).len() > 0,
    decreases values.len(),
{
    let now = discovery::folded_labels(values);
    if values.len() > 0 {
        let init = values.drop_last();
        let before = discovery::folded_labels(init);
        lemma_folded_labels(init, label);
        let last = discovery::folded(values.last());
        if now.contains(label) {
            let k = choose|k: int| 0 <= k < now.len() && now[k] == label;
            if k < before.len() {
                assert(before[k] == label);
                let i = choose|i: int|
                    0 <= i < init.len() && discovery::folded(#[trigger] init[i]) == label;
                assert(values[i] == init[i]);
            } else {
                assert(discovery::folded(values[values.len() - 1]) == label);
            }
        }
        if label.len() > 0 && exists|i: int|
            0 <= i < values.len() && discovery::folded(#[trigger] values[i]) == label {
            let i = choose|i: int|
                0 <= i < values.len() && discovery::folded(#[trigger] values[i]) == label;
            if i < init.len() {
                assert(init[i] == values[i]);
                let k = choose|k: int| 0 <= k < before.len() && before[k] == label;
                assert(now[k] == label);
            } else {
                assert(now[before.len() as int] == label);
            }
        }
        if now.len() > 0 {
            if before.len() > 0 {
                let i = choose|i: int|
                    0 <= i < init.len() && discovery::folded(#[trigger] init[i]).len() > 0;
                assert(values[i] == init[i]);
            } else {
                assert(discovery::folded(values[values.len() - 1]).len() > 0);
            }
        }
    }
}

proof fn lemma_wanted_ids_exist(wanted: Seq<Seq<char>>, table: Map<u32, Seq<char>>, upto: int)
    -> (ids: Seq<u32>)
    requires
        0 <= upto <= 0x1_0000_0000,
    ensures
        forall|i: int, j: int| 0 <= i < j < ids.len() ==> ids[i] < ids[j],
        forall|id: u32| #[trigger]
            ids.contains(id) <==> discovery::is_wanted(id, wanted, table) && id < upto,
    decreases upto,
{
    if upto == 0 {
        Seq::empty()
    } else {
        let before = lemma_wanted_ids_exist(wanted, table, upto - 1);
        let x = (upto - 1) as u32;
        assert(x == upto - 1);
        assert forall|i: int| 0 <= i < before.len() implies #[trigger] before[i] < x by {
            assert(before.contains(before[i]));
        }
        if discovery::is_wanted(x, wanted, table) {
            let ids = before.push(x);
            assert forall|id: u32| #[trigger]
                ids.contains(id) <==> discovery::is_wanted(id, wanted, table) && id < upto by {
                if before.contains(id) {
                    let k = choose|k: int| 0 <= k < before.len() && before[k] == id;
                    assert(ids[k] == id);
                }
                if ids.contains(id) {
                    let k = choose|k: int| 0 <= k < ids.len() && ids[k] == id;
                    if k < before.len() {
                        assert(before[k] == id);
                        assert(before.contains(id));
                    }
                }
                assert(ids[before.len() as int] == x);
                if id < upto && id != x {
                    assert(id < upto - 1);
                    assert(before.contains(id) <==> discovery::is_wanted(id, wanted, table) && id
                        < upto - 1);
                }
            }
            ids
        } else {
            assert forall|id: u32| #[trigger]
                before.contains(id) <==> discovery::is_wanted(id, wanted, table) && id < upto by {
                if id < upto && id != x {
                    assert(id < upto - 1);
                }
            }
            before
        }
    }
}

proof fn lemma_wanted_ids(wanted: Seq<Seq<char>>, table: Map<u32, Seq<char>>)
    ensures
        discovery::are_wanted_ids(discovery::wanted_ids(wanted, table), wanted, table),
{
    let ids = lemma_wanted_ids_exist(wanted, table, 0x1_0000_0000);
    assert(discovery::are_wanted_ids(ids, wanted, table));
}

/// A row is narrowed to the ids of the genres its query asks for: an id belongs to it exactly when
/// the table has the id under a name that folds as one of the labels does. They are in ascending
/// order. There is no row where the query asks for genres and the table has none of them.
#[verifier::rlimit(40)]
pub proof fn a_row_is_narrowed_to_the_genres_asked_for(
    query: QueryView,
    table: Map<u32, Seq<char>>,
    max: nat,
)
    ensures
        discovery::row_start(query, table, max) matches Some(walk) ==> {
            &&& forall|id: u32| #[trigger]
                walk.genre_ids.contains(id) <==> table.contains_key(id) && asks_for_genre(
                    query,
                    discovery::folded(table[id]),
                )
            &&& forall|i: int, j: int|
                0 <= i < j < walk.genre_ids.len() ==> walk.genre_ids[i] < walk.genre_ids[j]
            &&& (exists|label: Seq<char>| asks_for_genre(query, label)) ==> walk.genre_ids.len() > 0
        },
        discovery::row_start(query, table, max) is Some <==> {
            &&& query.mode() is Some
            &&& query.row_kind() is Some
            &&& (exists|label: Seq<char>| asks_for_genre(query, label)) ==> exists|id: u32|
                #[trigger] table.contains_key(id) && asks_for_genre(
                    query,
                    discovery::folded(table[id]),
                )
        },
{
    let values = query.values("genres"@);
    let wanted = query.wanted_genres();
    let ids = discovery::wanted_ids(wanted, table);
    lemma_wanted_ids(wanted, table);
    assert forall|label: Seq<char>| #[trigger]
        asks_for_genre(query, label) <==> wanted.contains(label) by {
        lemma_folded_labels(values, label);
        if asks_for_genre(query, label) {
            let i = choose|i: int|
                0 <= i < query.filters["genres"@].len() && discovery::folded(
                    #[trigger] query.filters["genres"@][i],
                ) == label;
            assert(discovery::folded(values[i]) == label);
        }
        if wanted.contains(label) {
            let i = choose|i: int|
                0 <= i < values.len() && discovery::folded(#[trigger] values[i]) == label;
            assert(discovery::folded(query.filters["genres"@][i]) == label);
        }
    }
    assert forall|id: u32| #[trigger] ids.contains(id) <==> table.contains_key(id)
        && asks_for_genre(query, discovery::folded(table[id])) by {
        assert(ids.contains(id) <==> discovery::is_wanted(id, wanted, table));
    }
    if wanted.len() > 0 {
        assert(wanted.contains(wanted[0]));
        assert(asks_for_genre(query, wanted[0]));
    }
    if exists|label: Seq<char>| asks_for_genre(query, label) {
        let label = choose|label: Seq<char>| asks_for_genre(query, label);
        assert(wanted.contains(label));
    }
    if ids.len() > 0 {
        assert(ids.contains(ids[0]));
        assert(table.contains_key(ids[0]));
    }
    if exists|id: u32| #[trigger]
        table.contains_key(id) && asks_for_genre(query, discovery::folded(table[id])) {
        let id = choose|id: u32| #[trigger]
            table.contains_key(id) && asks_for_genre(query, discovery::folded(table[id]));
        assert(ids.contains(id));
    }
}

// -- the pages asked for --------------------------------------------------------------------

proof fn lemma_walk_keeps_its_row(
    walk: WalkView,
    replies: Seq<Option<Seq<HitView>>>,
    table: Map<u32, Seq<char>>,
)
    ensures
        ({
            let now = walk.through(replies, table);
            &&& now.mode == walk.mode
            &&& now.kind == walk.kind
            &&& now.anime == walk.anime
            &&& now.genre_ids == walk.genre_ids
            &&& now.max == walk.max
            &&& now.goes_on() ==> now.next == walk.next + replies.len()
        }),
    decreases replies.len(),
{
    if replies.len() > 0 && walk.goes_on() {
        lemma_walk_keeps_its_row(walk.after(replies[0], table), replies.skip(1), table);
    }
}

/// The word for the kind of a row.
pub open spec fn row_word(kind: TmdbKind) -> Seq<char> {
    if kind == TmdbKind::Movie {
        "movie"@
    } else {
        "tv"@
    }
}

/// Every page of a row, in full. A row that asks for trending and for neither anime nor genres is
/// TMDB's own weekly list. Any other is a `discover` list of the row's kind, with the anime keyword
/// where the query asks for anime, the genre ids where the row is narrowed to genres, sorted by
/// rating where the query asks for neither trending nor popular and by popularity otherwise, adult
/// entries kept out by flag, by keyword and by a floor of votes, which is higher where ratings sort.
/// The page number counts the pages already answered.
#[verifier::rlimit(40)]
pub proof fn every_page_is_asked_for_as_the_query_says(
    query: QueryView,
    table: Map<u32, Seq<char>>,
    max: nat,
    replies: Seq<Option<Seq<HitView>>>,
    walk: WalkView,
)
    requires
        discovery::row_start(query, table, max) == Some(walk),
        walk.through(replies, table).goes_on(),
    ensures
        ({
            let path = walk.through(replies, table).request();
            let ids = walk.genre_ids;
            let word = row_word(query.row_kind()->0);
            let number = decimal::numeral((replies.len() + 1) as nat);
            let listed = asks(query, "trending"@) || asks(query, "popular"@);
            let keyword = if asks(query, "anime"@) {
                "with_keywords="@ + "210024"@ + "&"@
            } else {
                Seq::empty()
            };
            let genres = if ids.len() > 0 {
                "with_genres="@ + words::join(
                    Seq::new(ids.len(), |i: int| decimal::numeral(ids[i] as nat)),
                    "%7C"@,
                ) + "&"@
            } else {
                Seq::empty()
            };
            let sort = if listed {
                "popularity.desc"@
            } else {
                "vote_average.desc"@
            };
            let floor: nat = if listed {
                50
            } else {
                200
            };
            if asks(query, "trending"@) && !asks(query, "anime"@) && ids.len() == 0 {
                path == "trending/"@ + word + "/week?page="@ + number
            } else {
                path == "discover/"@ + word + "?"@ + keyword + genres + "sort_by="@ + sort
                    + "&include_adult=false"@ + "&without_keywords="@
                    + "198385,155477,325693,445,161919"@ + "&vote_count.gte="@ + decimal::numeral(
                    floor,
                ) + "&page="@ + number
            }
        }),
{
    let now = walk.through(replies, table);
    lemma_walk_keeps_its_row(walk, replies, table);
    discovery::rows_ask_for_few_pages(query, table, replies, max);
    lemma_asks(query, "trending"@);
    lemma_asks(query, "popular"@);
    lemma_asks(query, "top_rated"@);
    lemma_asks(query, "anime"@);
    let ids = walk.genre_ids;
    assert(now.next as u32 as nat == replies.len() + 1);
    assert(discovery::id_texts(ids) =~= Seq::new(
        ids.len(),
        |i: int| decimal::numeral(ids[i] as nat),
    ));
    let path = now.request();
    let word = row_word(query.row_kind()->0);
    let number = decimal::numeral((replies.len() + 1) as nat);
    let start = "discover/"@ + word + "?"@ + discovery::keyword_parameter(now.anime)
        + discovery::genre_parameter(ids) + "sort_by="@ + discovery::sort_text(now.mode);
    let gate = discovery::adult_gate(now.mode);
    if !discovery::is_plain_trending(now.mode, now.anime, ids) {
        assert(path == start + gate + "&page="@ + number);
        assert(start + gate =~= start + "&include_adult=false"@ + "&without_keywords="@
            + "198385,155477,325693,445,161919"@ + "&vote_count.gte="@ + decimal::numeral(
            discovery::vote_floor(now.mode) as nat,
        ));
    }
}

// -- the anime keyword ----------------------------------------------------------------------

/// Does `s` hold no `h_k`, and no `_` at either end?
#[verifier::opaque]
spec fn is_clear(s: Seq<char>) -> bool {
    &&& s.len() > 0 ==> s[0] != '_' && s.last() != '_'
    &&& forall|q: int|
        0 < q < s.len() - 1 && s[q] == '_' ==> s[q - 1] != 'h' || #[trigger] s[q + 1] != 'k'
}

proof fn lemma_clear_parts(a: Seq<char>, b: Seq<char>)
    requires
        is_clear(a),
        is_clear(b),
    ensures
        is_clear(a + b),
{
    reveal(is_clear);
    let s = a + b;
    if a.len() == 0 {
        assert(s =~= b);
    } else if b.len() == 0 {
        assert(s =~= a);
    } else {
        assert(s[0] == a[0] && s.last() == b.last());
        assert forall|q: int| 0 < q < s.len() - 1 && s[q] == '_' implies s[q - 1] != 'h'
            || #[trigger] s[q + 1] != 'k' by {
            if q < a.len() {
                assert(s[q] == a[q] && s[q - 1] == a[q - 1]);
                if q + 1 < a.len() {
                    assert(s[q + 1] == a[q + 1]);
                }
            } else {
                let p = q - a.len();
                assert(s[q] == b[p] && s[q + 1] == b[p + 1]);
                if p > 0 {
                    assert(s[q - 1] == b[p - 1]);
                }
            }
        }
    }
}

proof fn lemma_without_underscore(s: Seq<char>)
    requires
        !s.contains('_'),
    ensures
        is_clear(s),
{
    reveal(is_clear);
    if s.len() > 0 {
        assert(s.contains(s[0]) && s.contains(s[s.len() - 1]));
    }
    assert forall|q: int| 0 < q < s.len() - 1 && s[q] == '_' implies s[q - 1] != 'h'
        || #[trigger] s[q + 1] != 'k' by {
        assert(s.contains(s[q]));
    }
}

proof fn lemma_numeral_is_clear(n: nat)
    ensures
        is_clear(decimal::numeral(n)),
{
    decimal::lemma_numeral_digits(n);
    let s = decimal::numeral(n);
    assert(!s.contains('_')) by {
        if s.contains('_') {
            let i = choose|i: int| 0 <= i < s.len() && s[i] == '_';
            assert(text::ascii_digit(s[i]));
        }
    }
    lemma_without_underscore(s);
}

proof fn lemma_joined_numerals_are_clear(parts: Seq<Seq<char>>)
    requires
        forall|i: int| 0 <= i < parts.len() ==> is_clear(#[trigger] parts[i]),
    ensures
        is_clear(words::join(parts, "%7C"@)),
    decreases parts.len(),
{
    assert(is_clear(Seq::<char>::empty())) by {
        reveal(is_clear);
    }
    reveal_strlit("%7C");
    assert(is_clear("%7C"@)) by {
        assert(!"%7C"@.contains('_'));
        lemma_without_underscore("%7C"@);
    }
    if parts.len() == 1 {
        assert(is_clear(parts[0]));
    } else if parts.len() > 1 {
        let init = parts.drop_last();
        assert forall|i: int| 0 <= i < init.len() implies is_clear(#[trigger] init[i]) by {
            assert(init[i] == parts[i]);
        }
        lemma_joined_numerals_are_clear(init);
        assert(is_clear(parts[parts.len() - 1]));
        lemma_clear_parts(words::join(init, "%7C"@), "%7C"@);
        lemma_clear_parts(words::join(init, "%7C"@) + "%7C"@, parts.last());
    }
}

proof fn lemma_clear_words()
    ensures
        is_clear("trending/"@),
        is_clear("/week?page="@),
        is_clear("discover/"@),
        is_clear("movie"@),
        is_clear("tv"@),
        is_clear("?"@),
        is_clear("&"@),
        is_clear("popularity.desc"@),
        is_clear("198385,155477,325693,445,161919"@),
        is_clear("&page="@),
{
    reveal_strlit("trending/");
    reveal_strlit("/week?page=");
    reveal_strlit("discover/");
    reveal_strlit("movie");
    reveal_strlit("tv");
    reveal_strlit("?");
    reveal_strlit("&");
    reveal_strlit("popularity.desc");
    reveal_strlit("198385,155477,325693,445,161919");
    reveal_strlit("&page=");
    lemma_without_underscore("trending/"@);
    lemma_without_underscore("/week?page="@);
    lemma_without_underscore("discover/"@);
    lemma_without_underscore("movie"@);
    lemma_without_underscore("tv"@);
    lemma_without_underscore("?"@);
    lemma_without_underscore("&"@);
    lemma_without_underscore("popularity.desc"@);
    lemma_without_underscore("198385,155477,325693,445,161919"@);
    lemma_without_underscore("&page="@);
}

proof fn lemma_clear_parameters()
    ensures
        is_clear("with_genres="@),
        is_clear("sort_by="@),
        is_clear("vote_average.desc"@),
        is_clear("&include_adult=false"@),
        is_clear("&without_keywords="@),
        is_clear("&vote_count.gte="@),
{
    reveal(is_clear);
    reveal_strlit("with_genres=");
    reveal_strlit("sort_by=");
    reveal_strlit("vote_average.desc");
    reveal_strlit("&include_adult=false");
    reveal_strlit("&without_keywords=");
    reveal_strlit("&vote_count.gte=");
}

#[verifier::rlimit(40)]
proof fn lemma_clear_list(
    word: Seq<char>,
    genres: Seq<char>,
    sort: Seq<char>,
    floor: Seq<char>,
    number: Seq<char>,
)
    requires
        is_clear(word),
        is_clear(genres),
        is_clear(sort),
        is_clear(floor),
        is_clear(number),
    ensures
        is_clear(
            "discover/"@ + word + "?"@ + Seq::empty() + genres + "sort_by="@ + sort
                + "&include_adult=false"@ + "&without_keywords="@
                + "198385,155477,325693,445,161919"@ + "&vote_count.gte="@ + floor + "&page="@
                + number,
        ),
{
    lemma_clear_words();
    lemma_clear_parameters();
    let e = Seq::<char>::empty();
    lemma_without_underscore(e);
    let s1 = "discover/"@ + word;
    lemma_clear_parts("discover/"@, word);
    let s2 = s1 + "?"@;
    lemma_clear_parts(s1, "?"@);
    let s3 = s2 + e;
    lemma_clear_parts(s2, e);
    let s4 = s3 + genres;
    lemma_clear_parts(s3, genres);
    let s5 = s4 + "sort_by="@;
    lemma_clear_parts(s4, "sort_by="@);
    let s6 = s5 + sort;
    lemma_clear_parts(s5, sort);
    let s7 = s6 + "&include_adult=false"@;
    lemma_clear_parts(s6, "&include_adult=false"@);
    let s8 = s7 + "&without_keywords="@;
    lemma_clear_parts(s7, "&without_keywords="@);
    let s9 = s8 + "198385,155477,325693,445,161919"@;
    lemma_clear_parts(s8, "198385,155477,325693,445,161919"@);
    let s10 = s9 + "&vote_count.gte="@;
    lemma_clear_parts(s9, "&vote_count.gte="@);
    let s11 = s10 + floor;
    lemma_clear_parts(s10, floor);
    let s12 = s11 + "&page="@;
    lemma_clear_parts(s11, "&page="@);
    lemma_clear_parts(s12, number);
}

proof fn lemma_longer(start: Seq<char>, a: Seq<char>, b: Seq<char>)
    requires
        start.is_prefix_of(a),
    ensures
        start.is_prefix_of(a + b),
{
    assert((a + b).subrange(0, start.len() as int) =~= a.subrange(0, start.len() as int));
}

#[verifier::rlimit(40)]
proof fn lemma_list_starts(
    word: Seq<char>,
    keyword: Seq<char>,
    genres: Seq<char>,
    sort: Seq<char>,
    floor: Seq<char>,
    number: Seq<char>,
)
    ensures
        ("discover/"@ + word + "?"@ + keyword).is_prefix_of(
            "discover/"@ + word + "?"@ + keyword + genres + "sort_by="@ + sort
                + "&include_adult=false"@ + "&without_keywords="@
                + "198385,155477,325693,445,161919"@ + "&vote_count.gte="@ + floor + "&page="@
                + number,
        ),
{
    let start = "discover/"@ + word + "?"@ + keyword;
    assert(start.subrange(0, start.len() as int) =~= start);
    lemma_longer(start, start, genres);
    let s5 = start + genres;
    lemma_longer(start, s5, "sort_by="@);
    let s6 = s5 + "sort_by="@;
    lemma_longer(start, s6, sort);
    let s7 = s6 + sort;
    lemma_longer(start, s7, "&include_adult=false"@);
    let s8 = s7 + "&include_adult=false"@;
    lemma_longer(start, s8, "&without_keywords="@);
    let s9 = s8 + "&without_keywords="@;
    lemma_longer(start, s9, "198385,155477,325693,445,161919"@);
    let s10 = s9 + "198385,155477,325693,445,161919"@;
    lemma_longer(start, s10, "&vote_count.gte="@);
    let s11 = s10 + "&vote_count.gte="@;
    lemma_longer(start, s11, floor);
    let s12 = s11 + floor;
    lemma_longer(start, s12, "&page="@);
    lemma_longer(start, s12 + "&page="@, number);
}

proof fn lemma_clear_holds_no_keyword(s: Seq<char>)
    requires
        is_clear(s),
    ensures
        !discovery::holds_part(s, "with_keywords="@),
{
    reveal(is_clear);
    if discovery::holds_part(s, "with_keywords="@) {
        let part = "with_keywords="@;
        reveal_strlit("with_keywords=");
        let (before, after) = choose|before: Seq<char>, after: Seq<char>|
            s == #[trigger] (before + part + after);
        let p: int = before.len() as int;
        assert(part.len() == 14 && part[3] == 'h' && part[4] == '_' && part[5] == 'k');
        assert(s[p + 3] == part[3] && s[p + 4] == part[4] && s[p + 5] == part[5]);
        assert(0 < p + 4 < s.len() - 1);
        assert(s[(p + 4) + 1] == 'k' && s[(p + 4) - 1] == 'h');
    }
}

/// Whenever a query's anime filter holds a value that is `true` up to ASCII case, every page its row
/// asks for carries the keyword for anime as its first parameter; otherwise no page carries a
/// `with_keywords` parameter at all.
#[verifier::rlimit(40)]
pub proof fn anime_rows_and_no_others_ask_for_the_anime_keyword(
    query: QueryView,
    table: Map<u32, Seq<char>>,
    max: nat,
    replies: Seq<Option<Seq<HitView>>>,
    walk: WalkView,
)
    requires
        discovery::row_start(query, table, max) == Some(walk),
        walk.through(replies, table).goes_on(),
    ensures
        asks(query, "anime"@) ==> ("discover/"@ + row_word(query.row_kind()->0) + "?"@
            + "with_keywords="@ + "210024"@ + "&"@).is_prefix_of(
            walk.through(replies, table).request(),
        ),
        !asks(query, "anime"@) ==> !discovery::holds_part(
            walk.through(replies, table).request(),
            "with_keywords="@,
        ),
{
    every_page_is_asked_for_as_the_query_says(query, table, max, replies, walk);
    let path = walk.through(replies, table).request();
    let ids = walk.genre_ids;
    let word = row_word(query.row_kind()->0);
    let number = decimal::numeral((replies.len() + 1) as nat);
    let listed = asks(query, "trending"@) || asks(query, "popular"@);
    let numerals = Seq::new(ids.len(), |i: int| decimal::numeral(ids[i] as nat));
    let joined = words::join(numerals, "%7C"@);
    let sort = if listed {
        "popularity.desc"@
    } else {
        "vote_average.desc"@
    };
    let floor: nat = if listed {
        50
    } else {
        200
    };
    if asks(query, "anime"@) {
        let keyword = "with_keywords="@ + "210024"@ + "&"@;
        let genres = if ids.len() > 0 {
            "with_genres="@ + joined + "&"@
        } else {
            Seq::empty()
        };
        lemma_list_starts(word, keyword, genres, sort, decimal::numeral(floor), number);
        assert("discover/"@ + word + "?"@ + keyword =~= "discover/"@ + word + "?"@
            + "with_keywords="@ + "210024"@ + "&"@);
    } else {
        lemma_clear_words();
        lemma_clear_parameters();
        lemma_numeral_is_clear((replies.len() + 1) as nat);
        lemma_numeral_is_clear(floor);
        let e = Seq::<char>::empty();
        lemma_without_underscore(e);
        if asks(query, "trending"@) && ids.len() == 0 {
            lemma_clear_parts("trending/"@, word);
            lemma_clear_parts("trending/"@ + word, "/week?page="@);
            lemma_clear_parts("trending/"@ + word + "/week?page="@, number);
        } else {
            assert forall|i: int| 0 <= i < numerals.len() implies is_clear(
                #[trigger] numerals[i],
            ) by {
                lemma_numeral_is_clear(ids[i] as nat);
            }
            lemma_joined_numerals_are_clear(numerals);
            lemma_clear_parts("with_genres="@, joined);
            lemma_clear_parts("with_genres="@ + joined, "&"@);
            let genres = if ids.len() > 0 {
                "with_genres="@ + joined + "&"@
            } else {
                e
            };
            lemma_clear_list(word, genres, sort, decimal::numeral(floor), number);
        }
        lemma_clear_holds_no_keyword(path);
    }
}

// -- the walk and the row -------------------------------------------------------------------

/// A row goes on exactly as long as every page so far came back with entries, cards are missing, and
/// a page is left: five at the most, and one beyond what the cards asked for would fill at twenty a
/// page.
pub proof fn a_row_goes_on_until_it_is_full_or_used_up(
    query: QueryView,
    table: Map<u32, Seq<char>>,
    max: nat,
    replies: Seq<Option<Seq<HitView>>>,
    walk: WalkView,
)
    requires
        discovery::row_start(query, table, max) == Some(walk),
    ensures
        ({
            let now = walk.through(replies, table);
            let answered = replies.len() as int;
            &&& now.goes_on() ==> forall|i: int|
                0 <= i < answered ==> (#[trigger] replies[i]) is Some && replies[i]->0.len() > 0
            &&& now.goes_on() ==> now.cards.len() < max && answered < 5 && (answered < 2 || (
            answered - 1) * 20 < max)
            &&& (forall|i: int|
                0 <= i < answered ==> (#[trigger] replies[i]) is Some && replies[i]->0.len() > 0)
                && now.cards.len() < max && answered < 5 && (answered < 2 || (answered - 1) * 20
                < max) ==> now.goes_on()
        }),
{
    lemma_walk_goes_on(walk, replies, table);
    lemma_walk_keeps_its_row(walk, replies, table);
}

proof fn lemma_walk_goes_on(
    walk: WalkView,
    replies: Seq<Option<Seq<HitView>>>,
    table: Map<u32, Seq<char>>,
)
    requires
        !walk.stopped,
    ensures
        ({
            let now = walk.through(replies, table);
            &&& now.goes_on() ==> forall|i: int|
                0 <= i < replies.len() ==> (#[trigger] replies[i]) is Some && replies[i]->0.len()
                    > 0
            &&& (forall|i: int|
                0 <= i < replies.len() ==> (#[trigger] replies[i]) is Some && replies[i]->0.len()
                    > 0) ==> !now.stopped && (now.next == walk.next + replies.len() || now.cards.len()
                >= now.max || walk.next + replies.len() > discovery::row_pages(walk.max))
        }),
    decreases replies.len(),
{
    let now = walk.through(replies, table);
    if replies.len() > 0 && walk.goes_on() {
        let next = walk.after(replies[0], table);
        let rest = replies.skip(1);
        if replies[0] is Some && replies[0]->0.len() > 0 {
            lemma_walk_goes_on(next, rest, table);
            assert forall|i: int| 0 <= i < rest.len() implies (#[trigger] rest[i]) == replies[i
                + 1] by {
            }
            if now.goes_on() {
                assert forall|i: int| 0 <= i < replies.len() implies (
                #[trigger] replies[i]) is Some && replies[i]->0.len() > 0 by {
                    if i > 0 {
                        assert(rest[i - 1] == replies[i]);
                    }
                }
            }
            if forall|i: int|
                0 <= i < replies.len() ==> (#[trigger] replies[i]) is Some && replies[i]->0.len()
                    > 0 {
                assert forall|i: int| 0 <= i < rest.len() implies (#[trigger] rest[i]) is Some
                    && rest[i]->0.len() > 0 by {
                    assert(rest[i] == replies[i + 1]);
                }
            }
        } else {
            assert(!next.goes_on());
            assert(now == next.through(rest, table));
            assert(now == next);
        }
    }
}

proof fn lemma_filter_places<A>(s: Seq<A>, keep: spec_fn(A) -> bool) -> (from: Seq<int>)
    ensures
        from.len() == s.filter(keep).len(),
        forall|i: int|
            0 <= i < from.len() ==> 0 <= #[trigger] from[i] < s.len() && s.filter(keep)[i]
                == s[from[i]],
        forall|i: int, j: int| 0 <= i < j < from.len() ==> #[trigger] from[i] < #[trigger] from[j],
        forall|p: int| 0 <= p < s.len() ==> (keep(#[trigger] s[p]) <==> from.contains(p)),
    decreases s.len(),
{
    if s.len() == 0 {
        assert(s.filter(keep).len() == 0) by {
            s.lemma_filter_len(keep);
        }
        Seq::empty()
    } else {
        let init = s.drop_last();
        let x = s.last();
        let last = s.len() - 1;
        let old_from = lemma_filter_places(init, keep);
        init.lemma_filter_push(x, keep);
        assert(init.push(x) =~= s);
        let from = if keep(x) {
            old_from.push(last)
        } else {
            old_from
        };
        assert forall|i: int| 0 <= i < from.len() implies 0 <= #[trigger] from[i] < s.len()
            && s.filter(keep)[i] == s[from[i]] by {
            if i < old_from.len() {
                assert(from[i] == old_from[i]);
                assert(init[old_from[i]] == s[from[i]]);
            }
        }
        assert forall|i: int, j: int| 0 <= i < j < from.len() implies #[trigger] from[i]
            < #[trigger] from[j] by {
            assert(from[i] == old_from[i]);
            if j < old_from.len() {
                assert(from[j] == old_from[j]);
            }
        }
        assert forall|p: int| 0 <= p < s.len() implies (keep(#[trigger] s[p]) <==> from.contains(
            p,
        )) by {
            if p < last {
                assert(init[p] == s[p]);
                if old_from.contains(p) {
                    let i = choose|i: int| 0 <= i < old_from.len() && old_from[i] == p;
                    assert(from[i] == p);
                }
                if from.contains(p) {
                    let i = choose|i: int| 0 <= i < from.len() && from[i] == p;
                    assert(old_from[i] == p);
                }
            } else {
                if keep(x) {
                    assert(from[old_from.len() as int] == p);
                } else if from.contains(p) {
                    let i = choose|i: int| 0 <= i < from.len() && from[i] == p;
                    assert(old_from[i] == p);
                }
            }
        }
        from
    }
}

/// Has this entry of a list what a card needs to be shown: a synopsis and a poster path, neither of
/// them blank?
pub open spec fn can_be_shown(hit: HitView) -> bool {
    &&& hit.overview matches Some(o) && text::trim(o).len() > 0
    &&& hit.poster_path matches Some(p) && text::trim(p).len() > 0
}

/// A page adds to a row the entries that can be shown, each with its id, kind, title and year, in
/// the page's order and after the cards already there; the entries that cannot be shown add nothing.
pub proof fn a_page_adds_the_entries_that_can_be_shown(
    walk: WalkView,
    hits: Seq<HitView>,
    table: Map<u32, Seq<char>>,
) -> (from: Seq<int>)
    requires
        hits.len() > 0,
    ensures
        ({
            let cards = walk.after(Some(hits), table).cards;
            let had = walk.cards.len() as int;
            &&& cards.len() == had + from.len()
            &&& forall|i: int| 0 <= i < had ==> #[trigger] cards[i] == walk.cards[i]
            &&& forall|i: int|
                0 <= i < from.len() ==> {
                    let card = cards[had + i];
                    let hit = hits[#[trigger] from[i]];
                    &&& 0 <= from[i] < hits.len()
                    &&& card.tmdbid == Some(hit.tmdbid)
                    &&& card.kind == walk.kind
                    &&& card.title == hit.title
                    &&& card.year == hit.year
                }
            &&& forall|i: int, j: int|
                0 <= i < j < from.len() ==> #[trigger] from[i] < #[trigger] from[j]
            &&& forall|p: int|
                0 <= p < hits.len() ==> (can_be_shown(#[trigger] hits[p]) <==> from.contains(p))
        }),
{
    let all = hits.map_values(|h: HitView| discovery::hit_card(h, walk.kind, table));
    let keep = |c: CardView| c.displayable();
    let from = lemma_filter_places(all, keep);
    let cards = walk.after(Some(hits), table).cards;
    let page = discovery::page_cards(hits, walk.kind, table);
    assert(page == all.filter(keep));
    let had = walk.cards.len() as int;
    assert forall|i: int| 0 <= i < from.len() implies {
        let card = cards[had + i];
        let hit = hits[#[trigger] from[i]];
        &&& 0 <= from[i] < hits.len()
        &&& card.tmdbid == Some(hit.tmdbid)
        &&& card.kind == walk.kind
        &&& card.title == hit.title
        &&& card.year == hit.year
    } by {
        assert(cards[had + i] == page[i]);
        assert(page[i] == all[from[i]]);
    }
    assert forall|p: int| 0 <= p < hits.len() implies (can_be_shown(#[trigger] hits[p])
        <==> from.contains(p)) by {
        let card = discovery::hit_card(hits[p], walk.kind, table);
        assert(all[p] == card);
        assert(keep(all[p]) <==> from.contains(p));
        if let Some(path) = hits[p].poster_path {
            text::trimming_shortens(path);
        }
    }
    from
}

/// A page that did not come, or came empty, ends the row with the cards it has.
pub proof fn a_missing_page_ends_the_row(
    walk: WalkView,
    reply: Option<Seq<HitView>>,
    replies: Seq<Option<Seq<HitView>>>,
    table: Map<u32, Seq<char>>,
)
    requires
        reply matches Some(hits) ==> hits.len() == 0,
    ensures
        !walk.after(reply, table).goes_on(),
        walk.after(reply, table).cards == walk.cards,
        walk.after(reply, table).through(replies, table).row() == walk.row(),
{
}

/// The cards of a row are the first that its pages brought, as many as were asked for.
pub proof fn a_row_is_the_first_cards_its_pages_brought(
    query: QueryView,
    table: Map<u32, Seq<char>>,
    replies: Seq<Option<Seq<HitView>>>,
    max: nat,
)
    ensures
        discovery::row_start(query, table, max) is None ==> discovery::row_cards(
            query,
            table,
            replies,
            max,
        ).len() == 0,
        discovery::row_start(query, table, max) matches Some(walk) ==> {
            let cards = walk.through(replies, table).cards;
            let row = discovery::row_cards(query, table, replies, max);
            &&& walk.cards.len() == 0
            &&& cards.len() <= max ==> row == cards
            &&& cards.len() > max ==> row == cards.subrange(0, max as int)
        },
{
    if let Some(walk) = discovery::row_start(query, table, max) {
        lemma_walk_keeps_its_row(walk, replies, table);
        let cards = walk.through(replies, table).cards;
        if cards.len() > max {
            assert(discovery::row_cards(query, table, replies, max) =~= cards.subrange(
                0,
                max as int,
            ));
        }
    }
}

} // verus!
