//! Keyword-less catalog discovery: TMDB's popular, trending and top-rated lists as [`Card`]s.
//!
//! The card tier's *browse* surface: a home page cannot ask "what should I show?" through a text
//! query. The intent of such a query is carried by its filters alone: a **mode** (`popular:true`,
//! `trending:true`, `top_rated:true`), a **kind** (`contentKind`), perhaps `anime:true` and
//! `genres`. A catalog list carries all that a renderable card needs, so that a row costs one TMDB
//! call per page and no look-ups by id.

use std::collections::HashMap;

use vstd::prelude::*;

use crate::card;
use crate::card::{Card, CardSource, CardView};
use crate::consts::{
    DISCOVERY_EXCLUDED_KEYWORDS, DISCOVERY_MAX_PAGES, DISCOVERY_MIN_VOTES,
    DISCOVERY_TOP_RATED_MIN_VOTES,
};
use crate::decimal;
use crate::decimal::{push_numeral, unsigned_text};
use crate::query::{GatewayQuery, QueryView};
use crate::resolve;
use crate::resolve::{dedup_titles, name_genres, names_of_hit, source_id_of, titles_of_hit};
use crate::text;
use crate::text::{
    char_lowercase, chars_of, contains_text, is_blank, str_eq, to_ascii_lowercase, trimmed,
};
use crate::tmdb_client;
use crate::tmdb_client::{kind_str, HitView, TmdbHit, TmdbKind};
use crate::words;
use crate::words::join_texts;

verus! {

/// TMDB keyword id for "anime". `/discover` is the only catalog endpoint that takes a keyword
/// filter, which is why `anime:true` switches endpoints.
pub const TMDB_ANIME_KEYWORD: &'static str = "210024";

/// Results TMDB returns per catalog page.
pub const TMDB_PAGE_SIZE: usize = 20;

// -- the dialect ----------------------------------------------------------------------------

/// The catalog-list flavour a discovery query asks for.
#[derive(Clone, Copy, PartialEq, Eq, Debug, Structural)]
pub enum DiscoveryMode {
    Popular,
    Trending,
    TopRated,
}

/// The filter key that selects a mode.
pub open spec fn marker_text(mode: DiscoveryMode) -> Seq<char> {
    match mode {
        DiscoveryMode::Popular => "popular"@,
        DiscoveryMode::Trending => "trending"@,
        DiscoveryMode::TopRated => "top_rated"@,
    }
}

/// The `sort_by` value of a mode.
pub open spec fn sort_text(mode: DiscoveryMode) -> Seq<char> {
    match mode {
        DiscoveryMode::TopRated => "vote_average.desc"@,
        _ => "popularity.desc"@,
    }
}

impl DiscoveryMode {
    /// The filter key that selects this mode. [`Card::to_record`] echoes it onto every record, so
    /// that the record survives the re-filtering on the way out.
    pub fn marker(self) -> (r: &'static str)
        ensures
            r@ == marker_text(self),
    {
        match self {
            DiscoveryMode::Popular => "popular",
            DiscoveryMode::Trending => "trending",
            DiscoveryMode::TopRated => "top_rated",
        }
    }

    /// `sort_by` value for the `/discover` path, which has no "trending": trending approximates to
    /// popularity there.
    pub fn discover_sort(self) -> (r: &'static str)
        ensures
            r@ == sort_text(self),
    {
        match self {
            DiscoveryMode::TopRated => "vote_average.desc",
            DiscoveryMode::Popular | DiscoveryMode::Trending => "popularity.desc",
        }
    }
}

/// The kind of work a `contentKind` value asks for.
pub open spec fn kind_of_value(value: Seq<char>) -> Option<TmdbKind> {
    let v = text::ascii_lowercase(text::trim(value));
    if v == "movie"@ {
        Some(TmdbKind::Movie)
    } else if v == "series"@ || v == "episode"@ || v == "tvshow"@ || v == "tv"@ {
        Some(TmdbKind::Tv)
    } else {
        None
    }
}

/// The kind that the first value with one asks for.
pub open spec fn first_kind(values: Seq<Seq<char>>) -> Option<TmdbKind>
    decreases values.len(),
{
    if values.len() == 0 {
        None
    } else if kind_of_value(values[0]) is Some {
        kind_of_value(values[0])
    } else {
        first_kind(values.skip(1))
    }
}

/// A genre label folded for comparison: its alphanumerics, in lower case.
pub open spec fn folded(s: Seq<char>) -> Seq<char>
    decreases s.len(),
{
    if s.len() == 0 {
        Seq::empty()
    } else {
        let before = folded(s.drop_last());
        if text::is_alphanumeric(s.last()) {
            before + text::lowercase_char(s.last())
        } else {
            before
        }
    }
}

/// The folded labels that are not empty, in order.
pub open spec fn folded_labels(values: Seq<Seq<char>>) -> Seq<Seq<char>>
    decreases values.len(),
{
    if values.len() == 0 {
        Seq::empty()
    } else {
        let before = folded_labels(values.drop_last());
        if folded(values.last()).len() > 0 {
            before.push(folded(values.last()))
        } else {
            before
        }
    }
}

impl QueryView {
    /// The first mode whose marker is truthy: trending, then popular, then top-rated.
    pub open spec fn mode(self) -> Option<DiscoveryMode> {
        if self.is_true("trending"@) {
            Some(DiscoveryMode::Trending)
        } else if self.is_true("popular"@) {
            Some(DiscoveryMode::Popular)
        } else if self.is_true("top_rated"@) {
            Some(DiscoveryMode::TopRated)
        } else {
            None
        }
    }

    /// A keyword-less catalog query: no free text, no explicit id, a mode.
    pub open spec fn is_discovery(self) -> bool {
        text::trim(self.free_text).len() == 0 && !self.filters.contains_key("tmdbid"@)
            && self.mode() is Some
    }

    /// The kind of work the query asks for.
    pub open spec fn row_kind(self) -> Option<TmdbKind> {
        first_kind(self.values("contentKind"@))
    }

    /// The genres the query asks for, folded.
    pub open spec fn wanted_genres(self) -> Seq<Seq<char>> {
        folded_labels(self.values("genres"@))
    }
}

/// Is this a keyword-less catalog query? Free text belongs to the principal search, an explicit
/// `tmdbid:` to the look-up by id; `contentKind` alone does not make a catalog query.
pub fn is_discovery_query(query: &GatewayQuery) -> (r: bool)
    ensures
        r == query@.is_discovery(),
{
    query.has_no_text() && !query.filters.contains_key("tmdbid") && discovery_mode(query).is_some()
}

/// First truthy mode marker on the query, in precedence order.
pub fn discovery_mode(query: &GatewayQuery) -> (r: Option<DiscoveryMode>)
    ensures
        r == query@.mode(),
{
    if filter_is_true(query, DiscoveryMode::Trending.marker()) {
        Some(DiscoveryMode::Trending)
    } else if filter_is_true(query, DiscoveryMode::Popular.marker()) {
        Some(DiscoveryMode::Popular)
    } else if filter_is_true(query, DiscoveryMode::TopRated.marker()) {
        Some(DiscoveryMode::TopRated)
    } else {
        None
    }
}

/// Does the filter `key` carry a truthy value?
pub fn filter_is_true(query: &GatewayQuery, key: &str) -> (r: bool)
    ensures
        r == query@.is_true(key@),
{
    query.is_true(key)
}

fn kind_from_value(value: &str) -> (r: Option<TmdbKind>)
    ensures
        r == kind_of_value(value@),
{
    let v = to_ascii_lowercase(trimmed(value));
    let v = v.as_str();
    if str_eq(v, "movie") {
        Some(TmdbKind::Movie)
    } else if str_eq(v, "series") || str_eq(v, "episode") || str_eq(v, "tvshow") || str_eq(v, "tv") {
        Some(TmdbKind::Tv)
    } else {
        None
    }
}

/// The query's `contentKind` as a kind of work. `series` is the canonical spelling for a card;
/// `episode`, `tvshow` and `tv` are accepted too.
pub fn discovery_kind(query: &GatewayQuery) -> (r: Option<TmdbKind>)
    ensures
        r == query@.row_kind(),
{
    match query.values("contentKind") {
        Some(values) => {
            let ghost all = query@.values("contentKind"@);
            let mut i: usize = 0;
            assert(all.skip(0) =~= all);
            while i < values.len()
                invariant
                    i <= values.len(),
                    all == text::texts(values@),
                    all == query@.values("contentKind"@),
                    first_kind(all) == first_kind(all.skip(i as int)),
                decreases values.len() - i,
            {
                assert(all.skip(i as int)[0] == values@[i as int]@);
                assert(all.skip(i as int).skip(1) =~= all.skip(i + 1));
                if let Some(kind) = kind_from_value(values[i].as_str()) {
                    return Some(kind);
                }
                i = i + 1;
            }
            None
        },
        None => None,
    }
}

/// Folds a genre label for comparison: lower case, alphanumerics only.
pub fn genre_fold(s: &str) -> (r: String)
    ensures
        r@ == folded(s@),
{
    let chars = chars_of(s);
    let mut out = String::new();
    let mut i: usize = 0;
    assert(out@ =~= folded(s@.take(0)));
    while i < chars.len()
        invariant
            i <= chars.len(),
            chars@ == s@,
            out@ == folded(s@.take(i as int)),
        decreases chars.len() - i,
    {
        let ghost now = s@.take(i + 1);
        assert(now.drop_last() =~= s@.take(i as int));
        let c = chars[i];
        if c.is_alphanumeric() {
            let ghost before = out@;
            let lower = char_lowercase(c);
            let mut k: usize = 0;
            while k < lower.len()
                invariant
                    k <= lower.len(),
                    out@ == before + lower@.take(k as int),
                decreases lower.len() - k,
            {
                out.push(lower[k]);
                assert(lower@.take(k + 1) =~= lower@.take(k as int).push(lower@[k as int]));
                k = k + 1;
            }
            assert(lower@.take(lower@.len() as int) =~= lower@);
        }
        i = i + 1;
    }
    assert(s@.take(s@.len() as int) =~= s@);
    out
}

/// The genres a `genres:` filter asks for, folded for comparison. Several values mean any of them.
pub fn requested_genres(query: &GatewayQuery) -> (r: Vec<String>)
    ensures
        text::texts(r@) == query@.wanted_genres(),
{
    let mut out: Vec<String> = Vec::new();
    assert(text::texts(out@) =~= Seq::empty());
    if let Some(values) = query.values("genres") {
        let ghost all = query@.values("genres"@);
        let mut i: usize = 0;
        while i < values.len()
            invariant
                i <= values.len(),
                all == text::texts(values@),
                text::texts(out@) == folded_labels(all.take(i as int)),
            decreases values.len() - i,
        {
            let ghost now = all.take(i + 1);
            assert(now.drop_last() =~= all.take(i as int));
            assert(now.last() == values@[i as int]@);
            let label = genre_fold(values[i].as_str());
            if !label.as_str().is_empty() {
                let ghost done = text::texts(out@);
                let ghost l = label@;
                out.push(label);
                assert(text::texts(out@) =~= done.push(l));
            }
            i = i + 1;
        }
        assert(all.take(values@.len() as int) =~= all);
    }
    out
}

/// Does a genre table name this id by one of the wanted labels?
pub open spec fn is_wanted(id: u32, wanted: Seq<Seq<char>>, table: Map<u32, Seq<char>>) -> bool {
    table.contains_key(id) && wanted.contains(folded(table[id]))
}

/// Is `ids` the wanted genre ids of a table, in ascending order?
pub open spec fn are_wanted_ids(
    ids: Seq<u32>,
    wanted: Seq<Seq<char>>,
    table: Map<u32, Seq<char>>,
) -> bool {
    &&& forall|i: int, j: int| 0 <= i < j < ids.len() ==> ids[i] < ids[j]
    &&& forall|id: u32| #[trigger] ids.contains(id) <==> is_wanted(id, wanted, table)
}

/// The wanted genre ids of a table, in ascending order.
pub open spec fn wanted_ids(wanted: Seq<Seq<char>>, table: Map<u32, Seq<char>>) -> Seq<u32> {
    choose|ids: Seq<u32>| are_wanted_ids(ids, wanted, table)
}

proof fn lemma_ascending_lists_agree(a: Seq<u32>, b: Seq<u32>)
    requires
        forall|i: int, j: int| 0 <= i < j < a.len() ==> a[i] < a[j],
        forall|i: int, j: int| 0 <= i < j < b.len() ==> b[i] < b[j],
        forall|x: u32| #[trigger] a.contains(x) <==> b.contains(x),
    ensures
        a == b,
    decreases a.len(),
{
    if a.len() == 0 {
        if b.len() > 0 {
            assert(b.contains(b[0]));
            assert(a.contains(b[0]));
        }
        assert(a =~= b);
    } else {
        assert(a.contains(a.last()));
        let i = choose|i: int| 0 <= i < b.len() && b[i] == a.last();
        assert(b.contains(b.last()));
        assert(a.contains(b.last()));
        let j = choose|j: int| 0 <= j < a.len() && a[j] == b.last();
        assert(a.last() == b.last());
        let (c, d) = (a.drop_last(), b.drop_last());
        assert forall|x: u32| #[trigger] c.contains(x) <==> d.contains(x) by {
            if c.contains(x) {
                let k = choose|k: int| 0 <= k < c.len() && c[k] == x;
                assert(a[k] == x);
                assert(a.contains(x));
                let m = choose|m: int| 0 <= m < b.len() && b[m] == x;
                assert(d[m] == x);
            }
            if d.contains(x) {
                let k = choose|k: int| 0 <= k < d.len() && d[k] == x;
                assert(b[k] == x);
                assert(a.contains(x));
                let m = choose|m: int| 0 <= m < a.len() && a[m] == x;
                assert(c[m] == x);
            }
        }
        lemma_ascending_lists_agree(c, d);
        assert(a =~= c.push(a.last()));
        assert(b =~= d.push(b.last()));
    }
}

/// A table and a list of labels leave one list of wanted ids.
pub proof fn wanted_ids_are_unique(
    ids: Seq<u32>,
    wanted: Seq<Seq<char>>,
    table: Map<u32, Seq<char>>,
)
    requires
        are_wanted_ids(ids, wanted, table),
    ensures
        ids == wanted_ids(wanted, table),
{
    let chosen = wanted_ids(wanted, table);
    assert(are_wanted_ids(chosen, wanted, table));
    assert forall|x: u32| #[trigger] ids.contains(x) <==> chosen.contains(x) by {
        assert(is_wanted(x, wanted, table) <==> ids.contains(x));
        assert(is_wanted(x, wanted, table) <==> chosen.contains(x));
    }
    lemma_ascending_lists_agree(ids, chosen);
}

fn place_id(ids: &mut Vec<u32>, id: u32)
    requires
        forall|i: int, j: int| 0 <= i < j < old(ids)@.len() ==> old(ids)@[i] < old(ids)@[j],
        !old(ids)@.contains(id),
    ensures
        forall|i: int, j: int| 0 <= i < j < final(ids)@.len() ==> final(ids)@[i] < final(ids)@[j],
        forall|x: u32| #[trigger]
            final(ids)@.contains(x) <==> old(ids)@.contains(x) || x == id,
{
    let mut at: usize = 0;
    while at < ids.len() && ids[at] < id
        invariant
            at <= ids.len(),
            ids@ == old(ids)@,
            forall|k: int| 0 <= k < at ==> ids@[k] < id,
        decreases ids.len() - at,
    {
        at = at + 1;
    }
    let ghost was = ids@;
    assert(at < was.len() ==> was[at as int] != id);
    ids.insert(at, id);
    proof {
        assert forall|x: u32| #[trigger] ids@.contains(x) <==> was.contains(x) || x == id by {
            if was.contains(x) {
                let k = choose|k: int| 0 <= k < was.len() && was[k] == x;
                if k < at {
                    assert(ids@[k] == x);
                } else {
                    assert(ids@[k + 1] == x);
                }
            }
            if x == id {
                assert(ids@[at as int] == x);
            }
            if ids@.contains(x) {
                let k = choose|k: int| 0 <= k < ids@.len() && ids@[k] == x;
                if k < at {
                    assert(was[k] == x);
                } else if k > at {
                    assert(was[k - 1] == x);
                }
            }
        }
    }
}

/// The TMDB genre ids that the wanted labels name, ascending. Unknown labels are dropped.
pub fn with_genres_ids(wanted: &Vec<String>, names: &HashMap<u32, String>) -> (r: Vec<u32>)
    ensures
        are_wanted_ids(r@, text::texts(wanted@), resolve::table_of(*names)),
        r@ == wanted_ids(text::texts(wanted@), resolve::table_of(*names)),
{
    broadcast use vstd::std_specs::hash::group_hash_axioms;

    let ghost table = resolve::table_of(*names);
    let ghost labels = text::texts(wanted@);
    let mut ids: Vec<u32> = Vec::new();
    for (id, name) in it: names.iter()
        invariant
            table == resolve::table_of(*names),
            labels == text::texts(wanted@),
            it.seq().no_duplicates(),
            forall|i: int|
                0 <= i < it.seq().len() ==> names@.contains_key(*(#[trigger] it.seq()[i]).0)
                    && names@[*it.seq()[i].0] == *it.seq()[i].1,
            forall|k: u32| #[trigger]
                names@.contains_key(k) ==> it.seq().contains((&k, &names@[k])),
            forall|i: int, j: int| 0 <= i < j < ids@.len() ==> ids@[i] < ids@[j],
            forall|x: u32| #[trigger]
                ids@.contains(x) <==> is_wanted(x, labels, table) && exists|i: int|
                    0 <= i < it.index() && *(#[trigger] it.seq()[i]).0 == x,
    {
        let ghost k: int = it.index();
        let ghost before = ids@;
        assert(*it.seq()[k].0 == *id && *it.seq()[k].1 == *name);
        assert(table.contains_key(*id) && table[*id] == name@);
        assert(!before.contains(*id)) by {
            if before.contains(*id) {
                let i = choose|i: int| 0 <= i < k && *(#[trigger] it.seq()[i]).0 == *id;
                assert(it.seq()[i] == it.seq()[k]);
            }
        }
        if contains_text(wanted, genre_fold(name.as_str()).as_str()) {
            place_id(&mut ids, *id);
        }
    }
    assert forall|x: u32| #[trigger] ids@.contains(x) <==> is_wanted(x, labels, table) by {
        if is_wanted(x, labels, table) {
            assert(names@.contains_key(x));
        }
    }
    proof {
        wanted_ids_are_unique(ids@, labels, table);
    }
    ids
}

// -- catalog pages --------------------------------------------------------------------------

/// Genre ids in decimal.
pub open spec fn id_texts(ids: Seq<u32>) -> Seq<Seq<char>> {
    ids.map_values(|id: u32| decimal::numeral(id as nat))
}

/// The vote floor of a mode. Sorting by rating would put a single top vote first, so that top-rated
/// floors higher.
pub open spec fn vote_floor(mode: DiscoveryMode) -> u32 {
    match mode {
        DiscoveryMode::TopRated => DISCOVERY_TOP_RATED_MIN_VOTES,
        _ => DISCOVERY_MIN_VOTES,
    }
}

/// The keyword parameter that narrows a row to anime.
pub open spec fn keyword_parameter(anime: bool) -> Seq<char> {
    if anime {
        "with_keywords="@ + TMDB_ANIME_KEYWORD@ + "&"@
    } else {
        Seq::empty()
    }
}

/// The genre parameter: any of the ids.
pub open spec fn genre_parameter(ids: Seq<u32>) -> Seq<char> {
    if ids.len() == 0 {
        Seq::empty()
    } else {
        "with_genres="@ + words::join(id_texts(ids), "%7C"@) + "&"@
    }
}

/// What keeps adult productions out of a row: the flag, the excluded keywords, the vote floor.
pub open spec fn adult_gate(mode: DiscoveryMode) -> Seq<char> {
    "&include_adult=false"@ + "&without_keywords="@ + DISCOVERY_EXCLUDED_KEYWORDS@
        + "&vote_count.gte="@ + decimal::numeral(vote_floor(mode) as nat)
}

/// Is this the one row that has a list endpoint of its own, which takes no parameters?
pub open spec fn is_plain_trending(mode: DiscoveryMode, anime: bool, ids: Seq<u32>) -> bool {
    mode == DiscoveryMode::Trending && !anime && ids.len() == 0
}

/// The path and query of a catalog page.
pub open spec fn page_path(
    mode: DiscoveryMode,
    kind: TmdbKind,
    anime: bool,
    ids: Seq<u32>,
    page: u32,
) -> Seq<char> {
    let number = decimal::numeral(page as nat);
    if is_plain_trending(mode, anime, ids) {
        "trending/"@ + tmdb_client::kind_text(kind) + "/week?page="@ + number
    } else {
        "discover/"@ + tmdb_client::kind_text(kind) + "?"@ + keyword_parameter(anime)
            + genre_parameter(ids) + "sort_by="@ + sort_text(mode) + adult_gate(mode) + "&page="@
            + number
    }
}

fn joined_ids(ids: &[u32]) -> (r: String)
    ensures
        r@ == words::join(id_texts(ids@), "%7C"@),
{
    let ghost all = id_texts(ids@);
    let mut parts: Vec<String> = Vec::new();
    let mut i: usize = 0;
    assert(text::texts(parts@) =~= all.take(0));
    while i < ids.len()
        invariant
            i <= ids.len(),
            all == id_texts(ids@),
            text::texts(parts@) == all.take(i as int),
        decreases ids.len() - i,
    {
        let ghost done = text::texts(parts@);
        let part = unsigned_text(ids[i] as u64);
        let ghost p = part@;
        parts.push(part);
        assert(text::texts(parts@) =~= done.push(p));
        assert(all.take(i + 1) =~= all.take(i as int).push(all[i as int]));
        i = i + 1;
    }
    assert(all.take(ids@.len() as int) =~= all);
    join_texts(&parts, "%7C")
}

/// The path and query of a catalog page, from the mode, the kind, the anime flag, the requested
/// genre ids and the 1-based page.
///
/// Plain trending keeps TMDB's own `/trending` list: a signal with no sort order to stand for it,
/// on an endpoint that takes no filter. Every other row goes through `/discover`, and carries the
/// adult gate.
pub fn build_path_and_query(
    mode: DiscoveryMode,
    kind: TmdbKind,
    anime: bool,
    genre_ids: &[u32],
    page: u32,
) -> (r: String)
    ensures
        r@ == page_path(mode, kind, anime, genre_ids@, page),
{
    let trending = match mode {
        DiscoveryMode::Trending => true,
        _ => false,
    };
    if trending && !anime && genre_ids.len() == 0 {
        let mut path = "trending/".to_owned();
        path.append(kind_str(kind));
        path.append("/week?page=");
        push_numeral(&mut path, page as u64);
        return path;
    }
    let mut path = "discover/".to_owned();
    path.append(kind_str(kind));
    path.append("?");
    let ghost start = path@;
    if anime {
        path.append("with_keywords=");
        path.append(TMDB_ANIME_KEYWORD);
        path.append("&");
    }
    assert(path@ =~= start + keyword_parameter(anime));
    let ghost keyed = path@;
    if genre_ids.len() > 0 {
        path.append("with_genres=");
        path.append(joined_ids(genre_ids).as_str());
        path.append("&");
    }
    assert(path@ =~= keyed + genre_parameter(genre_ids@));
    path.append("sort_by=");
    path.append(mode.discover_sort());
    let ghost sorted = path@;
    path.append("&include_adult=false");
    path.append("&without_keywords=");
    path.append(DISCOVERY_EXCLUDED_KEYWORDS);
    path.append("&vote_count.gte=");
    let votes: u32 = match mode {
        DiscoveryMode::TopRated => DISCOVERY_TOP_RATED_MIN_VOTES,
        _ => DISCOVERY_MIN_VOTES,
    };
    push_numeral(&mut path, votes as u64);
    assert(path@ =~= sorted + adult_gate(mode));
    path.append("&page=");
    push_numeral(&mut path, page as u64);
    path
}

// -- catalog cards --------------------------------------------------------------------------

/// A text, unless it is blank.
pub open spec fn unless_blank(t: Option<Seq<char>>) -> Option<Seq<char>> {
    if t is Some && text::trim(t->0).len() > 0 {
        t
    } else {
        None
    }
}

fn kept_unless_blank(t: &Option<String>) -> (r: Option<String>)
    ensures
        text::text_of(r) == unless_blank(text::text_of(*t)),
{
    match t {
        Some(s) => if is_blank(s.as_str()) {
            None
        } else {
            Some(s.clone())
        },
        None => None,
    }
}

/// The card of a catalog hit.
pub open spec fn hit_card(hit: HitView, kind: TmdbKind, table: Map<u32, Seq<char>>) -> CardView {
    CardView {
        source: CardSource::Tmdb,
        kind,
        source_id: resolve::source_id_text(kind, hit.tmdbid),
        tmdbid: Some(hit.tmdbid),
        tvdb_id: None,
        imdb_id: None,
        title: hit.title,
        guard_titles: resolve::first_seen(resolve::hit_titles(hit)),
        names: resolve::hit_names(hit),
        overview: unless_blank(hit.overview),
        poster_path: unless_blank(hit.poster_path),
        genres: resolve::named_genres(hit.genre_ids, table),
        year: hit.year,
        seasons: 0,
        season_summaries: Seq::empty(),
        posters: Seq::empty(),
    }
}

/// Projects one catalog hit into a [`Card`], with no further call. A list carries no external ids,
/// so that the id bag holds the `tmdbid` alone, no season structure, and no poster candidates.
pub fn card_from_hit(hit: &TmdbHit, kind: TmdbKind, genres: &HashMap<u32, String>) -> (r: Card)
    ensures
        r@ == hit_card(hit@, kind, resolve::table_of(*genres)),
{
    let r = Card {
        source: CardSource::Tmdb,
        kind,
        source_id: source_id_of(kind, hit.tmdbid),
        tmdbid: Some(hit.tmdbid),
        tvdb_id: None,
        imdb_id: None,
        title: hit.title.clone(),
        guard_titles: dedup_titles(titles_of_hit(hit)),
        names: names_of_hit(hit),
        overview: kept_unless_blank(&hit.overview),
        poster_path: kept_unless_blank(&hit.poster_path),
        genres: name_genres(&hit.genre_ids, genres),
        year: hit.year,
        seasons: 0,
        season_summaries: Vec::new(),
        posters: Vec::new(),
    };
    assert(r@.posters =~= Seq::empty());
    r
}

/// The displayable cards of a catalog page, in order.
pub open spec fn page_cards(
    hits: Seq<HitView>,
    kind: TmdbKind,
    table: Map<u32, Seq<char>>,
) -> Seq<CardView> {
    hits.map_values(|h: HitView| hit_card(h, kind, table)).filter(|c: CardView| c.displayable())
}

proof fn lemma_filter_step<A>(s: Seq<A>, i: int, keep: spec_fn(A) -> bool)
    requires
        0 <= i < s.len(),
    ensures
        s.take(i + 1).filter(keep) == if keep(s[i]) {
            s.take(i).filter(keep).push(s[i])
        } else {
            s.take(i).filter(keep)
        },
{
    assert(s.take(i + 1) =~= s.take(i).push(s[i]));
    s.take(i).lemma_filter_push(s[i], keep);
}

fn displayable_cards(hits: &Vec<TmdbHit>, kind: TmdbKind, genres: &HashMap<u32, String>) -> (r: Vec<
    Card,
>)
    ensures
        card::cards_of(r@) == page_cards(
            tmdb_client::hits_of(hits@),
            kind,
            resolve::table_of(*genres),
        ),
{
    let ghost table = resolve::table_of(*genres);
    let ghost all = tmdb_client::hits_of(hits@).map_values(|h: HitView| hit_card(h, kind, table));
    let ghost keep = |c: CardView| c.displayable();
    let mut out: Vec<Card> = Vec::new();
    let mut i: usize = 0;
    assert(all.take(0) =~= Seq::empty());
    assert(all.take(0).filter(keep) =~= Seq::empty()) by {
        reveal(Seq::filter);
    }
    assert(card::cards_of(out@) =~= all.take(0).filter(keep));
    while i < hits.len()
        invariant
            i <= hits.len(),
            table == resolve::table_of(*genres),
            all == tmdb_client::hits_of(hits@).map_values(|h: HitView| hit_card(h, kind, table)),
            keep == (|c: CardView| c.displayable()),
            card::cards_of(out@) == all.take(i as int).filter(keep),
        decreases hits.len() - i,
    {
        proof {
            lemma_filter_step(all, i as int, keep);
        }
        let c = card_from_hit(&hits[i], kind, genres);
        assert(all[i as int] == c@);
        if c.is_displayable() {
            let ghost done = card::cards_of(out@);
            let ghost v = c@;
            out.push(c);
            assert(card::cards_of(out@) =~= done.push(v));
        }
        i = i + 1;
    }
    assert(all.take(hits@.len() as int) =~= all);
    out
}

// -- rows -----------------------------------------------------------------------------------

/// How many catalog pages a row of up to `max` cards may walk: what the cards fill, at least one,
/// plus one page of headroom for entries that are not displayable, up to the ceiling.
pub open spec fn row_pages(max: nat) -> nat {
    let filled = (max + TMDB_PAGE_SIZE - 1) / TMDB_PAGE_SIZE as int;
    let pages = if filled < 1 {
        2
    } else {
        filled + 1
    };
    if pages < DISCOVERY_MAX_PAGES {
        pages as nat
    } else {
        DISCOVERY_MAX_PAGES as nat
    }
}

fn pages_for(max_results: usize) -> (r: u32)
    ensures
        r == row_pages(max_results as nat),
        1 <= r <= DISCOVERY_MAX_PAGES,
{
    if max_results > 60 {
        DISCOVERY_MAX_PAGES
    } else if max_results > 40 {
        4
    } else if max_results > 20 {
        3
    } else {
        2
    }
}

/// A walk over the pages of a catalog row: what the row is, how far the walk has come, and the
/// displayable cards met so far.
pub struct RowWalk {
    mode: DiscoveryMode,
    kind: TmdbKind,
    anime: bool,
    genre_ids: Vec<u32>,
    max_results: usize,
    next: u32,
    stopped: bool,
    cards: Vec<Card>,
}

/// The view of a [`RowWalk`].
#[verifier::ext_equal]
pub struct WalkView {
    pub mode: DiscoveryMode,
    pub kind: TmdbKind,
    pub anime: bool,
    pub genre_ids: Seq<u32>,
    pub max: nat,
    pub next: nat,
    pub stopped: bool,
    pub cards: Seq<CardView>,
}

impl View for RowWalk {
    type V = WalkView;

    closed spec fn view(&self) -> WalkView {
        WalkView {
            mode: self.mode,
            kind: self.kind,
            anime: self.anime,
            genre_ids: self.genre_ids@,
            max: self.max_results as nat,
            next: self.next as nat,
            stopped: self.stopped,
            cards: card::cards_of(self.cards@),
        }
    }
}

impl WalkView {
    /// Is there a page to ask for? Not once the walk was stopped, the pages are used up, or there
    /// are cards enough.
    pub open spec fn goes_on(self) -> bool {
        !self.stopped && self.next <= row_pages(self.max) && self.cards.len() < self.max
    }

    /// The page to ask for.
    pub open spec fn request(self) -> Seq<char> {
        page_path(self.mode, self.kind, self.anime, self.genre_ids, self.next as u32)
    }

    /// The walk once a page was answered. No answer and an empty page stop it.
    pub open spec fn after(self, reply: Option<Seq<HitView>>, table: Map<u32, Seq<char>>) -> Self {
        if reply is Some && reply->0.len() > 0 {
            WalkView {
                next: self.next + 1,
                cards: self.cards + page_cards(reply->0, self.kind, table),
                ..self
            }
        } else {
            WalkView { stopped: true, ..self }
        }
    }

    /// The walk once it was answered page by page, as long as it asked.
    pub open spec fn through(
        self,
        replies: Seq<Option<Seq<HitView>>>,
        table: Map<u32, Seq<char>>,
    ) -> Self
        decreases replies.len(),
    {
        if replies.len() == 0 || !self.goes_on() {
            self
        } else {
            self.after(replies[0], table).through(replies.skip(1), table)
        }
    }

    /// The row: the first cards met, no more than were asked for.
    pub open spec fn row(self) -> Seq<CardView> {
        crate::principal::first_n(self.cards, self.max)
    }
}

/// The start of the walk for a query; none when the row stays empty without a page being asked for:
/// no mode, no kind, or genres none of which the table has.
pub open spec fn row_start(query: QueryView, table: Map<u32, Seq<char>>, max: nat) -> Option<
    WalkView,
> {
    let ids = wanted_ids(query.wanted_genres(), table);
    if query.mode() is Some && query.row_kind() is Some && !(query.wanted_genres().len() > 0
        && ids.len() == 0) {
        Some(
            WalkView {
                mode: query.mode()->0,
                kind: query.row_kind()->0,
                anime: query.is_true("anime"@),
                genre_ids: ids,
                max,
                next: 1,
                stopped: false,
                cards: Seq::empty(),
            },
        )
    } else {
        None
    }
}

/// What a page was answered with, by its view.
pub open spec fn reply_view(reply: Option<Vec<TmdbHit>>) -> Option<Seq<HitView>> {
    match reply {
        Some(hits) => Some(tmdb_client::hits_of(hits@)),
        None => None,
    }
}

/// The views of a list of replies.
pub open spec fn reply_views(replies: Seq<Option<Vec<TmdbHit>>>) -> Seq<Option<Seq<HitView>>> {
    replies.map_values(|r: Option<Vec<TmdbHit>>| reply_view(r))
}

impl RowWalk {
    #[verifier::type_invariant]
    spec fn within_its_pages(self) -> bool {
        1 <= self.next <= row_pages(self.max_results as nat) + 1
    }

    /// The start of the walk for `query`, with the genre table of its kind. `None` leaves the row
    /// empty: an unfiltered page would fill it with the wrong thing.
    pub fn start(query: &GatewayQuery, genres: &HashMap<u32, String>, max_results: usize) -> (r:
        Option<Self>)
        ensures
            match r {
                Some(walk) => row_start(query@, resolve::table_of(*genres), max_results as nat)
                    == Some(walk@),
                None => row_start(query@, resolve::table_of(*genres), max_results as nat) is None,
            },
    {
        match (discovery_mode(query), discovery_kind(query)) {
            (Some(mode), Some(kind)) => {
                let wanted = requested_genres(query);
                assert(text::texts(wanted@).len() == wanted@.len());
                let genre_ids = with_genres_ids(&wanted, genres);
                if wanted.len() > 0 && genre_ids.len() == 0 {
                    return None;
                }
                let walk = RowWalk {
                    mode,
                    kind,
                    anime: filter_is_true(query, "anime"),
                    genre_ids,
                    max_results,
                    next: 1,
                    stopped: false,
                    cards: Vec::new(),
                };
                assert(walk@.cards =~= Seq::empty());
                Some(walk)
            },
            _ => None,
        }
    }

    /// The path and query of the page to ask for next; `None` when the walk is over.
    pub fn request(&self) -> (r: Option<String>)
        ensures
            match r {
                Some(path) => self@.goes_on() && path@ == self@.request(),
                None => !self@.goes_on(),
            },
    {
        proof {
            use_type_invariant(self);
        }
        assert(self@.cards.len() == self.cards@.len());
        if !self.stopped && self.next <= pages_for(self.max_results) && self.cards.len() < self.max_results {
            Some(
                build_path_and_query(
                    self.mode,
                    self.kind,
                    self.anime,
                    self.genre_ids.as_slice(),
                    self.next,
                ),
            )
        } else {
            None
        }
    }

    /// The walk once the page it asked for was answered. `reply` is `None` when the budget was
    /// exhausted, TMDB limited the rate, or the call missed: the row keeps what it has.
    pub fn answered(self, reply: Option<Vec<TmdbHit>>, genres: &HashMap<u32, String>) -> (r: Self)
        requires
            self@.goes_on(),
        ensures
            r@ == self@.after(reply_view(reply), resolve::table_of(*genres)),
    {
        proof {
            use_type_invariant(&self);
        }
        let ghost before = self@;
        let mut stopped = true;
        let mut next: u32 = self.next;
        let mut cards = self.cards;
        if let Some(hits) = reply {
            assert(tmdb_client::hits_of(hits@).len() == hits@.len());
            if hits.len() > 0 {
                let mut more = displayable_cards(&hits, self.kind, genres);
                let ghost page = card::cards_of(more@);
                cards.append(&mut more);
                assert(card::cards_of(cards@) =~= before.cards + page);
                next = next + 1;
                stopped = false;
            }
        }
        RowWalk {
            mode: self.mode,
            kind: self.kind,
            anime: self.anime,
            genre_ids: self.genre_ids,
            max_results: self.max_results,
            next,
            stopped,
            cards,
        }
    }

    /// The cards of the row.
    pub fn into_cards(self) -> (r: Vec<Card>)
        ensures
            card::cards_of(r@) == self@.row(),
    {
        let ghost all = self@.cards;
        let max_results: usize = self.max_results;
        let mut cards = self.cards;
        assert(all.len() == cards@.len());
        if max_results < cards.len() {
            cards.truncate(max_results);
            assert(card::cards_of(cards@) =~= all.take(max_results as int));
        }
        cards
    }
}

/// The row of a query, from what its pages were answered with.
pub open spec fn row_cards(
    query: QueryView,
    table: Map<u32, Seq<char>>,
    replies: Seq<Option<Seq<HitView>>>,
    max: nat,
) -> Seq<CardView> {
    match row_start(query, table, max) {
        Some(walk) => walk.through(replies, table).row(),
        None => Seq::empty(),
    }
}

/// Resolves a keyword-less catalog query to up to `max_results` cards, walking pages until the cap
/// is reached or a page comes back empty or not at all. `replies` answers the pages in order.
/// Never an error: an empty row is the failure mode.
pub fn cards_for_discovery(
    query: &GatewayQuery,
    genres: &HashMap<u32, String>,
    replies: Vec<Option<Vec<TmdbHit>>>,
    max_results: usize,
) -> (r: Vec<Card>)
    ensures
        card::cards_of(r@) == row_cards(
            query@,
            resolve::table_of(*genres),
            reply_views(replies@),
            max_results as nat,
        ),
{
    let ghost table = resolve::table_of(*genres);
    let ghost all = reply_views(replies@);
    match RowWalk::start(query, genres, max_results) {
        Some(start) => {
            let ghost end = start@.through(all, table);
            let mut walk = start;
            assert(all.skip(0) =~= all);
            for reply in it: replies
                invariant
                    it.seq() == replies@,
                    all == reply_views(replies@),
                    table == resolve::table_of(*genres),
                    end == walk@.through(all.skip(it.index()), table),
            {
                let ghost k: int = it.index();
                assert(all.skip(k)[0] == reply_view(reply));
                assert(all.skip(k).skip(1) =~= all.skip(k + 1));
                if walk.request().is_some() {
                    walk = walk.answered(reply, genres);
                }
            }
            walk.into_cards()
        },
        None => {
            let none: Vec<Card> = Vec::new();
            assert(card::cards_of(none@) =~= Seq::empty());
            none
        },
    }
}

// -- laws of rows ---------------------------------------------------------------------------

/// Does `part` stand somewhere in `s`?
pub open spec fn holds_part(s: Seq<char>, part: Seq<char>) -> bool {
    exists|before: Seq<char>, after: Seq<char>| s == #[trigger] (before + part + after)
}

/// Every row but plain trending goes through `/discover` and carries the adult gate; plain trending
/// keeps TMDB's own list. An anime row and a row narrowed to genres are therefore always gated.
pub proof fn rows_are_gated(
    mode: DiscoveryMode,
    kind: TmdbKind,
    anime: bool,
    ids: Seq<u32>,
    page: u32,
)
    ensures
        !is_plain_trending(mode, anime, ids) ==> {
            &&& ("discover/"@ + tmdb_client::kind_text(kind) + "?"@).is_prefix_of(
                page_path(mode, kind, anime, ids, page),
            )
            &&& holds_part(page_path(mode, kind, anime, ids, page), adult_gate(mode))
        },
        anime || ids.len() > 0 || mode != DiscoveryMode::Trending ==> !is_plain_trending(
            mode,
            anime,
            ids,
        ),
        anime ==> holds_part(page_path(mode, kind, anime, ids, page), keyword_parameter(true)),
        ids.len() > 0 ==> holds_part(page_path(mode, kind, anime, ids, page), genre_parameter(ids)),
{
    let path = page_path(mode, kind, anime, ids, page);
    if !is_plain_trending(mode, anime, ids) {
        let start = "discover/"@ + tmdb_client::kind_text(kind) + "?"@;
        let keyword = keyword_parameter(anime);
        let genres = genre_parameter(ids);
        let sort = "sort_by="@ + sort_text(mode);
        let gate = adult_gate(mode);
        let end = "&page="@ + decimal::numeral(page as nat);
        assert(path =~= (start + keyword + genres + sort) + gate + end);
        assert(path =~= start + keyword + (genres + sort + gate + end));
        assert(path =~= (start + keyword) + genres + (sort + gate + end));
        assert(start =~= path.subrange(0, start.len() as int));
    }
}

/// A row that asks for genres none of which exist for its kind is left empty, without a page being
/// asked for.
pub proof fn unknown_genres_leave_the_row_empty(
    query: QueryView,
    table: Map<u32, Seq<char>>,
    replies: Seq<Option<Seq<HitView>>>,
    max: nat,
)
    requires
        query.wanted_genres().len() > 0,
        forall|id: u32| !#[trigger] is_wanted(id, query.wanted_genres(), table),
    ensures
        row_start(query, table, max) is None,
        row_cards(query, table, replies, max).len() == 0,
{
    let none = Seq::<u32>::empty();
    assert(are_wanted_ids(none, query.wanted_genres(), table));
    wanted_ids_are_unique(none, query.wanted_genres(), table);
}

/// Does the walk hold nothing but displayable cards of its kind, within its pages?
pub open spec fn is_sound_walk(walk: WalkView) -> bool {
    &&& 1 <= walk.next <= row_pages(walk.max) + 1
    &&& forall|i: int|
        0 <= i < walk.cards.len() ==> (#[trigger] walk.cards[i]).displayable() && walk.cards[i].kind
            == walk.kind
}

proof fn lemma_sound_step(
    walk: WalkView,
    reply: Option<Seq<HitView>>,
    table: Map<u32, Seq<char>>,
)
    requires
        is_sound_walk(walk),
        walk.goes_on(),
    ensures
        is_sound_walk(walk.after(reply, table)),
        walk.after(reply, table).max == walk.max,
        walk.after(reply, table).kind == walk.kind,
{
    if reply is Some && reply->0.len() > 0 {
        let all = reply->0.map_values(|h: HitView| hit_card(h, walk.kind, table));
        let keep = |c: CardView| c.displayable();
        let page = page_cards(reply->0, walk.kind, table);
        assert forall|i: int| 0 <= i < page.len() implies (#[trigger] page[i]).displayable()
            && page[i].kind == walk.kind by {
            all.lemma_filter_contains_rev(keep, page[i]);
            let k = choose|k: int| 0 <= k < all.len() && all[k] == page[i];
        }
        let now = walk.after(reply, table);
        assert forall|i: int| 0 <= i < now.cards.len() implies (
        #[trigger] now.cards[i]).displayable() && now.cards[i].kind == now.kind by {
            if i < walk.cards.len() {
                assert(now.cards[i] == walk.cards[i]);
            } else {
                assert(now.cards[i] == page[i - walk.cards.len()]);
            }
        }
    }
}

proof fn lemma_sound_walk(
    walk: WalkView,
    replies: Seq<Option<Seq<HitView>>>,
    table: Map<u32, Seq<char>>,
)
    requires
        is_sound_walk(walk),
    ensures
        is_sound_walk(walk.through(replies, table)),
        walk.through(replies, table).max == walk.max,
        walk.through(replies, table).kind == walk.kind,
    decreases replies.len(),
{
    if replies.len() > 0 && walk.goes_on() {
        lemma_sound_step(walk, replies[0], table);
        lemma_sound_walk(walk.after(replies[0], table), replies.skip(1), table);
    }
}

/// Whatever its pages are answered with, a row holds no more cards than were asked for, all of them
/// displayable and of the kind asked for.
pub proof fn rows_are_short_and_displayable(
    query: QueryView,
    table: Map<u32, Seq<char>>,
    replies: Seq<Option<Seq<HitView>>>,
    max: nat,
)
    ensures
        row_cards(query, table, replies, max).len() <= max,
        forall|i: int|
            0 <= i < row_cards(query, table, replies, max).len() ==> (#[trigger] row_cards(
                query,
                table,
                replies,
                max,
            )[i]).displayable() && Some(row_cards(query, table, replies, max)[i].kind)
                == query.row_kind(),
{
    if let Some(walk) = row_start(query, table, max) {
        lemma_sound_walk(walk, replies, table);
        let end = walk.through(replies, table);
        let row = row_cards(query, table, replies, max);
        assert forall|i: int| 0 <= i < row.len() implies (#[trigger] row[i]).displayable() && Some(
            row[i].kind,
        ) == query.row_kind() by {
            assert(row[i] == end.cards[i]);
        }
    }
}

/// Whatever its pages are answered with, a row asks for its pages in order, and for no more of them
/// than the ceiling allows.
pub proof fn rows_ask_for_few_pages(
    query: QueryView,
    table: Map<u32, Seq<char>>,
    replies: Seq<Option<Seq<HitView>>>,
    max: nat,
)
    ensures
        row_start(query, table, max) matches Some(walk) ==> {
            let now = walk.through(replies, table);
            &&& walk.next == 1
            &&& now.goes_on() ==> now.next <= DISCOVERY_MAX_PAGES && now.next == replies.len() + 1
        },
        replies.len() >= DISCOVERY_MAX_PAGES ==> (row_start(query, table, max) matches Some(walk)
            ==> !walk.through(replies, table).goes_on()),
{
    if let Some(walk) = row_start(query, table, max) {
        lemma_sound_walk(walk, replies, table);
        lemma_walk_counts(walk, replies, table);
    }
}

proof fn lemma_walk_counts(
    walk: WalkView,
    replies: Seq<Option<Seq<HitView>>>,
    table: Map<u32, Seq<char>>,
)
    ensures
        walk.through(replies, table).goes_on() ==> walk.through(replies, table).next == walk.next
            + replies.len(),
    decreases replies.len(),
{
    if replies.len() > 0 && walk.goes_on() {
        lemma_walk_counts(walk.after(replies[0], table), replies.skip(1), table);
    }
}

} // verus!
