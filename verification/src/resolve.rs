//! Resolution: what caches and TMDB replies amount to, and the cards made of them.
//!
//! Reading the cache, waiting for the request budget and calling TMDB happen outside. Each function
//! here takes what such a step came back with, and says what to answer, what to remember and how
//! long to pause.

use std::collections::HashMap;

use vstd::prelude::*;

use crate::card;
use crate::card::{Card, CardSource, CardView};
use crate::consts::CACHED_PRINCIPAL_DEPTH;
use crate::decimal;
use crate::decimal::push_numeral;
use crate::principal;
use crate::principal::{anchor_list, principal_top_n, TmdbMultiItem};
use crate::principal_list;
use crate::principal_list::{decode_principal_list, encode_principal_list, PrincipalEntry};
use crate::text;
use crate::text::{contains_text, is_blank, lowercased, str_eq, trimmed};
use crate::titles;
use crate::titles::title_names;
use crate::tmdb_client;
use crate::tmdb_client::{
    aka_entries, kind_str, poster_list, year_of, HitView, TmdbCall, TmdbExternalIds, TmdbGenre,
    TmdbHit, TmdbKind, TmdbTvDetails,
};

verus! {

// -- titles and genres ----------------------------------------------------------------------

/// The non-blank texts of a list, trimmed; of those equal up to case the first alone.
pub open spec fn first_seen(list: Seq<Seq<char>>) -> Seq<Seq<char>>
    decreases list.len(),
{
    if list.len() == 0 {
        Seq::empty()
    } else {
        let before = first_seen(list.drop_last());
        let t = text::trim(list.last());
        if t.len() > 0 && !lowercases(before).contains(text::lowercase(t)) {
            before.push(t)
        } else {
            before
        }
    }
}

/// Every text of a list in lower case.
pub open spec fn lowercases(list: Seq<Seq<char>>) -> Seq<Seq<char>> {
    list.map_values(|t: Seq<char>| text::lowercase(t))
}

/// Appends a trimmed text with its lower-case key, unless the text is empty or its key is known.
pub fn push_unseen(out: &mut Vec<String>, seen: &mut Vec<String>, title: &str, key: String)
    ensures
        title@.len() > 0 && !text::texts(old(seen)@).contains(key@) ==> text::texts(final(out)@)
            == text::texts(old(out)@).push(title@) && text::texts(final(seen)@) == text::texts(
            old(seen)@,
        ).push(key@),
        !(title@.len() > 0 && !text::texts(old(seen)@).contains(key@)) ==> final(out)@ == old(out)@
            && final(seen)@ == old(seen)@,
{
    if !title.is_empty() && !contains_text(seen, key.as_str()) {
        let ghost k = key@;
        out.push(title.to_owned());
        seen.push(key);
        assert(text::texts(out@) =~= text::texts(old(out)@).push(title@));
        assert(text::texts(seen@) =~= text::texts(old(seen)@).push(k));
    }
}

proof fn lemma_first_seen_step(list: Seq<Seq<char>>, i: int, t: Seq<char>)
    requires
        0 <= i < list.len(),
        list[i] == t,
    ensures
        first_seen(list.take(i + 1)) == if text::trim(t).len() > 0 && !lowercases(
            first_seen(list.take(i)),
        ).contains(text::lowercase(text::trim(t))) {
            first_seen(list.take(i)).push(text::trim(t))
        } else {
            first_seen(list.take(i))
        },
        lowercases(first_seen(list.take(i)).push(text::trim(t))) == lowercases(
            first_seen(list.take(i)),
        ).push(text::lowercase(text::trim(t))),
{
    assert(list.take(i + 1).drop_last() =~= list.take(i));
    assert(list.take(i + 1).last() == t);
    assert(lowercases(first_seen(list.take(i)).push(text::trim(t))) =~= lowercases(
        first_seen(list.take(i)),
    ).push(text::lowercase(text::trim(t))));
}

/// Case-insensitive de-dup preserving first-seen order; titles are trimmed, blank ones dropped.
pub fn dedup_titles(titles: Vec<String>) -> (r: Vec<String>)
    ensures
        text::texts(r@) == first_seen(text::texts(titles@)),
{
    let ghost all = text::texts(titles@);
    let mut out: Vec<String> = Vec::new();
    let mut seen: Vec<String> = Vec::new();
    let mut i: usize = 0;
    assert(text::texts(out@) =~= first_seen(all.take(0)));
    assert(text::texts(seen@) =~= lowercases(first_seen(all.take(0))));
    while i < titles.len()
        invariant
            i <= titles.len(),
            all == text::texts(titles@),
            text::texts(out@) == first_seen(all.take(i as int)),
            text::texts(seen@) == lowercases(first_seen(all.take(i as int))),
        decreases titles.len() - i,
    {
        proof {
            lemma_first_seen_step(all, i as int, titles@[i as int]@);
        }
        let title = trimmed(titles[i].as_str());
        push_unseen(&mut out, &mut seen, title, lowercased(title));
        i = i + 1;
    }
    assert(all.take(titles@.len() as int) =~= all);
    out
}

proof fn lemma_lowercases(list: Seq<Seq<char>>, t: Seq<char>)
    ensures
        lowercases(list.push(t)) == lowercases(list).push(text::lowercase(t)),
{
    assert(lowercases(list.push(t)) =~= lowercases(list).push(text::lowercase(t)));
}

/// De-duplication keeps one of each: no two that it keeps are equal up to case, each is one of the
/// texts given, trimmed and not empty, and for each text given that is not blank it keeps one that
/// is equal up to case.
pub proof fn dedup_keeps_one_of_each(list: Seq<Seq<char>>)
    ensures
        lowercases(first_seen(list)).no_duplicates(),
        forall|k: int|
            0 <= k < first_seen(list).len() ==> (#[trigger] first_seen(list)[k]).len() > 0
                && text::trim(first_seen(list)[k]) == first_seen(list)[k] && exists|i: int|
                0 <= i < list.len() && first_seen(list)[k] == text::trim(#[trigger] list[i]),
        forall|i: int|
            0 <= i < list.len() && text::trim(#[trigger] list[i]).len() > 0 ==> lowercases(
                first_seen(list),
            ).contains(text::lowercase(text::trim(list[i]))),
    decreases list.len(),
{
    let kept = first_seen(list);
    if list.len() > 0 {
        let init = list.drop_last();
        let before = first_seen(init);
        let t = text::trim(list.last());
        dedup_keeps_one_of_each(init);
        lemma_lowercases(before, t);
        text::trimming_is_stable(list.last());
        assert forall|k: int| 0 <= k < kept.len() implies (#[trigger] kept[k]).len() > 0
            && text::trim(kept[k]) == kept[k] && exists|i: int|
            0 <= i < list.len() && kept[k] == text::trim(#[trigger] list[i]) by {
            if k < before.len() {
                assert(kept[k] == before[k]);
                let i = choose|i: int|
                    0 <= i < init.len() && before[k] == text::trim(#[trigger] init[i]);
                assert(list[i] == init[i]);
            } else {
                assert(kept[k] == text::trim(list[list.len() - 1]));
            }
        }
        assert forall|i: int|
            0 <= i < list.len() && text::trim(#[trigger] list[i]).len() > 0 implies lowercases(
            kept,
        ).contains(text::lowercase(text::trim(list[i]))) by {
            let low = text::lowercase(text::trim(list[i]));
            if i < init.len() {
                assert(init[i] == list[i]);
                let k = choose|k: int| 0 <= k < before.len() && lowercases(before)[k] == low;
                assert(lowercases(kept)[k] == low);
            } else if kept.len() > before.len() {
                assert(lowercases(kept)[before.len() as int] == low);
            }
        }
    }
}

/// De-duplicating what was de-duplicated changes nothing.
pub proof fn dedup_is_stable(list: Seq<Seq<char>>)
    ensures
        first_seen(first_seen(list)) == first_seen(list),
    decreases list.len(),
{
    if list.len() > 0 {
        dedup_is_stable(list.drop_last());
        let before = first_seen(list.drop_last());
        let t = text::trim(list.last());
        text::trimming_is_stable(list.last());
        if first_seen(list).len() > before.len() {
            assert(first_seen(list).drop_last() =~= before);
            assert(first_seen(list).last() == t);
        }
    } else {
        assert(first_seen(first_seen(list)) =~= first_seen(list));
    }
}

/// The names of a list of genres.
pub open spec fn genre_texts(genres: Seq<TmdbGenre>) -> Seq<Seq<char>> {
    genres.map_values(|g: TmdbGenre| g.name@)
}

/// Genre display names off a details payload's `{id, name}` array, trimmed and de-duplicated, order
/// preserved.
pub fn genre_names_of(genres: &[TmdbGenre]) -> (r: Vec<String>)
    ensures
        text::texts(r@) == first_seen(genre_texts(genres@)),
{
    let mut names: Vec<String> = Vec::new();
    let mut i: usize = 0;
    assert(text::texts(names@) =~= genre_texts(genres@).take(0));
    while i < genres.len()
        invariant
            i <= genres.len(),
            text::texts(names@) == genre_texts(genres@).take(i as int),
        decreases genres.len() - i,
    {
        let ghost done = text::texts(names@);
        names.push(genres[i].name.clone());
        assert(text::texts(names@) =~= done.push(genres@[i as int].name@));
        assert(genre_texts(genres@).take(i + 1) =~= genre_texts(genres@).take(i as int).push(
            genre_texts(genres@)[i as int],
        ));
        i = i + 1;
    }
    assert(genre_texts(genres@).take(genres@.len() as int) =~= genre_texts(genres@));
    dedup_titles(names)
}

/// A genre table: the names behind its strings.
pub open spec fn table_of(table: HashMap<u32, String>) -> Map<u32, Seq<char>> {
    table@.map_values(|s: String| s@)
}

/// The id-to-name table of a genre list; a blank name is left out, a repeated id takes the last
/// name.
pub open spec fn genre_map(genres: Seq<TmdbGenre>) -> Map<u32, Seq<char>>
    decreases genres.len(),
{
    if genres.len() == 0 {
        Map::empty()
    } else {
        let before = genre_map(genres.drop_last());
        let g = genres.last();
        if text::trim(g.name@).len() > 0 {
            before.insert(g.id, g.name@)
        } else {
            before
        }
    }
}

/// The id-to-name table of a genre list.
pub fn genre_table(genres: &Vec<TmdbGenre>) -> (r: HashMap<u32, String>)
    ensures
        table_of(r) == genre_map(genres@),
{
    broadcast use vstd::std_specs::hash::group_hash_axioms;

    let mut out: HashMap<u32, String> = HashMap::new();
    let mut i: usize = 0;
    assert(table_of(out) =~= genre_map(genres@.take(0)));
    while i < genres.len()
        invariant
            i <= genres.len(),
            table_of(out) == genre_map(genres@.take(i as int)),
        decreases genres.len() - i,
    {
        let ghost now = genres@.take(i + 1);
        assert(now.drop_last() =~= genres@.take(i as int));
        if !is_blank(genres[i].name.as_str()) {
            let ghost before = table_of(out);
            out.insert(genres[i].id, genres[i].name.clone());
            assert(table_of(out) =~= before.insert(genres@[i as int].id, genres@[i as int].name@));
        }
        i = i + 1;
    }
    assert(genres@.take(genres@.len() as int) =~= genres@);
    out
}

/// The table that a fetched genre list makes; a failed fetch makes an empty one.
pub open spec fn fetched_table(fetched: Option<Vec<TmdbGenre>>) -> Map<u32, Seq<char>> {
    match fetched {
        Some(genres) => genre_map(genres@),
        None => Map::empty(),
    }
}

/// The genre tables held for the process lifetime, one per kind. None of them is empty.
pub struct GenreTables {
    movie: Option<HashMap<u32, String>>,
    tv: Option<HashMap<u32, String>>,
}

/// The view of [`GenreTables`].
#[verifier::ext_equal]
pub struct TablesView {
    pub movie: Option<Map<u32, Seq<char>>>,
    pub tv: Option<Map<u32, Seq<char>>>,
}

spec fn held_table(table: Option<HashMap<u32, String>>) -> Option<Map<u32, Seq<char>>> {
    match table {
        Some(t) => Some(table_of(t)),
        None => None,
    }
}

impl View for GenreTables {
    type V = TablesView;

    closed spec fn view(&self) -> TablesView {
        TablesView { movie: held_table(self.movie), tv: held_table(self.tv) }
    }
}

impl TablesView {
    /// The table held for a kind.
    pub open spec fn held(self, kind: TmdbKind) -> Option<Map<u32, Seq<char>>> {
        match kind {
            TmdbKind::Movie => self.movie,
            TmdbKind::Tv => self.tv,
        }
    }

    /// The tables once a genre list of a kind was fetched: a table with an entry is held for that
    /// kind; an empty one is not, so that the next row asks again.
    pub open spec fn after(self, kind: TmdbKind, fetched: Option<Vec<TmdbGenre>>) -> Self {
        let table = fetched_table(fetched);
        if table =~= Map::empty() {
            self
        } else {
            match kind {
                TmdbKind::Movie => TablesView { movie: Some(table), ..self },
                TmdbKind::Tv => TablesView { tv: Some(table), ..self },
            }
        }
    }
}

impl GenreTables {
    #[verifier::type_invariant]
    spec fn none_is_empty(self) -> bool {
        &&& held_table(self.movie) matches Some(t) ==> t != Map::<u32, Seq<char>>::empty()
        &&& held_table(self.tv) matches Some(t) ==> t != Map::<u32, Seq<char>>::empty()
    }

    /// No table yet.
    pub fn new() -> (r: Self)
        ensures
            r@ == (TablesView { movie: None, tv: None }),
    {
        GenreTables { movie: None, tv: None }
    }

    /// The table held for a kind, which answers without asking TMDB; `None` when it is to be asked.
    pub fn get(&self, kind: TmdbKind) -> (r: Option<&HashMap<u32, String>>)
        ensures
            match r {
                Some(t) => self@.held(kind) == Some(table_of(*t)) && table_of(*t) != Map::<
                    u32,
                    Seq<char>,
                >::empty(),
                None => self@.held(kind) is None,
            },
    {
        proof {
            use_type_invariant(self);
        }
        match kind {
            TmdbKind::Movie => self.movie.as_ref(),
            TmdbKind::Tv => self.tv.as_ref(),
        }
    }

    /// The table of a genre list that was fetched for a kind, held when it has an entry. A failed
    /// or empty fetch yields an empty table and leaves the tables as they are; the other kind's is
    /// left alone either way.
    pub fn keep(&mut self, kind: TmdbKind, fetched: Option<Vec<TmdbGenre>>) -> (r: HashMap<
        u32,
        String,
    >)
        ensures
            table_of(r) == fetched_table(fetched),
            final(self)@ == old(self)@.after(kind, fetched),
    {
        broadcast use vstd::std_specs::hash::group_hash_axioms;

        let table = match fetched {
            Some(genres) => genre_table(&genres),
            None => {
                let t: HashMap<u32, String> = HashMap::new();
                assert(table_of(t) =~= Map::empty());
                t
            },
        };
        if table.is_empty() {
            assert(table_of(table) =~= Map::empty());
        } else {
            let copy = table.clone();
            proof {
                use_type_invariant(&*self);
                assert(table_of(copy) =~= table_of(table));
                assert(table_of(table).dom() =~= table@.dom());
                if table_of(table) == Map::<u32, Seq<char>>::empty() {
                    assert(table@.dom() =~= Set::<u32>::empty());
                    assert(table@ =~= Map::<u32, String>::empty());
                }
            }
            match kind {
                TmdbKind::Movie => self.movie = Some(copy),
                TmdbKind::Tv => self.tv = Some(copy),
            }
        }
        table
    }
}

/// Of two calls in a row for one kind, with nothing held for it before: a table with an entry that
/// the first one fetched is held, so that the second is given the same one without asking TMDB; when
/// the first yields an empty table (always so when no permit came in time, the call missed or TMDB
/// limited the rate) nothing is held, and the second asks again. What is held for the other kind
/// never changes.
pub proof fn a_fetched_genre_table_is_reused(
    tables: TablesView,
    kind: TmdbKind,
    other: TmdbKind,
    reply: Option<TmdbCall<Vec<TmdbGenre>>>,
)
    requires
        tables.held(kind) is None,
    ensures
        ({
            let table = fetched_table(called_value(reply));
            let after = tables.after(kind, called_value(reply));
            &&& table != Map::<u32, Seq<char>>::empty() ==> after.held(kind) == Some(table)
            &&& table == Map::<u32, Seq<char>>::empty() ==> after == tables && after.held(
                kind,
            ) is None
            &&& !(reply matches Some(TmdbCall::Hit(_))) ==> table == Map::<u32, Seq<char>>::empty()
            &&& other != kind ==> after.held(other) == tables.held(other)
        }),
{
}

/// The names of the genre ids that a table knows, in order.
pub open spec fn named_genres(ids: Seq<u32>, table: Map<u32, Seq<char>>) -> Seq<Seq<char>>
    decreases ids.len(),
{
    if ids.len() == 0 {
        Seq::empty()
    } else {
        let before = named_genres(ids.drop_last(), table);
        if table.contains_key(ids.last()) {
            before.push(table[ids.last()])
        } else {
            before
        }
    }
}

/// The names of the genre ids that the table knows, in order.
pub fn name_genres(ids: &Vec<u32>, table: &HashMap<u32, String>) -> (r: Vec<String>)
    ensures
        text::texts(r@) == named_genres(ids@, table_of(*table)),
{
    broadcast use vstd::std_specs::hash::group_hash_axioms;

    let mut out: Vec<String> = Vec::new();
    let mut i: usize = 0;
    assert(text::texts(out@) =~= named_genres(ids@.take(0), table_of(*table)));
    while i < ids.len()
        invariant
            i <= ids.len(),
            text::texts(out@) == named_genres(ids@.take(i as int), table_of(*table)),
        decreases ids.len() - i,
    {
        let ghost now = ids@.take(i + 1);
        assert(now.drop_last() =~= ids@.take(i as int));
        if let Some(name) = table.get(&ids[i]) {
            let ghost done = text::texts(out@);
            out.push(name.clone());
            assert(text::texts(out@) =~= done.push(name@));
        }
        i = i + 1;
    }
    assert(ids@.take(ids@.len() as int) =~= ids@);
    out
}

// -- replies and caches ---------------------------------------------------------------------

/// What came of a budgeted call: its value, and the pause (in seconds) to impose on all calls.
pub struct Budgeted<T> {
    pub value: Option<T>,
    pub pause: Option<u64>,
}

/// The value that a budgeted call brought, if it brought one.
pub open spec fn called_value<T>(reply: Option<TmdbCall<T>>) -> Option<T> {
    match reply {
        Some(TmdbCall::Hit(x)) => Some(x),
        _ => None,
    }
}

/// The pause that a budgeted call asks for, in seconds.
pub open spec fn called_pause<T>(reply: Option<TmdbCall<T>>) -> Option<u64> {
    match reply {
        Some(TmdbCall::RateLimited(secs)) => Some(secs),
        _ => None,
    }
}

/// What a budgeted call amounts to. `reply` is `None` when no permit came in time, so that no call
/// was made. A 429 pauses all calls rather than being retried.
pub fn budgeted<T>(reply: Option<TmdbCall<T>>) -> (r: Budgeted<T>)
    ensures
        r.value == called_value(reply),
        r.pause == called_pause(reply),
{
    match reply {
        None => Budgeted { value: None, pause: None },
        Some(TmdbCall::Hit(x)) => Budgeted { value: Some(x), pause: None },
        Some(TmdbCall::Miss) => Budgeted { value: None, pause: None },
        Some(TmdbCall::RateLimited(secs)) => Budgeted { value: None, pause: Some(secs) },
    }
}

/// What a look into the cache leads to.
pub enum CacheStep<T> {
    /// This is the answer; TMDB need not be asked.
    Answer(Option<T>),
    /// Ask TMDB.
    Fetch,
}

/// What cached show details lead to.
pub open spec fn show_step(cached: Option<TmdbTvDetails>) -> CacheStep<TmdbTvDetails> {
    if cached is Some && cached->0.displays() && cached->0.akas_complete() {
        CacheStep::Answer(cached)
    } else {
        CacheStep::Fetch
    }
}

/// What cached show details lead to. `cached` is the entry decoded, if there is one and it decodes.
/// One written before the display fields or the alternative titles' markets existed heals itself
/// with one refetch.
pub fn tv_details_step(cached: Option<TmdbTvDetails>) -> (r: CacheStep<TmdbTvDetails>)
    ensures
        r == show_step(cached),
{
    match cached {
        Some(details) => if details.has_display() && details.has_akas() {
            CacheStep::Answer(Some(details))
        } else {
            CacheStep::Fetch
        },
        None => CacheStep::Fetch,
    }
}

/// Was the hit cached before the markets of its alternative titles were kept?
pub open spec fn predates_markets(hit: HitView) -> bool {
    hit.alt_titles.len() > 0 && hit.akas.len() == 0
}

/// What a cached film leads to: the entry's text, and what it decodes to.
pub open spec fn film_step(cached: Option<(Seq<char>, Option<TmdbHit>)>) -> CacheStep<TmdbHit> {
    match cached {
        Some((json, Some(hit))) => if json != "null"@ && !predates_markets(hit@) {
            CacheStep::Answer(Some(hit))
        } else {
            CacheStep::Fetch
        },
        _ => CacheStep::Fetch,
    }
}

/// What a cached film leads to. `cached` is the entry's text with what it decodes to. The text
/// `null` stands for no film; an entry written before markets were kept is refetched once.
pub fn movie_hit_step(cached: Option<(&str, Option<TmdbHit>)>) -> (r: CacheStep<TmdbHit>)
    ensures
        r == film_step(
            match cached {
                Some((json, hit)) => Some((json@, hit)),
                None => None,
            },
        ),
{
    match cached {
        Some((json, Some(hit))) => {
            assert(hit@.alt_titles.len() == hit.alt_titles@.len());
            assert(hit@.akas.len() == hit.akas@.len());
            let outdated = hit.alt_titles.len() > 0 && hit.akas.len() == 0;
            if !str_eq(json, "null") && !outdated {
                CacheStep::Answer(Some(hit))
            } else {
                CacheStep::Fetch
            }
        },
        _ => CacheStep::Fetch,
    }
}

/// What cached external ids lead to.
pub open spec fn ids_step(cached: Option<Option<TmdbExternalIds>>) -> CacheStep<TmdbExternalIds> {
    match cached {
        Some(ids) => CacheStep::Answer(ids),
        None => CacheStep::Fetch,
    }
}

/// What cached external ids lead to. `cached` is the entry, decoded or not: external ids are
/// immutable, so that an entry is final even when it does not decode.
pub fn external_ids_step(cached: Option<Option<TmdbExternalIds>>) -> (r: CacheStep<
    TmdbExternalIds,
>)
    ensures
        r == ids_step(cached),
{
    match cached {
        Some(ids) => CacheStep::Answer(ids),
        None => CacheStep::Fetch,
    }
}

/// A film resolved from fresh details is never refetched for want of markets.
pub proof fn fresh_films_are_not_refetched(details: crate::tmdb_client::TmdbMovieDetails)
    ensures
        !predates_markets(details.hit()),
{
}

// -- the principal search -------------------------------------------------------------------

/// The cache key of a principal search for up to `n` works; none when there is nothing to look for.
pub open spec fn principal_key_text(query: Seq<char>, n: nat) -> Option<Seq<char>> {
    let key = text::lowercase(text::trim(query));
    if key.len() == 0 || n == 0 {
        None
    } else {
        Some(key)
    }
}

/// The cache key of a principal search for up to `n` works: the query trimmed and in lower case.
/// `None` when there is nothing to look for.
pub fn principal_key(query: &str, n: usize) -> (r: Option<String>)
    ensures
        text::text_of(r) == principal_key_text(query@, n as nat),
{
    let key = lowercased(trimmed(query));
    if key.as_str().is_empty() || n == 0 {
        None
    } else {
        Some(key)
    }
}

fn shortened(list: Vec<(u64, TmdbKind)>, n: usize) -> (r: Vec<(u64, TmdbKind)>)
    ensures
        r@ == principal::first_n(list@, n as nat),
{
    let mut list = list;
    if n < list.len() {
        list.truncate(n);
    }
    list
}

/// The answer to a principal search that is in the cache: the first `n` of what was persisted.
pub open spec fn cached_answer(
    json: Seq<char>,
    parsed: Option<Seq<(u64, Seq<char>)>>,
    n: nat,
) -> Seq<(u64, TmdbKind)> {
    principal::first_n(principal_list::persisted_list(json, parsed), n)
}

/// The answer to a principal search that is in the cache: the first `n` of what was persisted.
/// `parsed` is what a JSON decoder makes of the entry (see [`decode_principal_list`]).
pub fn principal_from_cache(json: &str, parsed: Option<Vec<PrincipalEntry>>, n: usize) -> (r: Vec<
    (u64, TmdbKind),
>)
    ensures
        r@ == cached_answer(json@, principal_list::parsed_of(parsed), n as nat),
{
    shortened(decode_principal_list(json, parsed), n)
}

/// What came of a principal search that was not in the cache.
pub struct PrincipalOutcome {
    /// The works found, most popular first.
    pub answer: Vec<(u64, TmdbKind)>,
    /// The JSON text to persist under the search's key.
    pub persist: Option<String>,
    /// The pause (in seconds) to impose on all calls.
    pub pause: Option<u64>,
}

/// The view of a [`PrincipalOutcome`].
#[verifier::ext_equal]
pub struct PrincipalView {
    pub answer: Seq<(u64, TmdbKind)>,
    pub persist: Option<Seq<char>>,
    pub pause: Option<u64>,
}

impl View for PrincipalOutcome {
    type V = PrincipalView;

    open spec fn view(&self) -> PrincipalView {
        PrincipalView {
            answer: self.answer@,
            persist: text::text_of(self.persist),
            pause: self.pause,
        }
    }
}

/// The ranked works that a search's results are persisted as.
pub open spec fn persisted_works(hits: Seq<TmdbMultiItem>, query: Seq<char>) -> Seq<
    (u64, TmdbKind),
> {
    principal::anchors_of(
        principal::top_results(
            principal::multis_of(hits),
            query,
            CACHED_PRINCIPAL_DEPTH as nat,
        ),
    )
}

/// What a principal search that was not in the cache amounts to.
pub open spec fn principal_outcome(
    reply: Option<TmdbCall<Vec<TmdbMultiItem>>>,
    query: Seq<char>,
    n: nat,
) -> PrincipalView {
    match reply {
        Some(TmdbCall::Hit(hits)) => {
            let ranked = persisted_works(hits@, query);
            PrincipalView {
                answer: principal::first_n(ranked, n),
                persist: Some(principal_list::principal_json(ranked)),
                pause: None,
            }
        },
        Some(TmdbCall::RateLimited(secs)) => PrincipalView {
            answer: Seq::empty(),
            persist: None,
            pause: Some(secs),
        },
        _ => PrincipalView { answer: Seq::empty(), persist: None, pause: None },
    }
}

/// What a principal search that was not in the cache amounts to. `reply` is `None` when no permit
/// came in time. The whole ranked list is persisted, an empty one too (TMDB answered, nothing
/// was relevant); a miss or a rate limit is transient, and nothing is persisted of it.
pub fn principal_from_reply(
    reply: Option<TmdbCall<Vec<TmdbMultiItem>>>,
    query: &str,
    n: usize,
) -> (r: PrincipalOutcome)
    requires
        reply matches Some(TmdbCall::Hit(hits)) ==> principal::popularity_known(hits@),
    ensures
        r@ == principal_outcome(reply, query@, n as nat),
{
    match reply {
        Some(TmdbCall::Hit(hits)) => {
            let ranked = anchor_list(&principal_top_n(&hits, query, CACHED_PRINCIPAL_DEPTH));
            let json = encode_principal_list(ranked.as_slice());
            PrincipalOutcome { answer: shortened(ranked, n), persist: Some(json), pause: None }
        },
        Some(TmdbCall::RateLimited(secs)) => PrincipalOutcome {
            answer: Vec::new(),
            persist: None,
            pause: Some(secs),
        },
        _ => PrincipalOutcome { answer: Vec::new(), persist: None, pause: None },
    }
}

/// A search answered from the cache says what it said when it was fresh, for every number of works
/// asked for, whatever a JSON decoder makes of the entry.
pub proof fn cached_answers_agree_with_fresh_ones(
    hits: Seq<TmdbMultiItem>,
    query: Seq<char>,
    parsed: Option<Seq<(u64, Seq<char>)>>,
    n: nat,
)
    ensures
        principal::first_n(
            principal_list::persisted_list(
                principal_list::principal_json(persisted_works(hits, query)),
                parsed,
            ),
            n,
        ) == principal::first_n(persisted_works(hits, query), n),
{
    principal_list::principal_list_round_trips(persisted_works(hits, query), parsed);
}

// -- cards ----------------------------------------------------------------------------------

/// The source-local id of a work: `"tv:95479"` / `"movie:27205"`.
pub open spec fn source_id_text(kind: TmdbKind, tmdbid: u64) -> Seq<char> {
    tmdb_client::kind_text(kind) + ":"@ + decimal::numeral(tmdbid as nat)
}

/// The source-local id of a work: `"tv:95479"` / `"movie:27205"`.
pub fn source_id_of(kind: TmdbKind, tmdbid: u64) -> (r: String)
    ensures
        r@ == source_id_text(kind, tmdbid),
{
    let mut id = kind_str(kind).to_owned();
    id.append(":");
    push_numeral(&mut id, tmdbid);
    id
}

fn unless_empty(t: &Option<String>) -> (r: Option<String>)
    ensures
        text::text_of(r) == card::non_empty(text::text_of(*t)),
{
    match t {
        Some(s) => if s.as_str().is_empty() {
            None
        } else {
            Some(s.clone())
        },
        None => None,
    }
}

fn borrowed(t: &Option<String>) -> (r: Option<&str>)
    ensures
        match r {
            Some(s) => text::text_of(*t) == Some(s@),
            None => text::text_of(*t) is None,
        },
{
    match t {
        Some(s) => Some(s.as_str()),
        None => None,
    }
}

/// The IMDb id among external ids.
pub open spec fn imdb_in(ext: Option<TmdbExternalIds>) -> Option<Seq<char>> {
    match ext {
        Some(ids) => text::text_of(ids.imdb_id),
        None => None,
    }
}

/// The TheTVDB id among external ids.
pub open spec fn tvdb_in(ext: Option<TmdbExternalIds>) -> Option<i64> {
    match ext {
        Some(ids) => ids.tvdb_id,
        None => None,
    }
}

/// The card of a show: its details plus the cross-source id bag.
pub open spec fn tv_card_view(
    tmdbid: u64,
    ext: Option<TmdbExternalIds>,
    details: TmdbTvDetails,
) -> CardView {
    CardView {
        source: CardSource::Tmdb,
        kind: TmdbKind::Tv,
        source_id: source_id_text(TmdbKind::Tv, tmdbid),
        tmdbid: Some(tmdbid),
        tvdb_id: tvdb_in(ext),
        imdb_id: imdb_in(ext),
        title: details.name@,
        guard_titles: first_seen(details.guards()),
        names: titles::work_names(
            details.name@,
            text::text_of(details.original_name),
            text::text_of(details.original_language),
            tmdb_client::akas_in(details.alternative_titles),
        ),
        overview: card::non_empty(text::text_of(details.overview)),
        poster_path: card::non_empty(text::text_of(details.poster_path)),
        genres: first_seen(genre_texts(details.genres@)),
        year: tmdb_client::leading_year(text::text_of(details.first_air_date)),
        seasons: card::clamped_seasons(details.number_of_seasons),
        season_summaries: details.seasons@,
        posters: tmdb_client::posters_in(details.images),
    }
}

/// The card of a show.
pub fn tv_card(tmdbid: u64, ext: Option<TmdbExternalIds>, details: &TmdbTvDetails) -> (r: Card)
    ensures
        r@ == tv_card_view(tmdbid, ext, *details),
{
    let akas = aka_entries(&details.alternative_titles);
    let names = title_names(
        details.name.as_str(),
        borrowed(&details.original_name),
        borrowed(&details.original_language),
        akas.as_slice(),
    );
    let (tvdb_id, imdb_id) = match ext {
        Some(ids) => (ids.tvdb_id, ids.imdb_id),
        None => (None, None),
    };
    let mut season_summaries: Vec<crate::tmdb_client::TmdbSeasonSummary> = Vec::new();
    let mut i: usize = 0;
    while i < details.seasons.len()
        invariant
            i <= details.seasons.len(),
            season_summaries@ == details.seasons@.take(i as int),
        decreases details.seasons.len() - i,
    {
        season_summaries.push(details.seasons[i]);
        i = i + 1;
    }
    Card {
        source: CardSource::Tmdb,
        kind: TmdbKind::Tv,
        source_id: source_id_of(TmdbKind::Tv, tmdbid),
        tmdbid: Some(tmdbid),
        tvdb_id,
        imdb_id,
        title: details.name.clone(),
        guard_titles: dedup_titles(details.guard_titles()),
        names,
        overview: unless_empty(&details.overview),
        poster_path: unless_empty(&details.poster_path),
        genres: genre_names_of(details.genres.as_slice()),
        year: year_of(&details.first_air_date),
        seasons: Card::clamp_seasons(details.number_of_seasons),
        season_summaries,
        posters: poster_list(&details.images),
    }
}

/// The title, the original title and the alternative titles of a hit.
pub open spec fn hit_titles(hit: HitView) -> Seq<Seq<char>> {
    tmdb_client::and_text(seq![hit.title], hit.original_title) + hit.alt_titles
}

/// The title, the original title and the alternative titles of a hit.
pub fn titles_of_hit(hit: &TmdbHit) -> (r: Vec<String>)
    ensures
        text::texts(r@) == hit_titles(hit@),
{
    let mut out: Vec<String> = Vec::new();
    out.push(hit.title.clone());
    if let Some(o) = &hit.original_title {
        out.push(o.clone());
    }
    let ghost named = text::texts(out@);
    assert(named =~= tmdb_client::and_text(seq![hit@.title], hit@.original_title));
    let mut more = text::clone_texts(&hit.alt_titles);
    out.append(&mut more);
    assert(text::texts(out@) =~= named + hit@.alt_titles);
    out
}

/// The names of a hit.
pub open spec fn hit_names(hit: HitView) -> Seq<(Seq<char>, Seq<char>)> {
    titles::work_names(hit.title, hit.original_title, hit.original_language, hit.akas)
}

/// The names of a hit.
pub fn names_of_hit(hit: &TmdbHit) -> (r: Vec<(&'static str, String)>)
    ensures
        titles::names_of(r@) == hit_names(hit@),
{
    title_names(
        hit.title.as_str(),
        borrowed(&hit.original_title),
        borrowed(&hit.original_language),
        hit.akas.as_slice(),
    )
}

/// The card of a film: its details plus the cross-source id bag. The hit keeps genres as bare ids,
/// which `table` names.
pub open spec fn movie_card_view(
    tmdbid: u64,
    ext: Option<TmdbExternalIds>,
    hit: HitView,
    table: Map<u32, Seq<char>>,
) -> CardView {
    CardView {
        source: CardSource::Tmdb,
        kind: TmdbKind::Movie,
        source_id: source_id_text(TmdbKind::Movie, tmdbid),
        tmdbid: Some(tmdbid),
        tvdb_id: None,
        imdb_id: imdb_in(ext),
        title: hit.title,
        guard_titles: first_seen(hit_titles(hit)),
        names: hit_names(hit),
        overview: card::non_empty(hit.overview),
        poster_path: card::non_empty(hit.poster_path),
        genres: named_genres(hit.genre_ids, table),
        year: hit.year,
        seasons: 0,
        season_summaries: Seq::empty(),
        posters: hit.posters,
    }
}

/// The card of a film.
pub fn movie_card(
    tmdbid: u64,
    ext: Option<TmdbExternalIds>,
    hit: TmdbHit,
    table: &HashMap<u32, String>,
) -> (r: Card)
    ensures
        r@ == movie_card_view(tmdbid, ext, hit@, table_of(*table)),
{
    let guard_titles = dedup_titles(titles_of_hit(&hit));
    let names = names_of_hit(&hit);
    let genres = name_genres(&hit.genre_ids, table);
    let imdb_id = match ext {
        Some(ids) => ids.imdb_id,
        None => None,
    };
    let overview = unless_empty(&hit.overview);
    let poster_path = unless_empty(&hit.poster_path);
    Card {
        source: CardSource::Tmdb,
        kind: TmdbKind::Movie,
        source_id: source_id_of(TmdbKind::Movie, tmdbid),
        tmdbid: Some(tmdbid),
        tvdb_id: None,
        imdb_id,
        title: hit.title,
        guard_titles,
        names,
        overview,
        poster_path,
        genres,
        year: hit.year,
        seasons: 0,
        season_summaries: Vec::new(),
        posters: hit.posters,
    }
}

/// What TMDB knows of a work, by its kind; `None` inside when the by-id lookup failed.
pub enum WorkDetails {
    Tv(Option<TmdbTvDetails>),
    Movie(Option<TmdbHit>, HashMap<u32, String>),
}

/// The card of a work, from what TMDB knows of it.
pub open spec fn work_card(
    tmdbid: u64,
    ext: Option<TmdbExternalIds>,
    details: WorkDetails,
) -> Option<CardView> {
    match details {
        WorkDetails::Tv(Some(d)) => Some(tv_card_view(tmdbid, ext, d)),
        WorkDetails::Movie(Some(hit), table) => Some(
            movie_card_view(tmdbid, ext, hit@, table_of(table)),
        ),
        _ => None,
    }
}

/// Resolves one work into a full [`Card`]: details plus the cross-source id bag. `None` when the
/// by-id lookup failed; missing external ids only thin the bag.
pub fn card_by_id(tmdbid: u64, ext: Option<TmdbExternalIds>, details: WorkDetails) -> (r: Option<
    Card,
>)
    ensures
        match r {
            Some(c) => work_card(tmdbid, ext, details) == Some(c@),
            None => work_card(tmdbid, ext, details) is None,
        },
{
    match details {
        WorkDetails::Tv(Some(d)) => Some(tv_card(tmdbid, ext, &d)),
        WorkDetails::Movie(Some(hit), table) => Some(movie_card(tmdbid, ext, hit, &table)),
        _ => None,
    }
}

/// The cards found among a list of lookups, in order.
pub open spec fn found_cards(lookups: Seq<Option<Card>>) -> Seq<Card>
    decreases lookups.len(),
{
    if lookups.len() == 0 {
        Seq::empty()
    } else {
        let before = found_cards(lookups.drop_last());
        match lookups.last() {
            Some(c) => before.push(c),
            None => before,
        }
    }
}

/// Free text to cards: the works of the principal search, each looked up by id; a failed lookup is
/// skipped, the order kept.
pub fn cards_for_text(lookups: Vec<Option<Card>>) -> (r: Vec<Card>)
    ensures
        r@ == found_cards(lookups@),
        r@.len() <= lookups@.len(),
{
    let ghost all = lookups@;
    let mut out: Vec<Card> = Vec::new();
    for lookup in it: lookups
        invariant
            it.seq() == all,
            out@ == found_cards(all.take(it.index())),
            out@.len() <= it.index(),
    {
        let ghost k: int = it.index();
        assert(all.take(k + 1).drop_last() =~= all.take(k));
        if let Some(c) = lookup {
            out.push(c);
        }
    }
    assert(all.take(all.len() as int) =~= all);
    out
}

} // verus!
