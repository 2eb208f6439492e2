//! How the plugin is configured and what it answers, said of the config and of the query.

use vstd::prelude::*;

use crate::card;
use crate::card::{CardView, LinksView};
use crate::decimal;
use crate::query::QueryView;
use crate::row_laws;
use crate::text;
use crate::tmdb;
use crate::tmdb::{ErrorView, PlanView, TmdbCardPlugin, TmdbConfig};
use crate::tmdb_client::{TmdbKind, TmdbTvDetails};

verus! {

// -- configuration --------------------------------------------------------------------------

/// A plugin with a token that is not blank is ready, with the token trimmed; one without is left as
/// it was. It talks to TMDB's own servers unless it was given others.
pub proof fn a_token_makes_the_plugin_ready(now: TmdbCardPlugin, was: TmdbCardPlugin)
    requires
        tmdb::is_configured(now, was),
    ensures
        text::trim(was.config.tmdb_token@).len() == 0 ==> now.resolver == was.resolver,
        text::trim(was.config.tmdb_token@).len() > 0 ==> {
            let client = now.resolver->0.client;
            &&& now.resolver is Some
            &&& client.bearer_token@ == text::trim(was.config.tmdb_token@)
            &&& was.api_bases is None ==> client.api_base@ == "https://api.themoviedb.org/3"@
                && client.image_base@ == "https://image.tmdb.org/t/p"@
            &&& was.api_bases matches Some((api, image)) ==> client.api_base@ == api@
                && client.image_base@ == image@
        },
        now.config == was.config,
        now.api_bases == was.api_bases,
{
}

/// Is this the bit pattern of a number above zero, infinity included?
pub open spec fn is_above_zero(bits: u64) -> bool {
    0 < bits <= 0x7ff0_0000_0000_0000
}

/// Rate, burst and the number of cards are what the config says where it says something above zero;
/// else twenty a second, a burst of twenty, and ten cards.
pub proof fn settings_above_zero_count(now: TmdbCardPlugin, was: TmdbCardPlugin)
    requires
        tmdb::is_configured(now, was),
    ensures
        ({
            let config = was.config;
            let ready = text::trim(config.tmdb_token@).len() > 0;
            let twenty: u64 = 0x4034_0000_0000_0000;
            &&& ready ==> now.resolver->0.rate_per_sec == if config.tmdb_rate_per_sec is Some
                && is_above_zero(config.tmdb_rate_per_sec->0) {
                config.tmdb_rate_per_sec->0
            } else {
                twenty
            }
            &&& ready ==> now.resolver->0.burst == if config.tmdb_burst is Some && is_above_zero(
                config.tmdb_burst->0,
            ) {
                config.tmdb_burst->0
            } else {
                twenty
            }
            &&& now.top_n == if config.card_top_n is Some && config.card_top_n->0 > 0 {
                config.card_top_n->0
            } else {
                10
            }
        }),
{
}

/// What the config file states wins, and what it leaves out stays: each setting on its own.
pub proof fn a_file_changes_only_what_it_states(
    now: TmdbConfig,
    was: TmdbConfig,
    file: TmdbConfig,
)
    requires
        tmdb::is_overlaid(now, was, file),
    ensures
        text::trim(file.tmdb_token@).len() > 0 ==> now.tmdb_token@ == file.tmdb_token@,
        text::trim(file.tmdb_token@).len() == 0 ==> now.tmdb_token@ == was.tmdb_token@,
        file.tmdb_rate_per_sec is Some ==> now.tmdb_rate_per_sec == file.tmdb_rate_per_sec,
        file.tmdb_rate_per_sec is None ==> now.tmdb_rate_per_sec == was.tmdb_rate_per_sec,
        file.tmdb_burst is Some ==> now.tmdb_burst == file.tmdb_burst,
        file.tmdb_burst is None ==> now.tmdb_burst == was.tmdb_burst,
        file.card_top_n is Some ==> now.card_top_n == file.card_top_n,
        file.card_top_n is None ==> now.card_top_n == was.card_top_n,
{
}

/// A number of cards is read from its numeral, whatever the number; anything with a character that
/// is no digit after its first is no number.
pub proof fn a_count_is_read_from_its_numeral(s: Option<Seq<char>>, n: usize)
    ensures
        s == Some(decimal::numeral(n as nat)) ==> tmdb::count_named(s) == Some(n),
        s is None || s->0.len() == 0 ==> tmdb::count_named(s) is None,
        s matches Some(t) ==> (exists|i: int|
            1 <= i < t.len() && !('0' <= #[trigger] t[i] && t[i] <= '9')) ==> tmdb::count_named(
            s,
        ) is None,
{
    decimal::lemma_unsigned_value_of_numeral(n as nat, usize::MAX as nat);
    if let Some(t) = s {
        lemma_no_number(t, usize::MAX as nat);
    }
}

proof fn lemma_no_number(t: Seq<char>, max: nat)
    ensures
        t.len() == 0 ==> decimal::unsigned_value(t, max) is None,
        (exists|i: int| 1 <= i < t.len() && !('0' <= #[trigger] t[i] && t[i] <= '9'))
            ==> decimal::unsigned_value(t, max) is None,
        t.len() > 0 && t[0] != '+' && !('0' <= t[0] && t[0] <= '9') ==> decimal::unsigned_value(
            t,
            max,
        ) is None,
{
    let body = decimal::without_plus(t);
    if exists|i: int| 1 <= i < t.len() && !('0' <= #[trigger] t[i] && t[i] <= '9') {
        let i = choose|i: int| 1 <= i < t.len() && !('0' <= #[trigger] t[i] && t[i] <= '9');
        if t[0] == '+' {
            assert(body[i - 1] == t[i]);
            assert(!text::ascii_digit(body[i - 1]));
        } else {
            assert(!text::ascii_digit(body[i]));
        }
    }
    if t.len() > 0 && t[0] != '+' && !('0' <= t[0] && t[0] <= '9') {
        assert(!text::ascii_digit(body[0]));
    }
}

// -- queries --------------------------------------------------------------------------------

/// Does the query carry the filter `key`, with `value` as its first value?
pub open spec fn leads_with(query: QueryView, key: Seq<char>, value: Seq<char>) -> bool {
    query.filters.contains_key(key) && query.filters[key].len() > 0 && query.filters[key][0]
        == value
}

/// A query that is not admitted, and any query to a plugin that is not ready, is answered with
/// nothing.
pub proof fn an_unready_plugin_answers_nothing(
    plugin: TmdbCardPlugin,
    query: QueryView,
    accepted: bool,
    max: usize,
)
    requires
        !accepted || plugin.resolver is None,
    ensures
        tmdb::plan_of(plugin, query, accepted, max) == PlanView::Nothing,
{
}

/// A query whose first `tmdbid` is a number, whatever whitespace surrounds it, is answered with that
/// work, whatever else the query holds; film or show as its first `contentKind` spells, and left
/// open otherwise.
pub proof fn an_explicit_id_is_looked_up(
    plugin: TmdbCardPlugin,
    query: QueryView,
    max: usize,
    id: u64,
    value: Seq<char>,
)
    requires
        plugin.resolver is Some,
        leads_with(query, "tmdbid"@, value),
        text::trim(value) == decimal::numeral(id as nat),
    ensures
        tmdb::plan_of(plugin, query, true, max) matches PlanView::ById(found, kind) && found == id
            && {
            &&& leads_with(query, "contentKind"@, "movie"@) ==> kind == Some(TmdbKind::Movie)
            &&& leads_with(query, "contentKind"@, "series"@) || leads_with(
                query,
                "contentKind"@,
                "episode"@,
            ) || leads_with(query, "contentKind"@, "tvshow"@) ==> kind == Some(TmdbKind::Tv)
            &&& !leads_with(query, "contentKind"@, "movie"@) && !leads_with(
                query,
                "contentKind"@,
                "series"@,
            ) && !leads_with(query, "contentKind"@, "episode"@) && !leads_with(
                query,
                "contentKind"@,
                "tvshow"@,
            ) ==> kind is None
        },
{
    decimal::lemma_unsigned_value_of_numeral(id as nat, u64::MAX as nat);
    reveal_strlit("movie");
    reveal_strlit("series");
    reveal_strlit("episode");
    reveal_strlit("tvshow");
    assert("movie"@.len() == 5 && "series"@.len() == 6 && "episode"@.len() == 7 && "tvshow"@.len()
        == 6);
}

/// Is the first `tmdbid` of the query, trimmed, no number: absent, empty, or with a character that
/// is no digit?
pub open spec fn has_no_id(query: QueryView) -> bool {
    query.filters.contains_key("tmdbid"@) && query.filters["tmdbid"@].len() > 0 ==> {
        let t = text::trim(query.filters["tmdbid"@][0]);
        ||| t.len() == 0
        ||| exists|i: int| 1 <= i < t.len() && !('0' <= #[trigger] t[i] && t[i] <= '9')
        ||| t[0] != '+' && !('0' <= t[0] && t[0] <= '9')
    }
}

/// Of queries without an id: one that browses is answered with a row of twenty cards at the most,
/// and one with a visible text with a search for it, trimmed, for as many works at the most as are
/// configured; never more than the query asks for, which is one at the least. Any other is answered
/// with nothing.
pub proof fn a_query_without_an_id_browses_or_searches(
    plugin: TmdbCardPlugin,
    query: QueryView,
    max: usize,
)
    requires
        plugin.resolver is Some,
        has_no_id(query),
    ensures
        ({
            let plan = tmdb::plan_of(plugin, query, true, max);
            let listed = row_laws::asks(query, "trending"@) || row_laws::asks(query, "popular"@)
                || row_laws::asks(query, "top_rated"@);
            let blank = text::trim(query.free_text).len() == 0;
            let asked = if max == 0 {
                1
            } else {
                max as int
            };
            &&& blank && listed && !query.filters.contains_key("tmdbid"@) ==> (plan matches
                PlanView::Discovery(n) && n <= 20 && n <= asked && (n == 20 || n == asked))
            &&& !blank ==> (plan matches PlanView::FreeText(t, n) && t == text::trim(
                query.free_text,
            ) && n <= plugin.top_n && n <= asked && (n == plugin.top_n || n == asked))
            &&& blank && (!listed || query.filters.contains_key("tmdbid"@)) ==> plan
                == PlanView::Nothing
        }),
{
    row_laws::browsing_takes_a_list_and_nothing_to_look_for(query);
    text::blank_texts_trim_to_nothing(query.free_text);
    if let Some(v) = query.first("tmdbid"@) {
        let t = text::trim(v);
        assert(v == query.filters["tmdbid"@][0]);
        lemma_no_number(t, u64::MAX as nat);
    }
}

/// An id of unknown kind is a show exactly when its probed details have a season; a stated kind
/// holds.
pub proof fn an_id_with_seasons_is_a_show(
    stated: TmdbKind,
    probed: Option<TmdbTvDetails>,
)
    ensures
        tmdb::hinted_kind(Some(stated), probed) == stated,
        tmdb::hinted_kind(None, probed) == TmdbKind::Tv <==> (probed is Some
            && probed->0.number_of_seasons >= 1),
{
}

// -- answers --------------------------------------------------------------------------------

/// The records of cards come one after the other, a card that would not show adding none.
pub proof fn cards_that_would_not_show_are_left_out(
    cards: Seq<(CardView, LinksView)>,
    c: CardView,
    links: LinksView,
    image_base: Seq<char>,
    filters: Map<Seq<char>, Seq<Seq<char>>>,
)
    ensures
        ({
            let before = tmdb::card_records(cards, image_base, filters);
            let now = tmdb::card_records(cards.push((c, links)), image_base, filters);
            &&& tmdb::card_records(Seq::empty(), image_base, filters).len() == 0
            &&& !c.displayable() ==> now == before
            &&& c.displayable() ==> {
                &&& now.len() == before.len() + 1
                &&& now.drop_last() == before
                &&& now.last().upstream_id == "tmdb"@
                &&& now.last().record_id == "tmdb"@ + ":"@ + c.source_id
                &&& now.last().fields == card::record_fields(c, links, image_base, filters)
            }
        }),
{
    assert(cards.push((c, links)).drop_last() =~= cards);
    let before = tmdb::card_records(cards, image_base, filters);
    let now = tmdb::card_records(cards.push((c, links)), image_base, filters);
    if c.displayable() {
        assert(now.drop_last() =~= before);
    }
}

/// An answer is the first records of the cards, as many as were asked for.
pub proof fn an_answer_is_the_first_records(
    cards: Seq<(CardView, LinksView)>,
    image_base: Seq<char>,
    filters: Map<Seq<char>, Seq<Seq<char>>>,
    max: nat,
)
    ensures
        ({
            let all = tmdb::card_records(cards, image_base, filters);
            let answer = tmdb::answer_records(cards, image_base, filters, max);
            &&& all.len() <= max ==> answer == all
            &&& all.len() > max ==> answer == all.subrange(0, max as int)
        }),
{
    let all = tmdb::card_records(cards, image_base, filters);
    if all.len() > max {
        assert(tmdb::answer_records(cards, image_base, filters, max) =~= all.subrange(
            0,
            max as int,
        ));
    }
}

// -- record ids -----------------------------------------------------------------------------

/// A record id parts at its first colon, with something on either side; one without a colon, or with
/// nothing on one side, does not part.
pub proof fn a_record_id_parts_at_its_first_colon(id: Seq<char>, a: Seq<char>, b: Seq<char>)
    ensures
        id == a + seq![':'] + b && !a.contains(':') && a.len() > 0 && b.len() > 0
            ==> card::record_id_halves(id) == Some((a, b)),
        id == a + seq![':'] + b && !a.contains(':') && (a.len() == 0 || b.len() == 0)
            ==> card::record_id_halves(id) is None,
        !id.contains(':') ==> card::record_id_halves(id) is None,
{
    text::splitting_at_the_first(id, ':');
    if id == a + seq![':'] + b && !a.contains(':') {
        text::lemma_split_joined(a, ':', b);
    }
}

/// A source-local id names a film or a show by the word before its first colon and the number after
/// it, whatever whitespace surrounds the number; with another word, or no colon, it names nothing.
pub proof fn a_source_id_names_a_kind_and_a_number(
    source_id: Seq<char>,
    kind: Seq<char>,
    number: Seq<char>,
    n: u64,
)
    ensures
        !source_id.contains(':') ==> tmdb::source_id_parts(source_id) is None,
        source_id == kind + seq![':'] + number && !kind.contains(':') ==> {
            &&& kind == "movie"@ && text::trim(number) == decimal::numeral(n as nat)
                ==> tmdb::source_id_parts(source_id) == Some((TmdbKind::Movie, n))
            &&& kind == "tv"@ && text::trim(number) == decimal::numeral(n as nat)
                ==> tmdb::source_id_parts(source_id) == Some((TmdbKind::Tv, n))
            &&& kind != "movie"@ && kind != "tv"@ ==> tmdb::source_id_parts(source_id) is None
        },
{
    text::splitting_at_the_first(source_id, ':');
    decimal::lemma_unsigned_value_of_numeral(n as nat, u64::MAX as nat);
    reveal_strlit("movie");
    reveal_strlit("tv");
    assert("movie"@.len() == 5 && "tv"@.len() == 2);
    if source_id == kind + seq![':'] + number && !kind.contains(':') {
        text::lemma_split_joined(kind, ':', number);
    }
}

/// A record id has an outcome exactly when it parts into the source `tmdb` and an id, and the two
/// can be encoded. One that does not part never succeeds, nor does one that cannot be encoded, and
/// each says so of the id; one of another source is simply not found.
pub proof fn only_ids_of_this_source_have_an_outcome(
    record_id: Seq<char>,
    source: Seq<char>,
    id: Seq<char>,
    encodable: bool,
)
    ensures
        !record_id.contains(':') ==> tmdb::outcome_fault(record_id, encodable) == Some(
            ErrorView::Permanent("malformed card record_id"@ + " '"@ + record_id + "'"@),
        ),
        record_id == source + seq![':'] + id && !source.contains(':') ==> {
            let fault = tmdb::outcome_fault(record_id, encodable);
            let parts = source.len() > 0 && id.len() > 0;
            &&& !parts ==> fault == Some(
                ErrorView::Permanent("malformed card record_id"@ + " '"@ + record_id + "'"@),
            )
            &&& parts && source != "tmdb"@ ==> fault == Some(ErrorView::NotFound)
            &&& parts && source == "tmdb"@ && !encodable ==> fault == Some(
                ErrorView::Permanent("card id too long to encode:"@ + " '"@ + record_id + "'"@),
            )
            &&& parts && source == "tmdb"@ && encodable ==> fault is None
        },
{
    a_record_id_parts_at_its_first_colon(record_id, source, id);
}

/// An outcome's work is looked up only by a plugin that is ready, and then by the kind and number
/// that its source-local id names.
pub proof fn an_unready_plugin_looks_up_no_work(
    ready: bool,
    source_id: Seq<char>,
    n: u64,
)
    ensures
        !ready ==> tmdb::work_to_look_up(ready, source_id) is None,
        ready && source_id == "movie"@ + seq![':'] + decimal::numeral(n as nat)
            ==> tmdb::work_to_look_up(ready, source_id) == Some((TmdbKind::Movie, n)),
        ready && source_id == "tv"@ + seq![':'] + decimal::numeral(n as nat)
            ==> tmdb::work_to_look_up(ready, source_id) == Some((TmdbKind::Tv, n)),
{
    let number = decimal::numeral(n as nat);
    decimal::lemma_numeral_digits(n as nat);
    assert(text::ascii_digit(number[0]) && text::ascii_digit(number[number.len() - 1]));
    text::trimming_is_stable(number);
    reveal_strlit("movie");
    reveal_strlit("tv");
    assert(!"movie"@.contains(':') && !"tv"@.contains(':'));
    a_source_id_names_a_kind_and_a_number(source_id, "movie"@, number, n);
    a_source_id_names_a_kind_and_a_number(source_id, "tv"@, number, n);
}

} // verus!
