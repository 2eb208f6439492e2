//! The `tmdb` upstream: configuration, routing, queries and outcomes of the card plugin.
//!
//! Answers the discovery half of gateway search: free text in, `fileType=card` records out. It
//! never serves bytes. The plugin here decides; the environment, the config file, the cache, TMDB
//! and the gateway's SDK are asked outside, and what they say comes in as plain values.

use vstd::prelude::*;

use crate::card;
use crate::card::{
    split_record_id, Card, CardLinks, CardSource, CardView, DiscoveryRecord, LinksView,
};
use crate::consts::{
    DEFAULT_CARD_DISCOVERY_N, DEFAULT_CARD_TOP_N, DEFAULT_TMDB_BURST, DEFAULT_TMDB_REFILL_PER_SEC,
    TMDB_API_BASE, TMDB_IMAGE_BASE,
};
use crate::decimal;
use crate::decimal::parse_unsigned;
use crate::discovery::is_discovery_query;
use crate::principal;
use crate::principal_list;
use crate::principal_list::kind_from_str;
use crate::query::{GatewayQuery, QueryView};
use crate::ranking;
use crate::ranking::is_positive_bits;
use crate::resolve;
use crate::text;
use crate::text::{is_blank, split_once, str_eq, trimmed};
use crate::tmdb_client;
use crate::tmdb_client::{TmdbClient, TmdbKind, TmdbTvDetails};

verus! {

// -- configuration --------------------------------------------------------------------------

/// Config the operator supplies via the feeder's own web form. Rate and burst are doubles, held as
/// bit patterns.
pub struct TmdbConfig {
    pub tmdb_token: String,
    pub tmdb_rate_per_sec: Option<u64>,
    pub tmdb_burst: Option<u64>,
    pub card_top_n: Option<usize>,
}

/// A number in decimal, `None` when it does not fit.
pub open spec fn count_named(s: Option<Seq<char>>) -> Option<usize> {
    match s {
        Some(t) => match decimal::unsigned_value(t, usize::MAX as nat) {
            Some(n) => Some(n as usize),
            None => None,
        },
        None => None,
    }
}

impl TmdbConfig {
    /// Env seed, used on first boot before any `config.json` exists: the values of `TMDB_TOKEN`,
    /// `TMDB_RATE_PER_SEC`, `TMDB_BURST` and `CARD_TOP_N`, the two doubles decoded.
    pub fn from_env(
        token: Option<String>,
        rate_per_sec: Option<u64>,
        burst: Option<u64>,
        top_n: Option<&str>,
    ) -> (r: Self)
        ensures
            r.tmdb_token@ == match token {
                Some(t) => t@,
                None => Seq::empty(),
            },
            r.tmdb_rate_per_sec == rate_per_sec,
            r.tmdb_burst == burst,
            r.card_top_n == count_named(
                match top_n {
                    Some(n) => Some(n@),
                    None => None,
                },
            ),
    {
        let tmdb_token = match token {
            Some(t) => t,
            None => String::new(),
        };
        let card_top_n = match top_n {
            Some(n) => match parse_unsigned(n, usize::MAX as u64) {
                Some(v) => Some(v as usize),
                None => None,
            },
            None => None,
        };
        TmdbConfig { tmdb_token, tmdb_rate_per_sec: rate_per_sec, tmdb_burst: burst, card_top_n }
    }
}

/// How a config field is entered.
#[derive(Clone, Copy, Debug, PartialEq, Eq, Structural)]
pub enum FieldKind {
    Secret,
    Number,
}

/// One field of the config form.
#[derive(Clone, Copy, Debug)]
pub struct ConfigField {
    pub kind: FieldKind,
    pub key: &'static str,
    pub label: &'static str,
    pub help: &'static str,
}

/// What a resolver is made of: a client, and the rate and burst of its request budget.
pub struct ResolverSetup {
    pub client: TmdbClient,
    pub rate_per_sec: u64,
    pub burst: u64,
}

/// The card plugin of the `tmdb` upstream.
pub struct TmdbCardPlugin {
    pub config: TmdbConfig,
    /// `None` until [`TmdbCardPlugin::configure`] runs, and stays `None` when no TMDB token was
    /// supplied: the soft-skip path. The feeder stays healthy; queries just return nothing.
    pub resolver: Option<ResolverSetup>,
    pub top_n: usize,
    /// `(api_base, image_base)` overriding TMDB's real endpoints.
    pub api_bases: Option<(String, String)>,
}

/// A setting, or its default when it is absent or not positive.
pub open spec fn positive_or(setting: Option<u64>, default: u64) -> u64 {
    match setting {
        Some(bits) => if ranking::is_positive(bits) {
            bits
        } else {
            default
        },
        None => default,
    }
}

fn positive_setting(setting: Option<u64>, default: u64) -> (r: u64)
    ensures
        r == positive_or(setting, default),
{
    match setting {
        Some(bits) => if is_positive_bits(bits) {
            bits
        } else {
            default
        },
        None => default,
    }
}

/// The number of cards per search: the configured one, unless it is absent or zero.
pub open spec fn effective_top_n(configured: Option<usize>) -> usize {
    match configured {
        Some(n) => if n > 0 {
            n
        } else {
            DEFAULT_CARD_TOP_N
        },
        None => DEFAULT_CARD_TOP_N,
    }
}

/// The file's config over the one at hand, field by field: a blank token and an absent number leave
/// what was there.
pub open spec fn is_overlaid(now: TmdbConfig, was: TmdbConfig, file: TmdbConfig) -> bool {
    &&& now.tmdb_token@ == if text::trim(file.tmdb_token@).len() > 0 {
        file.tmdb_token@
    } else {
        was.tmdb_token@
    }
    &&& now.tmdb_rate_per_sec == if file.tmdb_rate_per_sec is Some {
        file.tmdb_rate_per_sec
    } else {
        was.tmdb_rate_per_sec
    }
    &&& now.tmdb_burst == if file.tmdb_burst is Some {
        file.tmdb_burst
    } else {
        was.tmdb_burst
    }
    &&& now.card_top_n == if file.card_top_n is Some {
        file.card_top_n
    } else {
        was.card_top_n
    }
}

/// The endpoints a plugin talks to: those it was given, or TMDB's own.
pub open spec fn endpoints(api_bases: Option<(String, String)>) -> (Seq<char>, Seq<char>) {
    match api_bases {
        Some((api, image)) => (api@, image@),
        None => (TMDB_API_BASE@, TMDB_IMAGE_BASE@),
    }
}

/// Is `now` what configuring makes of `was`? A token makes it ready, with the configured rate and
/// burst where they are positive; without one its resolver is left as it was.
pub open spec fn is_configured(now: TmdbCardPlugin, was: TmdbCardPlugin) -> bool {
    let token = text::trim(was.config.tmdb_token@);
    &&& now.config == was.config
    &&& now.api_bases == was.api_bases
    &&& now.top_n == effective_top_n(was.config.card_top_n)
    &&& token.len() == 0 ==> now.resolver == was.resolver
    &&& token.len() > 0 ==> {
        let setup = now.resolver->0;
        &&& now.resolver is Some
        &&& setup.client.bearer_token@ == token
        &&& (setup.client.api_base@, setup.client.image_base@) == endpoints(was.api_bases)
        &&& setup.rate_per_sec == positive_or(
            was.config.tmdb_rate_per_sec,
            DEFAULT_TMDB_REFILL_PER_SEC,
        )
        &&& setup.burst == positive_or(was.config.tmdb_burst, DEFAULT_TMDB_BURST)
    }
}

impl TmdbCardPlugin {
    /// A plugin with the config the environment seeds.
    pub fn new(config: TmdbConfig) -> (r: Self)
        ensures
            r.config == config,
            r.resolver is None,
            r.top_n == DEFAULT_CARD_TOP_N,
            r.api_bases is None,
    {
        TmdbCardPlugin { config, resolver: None, top_n: DEFAULT_CARD_TOP_N, api_bases: None }
    }

    /// A plugin with a fixed token that talks to another server than the real TMDB.
    pub fn with_api_base(
        config: TmdbConfig,
        token: &str,
        api_base: String,
        image_base: String,
    ) -> (r: Self)
        ensures
            r.config.tmdb_token@ == token@,
            r.config.tmdb_rate_per_sec == config.tmdb_rate_per_sec,
            r.config.tmdb_burst == config.tmdb_burst,
            r.config.card_top_n == config.card_top_n,
            r.resolver is None,
            r.top_n == DEFAULT_CARD_TOP_N,
            r.api_bases == Some((api_base, image_base)),
    {
        let mut p = TmdbCardPlugin::new(config);
        p.config.tmdb_token = token.to_owned();
        p.api_bases = Some((api_base, image_base));
        p
    }

    /// File wins over env. `file` is the decoded `config.json`, `None` when there is none or it
    /// does not decode.
    pub fn load_config(&mut self, file: Option<TmdbConfig>)
        ensures
            match file {
                Some(f) => is_overlaid(final(self).config, old(self).config, f),
                None => final(self).config == old(self).config,
            },
            final(self).resolver == old(self).resolver,
            final(self).top_n == old(self).top_n,
            final(self).api_bases == old(self).api_bases,
    {
        if let Some(f) = file {
            if !is_blank(f.tmdb_token.as_str()) {
                self.config.tmdb_token = f.tmdb_token;
            }
            if f.tmdb_rate_per_sec.is_some() {
                self.config.tmdb_rate_per_sec = f.tmdb_rate_per_sec;
            }
            if f.tmdb_burst.is_some() {
                self.config.tmdb_burst = f.tmdb_burst;
            }
            if f.card_top_n.is_some() {
                self.config.card_top_n = f.card_top_n;
            }
        }
    }

    /// Makes the plugin ready to answer, from its config. Without a token it soft-skips: it is left
    /// as it was, but for the number of cards per search.
    pub fn configure(&mut self)
        ensures
            is_configured(*final(self), *old(self)),
    {
        self.top_n = match self.config.card_top_n {
            Some(n) => if n > 0 {
                n
            } else {
                DEFAULT_CARD_TOP_N
            },
            None => DEFAULT_CARD_TOP_N,
        };
        let token = trimmed(self.config.tmdb_token.as_str()).to_owned();
        if token.as_str().is_empty() {
            return;
        }
        let rate_per_sec: u64 = positive_setting(
            self.config.tmdb_rate_per_sec,
            DEFAULT_TMDB_REFILL_PER_SEC,
        );
        let burst: u64 = positive_setting(self.config.tmdb_burst, DEFAULT_TMDB_BURST);
        let client = match &self.api_bases {
            Some((api, image)) => TmdbClient::with_bases(token, api.clone(), image.clone()),
            None => TmdbClient::new(token),
        };
        self.resolver = Some(ResolverSetup { client, rate_per_sec, burst });
    }

    /// The upstream this plugin answers for.
    pub fn upstream_id(&self) -> (r: &'static str)
        ensures
            r@ == "tmdb"@,
    {
        "tmdb"
    }

    /// **The routing declaration.** `card` on the fileType axis is what makes a `fileType:card`
    /// query come to this gateway.
    pub fn served_file_types(&self) -> (r: &'static [&'static str])
        ensures
            r@.len() == 1,
            r@[0]@ == "card"@,
    {
        &["card"]
    }

    /// The *work* kinds a card can describe.
    pub fn served_content_kinds(&self) -> (r: &'static [&'static str])
        ensures
            r@.len() == 2,
            r@[0]@ == "movie"@,
            r@[1]@ == "series"@,
    {
        &["movie", "series"]
    }

    /// The fields of the config form.
    pub fn config_schema(&self) -> (r: Vec<ConfigField>)
        ensures
            r@.len() == 4,
            r@[0].kind == FieldKind::Secret && r@[0].key@ == "tmdb_token"@ && r@[0].label@
                == "TMDB v4 token"@,
            r@[0].help@
                == "Read-access token from themoviedb.org. Without it this feeder soft-skips and card searches return nothing."@,
            r@[1].kind == FieldKind::Number && r@[1].key@ == "tmdb_rate_per_sec"@ && r@[1].label@
                == "TMDB rate (req/s)"@,
            r@[1].help@
                == "Sustained TMDB request rate. Blank keeps the built-in default (20/s). Takes effect on the next feeder restart."@,
            r@[2].kind == FieldKind::Number && r@[2].key@ == "tmdb_burst"@ && r@[2].label@
                == "TMDB burst (tokens)"@,
            r@[2].help@
                == "Short-burst TMDB token ceiling. Blank keeps the built-in default (20). Takes effect on the next feeder restart."@,
            r@[3].kind == FieldKind::Number && r@[3].key@ == "card_top_n"@ && r@[3].label@
                == "Cards per search"@,
            r@[3].help@
                == "How many works a free-text search returns, most popular first. Blank keeps the built-in default (10). Unlike the old anchor top-N this costs no indexer requests \u{2014} only TMDB."@,
    {
        vec![
            ConfigField {
                kind: FieldKind::Secret,
                key: "tmdb_token",
                label: "TMDB v4 token",
                help: "Read-access token from themoviedb.org. Without it this feeder soft-skips and card searches return nothing.",
            },
            ConfigField {
                kind: FieldKind::Number,
                key: "tmdb_rate_per_sec",
                label: "TMDB rate (req/s)",
                help: "Sustained TMDB request rate. Blank keeps the built-in default (20/s). Takes effect on the next feeder restart.",
            },
            ConfigField {
                kind: FieldKind::Number,
                key: "tmdb_burst",
                label: "TMDB burst (tokens)",
                help: "Short-burst TMDB token ceiling. Blank keeps the built-in default (20). Takes effect on the next feeder restart.",
            },
            ConfigField {
                kind: FieldKind::Number,
                key: "card_top_n",
                label: "Cards per search",
                help: "How many works a free-text search returns, most popular first. Blank keeps the built-in default (10). Unlike the old anchor top-N this costs no indexer requests \u{2014} only TMDB.",
            },
        ]
    }
}

// -- queries --------------------------------------------------------------------------------

/// How a query is answered.
pub enum QueryPlan {
    /// With nothing, and without asking TMDB.
    Nothing,
    /// With the one work an explicit id names; its kind, if the query says so.
    ById(u64, Option<TmdbKind>),
    /// With a catalog row of so many cards.
    Discovery(usize),
    /// With the works that a free text finds, so many at most.
    FreeText(String, usize),
}

/// The view of a [`QueryPlan`].
pub enum PlanView {
    Nothing,
    ById(u64, Option<TmdbKind>),
    Discovery(usize),
    FreeText(Seq<char>, usize),
}

impl View for QueryPlan {
    type V = PlanView;

    open spec fn view(&self) -> PlanView {
        match *self {
            QueryPlan::Nothing => PlanView::Nothing,
            QueryPlan::ById(id, kind) => PlanView::ById(id, kind),
            QueryPlan::Discovery(n) => PlanView::Discovery(n),
            QueryPlan::FreeText(t, n) => PlanView::FreeText(t@, n),
        }
    }
}

/// The smaller of a limit and the number of results asked for, which counts as one at least.
pub open spec fn capped(limit: usize, max_results: usize) -> usize {
    let asked = if max_results < 1 {
        1
    } else {
        max_results
    };
    if limit < asked {
        limit
    } else {
        asked
    }
}

fn cap(limit: usize, max_results: usize) -> (r: usize)
    ensures
        r == capped(limit, max_results),
{
    let asked: usize = if max_results < 1 {
        1
    } else {
        max_results
    };
    if limit < asked {
        limit
    } else {
        asked
    }
}

impl QueryView {
    /// The id an explicit `tmdbid:` filter names.
    pub open spec fn explicit_id(self) -> Option<u64> {
        match self.first("tmdbid"@) {
            Some(v) => match decimal::unsigned_value(text::trim(v), u64::MAX as nat) {
                Some(n) => Some(n as u64),
                None => None,
            },
            None => None,
        }
    }

    /// The kind an explicit `contentKind` filter says.
    pub open spec fn explicit_kind(self) -> Option<TmdbKind> {
        match self.first("contentKind"@) {
            Some(v) => if v == "movie"@ {
                Some(TmdbKind::Movie)
            } else if v == "series"@ || v == "episode"@ || v == "tvshow"@ {
                Some(TmdbKind::Tv)
            } else {
                None
            },
            None => None,
        }
    }

    /// How a query that the plugin serves is answered: by explicit id, else as a catalog row, else
    /// by its free text.
    pub open spec fn plan(self, top_n: usize, max_results: usize) -> PlanView {
        if self.explicit_id() is Some {
            PlanView::ById(self.explicit_id()->0, self.explicit_kind())
        } else if self.is_discovery() {
            PlanView::Discovery(capped(DEFAULT_CARD_DISCOVERY_N, max_results))
        } else if text::trim(self.free_text).len() == 0 {
            PlanView::Nothing
        } else {
            PlanView::FreeText(text::trim(self.free_text), capped(top_n, max_results))
        }
    }
}

/// How a plugin answers a query.
pub open spec fn plan_of(
    plugin: TmdbCardPlugin,
    query: QueryView,
    accepted: bool,
    max_results: usize,
) -> PlanView {
    if accepted && plugin.resolver is Some {
        query.plan(plugin.top_n, max_results)
    } else {
        PlanView::Nothing
    }
}

fn explicit_id(query: &GatewayQuery) -> (r: Option<u64>)
    ensures
        r == query@.explicit_id(),
{
    match query.first("tmdbid") {
        Some(v) => parse_unsigned(trimmed(v), u64::MAX),
        None => None,
    }
}

fn explicit_kind(query: &GatewayQuery) -> (r: Option<TmdbKind>)
    ensures
        r == query@.explicit_kind(),
{
    match query.first("contentKind") {
        Some(v) => if str_eq(v, "movie") {
            Some(TmdbKind::Movie)
        } else if str_eq(v, "series") || str_eq(v, "episode") || str_eq(v, "tvshow") {
            Some(TmdbKind::Tv)
        } else {
            None
        },
        None => None,
    }
}

/// The kind that an explicit id refers to.
pub open spec fn hinted_kind(explicit: Option<TmdbKind>, probed: Option<TmdbTvDetails>) -> TmdbKind {
    match explicit {
        Some(kind) => kind,
        None => if probed is Some && probed->0.number_of_seasons > 0 {
            TmdbKind::Tv
        } else {
            TmdbKind::Movie
        },
    }
}

/// Whether an explicit `tmdbid:` refers to a show or a film: what the query says wins, else a show
/// is what has details with seasons (a film's id has none).
pub fn kind_hint(explicit: Option<TmdbKind>, probed: Option<&TmdbTvDetails>) -> (r: TmdbKind)
    ensures
        r == hinted_kind(
            explicit,
            match probed {
                Some(d) => Some(*d),
                None => None,
            },
        ),
{
    match explicit {
        Some(kind) => kind,
        None => match probed {
            Some(d) => if d.number_of_seasons > 0 {
                TmdbKind::Tv
            } else {
                TmdbKind::Movie
            },
            None => TmdbKind::Movie,
        },
    }
}

impl TmdbCardPlugin {
    /// How a query is answered. `accepted` says whether the query's type filters admit what this
    /// plugin serves. One that they do not, and any query without a token, is answered with nothing
    /// and without touching TMDB.
    pub fn plan_query(&self, query: &GatewayQuery, accepted: bool, max_results: usize) -> (r:
        QueryPlan)
        ensures
            r@ == plan_of(*self, query@, accepted, max_results),
    {
        if !accepted || self.resolver.is_none() {
            return QueryPlan::Nothing;
        }
        if let Some(id) = explicit_id(query) {
            return QueryPlan::ById(id, explicit_kind(query));
        }
        if is_discovery_query(query) {
            return QueryPlan::Discovery(cap(DEFAULT_CARD_DISCOVERY_N, max_results));
        }
        let free_text = trimmed(query.free_text.as_str());
        if free_text.is_empty() {
            return QueryPlan::Nothing;
        }
        QueryPlan::FreeText(free_text.to_owned(), cap(self.top_n, max_results))
    }
}

/// Soft-skip: a new plugin that is configured without a token answers every query with nothing.
pub proof fn without_a_token_nothing_is_answered(
    was: TmdbCardPlugin,
    now: TmdbCardPlugin,
    query: QueryView,
    accepted: bool,
    max_results: usize,
)
    requires
        was.resolver is None,
        is_configured(now, was),
        text::trim(was.config.tmdb_token@).len() == 0,
    ensures
        plan_of(now, query, accepted, max_results) == PlanView::Nothing,
{
}

/// The config file wins: what it says of the token, the rate, the burst and the number of cards is
/// what the plugin runs with, whatever the environment had seeded.
pub proof fn the_file_wins(
    seeded: TmdbCardPlugin,
    loaded: TmdbCardPlugin,
    now: TmdbCardPlugin,
    file: TmdbConfig,
)
    requires
        is_overlaid(loaded.config, seeded.config, file),
        is_configured(now, loaded),
        text::trim(file.tmdb_token@).len() > 0,
    ensures
        now.resolver is Some,
        now.resolver->0.client.bearer_token@ == text::trim(file.tmdb_token@),
        file.tmdb_rate_per_sec is Some ==> now.resolver->0.rate_per_sec == positive_or(
            file.tmdb_rate_per_sec,
            DEFAULT_TMDB_REFILL_PER_SEC,
        ),
        file.tmdb_burst is Some ==> now.resolver->0.burst == positive_or(
            file.tmdb_burst,
            DEFAULT_TMDB_BURST,
        ),
        file.card_top_n is Some ==> now.top_n == effective_top_n(file.card_top_n),
{
}

/// The branches exclude each other: an explicit id always wins, a catalog query is always a row, a
/// query with text and no explicit id is always a search for that text, and a query with none of
/// these is answered with nothing.
pub proof fn every_query_has_one_branch(
    plugin: TmdbCardPlugin,
    query: QueryView,
    max_results: usize,
)
    requires
        plugin.resolver is Some,
    ensures
        query.explicit_id() matches Some(id) ==> plan_of(plugin, query, true, max_results)
            == PlanView::ById(id, query.explicit_kind()),
        query.is_discovery() ==> plan_of(plugin, query, true, max_results) == PlanView::Discovery(
            capped(DEFAULT_CARD_DISCOVERY_N, max_results),
        ),
        query.explicit_id() is None && text::trim(query.free_text).len() > 0 ==> plan_of(
            plugin,
            query,
            true,
            max_results,
        ) == PlanView::FreeText(text::trim(query.free_text), capped(plugin.top_n, max_results)),
        query.explicit_id() is None && !query.is_discovery() && text::trim(query.free_text).len()
            == 0 ==> plan_of(plugin, query, true, max_results) == PlanView::Nothing,
{
}

/// The view of a [`DiscoveryRecord`].
#[verifier::ext_equal]
pub struct RecordView {
    pub upstream_id: Seq<char>,
    pub record_id: Seq<char>,
    pub fields: Map<Seq<char>, Seq<char>>,
}

impl View for DiscoveryRecord {
    type V = RecordView;

    open spec fn view(&self) -> RecordView {
        RecordView {
            upstream_id: self.upstream_id@,
            record_id: self.record_id@,
            fields: self.fields@,
        }
    }
}

/// The views of a list of records.
pub open spec fn records_of(v: Seq<DiscoveryRecord>) -> Seq<RecordView> {
    v.map_values(|r: DiscoveryRecord| r@)
}

/// The record of a card.
pub open spec fn card_record(
    c: CardView,
    links: LinksView,
    image_base: Seq<char>,
    filters: Map<Seq<char>, Seq<Seq<char>>>,
) -> RecordView {
    RecordView {
        upstream_id: card::source_text(c.source),
        record_id: c.record_id(),
        fields: card::record_fields(c, links, image_base, filters),
    }
}

/// Cards with what the SDK derives for each, by their views.
pub open spec fn linked_of(v: Seq<(Card, CardLinks)>) -> Seq<(CardView, LinksView)> {
    v.map_values(|c: (Card, CardLinks)| (c.0@, c.1@))
}

/// The records of the displayable ones among the cards, in order.
pub open spec fn card_records(
    cards: Seq<(CardView, LinksView)>,
    image_base: Seq<char>,
    filters: Map<Seq<char>, Seq<Seq<char>>>,
) -> Seq<RecordView>
    decreases cards.len(),
{
    if cards.len() == 0 {
        Seq::empty()
    } else {
        let before = card_records(cards.drop_last(), image_base, filters);
        let (c, links) = cards.last();
        if c.displayable() {
            before.push(card_record(c, links, image_base, filters))
        } else {
            before
        }
    }
}

proof fn lemma_card_records_grow(
    cards: Seq<(CardView, LinksView)>,
    i: int,
    image_base: Seq<char>,
    filters: Map<Seq<char>, Seq<Seq<char>>>,
)
    requires
        0 <= i <= cards.len(),
    ensures
        card_records(cards.take(i), image_base, filters).is_prefix_of(
            card_records(cards, image_base, filters),
        ),
    decreases cards.len() - i,
{
    if i == cards.len() {
        assert(cards.take(i) =~= cards);
    } else {
        lemma_card_records_grow(cards, i + 1, image_base, filters);
        assert(cards.take(i + 1).drop_last() =~= cards.take(i));
    }
}

/// The answer to a query: the records of the displayable cards, no more than were asked for.
pub open spec fn answer_records(
    cards: Seq<(CardView, LinksView)>,
    image_base: Seq<char>,
    filters: Map<Seq<char>, Seq<Seq<char>>>,
    max: nat,
) -> Seq<RecordView> {
    principal::first_n(card_records(cards, image_base, filters), max)
}

/// The answer to a query: the records of the displayable cards, no more than were asked for.
pub fn project_cards(
    cards: &Vec<(Card, CardLinks)>,
    tmdb: &TmdbClient,
    query: &GatewayQuery,
    max_results: usize,
) -> (r: Vec<DiscoveryRecord>)
    ensures
        records_of(r@) == answer_records(
            linked_of(cards@),
            tmdb.image_base@,
            query@.filters,
            max_results as nat,
        ),
{
    let ghost all = linked_of(cards@);
    let ghost base = tmdb.image_base@;
    let ghost filters = query@.filters;
    let ghost whole = card_records(all, base, filters);
    let mut out: Vec<DiscoveryRecord> = Vec::new();
    let mut i: usize = 0;
    assert(records_of(out@) =~= card_records(all.take(0), base, filters));
    while i < cards.len() && out.len() < max_results
        invariant
            i <= cards.len(),
            all == linked_of(cards@),
            base == tmdb.image_base@,
            filters == query@.filters,
            records_of(out@) == card_records(all.take(i as int), base, filters),
            out.len() <= max_results,
        decreases cards.len() - i,
    {
        let ghost now = all.take(i + 1);
        assert(now.drop_last() =~= all.take(i as int));
        assert(now.last() == (cards@[i as int].0@, cards@[i as int].1@));
        if let Some(record) = cards[i].0.to_record(tmdb, &query.filters, &cards[i].1) {
            let ghost done = records_of(out@);
            let ghost v = record@;
            out.push(record);
            assert(records_of(out@) =~= done.push(v));
        }
        i = i + 1;
    }
    proof {
        lemma_card_records_grow(all, i as int, base, filters);
        assert(records_of(out@).len() == out@.len());
        if i == cards.len() {
            assert(all.take(i as int) =~= all);
        }
        assert(records_of(out@) =~= principal::first_n(whole, max_results as nat));
    }
    out
}

// -- outcomes -------------------------------------------------------------------------------

/// Why a request fails.
pub enum GatewayError {
    /// There is no such record here.
    NotFound,
    /// The request can never succeed.
    Permanent(String),
}

/// The view of a [`GatewayError`].
#[verifier::ext_equal]
pub enum ErrorView {
    NotFound,
    Permanent(Seq<char>),
}

impl View for GatewayError {
    type V = ErrorView;

    open spec fn view(&self) -> ErrorView {
        match *self {
            GatewayError::NotFound => ErrorView::NotFound,
            GatewayError::Permanent(m) => ErrorView::Permanent(m@),
        }
    }
}

/// What kind of hash an outcome carries.
#[derive(Clone, Copy, Debug, PartialEq, Eq, Structural)]
pub enum HashKind {
    CardLocator,
}

/// What a record id resolves to.
pub struct HashOutcome {
    pub hash: String,
    pub hash_kind: HashKind,
    pub bytes: Option<Vec<u8>>,
    pub record: Option<DiscoveryRecord>,
    pub file_extension: Option<String>,
}

/// The kind and the id that a source-local id names.
pub open spec fn source_id_parts(source_id: Seq<char>) -> Option<(TmdbKind, u64)> {
    match text::split_first(source_id, ':') {
        Some((kind, id)) => match (
            principal_list::kind_named(kind),
            decimal::unsigned_value(text::trim(id), u64::MAX as nat),
        ) {
            (Some(k), Some(n)) => Some((k, n as u64)),
            _ => None,
        },
        None => None,
    }
}

/// `"tv:95479"` / `"movie:27205"` as `(kind, tmdbid)`.
pub fn parse_source_id(source_id: &str) -> (r: Option<(TmdbKind, u64)>)
    ensures
        r == source_id_parts(source_id@),
{
    match split_once(source_id, ':') {
        Some((kind, id)) => match (kind_from_str(kind), parse_unsigned(trimmed(id), u64::MAX)) {
            (Some(k), Some(n)) => Some((k, n)),
            _ => None,
        },
        None => None,
    }
}

/// A source-local id parses back into its kind and its id.
pub proof fn source_id_parses_back(kind: TmdbKind, tmdbid: u64)
    ensures
        source_id_parts(resolve::source_id_text(kind, tmdbid)) == Some((kind, tmdbid)),
{
    let k = tmdb_client::kind_text(kind);
    let n = decimal::numeral(tmdbid as nat);
    reveal_strlit("movie");
    reveal_strlit("tv");
    reveal_strlit(":");
    assert(":"@ =~= seq![':']);
    assert(!k.contains(':'));
    text::lemma_split_joined(k, ':', n);
    principal_list::kind_reads_back(kind);
    decimal::lemma_numeral_digits(tmdbid as nat);
    assert(text::ascii_digit(n[0]) && text::ascii_digit(n[n.len() - 1]));
    text::trimming_is_stable(n);
    decimal::lemma_unsigned_value_of_numeral(tmdbid as nat, u64::MAX as nat);
}

/// A show and a film never share a source-local id, nor do two works of one kind.
pub proof fn source_ids_tell_works_apart(a: TmdbKind, id_a: u64, b: TmdbKind, id_b: u64)
    requires
        resolve::source_id_text(a, id_a) == resolve::source_id_text(b, id_b),
    ensures
        a == b,
        id_a == id_b,
{
    source_id_parses_back(a, id_a);
    source_id_parses_back(b, id_b);
}

/// The record id of every card of a TMDB work leads back to that work, offline: to the preimage of
/// its locator, and to the kind and the id to look up.
pub proof fn record_id_leads_back_to_the_work(kind: TmdbKind, tmdbid: u64)
    ensures
        ({
            let source_id = resolve::source_id_text(kind, tmdbid);
            let record_id = card::record_id_text(CardSource::Tmdb, source_id);
            &&& card::record_id_halves(record_id) == Some(
                (card::source_text(CardSource::Tmdb), source_id),
            )
            &&& source_id_parts(source_id) == Some((kind, tmdbid))
        }),
{
    let source_id = resolve::source_id_text(kind, tmdbid);
    reveal_strlit(":");
    assert(source_id.len() > 0);
    card::record_id_splits_back(CardSource::Tmdb, source_id);
    source_id_parses_back(kind, tmdbid);
}

/// Quotes an id in a message.
pub open spec fn complaint(what: Seq<char>, record_id: Seq<char>) -> Seq<char> {
    what + " '"@ + record_id + "'"@
}

fn complain(what: &str, record_id: &str) -> (r: GatewayError)
    ensures
        r matches GatewayError::Permanent(m) && m@ == complaint(what@, record_id@),
{
    let mut m = what.to_owned();
    m.append(" '");
    m.append(record_id);
    m.append("'");
    GatewayError::Permanent(m)
}

/// Why a record id has no outcome here: it does not part into a source and an id, its source is
/// another, or its halves are too long to encode.
pub open spec fn outcome_fault(record_id: Seq<char>, encodable: bool) -> Option<ErrorView> {
    match card::record_id_halves(record_id) {
        None => Some(
            ErrorView::Permanent(complaint("malformed card record_id"@, record_id)),
        ),
        Some((source, id)) => if source != card::source_text(CardSource::Tmdb) {
            Some(ErrorView::NotFound)
        } else if !encodable {
            Some(ErrorView::Permanent(complaint("card id too long to encode:"@, record_id)))
        } else {
            None
        },
    }
}

/// The two halves of the CID preimage of a record id of this upstream.
pub fn outcome_preimage(record_id: &str) -> (r: Result<(&str, &str), GatewayError>)
    ensures
        match r {
            Ok((source, id)) => outcome_fault(record_id@, true) is None && card::record_id_halves(
                record_id@,
            ) == Some((source@, id@)),
            Err(e) => outcome_fault(record_id@, true) == Some(e@),
        },
{
    match split_record_id(record_id) {
        None => Err(complain("malformed card record_id", record_id)),
        Some((source, id)) => if str_eq(source, CardSource::Tmdb.as_str()) {
            Ok((source, id))
        } else {
            Err(GatewayError::NotFound)
        },
    }
}

/// The work to look up for the record of an outcome; none when the plugin is not ready.
pub open spec fn work_to_look_up(ready: bool, source_id: Seq<char>) -> Option<(TmdbKind, u64)> {
    if ready {
        source_id_parts(source_id)
    } else {
        None
    }
}

impl TmdbCardPlugin {
    /// The work to look up for the record of an outcome; none without a token.
    pub fn outcome_work(&self, source_id: &str) -> (r: Option<(TmdbKind, u64)>)
        ensures
            r == work_to_look_up(self.resolver is Some, source_id@),
    {
        if self.resolver.is_some() {
            parse_source_id(source_id)
        } else {
            None
        }
    }
}

/// Resolves a card `record_id` back into its locator: one outcome, without bytes. The record *is*
/// the payload, so that there is nothing to store or seed beside it.
///
/// `cid` is the locator CID the SDK derives from the two halves of the id, `None` when they are too
/// long to encode. `record` is the record of the work, if it could be resolved: the identity is
/// derivable regardless.
pub fn compute_outcomes(
    record_id: &str,
    cid: Option<String>,
    record: Option<DiscoveryRecord>,
) -> (r: Result<Vec<HashOutcome>, GatewayError>)
    ensures
        match r {
            Ok(outcomes) => {
                &&& outcome_fault(record_id@, cid is Some) is None
                &&& outcomes@ == seq![
                    HashOutcome {
                        hash: cid->0,
                        hash_kind: HashKind::CardLocator,
                        bytes: None,
                        record,
                        file_extension: None,
                    },
                ]
            },
            Err(e) => outcome_fault(record_id@, cid is Some) == Some(e@),
        },
{
    match outcome_preimage(record_id) {
        Err(e) => Err(e),
        Ok(_) => match cid {
            None => Err(complain("card id too long to encode:", record_id)),
            Some(hash) => {
                let mut outcomes: Vec<HashOutcome> = Vec::new();
                outcomes.push(
                    HashOutcome {
                        hash,
                        hash_kind: HashKind::CardLocator,
                        bytes: None,
                        record,
                        file_extension: None,
                    },
                );
                Ok(outcomes)
            },
        },
    }
}

} // verus!
