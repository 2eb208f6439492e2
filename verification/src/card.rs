//! The card model and its projection to a discovery record.
//!
//! A **card** identifies a *work* (a series, a film), not a file. It carries the display trio
//! (title, poster, description) plus an **id bag**: every cross-source identifier the metadata
//! bridge could resolve. Nothing here is a byte locator; the card's own CID is a locator derived
//! from `(source, id)`, and nothing is ever fetchable by it.

use vstd::prelude::*;

use crate::consts::MAX_CARD_SEASONS;
use crate::decimal;
use crate::decimal::{signed_text, unsigned_text};
use crate::keyed::KeyMap;
use crate::posters;
use crate::posters::poster_member_keys;
use crate::text;
use crate::text::{chars_of, contains_text, split_once, str_eq, trimmed};
use crate::titles;
use crate::titles::{normalize_title_name, title_member_key};
use crate::tmdb_client;
use crate::tmdb_client::{ImageView, TmdbClient, TmdbImage, TmdbKind, TmdbSeasonSummary};
use crate::words;
use crate::words::{join_texts, norm_tokens};

verus! {

/// The metadata source that published a card. The string form is the CID's source namespace, so
/// changing it re-mints every card CID from that source.
#[derive(Debug, Clone, Copy, PartialEq, Eq, Structural)]
pub enum CardSource {
    Tmdb,
}

/// The name of a source.
pub open spec fn source_text(source: CardSource) -> Seq<char> {
    match source {
        CardSource::Tmdb => "tmdb"@,
    }
}

impl CardSource {
    pub fn as_str(self) -> (r: &'static str)
        ensures
            r@ == source_text(self),
    {
        match self {
            CardSource::Tmdb => "tmdb",
        }
    }
}

/// A resolved work. Immutable by contract: a card carries no rating, popularity or other value that
/// drifts, so that identity and content stay in agreement.
pub struct Card {
    pub source: CardSource,
    pub kind: TmdbKind,
    /// Source-local id for the work: `"tv:95479"` / `"movie:27205"` for TMDB. Half of the card
    /// CID's preimage; see [`Card::record_id`].
    pub source_id: String,
    // -- the id bag
    pub tmdbid: Option<u64>,
    pub tvdb_id: Option<i64>,
    pub imdb_id: Option<String>,
    // -- display
    pub title: String,
    /// Canonical, original and alternative titles. Read here for one thing: picking `searchTitle`
    /// ([`search_aka`]).
    pub guard_titles: Vec<String>,
    /// Every name of the work as `(lang3, name)`, filed on the record as the
    /// `titles/{lang3}/{name}` key-set.
    pub names: Vec<(&'static str, String)>,
    pub overview: Option<String>,
    pub poster_path: Option<String>,
    /// Editorial genre names. Empty means unknown, not none.
    pub genres: Vec<String>,
    pub year: Option<u16>,
    // -- structure (TV only)
    pub seasons: u32,
    /// Per-season episode counts. Surfaced on the record only as `seasonCount`.
    pub season_summaries: Vec<TmdbSeasonSummary>,
    /// Poster candidates, filed as the `posters/{lang3}/{cid}` key-set. Only the by-id path has
    /// them.
    pub posters: Vec<TmdbImage>,
}

/// The view of a [`Card`].
#[verifier::ext_equal]
pub struct CardView {
    pub source: CardSource,
    pub kind: TmdbKind,
    pub source_id: Seq<char>,
    pub tmdbid: Option<u64>,
    pub tvdb_id: Option<i64>,
    pub imdb_id: Option<Seq<char>>,
    pub title: Seq<char>,
    pub guard_titles: Seq<Seq<char>>,
    pub names: Seq<(Seq<char>, Seq<char>)>,
    pub overview: Option<Seq<char>>,
    pub poster_path: Option<Seq<char>>,
    pub genres: Seq<Seq<char>>,
    pub year: Option<u16>,
    pub seasons: u32,
    pub season_summaries: Seq<TmdbSeasonSummary>,
    pub posters: Seq<ImageView>,
}

impl View for Card {
    type V = CardView;

    open spec fn view(&self) -> CardView {
        CardView {
            source: self.source,
            kind: self.kind,
            source_id: self.source_id@,
            tmdbid: self.tmdbid,
            tvdb_id: self.tvdb_id,
            imdb_id: text::text_of(self.imdb_id),
            title: self.title@,
            guard_titles: text::texts(self.guard_titles@),
            names: titles::names_of(self.names@),
            overview: text::text_of(self.overview),
            poster_path: text::text_of(self.poster_path),
            genres: text::texts(self.genres@),
            year: self.year,
            seasons: self.seasons,
            season_summaries: self.season_summaries@,
            posters: tmdb_client::images_of(self.posters@),
        }
    }
}

/// The views of a list of cards.
pub open spec fn cards_of(v: Seq<Card>) -> Seq<CardView> {
    v.map_values(|c: Card| c@)
}

/// The wire record of a card.
pub struct DiscoveryRecord {
    pub upstream_id: String,
    pub record_id: String,
    pub fields: KeyMap<String>,
}

/// What the gateway's SDK derives for a card: its own locator CID, the app domain and the work form
/// of its content kind, and the locator CIDs of its poster addresses.
pub struct CardLinks {
    pub cid: Option<String>,
    pub domain: Option<String>,
    pub work_form: Option<String>,
    pub locators: KeyMap<String>,
}

/// The view of [`CardLinks`].
#[verifier::ext_equal]
pub struct LinksView {
    pub cid: Option<Seq<char>>,
    pub domain: Option<Seq<char>>,
    pub work_form: Option<Seq<char>>,
    pub locators: Map<Seq<char>, Seq<char>>,
}

impl View for CardLinks {
    type V = LinksView;

    open spec fn view(&self) -> LinksView {
        LinksView {
            cid: text::text_of(self.cid),
            domain: text::text_of(self.domain),
            work_form: text::text_of(self.work_form),
            locators: self.locators@,
        }
    }
}

/// The `contentKind` of a kind of work.
pub open spec fn content_kind_text(kind: TmdbKind) -> Seq<char> {
    match kind {
        TmdbKind::Tv => "series"@,
        TmdbKind::Movie => "movie"@,
    }
}

/// A season count within the defensive ceiling.
pub open spec fn clamped_seasons(n: u32) -> u32 {
    if n < 1 {
        1
    } else if n > MAX_CARD_SEASONS {
        MAX_CARD_SEASONS
    } else {
        n
    }
}

/// The record id of a work: `"<source>:<source_id>"`.
pub open spec fn record_id_text(source: CardSource, source_id: Seq<char>) -> Seq<char> {
    source_text(source) + ":"@ + source_id
}

// -- the search title -----------------------------------------------------------------------

/// ASCII punctuation and symbols.
pub open spec fn ascii_punctuation(c: char) -> bool {
    ('!' <= c && c <= '/') || (':' <= c && c <= '@') || ('[' <= c && c <= '`') || ('{' <= c && c
        <= '~')
}

/// Punctuation that keyword searches fold to a space: a folded character searches fine.
pub open spec fn keyword_punctuation(c: char) -> bool {
    c == '.' || c == '_' || c == ':' || c == ';' || c == ',' || c == '-' || c == '/' || c == '('
        || c == ')' || c == '=' || c == '!'
}

/// An ASCII symbol that a search box can neither carry nor safely lose.
pub open spec fn search_hostile(c: char) -> bool {
    ascii_punctuation(c) && c != '\'' && !keyword_punctuation(c)
}

/// An ASCII symbol an indexer's search box can neither carry nor safely lose (`%` in `3%`):
/// punctuation that keyword searches do not fold, apostrophe excepted.
pub fn is_search_hostile_symbol(c: char) -> (r: bool)
    ensures
        r == search_hostile(c),
{
    let punctuation = ('!' <= c && c <= '/') || (':' <= c && c <= '@') || ('[' <= c && c <= '`')
        || ('{' <= c && c <= '~');
    let folded = c == '.' || c == '_' || c == ':' || c == ';' || c == ',' || c == '-' || c == '/'
        || c == '(' || c == ')' || c == '=' || c == '!';
    punctuation && c != '\'' && !folded
}

/// Does the text hold a search-hostile symbol?
pub open spec fn has_hostile(s: Seq<char>) -> bool {
    exists|i: int| 0 <= i < s.len() && search_hostile(#[trigger] s[i])
}

fn has_hostile_symbol(s: &str) -> (r: bool)
    ensures
        r == has_hostile(s@),
{
    let chars = chars_of(s);
    let mut i: usize = 0;
    while i < chars.len()
        invariant
            i <= chars.len(),
            chars@ == s@,
            forall|k: int| 0 <= k < i ==> !search_hostile(#[trigger] s@[k]),
        decreases chars.len() - i,
    {
        if is_search_hostile_symbol(chars[i]) {
            assert(search_hostile(s@[i as int]));
            return true;
        }
        i = i + 1;
    }
    false
}

/// Are there strictly more tokens in `have`, all of `want` among them?
pub open spec fn strictly_covers(have: Seq<Seq<char>>, want: Seq<Seq<char>>) -> bool {
    &&& have.len() > want.len()
    &&& forall|i: int| 0 <= i < want.len() ==> have.contains(#[trigger] want[i])
}

/// Are there strictly more tokens in `have`, all of `want` among them?
pub fn covers_strictly(have: &Vec<String>, want: &Vec<String>) -> (r: bool)
    ensures
        r == strictly_covers(text::texts(have@), text::texts(want@)),
{
    if have.len() <= want.len() {
        return false;
    }
    let mut i: usize = 0;
    while i < want.len()
        invariant
            i <= want.len(),
            forall|k: int|
                0 <= k < i ==> text::texts(have@).contains(#[trigger] text::texts(want@)[k]),
        decreases want.len() - i,
    {
        assert(text::texts(want@)[i as int] == want@[i as int]@);
        if !contains_text(have, want[i].as_str()) {
            return false;
        }
        i = i + 1;
    }
    true
}

/// Can `aka` stand in for `title` in a search: symbol-free, and strictly more specific?
pub open spec fn stands_in(title: Seq<char>, aka: Seq<char>) -> bool {
    !has_hostile(aka) && strictly_covers(words::tokens(aka), words::tokens(title))
}

/// The first of `akas` that can stand in for `title`.
pub open spec fn first_stand_in(title: Seq<char>, akas: Seq<Seq<char>>) -> Option<Seq<char>>
    decreases akas.len(),
{
    if akas.len() == 0 {
        None
    } else if stands_in(title, akas[0]) {
        Some(akas[0])
    } else {
        first_stand_in(title, akas.skip(1))
    }
}

/// The alternative title to search with in place of `title`; none when `title` itself can be
/// searched, or holds no word.
pub open spec fn search_pick(title: Seq<char>, akas: Seq<Seq<char>>) -> Option<Seq<char>> {
    if has_hostile(title) && words::tokens(title).len() > 0 {
        first_stand_in(title, akas)
    } else {
        None
    }
}

/// The alternative title to search with in place of `title`: the card's `searchTitle`. `None`
/// unless `title` carries a [search-hostile symbol](is_search_hostile_symbol) **and** an
/// alternative is symbol-free and strictly more specific (all of the title's word tokens, plus at
/// least one): `3 percent` for `3%`, never the bare `3`. The first that qualifies wins.
pub fn search_aka<'a>(title: &str, akas: &'a Vec<String>) -> (r: Option<&'a str>)
    ensures
        match r {
            Some(aka) => search_pick(title@, text::texts(akas@)) == Some(aka@),
            None => search_pick(title@, text::texts(akas@)) is None,
        },
{
    if !has_hostile_symbol(title) {
        return None;
    }
    let want = norm_tokens(title);
    assert(text::texts(want@).len() == want@.len());
    if want.len() == 0 {
        return None;
    }
    let ghost all = text::texts(akas@);
    let mut i: usize = 0;
    assert(all.skip(0) =~= all);
    while i < akas.len()
        invariant
            i <= akas.len(),
            all == text::texts(akas@),
            text::texts(want@) == words::tokens(title@),
            has_hostile(title@),
            words::tokens(title@).len() > 0,
            first_stand_in(title@, all) == first_stand_in(title@, all.skip(i as int)),
        decreases akas.len() - i,
    {
        let aka = akas[i].as_str();
        assert(all.skip(i as int)[0] == aka@);
        if !has_hostile_symbol(aka) && covers_strictly(&norm_tokens(aka), &want) {
            return Some(aka);
        }
        assert(all.skip(i as int).skip(1) =~= all.skip(i + 1));
        i = i + 1;
    }
    None
}

/// A stand-in is one of the alternatives, holds no hostile symbol, and holds every word of the title
/// and at least one more; no earlier alternative does.
pub proof fn a_stand_in_is_stronger(title: Seq<char>, akas: Seq<Seq<char>>)
    ensures
        search_pick(title, akas) matches Some(aka) ==> {
            &&& akas.contains(aka)
            &&& !has_hostile(aka)
            &&& words::tokens(aka).len() > words::tokens(title).len() > 0
            &&& forall|i: int|
                0 <= i < words::tokens(title).len() ==> words::tokens(aka).contains(
                    #[trigger] words::tokens(title)[i],
                )
        },
        search_pick(title, akas) is None ==> !has_hostile(title) || words::tokens(title).len() == 0
            || forall|i: int| 0 <= i < akas.len() ==> !stands_in(title, #[trigger] akas[i]),
    decreases akas.len(),
{
    if akas.len() > 0 && !stands_in(title, akas[0]) {
        a_stand_in_is_stronger(title, akas.skip(1));
        if let Some(aka) = search_pick(title, akas) {
            let i = choose|i: int| 0 <= i < akas.skip(1).len() && akas.skip(1)[i] == aka;
            assert(akas[i + 1] == aka);
        } else if has_hostile(title) && words::tokens(title).len() > 0 {
            assert forall|i: int| 0 <= i < akas.len() implies !stands_in(
                title,
                #[trigger] akas[i],
            ) by {
                if i > 0 {
                    assert(akas.skip(1)[i - 1] == akas[i]);
                }
            }
        }
    }
}

/// The `searchTitle` of a card, spelled like a member name.
pub open spec fn search_title(card: CardView) -> Option<Seq<char>> {
    match search_pick(card.title, card.guard_titles) {
        Some(aka) => Some(titles::normal_name(aka)),
        None => None,
    }
}

// -- record ids -----------------------------------------------------------------------------

/// The two halves of a record id; neither may be empty.
pub open spec fn record_id_halves(record_id: Seq<char>) -> Option<(Seq<char>, Seq<char>)> {
    match text::split_first(record_id, ':') {
        Some((source, id)) => if source.len() > 0 && id.len() > 0 {
            Some((source, id))
        } else {
            None
        },
        None => None,
    }
}

/// Splits a card `record_id` (`"tmdb:tv:95479"`) back into `(source, source_id)`, the two halves of
/// the CID preimage. `None` when the id carries no source prefix.
pub fn split_record_id(record_id: &str) -> (r: Option<(&str, &str)>)
    ensures
        match r {
            Some((source, id)) => record_id_halves(record_id@) == Some((source@, id@)),
            None => record_id_halves(record_id@) is None,
        },
{
    match split_once(record_id, ':') {
        Some((source, id)) => if !source.is_empty() && !id.is_empty() {
            Some((source, id))
        } else {
            None
        },
        None => None,
    }
}

/// A record id splits back into its source and its source-local id.
pub proof fn record_id_splits_back(source: CardSource, source_id: Seq<char>)
    requires
        source_id.len() > 0,
    ensures
        record_id_halves(record_id_text(source, source_id)) == Some(
            (source_text(source), source_id),
        ),
{
    reveal_strlit("tmdb");
    reveal_strlit(":");
    assert(":"@ =~= seq![':']);
    assert(!source_text(source).contains(':'));
    text::lemma_split_joined(source_text(source), ':', source_id);
}

/// Two cards share a record id only when they share their source-local id.
pub proof fn record_ids_tell_works_apart(
    a: CardSource,
    id_a: Seq<char>,
    b: CardSource,
    id_b: Seq<char>,
)
    requires
        id_a.len() > 0,
        id_b.len() > 0,
        record_id_text(a, id_a) == record_id_text(b, id_b),
    ensures
        source_text(a) == source_text(b),
        id_a == id_b,
{
    record_id_splits_back(a, id_a);
    record_id_splits_back(b, id_b);
}

// -- the record's fields --------------------------------------------------------------------

/// `fields` with one more, when there is a value for it.
pub open spec fn with_value(
    fields: Map<Seq<char>, Seq<char>>,
    key: Seq<char>,
    value: Option<Seq<char>>,
) -> Map<Seq<char>, Seq<char>> {
    match value {
        Some(v) => fields.insert(key, v),
        None => fields,
    }
}

/// `fields` with each of `keys` filed as a key-set member, that is as `"true"`.
pub open spec fn with_members(
    fields: Map<Seq<char>, Seq<char>>,
    keys: Seq<Seq<char>>,
) -> Map<Seq<char>, Seq<char>>
    decreases keys.len(),
{
    if keys.len() == 0 {
        fields
    } else {
        with_members(fields, keys.drop_last()).insert(keys.last(), "true"@)
    }
}

/// The `titles/{lang3}/{name}` keys of a work's names.
pub open spec fn title_keys(names: Seq<(Seq<char>, Seq<char>)>) -> Seq<Seq<char>>
    decreases names.len(),
{
    if names.len() == 0 {
        Seq::empty()
    } else {
        let before = title_keys(names.drop_last());
        match titles::title_key(names.last().0, names.last().1) {
            Some(key) => before.push(key),
            None => before,
        }
    }
}

/// The `genres/{name}` keys of a work's genres; a blank genre has none.
pub open spec fn genre_keys(genres: Seq<Seq<char>>) -> Seq<Seq<char>>
    decreases genres.len(),
{
    if genres.len() == 0 {
        Seq::empty()
    } else {
        let before = genre_keys(genres.drop_last());
        if text::trim(genres.last()).len() > 0 {
            before.push("genres/"@ + text::trim(genres.last()))
        } else {
            before
        }
    }
}

/// The `cids/{cid}` key of a card's locator.
pub open spec fn cid_keys(cid: Option<Seq<char>>) -> Seq<Seq<char>> {
    match cid {
        Some(c) => seq!["cids/"@ + c],
        None => Seq::empty(),
    }
}

/// A text, unless it is empty.
pub open spec fn non_empty(t: Option<Seq<char>>) -> Option<Seq<char>> {
    if t is Some && t->0.len() > 0 {
        t
    } else {
        None
    }
}

impl CardView {
    /// The synopsis, trimmed and non-empty.
    pub open spec fn overview_text(self) -> Option<Seq<char>> {
        match self.overview {
            Some(o) => non_empty(Some(text::trim(o))),
            None => None,
        }
    }

    /// The poster path, non-empty.
    pub open spec fn poster(self) -> Option<Seq<char>> {
        non_empty(self.poster_path)
    }

    /// Would this card actually render?
    pub open spec fn displayable(self) -> bool {
        self.overview_text() is Some && self.poster() is Some
    }

    /// The record id.
    pub open spec fn record_id(self) -> Seq<char> {
        record_id_text(self.source, self.source_id)
    }

    /// The fields that stand for themselves: one key, one value.
    pub open spec fn plain_fields(self, links: LinksView, image_base: Seq<char>) -> Map<
        Seq<char>,
        Seq<char>,
    > {
        let typed = Map::<Seq<char>, Seq<char>>::empty().insert("fileType"@, "card"@).insert(
            "contentKind"@,
            content_kind_text(self.kind),
        );
        let placed = with_value(
            with_value(typed, "domain"@, links.domain),
            "workForm"@,
            links.work_form,
        );
        let named = with_value(
            placed.insert("title"@, self.title),
            "searchTitle"@,
            search_title(self),
        );
        let tmdbid = match self.tmdbid {
            Some(id) => Some(decimal::numeral(id as nat)),
            None => None,
        };
        let tvdbid = match self.tvdb_id {
            Some(id) => Some(decimal::signed_numeral(id as int)),
            None => None,
        };
        let year = match self.year {
            Some(y) => Some(decimal::numeral(y as nat)),
            None => None,
        };
        let seasons = if self.kind == TmdbKind::Tv && self.seasons > 0 {
            Some(decimal::numeral(self.seasons as nat))
        } else {
            None
        };
        let identified = with_value(
            with_value(
                with_value(
                    with_value(
                        with_value(named, "tmdbid"@, tmdbid),
                        "tvdbid"@,
                        tvdbid,
                    ),
                    "imdbid"@,
                    non_empty(self.imdb_id),
                ),
                "movieYear"@,
                year,
            ),
            "seasonCount"@,
            seasons,
        );
        identified.insert("poster_url"@, tmdb_client::poster_url(image_base, self.poster()->0))
    }

    /// The key-set members: names, genres, the locator, the posters.
    pub open spec fn member_keys(self, links: LinksView, image_base: Seq<char>) -> Seq<Seq<char>> {
        title_keys(self.names) + genre_keys(self.genres) + cid_keys(links.cid)
            + posters::poster_keys(image_base, self.poster()->0, self.posters, links.locators)
    }

    /// The fields a card files for itself.
    pub open spec fn own_fields(self, links: LinksView, image_base: Seq<char>) -> Map<
        Seq<char>,
        Seq<char>,
    > {
        with_members(
            self.plain_fields(links, image_base),
            self.member_keys(links, image_base),
        ).insert("description/eng"@, self.overview_text()->0)
    }
}

/// Is a filter echoed? Not the two whose field is a key-set, and not one without a value.
pub open spec fn is_echoed(filters: Map<Seq<char>, Seq<Seq<char>>>, key: Seq<char>) -> bool {
    filters.contains_key(key) && filters[key].len() > 0 && key != "languages"@ && key != "genres"@
}

/// `fields` plus an echo of every filter that they leave room for: its values, comma-joined.
pub open spec fn with_echo(
    fields: Map<Seq<char>, Seq<char>>,
    filters: Map<Seq<char>, Seq<Seq<char>>>,
) -> Map<Seq<char>, Seq<char>> {
    Map::new(
        |key: Seq<char>| fields.contains_key(key) || is_echoed(filters, key),
        |key: Seq<char>|
            if fields.contains_key(key) {
                fields[key]
            } else {
                words::join(filters[key], ","@)
            },
    )
}

/// The fields of a card's record.
pub open spec fn record_fields(
    card: CardView,
    links: LinksView,
    image_base: Seq<char>,
    filters: Map<Seq<char>, Seq<Seq<char>>>,
) -> Map<Seq<char>, Seq<char>> {
    with_echo(card.own_fields(links, image_base), filters)
}

// -- the projection -------------------------------------------------------------------------

fn file_members(fields: &mut KeyMap<String>, keys: &Vec<String>)
    ensures
        final(fields)@ == with_members(old(fields)@, text::texts(keys@)),
{
    let ghost all = text::texts(keys@);
    let mut i: usize = 0;
    while i < keys.len()
        invariant
            i <= keys.len(),
            all == text::texts(keys@),
            fields@ == with_members(old(fields)@, all.take(i as int)),
        decreases keys.len() - i,
    {
        fields.insert(keys[i].clone(), "true".to_owned());
        proof {
            let now = all.take(i + 1);
            assert(now.drop_last() =~= all.take(i as int));
            assert(now.last() == keys@[i as int]@);
        }
        i = i + 1;
    }
    assert(all.take(keys@.len() as int) =~= all);
}

fn file_value(fields: &mut KeyMap<String>, key: &str, value: Option<String>)
    ensures
        final(fields)@ == with_value(old(fields)@, key@, text::text_of(value)),
{
    if let Some(v) = value {
        fields.insert(key.to_owned(), v);
    }
}

fn title_key_list(names: &Vec<(&'static str, String)>) -> (r: Vec<String>)
    ensures
        text::texts(r@) == title_keys(titles::names_of(names@)),
{
    let ghost all = titles::names_of(names@);
    let mut out: Vec<String> = Vec::new();
    let mut i: usize = 0;
    assert(text::texts(out@) =~= title_keys(all.take(0)));
    while i < names.len()
        invariant
            i <= names.len(),
            all == titles::names_of(names@),
            text::texts(out@) == title_keys(all.take(i as int)),
        decreases names.len() - i,
    {
        let ghost now = all.take(i + 1);
        assert(now.drop_last() =~= all.take(i as int));
        assert(now.last() == (names@[i as int].0@, names@[i as int].1@));
        if let Some(key) = title_member_key(names[i].0, names[i].1.as_str()) {
            let ghost done = text::texts(out@);
            let ghost k = key@;
            out.push(key);
            assert(text::texts(out@) =~= done.push(k));
        }
        i = i + 1;
    }
    assert(all.take(names@.len() as int) =~= all);
    out
}

fn genre_key_list(genres: &Vec<String>) -> (r: Vec<String>)
    ensures
        text::texts(r@) == genre_keys(text::texts(genres@)),
{
    let ghost all = text::texts(genres@);
    let mut out: Vec<String> = Vec::new();
    let mut i: usize = 0;
    assert(text::texts(out@) =~= genre_keys(all.take(0)));
    while i < genres.len()
        invariant
            i <= genres.len(),
            all == text::texts(genres@),
            text::texts(out@) == genre_keys(all.take(i as int)),
        decreases genres.len() - i,
    {
        let ghost now = all.take(i + 1);
        assert(now.drop_last() =~= all.take(i as int));
        assert(now.last() == genres@[i as int]@);
        let genre = trimmed(genres[i].as_str());
        if !genre.is_empty() {
            let ghost done = text::texts(out@);
            let mut key = "genres/".to_owned();
            key.append(genre);
            let ghost k = key@;
            out.push(key);
            assert(text::texts(out@) =~= done.push(k));
        }
        i = i + 1;
    }
    assert(all.take(genres@.len() as int) =~= all);
    out
}

fn echo_filters(fields: &mut KeyMap<String>, filters: &KeyMap<Vec<String>>)
    ensures
        final(fields)@ == with_echo(old(fields)@, filters@),
{
    let ghost base = fields@;
    let n: usize = filters.len();
    let ghost keys = filters.keys();
    let mut i: usize = 0;
    while i < n
        invariant
            i <= n == keys.len(),
            keys == filters.keys(),
            keys.no_duplicates(),
            forall|k: Seq<char>| filters@.contains_key(k) <==> #[trigger] keys.contains(k),
            forall|k: Seq<char>|
                #![trigger fields@.contains_key(k)]
                fields@.contains_key(k) <==> base.contains_key(k) || (is_echoed(filters@, k)
                    && keys.take(i as int).contains(k)),
            forall|k: Seq<char>|
                #![trigger fields@[k]]
                fields@.contains_key(k) ==> fields@[k] == if base.contains_key(k) {
                    base[k]
                } else {
                    words::join(filters@[k], ","@)
                },
        decreases n - i,
    {
        let key = filters.key_at(i);
        let values = filters.value_at(i);
        let ghost before = fields@;
        proof {
            assert(keys.take(i + 1) =~= keys.take(i as int).push(key@));
            assert forall|k: Seq<char>| #[trigger] keys.take(i + 1).contains(k) <==> keys.take(
                i as int,
            ).contains(k) || k == key@ by {
                if keys.take(i as int).contains(k) {
                    let j = choose|j: int| 0 <= j < i && keys.take(i as int)[j] == k;
                    assert(keys.take(i + 1)[j] == k);
                }
                assert(keys.take(i + 1)[i as int] == key@);
            }
            assert(!keys.take(i as int).contains(key@)) by {
                if keys.take(i as int).contains(key@) {
                    let j = choose|j: int| 0 <= j < i && keys.take(i as int)[j] == key@;
                    assert(keys[j] == keys[i as int]);
                }
            }
            assert(text::texts(values@) =~= filters@[key@]);
        }
        let is_key_set = str_eq(key, "languages") || str_eq(key, "genres");
        if !is_key_set && !fields.contains_key(key) && values.len() > 0 {
            fields.insert(key.to_owned(), join_texts(values, ","));
        }
        i = i + 1;
    }
    proof {
        assert(keys.take(n as int) =~= keys);
        assert(fields@ =~= with_echo(base, filters@));
    }
}

impl Card {
    /// `contentKind` for this card: a work-level facet, orthogonal to `fileType=card`. A whole show
    /// is `series`.
    pub fn content_kind(&self) -> (r: &'static str)
        ensures
            r@ == content_kind_text(self.kind),
    {
        match self.kind {
            TmdbKind::Tv => "series",
            TmdbKind::Movie => "movie",
        }
    }

    /// The feeder-scoped record id, `"<source>:<source_id>"`: also the exact preimage of the card
    /// CID, so that a record id leads straight back to a CID with no lookup.
    pub fn record_id(&self) -> (r: String)
        ensures
            r@ == self@.record_id(),
    {
        let mut id = self.source.as_str().to_owned();
        id.append(":");
        id.append(self.source_id.as_str());
        id
    }

    /// The preimage of this card's locator CID: `(source, source_id)`. Deterministic, so that any
    /// peer holding the id derives the same address offline.
    pub fn cid_preimage(&self) -> (r: (&str, &str))
        ensures
            r.0@ == source_text(self.source),
            r.1@ == self.source_id@,
    {
        (self.source.as_str(), self.source_id.as_str())
    }

    /// Clamps a TMDB season count into the defensive ceiling.
    pub fn clamp_seasons(n: u32) -> (r: u32)
        ensures
            r == clamped_seasons(n),
    {
        if n < 1 {
            1
        } else if n > MAX_CARD_SEASONS {
            MAX_CARD_SEASONS
        } else {
            n
        }
    }

    /// The card's synopsis, trimmed and non-empty.
    pub fn overview_text(&self) -> (r: Option<&str>)
        ensures
            match r {
                Some(o) => self@.overview_text() == Some(o@),
                None => self@.overview_text() is None,
            },
    {
        match &self.overview {
            Some(o) => {
                let t = trimmed(o.as_str());
                if t.is_empty() {
                    None
                } else {
                    Some(t)
                }
            },
            None => None,
        }
    }

    /// The card's poster path, non-empty.
    pub fn poster(&self) -> (r: Option<&str>)
        ensures
            match r {
                Some(p) => self@.poster() == Some(p@),
                None => self@.poster() is None,
            },
    {
        match &self.poster_path {
            Some(p) => if p.as_str().is_empty() {
                None
            } else {
                Some(p.as_str())
            },
            None => None,
        }
    }

    /// Would this card actually render? Exactly [`Card::to_record`]'s emit condition, hoisted so
    /// that a caller can predict the drop *before* projecting.
    pub fn is_displayable(&self) -> (r: bool)
        ensures
            r == self@.displayable(),
    {
        self.overview_text().is_some() && self.poster().is_some()
    }

    fn plain(&self, links: &CardLinks, tmdb: &TmdbClient, poster_path: &str) -> (r: KeyMap<String>)
        requires
            self@.poster() == Some(poster_path@),
        ensures
            r@ == self@.plain_fields(links@, tmdb.image_base@),
    {
        let mut fields: KeyMap<String> = KeyMap::new();
        fields.insert("fileType".to_owned(), "card".to_owned());
        fields.insert("contentKind".to_owned(), self.content_kind().to_owned());
        file_value(&mut fields, "domain", text::clone_text(&links.domain));
        file_value(&mut fields, "workForm", text::clone_text(&links.work_form));
        fields.insert("title".to_owned(), self.title.clone());
        let search = match search_aka(self.title.as_str(), &self.guard_titles) {
            Some(aka) => Some(normalize_title_name(aka)),
            None => None,
        };
        file_value(&mut fields, "searchTitle", search);
        let tmdbid = match self.tmdbid {
            Some(id) => Some(unsigned_text(id)),
            None => None,
        };
        file_value(&mut fields, "tmdbid", tmdbid);
        let tvdbid = match self.tvdb_id {
            Some(id) => Some(signed_text(id)),
            None => None,
        };
        file_value(&mut fields, "tvdbid", tvdbid);
        let imdbid = match &self.imdb_id {
            Some(id) => if id.as_str().is_empty() {
                None
            } else {
                Some(id.clone())
            },
            None => None,
        };
        file_value(&mut fields, "imdbid", imdbid);
        let year = match self.year {
            Some(y) => Some(unsigned_text(y as u64)),
            None => None,
        };
        file_value(&mut fields, "movieYear", year);
        let seasons = if self.kind == TmdbKind::Tv && self.seasons > 0 {
            Some(unsigned_text(self.seasons as u64))
        } else {
            None
        };
        file_value(&mut fields, "seasonCount", seasons);
        fields.insert("poster_url".to_owned(), tmdb.poster_cdn_url(poster_path));
        fields
    }

    fn members(&self, links: &CardLinks, tmdb: &TmdbClient, poster_path: &str) -> (r: Vec<String>)
        requires
            self@.poster() == Some(poster_path@),
        ensures
            text::texts(r@) == self@.member_keys(links@, tmdb.image_base@),
    {
        let mut keys = title_key_list(&self.names);
        let ghost names = text::texts(keys@);
        let mut more = genre_key_list(&self.genres);
        let ghost genres = text::texts(more@);
        keys.append(&mut more);
        assert(text::texts(keys@) =~= names + genres);
        if let Some(cid) = &links.cid {
            let mut key = "cids/".to_owned();
            key.append(cid.as_str());
            keys.push(key);
        }
        assert(text::texts(keys@) =~= names + genres + cid_keys(links@.cid));
        let ghost done = text::texts(keys@);
        let mut last = poster_member_keys(tmdb, poster_path, &self.posters, &links.locators);
        let ghost posters = text::texts(last@);
        keys.append(&mut last);
        assert(text::texts(keys@) =~= done + posters);
        keys
    }

    /// Projects to the wire record.
    ///
    /// Returns `None` when the card lacks a poster or a description: it would render as a hole in
    /// the grid, so the feeder declines to emit it.
    ///
    /// `query_filters` is echoed back (except the two fields that are stored as key-sets), so that
    /// the record survives the re-filtering on the way out.
    pub fn to_record(
        &self,
        tmdb: &TmdbClient,
        query_filters: &KeyMap<Vec<String>>,
        links: &CardLinks,
    ) -> (r: Option<DiscoveryRecord>)
        ensures
            match r {
                Some(record) => {
                    &&& self@.displayable()
                    &&& record.upstream_id@ == source_text(self.source)
                    &&& record.record_id@ == self@.record_id()
                    &&& record.fields@ == record_fields(
                        self@,
                        links@,
                        tmdb.image_base@,
                        query_filters@,
                    )
                },
                None => !self@.displayable(),
            },
    {
        let overview = match self.overview_text() {
            Some(o) => o,
            None => return None,
        };
        let poster_path = match self.poster() {
            Some(p) => p,
            None => return None,
        };
        let mut fields = self.plain(links, tmdb, poster_path);
        let keys = self.members(links, tmdb, poster_path);
        file_members(&mut fields, &keys);
        fields.insert("description/eng".to_owned(), overview.to_owned());
        echo_filters(&mut fields, query_filters);
        Some(
            DiscoveryRecord {
                upstream_id: self.source.as_str().to_owned(),
                record_id: self.record_id(),
                fields,
            },
        )
    }
}

} // verus!
