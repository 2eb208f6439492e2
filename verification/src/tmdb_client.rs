//! TMDB requests and replies: URLs, response handling, the decoded payloads.
//!
//! Sending a request and decoding JSON happen outside; what is asked for and what is made of the
//! answer is decided here.

use vstd::prelude::*;

use crate::consts::{
    TMDB_API_BASE, TMDB_IMAGE_BASE, TMDB_POSTER_SIZE, TMDB_RATE_LIMIT_DEFAULT_RETRY_SECS,
};
use crate::decimal;
use crate::decimal::{parse_unsigned, push_numeral};
use crate::languages;
use crate::languages::iso639_1_to_3;
use crate::text;
use crate::text::{clone_text, is_blank, trimmed, without_leading, without_trailing};
use crate::titles;
use crate::titles::{TmdbAltTitle, TmdbAltTitles};

verus! {

/// A film or a show.
#[derive(Clone, Copy, Debug, PartialEq, Eq, Structural)]
pub enum TmdbKind {
    Movie,
    Tv,
}

/// The word TMDB uses for a kind in its paths.
pub open spec fn kind_text(kind: TmdbKind) -> Seq<char> {
    match kind {
        TmdbKind::Movie => "movie"@,
        TmdbKind::Tv => "tv"@,
    }
}

/// The word TMDB uses for a kind in its paths.
pub fn kind_str(kind: TmdbKind) -> (r: &'static str)
    ensures
        r@ == kind_text(kind),
{
    match kind {
        TmdbKind::Movie => "movie",
        TmdbKind::Tv => "tv",
    }
}

// -- requests -------------------------------------------------------------------------------

/// What a TMDB client needs to know to phrase its requests.
#[derive(Clone)]
pub struct TmdbClient {
    pub bearer_token: String,
    pub api_base: String,
    pub image_base: String,
}

/// The public CDN address of a poster: base, size segment, file path, one `/` between them.
pub open spec fn poster_url(image_base: Seq<char>, poster_path: Seq<char>) -> Seq<char> {
    text::strip_trailing(image_base, '/') + "/"@ + TMDB_POSTER_SIZE@ + "/"@ + text::strip_leading(
        poster_path,
        '/',
    )
}

/// The address of a title search: the kind, a title already percent-encoded, and perhaps a year.
pub open spec fn search_address(
    base: Seq<char>,
    kind: TmdbKind,
    encoded_title: Seq<char>,
    year: Option<u16>,
) -> Seq<char> {
    let plain = base + "/search/"@ + kind_text(kind) + "?query="@ + encoded_title
        + "&include_adult=false"@;
    match year {
        Some(y) => plain + "&year="@ + decimal::numeral(y as nat),
        None => plain,
    }
}

/// The address of a work's details, with alternative titles and images appended.
pub open spec fn details_address(base: Seq<char>, kind: TmdbKind, tmdbid: u64) -> Seq<char> {
    match kind {
        TmdbKind::Movie => base + "/movie/"@ + decimal::numeral(tmdbid as nat)
            + "?append_to_response=alternative_titles,images"@,
        TmdbKind::Tv => base + "/tv/"@ + decimal::numeral(tmdbid as nat)
            + "?append_to_response=alternative_titles,images"@,
    }
}

/// The address of a work's external ids.
pub open spec fn external_ids_address(base: Seq<char>, kind: TmdbKind, tmdbid: u64) -> Seq<char> {
    base + "/"@ + kind_text(kind) + "/"@ + decimal::numeral(tmdbid as nat) + "/external_ids"@
}

/// The address of a search among all kinds: a query already percent-encoded.
pub open spec fn multi_address(base: Seq<char>, encoded_query: Seq<char>) -> Seq<char> {
    base + "/search/multi?query="@ + encoded_query + "&include_adult=false"@
}

/// The address of a catalog list, by its path and query.
pub open spec fn list_address(base: Seq<char>, path_and_query: Seq<char>) -> Seq<char> {
    base + "/"@ + text::strip_leading(path_and_query, '/')
}

/// The address of the genre list of a kind.
pub open spec fn genres_address(base: Seq<char>, kind: TmdbKind) -> Seq<char> {
    base + "/genre/"@ + kind_text(kind) + "/list"@
}

impl TmdbClient {
    /// A client of the real TMDB.
    pub fn new(bearer_token: String) -> (r: Self)
        ensures
            r.bearer_token == bearer_token,
            r.api_base@ == TMDB_API_BASE@,
            r.image_base@ == TMDB_IMAGE_BASE@,
    {
        TmdbClient {
            bearer_token,
            api_base: TMDB_API_BASE.to_owned(),
            image_base: TMDB_IMAGE_BASE.to_owned(),
        }
    }

    /// A client of another server that speaks TMDB's API.
    pub fn with_bases(token: String, api_base: String, image_base: String) -> (r: Self)
        ensures
            r.bearer_token == token,
            r.api_base == api_base,
            r.image_base == image_base,
    {
        TmdbClient { bearer_token: token, api_base, image_base }
    }

    /// The API base without the slashes at its end.
    pub open spec fn base(self) -> Seq<char> {
        text::strip_trailing(self.api_base@, '/')
    }

    fn start(&self) -> (r: String)
        ensures
            r@ == self.base(),
    {
        without_trailing(self.api_base.as_str(), '/').to_owned()
    }

    /// `GET /3/search/{movie,tv}`: a title, already percent-encoded, and perhaps a year.
    pub fn search_url(&self, kind: TmdbKind, encoded_title: &str, year: Option<u16>) -> (r: String)
        ensures
            r@ == search_address(self.base(), kind, encoded_title@, year),
    {
        let mut url = self.start();
        url.append("/search/");
        url.append(kind_str(kind));
        url.append("?query=");
        url.append(encoded_title);
        url.append("&include_adult=false");
        if let Some(y) = year {
            url.append("&year=");
            push_numeral(&mut url, y as u64);
        }
        url
    }

    /// The public CDN address of a poster. The feeder never fetches poster bytes: it emits this
    /// address as `poster_url`, and the gateway core seeds it.
    pub fn poster_cdn_url(&self, poster_path: &str) -> (r: String)
        ensures
            r@ == poster_url(self.image_base@, poster_path@),
    {
        let mut url = without_trailing(self.image_base.as_str(), '/').to_owned();
        url.append("/");
        url.append(TMDB_POSTER_SIZE);
        url.append("/");
        url.append(without_leading(poster_path, '/'));
        url
    }

    /// `GET /3/tv/{id}`, with alternative titles and images appended.
    pub fn tv_details_url(&self, tmdbid: u64) -> (r: String)
        ensures
            r@ == details_address(self.base(), TmdbKind::Tv, tmdbid),
    {
        let mut url = self.start();
        url.append("/tv/");
        push_numeral(&mut url, tmdbid);
        url.append("?append_to_response=alternative_titles,images");
        url
    }

    /// `GET /3/movie/{id}`, with alternative titles and images appended.
    pub fn movie_details_url(&self, tmdbid: u64) -> (r: String)
        ensures
            r@ == details_address(self.base(), TmdbKind::Movie, tmdbid),
    {
        let mut url = self.start();
        url.append("/movie/");
        push_numeral(&mut url, tmdbid);
        url.append("?append_to_response=alternative_titles,images");
        url
    }

    /// `GET /3/{tv,movie}/{id}/external_ids`.
    pub fn external_ids_url(&self, kind: TmdbKind, tmdbid: u64) -> (r: String)
        ensures
            r@ == external_ids_address(self.base(), kind, tmdbid),
    {
        let mut url = self.start();
        url.append("/");
        url.append(kind_str(kind));
        url.append("/");
        push_numeral(&mut url, tmdbid);
        url.append("/external_ids");
        url
    }

    /// `GET /3/search/multi`: a query, already percent-encoded.
    pub fn search_multi_url(&self, encoded_query: &str) -> (r: String)
        ensures
            r@ == multi_address(self.base(), encoded_query@),
    {
        let mut url = self.start();
        url.append("/search/multi?query=");
        url.append(encoded_query);
        url.append("&include_adult=false");
        url
    }

    /// A catalog list, by its path and query.
    pub fn discovery_url(&self, path_and_query: &str) -> (r: String)
        ensures
            r@ == list_address(self.base(), path_and_query@),
    {
        let mut url = self.start();
        url.append("/");
        url.append(without_leading(path_and_query, '/'));
        url
    }

    /// `GET /3/genre/{tv,movie}/list`.
    pub fn genre_list_url(&self, kind: TmdbKind) -> (r: String)
        ensures
            r@ == genres_address(self.base(), kind),
    {
        let mut url = self.start();
        url.append("/genre/");
        url.append(kind_str(kind));
        url.append("/list");
        url
    }
}

// -- replies --------------------------------------------------------------------------------

/// Outcome of a TMDB API call. Tells a 429, whose pause (in seconds) feeds the shared budget, from
/// a plain miss or a transient error.
#[derive(Debug)]
pub enum TmdbCall<T> {
    Hit(T),
    Miss,
    RateLimited(u64),
}

/// What to do once a response's head has arrived (or failed to).
#[derive(Clone, Copy, Debug, PartialEq, Eq, Structural)]
pub enum ResponseStep {
    /// Give up on this call.
    Miss,
    /// Give up, and pause all calls for this many seconds.
    RateLimited(u64),
    /// Decode the body.
    Decode,
}

/// The pause a `Retry-After` header asks for, in seconds; the default when it is absent or not a
/// number of seconds.
pub open spec fn retry_after_secs(header: Option<Seq<char>>) -> u64 {
    match header {
        Some(h) => match decimal::unsigned_value(h, u64::MAX as nat) {
            Some(n) => n as u64,
            None => TMDB_RATE_LIMIT_DEFAULT_RETRY_SECS,
        },
        None => TMDB_RATE_LIMIT_DEFAULT_RETRY_SECS,
    }
}

/// Parses a TMDB `Retry-After` header into a pause in seconds, defaulting to
/// [`TMDB_RATE_LIMIT_DEFAULT_RETRY_SECS`] when absent or unparseable.
pub fn parse_tmdb_retry_after(header: Option<&str>) -> (r: u64)
    ensures
        r == retry_after_secs(
            match header {
                Some(h) => Some(h@),
                None => None,
            },
        ),
{
    match header {
        Some(h) => match parse_unsigned(h, u64::MAX) {
            Some(n) => n,
            None => TMDB_RATE_LIMIT_DEFAULT_RETRY_SECS,
        },
        None => TMDB_RATE_LIMIT_DEFAULT_RETRY_SECS,
    }
}

/// What a response's head asks for.
pub open spec fn response_step(status: Option<u16>, retry_after: Option<Seq<char>>) -> ResponseStep {
    match status {
        None => ResponseStep::Miss,
        Some(429) => ResponseStep::RateLimited(retry_after_secs(retry_after)),
        Some(code) => if 200 <= code <= 299 {
            ResponseStep::Decode
        } else {
            ResponseStep::Miss
        },
    }
}

/// What a response's head asks for. `status` is `None` when the request failed or timed out.
pub fn on_response(status: Option<u16>, retry_after: Option<&str>) -> (r: ResponseStep)
    ensures
        r == response_step(
            status,
            match retry_after {
                Some(h) => Some(h@),
                None => None,
            },
        ),
{
    match status {
        None => ResponseStep::Miss,
        Some(code) => if code == 429 {
            ResponseStep::RateLimited(parse_tmdb_retry_after(retry_after))
        } else if 200 <= code && code <= 299 {
            ResponseStep::Decode
        } else {
            ResponseStep::Miss
        },
    }
}

/// What a decoded body amounts to.
pub open spec fn body_call<T>(body: Option<T>) -> TmdbCall<T> {
    match body {
        Some(b) => TmdbCall::Hit(b),
        None => TmdbCall::Miss,
    }
}

/// What a decoded body amounts to; one that did not decode, or not in time, is a miss.
pub fn on_body<T>(body: Option<T>) -> (r: TmdbCall<T>)
    ensures
        r == body_call(body),
{
    match body {
        Some(b) => TmdbCall::Hit(b),
        None => TmdbCall::Miss,
    }
}

// -- images ---------------------------------------------------------------------------------

/// One poster from a details payload's `images` append.
#[derive(Debug, Clone, Default, PartialEq)]
pub struct TmdbImage {
    pub file_path: String,
    /// Language of the text printed on the poster (ISO 639-1); `None` = textless.
    pub iso_639_1: Option<String>,
    /// The bit pattern of the average vote, a double.
    pub vote_average: u64,
    pub vote_count: u32,
}

/// The view of a [`TmdbImage`].
#[verifier::ext_equal]
pub struct ImageView {
    pub file_path: Seq<char>,
    pub language: Option<Seq<char>>,
    pub vote_average: u64,
    pub vote_count: u32,
}

impl View for TmdbImage {
    type V = ImageView;

    open spec fn view(&self) -> ImageView {
        ImageView {
            file_path: self.file_path@,
            language: text::text_of(self.iso_639_1),
            vote_average: self.vote_average,
            vote_count: self.vote_count,
        }
    }
}

/// The views of a list of images.
pub open spec fn images_of(v: Seq<TmdbImage>) -> Seq<ImageView> {
    v.map_values(|i: TmdbImage| i@)
}

/// A list of images, cloned.
pub fn clone_images(list: &Vec<TmdbImage>) -> (r: Vec<TmdbImage>)
    ensures
        images_of(r@) == images_of(list@),
{
    let mut out: Vec<TmdbImage> = Vec::new();
    let mut i: usize = 0;
    while i < list.len()
        invariant
            i <= list.len(),
            images_of(out@) == images_of(list@).take(i as int),
        decreases list.len() - i,
    {
        let ghost done = images_of(out@);
        let image = TmdbImage {
            file_path: list[i].file_path.clone(),
            iso_639_1: clone_text(&list[i].iso_639_1),
            vote_average: list[i].vote_average,
            vote_count: list[i].vote_count,
        };
        let ghost v = image@;
        out.push(image);
        assert(images_of(out@) =~= done.push(v));
        assert(images_of(list@).take(i + 1) =~= images_of(list@).take(i as int).push(
            images_of(list@)[i as int],
        ));
        i = i + 1;
    }
    assert(images_of(list@).take(list@.len() as int) =~= images_of(list@));
    out
}

/// The `images` object of a details payload; only the posters are decoded.
#[derive(Debug, Clone, Default)]
pub struct TmdbImages {
    pub posters: Vec<TmdbImage>,
}

// -- hits -----------------------------------------------------------------------------------

/// The year a `YYYY-MM-DD` date starts with.
pub open spec fn leading_year(date: Option<Seq<char>>) -> Option<u16> {
    match date {
        Some(d) => if d.len() >= 4 {
            match decimal::unsigned_value(d.take(4), u16::MAX as nat) {
                Some(y) => Some(y as u16),
                None => None,
            }
        } else {
            None
        },
        None => None,
    }
}

/// The year a `YYYY-MM-DD` date starts with.
pub fn year_of(date: &Option<String>) -> (r: Option<u16>)
    ensures
        r == leading_year(text::text_of(*date)),
{
    match date {
        Some(d) => if d.as_str().unicode_len() >= 4 {
            assert(d@.subrange(0, 4) =~= d@.take(4));
            match parse_unsigned(d.as_str().substring_char(0, 4), u16::MAX as u64) {
                Some(y) => Some(y as u16),
                None => None,
            }
        } else {
            None
        },
        None => None,
    }
}

/// A work as TMDB describes it.
#[derive(Debug, Clone)]
pub struct TmdbHit {
    pub tmdbid: u64,
    pub title: String,
    pub original_title: Option<String>,
    pub original_language: Option<String>,
    pub overview: Option<String>,
    pub year: Option<u16>,
    pub poster_path: Option<String>,
    pub genre_ids: Vec<u32>,
    /// Alternative titles. Empty for hits built from a search list, which carries none.
    pub alt_titles: Vec<String>,
    /// The same alternative titles with their market. Empty on a cache entry written before
    /// markets were kept.
    pub akas: Vec<TmdbAltTitle>,
    /// Poster candidates. Empty for list hits.
    pub posters: Vec<TmdbImage>,
}

/// The view of a [`TmdbHit`].
#[verifier::ext_equal]
pub struct HitView {
    pub tmdbid: u64,
    pub title: Seq<char>,
    pub original_title: Option<Seq<char>>,
    pub original_language: Option<Seq<char>>,
    pub overview: Option<Seq<char>>,
    pub year: Option<u16>,
    pub poster_path: Option<Seq<char>>,
    pub genre_ids: Seq<u32>,
    pub alt_titles: Seq<Seq<char>>,
    pub akas: Seq<(Seq<char>, Seq<char>)>,
    pub posters: Seq<ImageView>,
}

impl View for TmdbHit {
    type V = HitView;

    open spec fn view(&self) -> HitView {
        HitView {
            tmdbid: self.tmdbid,
            title: self.title@,
            original_title: text::text_of(self.original_title),
            original_language: text::text_of(self.original_language),
            overview: text::text_of(self.overview),
            year: self.year,
            poster_path: text::text_of(self.poster_path),
            genre_ids: self.genre_ids@,
            alt_titles: text::texts(self.alt_titles@),
            akas: titles::akas_of(self.akas@),
            posters: images_of(self.posters@),
        }
    }
}

impl HitView {
    /// The language the original title is in, as a three-letter code.
    pub open spec fn lang3(self) -> Option<Seq<char>> {
        match self.original_language {
            Some(code) => languages::lang3_of_code(text::trim(code)),
            None => None,
        }
    }
}

/// The views of a list of hits.
pub open spec fn hits_of(v: Seq<TmdbHit>) -> Seq<HitView> {
    v.map_values(|h: TmdbHit| h@)
}

impl TmdbHit {
    /// The language the original title is in, as a three-letter code.
    pub fn original_lang3(&self) -> (r: Option<&'static str>)
        ensures
            match r {
                Some(lang3) => self@.lang3() == Some(lang3@),
                None => self@.lang3() is None,
            },
    {
        match &self.original_language {
            Some(code) => iso639_1_to_3(trimmed(code.as_str())),
            None => None,
        }
    }
}

/// One result of a search or catalog list.
#[derive(Debug, Clone, Default)]
pub struct TmdbSearchItem {
    pub id: u64,
    /// A film's title.
    pub title: Option<String>,
    /// A show's title.
    pub name: Option<String>,
    /// A film's original title.
    pub original_title: Option<String>,
    /// A show's original title.
    pub original_name: Option<String>,
    pub overview: Option<String>,
    /// A film's date, `YYYY-MM-DD`.
    pub release_date: Option<String>,
    /// A show's date, `YYYY-MM-DD`.
    pub first_air_date: Option<String>,
    pub poster_path: Option<String>,
    pub genre_ids: Vec<u32>,
    /// ISO 639-1 code of the language the work was produced in.
    pub original_language: Option<String>,
}

/// The title, or TMDB's placeholder for a missing one.
pub open spec fn title_or_untitled(title: Option<Seq<char>>) -> Seq<char> {
    match title {
        Some(t) => t,
        None => titles::untitled(),
    }
}

fn string_or_untitled(title: Option<String>) -> (r: String)
    ensures
        r@ == title_or_untitled(text::text_of(title)),
{
    match title {
        Some(t) => t,
        None => "(untitled)".to_owned(),
    }
}

/// The hit a list item stands for: the title and date fields are the kind's own.
pub open spec fn list_hit(item: TmdbSearchItem, kind: TmdbKind) -> HitView {
    let (title, original, date) = match kind {
        TmdbKind::Movie => (item.title, item.original_title, item.release_date),
        TmdbKind::Tv => (item.name, item.original_name, item.first_air_date),
    };
    HitView {
        tmdbid: item.id,
        title: title_or_untitled(text::text_of(title)),
        original_title: text::text_of(original),
        original_language: text::text_of(item.original_language),
        overview: text::text_of(item.overview),
        year: leading_year(text::text_of(date)),
        poster_path: text::text_of(item.poster_path),
        genre_ids: item.genre_ids@,
        alt_titles: Seq::empty(),
        akas: Seq::empty(),
        posters: Seq::empty(),
    }
}

impl TmdbSearchItem {
    /// The hit this item stands for. List items carry no alternative titles and no images.
    pub fn into_hit(self, kind: TmdbKind) -> (r: TmdbHit)
        ensures
            r@ == list_hit(self, kind),
    {
        let (title, original_title, date) = match kind {
            TmdbKind::Movie => (self.title, self.original_title, self.release_date),
            TmdbKind::Tv => (self.name, self.original_name, self.first_air_date),
        };
        let year = year_of(&date);
        let r = TmdbHit {
            tmdbid: self.id,
            title: string_or_untitled(title),
            original_title,
            original_language: self.original_language,
            overview: self.overview,
            year,
            poster_path: self.poster_path,
            genre_ids: self.genre_ids,
            alt_titles: Vec::new(),
            akas: Vec::new(),
            posters: Vec::new(),
        };
        assert(r@.alt_titles =~= Seq::empty());
        assert(r@.akas =~= Seq::empty());
        assert(r@.posters =~= Seq::empty());
        r
    }
}

/// The first result of a title search, as a hit; none when there is none.
pub open spec fn first_hit(kind: TmdbKind, results: Seq<TmdbSearchItem>) -> Option<HitView> {
    if results.len() > 0 {
        Some(list_hit(results[0], kind))
    } else {
        None
    }
}

/// Every result of a catalog page, as hits.
pub open spec fn page_hits(kind: TmdbKind, results: Seq<TmdbSearchItem>) -> Seq<HitView> {
    results.map_values(|i: TmdbSearchItem| list_hit(i, kind))
}

/// The first result of a title search, as a hit; a miss when there is none.
pub fn search_outcome(kind: TmdbKind, results: Vec<TmdbSearchItem>) -> (r: TmdbCall<TmdbHit>)
    ensures
        match r {
            TmdbCall::Hit(hit) => first_hit(kind, results@) == Some(hit@),
            TmdbCall::Miss => first_hit(kind, results@) is None,
            TmdbCall::RateLimited(_) => false,
        },
{
    let mut results = results;
    if results.len() == 0 {
        TmdbCall::Miss
    } else {
        let first = results.remove(0);
        TmdbCall::Hit(first.into_hit(kind))
    }
}

/// Every result of a catalog page, as hits.
pub fn list_hits(kind: TmdbKind, results: Vec<TmdbSearchItem>) -> (r: Vec<TmdbHit>)
    ensures
        hits_of(r@) == page_hits(kind, results@),
{
    let ghost all = results@.map_values(|i: TmdbSearchItem| list_hit(i, kind));
    let mut out: Vec<TmdbHit> = Vec::new();
    for item in it: results
        invariant
            it.seq() == results@,
            all == results@.map_values(|i: TmdbSearchItem| list_hit(i, kind)),
            hits_of(out@) == all.take(it.index()),
    {
        let ghost k: int = it.index();
        let ghost done = hits_of(out@);
        let hit = item.into_hit(kind);
        let ghost v = hit@;
        out.push(hit);
        assert(hits_of(out@) =~= done.push(v));
        assert(all.take(k + 1) =~= all.take(k).push(all[k]));
    }
    assert(all.take(all.len() as int) =~= all);
    out
}

/// What a catalog page amounts to.
pub open spec fn page_call(kind: TmdbKind, reply: TmdbCall<Vec<TmdbSearchItem>>) -> TmdbCall<
    Seq<HitView>,
> {
    match reply {
        TmdbCall::Hit(items) => TmdbCall::Hit(page_hits(kind, items@)),
        TmdbCall::Miss => TmdbCall::Miss,
        TmdbCall::RateLimited(secs) => TmdbCall::RateLimited(secs),
    }
}

/// What a catalog page amounts to.
pub fn discovery_outcome(kind: TmdbKind, reply: TmdbCall<Vec<TmdbSearchItem>>) -> (r: TmdbCall<
    Vec<TmdbHit>,
>)
    ensures
        page_call(kind, reply) == match r {
            TmdbCall::Hit(hits) => TmdbCall::Hit(hits_of(hits@)),
            TmdbCall::Miss => TmdbCall::Miss,
            TmdbCall::RateLimited(secs) => TmdbCall::RateLimited(secs),
        },
{
    match reply {
        TmdbCall::Hit(items) => TmdbCall::Hit(list_hits(kind, items)),
        TmdbCall::Miss => TmdbCall::Miss,
        TmdbCall::RateLimited(secs) => TmdbCall::RateLimited(secs),
    }
}

// -- details --------------------------------------------------------------------------------

/// One `{id, name}` genre entry.
#[derive(Clone, Debug, Default)]
pub struct TmdbGenre {
    pub id: u32,
    pub name: String,
}

/// What TMDB says of one season.
#[derive(Clone, Copy, Debug, Default, PartialEq, Eq, Structural)]
pub struct TmdbSeasonSummary {
    pub season_number: i64,
    /// The released-episode total.
    pub episode_count: u32,
}

/// A show's details.
#[derive(Debug, Clone, Default)]
pub struct TmdbTvDetails {
    pub number_of_seasons: u32,
    pub genres: Vec<TmdbGenre>,
    /// One entry per season TMDB knows about, season 0 ("Specials") included.
    pub seasons: Vec<TmdbSeasonSummary>,
    pub name: String,
    pub original_name: Option<String>,
    pub original_language: Option<String>,
    pub overview: Option<String>,
    pub first_air_date: Option<String>,
    pub poster_path: Option<String>,
    /// `None` on a cache entry written before alternative titles were fetched.
    pub alternative_titles: Option<TmdbAltTitles>,
    /// `None` on a cache entry written before images were fetched.
    pub images: Option<TmdbImages>,
}

/// The alternative titles of a details payload, ordered; none when they were not fetched.
pub open spec fn akas_in(alternative_titles: Option<TmdbAltTitles>) -> Seq<(Seq<char>, Seq<char>)> {
    match alternative_titles {
        Some(a) => a.ordered(),
        None => Seq::empty(),
    }
}

/// The posters of a details payload; none when images were not fetched.
pub open spec fn posters_in(images: Option<TmdbImages>) -> Seq<ImageView> {
    match images {
        Some(i) => images_of(i.posters@),
        None => Seq::empty(),
    }
}

/// The alternative titles of a details payload, ordered.
pub fn aka_entries(alternative_titles: &Option<TmdbAltTitles>) -> (r: Vec<TmdbAltTitle>)
    ensures
        titles::akas_of(r@) == akas_in(*alternative_titles),
{
    match alternative_titles {
        Some(a) => a.entries(),
        None => {
            let r: Vec<TmdbAltTitle> = Vec::new();
            assert(titles::akas_of(r@) =~= Seq::empty());
            r
        },
    }
}

fn aka_texts(alternative_titles: &Option<TmdbAltTitles>) -> (r: Vec<String>)
    ensures
        text::texts(r@) == titles::aka_titles(akas_in(*alternative_titles)),
{
    match alternative_titles {
        Some(a) => a.all(),
        None => {
            let r: Vec<String> = Vec::new();
            assert(text::texts(r@) =~= titles::aka_titles(Seq::empty()));
            r
        },
    }
}

/// The posters of a details payload.
pub fn poster_list(images: &Option<TmdbImages>) -> (r: Vec<TmdbImage>)
    ensures
        images_of(r@) == posters_in(*images),
{
    match images {
        Some(i) => clone_images(&i.posters),
        None => {
            let r: Vec<TmdbImage> = Vec::new();
            assert(images_of(r@) =~= Seq::empty());
            r
        },
    }
}

/// A list with one more text at its end, when there is one.
pub open spec fn and_text(list: Seq<Seq<char>>, more: Option<Seq<char>>) -> Seq<Seq<char>> {
    match more {
        Some(t) => list.push(t),
        None => list,
    }
}

impl TmdbTvDetails {
    /// Does the payload carry the display fields?
    pub open spec fn displays(self) -> bool {
        text::trim(self.name@).len() > 0
    }

    /// Were alternative titles fetched, with their markets?
    pub open spec fn akas_complete(self) -> bool {
        self.alternative_titles is Some && self.alternative_titles->0.decoded_with_markets()
    }

    /// The canonical, original and alternative titles.
    pub open spec fn guards(self) -> Seq<Seq<char>> {
        and_text(seq![self.name@], text::text_of(self.original_name)) + titles::aka_titles(
            akas_in(self.alternative_titles),
        )
    }

    /// The hit a show's details stand for.
    pub open spec fn hit(self, tmdbid: u64) -> HitView {
        HitView {
            tmdbid,
            title: self.name@,
            original_title: text::text_of(self.original_name),
            original_language: text::text_of(self.original_language),
            overview: text::text_of(self.overview),
            year: leading_year(text::text_of(self.first_air_date)),
            poster_path: text::text_of(self.poster_path),
            genre_ids: Seq::empty(),
            alt_titles: titles::aka_titles(akas_in(self.alternative_titles)),
            akas: akas_in(self.alternative_titles),
            posters: posters_in(self.images),
        }
    }

    /// True when the payload carries the display fields. A `false` on a cached payload means that
    /// it was written before they were decoded.
    pub fn has_display(&self) -> (r: bool)
        ensures
            r == self.displays(),
    {
        !is_blank(self.name.as_str())
    }

    /// True when alternative titles were fetched and decoded with their markets. A `false` on a
    /// cached payload means that it predates them.
    pub fn has_akas(&self) -> (r: bool)
        ensures
            r == self.akas_complete(),
    {
        match &self.alternative_titles {
            Some(a) => a.has_markets(),
            None => false,
        }
    }

    /// The show's canonical, original and alternative titles.
    pub fn guard_titles(&self) -> (r: Vec<String>)
        ensures
            text::texts(r@) == self.guards(),
    {
        let mut out: Vec<String> = Vec::new();
        out.push(self.name.clone());
        if let Some(o) = &self.original_name {
            out.push(o.clone());
        }
        let ghost named = text::texts(out@);
        assert(named =~= and_text(seq![self.name@], text::text_of(self.original_name)));
        let mut akas = aka_texts(&self.alternative_titles);
        let ghost more = text::texts(akas@);
        out.append(&mut akas);
        assert(text::texts(out@) =~= named + more);
        out
    }

    /// The hit these details stand for; `None` when the display fields are absent.
    pub fn as_hit(&self, tmdbid: u64) -> (r: Option<TmdbHit>)
        ensures
            match r {
                Some(hit) => self.displays() && hit@ == self.hit(tmdbid),
                None => !self.displays(),
            },
    {
        if !self.has_display() {
            return None;
        }
        let hit = TmdbHit {
            tmdbid,
            title: self.name.clone(),
            original_title: clone_text(&self.original_name),
            original_language: clone_text(&self.original_language),
            overview: clone_text(&self.overview),
            year: year_of(&self.first_air_date),
            poster_path: clone_text(&self.poster_path),
            genre_ids: Vec::new(),
            alt_titles: aka_texts(&self.alternative_titles),
            akas: aka_entries(&self.alternative_titles),
            posters: poster_list(&self.images),
        };
        assert(hit@.genre_ids =~= Seq::empty());
        Some(hit)
    }
}

/// Cross-database ids of a work.
#[derive(Debug, Clone, Default)]
pub struct TmdbExternalIds {
    pub tvdb_id: Option<i64>,
    pub imdb_id: Option<String>,
}

/// A film's details.
#[derive(Debug, Clone, Default)]
pub struct TmdbMovieDetails {
    pub id: u64,
    pub genres: Vec<TmdbGenre>,
    pub title: Option<String>,
    pub original_title: Option<String>,
    pub original_language: Option<String>,
    pub overview: Option<String>,
    pub release_date: Option<String>,
    pub poster_path: Option<String>,
    pub alternative_titles: Option<TmdbAltTitles>,
    pub images: Option<TmdbImages>,
}

/// The ids of a list of genres.
pub open spec fn genre_ids_of(genres: Seq<TmdbGenre>) -> Seq<u32> {
    genres.map_values(|g: TmdbGenre| g.id)
}

fn genre_id_list(genres: &Vec<TmdbGenre>) -> (r: Vec<u32>)
    ensures
        r@ == genre_ids_of(genres@),
{
    let mut out: Vec<u32> = Vec::new();
    let mut i: usize = 0;
    while i < genres.len()
        invariant
            i <= genres.len(),
            out@ == genre_ids_of(genres@).take(i as int),
        decreases genres.len() - i,
    {
        out.push(genres[i].id);
        i = i + 1;
        assert(out@ =~= genre_ids_of(genres@).take(i as int));
    }
    assert(genre_ids_of(genres@).take(genres@.len() as int) =~= genre_ids_of(genres@));
    out
}

impl TmdbMovieDetails {
    /// The hit a film's details stand for. It keeps the genres as bare ids.
    pub open spec fn hit(self) -> HitView {
        HitView {
            tmdbid: self.id,
            title: title_or_untitled(text::text_of(self.title)),
            original_title: text::text_of(self.original_title),
            original_language: text::text_of(self.original_language),
            overview: text::text_of(self.overview),
            year: leading_year(text::text_of(self.release_date)),
            poster_path: text::text_of(self.poster_path),
            genre_ids: genre_ids_of(self.genres@),
            alt_titles: titles::aka_titles(akas_in(self.alternative_titles)),
            akas: akas_in(self.alternative_titles),
            posters: posters_in(self.images),
        }
    }

    /// The hit these details stand for.
    pub fn into_hit(self) -> (r: TmdbHit)
        ensures
            r@ == self.hit(),
    {
        let year = year_of(&self.release_date);
        let alt_titles = aka_texts(&self.alternative_titles);
        let akas = aka_entries(&self.alternative_titles);
        let posters = poster_list(&self.images);
        let genre_ids = genre_id_list(&self.genres);
        TmdbHit {
            tmdbid: self.id,
            title: string_or_untitled(self.title),
            original_title: self.original_title,
            original_language: self.original_language,
            overview: self.overview,
            year,
            poster_path: self.poster_path,
            genre_ids,
            alt_titles,
            akas,
            posters,
        }
    }
}

} // verus!
