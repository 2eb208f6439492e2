//! The `posters/{lang3}/{cid}` key-set of a card.

use vstd::prelude::*;

use crate::consts::MAX_POSTER_MEMBERS;
use crate::keyed::KeyMap;
use crate::languages;
use crate::languages::iso639_1_to_3;
use crate::ranking;
use crate::ranking::{rank_refs, total_position_of, Rankable, Ranked};
use crate::text;
use crate::text::{chars_of, contains_text, is_blank, str_eq, trimmed};
use crate::tmdb_client;
use crate::tmdb_client::{ImageView, TmdbClient, TmdbImage};

verus! {

/// Does `a` come before `b`, character by character? A text comes before its continuations.
pub open spec fn text_before(a: Seq<char>, b: Seq<char>) -> bool
    decreases a.len(),
{
    if b.len() == 0 {
        false
    } else if a.len() == 0 {
        true
    } else if a[0] == b[0] {
        text_before(a.skip(1), b.skip(1))
    } else {
        a[0] < b[0]
    }
}

fn comes_before_text(a: &str, b: &str) -> (r: bool)
    ensures
        r == text_before(a@, b@),
{
    let x = chars_of(a);
    let y = chars_of(b);
    let mut i: usize = 0;
    assert(a@.skip(0) =~= a@);
    assert(b@.skip(0) =~= b@);
    while i < x.len() && i < y.len() && x[i] == y[i]
        invariant
            i <= x.len(),
            i <= y.len(),
            x@ == a@,
            y@ == b@,
            text_before(a@, b@) == text_before(a@.skip(i as int), b@.skip(i as int)),
        decreases x.len() - i,
    {
        assert(a@.skip(i as int).skip(1) =~= a@.skip(i + 1));
        assert(b@.skip(i as int).skip(1) =~= b@.skip(i + 1));
        i = i + 1;
    }
    if i == y.len() {
        false
    } else if i == x.len() {
        true
    } else {
        x[i] < y[i]
    }
}

/// Of two posters the better voted one comes first: by average, then by count; the file path
/// settles the rest, so that two peers holding one payload emit the same keys.
impl Ranked for ImageView {
    open spec fn outranks(&self, other: &Self) -> bool {
        let (a, b) = (
            ranking::total_position(self.vote_average),
            ranking::total_position(other.vote_average),
        );
        ||| a > b
        ||| a == b && self.vote_count > other.vote_count
        ||| a == b && self.vote_count == other.vote_count && text_before(
            self.file_path,
            other.file_path,
        )
    }
}

impl Ranked for TmdbImage {
    open spec fn outranks(&self, other: &Self) -> bool {
        self@.outranks(&other@)
    }
}

impl Rankable for TmdbImage {
    fn comes_before(&self, other: &Self) -> (r: bool) {
        let a: i128 = total_position_of(self.vote_average);
        let b: i128 = total_position_of(other.vote_average);
        a > b || (a == b && (self.vote_count > other.vote_count || (self.vote_count
            == other.vote_count && comes_before_text(
            self.file_path.as_str(),
            other.file_path.as_str(),
        ))))
    }
}

/// The language of the text printed on a poster: `zxx` for a textless one, `und` for a code outside
/// the table.
pub open spec fn poster_lang3(language: Option<Seq<char>>) -> Seq<char> {
    match language {
        None => "zxx"@,
        Some(code) => if text::trim(code).len() == 0 {
            "zxx"@
        } else {
            match languages::lang3_of_code(text::trim(code)) {
                Some(lang3) => lang3,
                None => "und"@,
            }
        },
    }
}

fn poster_language(image: &TmdbImage) -> (r: &'static str)
    ensures
        r@ == poster_lang3(image@.language),
{
    match &image.iso_639_1 {
        None => "zxx",
        Some(code) => {
            let code = trimmed(code.as_str());
            if code.is_empty() {
                "zxx"
            } else {
                match iso639_1_to_3(code) {
                    Some(lang3) => lang3,
                    None => "und",
                }
            }
        },
    }
}

/// The language of the primary poster, as listed among the candidates; `und` when it is not.
pub open spec fn primary_lang3(candidates: Seq<ImageView>, primary_path: Seq<char>) -> Seq<char>
    decreases candidates.len(),
{
    if candidates.len() == 0 {
        "und"@
    } else if candidates[0].file_path == primary_path {
        poster_lang3(candidates[0].language)
    } else {
        primary_lang3(candidates.skip(1), primary_path)
    }
}

/// The key of one poster.
pub open spec fn poster_key(lang3: Seq<char>, cid: Seq<char>) -> Seq<char> {
    "posters/"@ + lang3 + "/"@ + cid
}

fn poster_key_text(lang3: &str, cid: &str) -> (r: String)
    ensures
        r@ == poster_key(lang3@, cid@),
{
    let mut key = "posters/".to_owned();
    key.append(lang3);
    key.append("/");
    key.append(cid);
    key
}

/// Can this candidate be an alternative: has it a path, and another one than the primary's?
pub open spec fn is_alternative(image: ImageView, primary_path: Seq<char>) -> bool {
    text::trim(image.file_path).len() > 0 && image.file_path != primary_path
}

/// The alternatives to the primary poster, best voted first.
pub open spec fn alternatives(candidates: Seq<ImageView>, primary_path: Seq<char>) -> Seq<
    ImageView,
> {
    ranking::ranked(candidates.filter(|i: ImageView| is_alternative(i, primary_path)))
}

/// `keys` with one more poster, unless the set is full, the poster has no locator or is in it.
pub open spec fn with_poster(
    keys: Seq<Seq<char>>,
    image: ImageView,
    image_base: Seq<char>,
    locators: Map<Seq<char>, Seq<char>>,
) -> Seq<Seq<char>> {
    let url = tmdb_client::poster_url(image_base, image.file_path);
    let key = poster_key(poster_lang3(image.language), locators[url]);
    if keys.len() < MAX_POSTER_MEMBERS && locators.contains_key(url) && !keys.contains(key) {
        keys.push(key)
    } else {
        keys
    }
}

/// `keys` with each of a list of posters.
pub open spec fn with_posters(
    keys: Seq<Seq<char>>,
    images: Seq<ImageView>,
    image_base: Seq<char>,
    locators: Map<Seq<char>, Seq<char>>,
) -> Seq<Seq<char>>
    decreases images.len(),
{
    if images.len() == 0 {
        keys
    } else {
        with_poster(
            with_posters(keys, images.drop_last(), image_base, locators),
            images.last(),
            image_base,
            locators,
        )
    }
}

/// The key of the primary poster alone, when it has a locator.
pub open spec fn primary_keys(
    image_base: Seq<char>,
    primary_path: Seq<char>,
    candidates: Seq<ImageView>,
    locators: Map<Seq<char>, Seq<char>>,
) -> Seq<Seq<char>> {
    let url = tmdb_client::poster_url(image_base, primary_path);
    if locators.contains_key(url) {
        seq![poster_key(primary_lang3(candidates, primary_path), locators[url])]
    } else {
        Seq::empty()
    }
}

/// The poster keys of a card: the primary first, then the alternatives, best voted first, up to the
/// cap. None without an image list: the primary's language would be unknown.
pub open spec fn poster_keys(
    image_base: Seq<char>,
    primary_path: Seq<char>,
    candidates: Seq<ImageView>,
    locators: Map<Seq<char>, Seq<char>>,
) -> Seq<Seq<char>> {
    if candidates.len() == 0 {
        Seq::empty()
    } else {
        with_posters(
            primary_keys(image_base, primary_path, candidates, locators),
            alternatives(candidates, primary_path),
            image_base,
            locators,
        )
    }
}

fn primary_language(candidates: &Vec<TmdbImage>, primary_path: &str) -> (r: &'static str)
    ensures
        r@ == primary_lang3(tmdb_client::images_of(candidates@), primary_path@),
{
    let ghost all = tmdb_client::images_of(candidates@);
    let mut i: usize = 0;
    assert(all.skip(0) =~= all);
    while i < candidates.len()
        invariant
            i <= candidates.len(),
            all == tmdb_client::images_of(candidates@),
            primary_lang3(all, primary_path@) == primary_lang3(all.skip(i as int), primary_path@),
        decreases candidates.len() - i,
    {
        assert(all.skip(i as int)[0] == candidates@[i as int]@);
        if str_eq(candidates[i].file_path.as_str(), primary_path) {
            return poster_language(&candidates[i]);
        }
        assert(all.skip(i as int).skip(1) =~= all.skip(i + 1));
        i = i + 1;
    }
    "und"
}

fn ranked_alternatives<'a>(candidates: &'a Vec<TmdbImage>, primary_path: &str) -> (r: Vec<
    &'a TmdbImage,
>)
    ensures
        r@.map_values(|i: &'a TmdbImage| i@) == alternatives(
            tmdb_client::images_of(candidates@),
            primary_path@,
        ),
{
    let ghost all = tmdb_client::images_of(candidates@);
    let ghost keep = |i: ImageView| is_alternative(i, primary_path@);
    let ghost seen = |i: TmdbImage| i@;
    let mut kept: Vec<&'a TmdbImage> = Vec::new();
    let mut i: usize = 0;
    assert(kept@.unref().map_values(seen) =~= all.take(0).filter(keep));
    while i < candidates.len()
        invariant
            i <= candidates.len(),
            all == tmdb_client::images_of(candidates@),
            keep == (|i: ImageView| is_alternative(i, primary_path@)),
            seen == (|i: TmdbImage| i@),
            kept@.unref().map_values(seen) == all.take(i as int).filter(keep),
        decreases candidates.len() - i,
    {
        let image = &candidates[i];
        let ghost done = kept@.unref().map_values(seen);
        proof {
            assert(all.take(i + 1) =~= all.take(i as int).push(image@));
            all.take(i as int).lemma_filter_push(image@, keep);
        }
        if !is_blank(image.file_path.as_str()) && !str_eq(image.file_path.as_str(), primary_path) {
            kept.push(image);
            assert(kept@.unref().map_values(seen) =~= done.push(image@));
        }
        i = i + 1;
    }
    assert(all.take(candidates@.len() as int) =~= all);
    let ghost raw = kept@.unref();
    let r = rank_refs(kept);
    proof {
        ranking::lemma_ranked_through(raw, seen);
        assert(r@.map_values(|i: &'a TmdbImage| i@) =~= r@.unref().map_values(seen));
    }
    r
}

/// The addresses of the primary poster and of every candidate.
pub open spec fn addresses(
    image_base: Seq<char>,
    primary_path: Seq<char>,
    candidates: Seq<ImageView>,
) -> Seq<Seq<char>> {
    seq![tmdb_client::poster_url(image_base, primary_path)] + candidates.map_values(
        |i: ImageView| tmdb_client::poster_url(image_base, i.file_path),
    )
}

/// The addresses of the primary poster and of every candidate: what [`poster_member_keys`] looks
/// up in `locators`, and what the locators are to be derived from.
pub fn poster_urls(tmdb: &TmdbClient, primary_path: &str, candidates: &Vec<TmdbImage>) -> (r: Vec<
    String,
>)
    ensures
        text::texts(r@) == addresses(
            tmdb.image_base@,
            primary_path@,
            tmdb_client::images_of(candidates@),
        ),
{
    let ghost rest = candidates@.map_values(
        |i: TmdbImage| tmdb_client::poster_url(tmdb.image_base@, i.file_path@),
    );
    let ghost first = tmdb_client::poster_url(tmdb.image_base@, primary_path@);
    let mut out: Vec<String> = Vec::new();
    out.push(tmdb.poster_cdn_url(primary_path));
    let mut i: usize = 0;
    assert(text::texts(out@) =~= seq![first] + rest.take(0));
    while i < candidates.len()
        invariant
            i <= candidates.len(),
            rest == candidates@.map_values(
                |i: TmdbImage| tmdb_client::poster_url(tmdb.image_base@, i.file_path@),
            ),
            text::texts(out@) == seq![first] + rest.take(i as int),
        decreases candidates.len() - i,
    {
        let ghost done = text::texts(out@);
        let url = tmdb.poster_cdn_url(candidates[i].file_path.as_str());
        let ghost u = url@;
        out.push(url);
        assert(text::texts(out@) =~= done.push(u));
        assert(text::texts(out@) =~= seq![first] + rest.take(i + 1));
        i = i + 1;
    }
    assert(rest.take(candidates@.len() as int) =~= rest);
    assert(text::texts(out@) =~= addresses(
        tmdb.image_base@,
        primary_path@,
        tmdb_client::images_of(candidates@),
    ));
    out
}

/// The `posters/{lang3}/{cid}` keys for a card: the primary poster first, then the best-voted
/// alternatives, capped at [`MAX_POSTER_MEMBERS`]. `locators` maps a poster's address to the
/// locator CID derived from it; an address that is not there has none.
pub fn poster_member_keys(
    tmdb: &TmdbClient,
    primary_path: &str,
    candidates: &Vec<TmdbImage>,
    locators: &KeyMap<String>,
) -> (r: Vec<String>)
    ensures
        text::texts(r@) == poster_keys(
            tmdb.image_base@,
            primary_path@,
            tmdb_client::images_of(candidates@),
            locators@,
        ),
{
    let mut keys: Vec<String> = Vec::new();
    assert(text::texts(keys@) =~= Seq::empty());
    if candidates.len() == 0 {
        return keys;
    }
    let primary_url = tmdb.poster_cdn_url(primary_path);
    if let Some(cid) = locators.get(primary_url.as_str()) {
        let key = poster_key_text(primary_language(candidates, primary_path), cid.as_str());
        let ghost k = key@;
        keys.push(key);
        assert(text::texts(keys@) =~= seq![k]);
    }
    let ghost first = text::texts(keys@);
    let images = ranked_alternatives(candidates, primary_path);
    let ghost views = images@.map_values(|i: &TmdbImage| i@);
    let mut i: usize = 0;
    while i < images.len()
        invariant
            i <= images.len(),
            views == images@.map_values(|i: &TmdbImage| i@),
            text::texts(keys@) == with_posters(
                first,
                views.take(i as int),
                tmdb.image_base@,
                locators@,
            ),
        decreases images.len() - i,
    {
        let ghost now = views.take(i + 1);
        assert(now.drop_last() =~= views.take(i as int));
        assert(now.last() == images@[i as int]@);
        let image = images[i];
        if keys.len() < MAX_POSTER_MEMBERS {
            let url = tmdb.poster_cdn_url(image.file_path.as_str());
            if let Some(cid) = locators.get(url.as_str()) {
                let key = poster_key_text(poster_language(image), cid.as_str());
                if !contains_text(&keys, key.as_str()) {
                    let ghost done = text::texts(keys@);
                    let ghost k = key@;
                    keys.push(key);
                    assert(text::texts(keys@) =~= done.push(k));
                }
            }
        }
        i = i + 1;
    }
    assert(views.take(images@.len() as int) =~= views);
    keys
}

proof fn lemma_text_order(a: Seq<char>, b: Seq<char>, c: Seq<char>)
    ensures
        text_before(a, b) ==> !text_before(b, a),
        !text_before(b, a) && !text_before(c, b) ==> !text_before(c, a),
        a != b ==> text_before(a, b) || text_before(b, a),
    decreases a.len() + b.len() + c.len(),
{
    if a.len() > 0 && b.len() > 0 {
        lemma_text_order(a.skip(1), b.skip(1), if c.len() > 0 {
            c.skip(1)
        } else {
            c
        });
        if a[0] == b[0] && a.skip(1) == b.skip(1) {
            assert(a =~= seq![a[0]] + a.skip(1));
            assert(b =~= seq![b[0]] + b.skip(1));
        }
    } else if a.len() == 0 && b.len() == 0 {
        assert(a =~= b);
    }
}

/// Votes and path rank posters consistently, and tell any two apart that do not share all three.
pub proof fn posters_are_totally_ranked()
    ensures
        ranking::is_ranking::<ImageView>(),
        forall|a: ImageView, b: ImageView|
            a.vote_average != b.vote_average || a.vote_count != b.vote_count || a.file_path
                != b.file_path ==> #[trigger] a.outranks(&b) || b.outranks(&a),
{
    assert forall|a: ImageView, b: ImageView| #[trigger] a.outranks(&b) implies !b.outranks(&a) by {
        lemma_text_order(a.file_path, b.file_path, b.file_path);
    }
    assert forall|a: ImageView, b: ImageView, c: ImageView|
        !(#[trigger] b.outranks(&a)) && !(#[trigger] c.outranks(&b)) implies !c.outranks(&a) by {
        lemma_text_order(a.file_path, b.file_path, c.file_path);
    }
    assert forall|a: ImageView, b: ImageView|
        a.vote_average != b.vote_average || a.vote_count != b.vote_count || a.file_path
            != b.file_path implies #[trigger] a.outranks(&b) || b.outranks(&a) by {
        lemma_text_order(a.file_path, b.file_path, b.file_path);
    }
}

/// No alternative is listed before one that is better voted.
pub proof fn alternatives_are_best_voted_first(candidates: Seq<ImageView>, primary_path: Seq<char>)
    ensures
        ranking::in_rank_order(alternatives(candidates, primary_path)),
{
    posters_are_totally_ranked();
    ranking::ranked_orders_the_entries(
        candidates.filter(|i: ImageView| is_alternative(i, primary_path)),
    );
}

proof fn lemma_with_posters(
    keys: Seq<Seq<char>>,
    images: Seq<ImageView>,
    image_base: Seq<char>,
    locators: Map<Seq<char>, Seq<char>>,
)
    requires
        keys.len() <= MAX_POSTER_MEMBERS,
        keys.no_duplicates(),
    ensures
        with_posters(keys, images, image_base, locators).len() <= MAX_POSTER_MEMBERS,
        with_posters(keys, images, image_base, locators).no_duplicates(),
        keys.is_prefix_of(with_posters(keys, images, image_base, locators)),
    decreases images.len(),
{
    if images.len() > 0 {
        lemma_with_posters(keys, images.drop_last(), image_base, locators);
    }
}

/// A card lists ten posters at most, none twice, and the primary one first.
pub proof fn poster_keys_are_few_and_distinct(
    image_base: Seq<char>,
    primary_path: Seq<char>,
    candidates: Seq<ImageView>,
    locators: Map<Seq<char>, Seq<char>>,
)
    ensures
        poster_keys(image_base, primary_path, candidates, locators).len() <= MAX_POSTER_MEMBERS,
        poster_keys(image_base, primary_path, candidates, locators).no_duplicates(),
        candidates.len() == 0 ==> poster_keys(
            image_base,
            primary_path,
            candidates,
            locators,
        ).len() == 0,
        candidates.len() > 0 ==> primary_keys(
            image_base,
            primary_path,
            candidates,
            locators,
        ).is_prefix_of(poster_keys(image_base, primary_path, candidates, locators)),
{
    lemma_with_posters(
        primary_keys(image_base, primary_path, candidates, locators),
        alternatives(candidates, primary_path),
        image_base,
        locators,
    );
}

/// A poster is filed under a three-letter language, so that its key is a leaf two levels down.
pub proof fn poster_languages_are_three_letters(
    language: Option<Seq<char>>,
    candidates: Seq<ImageView>,
    primary_path: Seq<char>,
)
    ensures
        poster_lang3(language).len() == 3,
        !poster_lang3(language).contains('/'),
        primary_lang3(candidates, primary_path).len() == 3,
        !primary_lang3(candidates, primary_path).contains('/'),
    decreases candidates.len(),
{
    reveal_strlit("zxx");
    reveal_strlit("und");
    if let Some(code) = language {
        languages::codes_are_three_letters(text::trim(code), code);
    }
    if candidates.len() > 0 {
        if candidates[0].file_path == primary_path {
            if let Some(code) = candidates[0].language {
                languages::codes_are_three_letters(text::trim(code), code);
            }
        } else {
            poster_languages_are_three_letters(language, candidates.skip(1), primary_path);
        }
    }
}

} // verus!
