//! Names of a work: normal form, key-set members, alternative titles.

use vstd::prelude::*;

use crate::languages;
use crate::languages::{iso639_1_to_3, market_lang3, METADATA_LANG3};
use crate::text;
use crate::text::{replaced, str_eq, trimmed};
use crate::words;
use crate::words::{join_texts, split_words, WordClass};

verus! {

/// A title as a member name: no whitespace at the ends, inner whitespace collapsed to one space,
/// the rest verbatim.
pub open spec fn normal_name(name: Seq<char>) -> Seq<char> {
    words::join(words::words(name, WordClass::Visible), seq![' '])
}

/// A title as a `titles/{lang3}/{name}` member name: trimmed, internal whitespace collapsed to one
/// space, case, diacritics and `%` verbatim. The `/` mapping is the key's job
/// ([`title_member_key`]), not the name's.
pub fn normalize_title_name(name: &str) -> (r: String)
    ensures
        r@ == normal_name(name@),
{
    let parts = split_words(name, WordClass::Visible);
    proof {
        reveal_strlit(" ");
        assert(" "@ =~= seq![' ']);
    }
    join_texts(&parts, " ")
}

/// A normalised name is its own normal form.
pub proof fn normal_name_is_stable(name: Seq<char>)
    ensures
        normal_name(normal_name(name)) == normal_name(name),
{
    let ws = words::words(name, WordClass::Visible);
    words::lemma_words_are_words(name, WordClass::Visible);
    words::lemma_words_of_joined(ws, ' ', WordClass::Visible);
}

/// Trimming a name does not change its normal form.
pub proof fn normal_name_ignores_trimming(name: Seq<char>)
    ensures
        normal_name(text::trim(name)) == normal_name(name),
{
    words::lemma_words_of_trimmed(name);
}

/// The `titles/{lang3}/{name}` key for a name; none for a name that normalises to nothing. `/` is
/// the key-set separator, so a `/` inside the name is written as U+2215.
pub open spec fn title_key(lang3: Seq<char>, name: Seq<char>) -> Option<Seq<char>> {
    if normal_name(name).len() == 0 {
        None
    } else {
        Some("titles/"@ + lang3 + "/"@ + text::replace_char(normal_name(name), '/', '\u{2215}'))
    }
}

/// The `titles/{lang3}/{name}` key-set member for `name`, or `None` when the name normalises to
/// empty. Two peers produce the same key for one name.
pub fn title_member_key(lang3: &str, name: &str) -> (r: Option<String>)
    ensures
        text::text_of(r) == title_key(lang3@, name@),
{
    let name = normalize_title_name(name);
    if name.as_str().is_empty() {
        return None;
    }
    let mut key = "titles/".to_owned();
    key.append(lang3);
    key.append("/");
    key.append(replaced(name.as_str(), '/', '\u{2215}').as_str());
    Some(key)
}

/// A title key is a leaf two levels down: past its `titles/{lang3}/` prefix it holds no separator.
pub proof fn title_key_is_a_leaf(lang3: Seq<char>, name: Seq<char>)
    ensures
        title_key(lang3, name) matches Some(key) ==> {
            let prefix = "titles/"@ + lang3 + "/"@;
            &&& prefix.is_prefix_of(key)
            &&& key.len() > prefix.len()
            &&& !key.skip(prefix.len() as int).contains('/')
        },
{
    if let Some(key) = title_key(lang3, name) {
        let prefix = "titles/"@ + lang3 + "/"@;
        let member = text::replace_char(normal_name(name), '/', '\u{2215}');
        assert(key.skip(prefix.len() as int) =~= member);
        assert(!member.contains('/')) by {
            if member.contains('/') {
                let i = choose|i: int| 0 <= i < member.len() && member[i] == '/';
                assert(normal_name(name)[i] == '/' || normal_name(name)[i] != '/');
            }
        }
        assert(prefix =~= key.subrange(0, prefix.len() as int));
    }
}

/// Names that differ only in whitespace share one key.
pub proof fn title_key_ignores_spacing(lang3: Seq<char>, name: Seq<char>)
    ensures
        title_key(lang3, normal_name(name)) == title_key(lang3, name),
{
    normal_name_is_stable(name);
}

// -- alternative titles ---------------------------------------------------------------------

/// One alternative title, with the market it is used in. Its view is `(title, market)`.
#[derive(Debug, Clone, Default)]
pub struct TmdbAltTitle {
    pub title: String,
    /// The market the AKA is used in (`US`, `FR`, …). Empty on a cache entry written before it was
    /// decoded.
    pub iso_3166_1: String,
}

impl View for TmdbAltTitle {
    type V = (Seq<char>, Seq<char>);

    open spec fn view(&self) -> (Seq<char>, Seq<char>) {
        (self.title@, self.iso_3166_1@)
    }
}

/// The views of a list of alternative titles.
pub open spec fn akas_of(v: Seq<TmdbAltTitle>) -> Seq<(Seq<char>, Seq<char>)> {
    v.map_values(|a: TmdbAltTitle| a@)
}

/// The titles of a list of alternative titles.
pub open spec fn aka_titles(akas: Seq<(Seq<char>, Seq<char>)>) -> Seq<Seq<char>> {
    akas.map_values(|a: (Seq<char>, Seq<char>)| a.0)
}

/// Alternative titles from a details payload. TMDB nests them under `results` for a show and under
/// `titles` for a film.
#[derive(Debug, Clone, Default)]
pub struct TmdbAltTitles {
    pub results: Vec<TmdbAltTitle>,
    pub titles: Vec<TmdbAltTitle>,
}

/// Is this one of the markets whose titles come first?
pub open spec fn english_market(market: Seq<char>) -> bool {
    market == "US"@ || market == "GB"@
}

/// The non-blank titles of the English markets (or of the others), trimmed, in order.
pub open spec fn kept_akas(akas: Seq<(Seq<char>, Seq<char>)>, english: bool) -> Seq<
    (Seq<char>, Seq<char>),
>
    decreases akas.len(),
{
    if akas.len() == 0 {
        Seq::empty()
    } else {
        let before = kept_akas(akas.drop_last(), english);
        let (title, market) = akas.last();
        if english_market(market) == english && text::trim(title).len() > 0 {
            before.push((text::trim(title), text::trim(market)))
        } else {
            before
        }
    }
}

impl TmdbAltTitles {
    /// Every alternative title as decoded, the show's list before the film's.
    pub open spec fn listed(self) -> Seq<(Seq<char>, Seq<char>)> {
        akas_of(self.results@) + akas_of(self.titles@)
    }

    /// The non-blank alternative titles, trimmed, English markets first, in TMDB's order otherwise.
    pub open spec fn ordered(self) -> Seq<(Seq<char>, Seq<char>)> {
        kept_akas(self.listed(), true) + kept_akas(self.listed(), false)
    }

    /// Was the list decoded with markets? Every alternative title carries one, so a non-empty list
    /// in which none does was written before markets were decoded.
    pub open spec fn decoded_with_markets(self) -> bool {
        self.listed().len() == 0 || exists|i: int|
            0 <= i < self.listed().len() && (#[trigger] self.listed()[i]).1.len() > 0
    }

    /// Was this list decoded with markets? An empty list is complete ("fetched, none").
    pub fn has_markets(&self) -> (r: bool)
        ensures
            r == self.decoded_with_markets(),
    {
        let n: usize = self.results.len();
        let m: usize = self.titles.len();
        if n == 0 && m == 0 {
            return true;
        }
        let mut i: usize = 0;
        while i < n
            invariant
                i <= n == self.results.len(),
                forall|k: int| 0 <= k < i ==> (#[trigger] self.listed()[k]).1.len() == 0,
            decreases n - i,
        {
            assert(self.listed()[i as int] == self.results@[i as int]@);
            if !self.results[i].iso_3166_1.as_str().is_empty() {
                return true;
            }
            i = i + 1;
        }
        let mut j: usize = 0;
        while j < m
            invariant
                j <= m == self.titles.len(),
                n == self.results.len(),
                forall|k: int| 0 <= k < n + j ==> (#[trigger] self.listed()[k]).1.len() == 0,
            decreases m - j,
        {
            assert(self.listed()[n + j] == self.titles@[j as int]@);
            if !self.titles[j].iso_3166_1.as_str().is_empty() {
                return true;
            }
            j = j + 1;
        }
        false
    }

    /// The non-empty alternative titles of both shapes, **English-market (`US`, `GB`) titles
    /// first**, TMDB's order otherwise.
    pub fn all(&self) -> (r: Vec<String>)
        ensures
            text::texts(r@) == aka_titles(self.ordered()),
    {
        let entries = self.entries();
        let mut out: Vec<String> = Vec::new();
        let mut i: usize = 0;
        while i < entries.len()
            invariant
                i <= entries.len(),
                akas_of(entries@) == self.ordered(),
                text::texts(out@) == aka_titles(self.ordered()).take(i as int),
            decreases entries.len() - i,
        {
            let ghost done = text::texts(out@);
            out.push(entries[i].title.clone());
            proof {
                assert(akas_of(entries@)[i as int] == entries@[i as int]@);
                assert(text::texts(out@) =~= done.push(entries@[i as int].title@));
                assert(aka_titles(self.ordered()).take(i + 1) =~= aka_titles(self.ordered()).take(
                    i as int,
                ).push(aka_titles(self.ordered())[i as int]));
            }
            i = i + 1;
        }
        assert(aka_titles(self.ordered()).take(entries@.len() as int) =~= aka_titles(
            self.ordered(),
        ));
        out
    }

    /// [`Self::all`] with each title's market kept: same order, same filtering.
    pub fn entries(&self) -> (r: Vec<TmdbAltTitle>)
        ensures
            akas_of(r@) == self.ordered(),
    {
        let mut out: Vec<TmdbAltTitle> = Vec::new();
        self.push_kept(&mut out, true);
        self.push_kept(&mut out, false);
        assert(Seq::<(Seq<char>, Seq<char>)>::empty() + kept_akas(self.listed(), true)
            =~= kept_akas(self.listed(), true));
        out
    }

    fn push_kept(&self, out: &mut Vec<TmdbAltTitle>, english: bool)
        ensures
            akas_of(final(out)@) == akas_of(old(out)@) + kept_akas(self.listed(), english),
    {
        push_kept_list(&self.results, out, english);
        push_kept_list(&self.titles, out, english);
        proof {
            lemma_kept_akas_concat(akas_of(self.results@), akas_of(self.titles@), english);
            assert(akas_of(out@) =~= akas_of(old(out)@) + kept_akas(self.listed(), english));
        }
    }
}

proof fn lemma_kept_akas_concat(
    a: Seq<(Seq<char>, Seq<char>)>,
    b: Seq<(Seq<char>, Seq<char>)>,
    english: bool,
)
    ensures
        kept_akas(a + b, english) == kept_akas(a, english) + kept_akas(b, english),
    decreases b.len(),
{
    if b.len() == 0 {
        assert(a + b =~= a);
        assert(kept_akas(a, english) + kept_akas(b, english) =~= kept_akas(a, english));
    } else {
        lemma_kept_akas_concat(a, b.drop_last(), english);
        assert((a + b).drop_last() =~= a + b.drop_last());
        assert((a + b).last() == b.last());
        assert(kept_akas(a + b, english) =~= kept_akas(a, english) + kept_akas(b, english));
    }
}

fn push_kept_list(list: &Vec<TmdbAltTitle>, out: &mut Vec<TmdbAltTitle>, english: bool)
    ensures
        akas_of(final(out)@) == akas_of(old(out)@) + kept_akas(akas_of(list@), english),
{
    let ghost start = akas_of(out@);
    let mut i: usize = 0;
    assert(start + kept_akas(akas_of(list@).take(0), english) =~= start);
    while i < list.len()
        invariant
            i <= list.len(),
            akas_of(out@) == start + kept_akas(akas_of(list@).take(i as int), english),
        decreases list.len() - i,
    {
        let ghost now = akas_of(list@).take(i + 1);
        assert(now.drop_last() =~= akas_of(list@).take(i as int));
        assert(now.last() == list@[i as int]@);
        let market = list[i].iso_3166_1.as_str();
        let is_english = str_eq(market, "US") || str_eq(market, "GB");
        let title = trimmed(list[i].title.as_str());
        if is_english == english && !title.is_empty() {
            let ghost done = akas_of(out@);
            let entry = TmdbAltTitle {
                title: title.to_owned(),
                iso_3166_1: trimmed(market).to_owned(),
            };
            let ghost e = entry@;
            out.push(entry);
            assert(akas_of(out@) =~= done.push(e));
            assert(akas_of(out@) =~= start + kept_akas(now, english));
        }
        i = i + 1;
    }
    assert(akas_of(list@).take(list@.len() as int) =~= akas_of(list@));
}

// -- the names of a work --------------------------------------------------------------------

/// The names of a work as `(lang3, name)`.
pub open spec fn names_of(v: Seq<(&'static str, String)>) -> Seq<(Seq<char>, Seq<char>)> {
    v.map_values(|n: (&'static str, String)| (n.0@, n.1@))
}

/// `names` with one more; a blank name or a repeated `(lang3, name)` adds nothing.
pub open spec fn with_name(
    names: Seq<(Seq<char>, Seq<char>)>,
    lang3: Seq<char>,
    name: Seq<char>,
) -> Seq<(Seq<char>, Seq<char>)> {
    let entry = (lang3, normal_name(name));
    if entry.1.len() > 0 && !names.contains(entry) {
        names.push(entry)
    } else {
        names
    }
}

/// `names` with every alternative title, each under the language its market implies.
pub open spec fn with_akas(
    names: Seq<(Seq<char>, Seq<char>)>,
    akas: Seq<(Seq<char>, Seq<char>)>,
) -> Seq<(Seq<char>, Seq<char>)>
    decreases akas.len(),
{
    if akas.len() == 0 {
        names
    } else {
        let (title, market) = akas.last();
        with_name(with_akas(names, akas.drop_last()), languages::lang3_of_market(market), title)
    }
}

/// The language an original title is filed under: `und` when its code is absent or unmapped.
pub open spec fn original_lang3_or_und(code: Option<Seq<char>>) -> Seq<char> {
    match code {
        Some(c) => match languages::lang3_of_code(text::trim(c)) {
            Some(lang3) => lang3,
            None => "und"@,
        },
        None => "und"@,
    }
}

/// The title TMDB's decoder substitutes for a missing one.
pub open spec fn untitled() -> Seq<char> {
    "(untitled)"@
}

/// Every name of a work: the original under its language; the title under English, unless it is
/// TMDB's placeholder or repeats the original; then the alternative titles by market.
pub open spec fn work_names(
    title: Seq<char>,
    original: Option<Seq<char>>,
    original_language: Option<Seq<char>>,
    akas: Seq<(Seq<char>, Seq<char>)>,
) -> Seq<(Seq<char>, Seq<char>)> {
    let first = match original {
        Some(o) => with_name(Seq::empty(), original_lang3_or_und(original_language), o),
        None => Seq::empty(),
    };
    let is_original = original is Some && normal_name(original->0) == normal_name(title);
    let second = if normal_name(title) == untitled() || is_original {
        first
    } else {
        with_name(first, METADATA_LANG3@, title)
    };
    with_akas(second, akas)
}

fn push_name(out: &mut Vec<(&'static str, String)>, lang3: &'static str, name: &str)
    ensures
        names_of(final(out)@) == with_name(names_of(old(out)@), lang3@, name@),
{
    let normal = normalize_title_name(name);
    if normal.as_str().is_empty() {
        return ;
    }
    let mut i: usize = 0;
    while i < out.len()
        invariant
            i <= out.len(),
            out@ == old(out)@,
            normal@ == normal_name(name@),
            forall|k: int| 0 <= k < i ==> (#[trigger] names_of(out@)[k]) != (lang3@, normal@),
        decreases out.len() - i,
    {
        assert(names_of(out@)[i as int] == (out@[i as int].0@, out@[i as int].1@));
        if str_eq(out[i].0, lang3) && str_eq(out[i].1.as_str(), normal.as_str()) {
            assert(names_of(out@).contains((lang3@, normal@)));
            return ;
        }
        i = i + 1;
    }
    let ghost done = names_of(out@);
    let ghost entry = (lang3@, normal@);
    out.push((lang3, normal));
    assert(names_of(out@) =~= done.push(entry));
}

/// Every name of a work as `(lang3, name)`, which a card files under `titles/{lang3}/{name}`:
///
/// - `original` under its `original_language` (`und` when unmapped or absent);
/// - `title` under [`METADATA_LANG3`], **unless it equals the original** (TMDB falls back to the
///   original name when it has no translation, so `3%` is filed once);
/// - every alternative title under the language its market implies ([`market_lang3`]).
///
/// Names are normalised; blanks, TMDB's `(untitled)` placeholder and exact `(lang3, name)` repeats
/// are dropped.
pub fn title_names(
    title: &str,
    original: Option<&str>,
    original_language: Option<&str>,
    akas: &[TmdbAltTitle],
) -> (r: Vec<(&'static str, String)>)
    ensures
        names_of(r@) == work_names(
            title@,
            match original {
                Some(o) => Some(o@),
                None => None,
            },
            match original_language {
                Some(l) => Some(l@),
                None => None,
            },
            akas_of(akas@),
        ),
{
    let mut out: Vec<(&'static str, String)> = Vec::new();
    assert(names_of(out@) =~= Seq::empty());
    let mut is_original = false;
    let name = normalize_title_name(title);
    if let Some(o) = original {
        let lang3 = match original_language {
            Some(code) => match iso639_1_to_3(trimmed(code)) {
                Some(l) => l,
                None => "und",
            },
            None => "und",
        };
        push_name(&mut out, lang3, o);
        is_original = str_eq(normalize_title_name(o).as_str(), name.as_str());
    }
    if !str_eq(name.as_str(), "(untitled)") && !is_original {
        push_name(&mut out, METADATA_LANG3, name.as_str());
    }
    proof {
        normal_name_is_stable(title@);
    }
    let ghost second = names_of(out@);
    let mut i: usize = 0;
    while i < akas.len()
        invariant
            i <= akas.len(),
            names_of(out@) == with_akas(second, akas_of(akas@).take(i as int)),
        decreases akas.len() - i,
    {
        let ghost now = akas_of(akas@).take(i + 1);
        assert(now.drop_last() =~= akas_of(akas@).take(i as int));
        assert(now.last() == akas@[i as int]@);
        push_name(&mut out, market_lang3(akas[i].iso_3166_1.as_str()), akas[i].title.as_str());
        i = i + 1;
    }
    assert(akas_of(akas@).take(akas@.len() as int) =~= akas_of(akas@));
    out
}

/// Are the names distinct, not empty, and each its own normal form?
pub open spec fn are_proper_names(names: Seq<(Seq<char>, Seq<char>)>) -> bool {
    &&& names.no_duplicates()
    &&& forall|i: int|
        0 <= i < names.len() ==> (#[trigger] names[i]).1.len() > 0 && normal_name(names[i].1)
            == names[i].1
}

proof fn lemma_with_name_is_proper(
    names: Seq<(Seq<char>, Seq<char>)>,
    lang3: Seq<char>,
    name: Seq<char>,
)
    requires
        are_proper_names(names),
    ensures
        are_proper_names(with_name(names, lang3, name)),
{
    normal_name_is_stable(name);
}

proof fn lemma_with_akas_is_proper(
    names: Seq<(Seq<char>, Seq<char>)>,
    akas: Seq<(Seq<char>, Seq<char>)>,
)
    requires
        are_proper_names(names),
    ensures
        are_proper_names(with_akas(names, akas)),
    decreases akas.len(),
{
    if akas.len() > 0 {
        let (title, market) = akas.last();
        lemma_with_akas_is_proper(names, akas.drop_last());
        lemma_with_name_is_proper(
            with_akas(names, akas.drop_last()),
            languages::lang3_of_market(market),
            title,
        );
    }
}

/// No name of a work is listed twice in one language, none is empty, and each is in normal form.
pub proof fn names_are_distinct_and_normal(
    title: Seq<char>,
    original: Option<Seq<char>>,
    original_language: Option<Seq<char>>,
    akas: Seq<(Seq<char>, Seq<char>)>,
)
    ensures
        are_proper_names(work_names(title, original, original_language, akas)),
{
    let none = Seq::<(Seq<char>, Seq<char>)>::empty();
    let first = match original {
        Some(o) => with_name(none, original_lang3_or_und(original_language), o),
        None => none,
    };
    if let Some(o) = original {
        lemma_with_name_is_proper(none, original_lang3_or_und(original_language), o);
    }
    lemma_with_name_is_proper(first, METADATA_LANG3@, title);
    lemma_with_akas_is_proper(first, akas);
    lemma_with_akas_is_proper(with_name(first, METADATA_LANG3@, title), akas);
}

proof fn lemma_english_akas(akas: Seq<(Seq<char>, Seq<char>)>)
    ensures
        forall|i: int|
            0 <= i < kept_akas(akas, true).len() ==> english_market(
                (#[trigger] kept_akas(akas, true)[i]).1,
            ),
    decreases akas.len(),
{
    if akas.len() > 0 {
        lemma_english_akas(akas.drop_last());
        let before = kept_akas(akas.drop_last(), true);
        let market = akas.last().1;
        if english_market(market) {
            reveal_strlit("US");
            reveal_strlit("GB");
            assert(market.len() == 2 && !text::is_whitespace(market[0]) && !text::is_whitespace(
                market[1],
            ));
            text::trimming_is_stable(market);
        }
        assert forall|i: int| 0 <= i < kept_akas(akas, true).len() implies english_market(
            (#[trigger] kept_akas(akas, true)[i]).1,
        ) by {
            if i < before.len() {
                assert(kept_akas(akas, true)[i] == before[i]);
            }
        }
    }
}

/// The titles of the English markets come first: what is listed for the United States and the
/// United Kingdom fills the beginning of the list, the rest follows.
pub proof fn english_markets_come_first(alternatives: TmdbAltTitles)
    ensures
        kept_akas(alternatives.listed(), true).is_prefix_of(alternatives.ordered()),
        forall|i: int|
            0 <= i < kept_akas(alternatives.listed(), true).len() ==> english_market(
                (#[trigger] alternatives.ordered()[i]).1,
            ),
{
    let english = kept_akas(alternatives.listed(), true);
    lemma_english_akas(alternatives.listed());
    assert forall|i: int| 0 <= i < english.len() implies english_market(
        (#[trigger] alternatives.ordered()[i]).1,
    ) by {
        assert(alternatives.ordered()[i] == english[i]);
    }
    assert(english =~= alternatives.ordered().subrange(0, english.len() as int));
}

} // verus!
