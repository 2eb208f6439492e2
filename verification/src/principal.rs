//! The principal search: from `search/multi` results to the works a free text confidently names.

use vstd::prelude::*;

use crate::ranking;
use crate::ranking::{numeric_position_of, rank_refs, Rankable, Ranked};
use crate::text;
use crate::text::{contains_text, str_eq};
use crate::tmdb_client::TmdbKind;
use crate::words;
use crate::words::norm_tokens;

verus! {

/// One `search/multi` result. `media_type` tells movie, tv and person apart.
#[derive(Debug, Clone, Default)]
pub struct TmdbMultiItem {
    pub id: u64,
    pub media_type: Option<String>,
    /// A film's title.
    pub title: Option<String>,
    /// A show's title.
    pub name: Option<String>,
    /// The bit pattern of the popularity, a double.
    pub popularity: u64,
}

/// The view of a [`TmdbMultiItem`].
#[verifier::ext_equal]
pub struct MultiView {
    pub id: u64,
    pub media_type: Option<Seq<char>>,
    pub title: Option<Seq<char>>,
    pub name: Option<Seq<char>>,
    pub popularity: u64,
}

impl View for TmdbMultiItem {
    type V = MultiView;

    open spec fn view(&self) -> MultiView {
        MultiView {
            id: self.id,
            media_type: text::text_of(self.media_type),
            title: text::text_of(self.title),
            name: text::text_of(self.name),
            popularity: self.popularity,
        }
    }
}

/// The views of a list of results.
pub open spec fn multis_of(v: Seq<TmdbMultiItem>) -> Seq<MultiView> {
    v.map_values(|i: TmdbMultiItem| i@)
}

impl MultiView {
    /// The kind of work; none for a person.
    pub open spec fn kind(self) -> Option<TmdbKind> {
        if self.media_type == Some("movie"@) {
            Some(TmdbKind::Movie)
        } else if self.media_type == Some("tv"@) {
            Some(TmdbKind::Tv)
        } else {
            None
        }
    }

    /// The film title, else the show title, else nothing.
    pub open spec fn display_title(self) -> Seq<char> {
        match self.title {
            Some(t) => t,
            None => match self.name {
                Some(n) => n,
                None => Seq::empty(),
            },
        }
    }
}

impl TmdbMultiItem {
    /// The kind of work; `None` for anything that is neither a film nor a show.
    pub fn kind(&self) -> (r: Option<TmdbKind>)
        ensures
            r == self@.kind(),
    {
        match &self.media_type {
            Some(m) => if str_eq(m.as_str(), "movie") {
                Some(TmdbKind::Movie)
            } else if str_eq(m.as_str(), "tv") {
                Some(TmdbKind::Tv)
            } else {
                None
            },
            None => None,
        }
    }

    /// The film title, else the show title, else nothing.
    pub fn display_title(&self) -> (r: &str)
        ensures
            r@ == self@.display_title(),
    {
        match &self.title {
            Some(t) => t.as_str(),
            None => match &self.name {
                Some(n) => n.as_str(),
                None => {
                    proof {
                        reveal_strlit("");
                        assert(""@ =~= Seq::empty());
                    }
                    ""
                },
            },
        }
    }
}

/// The more popular result comes first.
impl Ranked for MultiView {
    open spec fn outranks(&self, other: &Self) -> bool {
        ranking::numeric_position(self.popularity) > ranking::numeric_position(other.popularity)
    }
}

impl Ranked for TmdbMultiItem {
    open spec fn outranks(&self, other: &Self) -> bool {
        self@.outranks(&other@)
    }
}

impl Rankable for TmdbMultiItem {
    fn comes_before(&self, other: &Self) -> (r: bool) {
        numeric_position_of(self.popularity) > numeric_position_of(other.popularity)
    }
}

/// How many of the tokens `wanted` are among `have`.
pub open spec fn overlap(wanted: Seq<Seq<char>>, have: Seq<Seq<char>>) -> nat
    decreases wanted.len(),
{
    if wanted.len() == 0 {
        0
    } else {
        overlap(wanted.drop_last(), have) + if have.contains(wanted.last()) {
            1nat
        } else {
            0nat
        }
    }
}

/// The relevance gate: is at least half of `wanted` among `have`?
pub open spec fn shares_half(wanted: Seq<Seq<char>>, have: Seq<Seq<char>>) -> bool {
    2 * overlap(wanted, have) >= wanted.len()
}

/// The relevance gate: is at least half of the tokens `wanted` among `have`?
pub fn has_half(wanted: &Vec<String>, have: &Vec<String>) -> (r: bool)
    ensures
        r == shares_half(text::texts(wanted@), text::texts(have@)),
{
    let ghost all = text::texts(wanted@);
    let mut found: usize = 0;
    let mut i: usize = 0;
    while i < wanted.len()
        invariant
            i <= wanted.len(),
            all == text::texts(wanted@),
            found == overlap(all.take(i as int), text::texts(have@)),
            found <= i,
        decreases wanted.len() - i,
    {
        let ghost now = all.take(i + 1);
        assert(now.drop_last() =~= all.take(i as int));
        assert(now.last() == wanted@[i as int]@);
        if contains_text(have, wanted[i].as_str()) {
            found = found + 1;
        }
        i = i + 1;
    }
    assert(all.take(wanted@.len() as int) =~= all);
    found >= wanted.len() - found
}

/// Is this result a work whose title shares at least half of the query's tokens?
pub open spec fn confident(item: MultiView, wanted: Seq<Seq<char>>) -> bool {
    item.kind() is Some && shares_half(wanted, words::tokens(item.display_title()))
}

/// The confident results, most popular first.
pub open spec fn confident_ranking(hits: Seq<MultiView>, wanted: Seq<Seq<char>>) -> Seq<
    MultiView,
> {
    ranking::ranked(hits.filter(|i: MultiView| confident(i, wanted)))
}

/// The first `n` entries, or all when there are fewer.
pub open spec fn first_n<T>(s: Seq<T>, n: nat) -> Seq<T> {
    if n < s.len() {
        s.take(n as int)
    } else {
        s
    }
}

/// The first `n` confident results for a query, most popular first; none for a query without a
/// word.
pub open spec fn top_results(hits: Seq<MultiView>, query: Seq<char>, n: nat) -> Seq<MultiView> {
    if words::tokens(query).len() == 0 {
        Seq::empty()
    } else {
        first_n(confident_ranking(hits, words::tokens(query)), n)
    }
}

/// Is every popularity a number?
pub open spec fn popularity_known(hits: Seq<TmdbMultiItem>) -> bool {
    forall|i: int| 0 <= i < hits.len() ==> !ranking::is_nan((#[trigger] hits[i]).popularity)
}

/// Picks up to `n` **confident** anchors from `search/multi` hits for `query`, most popular first.
/// A movie or tv hit is accepted only if its title shares at least half of the query's word tokens;
/// the survivors are ranked by popularity. This binds a vague keyword to the several real works
/// TMDB returns, while still dropping unrelated noise. Every popularity is a number: a NaN has no
/// rank.
pub fn principal_top_n<'a>(hits: &'a Vec<TmdbMultiItem>, query: &str, n: usize) -> (r: Vec<
    &'a TmdbMultiItem,
>)
    requires
        popularity_known(hits@),
    ensures
        r@.map_values(|i: &'a TmdbMultiItem| i@) == top_results(
            multis_of(hits@),
            query@,
            n as nat,
        ),
{
    let wanted = norm_tokens(query);
    assert(text::texts(wanted@).len() == wanted@.len());
    let mut kept: Vec<&'a TmdbMultiItem> = Vec::new();
    if wanted.len() == 0 || n == 0 {
        assert(kept@.map_values(|i: &'a TmdbMultiItem| i@) =~= top_results(
            multis_of(hits@),
            query@,
            n as nat,
        ));
        return kept;
    }
    let ghost all = multis_of(hits@);
    let ghost keep = |i: MultiView| confident(i, words::tokens(query@));
    let ghost seen = |i: TmdbMultiItem| i@;
    let mut i: usize = 0;
    assert(kept@.unref().map_values(seen) =~= all.take(0).filter(keep));
    while i < hits.len()
        invariant
            i <= hits.len(),
            all == multis_of(hits@),
            text::texts(wanted@) == words::tokens(query@),
            keep == (|i: MultiView| confident(i, words::tokens(query@))),
            seen == (|i: TmdbMultiItem| i@),
            kept@.unref().map_values(seen) == all.take(i as int).filter(keep),
        decreases hits.len() - i,
    {
        let item = &hits[i];
        let ghost done = kept@.unref().map_values(seen);
        proof {
            assert(all.take(i + 1) =~= all.take(i as int).push(item@));
            all.take(i as int).lemma_filter_push(item@, keep);
        }
        if item.kind().is_some() && has_half(&wanted, &norm_tokens(item.display_title())) {
            kept.push(item);
            assert(kept@.unref().map_values(seen) =~= done.push(item@));
        }
        i = i + 1;
    }
    assert(all.take(hits@.len() as int) =~= all);
    let ghost raw = kept@.unref();
    let mut r = rank_refs(kept);
    proof {
        ranking::lemma_ranked_through(raw, seen);
        assert(r@.map_values(|i: &'a TmdbMultiItem| i@) =~= r@.unref().map_values(seen));
    }
    let ghost full = r@.map_values(|i: &'a TmdbMultiItem| i@);
    if n < r.len() {
        r.truncate(n);
    }
    assert(r@.map_values(|i: &'a TmdbMultiItem| i@) =~= first_n(full, n as nat));
    r
}

/// A work TMDB knows: its id and kind.
pub open spec fn anchors_of(items: Seq<MultiView>) -> Seq<(u64, TmdbKind)>
    decreases items.len(),
{
    if items.len() == 0 {
        Seq::empty()
    } else {
        let before = anchors_of(items.drop_last());
        match items.last().kind() {
            Some(kind) => before.push((items.last().id, kind)),
            None => before,
        }
    }
}

/// The ids and kinds of a list of results.
pub fn anchor_list(items: &Vec<&TmdbMultiItem>) -> (r: Vec<(u64, TmdbKind)>)
    ensures
        r@ == anchors_of(items@.map_values(|i: &TmdbMultiItem| i@)),
{
    let ghost all = items@.map_values(|i: &TmdbMultiItem| i@);
    let mut out: Vec<(u64, TmdbKind)> = Vec::new();
    let mut i: usize = 0;
    while i < items.len()
        invariant
            i <= items.len(),
            all == items@.map_values(|i: &TmdbMultiItem| i@),
            out@ == anchors_of(all.take(i as int)),
        decreases items.len() - i,
    {
        let ghost now = all.take(i + 1);
        assert(now.drop_last() =~= all.take(i as int));
        assert(now.last() == items@[i as int]@);
        if let Some(kind) = items[i].kind() {
            out.push((items[i].id, kind));
        }
        i = i + 1;
    }
    assert(all.take(items@.len() as int) =~= all);
    out
}

// -- laws -----------------------------------------------------------------------------------

/// What the principal search yields: at most `n` works, each a film or a show that passes the
/// relevance gate, no less popular one before a more popular one.
pub proof fn top_results_are_confident_and_ranked(hits: Seq<MultiView>, query: Seq<char>, n: nat)
    ensures
        top_results(hits, query, n).len() <= n,
        forall|i: int|
            0 <= i < top_results(hits, query, n).len() ==> {
                let item = #[trigger] top_results(hits, query, n)[i];
                hits.contains(item) && confident(item, words::tokens(query))
            },
        ranking::in_rank_order(top_results(hits, query, n)),
{
    broadcast use vstd::seq_lib::group_filter_ensures;

    let wanted = words::tokens(query);
    let keep = |i: MultiView| confident(i, wanted);
    let kept = hits.filter(keep);
    let all = ranking::ranked(kept);
    ranking::ranked_orders_the_entries(kept);
    assert(ranking::is_ranking::<MultiView>());
    let top = top_results(hits, query, n);
    assert forall|i: int| 0 <= i < top.len() implies {
        let item = #[trigger] top[i];
        hits.contains(item) && confident(item, wanted)
    } by {
        let item = top[i];
        assert(all[i] == item);
        assert(all.contains(item));
        ranking::lemma_ranked_member(kept, item);
        let k = choose|k: int| 0 <= k < kept.len() && kept[k] == item;
        assert(keep(kept[k]));
        assert(hits.contains(kept[k])) by {
            hits.lemma_filter_contains_rev(keep, item);
        }
    }
}

/// Asking for fewer works yields the beginning of what asking for more yields.
pub proof fn fewer_results_are_a_prefix(
    hits: Seq<MultiView>,
    query: Seq<char>,
    few: nat,
    many: nat,
)
    requires
        few <= many,
    ensures
        top_results(hits, query, few) == first_n(top_results(hits, query, many), few),
{
    let all = confident_ranking(hits, words::tokens(query));
    assert(first_n(first_n(all, many), few) =~= first_n(all, few));
}

} // verus!
