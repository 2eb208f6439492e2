//! What the principal search answers, said of the query's words and of TMDB's results themselves.

use vstd::prelude::*;

use crate::principal;
use crate::principal::MultiView;
use crate::ranking;
use crate::ranking::Ranked;
use crate::tmdb_client::TmdbKind;
use crate::words;

verus! {

// -- the works a query names ----------------------------------------------------------------

/// Is `title` what a result is called: a film's title, else a show's name, else nothing?
pub open spec fn is_called(item: MultiView, title: Seq<char>) -> bool {
    match (item.title, item.name) {
        (Some(t), _) => title == t,
        (None, Some(n)) => title == n,
        (None, None) => title.len() == 0,
    }
}

/// Is the result a film or a show, rather than a person or anything else?
pub open spec fn is_work(item: MultiView) -> bool {
    item.media_type == Some("movie"@) || item.media_type == Some("tv"@)
}

/// Are `places` at least half of the places in the query's list of words, with the word at each of
/// them standing among the words of `title`?
pub open spec fn are_half_the_words(places: Set<int>, query: Seq<char>, title: Seq<char>) -> bool {
    let asked = words::tokens(query);
    &&& places.finite()
    &&& 2 * places.len() >= asked.len()
    &&& forall|k: int| #[trigger]
        places.contains(k) ==> 0 <= k < asked.len() && words::tokens(title).contains(asked[k])
}

/// The places of the words of `wanted` that stand among `have`.
spec fn places_of(wanted: Seq<Seq<char>>, have: Seq<Seq<char>>) -> Set<int> {
    Set::new(|k: int| 0 <= k < wanted.len() && have.contains(wanted[k]))
}

proof fn lemma_overlap_counts_places(wanted: Seq<Seq<char>>, have: Seq<Seq<char>>)
    ensures
        places_of(wanted, have).finite(),
        places_of(wanted, have).len() == principal::overlap(wanted, have),
    decreases wanted.len(),
{
    let now = places_of(wanted, have);
    if wanted.len() == 0 {
        assert(now =~= Set::empty());
    } else {
        let init = wanted.drop_last();
        lemma_overlap_counts_places(init, have);
        let before = places_of(init, have);
        let last = wanted.len() - 1;
        if have.contains(wanted.last()) {
            assert(now =~= before.insert(last));
        } else {
            assert(now =~= before);
        }
    }
}

proof fn lemma_half_is_half(query: Seq<char>, title: Seq<char>)
    ensures
        principal::shares_half(words::tokens(query), words::tokens(title)) <==> exists|
            places: Set<int>,
        |
            are_half_the_words(places, query, title),
{
    let asked = words::tokens(query);
    let have = words::tokens(title);
    let most = places_of(asked, have);
    lemma_overlap_counts_places(asked, have);
    if principal::shares_half(asked, have) {
        assert(are_half_the_words(most, query, title));
    }
    if exists|places: Set<int>| are_half_the_words(places, query, title) {
        let places = choose|places: Set<int>| are_half_the_words(places, query, title);
        assert(places.subset_of(most));
        vstd::set_lib::lemma_len_subset(places, most);
    }
}

proof fn lemma_confident(item: MultiView, query: Seq<char>)
    ensures
        principal::confident(item, words::tokens(query)) <==> is_work(item) && exists|
            title: Seq<char>,
            places: Set<int>,
        |
            is_called(item, title) && #[trigger] are_half_the_words(places, query, title),
{
    let called = item.display_title();
    assert(is_called(item, called));
    lemma_half_is_half(query, called);
    if exists|title: Seq<char>, places: Set<int>|
        is_called(item, title) && #[trigger] are_half_the_words(places, query, title) {
        let (title, places) = choose|title: Seq<char>, places: Set<int>|
            is_called(item, title) && #[trigger] are_half_the_words(places, query, title);
        assert(title =~= called);
    }
    reveal_strlit("movie");
    reveal_strlit("tv");
    assert("movie"@.len() == 5 && "tv"@.len() == 2);
}

/// Every work the search yields is one of TMDB's results, a film or a show, and at least half of
/// the words of the query stand in its title, each place in the query's list of words counting
/// once.
pub proof fn every_work_found_holds_half_the_query(hits: Seq<MultiView>, query: Seq<char>, n: nat)
    ensures
        forall|i: int|
            0 <= i < principal::top_results(hits, query, n).len() ==> {
                let item = #[trigger] principal::top_results(hits, query, n)[i];
                &&& hits.contains(item)
                &&& is_work(item)
                &&& exists|title: Seq<char>, places: Set<int>|
                    is_called(item, title) && #[trigger] are_half_the_words(places, query, title)
            },
{
    principal::top_results_are_confident_and_ranked(hits, query, n);
    let top = principal::top_results(hits, query, n);
    assert forall|i: int| 0 <= i < top.len() implies {
        let item = #[trigger] top[i];
        &&& hits.contains(item)
        &&& is_work(item)
        &&& exists|title: Seq<char>, places: Set<int>|
            is_called(item, title) && #[trigger] are_half_the_words(places, query, title)
    } by {
        lemma_confident(top[i], query);
    }
}

/// Every film or show among TMDB's results whose title holds at least half of the words of the query
/// is found: the search yields it, unless it already yields as many works as were asked for, none of
/// which is less popular.
pub proof fn every_work_that_holds_half_the_query_is_found(
    hits: Seq<MultiView>,
    query: Seq<char>,
    n: nat,
    item: MultiView,
    title: Seq<char>,
    places: Set<int>,
)
    requires
        words::tokens(query).len() > 0,
        hits.contains(item),
        is_work(item),
        is_called(item, title),
        are_half_the_words(places, query, title),
    ensures
        principal::top_results(hits, query, n).contains(item) || {
            &&& principal::top_results(hits, query, n).len() == n
            &&& forall|i: int|
                0 <= i < n ==> ranking::numeric_position(
                    (#[trigger] principal::top_results(hits, query, n)[i]).popularity,
                ) >= ranking::numeric_position(item.popularity)
        },
        n >= hits.len() ==> principal::top_results(hits, query, n).contains(item),
{
    broadcast use vstd::seq_lib::group_filter_ensures;

    let wanted = words::tokens(query);
    let keep = |i: MultiView| principal::confident(i, wanted);
    let kept = hits.filter(keep);
    let all = ranking::ranked(kept);
    let top = principal::top_results(hits, query, n);
    lemma_confident(item, query);
    assert(keep(item));
    let k = choose|k: int| 0 <= k < hits.len() && hits[k] == item;
    hits.lemma_filter_contains(keep, k);
    assert(kept.contains(item));
    ranking::lemma_ranked_member(kept, item);
    ranking::ranked_orders_the_entries(kept);
    hits.lemma_filter_len(keep);
    assert(kept.len() <= hits.len());
    assert(all == principal::confident_ranking(hits, wanted));
    let at = choose|at: int| 0 <= at < all.len() && all[at] == item;
    if at < top.len() {
        assert(top[at] == item);
    } else {
        assert(ranking::is_ranking::<MultiView>());
        assert forall|i: int| 0 <= i < n implies ranking::numeric_position(
            (#[trigger] top[i]).popularity,
        ) >= ranking::numeric_position(item.popularity) by {
            assert(top[i] == all[i]);
            assert(!all[at].outranks(&all[i]));
        }
    }
}

/// A query without a word names no work; of one with a word, asking for fewer works yields the first
/// of those that asking for as many as there are results yields.
pub proof fn a_search_yields_the_first_works(hits: Seq<MultiView>, query: Seq<char>, n: nat)
    ensures
        words::tokens(query).len() == 0 ==> principal::top_results(hits, query, n).len() == 0,
        ({
            let all = principal::top_results(hits, query, hits.len());
            let top = principal::top_results(hits, query, n);
            &&& all.len() <= n ==> top == all
            &&& all.len() > n ==> top == all.subrange(0, n as int)
        }),
{
    let wanted = words::tokens(query);
    let keep = |i: MultiView| principal::confident(i, wanted);
    hits.lemma_filter_len(keep);
    ranking::ranked_orders_the_entries(hits.filter(keep));
    let all = principal::top_results(hits, query, hits.len());
    if wanted.len() > 0 {
        assert(all == principal::confident_ranking(hits, wanted));
        if all.len() > n {
            assert(principal::top_results(hits, query, n) =~= all.subrange(0, n as int));
        }
    }
}

/// Of two works the search yields, the earlier is at least as popular.
pub proof fn works_are_found_most_popular_first(
    hits: Seq<MultiView>,
    query: Seq<char>,
    n: nat,
    i: int,
    j: int,
)
    requires
        0 <= i < j < principal::top_results(hits, query, n).len(),
    ensures
        ranking::numeric_position(principal::top_results(hits, query, n)[i].popularity)
            >= ranking::numeric_position(principal::top_results(hits, query, n)[j].popularity),
{
    principal::top_results_are_confident_and_ranked(hits, query, n);
    let top = principal::top_results(hits, query, n);
    assert(!top[j].outranks(&top[i]));
}

// -- popularity -----------------------------------------------------------------------------

/// Positions order doubles as numbers are ordered, told from their bit patterns: without the sign
/// bit a greater pattern is a greater number, with it a lesser one; nothing with the sign bit is
/// above anything without it; and the two zeros are equal.
pub proof fn positions_order_numbers(a: u64, b: u64)
    ensures
        a < 0x8000_0000_0000_0000 && b < 0x8000_0000_0000_0000 ==> (ranking::numeric_position(a)
            < ranking::numeric_position(b) <==> a < b),
        a >= 0x8000_0000_0000_0000 && b >= 0x8000_0000_0000_0000 ==> (ranking::numeric_position(a)
            < ranking::numeric_position(b) <==> b < a),
        a >= 0x8000_0000_0000_0000 && b < 0x8000_0000_0000_0000 ==> ranking::numeric_position(a)
            <= ranking::numeric_position(b),
        ranking::numeric_position(0x8000_0000_0000_0000) == ranking::numeric_position(0),
        ranking::numeric_position(a) == ranking::numeric_position(b) ==> a == b || (a
            == 0x8000_0000_0000_0000 && b == 0) || (b == 0x8000_0000_0000_0000 && a == 0),
        ranking::is_positive(a) <==> 0 < a <= 0x7ff0_0000_0000_0000,
        ranking::is_nan(a) <==> 0x7ff0_0000_0000_0000 < a < 0x8000_0000_0000_0000 || a
            > 0xfff0_0000_0000_0000,
{
}

/// Total positions tell every two bit patterns apart: negative below positive, `-0` just below `0`.
pub proof fn total_positions_order_bits(a: u64, b: u64)
    ensures
        a < 0x8000_0000_0000_0000 && b < 0x8000_0000_0000_0000 ==> (ranking::total_position(a)
            < ranking::total_position(b) <==> a < b),
        a >= 0x8000_0000_0000_0000 && b >= 0x8000_0000_0000_0000 ==> (ranking::total_position(a)
            < ranking::total_position(b) <==> b < a),
        a >= 0x8000_0000_0000_0000 && b < 0x8000_0000_0000_0000 ==> ranking::total_position(a)
            < ranking::total_position(b),
{
}

// -- ranking is a stable sort ---------------------------------------------------------------

/// Are `from` the places of `s` that the entries of `r` were taken from, each place once, with
/// entries that outrank neither way kept in the order of `s`?
pub open spec fn is_stable_order<T: Ranked>(s: Seq<T>, r: Seq<T>, from: Seq<int>) -> bool {
    &&& r.len() == s.len() == from.len()
    &&& forall|i: int| 0 <= i < r.len() ==> 0 <= #[trigger] from[i] < s.len() && r[i] == s[from[i]]
    &&& forall|i: int, j: int|
        0 <= i < j < r.len() ==> {
            &&& #[trigger] from[i] != #[trigger] from[j]
            &&& !r[i].outranks(&r[j]) && !r[j].outranks(&r[i]) ==> from[i] < from[j]
        }
}

proof fn lemma_placed_is_stable<T: Ranked>(r: Seq<T>, x: T) -> (at: int)
    requires
        ranking::is_ranking::<T>(),
        ranking::in_rank_order(r),
    ensures
        0 <= at <= r.len(),
        ranking::placed(r, x) == r.insert(at, x),
        forall|i: int| at <= i < r.len() ==> x.outranks(&#[trigger] r[i]),
    decreases r.len(),
{
    if r.len() > 0 && x.outranks(&r.last()) {
        let init = r.drop_last();
        assert(ranking::in_rank_order(init)) by {
            assert forall|i: int, j: int| 0 <= i < j < init.len() implies !(
            #[trigger] init[j]).outranks(#[trigger] &init[i]) by {
                assert(init[i] == r[i] && init[j] == r[j]);
            }
        }
        let at = lemma_placed_is_stable(init, x);
        assert(ranking::placed(r, x) =~= r.insert(at, x));
        assert forall|i: int| at <= i < r.len() implies x.outranks(&#[trigger] r[i]) by {
            if i < init.len() {
                assert(x.outranks(&init[i]));
            }
        }
        at
    } else {
        assert(ranking::placed(r, x) =~= r.insert(r.len() as int, x));
        r.len() as int
    }
}

/// Ranking is a stable sort: every entry comes from a place of its own, no entry stands before one
/// that outranks it, and entries that outrank neither way keep their order.
pub proof fn ranking_is_a_stable_sort<T: Ranked>(s: Seq<T>) -> (from: Seq<int>)
    requires
        ranking::is_ranking::<T>(),
    ensures
        is_stable_order(s, ranking::ranked(s), from),
        forall|i: int, j: int|
            0 <= i < j < s.len() ==> !(#[trigger] ranking::ranked(s)[j]).outranks(
                #[trigger] &ranking::ranked(s)[i],
            ),
    decreases s.len(),
{
    ranking::ranked_orders_the_entries(s);
    if s.len() == 0 {
        Seq::empty()
    } else {
        let init = s.drop_last();
        let x = s.last();
        let before = ranking::ranked(init);
        let old_from = ranking_is_a_stable_sort(init);
        ranking::ranked_orders_the_entries(init);
        let at = lemma_placed_is_stable(before, x);
        let now = ranking::ranked(s);
        let from = old_from.insert(at, s.len() - 1);
        assert(now == before.insert(at, x));
        assert forall|i: int| 0 <= i < now.len() implies 0 <= #[trigger] from[i] < s.len()
            && now[i] == s[from[i]] by {
            if i < at {
                assert(from[i] == old_from[i]);
                assert(now[i] == before[i]);
            } else if i > at {
                assert(from[i] == old_from[i - 1]);
                assert(now[i] == before[i - 1]);
            }
        }
        assert forall|i: int, j: int| 0 <= i < j < now.len() implies {
            &&& #[trigger] from[i] != #[trigger] from[j]
            &&& !now[i].outranks(&now[j]) && !now[j].outranks(&now[i]) ==> from[i] < from[j]
        } by {
            let oi = if i < at {
                i
            } else {
                i - 1
            };
            let oj = if j < at {
                j
            } else {
                j - 1
            };
            if i != at {
                assert(from[i] == old_from[oi]);
                assert(now[i] == before[oi]);
            }
            if j != at {
                assert(from[j] == old_from[oj]);
                assert(now[j] == before[oj]);
            }
            if i == at {
                assert(x.outranks(&before[oj]));
            }
        }
        from
    }
}

/// Of works that are equally popular the one TMDB listed first is found first.
pub proof fn equally_popular_works_keep_their_order(hits: Seq<MultiView>) -> (from: Seq<int>)
    ensures
        is_stable_order(hits, ranking::ranked(hits), from),
        forall|i: int, j: int|
            0 <= i < j < hits.len() && ranking::numeric_position(
                ranking::ranked(hits)[i].popularity,
            ) == ranking::numeric_position(ranking::ranked(hits)[j].popularity) ==> #[trigger] from[i]
                < #[trigger] from[j],
{
    assert(ranking::is_ranking::<MultiView>());
    let from = ranking_is_a_stable_sort(hits);
    let r = ranking::ranked(hits);
    assert forall|i: int, j: int|
        0 <= i < j < hits.len() && ranking::numeric_position(r[i].popularity)
            == ranking::numeric_position(r[j].popularity) implies #[trigger] from[i]
        < #[trigger] from[j] by {
        assert(!r[i].outranks(&r[j]) && !r[j].outranks(&r[i]));
    }
    from
}

// -- what is remembered of a search ---------------------------------------------------------

/// The list made of found works names each of them in order: its id, and film or show as TMDB's
/// `media_type` says.
pub proof fn found_works_are_listed_by_id_and_kind(items: Seq<MultiView>)
    requires
        forall|i: int| 0 <= i < items.len() ==> is_work(#[trigger] items[i]),
    ensures
        principal::anchors_of(items).len() == items.len(),
        forall|i: int|
            0 <= i < items.len() ==> {
                let work = #[trigger] principal::anchors_of(items)[i];
                &&& work.0 == items[i].id
                &&& work.1 == TmdbKind::Movie <==> items[i].media_type == Some("movie"@)
                &&& work.1 == TmdbKind::Tv <==> items[i].media_type == Some("tv"@)
            },
    decreases items.len(),
{
    reveal_strlit("movie");
    reveal_strlit("tv");
    assert("movie"@.len() == 5 && "tv"@.len() == 2);
    if items.len() > 0 {
        let init = items.drop_last();
        assert forall|i: int| 0 <= i < init.len() implies is_work(#[trigger] init[i]) by {
            assert(init[i] == items[i]);
        }
        found_works_are_listed_by_id_and_kind(init);
        assert(is_work(items[items.len() - 1]));
        let before = principal::anchors_of(init);
        let now = principal::anchors_of(items);
        assert forall|i: int| 0 <= i < items.len() implies {
            let work = #[trigger] now[i];
            &&& work.0 == items[i].id
            &&& work.1 == TmdbKind::Movie <==> items[i].media_type == Some("movie"@)
            &&& work.1 == TmdbKind::Tv <==> items[i].media_type == Some("tv"@)
        } by {
            if i < init.len() {
                assert(now[i] == before[i]);
                assert(init[i] == items[i]);
            }
        }
    }
}

} // verus!
