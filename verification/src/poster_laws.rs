//! Which posters a card lists and in what order, said of the candidates TMDB gave.

use vstd::prelude::*;

use crate::languages;
use crate::posters;
use crate::ranking;
use crate::ranking::Ranked;
use crate::text;
use crate::tmdb_client::ImageView;
use crate::work_laws;

verus! {

// -- the order of posters -------------------------------------------------------------------

/// Is `k` where two texts part: equal before it, and there the first ends or has the lesser
/// character?
pub open spec fn part_at(a: Seq<char>, b: Seq<char>, k: int) -> bool {
    &&& 0 <= k <= a.len()
    &&& k < b.len()
    &&& forall|i: int| 0 <= i < k ==> #[trigger] a[i] == b[i]
    &&& k == a.len() || a[k] < b[k]
}

/// A text comes before another exactly when it is the lesser at the place where they part.
pub proof fn texts_are_ordered_where_they_part(a: Seq<char>, b: Seq<char>)
    ensures
        posters::text_before(a, b) <==> exists|k: int| part_at(a, b, k),
    decreases a.len(),
{
    if a.len() > 0 && b.len() > 0 && a[0] == b[0] {
        let (x, y) = (a.skip(1), b.skip(1));
        texts_are_ordered_where_they_part(x, y);
        if posters::text_before(a, b) {
            let k = choose|k: int| part_at(x, y, k);
            assert forall|i: int| 0 <= i < k + 1 implies #[trigger] a[i] == b[i] by {
                if i > 0 {
                    assert(x[i - 1] == y[i - 1]);
                }
            }
            assert(part_at(a, b, k + 1));
        }
        if exists|k: int| part_at(a, b, k) {
            let k = choose|k: int| part_at(a, b, k);
            assert(k > 0);
            assert forall|i: int| 0 <= i < k - 1 implies #[trigger] x[i] == y[i] by {
                assert(a[i + 1] == b[i + 1]);
            }
            assert(part_at(x, y, k - 1));
        }
    } else {
        if posters::text_before(a, b) {
            assert(part_at(a, b, 0));
        }
        if exists|k: int| part_at(a, b, k) {
            let k = choose|k: int| part_at(a, b, k);
            if k > 0 {
                assert(a[0] == b[0]);
            }
        }
    }
}

/// The better voted poster comes first: the one with the higher average; of equal averages the one
/// with more votes; of equal votes the one whose path comes first. Never both ways.
pub proof fn the_better_voted_poster_comes_first(a: ImageView, b: ImageView)
    ensures
        ranking::total_position(a.vote_average) > ranking::total_position(b.vote_average)
            ==> a.outranks(&b) && !b.outranks(&a),
        a.vote_average == b.vote_average && a.vote_count > b.vote_count ==> a.outranks(&b)
            && !b.outranks(&a),
        a.vote_average == b.vote_average && a.vote_count == b.vote_count && posters::text_before(
            a.file_path,
            b.file_path,
        ) ==> a.outranks(&b) && !b.outranks(&a),
        a.vote_average == b.vote_average && a.vote_count == b.vote_count && a.file_path
            == b.file_path ==> !a.outranks(&b),
{
    posters::posters_are_totally_ranked();
    texts_are_ordered_where_they_part(a.file_path, a.file_path);
    if a.outranks(&b) {
        assert(!b.outranks(&a));
    }
}

/// The alternatives to a poster are all the candidates that have a path of their own, not blank and
/// not the primary's, and nothing else; none stands before one that is better voted.
pub proof fn alternatives_are_the_other_candidates_best_voted_first(
    candidates: Seq<ImageView>,
    primary: Seq<char>,
    image: ImageView,
)
    ensures
        posters::alternatives(candidates, primary).contains(image) <==> candidates.contains(image)
            && text::trim(image.file_path).len() > 0 && image.file_path != primary,
        forall|i: int, j: int|
            0 <= i < j < posters::alternatives(candidates, primary).len() ==> {
                let a = #[trigger] posters::alternatives(candidates, primary)[i];
                let b = #[trigger] posters::alternatives(candidates, primary)[j];
                let (x, y) = (
                    ranking::total_position(a.vote_average),
                    ranking::total_position(b.vote_average),
                );
                &&& x >= y
                &&& x == y ==> a.vote_count >= b.vote_count
                &&& x == y && a.vote_count == b.vote_count ==> !posters::text_before(
                    b.file_path,
                    a.file_path,
                )
            },
{
    let keep = |i: ImageView| posters::is_alternative(i, primary);
    let kept = candidates.filter(keep);
    let all = posters::alternatives(candidates, primary);
    ranking::lemma_ranked_member(kept, image);
    if candidates.contains(image) && keep(image) {
        let k = choose|k: int| 0 <= k < candidates.len() && candidates[k] == image;
        candidates.lemma_filter_contains(keep, k);
    }
    if kept.contains(image) {
        let k = choose|k: int| 0 <= k < kept.len() && kept[k] == image;
        candidates.lemma_filter_pred(keep, k);
        candidates.lemma_filter_contains_rev(keep, image);
    }
    posters::alternatives_are_best_voted_first(candidates, primary);
    assert forall|i: int, j: int| 0 <= i < j < all.len() implies {
        let a = #[trigger] all[i];
        let b = #[trigger] all[j];
        let (x, y) = (
            ranking::total_position(a.vote_average),
            ranking::total_position(b.vote_average),
        );
        &&& x >= y
        &&& x == y ==> a.vote_count >= b.vote_count
        &&& x == y && a.vote_count == b.vote_count ==> !posters::text_before(
            b.file_path,
            a.file_path,
        )
    } by {
        assert(!all[j].outranks(&all[i]));
    }
}

// -- the language of a poster ---------------------------------------------------------------

/// A poster without a language, or with a blank one, is textless; any other is in the language that
/// its code names, or in an undetermined one.
pub proof fn a_poster_is_in_the_language_of_its_code(language: Option<Seq<char>>)
    ensures
        language is None ==> posters::poster_lang3(language) == "zxx"@,
        language matches Some(code) ==> {
            &&& text::trim(code).len() == 0 ==> posters::poster_lang3(language) == "zxx"@
            &&& text::trim(code).len() > 0 ==> match languages::lang3_of_code(text::trim(code)) {
                Some(lang3) => posters::poster_lang3(language) == lang3,
                None => posters::poster_lang3(language) == "und"@,
            }
        },
{
}

/// The primary poster is in the language of the first candidate that has its path, and in an
/// undetermined one where no candidate has it.
pub proof fn the_primary_poster_is_found_among_the_candidates(
    candidates: Seq<ImageView>,
    primary: Seq<char>,
    i: int,
)
    requires
        0 <= i <= candidates.len(),
        forall|k: int| 0 <= k < i ==> (#[trigger] candidates[k]).file_path != primary,
    ensures
        i < candidates.len() && candidates[i].file_path == primary ==> posters::primary_lang3(
            candidates,
            primary,
        ) == posters::poster_lang3(candidates[i].language),
        i == candidates.len() ==> posters::primary_lang3(candidates, primary) == "und"@,
    decreases candidates.len(),
{
    if i > 0 {
        let rest = candidates.skip(1);
        assert(candidates[0].file_path != primary);
        assert forall|k: int| 0 <= k < i - 1 implies (#[trigger] rest[k]).file_path != primary by {
            assert(rest[k] == candidates[k + 1]);
        }
        the_primary_poster_is_found_among_the_candidates(rest, primary, i - 1);
        if i < candidates.len() {
            assert(rest[i - 1] == candidates[i]);
        }
    }
}

// -- the keys of a card's posters -----------------------------------------------------------

/// The key that a poster is filed at: its language, and the locator of its address.
pub open spec fn filed_at(lang3: Seq<char>, locator: Seq<char>) -> Seq<char> {
    "posters/"@ + lang3 + "/"@ + locator
}

/// Is there a locator for the poster at this path?
pub open spec fn is_located(
    path: Seq<char>,
    image_base: Seq<char>,
    locators: Map<Seq<char>, Seq<char>>,
) -> bool {
    locators.contains_key(work_laws::poster_address(image_base, path))
}

/// The key of an alternative.
pub open spec fn key_of(
    image: ImageView,
    image_base: Seq<char>,
    locators: Map<Seq<char>, Seq<char>>,
) -> Seq<char> {
    filed_at(
        posters::poster_lang3(image.language),
        locators[work_laws::poster_address(image_base, image.file_path)],
    )
}

#[verifier::rlimit(40)]
proof fn lemma_poster_places(
    keys: Seq<Seq<char>>,
    images: Seq<ImageView>,
    image_base: Seq<char>,
    locators: Map<Seq<char>, Seq<char>>,
) -> (from: Seq<int>)
    ensures
        ({
            let now = posters::with_posters(keys, images, image_base, locators);
            &&& now.len() == keys.len() + from.len()
            &&& forall|i: int| 0 <= i < keys.len() ==> #[trigger] now[i] == keys[i]
            &&& forall|i: int|
                0 <= i < from.len() ==> {
                    let image = images[#[trigger] from[i]];
                    &&& 0 <= from[i] < images.len()
                    &&& is_located(image.file_path, image_base, locators)
                    &&& now[keys.len() + i] == key_of(image, image_base, locators)
                }
            &&& forall|i: int, j: int|
                0 <= i < j < from.len() ==> #[trigger] from[i] < #[trigger] from[j]
            &&& forall|p: int|
                0 <= p < images.len() && is_located(
                    (#[trigger] images[p]).file_path,
                    image_base,
                    locators,
                ) ==> now.contains(key_of(images[p], image_base, locators)) || now.len() >= 10
        }),
    decreases images.len(),
{
    let now = posters::with_posters(keys, images, image_base, locators);
    if images.len() == 0 {
        Seq::empty()
    } else {
        let init = images.drop_last();
        let image = images.last();
        let last = images.len() - 1;
        let old_from = lemma_poster_places(keys, init, image_base, locators);
        let before = posters::with_posters(keys, init, image_base, locators);
        let from = if now.len() > before.len() {
            old_from.push(last)
        } else {
            old_from
        };
        let n = keys.len() as int;
        assert(now == posters::with_poster(before, image, image_base, locators));
        assert forall|i: int| 0 <= i < keys.len() implies #[trigger] now[i] == keys[i] by {
            assert(before[i] == keys[i]);
        }
        assert forall|i: int| 0 <= i < from.len() implies {
            let image = images[#[trigger] from[i]];
            &&& 0 <= from[i] < images.len()
            &&& is_located(image.file_path, image_base, locators)
            &&& now[keys.len() + i] == key_of(image, image_base, locators)
        } by {
            if i < old_from.len() {
                assert(from[i] == old_from[i]);
                assert(init[old_from[i]] == images[from[i]]);
                assert(now[n + i] == before[n + i]);
            } else {
                assert(now[n + i] == now.last());
            }
        }
        assert forall|i: int, j: int| 0 <= i < j < from.len() implies #[trigger] from[i]
            < #[trigger] from[j] by {
            assert(from[i] == old_from[i]);
            if j < old_from.len() {
                assert(from[j] == old_from[j]);
            }
        }
        assert forall|p: int|
            0 <= p < images.len() && is_located(
                (#[trigger] images[p]).file_path,
                image_base,
                locators,
            ) implies now.contains(key_of(images[p], image_base, locators)) || now.len() >= 10 by {
            let key = key_of(images[p], image_base, locators);
            if p < last {
                assert(init[p] == images[p]);
                if before.contains(key) {
                    let k = choose|k: int| 0 <= k < before.len() && before[k] == key;
                    assert(now[k] == key);
                }
            } else if before.contains(key) {
                let k = choose|k: int| 0 <= k < before.len() && before[k] == key;
                assert(now[k] == key);
            } else if before.len() < 10 {
                assert(now[before.len() as int] == key);
            }
        }
        from
    }
}

/// The posters of a card: the primary first, at its own language, where it has a locator; then
/// alternatives in their order, each at its own language, none twice; every alternative with a
/// locator, unless there are ten posters already. A card without candidates lists none.
pub proof fn a_card_lists_its_primary_poster_and_the_best_alternatives(
    image_base: Seq<char>,
    primary: Seq<char>,
    candidates: Seq<ImageView>,
    locators: Map<Seq<char>, Seq<char>>,
) -> (from: Seq<int>)
    requires
        candidates.len() > 0,
    ensures
        ({
            let keys = posters::poster_keys(image_base, primary, candidates, locators);
            let others = posters::alternatives(candidates, primary);
            let first: int = if is_located(primary, image_base, locators) {
                1
            } else {
                0
            };
            &&& first == 1 ==> keys.len() > 0 && keys[0] == filed_at(
                posters::primary_lang3(candidates, primary),
                locators[work_laws::poster_address(image_base, primary)],
            )
            &&& keys.len() == first + from.len()
            &&& keys.len() <= 10
            &&& keys.no_duplicates()
            &&& forall|i: int|
                0 <= i < from.len() ==> {
                    let image = others[#[trigger] from[i]];
                    &&& 0 <= from[i] < others.len()
                    &&& is_located(image.file_path, image_base, locators)
                    &&& keys[first + i] == key_of(image, image_base, locators)
                }
            &&& forall|i: int, j: int|
                0 <= i < j < from.len() ==> #[trigger] from[i] < #[trigger] from[j]
            &&& forall|p: int|
                0 <= p < others.len() && is_located(
                    (#[trigger] others[p]).file_path,
                    image_base,
                    locators,
                ) && keys.len() < 10 ==> keys.contains(key_of(others[p], image_base, locators))
        }),
{
    let start = posters::primary_keys(image_base, primary, candidates, locators);
    let others = posters::alternatives(candidates, primary);
    posters::poster_keys_are_few_and_distinct(image_base, primary, candidates, locators);
    let from = lemma_poster_places(start, others, image_base, locators);
    let keys = posters::poster_keys(image_base, primary, candidates, locators);
    if start.len() > 0 {
        assert(keys[0] == start[0]);
    }
    from
}

/// Without candidates, a list entry's case, a card lists no poster.
pub proof fn a_card_without_candidates_lists_no_poster(
    image_base: Seq<char>,
    primary: Seq<char>,
    locators: Map<Seq<char>, Seq<char>>,
)
    ensures
        posters::poster_keys(image_base, primary, Seq::empty(), locators).len() == 0,
{
}

/// Every address that a poster key is looked up by, the primary poster's and each candidate's, is
/// among those that locators are asked for.
pub proof fn locators_are_asked_for_every_poster(
    image_base: Seq<char>,
    primary: Seq<char>,
    candidates: Seq<ImageView>,
    i: int,
)
    requires
        0 <= i < candidates.len(),
    ensures
        ({
            let asked = posters::addresses(image_base, primary, candidates);
            &&& asked.len() == candidates.len() + 1
            &&& asked[0] == work_laws::poster_address(image_base, primary)
            &&& asked[i + 1] == work_laws::poster_address(image_base, candidates[i].file_path)
        }),
{
}

} // verus!
