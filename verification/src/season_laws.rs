//! The verdict on a parsed season and episode, said of the seasons TMDB lists.

use vstd::prelude::*;

use crate::seasons;
use crate::seasons::SeasonEpisodeBounds;
use crate::tmdb_client::{TmdbSeasonSummary, TmdbTvDetails};

verus! {

/// Is `i` the first entry for a season?
pub open spec fn is_first_entry(list: Seq<TmdbSeasonSummary>, season: i64, i: int) -> bool {
    &&& 0 <= i < list.len()
    &&& list[i].season_number == season
    &&& forall|k: int| 0 <= k < i ==> (#[trigger] list[k]).season_number != season
}

/// Is a season listed at all?
pub open spec fn is_listed(list: Seq<TmdbSeasonSummary>, season: i64) -> bool {
    exists|i: int| 0 <= i < list.len() && (#[trigger] list[i]).season_number == season
}

proof fn lemma_listed(list: Seq<TmdbSeasonSummary>, season: i64)
    ensures
        is_listed(list, season) <==> seasons::listed_episodes(list, season) is Some,
        forall|i: int| #[trigger]
            is_first_entry(list, season, i) ==> seasons::listed_episodes(list, season) == Some(
                list[i].episode_count,
            ),
    decreases list.len(),
{
    if list.len() > 0 {
        let rest = list.skip(1);
        lemma_listed(rest, season);
        if is_listed(list, season) && list[0].season_number != season {
            let i = choose|i: int| 0 <= i < list.len() && (#[trigger] list[i]).season_number == season;
            assert(rest[i - 1].season_number == season);
        }
        if is_listed(rest, season) {
            let i = choose|i: int| 0 <= i < rest.len() && (#[trigger] rest[i]).season_number == season;
            assert(list[i + 1].season_number == season);
        }
        if list[0].season_number == season {
            assert(is_listed(list, season));
        }
        assert forall|i: int| #[trigger]
            is_first_entry(list, season, i) implies seasons::listed_episodes(list, season) == Some(
            list[i].episode_count,
        ) by {
            if i > 0 {
                assert(list[0].season_number != season);
                assert forall|k: int| 0 <= k < i - 1 implies (#[trigger] rest[k]).season_number
                    != season by {
                    assert(rest[k] == list[k + 1]);
                }
                assert(is_first_entry(rest, season, i - 1));
            }
        }
    }
}

/// Nothing is held against a record without a season, nor where TMDB gave no structure to hold it
/// against.
pub proof fn without_a_season_or_a_structure_nothing_is_out_of_bounds(
    details: TmdbTvDetails,
    season: Option<i64>,
    episode: Option<i64>,
)
    requires
        season is None || (details.number_of_seasons == 0 && details.seasons@.len() == 0),
    ensures
        seasons::bounds_verdict(details, season, episode) == SeasonEpisodeBounds::InBounds,
{
}

/// Where there is a structure a negative season contradicts it, and nothing else does.
pub proof fn a_negative_season_is_a_contradiction(
    details: TmdbTvDetails,
    season: i64,
    episode: Option<i64>,
)
    requires
        details.number_of_seasons > 0 || details.seasons@.len() > 0,
    ensures
        seasons::bounds_verdict(details, Some(season), episode)
            == SeasonEpisodeBounds::Contradiction <==> season < 0,
{
}

/// A season that is not listed overflows exactly when it is past the number of seasons, whatever the
/// episode.
pub proof fn an_unlisted_season_past_the_last_overflows(
    details: TmdbTvDetails,
    season: i64,
    episode: Option<i64>,
)
    requires
        details.number_of_seasons > 0 || details.seasons@.len() > 0,
        season >= 0,
        !is_listed(details.seasons@, season),
    ensures
        season > details.number_of_seasons ==> seasons::bounds_verdict(
            details,
            Some(season),
            episode,
        ) == SeasonEpisodeBounds::SeasonOverflow,
        season <= details.number_of_seasons ==> seasons::bounds_verdict(
            details,
            Some(season),
            episode,
        ) == SeasonEpisodeBounds::InBounds,
{
    lemma_listed(details.seasons@, season);
}

/// An episode of a listed season overflows exactly when the season's first entry counts episodes and
/// the episode is past that count; a listed season never overflows itself, though it be past the
/// number of seasons.
pub proof fn an_episode_past_the_count_of_its_season_overflows(
    details: TmdbTvDetails,
    season: i64,
    episode: Option<i64>,
    i: int,
)
    requires
        season >= 0,
        is_first_entry(details.seasons@, season, i),
    ensures
        ({
            let count = details.seasons@[i].episode_count;
            let verdict = seasons::bounds_verdict(details, Some(season), episode);
            &&& verdict == SeasonEpisodeBounds::EpisodeOverflow <==> count > 0 && episode is Some
                && episode->0 > count
            &&& verdict == SeasonEpisodeBounds::EpisodeOverflow || verdict
                == SeasonEpisodeBounds::InBounds
        }),
{
    lemma_listed(details.seasons@, season);
    assert(details.seasons@[i].season_number == season);
}

/// An episode is in a season exactly when the season is listed, its first entry counts episodes, and
/// the episode lies between one and that count.
pub proof fn an_episode_is_in_a_season_that_counts_it(
    details: TmdbTvDetails,
    season: i64,
    episode: i64,
)
    ensures
        !is_listed(details.seasons@, season) ==> !seasons::in_season(details, season, episode),
        forall|i: int| #[trigger]
            is_first_entry(details.seasons@, season, i) ==> (seasons::in_season(
                details,
                season,
                episode,
            ) <==> 1 <= episode <= details.seasons@[i].episode_count),
{
    lemma_listed(details.seasons@, season);
}

} // verus!
