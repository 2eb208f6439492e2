//! Bounds check of a parsed season and episode against TMDB's structure.

use vstd::prelude::*;

use crate::tmdb_client::{TmdbSeasonSummary, TmdbTvDetails};

verus! {

/// How a parsed `(season, episode)` lines up against TMDB's actual structure.
#[derive(Debug, Clone, Copy, PartialEq, Eq, Structural)]
pub enum SeasonEpisodeBounds {
    /// Consistent with TMDB, or unverifiable: keep the record as it is.
    InBounds,
    /// The season sits past TMDB's known seasons and is not otherwise listed: a naming-convention
    /// artifact. Keep the record, strip the season.
    SeasonOverflow,
    /// The season is real, but the episode runs past its `episode_count`: an absolute number
    /// relabelled onto the season. Keep the record, strip the season.
    EpisodeOverflow,
    /// A contradiction that neither overflow explains, that is a negative season: drop the record.
    Contradiction,
}

/// The episode count of the first entry for a season.
pub open spec fn listed_episodes(seasons: Seq<TmdbSeasonSummary>, season: i64) -> Option<u32>
    decreases seasons.len(),
{
    if seasons.len() == 0 {
        None
    } else if seasons[0].season_number == season {
        Some(seasons[0].episode_count)
    } else {
        listed_episodes(seasons.skip(1), season)
    }
}

fn find_season(seasons: &Vec<TmdbSeasonSummary>, season: i64) -> (r: Option<u32>)
    ensures
        r == listed_episodes(seasons@, season),
{
    let mut i: usize = 0;
    assert(seasons@.skip(0) =~= seasons@);
    while i < seasons.len()
        invariant
            i <= seasons.len(),
            listed_episodes(seasons@, season) == listed_episodes(seasons@.skip(i as int), season),
        decreases seasons.len() - i,
    {
        if seasons[i].season_number == season {
            return Some(seasons[i].episode_count);
        }
        assert(seasons@.skip(i as int).skip(1) =~= seasons@.skip(i + 1));
        i = i + 1;
    }
    None
}

/// The verdict on a parsed season and episode. Only a positive divergence is anything but
/// `InBounds`.
pub open spec fn bounds_verdict(
    details: TmdbTvDetails,
    season: Option<i64>,
    episode: Option<i64>,
) -> SeasonEpisodeBounds {
    if season is None || (details.number_of_seasons == 0 && details.seasons@.len() == 0) {
        // Nothing to check, or nothing to check it against.
        SeasonEpisodeBounds::InBounds
    } else if season->0 < 0 {
        SeasonEpisodeBounds::Contradiction
    } else {
        match listed_episodes(details.seasons@, season->0) {
            None => if season->0 > details.number_of_seasons {
                SeasonEpisodeBounds::SeasonOverflow
            } else {
                SeasonEpisodeBounds::InBounds
            },
            Some(count) => if episode is Some && 0 < count < episode->0 {
                SeasonEpisodeBounds::EpisodeOverflow
            } else {
                SeasonEpisodeBounds::InBounds
            },
        }
    }
}

/// Is a parsed `(season, episode)` consistent with what TMDB says the show has? Deliberately
/// lenient: anything ambiguous or unverifiable is accepted.
///
/// - No parsed season: `InBounds`. Episode-only titles are legitimately unbounded.
/// - TMDB gave no structure: `InBounds`.
/// - Negative season: `Contradiction`.
/// - Season past `number_of_seasons` and not listed: `SeasonOverflow`.
/// - Episode past the listed season's known `episode_count`: `EpisodeOverflow`.
pub fn season_episode_bounds(
    details: &TmdbTvDetails,
    season: Option<i64>,
    episode: Option<i64>,
) -> (r: SeasonEpisodeBounds)
    ensures
        r == bounds_verdict(*details, season, episode),
{
    let season = match season {
        Some(s) => s,
        None => return SeasonEpisodeBounds::InBounds,
    };
    if details.number_of_seasons == 0 && details.seasons.len() == 0 {
        return SeasonEpisodeBounds::InBounds;
    }
    if season < 0 {
        return SeasonEpisodeBounds::Contradiction;
    }
    let matched = find_season(&details.seasons, season);
    if season > details.number_of_seasons as i64 && matched.is_none() {
        return SeasonEpisodeBounds::SeasonOverflow;
    }
    if let (Some(ep), Some(count)) = (episode, matched) {
        if count > 0 && ep > count as i64 {
            return SeasonEpisodeBounds::EpisodeOverflow;
        }
    }
    SeasonEpisodeBounds::InBounds
}

/// Is `episode` one of the episodes TMDB counts for a listed season?
pub open spec fn in_season(details: TmdbTvDetails, season: i64, episode: i64) -> bool {
    match listed_episodes(details.seasons@, season) {
        Some(count) => count > 0 && 1 <= episode <= count,
        None => false,
    }
}

/// True when `episode` is a valid episode of `season` (the season must be listed and its count
/// known). Decides whether a bare title number is an in-season episode.
pub fn episode_in_season(details: &TmdbTvDetails, season: i64, episode: i64) -> (r: bool)
    ensures
        r == in_season(*details, season, episode),
{
    match find_season(&details.seasons, season) {
        Some(count) => count > 0 && episode >= 1 && episode <= count as i64,
        None => false,
    }
}

/// An episode that TMDB counts for a season is never out of that season's bounds.
pub proof fn counted_episodes_are_in_bounds(details: TmdbTvDetails, season: i64, episode: i64)
    requires
        in_season(details, season, episode),
        season >= 0,
    ensures
        bounds_verdict(details, Some(season), Some(episode)) == SeasonEpisodeBounds::InBounds,
{
}

/// A record is dropped for a negative season alone, and a missing season is never held against it.
pub proof fn only_a_negative_season_is_dropped(
    details: TmdbTvDetails,
    season: Option<i64>,
    episode: Option<i64>,
)
    ensures
        bounds_verdict(details, season, episode) == SeasonEpisodeBounds::Contradiction ==> season
            is Some && season->0 < 0,
        season is None ==> bounds_verdict(details, season, episode) == SeasonEpisodeBounds::InBounds,
{
}

} // verus!
