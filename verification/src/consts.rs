//! Constants of the card feeder.

use vstd::prelude::*;

verus! {

/// TMDB REST API base (v3).
pub const TMDB_API_BASE: &'static str = "https://api.themoviedb.org/3";

/// TMDB image CDN base; a size segment and the file path follow.
pub const TMDB_IMAGE_BASE: &'static str = "https://image.tmdb.org/t/p";

/// TMDB poster size segment inserted between [`TMDB_IMAGE_BASE`] and the poster path. Mandatory:
/// TMDB answers 404 to a path with no size.
pub const TMDB_POSTER_SIZE: &'static str = "w500";

/// TMDB search request timeout (seconds).
pub const TMDB_SEARCH_TIMEOUT_SECS: u64 = 1000;

/// TMDB poster download timeout (seconds).
pub const TMDB_POSTER_TIMEOUT_SECS: u64 = 3000;

/// Pause (seconds) applied when TMDB answers 429 with no (or an unparseable) `Retry-After` header.
pub const TMDB_RATE_LIMIT_DEFAULT_RETRY_SECS: u64 = 5;

/// Maximum time to wait for a TMDB budget permit before giving up (seconds).
pub const TMDB_WAIT_DEADLINE_SECS: u64 = 3000;

/// Budget-permit deadline for a catalog page, deliberately far shorter than
/// [`TMDB_WAIT_DEADLINE_SECS`]: nobody asked for this row in particular, it refreshes on a timer,
/// and its client keeps the previously filled row on an empty pass.
pub const TMDB_DISCOVERY_WAIT_DEADLINE_SECS: u64 = 5;

/// Hard ceiling on catalog pages walked for one discovery row, whatever the requested card count.
pub const DISCOVERY_MAX_PAGES: u32 = 5;

/// TMDB keyword ids excluded from a discovery row, as `without_keywords`: `hentai`, `softcore`,
/// `erotica`, `pornography`, `adult animation`. `include_adult=false` does not cover them: TMDB's
/// `adult` flag is reserved for actual pornography.
pub const DISCOVERY_EXCLUDED_KEYWORDS: &'static str = "198385,155477,325693,445,161919";

/// Minimum TMDB vote count for a discovery row entry: a noise gate behind
/// [`DISCOVERY_EXCLUDED_KEYWORDS`].
pub const DISCOVERY_MIN_VOTES: u32 = 50;

/// Minimum vote count for a top-rated row: sorting by rating puts a single 10.0 vote on top, which
/// the shared gate does not stop.
pub const DISCOVERY_TOP_RATED_MIN_VOTES: u32 = 200;

/// Default number of cards returned for a free-text query (top-N by TMDB popularity).
pub const DEFAULT_CARD_TOP_N: usize = 10;

/// How many ranked principal-search anchors to persist per query. Reads slice the cached list to
/// the configured N, so flipping that knob never needs a cache wipe.
pub const CACHED_PRINCIPAL_DEPTH: usize = 30;

/// Default number of cards a keyword-less catalog query returns: TMDB's own catalog page size.
pub const DEFAULT_CARD_DISCOVERY_N: usize = 20;

/// Defensive ceiling on a card's reported season count.
pub const MAX_CARD_SEASONS: u32 = 50;

/// Most members a record's `posters/*` key-set may carry, the primary included.
pub const MAX_POSTER_MEMBERS: usize = 10;

/// Sustained TMDB request rate when none is configured: the bit pattern of the double 20.0.
pub const DEFAULT_TMDB_REFILL_PER_SEC: u64 = 0x4034_0000_0000_0000;

/// Short-burst TMDB token ceiling when none is configured: the bit pattern of the double 20.0.
pub const DEFAULT_TMDB_BURST: u64 = 0x4034_0000_0000_0000;

} // verus!
