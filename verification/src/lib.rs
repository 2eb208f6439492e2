//! The decisions of a card feeder: the **discovery** half of gateway search.
//!
//! Bridges metadata sources into `fileType=card` records (poster, description and an id bag
//! describing a *work*, never a file), so that the question "which work is this?" is answered
//! cheaply and separately from "which releases exist for it?". One upstream today: `tmdb`.
//!
//! Everything here computes on plain values. Talking to TMDB, decoding JSON, the cache, the request
//! budget, the environment and the gateway's SDK belong to the program around the library, which
//! hands in what they say.
//!
//! - [`card`], [`titles`], [`posters`]: the card and its projection to a record;
//! - [`tmdb_client`], [`principal`], [`seasons`]: requests, replies and payloads;
//! - [`resolve`], [`principal_list`], [`discovery`]: from replies and cache entries to cards;
//! - [`query`], [`tmdb`]: the plugin, from queries to answers and from record ids to outcomes;
//! - [`laws`], [`work_laws`]: what holds of every card and record, and of a record beside the work it
//!   describes;
//! - [`search_laws`], [`row_laws`], [`name_laws`], [`poster_laws`], [`season_laws`], [`reply_laws`],
//!   [`query_laws`]: what holds of a search, a row, the names and posters of a work, its seasons,
//!   TMDB's replies, and queries;
//! - [`text`], [`words`], [`decimal`], [`languages`], [`ranking`], [`keyed`]: the ground they stand
//!   on.

use vstd::prelude::*;

pub mod card;
pub mod consts;
pub mod decimal;
pub mod discovery;
pub mod keyed;
pub mod languages;
pub mod laws;
pub mod name_laws;
pub mod poster_laws;
pub mod posters;
pub mod principal;
pub mod principal_list;
pub mod query;
pub mod query_laws;
pub mod ranking;
pub mod reply_laws;
pub mod resolve;
pub mod row_laws;
pub mod search_laws;
pub mod season_laws;
pub mod seasons;
pub mod text;
pub mod titles;
pub mod tmdb;
pub mod tmdb_client;
pub mod words;
pub mod work_laws;

verus! {

} // verus!
