# card_feeder

The card tier of a metadata gateway: given free text, an explicit id or a catalog row, which works
are there, and what does their record say?

A **card** is a metadata-only record that identifies a *work* (a series, a film), not a file: title,
poster, description, and an **id bag** of every cross-source identifier that could be resolved. It
has no bytes. Its address is a locator derived from `(source, id)`, so that any peer holding the id
derives it offline.

## Layout

```
src/     the library, verified with Verus: every rule, every text that is built or read
app/     ordinary Rust around it: HTTP, JSON, environment, cache, request budget, plugin interface
tests/   tests of the library
```

The library takes and returns plain values. Doubles (votes, popularity, rates) come in as bit
patterns and are only ordered; locators and domains come from the gateway's SDK.

## What is proved

Each function states in its `ensures` what it returns, over `Seq<char>`, `Map` and `Seq` models. The
only assumptions are about the standard library: the Unicode tables behind `char::is_whitespace`,
`char::is_alphanumeric`, `char::to_lowercase` and `str::to_lowercase` (spelled out on ASCII, named
beyond it; lowercasing leaves no text empty that was not), and `String::push`. `src/laws.rs` and the public proof functions of the other modules
state what relates them; among others:

- a record is emitted exactly for a displayable card, says what the card says, holds every member of
  its key-sets, answers every filter of the query but `genres` and `languages`, and never has a flat
  field of those two names;
- a work has one record id on every path, two works never share one, and it leads back to the work;
- `searchTitle` is one of the names on the record;
- a catalog row is short, displayable, of its kind, asks for five pages at most, and every row but
  plain trending carries the adult filters;
- a search answered from the cache says what it said when it was fresh: the persisted text of every
  list is read back as that list;
- a genre table that was fetched is given again without a call, and an empty one is asked for again;
- the word tokens of a text, which relevance is judged by, are never empty.

## Config

| key | meaning |
|---|---|
| `tmdb_token` | TMDB v4 read token. Without it the feeder stays healthy and returns no cards. |
| `tmdb_rate_per_sec` | Sustained TMDB request rate. Default 20/s. |
| `tmdb_burst` | Short-burst token ceiling. Default 20. |
| `card_top_n` | Works returned per free-text search. Default 10. |

The environment (`TMDB_TOKEN`, `TMDB_RATE_PER_SEC`, `TMDB_BURST`, `CARD_TOP_N`) seeds the first boot;
the config file wins from then on.
