//! The persisted form of a principal search: a JSON list of works.

use vstd::prelude::*;

use crate::decimal;
use crate::decimal::{parse_unsigned, push_numeral};
use crate::text;
use crate::text::{chars_of, str_eq};
use crate::tmdb_client;
use crate::tmdb_client::{kind_str, TmdbKind};
use crate::words;

verus! {

/// One entry of the persisted principal search: `{"tmdbid":…,"kind":…}`.
pub struct PrincipalEntry {
    pub tmdbid: u64,
    pub kind: String,
}

/// The kind a text names.
pub open spec fn kind_named(s: Seq<char>) -> Option<TmdbKind> {
    if s == "movie"@ {
        Some(TmdbKind::Movie)
    } else if s == "tv"@ {
        Some(TmdbKind::Tv)
    } else {
        None
    }
}

/// The kind a text names.
pub fn kind_from_str(s: &str) -> (r: Option<TmdbKind>)
    ensures
        r == kind_named(s@),
{
    if str_eq(s, "movie") {
        Some(TmdbKind::Movie)
    } else if str_eq(s, "tv") {
        Some(TmdbKind::Tv)
    } else {
        None
    }
}

/// One entry as JSON.
pub open spec fn entry_json(entry: (u64, TmdbKind)) -> Seq<char> {
    "{\"tmdbid\":"@ + decimal::numeral(entry.0 as nat) + ",\"kind\":\""@ + tmdb_client::kind_text(
        entry.1,
    ) + "\"}"@
}

/// A list of entries as a JSON array, without any whitespace.
pub open spec fn principal_json(list: Seq<(u64, TmdbKind)>) -> Seq<char> {
    "["@ + words::join(list.map_values(|e: (u64, TmdbKind)| entry_json(e)), ","@) + "]"@
}

/// The JSON text persisted for a principal search. Byte-identical between feeders, so that a warm
/// cache is shared.
pub fn encode_principal_list(list: &[(u64, TmdbKind)]) -> (r: String)
    ensures
        r@ == principal_json(list@),
{
    let ghost all = list@.map_values(|e: (u64, TmdbKind)| entry_json(e));
    let mut parts: Vec<String> = Vec::new();
    let mut i: usize = 0;
    assert(text::texts(parts@) =~= all.take(0));
    while i < list.len()
        invariant
            i <= list.len(),
            all == list@.map_values(|e: (u64, TmdbKind)| entry_json(e)),
            text::texts(parts@) == all.take(i as int),
        decreases list.len() - i,
    {
        let ghost done = text::texts(parts@);
        let mut part = "{\"tmdbid\":".to_owned();
        push_numeral(&mut part, list[i].0);
        part.append(",\"kind\":\"");
        part.append(kind_str(list[i].1));
        part.append("\"}");
        let ghost p = part@;
        parts.push(part);
        assert(text::texts(parts@) =~= done.push(p));
        assert(all.take(i + 1) =~= all.take(i as int).push(all[i as int]));
        i = i + 1;
    }
    assert(all.take(list@.len() as int) =~= all);
    let mut json = "[".to_owned();
    json.append(words::join_texts(&parts, ",").as_str());
    json.append("]");
    json
}

/// The entries that name a kind, in order.
pub open spec fn known_entries(entries: Seq<(u64, Seq<char>)>) -> Seq<(u64, TmdbKind)>
    decreases entries.len(),
{
    if entries.len() == 0 {
        Seq::empty()
    } else {
        let before = known_entries(entries.drop_last());
        match kind_named(entries.last().1) {
            Some(kind) => before.push((entries.last().0, kind)),
            None => before,
        }
    }
}

/// The views of a list of entries.
pub open spec fn entries_of(v: Seq<PrincipalEntry>) -> Seq<(u64, Seq<char>)> {
    v.map_values(|e: PrincipalEntry| (e.tmdbid, e.kind@))
}

// -- reading back what was written ----------------------------------------------------------

/// Was this text written for some list?
pub open spec fn is_written(json: Seq<char>) -> bool {
    exists|list: Seq<(u64, TmdbKind)>| json == #[trigger] principal_json(list)
}

/// The list this text was written for.
pub open spec fn written_list(json: Seq<char>) -> Seq<(u64, TmdbKind)> {
    choose|list: Seq<(u64, TmdbKind)>| json == #[trigger] principal_json(list)
}

/// The word for a kind names that kind.
pub proof fn kind_reads_back(kind: TmdbKind)
    ensures
        kind_named(tmdb_client::kind_text(kind)) == Some(kind),
{
    reveal_strlit("movie");
    reveal_strlit("tv");
    assert("tv"@.len() == 2);
    assert("movie"@.len() == 5);
}

/// The text before the number of an entry.
spec fn opening() -> Seq<char> {
    "{\"tmdbid\":"@
}

/// The text after the number of an entry.
spec fn closing(kind: TmdbKind) -> Seq<char> {
    ",\"kind\":\""@ + tmdb_client::kind_text(kind) + "\"}"@
}

spec fn entries_json(list: Seq<(u64, TmdbKind)>) -> Seq<Seq<char>> {
    list.map_values(|e: (u64, TmdbKind)| entry_json(e))
}

/// What stands before the number of the last entry.
spec fn lead(list: Seq<(u64, TmdbKind)>) -> Seq<char> {
    let init = list.drop_last();
    if init.len() == 0 {
        opening()
    } else {
        words::join(entries_json(init), ","@) + ","@ + opening()
    }
}

proof fn lemma_last_entry(list: Seq<(u64, TmdbKind)>)
    requires
        list.len() > 0,
    ensures
        words::join(entries_json(list), ","@) == lead(list) + decimal::numeral(
            list.last().0 as nat,
        ) + closing(list.last().1),
        lead(list).len() >= opening().len() > 0,
        lead(list).last() == ':',
{
    let parts = entries_json(list);
    let last = list.last();
    reveal_strlit("{\"tmdbid\":");
    assert(opening().last() == ':');
    assert(parts.last() == entry_json(last));
    assert(parts.drop_last() =~= entries_json(list.drop_last()));
    assert(entry_json(last) =~= opening() + decimal::numeral(last.0 as nat) + closing(last.1));
    assert(words::join(parts, ","@) =~= lead(list) + decimal::numeral(last.0 as nat) + closing(
        last.1,
    ));
}

proof fn lemma_closings_differ(a: Seq<char>, b: Seq<char>, ka: TmdbKind, kb: TmdbKind)
    requires
        a + closing(ka) == b + closing(kb),
    ensures
        ka == kb,
        a == b,
{
    reveal_strlit("movie");
    reveal_strlit("tv");
    reveal_strlit("\"}");
    reveal_strlit(",\"kind\":\"");
    let (s, t) = (a + closing(ka), b + closing(kb));
    let (ca, cb) = (closing(ka), closing(kb));
    assert(s[s.len() - 3] == ca[ca.len() - 3]);
    assert(t[t.len() - 3] == cb[cb.len() - 3]);
    assert(ca[ca.len() - 3] == tmdb_client::kind_text(ka).last());
    assert(cb[cb.len() - 3] == tmdb_client::kind_text(kb).last());
    assert("movie"@.last() == 'e' && "tv"@.last() == 'v');
    assert(a =~= s.take(s.len() - ca.len()));
    assert(b =~= t.take(t.len() - cb.len()));
}

proof fn lemma_numbers_stand_out(a: Seq<char>, b: Seq<char>, m: nat, n: nat)
    requires
        a.len() > 0 && a.last() == ':',
        b.len() > 0 && b.last() == ':',
        a + decimal::numeral(m) == b + decimal::numeral(n),
    ensures
        m == n,
        a == b,
{
    let (x, y) = (decimal::numeral(m), decimal::numeral(n));
    let s = a + x;
    decimal::lemma_numeral_digits(m);
    decimal::lemma_numeral_digits(n);
    assert(s.len() == a.len() + x.len());
    assert(s.len() == (b + y).len() == b.len() + y.len());
    assert((b + y)[b.len() - 1] == ':');
    assert(s[a.len() - 1] == ':');
    if a.len() < b.len() {
        assert(s[b.len() - 1] == x[b.len() - 1 - a.len()]);
        assert(text::ascii_digit(x[b.len() - 1 - a.len()]));
    } else if b.len() < a.len() {
        assert(s[a.len() - 1] == y[a.len() - 1 - b.len()]);
        assert(text::ascii_digit(y[a.len() - 1 - b.len()]));
    }
    assert(a =~= s.take(a.len() as int));
    assert(b =~= (b + y).take(b.len() as int));
    assert(x =~= s.skip(a.len() as int));
    assert(y =~= (b + y).skip(b.len() as int));
    decimal::lemma_numeral_injective(m, n);
}

proof fn lemma_joined_entries_differ(a: Seq<(u64, TmdbKind)>, b: Seq<(u64, TmdbKind)>)
    requires
        words::join(entries_json(a), ","@) == words::join(entries_json(b), ","@),
    ensures
        a == b,
    decreases a.len(),
{
    let empty = Seq::<(u64, TmdbKind)>::empty();
    assert(words::join(entries_json(empty), ","@).len() == 0);
    if a.len() > 0 {
        lemma_last_entry(a);
    } else {
        assert(a =~= empty);
    }
    if b.len() > 0 {
        lemma_last_entry(b);
    } else {
        assert(b =~= empty);
    }
    if a.len() > 0 && b.len() > 0 {
        let (m, n) = (a.last().0 as nat, b.last().0 as nat);
        lemma_closings_differ(
            lead(a) + decimal::numeral(m),
            lead(b) + decimal::numeral(n),
            a.last().1,
            b.last().1,
        );
        lemma_numbers_stand_out(lead(a), lead(b), m, n);
        let (x, y) = (a.drop_last(), b.drop_last());
        reveal_strlit(",");
        if x.len() > 0 {
            lemma_last_entry(x);
        }
        if y.len() > 0 {
            lemma_last_entry(y);
        }
        if x.len() > 0 && y.len() > 0 {
            let (j, k) = (words::join(entries_json(x), ","@), words::join(entries_json(y), ","@));
            let tail = ","@ + opening();
            assert(lead(a) =~= j + tail && lead(b) =~= k + tail);
            assert(j =~= lead(a).take(lead(a).len() - tail.len()));
            assert(k =~= lead(b).take(lead(b).len() - tail.len()));
            lemma_joined_entries_differ(x, y);
        } else {
            assert(x =~= y);
        }
        assert(a =~= x.push(a.last()));
        assert(b =~= y.push(b.last()));
    }
}

/// The persisted text tells lists apart: no two lists are written the same.
pub proof fn principal_texts_differ(a: Seq<(u64, TmdbKind)>, b: Seq<(u64, TmdbKind)>)
    requires
        principal_json(a) == principal_json(b),
    ensures
        a == b,
{
    reveal_strlit("[");
    reveal_strlit("]");
    let (x, y) = (words::join(entries_json(a), ","@), words::join(entries_json(b), ","@));
    let (s, t) = (principal_json(a), principal_json(b));
    assert(x =~= s.subrange(1, s.len() - 1));
    assert(y =~= t.subrange(1, t.len() - 1));
    lemma_joined_entries_differ(a, b);
}

/// What stands from the first entry of a list to the end of its text.
spec fn rest(list: Seq<(u64, TmdbKind)>) -> Seq<char>
    decreases list.len(),
{
    if list.len() == 0 {
        "]"@
    } else if list.len() == 1 {
        entry_json(list[0]) + "]"@
    } else {
        entry_json(list[0]) + (","@ + rest(list.skip(1)))
    }
}

proof fn lemma_join_front(parts: Seq<Seq<char>>, sep: Seq<char>)
    requires
        parts.len() >= 2,
    ensures
        words::join(parts, sep) == parts[0] + sep + words::join(parts.skip(1), sep),
    decreases parts.len(),
{
    let init = parts.drop_last();
    let tail = parts.skip(1);
    assert(tail.last() == parts.last());
    if parts.len() == 2 {
        assert(words::join(tail, sep) == parts[1]);
        assert(words::join(init, sep) == parts[0]);
    } else {
        lemma_join_front(init, sep);
        assert(tail.drop_last() =~= init.skip(1));
    }
    assert(words::join(parts, sep) =~= parts[0] + sep + words::join(tail, sep));
}

proof fn lemma_rest(list: Seq<(u64, TmdbKind)>)
    ensures
        words::join(entries_json(list), ","@) + "]"@ == rest(list),
    decreases list.len(),
{
    let parts = entries_json(list);
    if list.len() == 0 {
        assert(words::join(parts, ","@) + "]"@ =~= "]"@);
    } else if list.len() >= 2 {
        lemma_join_front(parts, ","@);
        lemma_rest(list.skip(1));
        assert(parts.skip(1) =~= entries_json(list.skip(1)));
        assert(words::join(parts, ","@) + "]"@ =~= rest(list));
    }
}

/// The position after `part`, if that is what stands at `at`.
fn after_part(chars: &Vec<char>, at: usize, part: &str) -> (r: Option<usize>)
    requires
        at <= chars@.len(),
    ensures
        match r {
            Some(p) => p == at + part@.len() && p <= chars@.len() && chars@.subrange(
                at as int,
                p as int,
            ) == part@,
            None => !part@.is_prefix_of(chars@.skip(at as int)),
        },
{
    let wanted = chars_of(part);
    let ghost s = chars@.skip(at as int);
    let mut i: usize = 0;
    while i < wanted.len()
        invariant
            i <= wanted.len(),
            wanted@ == part@,
            at + i <= chars.len(),
            s == chars@.skip(at as int),
            forall|k: int| 0 <= k < i ==> chars@[at + k] == part@[k],
        decreases wanted.len() - i,
    {
        if at + i == chars.len() || chars[at + i] != wanted[i] {
            assert(!part@.is_prefix_of(s)) by {
                if part@.is_prefix_of(s) {
                    assert(s[i as int] == part@[i as int]);
                }
            }
            return None;
        }
        i = i + 1;
    }
    assert(chars@.subrange(at as int, at + i) =~= part@);
    Some(at + i)
}

/// Where the run of digits at `at` ends.
fn digits_end(chars: &Vec<char>, at: usize) -> (r: usize)
    requires
        at <= chars@.len(),
    ensures
        at <= r <= chars@.len(),
        forall|k: int| at <= k < r ==> text::ascii_digit(#[trigger] chars@[k]),
        r < chars@.len() ==> !text::ascii_digit(chars@[r as int]),
{
    let mut i: usize = at;
    while i < chars.len() && '0' <= chars[i] && chars[i] <= '9'
        invariant
            at <= i <= chars@.len(),
            forall|k: int| at <= k < i ==> text::ascii_digit(#[trigger] chars@[k]),
        decreases chars.len() - i,
    {
        i = i + 1;
    }
    i
}

/// An entry stands at the start of `s`, and `t` after it.
spec fn leads(s: Seq<char>, e: (u64, TmdbKind), t: Seq<char>) -> bool {
    s == entry_json(e) + t
}

proof fn lemma_entry_parts(chars: Seq<char>, at: int, e: (u64, TmdbKind), t: Seq<char>)
    requires
        0 <= at <= chars.len(),
        leads(chars.skip(at), e, t),
    ensures
        ({
            let n = decimal::numeral(e.0 as nat);
            let a = at + 10;
            let q = a + n.len();
            let b = q + 9;
            let d = b + tmdb_client::kind_text(e.1).len();
            &&& d + 2 <= chars.len()
            &&& d + 2 == at + entry_json(e).len()
            &&& "{\"tmdbid\":"@.len() == 10 && "{\"tmdbid\":"@.is_prefix_of(chars.skip(at))
            &&& chars.subrange(a, q) == n && n.len() > 0 && decimal::all_digits(n)
            &&& chars[q] == ','
            &&& ",\"kind\":\""@.len() == 9 && ",\"kind\":\""@.is_prefix_of(chars.skip(q))
            &&& tmdb_client::kind_text(e.1).is_prefix_of(chars.skip(b))
            &&& "\"}"@.len() == 2 && "\"}"@.is_prefix_of(chars.skip(d))
            &&& e.1 == TmdbKind::Tv ==> !"movie"@.is_prefix_of(chars.skip(b))
        }),
{
    let n = decimal::numeral(e.0 as nat);
    let kind = tmdb_client::kind_text(e.1);
    let s = chars.skip(at);
    reveal_strlit("{\"tmdbid\":");
    reveal_strlit(",\"kind\":\"");
    reveal_strlit("\"}");
    reveal_strlit("movie");
    reveal_strlit("tv");
    decimal::lemma_numeral_digits(e.0 as nat);
    let (o, m, c) = ("{\"tmdbid\":"@, ",\"kind\":\""@, "\"}"@);
    assert(o.len() == 10 && m.len() == 9 && c.len() == 2);
    let a: int = 10;
    let q: int = a + n.len();
    let b: int = q + 9;
    let d: int = b + kind.len();
    assert(s == o + n + m + kind + c + t);
    assert(o =~= s.subrange(0, 10));
    assert(n =~= s.subrange(a, q));
    assert(m =~= s.subrange(q, b));
    assert(kind =~= s.subrange(b, d));
    assert(c =~= s.subrange(d, d + 2));
    assert(chars.subrange(at + a, at + q) =~= s.subrange(a, q));
    assert(chars.skip(at + q).subrange(0, 9) =~= s.subrange(q, b));
    assert(chars.skip(at + b).subrange(0, kind.len() as int) =~= s.subrange(b, d));
    assert(chars.skip(at + d).subrange(0, 2) =~= s.subrange(d, d + 2));
    assert(chars[at + q] == s.subrange(q, b)[0]);
    if e.1 == TmdbKind::Tv && "movie"@.is_prefix_of(chars.skip(at + b)) {
        assert(chars.skip(at + b)[0] == "movie"@[0]);
        assert(chars.skip(at + b).subrange(0, kind.len() as int)[0] == "tv"@[0]);
    }
}

/// Reads the entry that stands at `at`, and says where it ends.
fn read_entry(json: &str, chars: &Vec<char>, at: usize) -> (r: Option<((u64, TmdbKind), usize)>)
    requires
        chars@ == json@,
        at <= chars@.len(),
    ensures
        r matches Some((_, p)) ==> at < p <= chars@.len(),
        forall|e: (u64, TmdbKind), t: Seq<char>| #[trigger]
            leads(chars@.skip(at as int), e, t) ==> r == Some(
                (e, (at + entry_json(e).len()) as usize),
            ) && at + entry_json(e).len() <= chars@.len(),
{
    let ghost s = chars@.skip(at as int);
    assert forall|e: (u64, TmdbKind), t: Seq<char>| #[trigger] leads(s, e, t) implies {
        let n = decimal::numeral(e.0 as nat);
        decimal::unsigned_value(n, u64::MAX as nat) == Some(e.0 as nat)
    } by {
        decimal::lemma_unsigned_value_of_numeral(e.0 as nat, u64::MAX as nat);
    }
    proof {
        reveal_strlit("{\"tmdbid\":");
        assert forall|e: (u64, TmdbKind), t: Seq<char>| #[trigger]
            leads(s, e, t) implies "{\"tmdbid\":"@.is_prefix_of(s) by {
            lemma_entry_parts(chars@, at as int, e, t);
        }
    }
    let a: usize = match after_part(chars, at, "{\"tmdbid\":") {
        Some(p) => p,
        None => return None,
    };
    let q: usize = digits_end(chars, a);
    proof {
        assert forall|e: (u64, TmdbKind), t: Seq<char>| #[trigger] leads(s, e, t) implies q == a
            + decimal::numeral(e.0 as nat).len() && json@.subrange(a as int, q as int)
            == decimal::numeral(e.0 as nat) && ",\"kind\":\""@.is_prefix_of(chars@.skip(q as int)) by {
            lemma_entry_parts(chars@, at as int, e, t);
            let n = decimal::numeral(e.0 as nat);
            let z = a + n.len();
            assert(chars@.subrange(a as int, z) == n);
            if q < z {
                assert(chars@[q as int] == n[q - a]);
                assert(text::ascii_digit(n[q - a]));
            }
            assert(!text::ascii_digit(chars@[z]));
        }
    }
    let id: u64 = match parse_unsigned(json.substring_char(a, q), u64::MAX) {
        Some(v) => v,
        None => return None,
    };
    let b: usize = match after_part(chars, q, ",\"kind\":\"") {
        Some(p) => p,
        None => return None,
    };
    proof {
        assert forall|e: (u64, TmdbKind), t: Seq<char>| #[trigger] leads(s, e, t) implies id == e.0
            && tmdb_client::kind_text(e.1).is_prefix_of(chars@.skip(b as int)) && (e.1
            == TmdbKind::Tv ==> !"movie"@.is_prefix_of(chars@.skip(b as int))) by {
            lemma_entry_parts(chars@, at as int, e, t);
        }
    }
    let (kind, d) = match after_part(chars, b, "movie") {
        Some(p) => (TmdbKind::Movie, p),
        None => match after_part(chars, b, "tv") {
            Some(p) => (TmdbKind::Tv, p),
            None => return None,
        },
    };
    proof {
        assert forall|e: (u64, TmdbKind), t: Seq<char>| #[trigger] leads(s, e, t) implies kind == e.1
            && "\"}"@.is_prefix_of(chars@.skip(d as int)) by {
            lemma_entry_parts(chars@, at as int, e, t);
            assert(chars@.skip(b as int).subrange(0, (d - b) as int) =~= chars@.subrange(
                b as int,
                d as int,
            ));
        }
    }
    let end: usize = match after_part(chars, d, "\"}") {
        Some(p) => p,
        None => return None,
    };
    proof {
        assert forall|e: (u64, TmdbKind), t: Seq<char>| #[trigger] leads(s, e, t) implies end == at
            + entry_json(e).len() by {
            lemma_entry_parts(chars@, at as int, e, t);
        }
    }
    Some(((id, kind), end))
}

/// Reads a text as the entries it would hold if it was written here.
fn read_entries(json: &str) -> (r: Option<Vec<(u64, TmdbKind)>>)
    ensures
        forall|list: Seq<(u64, TmdbKind)>|
            json@ == #[trigger] principal_json(list) ==> r is Some && r->0@ == list,
{
    let chars = chars_of(json);
    let ghost known = is_written(json@);
    let ghost list = written_list(json@);
    proof {
        reveal_strlit("[");
        reveal_strlit("]");
        reveal_strlit(",");
        reveal_strlit("{\"tmdbid\":");
        if known {
            lemma_rest(list);
            assert(json@ =~= "["@ + rest(list));
            assert(chars@.skip(1) =~= rest(list));
            assert("["@ =~= chars@.skip(0).subrange(0, 1));
        }
        assert forall|l: Seq<(u64, TmdbKind)>| json@ == #[trigger] principal_json(l) implies known
            && l == list by {
            principal_texts_differ(l, list);
        }
    }
    let mut out: Vec<(u64, TmdbKind)> = Vec::new();
    let mut at: usize = match after_part(&chars, 0, "[") {
        Some(p) => p,
        None => return None,
    };
    if after_part(&chars, at, "]").is_some() {
        assert(known ==> list.len() == 0) by {
            if known && list.len() > 0 {
                assert(chars@.subrange(1, 2)[0] == rest(list)[0]);
                assert(rest(list)[0] == entry_json(list[0])[0]);
            }
        }
        assert(known ==> out@ =~= list);
        return Some(out);
    }
    assert(known ==> list.len() > 0) by {
        if known && list.len() == 0 {
            assert("]"@ =~= chars@.skip(1).subrange(0, 1));
        }
    }
    assert(list.skip(0) =~= list);
    loop
        invariant
            chars@ == json@,
            at <= chars@.len(),
            known ==> out@.len() < list.len() && out@ == list.take(out@.len() as int)
                && chars@.skip(at as int) == rest(list.skip(out@.len() as int)),
            forall|l: Seq<(u64, TmdbKind)>|
                json@ == #[trigger] principal_json(l) ==> known && l == list,
        decreases chars@.len() - at,
    {
        let ghost k = out@.len() as int;
        let ghost tail = list.skip(k);
        let ghost more = if tail.len() == 1 {
            "]"@
        } else {
            ","@ + rest(tail.skip(1))
        };
        proof {
            reveal_strlit(",");
            reveal_strlit("]");
            if known {
                assert(leads(chars@.skip(at as int), tail[0], more));
            }
        }
        let (entry, end) = match read_entry(json, &chars, at) {
            Some(x) => x,
            None => return None,
        };
        out.push(entry);
        proof {
            if known {
                assert(at + entry_json(entry).len() <= chars.len());
                assert(list.take(k + 1) =~= list.take(k).push(list[k]));
                assert(tail.skip(1) =~= list.skip(k + 1));
                assert(chars@.skip(end as int) =~= chars@.skip(at as int).skip(
                    entry_json(entry).len() as int,
                ));
                assert(chars@.skip(end as int) =~= more);
            }
        }
        at = match after_part(&chars, end, ",") {
            Some(p) => {
                proof {
                    if known {
                        assert(chars@.subrange(end as int, p as int)[0] == more[0]);
                        assert(chars@.skip(p as int) =~= more.skip(1));
                        assert(more.skip(1) =~= rest(tail.skip(1)));
                    }
                }
                p
            },
            None => {
                proof {
                    if known {
                        if tail.len() > 1 {
                            assert(","@ =~= more.subrange(0, 1));
                        }
                        assert(list.take(list.len() as int) =~= list);
                    }
                }
                return Some(out);
            },
        };
    }
}

/// Reads back a text that [`encode_principal_list`] wrote; `None` for any other text.
pub fn read_principal_list(json: &str) -> (r: Option<Vec<(u64, TmdbKind)>>)
    ensures
        match r {
            Some(list) => json@ == principal_json(list@) && list@ == written_list(json@),
            None => !is_written(json@),
        },
{
    match read_entries(json) {
        Some(list) => if str_eq(encode_principal_list(list.as_slice()).as_str(), json) {
            proof {
                principal_texts_differ(list@, written_list(json@));
            }
            Some(list)
        } else {
            None
        },
        None => None,
    }
}

/// The works of a persisted principal search: a text written here is the list it was written for;
/// of any other JSON, the entries that name a kind, in order; of anything else, nothing.
pub open spec fn persisted_list(json: Seq<char>, parsed: Option<Seq<(u64, Seq<char>)>>) -> Seq<
    (u64, TmdbKind),
> {
    if is_written(json) {
        written_list(json)
    } else {
        match parsed {
            Some(entries) => known_entries(entries),
            None => Seq::empty(),
        }
    }
}

/// The views of what a JSON decoder makes of a text.
pub open spec fn parsed_of(parsed: Option<Vec<PrincipalEntry>>) -> Option<Seq<(u64, Seq<char>)>> {
    match parsed {
        Some(entries) => Some(entries_of(entries@)),
        None => None,
    }
}

/// The works of a persisted principal search. `parsed` is what a JSON decoder makes of the text,
/// `None` when it is no list of entries; it matters only for a text that was not written by
/// [`encode_principal_list`]. Garbage yields nothing, an unknown kind is skipped.
pub fn decode_principal_list(json: &str, parsed: Option<Vec<PrincipalEntry>>) -> (r: Vec<
    (u64, TmdbKind),
>)
    ensures
        r@ == persisted_list(json@, parsed_of(parsed)),
{
    if let Some(list) = read_principal_list(json) {
        return list;
    }
    let mut out: Vec<(u64, TmdbKind)> = Vec::new();
    if let Some(entries) = parsed {
        let ghost all = entries_of(entries@);
        let mut i: usize = 0;
        while i < entries.len()
            invariant
                i <= entries.len(),
                all == entries_of(entries@),
                out@ == known_entries(all.take(i as int)),
            decreases entries.len() - i,
        {
            let ghost now = all.take(i + 1);
            assert(now.drop_last() =~= all.take(i as int));
            assert(now.last() == (entries@[i as int].tmdbid, entries@[i as int].kind@));
            if let Some(kind) = kind_from_str(entries[i].kind.as_str()) {
                out.push((entries[i].tmdbid, kind));
            }
            i = i + 1;
        }
        assert(all.take(entries@.len() as int) =~= all);
    }
    out
}

/// Decoding undoes encoding, for every list, whatever a JSON decoder makes of the text.
pub proof fn principal_list_round_trips(
    list: Seq<(u64, TmdbKind)>,
    parsed: Option<Seq<(u64, Seq<char>)>>,
)
    ensures
        persisted_list(principal_json(list), parsed) == list,
{
    assert(is_written(principal_json(list)));
    principal_texts_differ(list, written_list(principal_json(list)));
}

} // verus!
