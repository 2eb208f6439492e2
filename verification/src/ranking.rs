//! Stable ranking, and the orders of IEEE-754 doubles on their bit patterns.

use vstd::prelude::*;

verus! {

/// Something that can outrank another of its kind.
pub trait Ranked: Sized {
    spec fn outranks(&self, other: &Self) -> bool;
}

/// Something that can tell whether it outranks another of its kind.
pub trait Rankable: Ranked {
    fn comes_before(&self, other: &Self) -> (r: bool)
        ensures
            r == self.outranks(other),
    ;
}

/// `s` with `x` put before the entries at its end that it outranks, and after all others.
pub open spec fn placed<T: Ranked>(s: Seq<T>, x: T) -> Seq<T>
    decreases s.len(),
{
    if s.len() > 0 && x.outranks(&s.last()) {
        placed(s.drop_last(), x).push(s.last())
    } else {
        s.push(x)
    }
}

/// `s` in ranked order, entries that outrank neither way kept in the order of `s`.
pub open spec fn ranked<T: Ranked>(s: Seq<T>) -> Seq<T>
    decreases s.len(),
{
    if s.len() == 0 {
        s
    } else {
        placed(ranked(s.drop_last()), s.last())
    }
}

/// No entry outranks an earlier one.
pub open spec fn in_rank_order<T: Ranked>(s: Seq<T>) -> bool {
    forall|i: int, j: int| 0 <= i < j < s.len() ==> !(#[trigger] s[j]).outranks(#[trigger] &s[i])
}

/// "Outranks" orders the kind: whoever outranks is not outranked, and what is outranked by no
/// member of a chain is outranked by none of the chain's later members.
pub open spec fn is_ranking<T: Ranked>() -> bool {
    &&& forall|a: T, b: T| #[trigger] a.outranks(&b) ==> !b.outranks(&a)
    &&& forall|a: T, b: T, c: T|
        !(#[trigger] b.outranks(&a)) && !(#[trigger] c.outranks(&b)) ==> !c.outranks(&a)
}

proof fn lemma_placed<T: Ranked>(s: Seq<T>, x: T)
    ensures
        placed(s, x).to_multiset() == s.to_multiset().insert(x),
        placed(s, x).len() == s.len() + 1,
        is_ranking::<T>() && in_rank_order(s) ==> in_rank_order(placed(s, x)),
    decreases s.len(),
{
    broadcast use vstd::seq_lib::to_multiset_build;

    if s.len() > 0 && x.outranks(&s.last()) {
        let init = s.drop_last();
        lemma_placed(init, x);
        assert(init.push(s.last()) =~= s);
        assert(placed(s, x).to_multiset() =~= s.to_multiset().insert(x));
        if is_ranking::<T>() && in_rank_order(s) {
            assert(in_rank_order(init));
            let p = placed(init, x);
            let r = placed(s, x);
            assert forall|i: int, j: int| 0 <= i < j < r.len() implies !(
            #[trigger] r[j]).outranks(#[trigger] &r[i]) by {
                if j == r.len() - 1 {
                    assert(p.to_multiset().contains(p[i])) by {
                        p.to_multiset_ensures();
                        assert(p.contains(p[i]));
                    }
                    init.to_multiset_ensures();
                    if p[i] != x {
                        assert(init.contains(p[i]));
                        let k = choose|k: int| 0 <= k < init.len() && init[k] == p[i];
                        assert(s[k] == p[i]);
                    }
                } else {
                    assert(r[j] == p[j] && r[i] == p[i]);
                }
            }
        }
    } else {
        if is_ranking::<T>() && in_rank_order(s) {
            let r = s.push(x);
            assert forall|i: int, j: int| 0 <= i < j < r.len() implies !(
            #[trigger] r[j]).outranks(#[trigger] &r[i]) by {
                if j == s.len() {
                    let last = s.last();
                    if i < s.len() - 1 {
                        assert(!s[s.len() - 1].outranks(&s[i]));
                    }
                    assert(!x.outranks(&last));
                }
            }
        }
    }
}

/// Ranking keeps exactly the entries there were, and puts no entry before one that outranks it.
pub proof fn ranked_orders_the_entries<T: Ranked>(s: Seq<T>)
    ensures
        ranked(s).to_multiset() == s.to_multiset(),
        ranked(s).len() == s.len(),
        is_ranking::<T>() ==> in_rank_order(ranked(s)),
    decreases s.len(),
{
    broadcast use vstd::seq_lib::to_multiset_build;

    if s.len() > 0 {
        let init = s.drop_last();
        ranked_orders_the_entries(init);
        lemma_placed(ranked(init), s.last());
        assert(init.push(s.last()) =~= s);
    }
}

proof fn lemma_placed_through<A: Ranked, B: Ranked>(s: Seq<A>, x: A, f: spec_fn(A) -> B)
    requires
        forall|a: A, b: A| #[trigger] f(a).outranks(&f(b)) == a.outranks(&b),
    ensures
        placed(s, x).map_values(f) == placed(s.map_values(f), f(x)),
    decreases s.len(),
{
    let t = s.map_values(f);
    if s.len() > 0 && x.outranks(&s.last()) {
        lemma_placed_through(s.drop_last(), x, f);
        assert(t.drop_last() =~= s.drop_last().map_values(f));
        assert(f(x).outranks(&f(s.last())));
        assert(placed(s, x).map_values(f) =~= placed(t, f(x)));
    } else {
        if s.len() > 0 {
            assert(!f(x).outranks(&f(s.last())));
        }
        assert(placed(s, x).map_values(f) =~= t.push(f(x)));
    }
}

/// Ranking commutes with a change of representation that keeps who outranks whom.
pub proof fn lemma_ranked_through<A: Ranked, B: Ranked>(s: Seq<A>, f: spec_fn(A) -> B)
    requires
        forall|a: A, b: A| #[trigger] f(a).outranks(&f(b)) == a.outranks(&b),
    ensures
        ranked(s).map_values(f) == ranked(s.map_values(f)),
    decreases s.len(),
{
    let t = s.map_values(f);
    if s.len() > 0 {
        lemma_ranked_through(s.drop_last(), f);
        assert(t.drop_last() =~= s.drop_last().map_values(f));
        lemma_placed_through(ranked(s.drop_last()), s.last(), f);
    } else {
        assert(ranked(s).map_values(f) =~= ranked(t));
    }
}

/// What is ranked is what was there.
pub proof fn lemma_ranked_member<T: Ranked>(s: Seq<T>, x: T)
    ensures
        ranked(s).contains(x) <==> s.contains(x),
{
    ranked_orders_the_entries(s);
    s.to_multiset_ensures();
    ranked(s).to_multiset_ensures();
    assert(ranked(s).contains(x) <==> ranked(s).to_multiset().count(x) > 0);
}

/// Puts the entries in ranked order.
pub fn rank_refs<'a, T: Rankable>(items: Vec<&'a T>) -> (r: Vec<&'a T>)
    ensures
        r@.unref() == ranked(items@.unref()),
{
    let mut out: Vec<&'a T> = Vec::new();
    let ghost all = items@.unref();
    let mut i: usize = 0;
    assert(out@.unref() =~= ranked(all.take(0)));
    while i < items.len()
        invariant
            i <= items.len(),
            all == items@.unref(),
            out@.unref() == ranked(all.take(i as int)),
        decreases items.len() - i,
    {
        let x = items[i];
        let ghost s = out@.unref();
        let mut p: usize = out.len();
        assert(s.take(p as int) =~= s);
        assert(placed(s, *x) =~= placed(s.take(p as int), *x) + s.skip(p as int));
        while p > 0 && x.comes_before(out[p - 1])
            invariant
                p <= out.len(),
                s == out@.unref(),
                placed(s, *x) == placed(s.take(p as int), *x) + s.skip(p as int),
            decreases p,
        {
            proof {
                let t = s.take(p as int);
                assert(t.last() == s[p - 1]);
                assert(t.drop_last() =~= s.take(p - 1));
                assert(placed(t, *x) + s.skip(p as int) =~= placed(s.take(p - 1), *x) + s.skip(
                    p - 1,
                ));
            }
            p = p - 1;
        }
        proof {
            let t = s.take(p as int);
            if p > 0 {
                assert(t.last() == s[p - 1]);
            }
            assert(placed(t, *x) == t.push(*x));
        }
        out.insert(p, x);
        proof {
            assert(out@.unref() =~= s.take(p as int).push(*x) + s.skip(p as int));
            assert(all.take(i + 1).drop_last() =~= all.take(i as int));
            assert(all.take(i + 1).last() == *x);
        }
        i = i + 1;
    }
    assert(all.take(items@.len() as int) =~= all);
    out
}

// -- doubles by their bits ------------------------------------------------------------------

/// The sign bit of a double's bit pattern, as a number.
pub open spec fn sign_bit() -> int {
    0x8000_0000_0000_0000
}

/// The position of a double, given by its bit pattern, in the total order of all doubles (signed
/// zeros, infinities and NaNs included).
pub open spec fn total_position(bits: u64) -> int {
    if bits < sign_bit() {
        bits as int
    } else {
        sign_bit() - 1 - bits
    }
}

/// Is this the bit pattern of a NaN?
pub open spec fn is_nan(bits: u64) -> bool {
    (if bits < sign_bit() { bits as int } else { bits - sign_bit() }) > 0x7ff0_0000_0000_0000
}

/// The position of a number in the numeric order, given by its bit pattern; the two zeros share
/// one. (Of a NaN it says nothing.)
pub open spec fn numeric_position(bits: u64) -> int {
    if bits < sign_bit() {
        bits as int
    } else {
        sign_bit() - bits
    }
}

/// Is the number greater than zero?
pub open spec fn is_positive(bits: u64) -> bool {
    !is_nan(bits) && numeric_position(bits) > 0
}

/// See [`total_position`].
pub fn total_position_of(bits: u64) -> (r: i128)
    ensures
        r == total_position(bits),
{
    if bits < 0x8000_0000_0000_0000 {
        bits as i128
    } else {
        0x7fff_ffff_ffff_ffff - (bits as i128)
    }
}

/// See [`numeric_position`].
pub fn numeric_position_of(bits: u64) -> (r: i128)
    ensures
        r == numeric_position(bits),
{
    if bits < 0x8000_0000_0000_0000 {
        bits as i128
    } else {
        0x8000_0000_0000_0000 - (bits as i128)
    }
}

/// See [`is_nan`].
pub fn is_nan_bits(bits: u64) -> (r: bool)
    ensures
        r == is_nan(bits),
{
    let magnitude: u64 = if bits < 0x8000_0000_0000_0000 {
        bits
    } else {
        bits - 0x8000_0000_0000_0000
    };
    magnitude > 0x7ff0_0000_0000_0000
}

/// See [`is_positive`].
pub fn is_positive_bits(bits: u64) -> (r: bool)
    ensures
        r == is_positive(bits),
{
    !is_nan_bits(bits) && numeric_position_of(bits) > 0
}

} // verus!
