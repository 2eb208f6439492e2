//! Decimal numerals: printing integers and reading them back.

use vstd::prelude::*;

use crate::text;
use crate::text::{chars_of};

verus! {

/// The character for one decimal digit.
pub open spec fn digit_char(d: nat) -> char {
    ((48 + d) as u8) as char
}

/// The decimal numeral of `n`, without leading zeros.
pub open spec fn numeral(n: nat) -> Seq<char>
    decreases n,
{
    if n < 10 {
        seq![digit_char(n)]
    } else {
        numeral(n / 10).push(digit_char(n % 10))
    }
}

/// The decimal numeral of an integer, with a leading `-` when it is negative.
pub open spec fn signed_numeral(n: int) -> Seq<char> {
    if n < 0 {
        seq!['-'] + numeral((-n) as nat)
    } else {
        numeral(n as nat)
    }
}

/// Does `s` hold decimal digits only?
pub open spec fn all_digits(s: Seq<char>) -> bool {
    forall|i: int| 0 <= i < s.len() ==> text::ascii_digit(#[trigger] s[i])
}

/// The number that a sequence of decimal digits writes.
pub open spec fn digits_value(s: Seq<char>) -> nat
    decreases s.len(),
{
    if s.len() == 0 {
        0
    } else {
        digits_value(s.drop_last()) * 10 + ((s.last() as nat) - 48) as nat
    }
}

/// `s` without one leading `+`.
pub open spec fn without_plus(s: Seq<char>) -> Seq<char> {
    if s.len() > 0 && s[0] == '+' {
        s.skip(1)
    } else {
        s
    }
}

/// The unsigned number that `s` writes: an optional `+`, then at least one decimal digit and
/// nothing else, the value at most `max`.
pub open spec fn unsigned_value(s: Seq<char>, max: nat) -> Option<nat> {
    let body = without_plus(s);
    if body.len() > 0 && all_digits(body) && digits_value(body) <= max {
        Some(digits_value(body))
    } else {
        None
    }
}

/// A numeral is made of digits, and has at least one.
pub proof fn lemma_numeral_digits(n: nat)
    ensures
        numeral(n).len() > 0,
        all_digits(numeral(n)),
    decreases n,
{
    if n >= 10 {
        lemma_numeral_digits(n / 10);
    }
}

/// Reading a numeral gives the number back.
pub proof fn lemma_numeral_value(n: nat)
    ensures
        digits_value(numeral(n)) == n,
    decreases n,
{
    if n < 10 {
        let s = numeral(n);
        assert(s.drop_last() =~= Seq::<char>::empty());
        assert(digits_value(s.drop_last()) == 0);
    } else {
        lemma_numeral_value(n / 10);
        assert(numeral(n).drop_last() =~= numeral(n / 10));
    }
}

/// Printing a number and reading it back gives the number, when it is within the bound.
pub proof fn lemma_unsigned_value_of_numeral(n: nat, max: nat)
    requires
        n <= max,
    ensures
        unsigned_value(numeral(n), max) == Some(n),
{
    lemma_numeral_digits(n);
    lemma_numeral_value(n);
    assert(text::ascii_digit(numeral(n)[0]));
}

/// Two numbers with one numeral are the same number.
pub proof fn lemma_numeral_injective(a: nat, b: nat)
    requires
        numeral(a) == numeral(b),
    ensures
        a == b,
{
    lemma_numeral_value(a);
    lemma_numeral_value(b);
}

/// A numeral is one digit for a number below ten, and otherwise the numeral of the tens with the
/// digit of the ones at its end; the digits are the characters from `0` to `9` in order.
pub proof fn numerals_grow_by_a_digit(n: nat, d: nat)
    requires
        d < 10,
    ensures
        numeral(d).len() == 1,
        numeral(d)[0] as int == '0' as int + d,
        n > 0 ==> numeral(10 * n + d) == numeral(n) + numeral(d),
{
    if n > 0 {
        let m = 10 * n + d;
        assert(m / 10 == n && m % 10 == d);
        assert(numeral(m) =~= numeral(n) + numeral(d));
    }
}

/// A negative number is written with a minus sign before its amount.
pub proof fn negative_numbers_carry_a_sign(n: int)
    ensures
        n < 0 ==> {
            let s = signed_numeral(n);
            &&& s.len() > 1
            &&& s[0] == '-'
            &&& digits_value(s.skip(1)) + n == 0
        },
        n >= 0 ==> digits_value(signed_numeral(n)) == n,
{
    if n < 0 {
        let amount = (-n) as nat;
        lemma_numeral_digits(amount);
        lemma_numeral_value(amount);
        assert(signed_numeral(n).skip(1) =~= numeral(amount));
    } else {
        lemma_numeral_value(n as nat);
    }
}

proof fn lemma_zeros(zeros: Seq<char>, s: Seq<char>)
    requires
        forall|i: int| 0 <= i < zeros.len() ==> #[trigger] zeros[i] == '0',
    ensures
        digits_value(zeros + s) == digits_value(s),
    decreases s.len(), zeros.len(),
{
    if s.len() == 0 {
        assert(zeros + s =~= zeros);
        if zeros.len() > 0 {
            let init = zeros.drop_last();
            assert(zeros[zeros.len() - 1] == '0');
            lemma_zeros(init, s);
            assert(init + s =~= init);
        }
    } else {
        assert((zeros + s).drop_last() =~= zeros + s.drop_last());
        lemma_zeros(zeros, s.drop_last());
    }
}

/// A number is read from its numeral with any number of zeros before it, and one plus sign before
/// all; it is refused beyond the bound.
pub proof fn numbers_are_read_with_a_plus_and_zeros(zeros: Seq<char>, n: nat, max: nat)
    requires
        forall|i: int| 0 <= i < zeros.len() ==> #[trigger] zeros[i] == '0',
    ensures
        n <= max ==> unsigned_value(zeros + numeral(n), max) == Some(n),
        n <= max ==> unsigned_value(seq!['+'] + (zeros + numeral(n)), max) == Some(n),
        n > max ==> unsigned_value(zeros + numeral(n), max) is None,
{
    let s = zeros + numeral(n);
    lemma_numeral_digits(n);
    lemma_numeral_value(n);
    lemma_zeros(zeros, numeral(n));
    assert forall|i: int| 0 <= i < s.len() implies text::ascii_digit(#[trigger] s[i]) by {
        if i < zeros.len() {
            assert(zeros[i] == '0');
        } else {
            assert(text::ascii_digit(numeral(n)[i - zeros.len()]));
        }
    }
    assert(text::ascii_digit(s[0]));
    assert(without_plus(s) == s);
    assert(without_plus(seq!['+'] + s) =~= s);
}

proof fn lemma_digits_value_grows(s: Seq<char>, k: int)
    requires
        0 <= k <= s.len(),
        all_digits(s),
    ensures
        digits_value(s.take(k)) <= digits_value(s),
    decreases s.len() - k,
{
    if k < s.len() {
        assert(s.take(k + 1).drop_last() =~= s.take(k));
        assert(text::ascii_digit(s[k]));
        lemma_digits_value_grows(s, k + 1);
    } else {
        assert(s.take(k) =~= s);
    }
}

/// Appends the decimal numeral of `n`.
pub fn push_numeral(out: &mut String, n: u64)
    ensures
        final(out)@ == old(out)@ + numeral(n as nat),
    decreases n,
{
    if n >= 10 {
        push_numeral(out, n / 10);
    }
    let d: u8 = (n % 10) as u8;
    out.push((48 + d) as char);
    assert(out@ =~= old(out)@ + numeral(n as nat));
}

/// The decimal numeral of `n`.
pub fn unsigned_text(n: u64) -> (r: String)
    ensures
        r@ == numeral(n as nat),
{
    let mut out = String::new();
    push_numeral(&mut out, n);
    assert(out@ =~= numeral(n as nat));
    out
}

/// The decimal numeral of `n`, with a leading `-` when it is negative.
pub fn signed_text(n: i64) -> (r: String)
    ensures
        r@ == signed_numeral(n as int),
{
    let mut out = String::new();
    if n < 0 {
        out.push('-');
        let m: u64 = (-(n as i128)) as u64;
        push_numeral(&mut out, m);
        assert(out@ =~= signed_numeral(n as int));
    } else {
        push_numeral(&mut out, n as u64);
        assert(out@ =~= signed_numeral(n as int));
    }
    out
}

/// Reads an unsigned number: an optional `+`, then decimal digits and nothing else, the value at
/// most `max`.
pub fn parse_unsigned(s: &str, max: u64) -> (r: Option<u64>)
    ensures
        match r {
            Some(n) => unsigned_value(s@, max as nat) == Some(n as nat),
            None => unsigned_value(s@, max as nat) is None,
        },
{
    let chars = chars_of(s);
    let n: usize = chars.len();
    let start: usize = if n > 0 && chars[0] == '+' { 1 } else { 0 };
    let ghost body = without_plus(s@);
    assert(body =~= s@.skip(start as int));
    if start == n {
        return None;
    }
    let mut value: u64 = 0;
    let mut i: usize = start;
    while i < n
        invariant
            start <= i <= n == chars.len(),
            chars@ == s@,
            body == without_plus(s@),
            body == s@.skip(start as int),
            forall|k: int| 0 <= k < i - start ==> text::ascii_digit(#[trigger] body[k]),
            value as nat == digits_value(body.take(i - start)),
            value <= max,
        decreases n - i,
    {
        let c = chars[i];
        assert(body[i - start] == c);
        if !('0' <= c && c <= '9') {
            assert(!text::ascii_digit(body[i - start]));
            return None;
        }
        let d: u64 = ((c as u8) - 48) as u64;
        assert(body.take(i - start + 1).drop_last() =~= body.take(i - start));
        let next: u128 = (value as u128) * 10 + (d as u128);
        assert(next as nat == digits_value(body.take(i - start + 1)));
        if next > max as u128 {
            proof {
                if all_digits(body) {
                    lemma_digits_value_grows(body, i - start + 1);
                }
            }
            return None;
        }
        value = next as u64;
        i = i + 1;
    }
    assert(body.take(n - start) =~= body);
    Some(value)
}

} // verus!
