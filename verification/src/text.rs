//! Text primitives: character classes, trimming, word splitting, joining, case folding.
//!
//! Text is modelled as `Seq<char>`. The Unicode tables stay behind the standard library: on ASCII
//! their content is spelled out, beyond it it is named.

use vstd::prelude::*;

verus! {

/// The texts behind a sequence of strings.
pub open spec fn texts(v: Seq<String>) -> Seq<Seq<char>> {
    v.map_values(|s: String| s@)
}

/// The text behind an optional string.
pub open spec fn text_of(o: Option<String>) -> Option<Seq<char>> {
    match o {
        Some(s) => Some(s@),
        None => None,
    }
}

// -- what the standard library's character tables say ---------------------------------------

/// Is `c` one of the 128 ASCII characters?
pub open spec fn ascii(c: char) -> bool {
    (c as u32) < 128
}

/// `char::is_whitespace` outside ASCII: the Unicode `White_Space` property.
pub uninterp spec fn unicode_whitespace(c: char) -> bool;

/// `char::is_alphanumeric` outside ASCII: the Unicode `Alphabetic` property or a numeric category.
pub uninterp spec fn unicode_alphanumeric(c: char) -> bool;

/// `char::to_lowercase` outside ASCII: the Unicode lowercase mapping of one character.
pub uninterp spec fn unicode_lowercase_char(c: char) -> Seq<char>;

/// `str::to_lowercase` on a text that is not pure ASCII.
pub uninterp spec fn unicode_lowercase_text(s: Seq<char>) -> Seq<char>;

pub open spec fn ascii_whitespace(c: char) -> bool {
    c == ' ' || ('\t' <= c && c <= '\r')
}

pub open spec fn ascii_digit(c: char) -> bool {
    '0' <= c && c <= '9'
}

pub open spec fn ascii_alphanumeric(c: char) -> bool {
    ascii_digit(c) || ('A' <= c && c <= 'Z') || ('a' <= c && c <= 'z')
}

/// ASCII case folding of one character: `A`..`Z` become `a`..`z`, the rest is kept.
pub open spec fn ascii_lower(c: char) -> char {
    if 'A' <= c && c <= 'Z' {
        ((c as u8) + 32) as char
    } else {
        c
    }
}

/// The inverse folding: `a`..`z` become `A`..`Z`.
pub open spec fn ascii_upper(c: char) -> char {
    if 'a' <= c && c <= 'z' {
        ((c as u8) - 32) as char
    } else {
        c
    }
}

pub open spec fn is_whitespace(c: char) -> bool {
    if ascii(c) {
        ascii_whitespace(c)
    } else {
        unicode_whitespace(c)
    }
}

pub open spec fn is_alphanumeric(c: char) -> bool {
    if ascii(c) {
        ascii_alphanumeric(c)
    } else {
        unicode_alphanumeric(c)
    }
}

pub open spec fn lowercase_char(c: char) -> Seq<char> {
    if ascii(c) {
        seq![ascii_lower(c)]
    } else {
        unicode_lowercase_char(c)
    }
}

pub open spec fn all_ascii(s: Seq<char>) -> bool {
    forall|i: int| 0 <= i < s.len() ==> ascii(#[trigger] s[i])
}

/// A text in lower case.
pub open spec fn lowercase(s: Seq<char>) -> Seq<char> {
    if all_ascii(s) {
        s.map_values(|c: char| ascii_lower(c))
    } else {
        unicode_lowercase_text(s)
    }
}

/// `char::is_whitespace`: on ASCII, space and the five control characters from tab to carriage
/// return; beyond ASCII, what the Unicode `White_Space` property says.
pub assume_specification[ char::is_whitespace ](c: char) -> (r: bool)
    ensures
        ascii(c) ==> r == ascii_whitespace(c),
        !ascii(c) ==> r == unicode_whitespace(c),
;

/// `char::is_alphanumeric`: on ASCII, the digits and the letters of both cases; beyond ASCII, what
/// the Unicode tables say.
pub assume_specification[ char::is_alphanumeric ](c: char) -> (r: bool)
    ensures
        ascii(c) ==> r == ascii_alphanumeric(c),
        !ascii(c) ==> r == unicode_alphanumeric(c),
;

/// `char::to_lowercase`, its iterator collected: on ASCII one character, folded; beyond ASCII the
/// Unicode mapping, which is one character or more.
#[verifier::external_body]
fn char_to_lowercase(c: char) -> (r: Vec<char>)
    ensures
        ascii(c) ==> r@ == seq![ascii_lower(c)],
        !ascii(c) ==> r@ == unicode_lowercase_char(c),
        r@.len() > 0,
{
    c.to_lowercase().collect()
}

/// `str::to_lowercase`: on a pure ASCII text the ASCII letters folded; on any other text the
/// Unicode mapping of the whole text (it looks at a final sigma's neighbours). Every character maps
/// to one or more, so that a text which is not empty does not become so.
pub assume_specification[ str::to_lowercase ](s: &str) -> (r: String)
    ensures
        all_ascii(s@) ==> r@ == s@.map_values(|c: char| ascii_lower(c)),
        !all_ascii(s@) ==> r@ == unicode_lowercase_text(s@),
        s@.len() > 0 ==> r@.len() > 0,
;

/// `String::push`: appends one character.
pub assume_specification[ String::push ](s: &mut String, c: char)
    ensures
        final(s)@ == old(s)@.push(c),
;

// -- characters and strings -----------------------------------------------------------------

/// The characters of a text, in order.
pub fn chars_of(s: &str) -> (r: Vec<char>)
    ensures
        r@ == s@,
{
    let mut out: Vec<char> = Vec::new();
    for c in it: s.chars()
        invariant
            out@ == s@.take(it.index()),
            it.seq() == s@,
    {
        out.push(c);
    }
    out
}

/// Are two texts the same?
pub fn str_eq(a: &str, b: &str) -> (r: bool)
    ensures
        r == (a@ == b@),
{
    let x = chars_of(a);
    let y = chars_of(b);
    if x.len() != y.len() {
        return false;
    }
    let mut i: usize = 0;
    while i < x.len()
        invariant
            i <= x.len() == y.len(),
            x@ == a@,
            y@ == b@,
            forall|k: int| 0 <= k < i ==> x@[k] == y@[k],
        decreases x.len() - i,
    {
        if x[i] != y[i] {
            return false;
        }
        i = i + 1;
    }
    assert(a@ =~= b@);
    true
}

/// Is `needle` one of `items`?
pub fn contains_text(items: &Vec<String>, needle: &str) -> (r: bool)
    ensures
        r == texts(items@).contains(needle@),
{
    let mut i: usize = 0;
    while i < items.len()
        invariant
            i <= items.len(),
            forall|k: int| 0 <= k < i ==> items@[k]@ != needle@,
        decreases items.len() - i,
    {
        if str_eq(items[i].as_str(), needle) {
            assert(texts(items@)[i as int] == needle@);
            return true;
        }
        i = i + 1;
    }
    assert(!texts(items@).contains(needle@)) by {
        if texts(items@).contains(needle@) {
            let k = choose|k: int| 0 <= k < texts(items@).len() && texts(items@)[k] == needle@;
            assert(items@[k]@ == needle@);
        }
    }
    false
}

/// A copy of a list of strings.
pub fn clone_texts(items: &Vec<String>) -> (r: Vec<String>)
    ensures
        r@ == items@,
{
    let mut out: Vec<String> = Vec::new();
    let mut i: usize = 0;
    while i < items.len()
        invariant
            i <= items.len(),
            out@ == items@.take(i as int),
        decreases items.len() - i,
    {
        out.push(items[i].clone());
        i = i + 1;
    }
    out
}

/// A copy of an optional string.
pub fn clone_text(o: &Option<String>) -> (r: Option<String>)
    ensures
        r == *o,
{
    match o {
        Some(s) => Some(s.clone()),
        None => None,
    }
}

// -- trimming -------------------------------------------------------------------------------

/// `s` without its leading whitespace.
pub open spec fn trim_start(s: Seq<char>) -> Seq<char>
    decreases s.len(),
{
    if s.len() > 0 && is_whitespace(s[0]) {
        trim_start(s.skip(1))
    } else {
        s
    }
}

/// `s` without its trailing whitespace.
pub open spec fn trim_end(s: Seq<char>) -> Seq<char>
    decreases s.len(),
{
    if s.len() > 0 && is_whitespace(s.last()) {
        trim_end(s.drop_last())
    } else {
        s
    }
}

/// `s` without the whitespace at either end.
pub open spec fn trim(s: Seq<char>) -> Seq<char> {
    trim_end(trim_start(s))
}

/// The text without the whitespace at either end.
pub fn trimmed<'a>(s: &'a str) -> (r: &'a str)
    ensures
        r@ == trim(s@),
{
    let chars = chars_of(s);
    let n: usize = chars.len();
    let mut lo: usize = 0;
    assert(s@.skip(0) =~= s@);
    while lo < n && chars[lo].is_whitespace()
        invariant
            lo <= n == chars.len(),
            chars@ == s@,
            trim_start(s@) == trim_start(s@.skip(lo as int)),
        decreases n - lo,
    {
        assert(s@.skip(lo as int).skip(1) =~= s@.skip(lo + 1));
        lo = lo + 1;
    }
    assert(trim_start(s@) == s@.skip(lo as int));
    let mut hi: usize = n;
    assert(s@.subrange(lo as int, hi as int) =~= s@.skip(lo as int));
    while lo < hi && chars[hi - 1].is_whitespace()
        invariant
            lo <= hi <= n == chars.len(),
            chars@ == s@,
            trim_end(s@.skip(lo as int)) == trim_end(s@.subrange(lo as int, hi as int)),
        decreases hi - lo,
    {
        assert(s@.subrange(lo as int, hi as int).drop_last() =~= s@.subrange(lo as int, hi - 1));
        hi = hi - 1;
    }
    assert(trim_end(s@.subrange(lo as int, hi as int)) == s@.subrange(lo as int, hi as int));
    s.substring_char(lo, hi)
}

proof fn lemma_trim_start_ends(s: Seq<char>)
    ensures
        trim_start(s).len() == 0 || !is_whitespace(trim_start(s)[0]),
    decreases s.len(),
{
    if s.len() > 0 && is_whitespace(s[0]) {
        lemma_trim_start_ends(s.skip(1));
    }
}

proof fn lemma_trim_end_ends(s: Seq<char>)
    ensures
        trim_end(s).is_prefix_of(s),
        trim_end(s).len() == 0 || !is_whitespace(trim_end(s).last()),
    decreases s.len(),
{
    if s.len() > 0 && is_whitespace(s.last()) {
        lemma_trim_end_ends(s.drop_last());
    }
}

/// A trimmed text has no whitespace at either end.
pub proof fn trimmed_ends_are_visible(s: Seq<char>)
    ensures
        trim(s).len() > 0 ==> !is_whitespace(trim(s)[0]) && !is_whitespace(trim(s).last()),
{
    lemma_trim_start_ends(s);
    lemma_trim_end_ends(trim_start(s));
}

/// A text without whitespace at its ends is left as it is by trimming; so is a trimmed text.
pub proof fn trimming_is_stable(s: Seq<char>)
    ensures
        s.len() == 0 || (!is_whitespace(s[0]) && !is_whitespace(s.last())) ==> trim(s) == s,
        trim(trim(s)) == trim(s),
{
    trimmed_ends_are_visible(s);
}

proof fn lemma_trim_start_drops(s: Seq<char>) -> (lo: int)
    ensures
        0 <= lo <= s.len(),
        trim_start(s) == s.skip(lo),
        forall|i: int| 0 <= i < lo ==> is_whitespace(#[trigger] s[i]),
    decreases s.len(),
{
    if s.len() > 0 && is_whitespace(s[0]) {
        let lo = lemma_trim_start_drops(s.skip(1));
        assert(s.skip(1).skip(lo) =~= s.skip(lo + 1));
        assert forall|i: int| 0 <= i < lo + 1 implies is_whitespace(#[trigger] s[i]) by {
            if i > 0 {
                assert(s.skip(1)[i - 1] == s[i]);
            }
        }
        lo + 1
    } else {
        assert(s.skip(0) =~= s);
        0
    }
}

proof fn lemma_trim_end_drops(s: Seq<char>) -> (hi: int)
    ensures
        0 <= hi <= s.len(),
        trim_end(s) == s.take(hi),
        forall|i: int| hi <= i < s.len() ==> is_whitespace(#[trigger] s[i]),
    decreases s.len(),
{
    if s.len() > 0 && is_whitespace(s.last()) {
        let init = s.drop_last();
        let hi = lemma_trim_end_drops(init);
        assert(init.take(hi) =~= s.take(hi));
        assert forall|i: int| hi <= i < s.len() implies is_whitespace(#[trigger] s[i]) by {
            if i < init.len() {
                assert(init[i] == s[i]);
            }
        }
        hi
    } else {
        assert(s.take(s.len() as int) =~= s);
        s.len() as int
    }
}

/// Trimming takes whitespace off the two ends and nothing else: what is left is one stretch of the
/// text, everything outside it is whitespace, and its own ends are not.
pub proof fn trimming_takes_whitespace_off_the_ends(s: Seq<char>) -> (ends: (int, int))
    ensures
        0 <= ends.0 <= ends.1 <= s.len(),
        trim(s) == s.subrange(ends.0, ends.1),
        forall|i: int|
            0 <= i < ends.0 || ends.1 <= i < s.len() ==> is_whitespace(#[trigger] s[i]),
        ends.0 < ends.1 ==> !is_whitespace(s[ends.0]) && !is_whitespace(s[ends.1 - 1]),
{
    let lo = lemma_trim_start_drops(s);
    let rest = s.skip(lo);
    let n = lemma_trim_end_drops(rest);
    let hi = lo + n;
    assert(rest.take(n) =~= s.subrange(lo, hi));
    assert forall|i: int| 0 <= i < lo || hi <= i < s.len() implies is_whitespace(
        #[trigger] s[i],
    ) by {
        if hi <= i {
            assert(rest[i - lo] == s[i]);
        }
    }
    trimmed_ends_are_visible(s);
    (lo, hi)
}

/// A text trims to nothing exactly when all of it is whitespace.
pub proof fn blank_texts_trim_to_nothing(s: Seq<char>)
    ensures
        trim(s).len() == 0 <==> forall|i: int|
            0 <= i < s.len() ==> is_whitespace(#[trigger] s[i]),
{
    let (lo, hi) = trimming_takes_whitespace_off_the_ends(s);
    if lo < hi {
        assert(!is_whitespace(s[lo]));
    }
}

/// A trimmed text is no longer than the text.
pub proof fn trimming_shortens(s: Seq<char>)
    ensures
        trim(s).len() <= s.len(),
{
    let (lo, hi) = trimming_takes_whitespace_off_the_ends(s);
}

/// Is there nothing but whitespace in the text?
pub fn is_blank(s: &str) -> (r: bool)
    ensures
        r == (trim(s@).len() == 0),
{
    trimmed(s).is_empty()
}

// -- stripping, splitting, replacing --------------------------------------------------------

/// `s` without any leading `c`.
pub open spec fn strip_leading(s: Seq<char>, c: char) -> Seq<char>
    decreases s.len(),
{
    if s.len() > 0 && s[0] == c {
        strip_leading(s.skip(1), c)
    } else {
        s
    }
}

/// `s` without any trailing `c`.
pub open spec fn strip_trailing(s: Seq<char>, c: char) -> Seq<char>
    decreases s.len(),
{
    if s.len() > 0 && s.last() == c {
        strip_trailing(s.drop_last(), c)
    } else {
        s
    }
}

/// The text without any leading `c`.
pub fn without_leading<'a>(s: &'a str, c: char) -> (r: &'a str)
    ensures
        r@ == strip_leading(s@, c),
{
    let chars = chars_of(s);
    let n: usize = chars.len();
    let mut lo: usize = 0;
    assert(s@.skip(0) =~= s@);
    while lo < n && chars[lo] == c
        invariant
            lo <= n == chars.len(),
            chars@ == s@,
            strip_leading(s@, c) == strip_leading(s@.skip(lo as int), c),
        decreases n - lo,
    {
        assert(s@.skip(lo as int).skip(1) =~= s@.skip(lo + 1));
        lo = lo + 1;
    }
    assert(s@.subrange(lo as int, n as int) =~= s@.skip(lo as int));
    s.substring_char(lo, n)
}

/// The text without any trailing `c`.
pub fn without_trailing<'a>(s: &'a str, c: char) -> (r: &'a str)
    ensures
        r@ == strip_trailing(s@, c),
{
    let chars = chars_of(s);
    let mut hi: usize = chars.len();
    assert(s@.take(hi as int) =~= s@);
    while 0 < hi && chars[hi - 1] == c
        invariant
            hi <= chars.len(),
            chars@ == s@,
            strip_trailing(s@, c) == strip_trailing(s@.take(hi as int), c),
        decreases hi,
    {
        assert(s@.take(hi as int).drop_last() =~= s@.take(hi - 1));
        hi = hi - 1;
    }
    assert(s@.subrange(0, hi as int) =~= s@.take(hi as int));
    s.substring_char(0, hi)
}

/// Stripping takes every `c` off the start and nothing else.
pub proof fn stripping_the_start(s: Seq<char>, c: char) -> (lo: int)
    ensures
        0 <= lo <= s.len(),
        strip_leading(s, c) == s.subrange(lo, s.len() as int),
        forall|i: int| 0 <= i < lo ==> #[trigger] s[i] == c,
        lo < s.len() ==> s[lo] != c,
    decreases s.len(),
{
    if s.len() > 0 && s[0] == c {
        let rest = s.skip(1);
        let lo = stripping_the_start(rest, c);
        assert(rest.subrange(lo, rest.len() as int) =~= s.subrange(lo + 1, s.len() as int));
        assert forall|i: int| 0 <= i < lo + 1 implies #[trigger] s[i] == c by {
            if i > 0 {
                assert(rest[i - 1] == s[i]);
            }
        }
        if lo < rest.len() {
            assert(rest[lo] == s[lo + 1]);
        }
        lo + 1
    } else {
        assert(s.subrange(0, s.len() as int) =~= s);
        0
    }
}

/// Stripping takes every `c` off the end and nothing else.
pub proof fn stripping_the_end(s: Seq<char>, c: char) -> (hi: int)
    ensures
        0 <= hi <= s.len(),
        strip_trailing(s, c) == s.subrange(0, hi),
        forall|i: int| hi <= i < s.len() ==> #[trigger] s[i] == c,
        hi > 0 ==> s[hi - 1] != c,
    decreases s.len(),
{
    if s.len() > 0 && s.last() == c {
        let init = s.drop_last();
        let hi = stripping_the_end(init, c);
        assert(init.subrange(0, hi) =~= s.subrange(0, hi));
        assert forall|i: int| hi <= i < s.len() implies #[trigger] s[i] == c by {
            if i < init.len() {
                assert(init[i] == s[i]);
            }
        }
        hi
    } else {
        assert(s.subrange(0, s.len() as int) =~= s);
        s.len() as int
    }
}

/// Splitting finds the first `c`: a text without one is not split, and one with it parts there, what
/// comes before holding none.
pub proof fn splitting_at_the_first(s: Seq<char>, c: char)
    ensures
        !s.contains(c) ==> split_first(s, c) is None,
        s.contains(c) ==> {
            &&& split_first(s, c) matches Some((a, b)) && s == a + seq![c] + b && !a.contains(c)
        },
{
    lemma_position(s, c);
    let p = position(s, c);
    if s.contains(c) {
        let k = choose|k: int| 0 <= k < s.len() && s[k] == c;
        assert(p <= k);
        assert(s =~= s.take(p) + seq![c] + s.skip(p + 1));
        if s.take(p).contains(c) {
            let i = choose|i: int| 0 <= i < p && s.take(p)[i] == c;
            assert(s[i] == c);
        }
    } else if p < s.len() {
        assert(s[p] == c);
    }
}

/// How many characters come before the first `c` (all of them when there is none).
pub open spec fn position(s: Seq<char>, c: char) -> int
    decreases s.len(),
{
    if s.len() == 0 || s[0] == c {
        0
    } else {
        1 + position(s.skip(1), c)
    }
}

/// What stands before and after the first `c`, when there is one.
pub open spec fn split_first(s: Seq<char>, c: char) -> Option<(Seq<char>, Seq<char>)> {
    let p = position(s, c);
    if p < s.len() {
        Some((s.take(p), s.skip(p + 1)))
    } else {
        None
    }
}

/// `position` is the index of the first `c`.
pub proof fn lemma_position(s: Seq<char>, c: char)
    ensures
        0 <= position(s, c) <= s.len(),
        forall|i: int| 0 <= i < position(s, c) ==> s[i] != c,
        position(s, c) < s.len() ==> s[position(s, c)] == c,
    decreases s.len(),
{
    if s.len() > 0 && s[0] != c {
        lemma_position(s.skip(1), c);
        assert forall|i: int| 0 <= i < position(s, c) implies s[i] != c by {
            if i > 0 {
                assert(s.skip(1)[i - 1] == s[i]);
            }
        }
    }
}

/// Splitting at the first `c` undoes joining two texts with it, when the first holds none.
pub proof fn lemma_split_joined(a: Seq<char>, c: char, b: Seq<char>)
    requires
        !a.contains(c),
    ensures
        split_first(a + seq![c] + b, c) == Some((a, b)),
{
    let s = a + seq![c] + b;
    lemma_position(s, c);
    let p = position(s, c);
    assert(s[a.len() as int] == c);
    if p < a.len() {
        assert(a[p] == c);
        assert(false);
    }
    assert(s.take(p) =~= a);
    assert(s.skip(p + 1) =~= b);
}

/// What stands before and after the first `c`, when there is one.
pub fn split_once<'a>(s: &'a str, c: char) -> (r: Option<(&'a str, &'a str)>)
    ensures
        match r {
            Some((a, b)) => split_first(s@, c) == Some((a@, b@)),
            None => split_first(s@, c) is None,
        },
{
    let chars = chars_of(s);
    let n: usize = chars.len();
    let mut p: usize = 0;
    proof {
        lemma_position(s@, c);
    }
    while p < n && chars[p] != c
        invariant
            p <= n == chars.len(),
            chars@ == s@,
            0 <= position(s@, c) <= s@.len(),
            forall|i: int| 0 <= i < position(s@, c) ==> s@[i] != c,
            position(s@, c) < s@.len() ==> s@[position(s@, c)] == c,
            p <= position(s@, c),
        decreases n - p,
    {
        p = p + 1;
    }
    if p < n {
        assert(s@.subrange(0, p as int) =~= s@.take(p as int));
        assert(s@.subrange(p + 1, n as int) =~= s@.skip(p + 1));
        Some((s.substring_char(0, p), s.substring_char(p + 1, n)))
    } else {
        None
    }
}

/// `s` with every `from` written as `to`.
pub open spec fn replace_char(s: Seq<char>, from: char, to: char) -> Seq<char> {
    s.map_values(|c: char| if c == from { to } else { c })
}

/// The text with every `from` written as `to`.
pub fn replaced(s: &str, from: char, to: char) -> (r: String)
    ensures
        r@ == replace_char(s@, from, to),
{
    let mut out = String::new();
    for c in it: s.chars()
        invariant
            out@ == replace_char(s@.take(it.index()), from, to),
            it.seq() == s@,
    {
        let ghost k: int = it.index();
        out.push(if c == from { to } else { c });
        assert(out@ =~= replace_char(s@.take(k + 1), from, to));
    }
    assert(s@.take(s@.len() as int) =~= s@);
    out
}

// -- ASCII case -----------------------------------------------------------------------------

pub open spec fn ascii_lowercase(s: Seq<char>) -> Seq<char> {
    s.map_values(|c: char| ascii_lower(c))
}

pub open spec fn ascii_uppercase(s: Seq<char>) -> Seq<char> {
    s.map_values(|c: char| ascii_upper(c))
}

fn lower_char(c: char) -> (r: char)
    ensures
        r == ascii_lower(c),
{
    if 'A' <= c && c <= 'Z' {
        ((c as u8) + 32) as char
    } else {
        c
    }
}

fn upper_char(c: char) -> (r: char)
    ensures
        r == ascii_upper(c),
{
    if 'a' <= c && c <= 'z' {
        ((c as u8) - 32) as char
    } else {
        c
    }
}

/// The text with its ASCII letters in lower case.
pub fn to_ascii_lowercase(s: &str) -> (r: String)
    ensures
        r@ == ascii_lowercase(s@),
{
    let mut out = String::new();
    for c in it: s.chars()
        invariant
            out@ == ascii_lowercase(s@.take(it.index())),
            it.seq() == s@,
    {
        let ghost k: int = it.index();
        out.push(lower_char(c));
        assert(out@ =~= ascii_lowercase(s@.take(k + 1)));
    }
    assert(s@.take(s@.len() as int) =~= s@);
    out
}

/// The text with its ASCII letters in upper case.
pub fn to_ascii_uppercase(s: &str) -> (r: String)
    ensures
        r@ == ascii_uppercase(s@),
{
    let mut out = String::new();
    for c in it: s.chars()
        invariant
            out@ == ascii_uppercase(s@.take(it.index())),
            it.seq() == s@,
    {
        let ghost k: int = it.index();
        out.push(upper_char(c));
        assert(out@ =~= ascii_uppercase(s@.take(k + 1)));
    }
    assert(s@.take(s@.len() as int) =~= s@);
    out
}

/// ASCII case folding moves each letter by the distance between the two alphabets and leaves every
/// other character, and the number of characters, as they are.
pub proof fn ascii_folding_goes_letter_by_letter(s: Seq<char>)
    ensures
        ascii_lowercase(s).len() == s.len(),
        ascii_uppercase(s).len() == s.len(),
        forall|i: int|
            0 <= i < s.len() ==> {
                let c = s[i];
                if 'A' <= c && c <= 'Z' {
                    #[trigger] ascii_lowercase(s)[i] as int == c as int + 32
                } else {
                    ascii_lowercase(s)[i] == c
                }
            },
        forall|i: int|
            0 <= i < s.len() ==> {
                let c = s[i];
                if 'a' <= c && c <= 'z' {
                    #[trigger] ascii_uppercase(s)[i] as int == c as int - 32
                } else {
                    ascii_uppercase(s)[i] == c
                }
            },
{
}

/// On ASCII the classes are what they are called: whitespace is the space and the five control
/// characters from tab to carriage return, letters and digits are the three ranges.
pub proof fn ascii_classes(c: char)
    requires
        (c as u32) < 128,
    ensures
        is_whitespace(c) <==> c == ' ' || c == '\t' || c == '\n' || c as u32 == 11 || c as u32 == 12
            || c == '\r',
        is_alphanumeric(c) <==> ('0' <= c && c <= '9') || ('A' <= c && c <= 'Z') || ('a' <= c && c
            <= 'z'),
        lowercase_char(c) == ascii_lowercase(seq![c]),
{
    assert(lowercase_char(c) =~= ascii_lowercase(seq![c]));
}

/// The text in lower case, the whole of Unicode considered.
pub fn lowercased(s: &str) -> (r: String)
    ensures
        r@ == lowercase(s@),
        s@.len() > 0 ==> r@.len() > 0,
{
    s.to_lowercase()
}

/// The lower case of one character.
pub fn char_lowercase(c: char) -> (r: Vec<char>)
    ensures
        r@ == lowercase_char(c),
        r@.len() > 0,
{
    char_to_lowercase(c)
}

} // verus!
