//! Words of a text, and joining texts with a separator.

use vstd::prelude::*;

use crate::text;
use crate::text::lowercased;

verus! {

/// Which characters make up a word; every other character separates words.
#[derive(Clone, Copy, Debug, PartialEq, Eq, Structural)]
pub enum WordClass {
    /// Letters and digits.
    Alphanumeric,
    /// Anything but whitespace.
    Visible,
}

impl WordClass {
    pub open spec fn has(self, c: char) -> bool {
        match self {
            WordClass::Alphanumeric => text::is_alphanumeric(c),
            WordClass::Visible => !text::is_whitespace(c),
        }
    }

    fn holds(self, c: char) -> (r: bool)
        ensures
            r == self.has(c),
    {
        match self {
            WordClass::Alphanumeric => c.is_alphanumeric(),
            WordClass::Visible => !c.is_whitespace(),
        }
    }
}

/// The words of `s`, in order: its maximal non-empty runs of word characters.
pub open spec fn words(s: Seq<char>, class: WordClass) -> Seq<Seq<char>>
    decreases s.len(),
{
    if s.len() == 0 {
        Seq::empty()
    } else {
        let before = words(s.drop_last(), class);
        if !class.has(s.last()) {
            before
        } else if s.len() >= 2 && class.has(s[s.len() - 2]) {
            before.drop_last().push(before.last().push(s.last()))
        } else {
            before.push(seq![s.last()])
        }
    }
}

/// The words of a text, in order.
pub fn split_words(s: &str, class: WordClass) -> (r: Vec<String>)
    ensures
        text::texts(r@) == words(s@, class),
{
    let mut out: Vec<String> = Vec::new();
    let mut cur = String::new();
    for c in it: s.chars()
        invariant
            it.seq() == s@,
            cur@.len() > 0 <==> (it.index() > 0 && class.has(s@[it.index() - 1])),
            cur@.len() == 0 ==> words(s@.take(it.index()), class) == text::texts(out@),
            cur@.len() > 0 ==> words(s@.take(it.index()), class) == text::texts(out@).push(cur@),
    {
        let ghost k: int = it.index();
        let ghost before = s@.take(k);
        let ghost now = s@.take(k + 1);
        assert(now.drop_last() =~= before);
        assert(now.last() == c);
        let ghost done = text::texts(out@);
        if class.holds(c) {
            let ghost word = cur@;
            cur.push(c);
            proof {
                if word.len() > 0 {
                    assert(now[now.len() - 2] == s@[k - 1]);
                    assert(words(before, class).drop_last() =~= done);
                    assert(words(before, class).last() == word);
                } else {
                    if k > 0 {
                        assert(now[now.len() - 2] == s@[k - 1]);
                    }
                    assert(cur@ =~= seq![c]);
                }
            }
        } else if !cur.as_str().is_empty() {
            let ghost word = cur;
            out.push(cur);
            cur = String::new();
            assert(text::texts(out@) =~= done.push(word@));
        }
    }
    assert(s@.take(s@.len() as int) =~= s@);
    if !cur.as_str().is_empty() {
        let ghost done = text::texts(out@);
        let ghost word = cur;
        out.push(cur);
        assert(text::texts(out@) =~= done.push(word@));
    }
    out
}

/// `parts` one after the other, with `sep` between two neighbours.
pub open spec fn join(parts: Seq<Seq<char>>, sep: Seq<char>) -> Seq<char>
    decreases parts.len(),
{
    if parts.len() == 0 {
        Seq::empty()
    } else if parts.len() == 1 {
        parts[0]
    } else {
        join(parts.drop_last(), sep) + sep + parts.last()
    }
}

/// The texts one after the other, with `sep` between two neighbours.
pub fn join_texts(parts: &Vec<String>, sep: &str) -> (r: String)
    ensures
        r@ == join(text::texts(parts@), sep@),
{
    let mut out = String::new();
    let mut i: usize = 0;
    while i < parts.len()
        invariant
            i <= parts.len(),
            out@ == join(text::texts(parts@).take(i as int), sep@),
        decreases parts.len() - i,
    {
        let ghost now = text::texts(parts@).take(i + 1);
        assert(now.drop_last() =~= text::texts(parts@).take(i as int));
        if i > 0 {
            out.append(sep);
        }
        out.append(parts[i].as_str());
        proof {
            assert(now.last() == parts@[i as int]@);
            if i == 0 {
                assert(out@ =~= now[0]);
            }
        }
        i = i + 1;
    }
    assert(text::texts(parts@).take(parts@.len() as int) =~= text::texts(parts@));
    out
}

/// The lower-case alphanumeric word tokens of a text, separators dropped.
pub open spec fn tokens(s: Seq<char>) -> Seq<Seq<char>> {
    words(s, WordClass::Alphanumeric).map_values(|w: Seq<char>| text::lowercase(w))
}

/// Lower-case alphanumeric word tokens of `s` (separators dropped). None of them is empty.
pub fn norm_tokens(s: &str) -> (r: Vec<String>)
    ensures
        text::texts(r@) == tokens(s@),
        forall|i: int| 0 <= i < r@.len() ==> (#[trigger] r@[i])@.len() > 0,
{
    let raw = split_words(s, WordClass::Alphanumeric);
    proof {
        lemma_words_are_words(s@, WordClass::Alphanumeric);
    }
    let mut out: Vec<String> = Vec::new();
    let mut i: usize = 0;
    while i < raw.len()
        invariant
            i <= raw.len(),
            text::texts(raw@) == words(s@, WordClass::Alphanumeric),
            forall|k: int|
                0 <= k < raw@.len() ==> is_word(
                    #[trigger] text::texts(raw@)[k],
                    WordClass::Alphanumeric,
                ),
            text::texts(out@) == tokens(s@).take(i as int),
            forall|k: int| 0 <= k < out@.len() ==> (#[trigger] out@[k])@.len() > 0,
        decreases raw.len() - i,
    {
        let ghost done = text::texts(out@);
        assert(is_word(text::texts(raw@)[i as int], WordClass::Alphanumeric));
        let token = lowercased(raw[i].as_str());
        let ghost t = token@;
        out.push(token);
        proof {
            assert(text::texts(raw@)[i as int] == raw@[i as int]@);
            assert(text::texts(out@) =~= done.push(t));
            assert(tokens(s@).take(i + 1) =~= tokens(s@).take(i as int).push(tokens(s@)[i as int]));
        }
        i = i + 1;
    }
    assert(tokens(s@).take(raw@.len() as int) =~= tokens(s@));
    out
}

/// A non-empty text made of word characters alone.
pub open spec fn is_word(w: Seq<char>, class: WordClass) -> bool {
    &&& w.len() > 0
    &&& forall|i: int| 0 <= i < w.len() ==> class.has(#[trigger] w[i])
}

/// What [`words`] yields are words, and it yields one as soon as there is a word character.
pub proof fn lemma_words_are_words(s: Seq<char>, class: WordClass)
    ensures
        forall|i: int| 0 <= i < words(s, class).len() ==> is_word(#[trigger] words(s, class)[i], class),
        s.len() > 0 && class.has(s.last()) ==> words(s, class).len() > 0 && words(s, class).last().last()
            == s.last(),
        words(s, class).len() == 0 <==> (forall|i: int|
            0 <= i < s.len() ==> !class.has(#[trigger] s[i])),
    decreases s.len(),
{
    if s.len() > 0 {
        let t = s.drop_last();
        lemma_words_are_words(t, class);
        let before = words(t, class);
        if class.has(s.last()) && s.len() >= 2 && class.has(s[s.len() - 2]) {
            assert(t.last() == s[s.len() - 2]);
            assert(before.len() > 0);
            let w = before.last();
            assert(is_word(before[before.len() - 1], class));
            assert(is_word(w.push(s.last()), class));
        } else if class.has(s.last()) {
            assert(is_word(seq![s.last()], class));
        }
        if !class.has(s.last()) {
            assert(words(s, class) == before);
            if words(s, class).len() == 0 {
                assert forall|i: int| 0 <= i < s.len() implies !class.has(#[trigger] s[i]) by {
                    if i < t.len() {
                        assert(t[i] == s[i]);
                    }
                }
            } else {
                let i = choose|i: int| 0 <= i < t.len() && class.has(#[trigger] t[i]);
                assert(s[i] == t[i]);
            }
        }
    }
}

/// A word that starts after the end of `a` is the next word.
proof fn lemma_words_next(a: Seq<char>, w: Seq<char>, class: WordClass)
    requires
        a.len() == 0 || !class.has(a.last()),
        is_word(w, class),
    ensures
        words(a + w, class) == words(a, class).push(w),
    decreases w.len(),
{
    let s = a + w;
    assert(s.last() == w.last());
    assert(class.has(w[w.len() - 1]));
    if w.len() == 1 {
        assert(s.drop_last() =~= a);
        assert(w =~= seq![s.last()]);
        if a.len() > 0 {
            assert(s[s.len() - 2] == a.last());
        }
    } else {
        let v = w.drop_last();
        assert(is_word(v, class)) by {
            assert forall|i: int| 0 <= i < v.len() implies class.has(#[trigger] v[i]) by {
                assert(v[i] == w[i]);
            }
        }
        lemma_words_next(a, v, class);
        assert(s.drop_last() =~= a + v);
        assert(s[s.len() - 2] == w[w.len() - 2]);
        assert(class.has(w[w.len() - 2]));
        let before = words(a + v, class);
        assert(before.drop_last() =~= words(a, class));
        assert(v.push(s.last()) =~= w);
    }
}

/// Splitting undoes joining with a separator that is no word character.
pub proof fn lemma_words_of_joined(ws: Seq<Seq<char>>, sep: char, class: WordClass)
    requires
        !class.has(sep),
        forall|i: int| 0 <= i < ws.len() ==> is_word(#[trigger] ws[i], class),
    ensures
        words(join(ws, seq![sep]), class) == ws,
    decreases ws.len(),
{
    if ws.len() == 0 {
        assert(words(join(ws, seq![sep]), class) =~= ws);
    } else if ws.len() == 1 {
        let e = Seq::<char>::empty();
        lemma_words_next(e, ws[0], class);
        assert(e + ws[0] =~= ws[0]);
        assert(words(e, class).push(ws[0]) =~= ws);
    } else {
        let init = ws.drop_last();
        assert forall|i: int| 0 <= i < init.len() implies is_word(#[trigger] init[i], class) by {
            assert(init[i] == ws[i]);
        }
        lemma_words_of_joined(init, sep, class);
        let a = join(init, seq![sep]) + seq![sep];
        assert(a.drop_last() =~= join(init, seq![sep]));
        assert(a.last() == sep);
        assert(words(a, class) == init);
        assert(is_word(ws[ws.len() - 1], class));
        lemma_words_next(a, ws.last(), class);
        assert(init.push(ws.last()) =~= ws);
    }
}

/// A leading separator changes no word.
proof fn lemma_words_skip_separator(s: Seq<char>, class: WordClass)
    requires
        s.len() > 0,
        !class.has(s[0]),
    ensures
        words(s.skip(1), class) == words(s, class),
    decreases s.len(),
{
    let t = s.skip(1);
    if s.len() == 1 {
        assert(s.drop_last() =~= Seq::<char>::empty());
        assert(t =~= Seq::<char>::empty());
    } else {
        let init = s.drop_last();
        lemma_words_skip_separator(init, class);
        assert(t.drop_last() =~= init.skip(1));
        assert(t.last() == s.last());
        if s.len() >= 3 {
            assert(t[t.len() - 2] == s[s.len() - 2]);
        } else {
            assert(s[s.len() - 2] == s[0]);
        }
    }
}

/// Trimming changes no whitespace-separated word.
pub proof fn lemma_words_of_trimmed(s: Seq<char>)
    ensures
        words(text::trim(s), WordClass::Visible) == words(s, WordClass::Visible),
{
    lemma_words_of_trim_start(s);
    lemma_words_of_trim_end(text::trim_start(s));
}

proof fn lemma_words_of_trim_start(s: Seq<char>)
    ensures
        words(text::trim_start(s), WordClass::Visible) == words(s, WordClass::Visible),
    decreases s.len(),
{
    if s.len() > 0 && text::is_whitespace(s[0]) {
        lemma_words_skip_separator(s, WordClass::Visible);
        lemma_words_of_trim_start(s.skip(1));
    }
}

proof fn lemma_words_of_trim_end(s: Seq<char>)
    ensures
        words(text::trim_end(s), WordClass::Visible) == words(s, WordClass::Visible),
    decreases s.len(),
{
    if s.len() > 0 && text::is_whitespace(s.last()) {
        lemma_words_of_trim_end(s.drop_last());
    }
}

// -- laws of tokens -------------------------------------------------------------------------

/// The words of two texts with a separator between them are those of the first and then those of
/// the second.
pub proof fn words_of_two_texts(a: Seq<char>, sep: char, b: Seq<char>, class: WordClass)
    requires
        !class.has(sep),
    ensures
        words(a + seq![sep] + b, class) == words(a, class) + words(b, class),
    decreases b.len(),
{
    let s = a + seq![sep] + b;
    if b.len() == 0 {
        assert(s.drop_last() =~= a);
        assert(s.last() == sep);
        assert(words(a, class) + words(b, class) =~= words(a, class));
    } else {
        let init = b.drop_last();
        words_of_two_texts(a, sep, init, class);
        lemma_words_are_words(init, class);
        assert(s.drop_last() =~= a + seq![sep] + init);
        assert(s.last() == b.last());
        if b.len() >= 2 {
            assert(s[s.len() - 2] == b[b.len() - 2]);
            assert(init.last() == b[b.len() - 2]);
        } else {
            assert(s[s.len() - 2] == sep);
        }
        assert(words(s, class) =~= words(a, class) + words(b, class));
    }
}

/// A text of word characters alone is its own only word; an empty text has none.
pub proof fn words_of_one_word(w: Seq<char>, class: WordClass)
    ensures
        w.len() == 0 ==> words(w, class).len() == 0,
        is_word(w, class) ==> words(w, class) == seq![w],
{
    if is_word(w, class) {
        let e = Seq::<char>::empty();
        lemma_words_next(e, w, class);
        assert(e + w =~= w);
        assert(words(e, class).push(w) =~= seq![w]);
    }
}

/// The tokens of two texts with a space between them are those of the first and then those of the
/// second.
pub proof fn tokens_of_two_texts(a: Seq<char>, b: Seq<char>)
    ensures
        tokens(a + seq![' '] + b) == tokens(a) + tokens(b),
{
    tokens_of_separated_texts(a, ' ', b);
}

/// Any character that is neither a letter nor a digit separates tokens: those of two texts with it
/// between them are those of the first and then those of the second.
pub proof fn tokens_of_separated_texts(a: Seq<char>, c: char, b: Seq<char>)
    requires
        !text::is_alphanumeric(c),
    ensures
        tokens(a + seq![c] + b) == tokens(a) + tokens(b),
{
    words_of_two_texts(a, c, b, WordClass::Alphanumeric);
    assert(tokens(a + seq![c] + b) =~= tokens(a) + tokens(b));
}

/// A text of letters and digits alone is one token, in lower case; an empty text has none.
pub proof fn tokens_of_one_word(w: Seq<char>)
    ensures
        w.len() == 0 ==> tokens(w).len() == 0,
        w.len() > 0 && (forall|i: int| 0 <= i < w.len() ==> text::is_alphanumeric(#[trigger] w[i]))
            ==> tokens(w) == seq![text::lowercase(w)],
{
    let class = WordClass::Alphanumeric;
    if w.len() > 0 && (forall|i: int|
        0 <= i < w.len() ==> text::is_alphanumeric(#[trigger] w[i])) {
        assert forall|i: int| 0 <= i < w.len() implies class.has(#[trigger] w[i]) by {
            assert(text::is_alphanumeric(w[i]));
        }
        words_of_one_word(w, class);
        assert(tokens(w) =~= seq![text::lowercase(w)]);
    }
}

/// A text has no token exactly when it has no letter and no digit.
pub proof fn tokens_need_a_letter_or_digit(s: Seq<char>)
    ensures
        tokens(s).len() == 0 <==> forall|i: int|
            0 <= i < s.len() ==> !text::is_alphanumeric(#[trigger] s[i]),
{
    let class = WordClass::Alphanumeric;
    lemma_words_are_words(s, class);
    assert forall|i: int| 0 <= i < s.len() implies class.has(s[i]) == text::is_alphanumeric(
        #[trigger] s[i],
    ) by {
    }
    if tokens(s).len() == 0 {
        assert forall|i: int| 0 <= i < s.len() implies !text::is_alphanumeric(#[trigger] s[i]) by {
            assert(!class.has(s[i]));
        }
    } else {
        let i = choose|i: int| 0 <= i < s.len() && class.has(#[trigger] s[i]);
        assert(text::is_alphanumeric(s[i]));
    }
}

/// The characters of `s` that make up words, in order.
pub open spec fn word_characters(s: Seq<char>, class: WordClass) -> Seq<char> {
    s.filter(|c: char| class.has(c))
}

proof fn lemma_join_push(parts: Seq<Seq<char>>, p: Seq<char>)
    ensures
        join(parts.push(p), Seq::empty()) == join(parts, Seq::empty()) + p,
{
    assert(parts.push(p).drop_last() =~= parts);
    assert(join(parts.push(p), Seq::empty()) =~= join(parts, Seq::empty()) + p);
}

proof fn lemma_words_joined(s: Seq<char>, class: WordClass)
    ensures
        join(words(s, class), Seq::empty()) == word_characters(s, class),
    decreases s.len(),
{
    reveal(Seq::filter);
    if s.len() > 0 {
        let init = s.drop_last();
        let c = s.last();
        let before = words(init, class);
        lemma_words_joined(init, class);
        lemma_words_are_words(init, class);
        init.lemma_filter_push(c, |c: char| class.has(c));
        assert(init.push(c) =~= s);
        if class.has(c) {
            if s.len() >= 2 && class.has(s[s.len() - 2]) {
                assert(init.last() == s[s.len() - 2]);
                lemma_join_push(before.drop_last(), before.last());
                lemma_join_push(before.drop_last(), before.last().push(c));
                assert(before.drop_last().push(before.last()) =~= before);
            } else {
                lemma_join_push(before, seq![c]);
            }
            assert(join(words(s, class), Seq::empty()) =~= word_characters(s, class));
        }
    } else {
        assert(join(words(s, class), Seq::empty()) =~= word_characters(s, class));
    }
}

/// The ASCII lower case of every part.
spec fn lowered(parts: Seq<Seq<char>>) -> Seq<Seq<char>> {
    parts.map_values(|p: Seq<char>| text::ascii_lowercase(p))
}

proof fn lemma_join_lowered(parts: Seq<Seq<char>>)
    ensures
        join(lowered(parts), Seq::empty()) == text::ascii_lowercase(join(parts, Seq::empty())),
    decreases parts.len(),
{
    if parts.len() > 0 {
        let init = parts.drop_last();
        lemma_join_lowered(init);
        lemma_join_push(init, parts.last());
        lemma_join_push(lowered(init), text::ascii_lowercase(parts.last()));
        assert(init.push(parts.last()) =~= parts);
        assert(lowered(init).push(text::ascii_lowercase(parts.last())) =~= lowered(parts));
    }
    assert(join(lowered(parts), Seq::empty()) =~= text::ascii_lowercase(
        join(parts, Seq::empty()),
    ));
}

proof fn lemma_words_are_ascii(s: Seq<char>, class: WordClass)
    requires
        text::all_ascii(s),
    ensures
        forall|i: int| 0 <= i < words(s, class).len() ==> text::all_ascii(
            #[trigger] words(s, class)[i],
        ),
    decreases s.len(),
{
    if s.len() > 0 {
        let init = s.drop_last();
        let now = words(s, class);
        let before = words(init, class);
        assert(text::all_ascii(init)) by {
            assert forall|i: int| 0 <= i < init.len() implies text::ascii(#[trigger] init[i]) by {
                assert(init[i] == s[i]);
            }
        }
        lemma_words_are_ascii(init, class);
        lemma_words_are_words(init, class);
        assert(text::ascii(s[s.len() - 1]));
        if s.len() >= 2 {
            assert(init.last() == s[s.len() - 2]);
        }
        assert forall|i: int| 0 <= i < now.len() implies text::all_ascii(#[trigger] now[i]) by {
            if i < before.len() {
                assert(text::all_ascii(before[i]));
            }
        }
    }
}

/// Of an ASCII text every token is made of lower-case letters and digits alone, and the tokens one
/// after the other are the text's letters and digits, in lower case and in order.
pub proof fn tokens_of_ascii_text(s: Seq<char>)
    requires
        text::all_ascii(s),
    ensures
        forall|i: int, k: int|
            0 <= i < tokens(s).len() && 0 <= k < tokens(s)[i].len() ==> {
                let c = #[trigger] tokens(s)[i][k];
                ('a' <= c && c <= 'z') || ('0' <= c && c <= '9')
            },
        join(tokens(s), Seq::empty()) == text::ascii_lowercase(
            word_characters(s, WordClass::Alphanumeric),
        ),
{
    let class = WordClass::Alphanumeric;
    let ws = words(s, class);
    lemma_words_are_words(s, class);
    lemma_words_are_ascii(s, class);
    lemma_words_joined(s, class);
    lemma_join_lowered(ws);
    assert forall|i: int| 0 <= i < ws.len() implies #[trigger] tokens(s)[i] == lowered(ws)[i] by {
        assert(text::all_ascii(ws[i]));
        assert(tokens(s)[i] =~= text::ascii_lowercase(ws[i]));
    }
    assert(tokens(s) =~= lowered(ws));
    assert forall|i: int, k: int|
        0 <= i < tokens(s).len() && 0 <= k < tokens(s)[i].len() implies {
        let c = #[trigger] tokens(s)[i][k];
        ('a' <= c && c <= 'z') || ('0' <= c && c <= '9')
    } by {
        assert(is_word(ws[i], class) && text::all_ascii(ws[i]));
        assert(tokens(s)[i] == lowered(ws)[i]);
        assert(class.has(ws[i][k]) && text::ascii(ws[i][k]));
        assert(tokens(s)[i][k] == text::ascii_lower(ws[i][k]));
    }
}

} // verus!
