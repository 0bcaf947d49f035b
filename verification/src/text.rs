//! Characters, case folding and the splitting of a line into words.

use vstd::prelude::*;
use vstd::std_specs::iter::IteratorSpec;

verus! {

/// Whether `c` separates words: the characters with Unicode's `White_Space` property.
pub open spec fn is_space(c: char) -> bool {
    let n = c as u32;
    ||| 0x09 <= n <= 0x0D
    ||| n == 0x20
    ||| n == 0x85
    ||| n == 0xA0
    ||| n == 0x1680
    ||| 0x2000 <= n <= 0x200A
    ||| n == 0x2028
    ||| n == 0x2029
    ||| n == 0x202F
    ||| n == 0x205F
    ||| n == 0x3000
}

/// The lower-case form of `c`: the letters `A` to `Z` map to `a` to `z`, every other
/// character to itself.
pub open spec fn to_lower(c: char) -> char {
    if 'A' <= c <= 'Z' {
        ((c as u8) + 32) as char
    } else {
        c
    }
}

/// `s` with its letters `A` to `Z` in lower case, and every other character as it is.
pub open spec fn lowercase(s: Seq<char>) -> Seq<char> {
    Seq::new(s.len(), |i: int| to_lower(s[i]))
}

/// The number of characters before the first white space of `s`, or all of them.
pub open spec fn word_len(s: Seq<char>) -> nat
    decreases s.len(),
{
    if s.len() == 0 || is_space(s[0]) {
        0
    } else {
        1 + word_len(s.drop_first())
    }
}

/// The words of `s`: its longest runs of characters that are not white space, from left
/// to right.
pub open spec fn tokens(s: Seq<char>) -> Seq<Seq<char>>
    decreases s.len(),
{
    if s.len() == 0 {
        Seq::empty()
    } else if is_space(s[0]) {
        tokens(s.drop_first())
    } else {
        proof {
            lemma_word_len_bounds(s);
        }
        seq![s.take(word_len(s) as int)] + tokens(s.skip(word_len(s) as int))
    }
}

/// A word is not empty and holds no white space.
pub open spec fn is_word(s: Seq<char>) -> bool {
    &&& s.len() > 0
    &&& forall|i: int| 0 <= i < s.len() ==> !is_space(#[trigger] s[i])
}

/// `s` without its white space.
pub open spec fn unspaced(s: Seq<char>) -> Seq<char> {
    s.filter(|c: char| !is_space(c))
}

/// `words` on one line, a single blank between each two.
pub open spec fn join(words: Seq<Seq<char>>) -> Seq<char>
    decreases words.len(),
{
    if words.len() == 0 {
        Seq::empty()
    } else if words.len() == 1 {
        words[0]
    } else {
        words[0] + seq![' '] + join(words.drop_first())
    }
}

/// The views of the items of `v`, in order.
pub open spec fn views<T: View>(v: Seq<T>) -> Seq<T::V> {
    Seq::new(v.len(), |i: int| v[i]@)
}

/// `word_len` stays within `s`, and is positive where `s` starts with a word.
pub proof fn lemma_word_len_bounds(s: Seq<char>)
    ensures
        word_len(s) <= s.len(),
        s.len() > 0 && !is_space(s[0]) ==> word_len(s) >= 1,
    decreases s.len(),
{
    if s.len() > 0 && !is_space(s[0]) {
        lemma_word_len_bounds(s.drop_first());
    }
}

/// Where the first `k` characters of `s` hold no white space and the word ends there,
/// `word_len(s)` is `k`.
pub proof fn lemma_word_len_is(s: Seq<char>, k: int)
    requires
        0 <= k <= s.len(),
        forall|j: int| 0 <= j < k ==> !is_space(#[trigger] s[j]),
        k == s.len() || is_space(s[k]),
    ensures
        word_len(s) == k,
    decreases k,
{
    if k > 0 {
        let t = s.drop_first();
        assert forall|j: int| 0 <= j < k - 1 implies !is_space(#[trigger] t[j]) by {
            assert(t[j] == s[j + 1]);
        }
        lemma_word_len_is(t, k - 1);
    }
}

/// The first `word_len(s)` characters of `s` hold no white space.
pub proof fn lemma_word_len_free(s: Seq<char>)
    ensures
        forall|j: int| 0 <= j < word_len(s) ==> !is_space(#[trigger] s[j]),
    decreases s.len(),
{
    if s.len() > 0 && !is_space(s[0]) {
        let t = s.drop_first();
        lemma_word_len_free(t);
        lemma_word_len_bounds(s);
        assert forall|j: int| 0 <= j < word_len(s) implies !is_space(#[trigger] s[j]) by {
            if j > 0 {
                assert(s[j] == t[j - 1]);
            }
        }
    }
}

/// Where `word_len(s)` stops short of the end of `s`, white space stands there.
pub proof fn lemma_word_len_stops(s: Seq<char>)
    ensures
        word_len(s) < s.len() ==> is_space(s[word_len(s) as int]),
    decreases s.len(),
{
    if s.len() > 0 && !is_space(s[0]) {
        let t = s.drop_first();
        lemma_word_len_stops(t);
        lemma_word_len_bounds(t);
        if word_len(s) < s.len() {
            assert(s[word_len(s) as int] == t[word_len(t) as int]);
        }
    }
}

/// A line has no word exactly where all of it is white space.
pub proof fn lemma_tokens_blank(s: Seq<char>)
    ensures
        tokens(s).len() == 0 <==> forall|i: int| 0 <= i < s.len() ==> is_space(#[trigger] s[i]),
    decreases s.len(),
{
    if s.len() > 0 && is_space(s[0]) {
        let t = s.drop_first();
        lemma_tokens_blank(t);
        if tokens(t).len() == 0 {
            assert forall|i: int| 0 <= i < s.len() implies is_space(#[trigger] s[i]) by {
                if i > 0 {
                    assert(s[i] == t[i - 1]);
                }
            }
        } else {
            let i = choose|i: int| 0 <= i < t.len() && !is_space(#[trigger] t[i]);
            assert(s[i + 1] == t[i]);
        }
    }
}

/// Where a word stands before text that is empty or starts with white space, it is the
/// first word, and the words of the text follow it.
pub proof fn lemma_tokens_after_word(word: Seq<char>, tail: Seq<char>)
    requires
        is_word(word),
        tail.len() == 0 || is_space(tail[0]),
    ensures
        tokens(word + tail) == seq![word] + tokens(tail),
{
    let s = word + tail;
    assert(s[0] == word[0]);
    assert forall|j: int| 0 <= j < word.len() implies !is_space(#[trigger] s[j]) by {
        assert(s[j] == word[j]);
    }
    if tail.len() > 0 {
        assert(s[word.len() as int] == tail[0]);
    }
    lemma_word_len_is(s, word.len() as int);
    assert(s.take(word.len() as int) == word);
    assert(s.skip(word.len() as int) == tail);
}

/// White space before a line adds no word to it.
pub proof fn lemma_tokens_after_space(c: char, tail: Seq<char>)
    requires
        is_space(c),
    ensures
        tokens(seq![c] + tail) == tokens(tail),
{
    assert((seq![c] + tail).drop_first() == tail);
}

/// Every word of a line is a word: not empty, and free of white space.
pub proof fn lemma_tokens_are_words(s: Seq<char>)
    ensures
        forall|k: int| 0 <= k < tokens(s).len() ==> is_word(#[trigger] tokens(s)[k]),
    decreases s.len(),
{
    if s.len() == 0 {
    } else if is_space(s[0]) {
        lemma_tokens_are_words(s.drop_first());
        assert(tokens(s) == tokens(s.drop_first()));
    } else {
        lemma_word_len_bounds(s);
        let n = word_len(s) as int;
        lemma_word_len_free(s);
        assert(tokens(s) == seq![s.take(n)] + tokens(s.skip(n)));
        lemma_tokens_are_words(s.skip(n));
        let rest = tokens(s.skip(n));
        assert forall|k: int| 0 <= k < tokens(s).len() implies is_word(
            #[trigger] tokens(s)[k],
        ) by {
            if k > 0 {
                assert(tokens(s)[k] == rest[k - 1]);
            } else {
                let first = s.take(n);
                assert(tokens(s)[0] == first);
                assert forall|j: int| 0 <= j < first.len() implies !is_space(
                    #[trigger] first[j],
                ) by {
                    assert(first[j] == s[j]);
                }
            }
        }
    }
}

/// Text that holds no white space loses nothing when white space is taken out.
pub proof fn lemma_unspaced_run(s: Seq<char>)
    requires
        forall|i: int| 0 <= i < s.len() ==> !is_space(#[trigger] s[i]),
    ensures
        unspaced(s) == s,
    decreases s.len(),
{
    reveal(Seq::filter);
    if s.len() > 0 {
        let front = s.drop_last();
        assert forall|i: int| 0 <= i < front.len() implies !is_space(#[trigger] front[i]) by {
            assert(front[i] == s[i]);
        }
        lemma_unspaced_run(front);
        assert(front.push(s.last()) == s);
    }
}

/// Splitting gives back the words that a line was joined from.
pub proof fn lemma_tokens_join(words: Seq<Seq<char>>)
    requires
        forall|k: int| 0 <= k < words.len() ==> is_word(#[trigger] words[k]),
    ensures
        tokens(join(words)) == words,
    decreases words.len(),
{
    if words.len() == 0 {
    } else if words.len() == 1 {
        lemma_tokens_after_word(words[0], Seq::empty());
        assert(words[0] + Seq::<char>::empty() == words[0]);
        assert(seq![words[0]] + tokens(Seq::<char>::empty()) == words);
    } else {
        let rest = words.drop_first();
        assert forall|k: int| 0 <= k < rest.len() implies is_word(#[trigger] rest[k]) by {
            assert(rest[k] == words[k + 1]);
        }
        lemma_tokens_join(rest);
        let tail = seq![' '] + join(rest);
        lemma_tokens_after_space(' ', join(rest));
        lemma_tokens_after_word(words[0], tail);
        assert(words[0] + tail == join(words));
        assert(seq![words[0]] + rest == words);
    }
}

/// A word in lower case is still a word: folding neither makes nor removes white space.
pub proof fn lemma_lowercase_word(s: Seq<char>)
    requires
        is_word(s),
    ensures
        is_word(lowercase(s)),
{
    assert forall|i: int| 0 <= i < lowercase(s).len() implies !is_space(
        #[trigger] lowercase(s)[i],
    ) by {
        assert(!is_space(s[i]));
    }
}

/// Folding text that is in lower case already changes nothing.
pub proof fn lemma_lowercase_idempotent(s: Seq<char>)
    ensures
        lowercase(lowercase(s)) == lowercase(s),
{
    assert(lowercase(lowercase(s)) =~= lowercase(s));
}

/// `String::push` of std: the character is appended, the rest of the text stays.
pub assume_specification[ String::push ](s: &mut String, c: char)
    ensures
        final(s)@ == old(s)@.push(c),
;

/// Whether `c` is white space, as `char::is_whitespace` of std has it.
pub fn is_whitespace(c: char) -> (b: bool)
    ensures
        b == is_space(c),
{
    let n: u32 = c as u32;
    (0x09 <= n && n <= 0x0D) || n == 0x20 || n == 0x85 || n == 0xA0 || n == 0x1680 || (0x2000 <= n
        && n <= 0x200A) || n == 0x2028 || n == 0x2029 || n == 0x202F || n == 0x205F || n == 0x3000
}

/// `c` in lower case where it is one of `A` to `Z`, and else `c` itself.
pub fn lower_char(c: char) -> (r: char)
    ensures
        r == to_lower(c),
{
    if 'A' <= c && c <= 'Z' {
        ((c as u8) + 32) as char
    } else {
        c
    }
}

/// The characters of `s`.
pub fn chars_of(s: &str) -> (v: Vec<char>)
    ensures
        v@ == s@,
{
    let mut v: Vec<char> = Vec::new();
    for c in it: s.chars()
        invariant
            it.seq() == s@,
            v@ == it.seq().take(it.index()),
    {
        v.push(c);
    }
    v
}

/// Whether `a` and `b` hold the same text.
pub fn same_text(a: &str, b: &str) -> (same: bool)
    ensures
        same == (a@ == b@),
{
    broadcast use vstd::string::group_string_axioms;

    let mut x = a.chars();
    let mut y = b.chars();
    let ghost mut k: int = 0;
    assert(a@.skip(0) == a@ && b@.skip(0) == b@);
    loop
        invariant
            0 <= k <= a@.len(),
            k <= b@.len(),
            x.remaining() == a@.skip(k),
            y.remaining() == b@.skip(k),
            a@.take(k) == b@.take(k),
        decreases a@.len() - k,
    {
        let p = x.next();
        let q = y.next();
        match (p, q) {
            (Some(c), Some(d)) => {
                if c != d {
                    assert(a@[k] != b@[k]);
                    return false;
                }
                proof {
                    assert(a@.skip(k).drop_first() == a@.skip(k + 1));
                    assert(b@.skip(k).drop_first() == b@.skip(k + 1));
                    assert(a@.take(k + 1) == a@.take(k).push(a@[k]));
                    assert(b@.take(k + 1) == b@.take(k).push(b@[k]));
                    k = k + 1;
                }
            },
            (None, None) => {
                assert(a@.take(k) == a@ && b@.take(k) == b@);
                return true;
            },
            _ => {
                assert(a@.len() != b@.len());
                return false;
            },
        }
    }
}

/// Whether one of `words` is `word`.
pub fn contains_text(words: &[String], word: &str) -> (found: bool)
    ensures
        found == views(words@).contains(word@),
{
    for i in 0..words.len()
        invariant
            forall|j: int| 0 <= j < i ==> views(words@)[j] != word@,
    {
        if same_text(words[i].as_str(), word) {
            assert(views(words@)[i as int] == word@);
            return true;
        }
    }
    false
}

/// A copy of `s` with its letters `A` to `Z` in lower case. No other letter is folded.
pub fn to_lowercase(s: &str) -> (r: String)
    ensures
        r@ == lowercase(s@),
{
    let mut r = String::new();
    for c in it: s.chars()
        invariant
            it.seq() == s@,
            r@ == lowercase(it.seq().take(it.index())),
    {
        r.push(lower_char(c));
    }
    r
}

/// The words of `s`, each borrowed from it.
pub fn split_whitespace<'a>(s: &'a str) -> (words: Vec<&'a str>)
    ensures
        views(words@) == tokens(s@),
{
    let chars = chars_of(s);
    let n = chars.len();
    let mut words: Vec<&'a str> = Vec::new();
    let mut i: usize = 0;
    assert(s@.skip(0) == s@);
    assert(views(words@) + tokens(s@) == tokens(s@));
    while i < n
        invariant
            chars@ == s@,
            n == chars.len(),
            i <= n,
            tokens(s@) == views(words@) + tokens(s@.skip(i as int)),
        decreases n - i,
    {
        if is_whitespace(chars[i]) {
            assert(s@.skip(i as int).drop_first() == s@.skip(i + 1));
            i += 1;
        } else {
            let start = i;
            while i < n && !is_whitespace(chars[i])
                invariant
                    chars@ == s@,
                    n == chars.len(),
                    start <= i <= n,
                    forall|j: int| start <= j < i ==> !is_space(#[trigger] s@[j]),
                decreases n - i,
            {
                i += 1;
            }
            let word = s.substring_char(start, i);
            proof {
                let t = s@.skip(start as int);
                lemma_word_len_is(t, i - start);
                assert(t.take(i - start) == s@.subrange(start as int, i as int));
                assert(t.skip(i - start) == s@.skip(i as int));
                assert(views(words@.push(word)) == views(words@) + seq![word@]);
            }
            words.push(word);
        }
    }
    words
}

} // verus!
