//! Characters of text: white space, splitting into words, and letter case.

use super::wordlists::ascii_lower;
use vstd::prelude::*;

verus! {

/// A character with the Unicode property White_Space.
pub open spec fn is_white_space(c: char) -> bool {
    ||| '\u{9}' <= c && c <= '\u{d}'
    ||| c == ' '
    ||| c == '\u{85}'
    ||| c == '\u{a0}'
    ||| c == '\u{1680}'
    ||| '\u{2000}' <= c && c <= '\u{200a}'
    ||| c == '\u{2028}'
    ||| c == '\u{2029}'
    ||| c == '\u{202f}'
    ||| c == '\u{205f}'
    ||| c == '\u{3000}'
}

/// Whether `c` has the Unicode property White_Space (what `char::is_whitespace` tests).
pub fn is_whitespace_char(c: char) -> (r: bool)
    ensures
        r == is_white_space(c),
{
    ('\u{9}' <= c && c <= '\u{d}') || c == ' ' || c == '\u{85}' || c == '\u{a0}'
        || c == '\u{1680}' || ('\u{2000}' <= c && c <= '\u{200a}') || c == '\u{2028}'
        || c == '\u{2029}' || c == '\u{202f}' || c == '\u{205f}' || c == '\u{3000}'
}

/// `String::from_iter` over a slice of characters (`FromIterator<&char>`): the string
/// holds exactly those characters, in order.
#[verifier::external_body]
fn string_from_chars(chars: &[char]) -> (s: String)
    ensures
        s@ == chars@,
{
    String::from_iter(chars)
}

/// The string of the characters `start..end` of `chars`.
fn string_of_run(chars: &Vec<char>, start: usize, end: usize) -> (s: String)
    requires
        start <= end <= chars@.len(),
    ensures
        s@ == chars@.subrange(start as int, end as int),
{
    string_from_chars(vstd::slice::slice_subrange(chars.as_slice(), start, end))
}

/// The number of characters before the first white space (or the end).
pub open spec fn word_run(s: Seq<char>) -> nat
    decreases s.len(),
{
    if s.len() == 0 || is_white_space(s[0]) {
        0
    } else {
        1 + word_run(s.drop_first())
    }
}

/// A run is at most as long as the text, and a text that starts with a character other
/// than white space has a run of at least one.
pub proof fn lemma_word_run_bound(s: Seq<char>)
    ensures
        word_run(s) <= s.len(),
        s.len() > 0 && !is_white_space(s[0]) ==> word_run(s) >= 1,
    decreases s.len(),
{
    if s.len() > 0 {
        lemma_word_run_bound(s.drop_first());
    }
}

/// The words of a text: its maximal runs of characters other than white space, in order.
pub open spec fn split_ws(s: Seq<char>) -> Seq<Seq<char>>
    decreases s.len(),
{
    if s.len() == 0 {
        seq![]
    } else if is_white_space(s[0]) {
        split_ws(s.drop_first())
    } else {
        let n = word_run(s);
        proof {
            lemma_word_run_bound(s);
        }
        seq![s.take(n as int)] + split_ws(s.skip(n as int))
    }
}

/// The first run holds no white space, and ends at white space or at the end of the text.
pub proof fn lemma_word_run_ends(s: Seq<char>)
    ensures
        word_run(s) <= s.len(),
        forall|j: int| 0 <= j < word_run(s) ==> !is_white_space(#[trigger] s[j]),
        word_run(s) < s.len() ==> is_white_space(s[word_run(s) as int]),
    decreases s.len(),
{
    if s.len() > 0 && !is_white_space(s[0]) {
        lemma_word_run_ends(s.drop_first());
        assert forall|j: int| 0 <= j < word_run(s) implies !is_white_space(#[trigger] s[j]) by {
            if j > 0 {
                assert(s[j] == s.drop_first()[j - 1]);
            }
        }
    }
}

/// The words of a text are never empty and hold no white space.
pub proof fn lemma_split_words_solid(s: Seq<char>)
    ensures
        forall|i: int|
            0 <= i < split_ws(s).len() ==> #[trigger] split_ws(s)[i].len() > 0 && forall|k: int|
                0 <= k < split_ws(s)[i].len() ==> !is_white_space(split_ws(s)[i][k]),
    decreases s.len(),
{
    if s.len() > 0 {
        if is_white_space(s[0]) {
            lemma_split_words_solid(s.drop_first());
            assert(split_ws(s) == split_ws(s.drop_first()));
        } else {
            let n = word_run(s);
            lemma_word_run_ends(s);
            lemma_word_run_bound(s);
            lemma_split_words_solid(s.skip(n as int));
            let rest = split_ws(s.skip(n as int));
            assert(split_ws(s) == seq![s.take(n as int)] + rest);
            assert forall|i: int|
                0 <= i < split_ws(s).len() implies #[trigger] split_ws(s)[i].len() > 0 && forall|
                k: int,
            | 0 <= k < split_ws(s)[i].len() ==> !is_white_space(split_ws(s)[i][k]) by {
                if i > 0 {
                    assert(split_ws(s)[i] == rest[i - 1]);
                } else {
                    let t = s.take(n as int);
                    assert(split_ws(s)[0] == t);
                    assert forall|k: int| 0 <= k < t.len() implies !is_white_space(t[k]) by {
                        assert(t[k] == s[k]);
                    }
                }
            }
        }
    }
}

/// White space before a text adds no words.
pub proof fn lemma_split_after_white(w: Seq<char>, t: Seq<char>)
    requires
        forall|k: int| 0 <= k < w.len() ==> is_white_space(#[trigger] w[k]),
    ensures
        split_ws(w + t) == split_ws(t),
    decreases w.len(),
{
    if w.len() > 0 {
        assert((w + t).drop_first() =~= w.drop_first() + t);
        assert((w + t)[0] == w[0]);
        lemma_split_after_white(w.drop_first(), t);
    } else {
        assert(w + t =~= t);
    }
}

/// Splitting does not depend on the kind or amount of white space between words: a run
/// of white space may be replaced by a single space.
pub proof fn lemma_split_white_run(a: Seq<char>, w: Seq<char>, b: Seq<char>)
    requires
        w.len() > 0,
        forall|k: int| 0 <= k < w.len() ==> is_white_space(#[trigger] w[k]),
    ensures
        split_ws(a + w + b) == split_ws(a + seq![' '] + b),
    decreases a.len(),
{
    let x = a + w + b;
    let y = a + seq![' '] + b;
    let sp = seq![' '];
    assert forall|k: int| 0 <= k < sp.len() implies is_white_space(#[trigger] sp[k]) by {}
    if a.len() == 0 {
        assert(x =~= w + b);
        assert(y =~= sp + b);
        lemma_split_after_white(w, b);
        lemma_split_after_white(sp, b);
    } else if is_white_space(a[0]) {
        assert(x[0] == a[0]);
        assert(y[0] == a[0]);
        assert(x.drop_first() =~= a.drop_first() + w + b);
        assert(y.drop_first() =~= a.drop_first() + sp + b);
        lemma_split_white_run(a.drop_first(), w, b);
    } else {
        let k = word_run(a);
        lemma_word_run_ends(a);
        lemma_word_run_bound(a);
        assert(x[0] == a[0]);
        assert(y[0] == a[0]);
        assert forall|j: int| 0 <= j < k implies !is_white_space(#[trigger] x[j]) by {
            assert(x[j] == a[j]);
        }
        assert forall|j: int| 0 <= j < k implies !is_white_space(#[trigger] y[j]) by {
            assert(y[j] == a[j]);
        }
        if k < a.len() {
            assert(x[k as int] == a[k as int]);
            assert(y[k as int] == a[k as int]);
            lemma_word_run(x, k as int);
            lemma_word_run(y, k as int);
            assert(x.take(k as int) =~= a.take(k as int));
            assert(y.take(k as int) =~= a.take(k as int));
            assert(x.skip(k as int) =~= a.skip(k as int) + w + b);
            assert(y.skip(k as int) =~= a.skip(k as int) + sp + b);
            lemma_split_white_run(a.skip(k as int), w, b);
        } else {
            assert(x[k as int] == w[0]);
            assert(y[k as int] == ' ');
            lemma_word_run(x, k as int);
            lemma_word_run(y, k as int);
            assert(x.take(k as int) =~= a);
            assert(y.take(k as int) =~= a);
            assert(x.skip(k as int) =~= w + b);
            assert(y.skip(k as int) =~= sp + b);
            lemma_split_after_white(w, b);
            lemma_split_after_white(sp, b);
        }
    }
}

/// The character sequences held by a sequence of strings.
pub open spec fn strings_view(v: Seq<String>) -> Seq<Seq<char>> {
    v.map_values(|w: String| w@)
}

/// A run of `k` characters other than white space, ended by white space or the end of
/// the text, is the first word's run.
pub proof fn lemma_word_run(s: Seq<char>, k: int)
    requires
        0 <= k <= s.len(),
        forall|j: int| 0 <= j < k ==> !is_white_space(#[trigger] s[j]),
        k == s.len() || is_white_space(s[k]),
    ensures
        word_run(s) == k,
    decreases k,
{
    if k > 0 {
        lemma_word_run(s.drop_first(), k - 1);
    }
}

/// Splits a text into its words (`str::split_whitespace`).
pub fn split_whitespace(input: &str) -> (words: Vec<String>)
    ensures
        strings_view(words@) == split_ws(input@),
{
    let chars = chars_of(input);
    let ghost s = input@;
    let n = chars.len();
    let mut words: Vec<String> = Vec::new();
    let mut in_word = false;
    let mut start: usize = 0;
    assert(s.skip(0) =~= s);
    assert(strings_view(words@) + split_ws(s) =~= split_ws(s));
    for i in 0..n
        invariant
            n == chars@.len(),
            chars@ == s,
            !in_word ==> strings_view(words@) + split_ws(s.skip(i as int)) == split_ws(s),
            in_word ==> {
                &&& start < i
                &&& forall|j: int| start <= j < i ==> !is_white_space(#[trigger] s[j])
                &&& strings_view(words@) + split_ws(s.skip(start as int)) == split_ws(s)
            },
    {
        let white = is_whitespace_char(chars[i]);
        if white {
            assert(s.skip(i as int).drop_first() =~= s.skip(i + 1));
            assert(split_ws(s.skip(i as int)) == split_ws(s.skip(i + 1)));
            if in_word {
                let ghost t = s.skip(start as int);
                proof {
                    lemma_word_run(t, i - start);
                    assert(t.take(i - start) =~= s.subrange(start as int, i as int));
                    assert(t.skip(i - start) =~= s.skip(i as int));
                }
                let word = string_of_run(&chars, start, i);
                let ghost before = words@;
                words.push(word);
                assert(strings_view(words@) =~= strings_view(before) + seq![word@]);
                in_word = false;
            }
        } else if !in_word {
            in_word = true;
            start = i;
        }
    }
    let ghost rest = s.skip(n as int);
    assert(rest =~= Seq::<char>::empty());
    assert(split_ws(rest) =~= Seq::<Seq<char>>::empty());
    if in_word {
        let ghost t = s.skip(start as int);
        proof {
            lemma_word_run(t, n - start);
            assert(t.take(n - start) =~= s.subrange(start as int, n as int));
            assert(t.skip(n - start) =~= rest);
        }
        let word = string_of_run(&chars, start, n);
        assert(split_ws(t) == seq![word@] + split_ws(rest));
        let ghost before = words@;
        words.push(word);
        assert(strings_view(words@) =~= strings_view(before) + seq![word@]);
    }
    assert(strings_view(words@) =~= split_ws(s));
    words
}

/// The characters of a string, in order.
pub fn chars_of(s: &str) -> (v: Vec<char>)
    ensures
        v@ == s@,
{
    let mut v: Vec<char> = Vec::new();
    for c in it: s.chars()
        invariant
            v@ == it.seq().take(it.index() as int),
    {
        v.push(c);
    }
    assert(v@ =~= s@);
    v
}

/// The lower-case form of a string under the Unicode case mapping, which is what
/// `str::to_lowercase` returns.
pub uninterp spec fn unicode_lowercase(s: Seq<char>) -> Seq<char>;

/// `str::to_lowercase`. Its result is named: it follows the Unicode case mapping, which
/// this crate does not write out. One fact of that mapping is stated: on ASCII text it
/// maps 'A'..='Z' to 'a'..='z' and leaves every other ASCII character as it is.
#[verifier::external_body]
pub(crate) fn str_to_lowercase(s: &str) -> (r: String)
    ensures
        r@ == unicode_lowercase(s@),
        vstd::utf8::is_ascii_chars(s@) ==> r@ == ascii_lower(s@),
{
    s.to_lowercase()
}

/// The form in which a word is looked up in the word lists: for an ASCII word, its
/// ASCII letters in lower case; for any other word, its Unicode lower-case form.
pub open spec fn lookup_form(w: Seq<char>) -> Seq<char> {
    if vstd::utf8::is_ascii_chars(w) {
        ascii_lower(w)
    } else {
        unicode_lowercase(w)
    }
}

} // verus!
