//! Characters, and the splitting of text at white space.

use vstd::prelude::*;

verus! {

/// Whether a character has the Unicode property `White_Space`: it is one
/// of U+0009 to U+000D, U+0020, U+0085, U+00A0, U+1680, U+2000 to U+200A,
/// U+2028, U+2029, U+202F, U+205F and U+3000.
pub open spec fn white_space(c: char) -> bool {
    ||| '\u{9}' <= c <= '\u{d}'
    ||| c == ' '
    ||| c == '\u{85}'
    ||| c == '\u{a0}'
    ||| c == '\u{1680}'
    ||| '\u{2000}' <= c <= '\u{200a}'
    ||| c == '\u{2028}'
    ||| c == '\u{2029}'
    ||| c == '\u{202f}'
    ||| c == '\u{205f}'
    ||| c == '\u{3000}'
}

/// Calls `char::is_whitespace`, which tells whether the character has the
/// Unicode property `White_Space`.
#[verifier::external_body]
pub(crate) fn is_whitespace(c: char) -> (b: bool)
    ensures
        b == white_space(c),
{
    c.is_whitespace()
}

/// Calls `String::push`, which appends one character to the string.
#[verifier::external_body]
pub(crate) fn string_push(s: &mut String, c: char)
    ensures
        final(s)@ == old(s)@.push(c),
{
    s.push(c)
}

/// The characters of a text.
pub fn chars_of(s: &str) -> (chars: Vec<char>)
    ensures
        chars@ == s@,
{
    let mut chars: Vec<char> = Vec::new();
    for c in it: s.chars()
        invariant
            chars@ == it.seq().take(it.index() as int),
            it.seq() == s@,
    {
        chars.push(c);
        assert(it.seq().take(it.index() + 1) == it.seq().take(it.index() as int).push(c));
    }
    assert(s@.take(s@.len() as int) == s@);
    chars
}

/// The text made of the characters from `from` up to `to`.
pub fn string_from(chars: &Vec<char>, from: usize, to: usize) -> (s: String)
    requires
        from <= to <= chars@.len(),
    ensures
        s@ == chars@.subrange(from as int, to as int),
{
    let mut s = String::new();
    let mut i: usize = from;
    while i < to
        invariant
            from <= i <= to <= chars@.len(),
            s@ == chars@.subrange(from as int, i as int),
        decreases to - i,
    {
        string_push(&mut s, chars[i]);
        assert(chars@.subrange(from as int, i + 1) == chars@.subrange(from as int, i as int).push(
            chars@[i as int],
        ));
        i += 1;
    }
    s
}

/// The length of the word at the start of `s`: of its longest prefix
/// without white space.
pub open spec fn word_len(s: Seq<char>) -> int
    decreases s.len(),
{
    if s.len() == 0 || white_space(s[0]) {
        0
    } else {
        1 + word_len(s.skip(1))
    }
}

/// The words of a text: its longest pieces without white space, in order.
pub open spec fn tokens(s: Seq<char>) -> Seq<Seq<char>>
    decreases s.len(),
{
    if s.len() == 0 {
        Seq::empty()
    } else if white_space(s[0]) {
        tokens(s.skip(1))
    } else if 0 < word_len(s) <= s.len() {
        seq![s.take(word_len(s))] + tokens(s.skip(word_len(s)))
    } else {
        Seq::empty()
    }
}

/// The views of a vector of texts.
pub open spec fn string_views(texts: Seq<String>) -> Seq<Seq<char>> {
    texts.map_values(|t: String| t@)
}

/// The word at the start of a text ends where the first white space
/// stands, or where the text ends.
pub proof fn lemma_word_len(s: Seq<char>, n: int)
    requires
        0 <= n <= s.len(),
        forall|k: int| 0 <= k < n ==> !white_space(s[k]),
        n == s.len() || white_space(s[n]),
    ensures
        word_len(s) == n,
    decreases n,
{
    if n > 0 {
        let rest = s.skip(1);
        assert forall|k: int| 0 <= k < n - 1 implies !white_space(rest[k]) by {
            assert(rest[k] == s[k + 1]);
        }
        if n - 1 < rest.len() {
            assert(rest[n - 1] == s[n]);
        }
        lemma_word_len(rest, n - 1);
    }
}

/// Whether a text is a word: not empty, and without white space.
pub open spec fn is_word(w: Seq<char>) -> bool {
    w.len() > 0 && forall|k: int| 0 <= k < w.len() ==> !white_space(w[k])
}

/// Every piece that the splitting gives is a word.
pub proof fn lemma_tokens_are_words(s: Seq<char>)
    ensures
        forall|i: int| 0 <= i < tokens(s).len() ==> is_word(#[trigger] tokens(s)[i]),
    decreases s.len(),
{
    if s.len() == 0 {
        assert(tokens(s).len() == 0);
    } else if white_space(s[0]) {
        lemma_tokens_are_words(s.skip(1));
        assert(tokens(s) == tokens(s.skip(1)));
    } else if 0 < word_len(s) <= s.len() {
        let n = word_len(s);
        lemma_tokens_are_words(s.skip(n));
        lemma_word_has_no_space(s, n);
        let rest = tokens(s.skip(n));
        assert(is_word(s.take(n)));
        assert forall|i: int| 0 <= i < tokens(s).len() implies is_word(#[trigger] tokens(s)[i]) by {
            if i == 0 {
                assert(tokens(s)[0] == s.take(n));
            } else {
                assert(tokens(s)[i] == rest[i - 1]);
            }
        }
    } else {
        assert(tokens(s).len() == 0);
    }
}

/// No character of the word at the start of a text is white space.
pub proof fn lemma_word_has_no_space(s: Seq<char>, n: int)
    requires
        0 <= n <= word_len(s),
    ensures
        n <= s.len(),
        forall|k: int| 0 <= k < n ==> !white_space(s[k]),
    decreases n,
{
    if n > 0 {
        lemma_word_has_no_space(s.skip(1), n - 1);
        assert forall|k: int| 0 <= k < n implies !white_space(s[k]) by {
            if k > 0 {
                assert(s.skip(1)[k - 1] == s[k]);
            }
        }
    }
}

/// Splits a text into its words: the pieces between white space.
pub fn split_whitespace(s: &str) -> (words: Vec<String>)
    ensures
        string_views(words@) == tokens(s@),
{
    let chars = chars_of(s);
    let n = chars.len();
    let mut words: Vec<String> = Vec::new();
    let mut i: usize = 0;
    assert(chars@.skip(0) == chars@);
    assert(string_views(words@) =~= Seq::<Seq<char>>::empty());
    while i < n
        invariant
            n == chars@.len(),
            0 <= i <= n,
            tokens(chars@) == string_views(words@) + tokens(chars@.skip(i as int)),
        decreases n - i,
    {
        let ghost rest = chars@.skip(i as int);
        assert(rest[0] == chars@[i as int]);
        if is_whitespace(chars[i]) {
            assert(rest.skip(1) == chars@.skip(i + 1));
            i += 1;
        } else {
            let mut j: usize = i + 1;
            while j < n && !is_whitespace(chars[j])
                invariant
                    n == chars@.len(),
                    i < j <= n,
                    forall|k: int| i <= k < j ==> !white_space(chars@[k]),
                decreases n - j,
            {
                j += 1;
            }
            let word = string_from(&chars, i, j);
            proof {
                assert forall|k: int| 0 <= k < j - i implies !white_space(rest[k]) by {
                    assert(rest[k] == chars@[i + k]);
                }
                if j < n {
                    assert(rest[j - i] == chars@[j as int]);
                }
                lemma_word_len(rest, j - i);
                assert(rest.take(j - i) == chars@.subrange(i as int, j as int));
                assert(rest.skip(j - i) == chars@.skip(j as int));
                let before = string_views(words@);
                assert(string_views(words@.push(word)) =~= before.push(word@));
                assert(before.push(word@) + tokens(chars@.skip(j as int)) =~= before + (seq![
                    word@,
                ] + tokens(chars@.skip(j as int))));
            }
            words.push(word);
            i = j;
        }
    }
    assert(chars@.skip(n as int).len() == 0);
    assert(string_views(words@) + Seq::<Seq<char>>::empty() == string_views(words@));
    words
}

} // verus!
