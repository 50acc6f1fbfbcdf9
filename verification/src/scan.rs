//! Scanning text: runs of characters of one class, prefixes, and lines.

use vstd::prelude::*;
use crate::text::{chars_of, is_whitespace, white_space};

verus! {

/// A class of characters.
#[derive(Debug, Clone, Copy, PartialEq, Eq, Structural)]
pub enum CharClass {
    /// The space character.
    Space,
    /// White space.
    White,
    /// A hyphen or a space.
    DashSpace,
    /// A hash sign, a space or a hyphen.
    HashSpaceDash,
    /// Anything but a line feed.
    NotNewline,
    /// Anything but a plus sign and a slash.
    NotSeparator,
    /// Anything but a double quote.
    NotQuote,
    /// Anything but an opening parenthesis.
    NotOpening,
    /// Anything but a closing parenthesis.
    NotClosing,
    /// A full stop or a space.
    DotSpace,
}

impl CharClass {
    /// Whether the character belongs to the class.
    pub open spec fn holds(self, c: char) -> bool {
        match self {
            CharClass::Space => c == ' ',
            CharClass::White => white_space(c),
            CharClass::DashSpace => c == '-' || c == ' ',
            CharClass::HashSpaceDash => c == '#' || c == ' ' || c == '-',
            CharClass::NotNewline => c != '\n',
            CharClass::NotSeparator => c != '+' && c != '/',
            CharClass::NotQuote => c != '"',
            CharClass::NotOpening => c != '(',
            CharClass::NotClosing => c != ')',
            CharClass::DotSpace => c == '.' || c == ' ',
        }
    }

    /// Whether the character belongs to the class.
    pub fn has(self, c: char) -> (b: bool)
        ensures
            b == self.holds(c),
    {
        match self {
            CharClass::Space => c == ' ',
            CharClass::White => is_whitespace(c),
            CharClass::DashSpace => c == '-' || c == ' ',
            CharClass::HashSpaceDash => c == '#' || c == ' ' || c == '-',
            CharClass::NotNewline => c != '\n',
            CharClass::NotSeparator => c != '+' && c != '/',
            CharClass::NotQuote => c != '"',
            CharClass::NotOpening => c != '(',
            CharClass::NotClosing => c != ')',
            CharClass::DotSpace => c == '.' || c == ' ',
        }
    }
}

/// How many characters at the start of `s` belong to the class.
pub open spec fn lead(s: Seq<char>, k: CharClass) -> int
    decreases s.len(),
{
    if s.len() > 0 && k.holds(s[0]) {
        1 + lead(s.skip(1), k)
    } else {
        0
    }
}

/// How many characters at the end of `s` belong to the class.
pub open spec fn trail(s: Seq<char>, k: CharClass) -> int
    decreases s.len(),
{
    if s.len() > 0 && k.holds(s.last()) {
        1 + trail(s.drop_last(), k)
    } else {
        0
    }
}

/// Whether `s` starts with `p`.
pub open spec fn starts_with(s: Seq<char>, p: Seq<char>) -> bool {
    p.len() <= s.len() && s.take(p.len() as int) == p
}

/// `s` without the white space at its end.
pub open spec fn trim_end(s: Seq<char>) -> Seq<char> {
    s.take(s.len() - trail(s, CharClass::White))
}

/// `s` without the white space at its start and at its end.
pub open spec fn trim(s: Seq<char>) -> Seq<char> {
    trim_end(s.skip(lead(s, CharClass::White)))
}

/// `s` without the characters of the class at its start and at its end.
pub open spec fn trim_matches(s: Seq<char>, k: CharClass) -> Seq<char> {
    let t = s.skip(lead(s, k));
    t.take(t.len() - trail(t, k))
}

/// Whether `s` holds white space only.
pub open spec fn is_blank(s: Seq<char>) -> bool {
    lead(s, CharClass::White) == s.len()
}

/// The run at the start of a text ends at the first character that is not
/// of the class, or where the text ends.
pub proof fn lemma_lead(s: Seq<char>, k: CharClass, n: int)
    requires
        0 <= n <= s.len(),
        forall|i: int| 0 <= i < n ==> k.holds(s[i]),
        n == s.len() || !k.holds(s[n]),
    ensures
        lead(s, k) == n,
    decreases n,
{
    if n > 0 {
        let rest = s.skip(1);
        assert forall|i: int| 0 <= i < n - 1 implies k.holds(rest[i]) by {
            assert(rest[i] == s[i + 1]);
        }
        if n - 1 < rest.len() {
            assert(rest[n - 1] == s[n]);
        }
        lemma_lead(rest, k, n - 1);
    }
}

/// The run at the end of a text starts behind the last character that is
/// not of the class, or where the text starts.
pub proof fn lemma_trail(s: Seq<char>, k: CharClass, n: int)
    requires
        0 <= n <= s.len(),
        forall|i: int| s.len() - n <= i < s.len() ==> k.holds(s[i]),
        n == s.len() || !k.holds(s[s.len() - n - 1]),
    ensures
        trail(s, k) == n,
    decreases n,
{
    if n > 0 {
        let rest = s.drop_last();
        assert forall|i: int| rest.len() - (n - 1) <= i < rest.len() implies k.holds(rest[i]) by {
            assert(rest[i] == s[i]);
        }
        if n - 1 < rest.len() {
            assert(rest[rest.len() - (n - 1) - 1] == s[s.len() - n - 1]);
        }
        lemma_trail(rest, k, n - 1);
    }
}

/// A run is no longer than the text, and the characters of a run at the
/// start belong to the class.
pub proof fn lemma_lead_bounds(s: Seq<char>, k: CharClass)
    ensures
        0 <= lead(s, k) <= s.len(),
        forall|i: int| 0 <= i < lead(s, k) ==> k.holds(#[trigger] s[i]),
        lead(s, k) < s.len() ==> !k.holds(s[lead(s, k)]),
    decreases s.len(),
{
    if s.len() > 0 && k.holds(s[0]) {
        let rest = s.skip(1);
        lemma_lead_bounds(rest, k);
        assert forall|i: int| 0 <= i < lead(s, k) implies k.holds(#[trigger] s[i]) by {
            if i > 0 {
                assert(rest[i - 1] == s[i]);
            }
        }
        if lead(s, k) < s.len() {
            assert(rest[lead(rest, k)] == s[lead(s, k)]);
        }
    }
}

/// A run at the end is no longer than the text.
pub proof fn lemma_trail_bounds(s: Seq<char>, k: CharClass)
    ensures
        0 <= trail(s, k) <= s.len(),
    decreases s.len(),
{
    if s.len() > 0 && k.holds(s.last()) {
        lemma_trail_bounds(s.drop_last(), k);
    }
}

/// The place behind the run of the class that starts at `from`.
pub fn skip_lead(chars: &Vec<char>, from: usize, to: usize, k: CharClass) -> (i: usize)
    requires
        from <= to <= chars@.len(),
    ensures
        from <= i <= to,
        i - from == lead(chars@.subrange(from as int, to as int), k),
{
    let mut i: usize = from;
    while i < to && k.has(chars[i])
        invariant
            from <= i <= to <= chars@.len(),
            forall|j: int| from <= j < i ==> k.holds(chars@[j]),
        decreases to - i,
    {
        i += 1;
    }
    proof {
        let s = chars@.subrange(from as int, to as int);
        assert forall|j: int| 0 <= j < i - from implies k.holds(s[j]) by {
            assert(s[j] == chars@[from + j]);
        }
        if i < to {
            assert(s[i - from] == chars@[i as int]);
        }
        lemma_lead(s, k, i - from);
    }
    i
}

/// The place where the run of the class that ends at `to` starts.
pub fn skip_trail(chars: &Vec<char>, from: usize, to: usize, k: CharClass) -> (j: usize)
    requires
        from <= to <= chars@.len(),
    ensures
        from <= j <= to,
        to - j == trail(chars@.subrange(from as int, to as int), k),
{
    let mut j: usize = to;
    while j > from && k.has(chars[j - 1])
        invariant
            from <= j <= to <= chars@.len(),
            forall|i: int| j <= i < to ==> k.holds(chars@[i]),
        decreases j - from,
    {
        j -= 1;
    }
    proof {
        let s = chars@.subrange(from as int, to as int);
        assert forall|i: int| s.len() - (to - j) <= i < s.len() implies k.holds(s[i]) by {
            assert(s[i] == chars@[from + i]);
        }
        if j > from {
            assert(s[s.len() - (to - j) - 1] == chars@[j - 1]);
        }
        lemma_trail(s, k, to - j);
    }
    j
}

/// Whether the characters from `from` up to `to` start with the characters
/// `p`.
pub fn has_prefix_chars(chars: &Vec<char>, from: usize, to: usize, p: &Vec<char>) -> (b: bool)
    requires
        from <= to <= chars@.len(),
    ensures
        b == starts_with(chars@.subrange(from as int, to as int), p@),
{
    let ghost s = chars@.subrange(from as int, to as int);
    if p.len() > to - from {
        return false;
    }
    let mut i: usize = 0;
    while i < p.len()
        invariant
            from <= to <= chars@.len(),
            p@.len() <= to - from,
            0 <= i <= p@.len(),
            s == chars@.subrange(from as int, to as int),
            forall|j: int| 0 <= j < i ==> s[j] == p@[j],
        decreases p@.len() - i,
    {
        assert(s[i as int] == chars@[from + i]);
        if chars[from + i] != p[i] {
            assert(s.take(p@.len() as int)[i as int] != p@[i as int]);
            return false;
        }
        i += 1;
    }
    assert(s.take(p@.len() as int) =~= p@);
    true
}

/// Whether the characters from `from` up to `to` start with `prefix`.
pub fn has_prefix(chars: &Vec<char>, from: usize, to: usize, prefix: &str) -> (b: bool)
    requires
        from <= to <= chars@.len(),
    ensures
        b == starts_with(chars@.subrange(from as int, to as int), prefix@),
{
    let p = chars_of(prefix);
    has_prefix_chars(chars, from, to, &p)
}

/// The place of the first occurrence of `p` in `s`, or the length of `s`
/// where `p` does not occur.
pub open spec fn find(s: Seq<char>, p: Seq<char>) -> int
    decreases s.len(),
{
    if starts_with(s, p) || s.len() == 0 {
        0
    } else {
        1 + find(s.skip(1), p)
    }
}

/// The first occurrence lies within the text, `p` stands there, and it
/// stands at no earlier place.
pub proof fn lemma_find(s: Seq<char>, p: Seq<char>)
    ensures
        0 <= find(s, p) <= s.len(),
        find(s, p) < s.len() ==> starts_with(s.skip(find(s, p)), p),
        forall|i: int| 0 <= i < find(s, p) ==> !starts_with(#[trigger] s.skip(i), p),
    decreases s.len(),
{
    if starts_with(s, p) || s.len() == 0 {
        assert(s.skip(0) == s);
    } else {
        let rest = s.skip(1);
        lemma_find(rest, p);
        let n = find(rest, p);
        assert(rest.skip(n) == s.skip(n + 1));
        assert forall|i: int| 0 <= i < find(s, p) implies !starts_with(#[trigger] s.skip(i), p) by {
            if i == 0 {
                assert(s.skip(0) == s);
            } else {
                assert(rest.skip(i - 1) == s.skip(i));
            }
        }
    }
}

/// The place of the first occurrence of `p` between `from` and `to`, or
/// `to` where there is none.
pub fn find_in(chars: &Vec<char>, from: usize, to: usize, p: &Vec<char>) -> (i: usize)
    requires
        from <= to <= chars@.len(),
    ensures
        from <= i <= to,
        i - from == find(chars@.subrange(from as int, to as int), p@),
{
    let ghost s = chars@.subrange(from as int, to as int);
    let mut i: usize = from;
    assert(s.skip(0) == s);
    while i < to && !has_prefix_chars(chars, i, to, p)
        invariant
            from <= i <= to <= chars@.len(),
            s == chars@.subrange(from as int, to as int),
            find(s, p@) == (i - from) + find(s.skip(i - from), p@),
        decreases to - i,
    {
        proof {
            let t = s.skip(i - from);
            assert(t == chars@.subrange(i as int, to as int));
            assert(t.skip(1) == s.skip(i + 1 - from));
        }
        i += 1;
    }
    proof {
        let t = s.skip(i - from);
        assert(t == chars@.subrange(i as int, to as int));
    }
    i
}

/// The ends of the text between `from` and `to` without the white space
/// around it.
pub fn trim_range(chars: &Vec<char>, from: usize, to: usize) -> (r: (usize, usize))
    requires
        from <= to <= chars@.len(),
    ensures
        from <= r.0 <= r.1 <= to,
        chars@.subrange(r.0 as int, r.1 as int) == trim(chars@.subrange(from as int, to as int)),
{
    let a = skip_lead(chars, from, to, CharClass::White);
    let b = skip_trail(chars, a, to, CharClass::White);
    proof {
        let s = chars@.subrange(from as int, to as int);
        assert(s.skip(a - from) == chars@.subrange(a as int, to as int));
        assert(chars@.subrange(a as int, to as int).take(b - a) == chars@.subrange(
            a as int,
            b as int,
        ));
    }
    (a, b)
}

/// The place where the white space at the end of the text between `from`
/// and `to` starts.
pub fn trim_end_range(chars: &Vec<char>, from: usize, to: usize) -> (j: usize)
    requires
        from <= to <= chars@.len(),
    ensures
        from <= j <= to,
        chars@.subrange(from as int, j as int) == trim_end(chars@.subrange(from as int, to as int)),
{
    let j = skip_trail(chars, from, to, CharClass::White);
    assert(chars@.subrange(from as int, to as int).take(j - from) == chars@.subrange(
        from as int,
        j as int,
    ));
    j
}

/// A line without the carriage return at its end, if it has one.
pub open spec fn strip_cr(line: Seq<char>) -> Seq<char> {
    if line.len() > 0 && line.last() == '\r' {
        line.drop_last()
    } else {
        line
    }
}

/// The lines of a text. A line ends with a line feed, or with a carriage
/// return and a line feed, which do not belong to it; the last line may end
/// with the text.
pub open spec fn lines(s: Seq<char>) -> Seq<Seq<char>>
    decreases s.len(),
{
    if s.len() == 0 {
        Seq::empty()
    } else {
        let n = lead(s, CharClass::NotNewline);
        if 0 <= n < s.len() {
            seq![strip_cr(s.take(n))] + lines(s.skip(n + 1))
        } else {
            seq![s]
        }
    }
}


/// The text without the characters of the class at its start and at its
/// end.
pub fn trimmed(text: &str, k: CharClass) -> (r: String)
    ensures
        r@ == trim_matches(text@, k),
{
    let chars = chars_of(text);
    let n = chars.len();
    let a = skip_lead(&chars, 0, n, k);
    let b = skip_trail(&chars, a, n, k);
    proof {
        assert(chars@.subrange(0, n as int) == chars@);
        assert(chars@.skip(a as int) == chars@.subrange(a as int, n as int));
        assert(chars@.subrange(a as int, n as int).take(b - a) == chars@.subrange(
            a as int,
            b as int,
        ));
    }
    crate::text::string_from(&chars, a, b)
}

/// The lines of a text.
pub fn split_lines(text: &str) -> (r: Vec<String>)
    ensures
        crate::text::string_views(r@) == lines(text@),
{
    let chars = chars_of(text);
    let n = chars.len();
    let mut r: Vec<String> = Vec::new();
    let mut pos: usize = 0;
    proof {
        assert(chars@.subrange(0, n as int) == chars@);
        assert(crate::text::string_views(r@) =~= Seq::<Seq<char>>::empty());
        assert(Seq::<Seq<char>>::empty() + lines(chars@) == lines(chars@));
    }
    while pos < n
        invariant
            n == chars@.len(),
            chars@ == text@,
            0 <= pos <= n,
            lines(text@) == crate::text::string_views(r@) + lines(
                chars@.subrange(pos as int, n as int),
            ),
        decreases n - pos,
    {
        let ghost s = chars@.subrange(pos as int, n as int);
        let ghost before = crate::text::string_views(r@);
        let end = skip_lead(&chars, pos, n, CharClass::NotNewline);
        let stop = if end < n && end > pos && chars[end - 1] == '\r' {
            end - 1
        } else {
            end
        };
        let line = crate::text::string_from(&chars, pos, stop);
        proof {
            assert(crate::text::string_views(r@.push(line)) =~= before.push(line@));
            if end < n {
                let whole = s.take(end - pos);
                assert(whole == chars@.subrange(pos as int, end as int));
                if end > pos {
                    assert(whole.last() == chars@[end - 1]);
                    assert(whole.drop_last() == chars@.subrange(pos as int, end - 1));
                }
                assert(strip_cr(whole) == line@);
                assert(s.skip(end - pos + 1) == chars@.subrange(end + 1, n as int));
                assert(before + (seq![line@] + lines(chars@.subrange(end + 1, n as int)))
                    == before.push(line@) + lines(chars@.subrange(end + 1, n as int)));
            } else {
                assert(chars@.subrange(n as int, n as int).len() == 0);
                assert(before + seq![s] == before.push(line@) + Seq::<Seq<char>>::empty());
            }
        }
        r.push(line);
        pos = if end < n {
            end + 1
        } else {
            n
        };
    }
    proof {
        assert(chars@.subrange(n as int, n as int).len() == 0);
        assert(crate::text::string_views(r@) + Seq::<Seq<char>>::empty()
            == crate::text::string_views(r@));
    }
    r
}

} // verus!
