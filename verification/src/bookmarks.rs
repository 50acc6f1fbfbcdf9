//! Reading bookmarks out of text: outlines of tags and links, and the
//! links of a piece of HTML.

use vstd::prelude::*;
use crate::objects::Bookmark;
use crate::scan::{
    find, find_in, has_prefix, is_blank, lead, lines, skip_lead, split_lines, starts_with,
    strip_cr, trim, trim_end, trim_end_range, trim_matches, trim_range, trimmed, CharClass,
};
use crate::utility::DragDropPaste;
use crate::text::{chars_of, string_from, string_views};

verus! {

/// A value with the names of the tags it stands under.
#[derive(Debug, Clone)]
pub struct Tagged<T> {
    pub data: T,
    pub tags: Vec<String>,
}

/// A value with what is known about it.
#[derive(Debug, Clone)]
pub struct WithContext<T, C> {
    pub data: T,
    pub context: C,
}

/// A tagged text as a mathematical value.
pub struct TaggedText {
    pub data: Seq<char>,
    pub tags: Seq<Seq<char>>,
}

/// The view of a tagged text.
pub open spec fn tagged_view(t: Tagged<String>) -> TaggedText {
    TaggedText { data: t.data@, tags: string_views(t.tags@) }
}

/// The views of tagged texts.
pub open spec fn tagged_views(v: Seq<Tagged<String>>) -> Seq<TaggedText> {
    v.map_values(|t: Tagged<String>| tagged_view(t))
}

/// A line that could not be read, as a mathematical value: the line with
/// its tags, and what is known about it.
pub struct UnreadLine {
    pub data: TaggedText,
    pub context: Seq<char>,
}

/// The views of lines that could not be read.
pub open spec fn unread_views(v: Seq<WithContext<Tagged<String>, String>>) -> Seq<UnreadLine> {
    v.map_values(
        |w: WithContext<Tagged<String>, String>|
            UnreadLine { data: tagged_view(w.data), context: w.context@ },
    )
}

/// What a line that could not be read says of itself.
pub open spec fn unread_context() -> Seq<char> {
    "don't know how to parse this line"@
}

/// The names in the text of a tag line: the pieces between plus signs and
/// slashes, without the white space around them; empty pieces do not
/// count.
pub open spec fn tag_names(t: Seq<char>) -> Seq<Seq<char>>
    decreases t.len(),
{
    let n = lead(t, CharClass::NotSeparator);
    let piece = trim(t.take(n));
    let head = if piece.len() > 0 {
        seq![piece]
    } else {
        Seq::empty()
    };
    if 0 <= n < t.len() {
        head + tag_names(t.skip(n + 1))
    } else {
        head
    }
}

/// What a line of an outline is.
pub enum LineKind {
    /// A line that names tags for the lines below it.
    Tags,
    /// A line that holds a link.
    Link,
    /// A line of neither kind.
    Unknown,
}

/// What a line is, by how it starts behind its indentation: a heading or a
/// list item names tags, unless the item holds a link.
pub open spec fn line_kind(rest: Seq<char>) -> LineKind {
    let body = rest.skip(lead(rest, CharClass::DashSpace));
    if starts_with(rest, "#"@) {
        LineKind::Tags
    } else if starts_with(body, "http://"@) || starts_with(body, "https://"@) || starts_with(
        rest,
        "- ["@,
    ) {
        LineKind::Link
    } else if starts_with(rest, "- "@) {
        LineKind::Tags
    } else {
        LineKind::Unknown
    }
}

/// The tags of one level of an outline, with the indentation of the line
/// that named them.
pub struct LevelView {
    pub indent: int,
    pub tags: Seq<Seq<char>>,
}

/// What has been read of an outline.
pub struct ParseState {
    /// The levels that the next line may stand under, outermost first.
    pub stack: Seq<LevelView>,
    /// The lines that hold a link, with their tags.
    pub links: Seq<TaggedText>,
    /// The lines that could not be read, with their tags.
    pub unknown: Seq<UnreadLine>,
}

/// The levels that a line with the indentation `indent` stands under:
/// those that are indented less.
pub open spec fn unwind(stack: Seq<LevelView>, indent: int) -> Seq<LevelView>
    decreases stack.len(),
{
    if stack.len() > 0 && stack.last().indent >= indent {
        unwind(stack.drop_last(), indent)
    } else {
        stack
    }
}

/// The tags of all levels, outermost first.
pub open spec fn flat(stack: Seq<LevelView>) -> Seq<Seq<char>>
    decreases stack.len(),
{
    if stack.len() == 0 {
        Seq::empty()
    } else {
        flat(stack.drop_last()) + stack.last().tags
    }
}

/// What has been read after one more line. A blank line changes nothing.
/// Any other line closes the levels that are indented as much as it is or
/// more; then a tag line opens a level, and a line of another kind is kept
/// with the tags of the levels that are open.
pub open spec fn step(state: ParseState, line: Seq<char>) -> ParseState {
    if is_blank(line) {
        state
    } else {
        let indent = lead(line, CharClass::Space);
        let stack = unwind(state.stack, indent);
        let rest = line.skip(indent);
        match line_kind(rest) {
            LineKind::Tags => ParseState {
                stack: stack.push(
                    LevelView {
                        indent,
                        tags: tag_names(trim_end(rest.skip(lead(rest, CharClass::HashSpaceDash)))),
                    },
                ),
                links: state.links,
                unknown: state.unknown,
            },
            LineKind::Link => ParseState {
                stack,
                links: state.links.push(TaggedText { data: rest, tags: flat(stack) }),
                unknown: state.unknown,
            },
            LineKind::Unknown => ParseState {
                stack,
                links: state.links,
                unknown: state.unknown.push(
                    UnreadLine {
                        data: TaggedText { data: trim(rest), tags: flat(stack) },
                        context: unread_context(),
                    },
                ),
            },
        }
    }
}

/// What has been read after the lines of the text `s`.
pub open spec fn run(state: ParseState, s: Seq<char>) -> ParseState
    decreases s.len(),
{
    if s.len() == 0 {
        state
    } else {
        let n = lead(s, CharClass::NotNewline);
        if 0 <= n < s.len() {
            run(step(state, strip_cr(s.take(n))), s.skip(n + 1))
        } else {
            step(state, s)
        }
    }
}

/// What has been read after the lines `ls`.
pub open spec fn fold_lines(state: ParseState, ls: Seq<Seq<char>>) -> ParseState
    decreases ls.len(),
{
    if ls.len() == 0 {
        state
    } else {
        fold_lines(step(state, ls[0]), ls.skip(1))
    }
}

/// Reading a text is reading its lines, one after the other.
pub proof fn lemma_run_reads_lines(state: ParseState, s: Seq<char>)
    ensures
        run(state, s) == fold_lines(state, crate::scan::lines(s)),
    decreases s.len(),
{
    let ls = crate::scan::lines(s);
    if s.len() > 0 {
        let n = lead(s, CharClass::NotNewline);
        if 0 <= n < s.len() {
            let first = strip_cr(s.take(n));
            let rest = crate::scan::lines(s.skip(n + 1));
            assert(ls == seq![first] + rest);
            assert(ls[0] == first);
            assert(ls.skip(1) == rest);
            lemma_run_reads_lines(step(state, first), s.skip(n + 1));
        } else {
            assert(ls == seq![s]);
            assert(ls[0] == s);
            assert(ls.skip(1).len() == 0);
            assert(fold_lines(step(state, s), ls.skip(1)) == step(state, s));
        }
    }
}

/// Nothing read yet.
pub open spec fn nothing_read() -> ParseState {
    ParseState { stack: Seq::empty(), links: Seq::empty(), unknown: Seq::empty() }
}

/// The names in the text of a tag line that stands between `from` and
/// `to`.
fn names_in(chars: &Vec<char>, from: usize, to: usize) -> (names: Vec<String>)
    requires
        from <= to <= chars@.len(),
    ensures
        string_views(names@) == tag_names(chars@.subrange(from as int, to as int)),
{
    let mut names: Vec<String> = Vec::new();
    let mut pos: usize = from;
    let mut done = false;
    assert(string_views(names@) =~= Seq::<Seq<char>>::empty());
    assert(Seq::<Seq<char>>::empty() + tag_names(chars@.subrange(from as int, to as int))
        == tag_names(chars@.subrange(from as int, to as int)));
    while !done
        invariant
            from <= pos <= to <= chars@.len(),
            !done ==> tag_names(chars@.subrange(from as int, to as int)) == string_views(names@)
                + tag_names(chars@.subrange(pos as int, to as int)),
            done ==> tag_names(chars@.subrange(from as int, to as int)) == string_views(names@),
        decreases to - pos + if done { 0int } else { 1int },
    {
        let ghost t = chars@.subrange(pos as int, to as int);
        let ghost before = string_views(names@);
        let end = skip_lead(chars, pos, to, CharClass::NotSeparator);
        let (a, b) = trim_range(chars, pos, end);
        proof {
            assert(t.take(end - pos) == chars@.subrange(pos as int, end as int));
        }
        if b > a {
            let name = string_from(chars, a, b);
            proof {
                assert(string_views(names@.push(name)) =~= before.push(name@));
            }
            names.push(name);
        }
        let ghost head = string_views(names@);
        if end == to {
            proof {
                assert(head == before + tag_names(t));
            }
            done = true;
        } else {
            proof {
                assert(t.skip(end - pos + 1) == chars@.subrange(end + 1, to as int));
                let rest = tag_names(chars@.subrange(end + 1, to as int));
                if b > a {
                    assert(before.push(chars@.subrange(a as int, b as int)) + rest == before + (
                    seq![chars@.subrange(a as int, b as int)] + rest));
                } else {
                    assert(before + (Seq::<Seq<char>>::empty() + rest) == before + rest);
                }
            }
            pos = end + 1;
        }
    }
    names
}

/// One level of an outline.
struct Level {
    indent: usize,
    tags: Vec<String>,
}

/// What has been read of an outline.
struct Parser {
    stack: Vec<Level>,
    links: Vec<Tagged<String>>,
    unknown: Vec<WithContext<Tagged<String>, String>>,
}

/// The view of the levels.
spec fn level_views(stack: Seq<Level>) -> Seq<LevelView> {
    stack.map_values(|l: Level| LevelView { indent: l.indent as int, tags: string_views(l.tags@) })
}

impl Parser {
    /// What has been read, as a mathematical value.
    spec fn state(self) -> ParseState {
        ParseState {
            stack: level_views(self.stack@),
            links: tagged_views(self.links@),
            unknown: unread_views(self.unknown@),
        }
    }

    /// The tags of the open levels.
    fn open_tags(&self) -> (tags: Vec<String>)
        ensures
            string_views(tags@) == flat(level_views(self.stack@)),
    {
        let ghost levels = level_views(self.stack@);
        let mut tags: Vec<String> = Vec::new();
        let mut i: usize = 0;
        assert(levels.take(0).len() == 0);
        assert(string_views(tags@) =~= flat(levels.take(0)));
        while i < self.stack.len()
            invariant
                levels == level_views(self.stack@),
                0 <= i <= self.stack@.len(),
                string_views(tags@) == flat(levels.take(i as int)),
            decreases self.stack@.len() - i,
        {
            let level = &self.stack[i];
            let ghost before = string_views(tags@);
            let mut j: usize = 0;
            assert(level.tags@.take(0).len() == 0);
            assert(before + string_views(level.tags@.take(0)) =~= before);
            while j < level.tags.len()
                invariant
                    0 <= j <= level.tags@.len(),
                    string_views(tags@) == before + string_views(level.tags@.take(j as int)),
                decreases level.tags@.len() - j,
            {
                let ghost sofar = tags@;
                let tag = level.tags[j].clone();
                tags.push(tag);
                proof {
                    assert(level.tags@.take(j + 1) == level.tags@.take(j as int).push(
                        level.tags@[j as int],
                    ));
                    assert(string_views(sofar.push(tag)) =~= string_views(sofar).push(tag@));
                    assert(string_views(level.tags@.take(j + 1)) =~= string_views(
                        level.tags@.take(j as int),
                    ).push(tag@));
                    assert(before + string_views(level.tags@.take(j as int)).push(tag@) =~= (before
                        + string_views(level.tags@.take(j as int))).push(tag@));
                }
                j += 1;
            }
            proof {
                assert(level.tags@.take(j as int) == level.tags@);
                assert(levels.take(i + 1).drop_last() == levels.take(i as int));
                assert(levels.take(i + 1).last().tags == string_views(level.tags@));
            }
            i += 1;
        }
        assert(levels.take(i as int) == levels);
        tags
    }

    /// Closes the levels that are indented as much as `indent` or more.
    fn close_levels(&mut self, indent: usize)
        ensures
            level_views(final(self).stack@) == unwind(level_views(old(self).stack@), indent as int),
            final(self).links == old(self).links,
            final(self).unknown == old(self).unknown,
    {
        let ghost start = level_views(self.stack@);
        while self.stack.len() > 0 && self.stack[self.stack.len() - 1].indent >= indent
            invariant
                unwind(level_views(self.stack@), indent as int) == unwind(start, indent as int),
                self.links == old(self).links,
                self.unknown == old(self).unknown,
            decreases self.stack@.len(),
        {
            let ghost before = level_views(self.stack@);
            self.stack.pop();
            assert(level_views(self.stack@) =~= before.drop_last());
        }
        proof {
            let views = level_views(self.stack@);
            if views.len() > 0 {
                assert(views.last().indent == self.stack@[self.stack@.len() - 1].indent);
            }
        }
    }

    /// Reads the line that stands between `from` and `to`.
    fn read_line(&mut self, chars: &Vec<char>, from: usize, to: usize)
        requires
            from <= to <= chars@.len(),
        ensures
            final(self).state() == step(old(self).state(), chars@.subrange(from as int, to as int)),
    {
        let ghost line = chars@.subrange(from as int, to as int);
        let blank = skip_lead(chars, from, to, CharClass::White);
        if blank == to {
            return ;
        }
        let start = skip_lead(chars, from, to, CharClass::Space);
        let indent = start - from;
        self.close_levels(indent);
        let ghost rest = line.skip(indent as int);
        let ghost stack = unwind(old(self).state().stack, indent as int);
        proof {
            assert(rest == chars@.subrange(start as int, to as int));
        }
        let body = skip_lead(chars, start, to, CharClass::DashSpace);
        proof {
            assert(rest.skip(body - start) == chars@.subrange(body as int, to as int));
            reveal_strlit("#");
        }
        let heading = has_prefix(chars, start, to, "#");
        let link = has_prefix(chars, body, to, "http://") || has_prefix(chars, body, to, "https://")
            || has_prefix(chars, start, to, "- [");
        let item = has_prefix(chars, start, to, "- ");
        if heading || (!link && item) {
            let name_start = skip_lead(chars, start, to, CharClass::HashSpaceDash);
            let name_end = trim_end_range(chars, name_start, to);
            proof {
                assert(rest.skip(name_start - start) == chars@.subrange(name_start as int, to as int));
            }
            let tags = names_in(chars, name_start, name_end);
            let ghost before = self.stack@;
            let level = Level { indent, tags };
            self.stack.push(level);
            proof {
                assert(level_views(before.push(level)) =~= level_views(before).push(
                    LevelView { indent: indent as int, tags: string_views(tags@) },
                ));
            }
        } else if link {
            let tags = self.open_tags();
            let data = string_from(chars, start, to);
            let ghost before = self.links@;
            let entry = Tagged { data, tags };
            self.links.push(entry);
            proof {
                assert(tagged_views(before.push(entry)) =~= tagged_views(before).push(
                    tagged_view(entry),
                ));
            }
        } else {
            let tags = self.open_tags();
            let (a, b) = trim_range(chars, start, to);
            let data = string_from(chars, a, b);
            let ghost before = self.unknown@;
            let entry = WithContext {
                context: "don't know how to parse this line".to_owned(),
                data: Tagged { data, tags },
            };
            self.unknown.push(entry);
            proof {
                assert(unread_views(before.push(entry)) =~= unread_views(before).push(
                    UnreadLine { data: tagged_view(entry.data), context: unread_context() },
                ));
            }
        }
    }
}

/// Reads an outline of tags and links.
///
/// A line that starts with `#`, or a list item that holds no link, names
/// tags, parted by `+` or `/`, for the lines that follow it and are
/// indented more. A line that starts with a link, bare or as a list item,
/// or with `- [`, holds a link. Any other line that is not blank could not
/// be read, and says so in its context.
///
/// The first part of the result holds the links, the second the lines that
/// could not be read, each with the names of the tags it stands under.
pub fn tagged_strings_from_text(text: &str) -> (r: (
    Vec<Tagged<String>>,
    Vec<WithContext<Tagged<String>, String>>,
))
    ensures
        tagged_views(r.0@) == run(nothing_read(), text@).links,
        unread_views(r.1@) == run(nothing_read(), text@).unknown,
{
    let chars = chars_of(text);
    let n = chars.len();
    let mut parser = Parser { stack: Vec::new(), links: Vec::new(), unknown: Vec::new() };
    let mut pos: usize = 0;
    proof {
        assert(parser.state().stack =~= Seq::<LevelView>::empty());
        assert(parser.state().links =~= Seq::<TaggedText>::empty());
        assert(parser.state().unknown =~= Seq::<UnreadLine>::empty());
        assert(chars@.subrange(0, n as int) == chars@);
    }
    while pos < n
        invariant
            n == chars@.len(),
            chars@ == text@,
            0 <= pos <= n,
            run(parser.state(), chars@.subrange(pos as int, n as int)) == run(
                nothing_read(),
                text@,
            ),
        decreases n - pos,
    {
        let ghost s = chars@.subrange(pos as int, n as int);
        let end = skip_lead(&chars, pos, n, CharClass::NotNewline);
        if end == n {
            parser.read_line(&chars, pos, n);
            proof {
                assert(chars@.subrange(n as int, n as int).len() == 0);
            }
            pos = n;
        } else {
            let stop = if end > pos && chars[end - 1] == '\r' {
                end - 1
            } else {
                end
            };
            proof {
                let line = s.take(end - pos);
                assert(line == chars@.subrange(pos as int, end as int));
                if end > pos {
                    assert(line.last() == chars@[end - 1]);
                    assert(line.drop_last() == chars@.subrange(pos as int, end - 1));
                }
                assert(strip_cr(line) == chars@.subrange(pos as int, stop as int));
                assert(s.skip(end - pos + 1) == chars@.subrange(end + 1, n as int));
            }
            parser.read_line(&chars, pos, stop);
            pos = end + 1;
        }
    }
    assert(chars@.subrange(n as int, n as int).len() == 0);
    (parser.links, parser.unknown)
}


/// The texts between double quotes that follow the occurrences of `href`
/// in `h`, one for each occurrence, in order. The reading stops at the
/// first occurrence that no two double quotes follow.
pub open spec fn hrefs(h: Seq<char>) -> Seq<Seq<char>>
    decreases h.len(),
{
    let start = find(h, "href"@);
    if 0 <= start < h.len() {
        let after = h.skip(start + 1);
        let opening = lead(after, CharClass::NotQuote);
        if 0 <= opening < after.len() {
            let inside = after.skip(opening + 1);
            let closing = lead(inside, CharClass::NotQuote);
            if 0 <= closing < inside.len() {
                seq![inside.take(closing)] + hrefs(after)
            } else {
                Seq::empty()
            }
        } else {
            Seq::empty()
        }
    } else {
        Seq::empty()
    }
}

/// The texts of `s` without those that stand at an earlier place already.
pub open spec fn distinct(s: Seq<Seq<char>>) -> Seq<Seq<char>>
    decreases s.len(),
{
    if s.len() == 0 {
        Seq::empty()
    } else if distinct(s.drop_last()).contains(s.last()) {
        distinct(s.drop_last())
    } else {
        distinct(s.drop_last()).push(s.last())
    }
}

/// The distinct texts hold each text of `s`, no other text, and none
/// twice.
pub proof fn lemma_distinct(s: Seq<Seq<char>>)
    ensures
        distinct(s).no_duplicates(),
        forall|t: Seq<char>| distinct(s).contains(t) <==> s.contains(t),
    decreases s.len(),
{
    if s.len() > 0 {
        let shorter = s.drop_last();
        let d = distinct(shorter);
        lemma_distinct(shorter);
        assert(s == shorter.push(s.last()));
        assert forall|t: Seq<char>| distinct(s).contains(t) <==> s.contains(t) by {
            if distinct(s).contains(t) {
                let k = choose|k: int| 0 <= k < distinct(s).len() && distinct(s)[k] == t;
                if k < d.len() {
                    assert(d[k] == t);
                    assert(d.contains(t));
                    assert(shorter.contains(t));
                    let j = choose|j: int| 0 <= j < shorter.len() && shorter[j] == t;
                    assert(s[j] == t);
                } else {
                    assert(s[s.len() - 1] == t);
                }
            }
            if s.contains(t) {
                let j = choose|j: int| 0 <= j < s.len() && s[j] == t;
                if j < shorter.len() {
                    assert(shorter[j] == t);
                    assert(shorter.contains(t));
                    assert(d.contains(t));
                    let k = choose|k: int| 0 <= k < d.len() && d[k] == t;
                    assert(distinct(s)[k] == t);
                } else if d.contains(t) {
                } else {
                    assert(distinct(s)[distinct(s).len() - 1] == t);
                }
            }
        }
    }
}

/// Whether one of the texts is `t`.
fn holds_text(texts: &Vec<String>, t: &String) -> (b: bool)
    ensures
        b == string_views(texts@).contains(t@),
{
    let mut i: usize = 0;
    while i < texts.len()
        invariant
            0 <= i <= texts@.len(),
            forall|k: int| 0 <= k < i ==> texts@[k]@ != t@,
        decreases texts@.len() - i,
    {
        if texts[i] == *t {
            assert(string_views(texts@)[i as int] == t@);
            return true;
        }
        i += 1;
    }
    proof {
        let views = string_views(texts@);
        if views.contains(t@) {
            let k = choose|k: int| 0 <= k < views.len() && views[k] == t@;
            assert(texts@[k]@ == t@);
        }
    }
    false
}

/// The addresses that the `href` attributes of a piece of HTML hold, each
/// once, in the order in which they first occur. The HTML need not be well
/// formed.
pub fn get_urls_from_hrefs(h: &str) -> (urls: Vec<String>)
    ensures
        string_views(urls@) == distinct(hrefs(h@)),
{
    let chars = chars_of(h);
    let n = chars.len();
    let pattern = chars_of("href");
    let mut urls: Vec<String> = Vec::new();
    let mut pos: usize = 0;
    let mut done = false;
    let ghost mut seen = Seq::<Seq<char>>::empty();
    proof {
        assert(chars@.subrange(0, n as int) == chars@);
        assert(string_views(urls@) =~= distinct(seen));
        assert(seen + hrefs(chars@) == hrefs(chars@));
    }
    while !done
        invariant
            n == chars@.len(),
            chars@ == h@,
            pattern@ == "href"@,
            0 <= pos <= n,
            string_views(urls@) == distinct(seen),
            !done ==> hrefs(h@) == seen + hrefs(chars@.subrange(pos as int, n as int)),
            done ==> hrefs(h@) == seen,
        decreases n - pos + if done { 0int } else { 1int },
    {
        let ghost s = chars@.subrange(pos as int, n as int);
        let start = find_in(&chars, pos, n, &pattern);
        let mut found = false;
        if start < n {
            let opening = skip_lead(&chars, start + 1, n, CharClass::NotQuote);
            proof {
                assert(s.skip(start - pos + 1) == chars@.subrange(start + 1, n as int));
            }
            if opening < n {
                let closing = skip_lead(&chars, opening + 1, n, CharClass::NotQuote);
                proof {
                    let after = chars@.subrange(start + 1, n as int);
                    assert(after.skip(opening - start) == chars@.subrange(opening + 1, n as int));
                    let inside = chars@.subrange(opening + 1, n as int);
                    assert(inside.take(closing - opening - 1) == chars@.subrange(
                        opening + 1,
                        closing as int,
                    ));
                }
                if closing < n {
                    let url = string_from(&chars, opening + 1, closing);
                    let known = holds_text(&urls, &url);
                    proof {
                        let before = urls@;
                        let next = seen.push(url@);
                        assert(next.drop_last() == seen);
                        assert(string_views(before.push(url)) =~= string_views(before).push(url@));
                        assert(seen + (seq![url@] + hrefs(chars@.subrange(start + 1, n as int)))
                            == next + hrefs(chars@.subrange(start + 1, n as int)));
                        seen = next;
                    }
                    if !known {
                        urls.push(url);
                    }
                    found = true;
                }
            }
        }
        if found {
            pos = start + 1;
        } else {
            proof {
                assert(hrefs(s) == Seq::<Seq<char>>::empty());
                assert(seen + Seq::<Seq<char>>::empty() == seen);
            }
            done = true;
        }
    }
    urls
}

/// The title and the address of a list item that holds a link in the form
/// `- [title](address)`: the title starts behind the first bracket and ends
/// where `](` first stands; the address ends at the first closing
/// parenthesis behind that place.
pub open spec fn markdown_link(u: Seq<char>) -> Option<(Seq<char>, Seq<char>)> {
    let title_end = find(u, "]("@);
    let tail = u.skip(title_end);
    let url_end = lead(tail, CharClass::NotClosing);
    if starts_with(u, "- ["@) && 3 <= title_end < u.len() && 2 <= url_end < tail.len() {
        Some((u.subrange(3, title_end), tail.subrange(2, url_end)))
    } else {
        None
    }
}

/// Whether a text is an address that can be asked for.
pub uninterp spec fn valid_uri(text: Seq<char>) -> bool;

/// Calls `http::Uri::from_str`, which parses the text as an address, and
/// tells whether it succeeded.
#[verifier::external_body]
fn uri_parses(text: &str) -> (b: bool)
    ensures
        b == valid_uri(text@),
{
    text.parse::<http::Uri>().is_ok()
}

/// The bookmark of a link with a title and an address that parses; none
/// for an address that does not.
pub fn bookmark_of_link(title: String, url: String, parses: bool) -> (b: Option<Bookmark>)
    ensures
        parses ==> b is Some && b->Some_0.url == url && b->Some_0.title == Some(title)
            && b->Some_0.description is None,
        !parses ==> b is None,
{
    if parses {
        Some(Bookmark { url, title: Some(title), description: None })
    } else {
        None
    }
}

/// Reads the title and the address of a list item that holds a link in the
/// form `- [title](address)`.
pub fn link_of_markdown(u: &str) -> (r: Option<(String, String)>)
    ensures
        match r {
            Some((title, url)) => markdown_link(u@) == Some((title@, url@)),
            None => markdown_link(u@).is_none(),
        },
{
    let chars = chars_of(u);
    let n = chars.len();
    proof {
        assert(chars@.subrange(0, n as int) == chars@);
    }
    if !has_prefix(&chars, 0, n, "- [") {
        return None;
    }
    let pattern = chars_of("](");
    let title_end = find_in(&chars, 0, n, &pattern);
    if title_end >= n || title_end < 3 {
        return None;
    }
    let url_end = skip_lead(&chars, title_end, n, CharClass::NotClosing);
    proof {
        assert(chars@.skip(title_end as int) == chars@.subrange(title_end as int, n as int));
    }
    if url_end >= n || url_end - title_end < 2 {
        return None;
    }
    let title = string_from(&chars, 3, title_end);
    let url = string_from(&chars, title_end + 2, url_end);
    proof {
        let tail = chars@.skip(title_end as int);
        assert(tail.subrange(2, url_end - title_end) == chars@.subrange(
            title_end + 2,
            url_end as int,
        ));
    }
    Some((title, url))
}

/// The bookmark of a list item that holds a link in the form
/// `- [title](address)`, where the address parses.
pub fn bookmark_from_markdown_url(u: &str) -> (b: Option<Bookmark>)
    ensures
        match markdown_link(u@) {
            Some((title, url)) => if valid_uri(url) {
                b is Some && b->Some_0.url@ == url && b->Some_0.title is Some
                    && b->Some_0.title->Some_0@ == title && b->Some_0.description is None
            } else {
                b is None
            },
            None => b is None,
        },
{
    match link_of_markdown(u) {
        Some((title, url)) => {
            let parses = uri_parses(url.as_str());
            bookmark_of_link(title, url, parses)
        },
        None => None,
    }
}


/// The texts without those that stand at an earlier place already.
pub fn distinct_texts(texts: &Vec<String>) -> (r: Vec<String>)
    ensures
        string_views(r@) == distinct(string_views(texts@)),
{
    let ghost views = string_views(texts@);
    let mut r: Vec<String> = Vec::new();
    let mut i: usize = 0;
    proof {
        assert(views.take(0).len() == 0);
        assert(string_views(r@) =~= distinct(views.take(0)));
    }
    while i < texts.len()
        invariant
            views == string_views(texts@),
            0 <= i <= texts@.len(),
            string_views(r@) == distinct(views.take(i as int)),
        decreases texts@.len() - i,
    {
        let ghost before = r@;
        let known = holds_text(&r, &texts[i]);
        proof {
            assert(views.take(i + 1).drop_last() == views.take(i as int));
            assert(views.take(i + 1).last() == texts@[i as int]@);
        }
        if !known {
            let t = texts[i].clone();
            r.push(t);
            proof {
                assert(string_views(before.push(t)) =~= string_views(before).push(t@));
            }
        }
        i += 1;
    }
    assert(views.take(i as int) == views);
    r
}

/// What a drop holds that may be a link: its file addresses where it has
/// any, else the lines of its text, else the addresses in its HTML; each
/// once, and without the full stops and spaces around it.
pub open spec fn link_candidates<F>(data: DragDropPaste<F>) -> Seq<Seq<char>> {
    let picked = match data.file_uris {
        Some(uris) => distinct(string_views(uris@)),
        None => match data.text {
            Some(text) => distinct(lines(text@)),
            None => match data.text_html {
                Some(html) => distinct(hrefs(html@)),
                None => Seq::empty(),
            },
        },
    };
    picked.map_values(|s: Seq<char>| trim_matches(s, CharClass::DotSpace))
}

/// What a drop holds that may be a link.
pub fn candidates_of_drop<F>(data: &DragDropPaste<F>) -> (r: Vec<String>)
    ensures
        string_views(r@) == link_candidates(*data),
{
    let picked = match &data.file_uris {
        Some(uris) => distinct_texts(uris),
        None => match &data.text {
            Some(text) => {
                let all = split_lines(text.as_str());
                distinct_texts(&all)
            },
            None => match &data.text_html {
                Some(html) => get_urls_from_hrefs(html.as_str()),
                None => Vec::new(),
            },
        },
    };
    let ghost views = string_views(picked@);
    let mut r: Vec<String> = Vec::new();
    let mut i: usize = 0;
    while i < picked.len()
        invariant
            views == string_views(picked@),
            0 <= i <= picked@.len(),
            r@.len() == i,
            forall|k: int|
                0 <= k < i ==> (#[trigger] r@[k])@ == trim_matches(views[k], CharClass::DotSpace),
        decreases picked@.len() - i,
    {
        assert(views[i as int] == picked@[i as int]@);
        r.push(trimmed(picked[i].as_str(), CharClass::DotSpace));
        i += 1;
    }
    assert(string_views(r@) =~= views.map_values(
        |s: Seq<char>| trim_matches(s, CharClass::DotSpace),
    ));
    r
}

/// The addresses in a piece of HTML, each without the full stops and spaces
/// around it.
pub fn candidates_of_html(html: &str) -> (r: Vec<String>)
    ensures
        string_views(r@) == distinct(hrefs(html@)).map_values(
            |s: Seq<char>| trim_matches(s, CharClass::DotSpace),
        ),
{
    let picked = get_urls_from_hrefs(html);
    let ghost views = string_views(picked@);
    let mut r: Vec<String> = Vec::new();
    let mut i: usize = 0;
    while i < picked.len()
        invariant
            views == string_views(picked@),
            0 <= i <= picked@.len(),
            r@.len() == i,
            forall|k: int|
                0 <= k < i ==> (#[trigger] r@[k])@ == trim_matches(views[k], CharClass::DotSpace),
        decreases picked@.len() - i,
    {
        assert(views[i as int] == picked@[i as int]@);
        r.push(trimmed(picked[i].as_str(), CharClass::DotSpace));
        i += 1;
    }
    assert(string_views(r@) =~= views.map_values(
        |s: Seq<char>| trim_matches(s, CharClass::DotSpace),
    ));
    r
}

/// The bookmark of an address whose page was asked for: the title of the
/// page, where it has one, is the title of the bookmark. An address that
/// does not parse gives none.
pub fn bookmark_of_page(url: String, title: Option<String>, parses: bool) -> (b: Option<Bookmark>)
    ensures
        parses ==> b is Some && b->Some_0.url == url && b->Some_0.title == title
            && b->Some_0.description is None,
        !parses ==> b is None,
{
    if parses {
        Some(Bookmark { url, title, description: None })
    } else {
        None
    }
}

/// Whether the text is an address that can be asked for.
pub fn is_address(text: &str) -> (b: bool)
    ensures
        b == valid_uri(text@),
{
    uri_parses(text)
}

} // verus!
