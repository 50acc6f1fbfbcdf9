use std::collections::HashSet;

use kolekk::bookmarks::{
    bookmark_from_markdown_url, bookmark_of_link, bookmark_of_page, candidates_of_drop,
    candidates_of_html, distinct_texts, get_urls_from_hrefs, is_address, link_of_markdown,
    tagged_strings_from_text,
};
use kolekk::scan::{
    find_in, has_prefix, skip_lead, skip_trail, split_lines, trim_end_range, trim_range, trimmed,
    CharClass,
};
use kolekk::utility::{ByteArrayFile, DragDropPaste};
use kolekk::text::chars_of;

type Read = (Vec<(String, Vec<String>)>, Vec<(String, Vec<String>, String)>);

// The outline as the standard library's text functions read it.
fn outline_by_std(text: &str) -> Read {
    let mut tags = Vec::<(usize, Vec<String>)>::new();
    let mut links = vec![];
    let mut unknown = vec![];
    let get_tags = |tag: &str| -> Vec<String> {
        tag.split('+')
            .flat_map(|t| t.trim().split('/'))
            .map(|t| t.trim())
            .filter(|t| !t.is_empty())
            .map(ToOwned::to_owned)
            .collect()
    };
    for line in text.lines().filter(|l| !l.trim().is_empty()) {
        let mut indent = 0;
        for c in line.chars() {
            if c == ' ' {
                indent += 1;
            } else {
                break;
            }
        }
        while !tags.is_empty() && tags.last().unwrap().0 >= indent {
            let _ = tags.pop();
        }
        let line = &line[indent..];
        let all: Vec<String> = tags.iter().flat_map(|(_, v)| v).cloned().collect();
        match (
            line.starts_with('#'),
            line.starts_with("- "),
            line.trim_start_matches(['-', ' ']).starts_with("http://")
                || line.trim_start_matches(['-', ' ']).starts_with("https://"),
            line.starts_with("- ["),
        ) {
            (true, _, _, _) | (false, true, false, false) => {
                let tag = line.trim_start_matches(['#', ' ', '-']).trim_end();
                tags.push((indent, get_tags(tag)));
            }
            (false, _, true, _) | (false, _, false, true) => {
                links.push((line.to_owned(), all));
            }
            (false, false, false, false) => {
                unknown.push((
                    line.trim().to_owned(),
                    all,
                    "don't know how to parse this line".to_owned(),
                ));
            }
        }
    }
    (links, unknown)
}

fn outline(text: &str) -> Read {
    let (links, unknown) = tagged_strings_from_text(text);
    (
        links.into_iter().map(|t| (t.data, t.tags)).collect(),
        unknown.into_iter().map(|w| (w.data.data, w.data.tags, w.context)).collect(),
    )
}

const OUTLINES: &[&str] = &[
    "",
    "\n",
    "   \n\t\n",
    "# tag",
    "# tag\n- https://a.example/",
    "# rust + lang / systems\n  - [The book](https://doc.rust-lang.org/book/)\n  - https://rust-lang.org\n",
    "# a\n  # b\n    - http://x\n  # c\n    - http://y\n# d\n- http://z\n",
    "# a\n    - deep\n      https://one\n  - shallow\n      https://two\n",
    "- item that names tags\n  - https://below.example\n",
    "just a line\n  another line  \n",
    "# a\r\n  - https://crlf.example\r\n  text\r\n",
    "# a\r\n  - https://crlf.example\r",
    "#\n- \n-\n--\n- -\n",
    "# +/+ / \n  - http://empty.names\n",
    "#tag+other/third\n- [t](u)\n",
    "https://bare.example\n   https://indented.example\n",
    "- - - https://dashes.example\n-- http://more.example\n",
    "\ttabbed https://x\n \t mixed\n",
    "# ünï + cödé\n  - [ẞ](https://ü.example)\n  странно\n",
    "# a\u{a0}b +\u{2003}c\u{3000}\n - http://unicode.space\u{a0}\n\u{2003}- lost\n",
    "  # indented first\n# then not\n    - http://under.second\n",
    "# a\n\n\n  - http://after.blank\n\n",
    "- [\n- [x\n- [x]\n- [x](\n- [x]()\n",
    "# a / b\n  # c\n  - d\n    text under d\n    - http://deep\n  text under a b\n",
    "- http://a\n  - http://under.a.link\n",
    "#\n  x\n",
    "# a\n  - b\n  -c\n  - https\n  - https:/x\n  - http://\n",
];

#[test]
fn outlines_are_read_as_the_standard_library_reads_them() {
    for text in OUTLINES {
        assert_eq!(outline(text), outline_by_std(text), "{:?}", text);
    }
}

#[test]
fn an_outline() {
    let text = "# rust + lang\n  - [The book](https://doc.rust-lang.org/book/)\n  # news / blogs\n    https://blog.rust-lang.org\n  what is this\n# other\n- https://example.org\n  - https://example.net\n";
    let (links, unknown) = outline(text);
    let s = |v: &[&str]| v.iter().map(|t| t.to_string()).collect::<Vec<_>>();
    assert_eq!(
        links,
        vec![
            ("- [The book](https://doc.rust-lang.org/book/)".to_string(), s(&["rust", "lang"])),
            ("https://blog.rust-lang.org".to_string(), s(&["rust", "lang", "news", "blogs"])),
            // A line closes the levels that are indented as much as it is.
            ("- https://example.org".to_string(), s(&[])),
            ("- https://example.net".to_string(), s(&[])),
        ]
    );
    assert_eq!(
        unknown,
        vec![(
            "what is this".to_string(),
            s(&["rust", "lang"]),
            "don't know how to parse this line".to_string()
        )]
    );
}

// The addresses as the standard library's text functions find them.
fn hrefs_by_std(mut h: &str) -> HashSet<&str> {
    let mut urls = HashSet::new();
    loop {
        let url = h
            .find("href")
            .map(|start| {
                h = &h[start + 1..];
                h
            })
            .and_then(|h| h.find('"').map(|s| &h[s + 1..]).map(|h| h.find('"').map(|e| &h[..e])))
            .flatten();
        match url {
            Some(u) => {
                urls.insert(u);
            }
            None => {
                break;
            }
        }
    }
    urls
}

const PAGES: &[&str] = &[
    "",
    "href",
    "href=\"",
    "href=\"x",
    "href=\"x\"",
    "<a href=\"https://a.example/\">a</a><a href=\"https://b.example/\">b</a>",
    "<a href=\"https://a.example/\">a</a><a href=\"https://a.example/\">again</a>",
    "<a href='single'>x</a> <img src=\"not this\" alt=\"nor this\">",
    "hrefhref\"one\"href\"two\"",
    "<a href=\"\">empty</a><a href=\"ünï\">ü</a>",
    "href \"a\" href \"b\" href \"a\" href \"c\" href \"b",
    "no attribute at all \"quoted\"",
    "<a HREF=\"upper\"><a href = \"spaced\" title=\"t\">",
    "xhref\"1\"hrefx\"2\"hre\"3\"",
];

#[test]
fn addresses_are_found_as_the_standard_library_finds_them() {
    for page in PAGES {
        let found = get_urls_from_hrefs(page);
        let set: HashSet<&str> = found.iter().map(|s| s.as_str()).collect();
        assert_eq!(set.len(), found.len(), "{:?}", page);
        assert_eq!(set, hrefs_by_std(page), "{:?}", page);
    }
}

#[test]
fn addresses_come_once_and_in_order() {
    assert_eq!(
        get_urls_from_hrefs("href \"a\" href \"b\" href \"a\" href \"c\" href \"b"),
        vec!["a", "b", "c"]
    );
    assert_eq!(get_urls_from_hrefs("hrefhref\"one\"href\"two\""), vec!["one", "two"]);
    // An occurrence without two quotes behind it ends the reading.
    assert_eq!(get_urls_from_hrefs("href=\"x"), Vec::<String>::new());
    assert_eq!(get_urls_from_hrefs("<a href=\"u\">"), vec!["u"]);
}

// The link as the standard library's text functions read it.
fn link_by_std(u: &str) -> Option<(String, String)> {
    if u.starts_with("- [") {
        let title_start = u.find('[').unwrap();
        if let Some(title_end) = u.find("](") {
            let url_start = u[title_end..].find('(');
            let url_end = u[title_end..].find(')');
            if let (Some(start), Some(end)) = (url_start, url_end) {
                let url = &u[title_end..][start + 1..end];
                return Some((u[title_start + 1..title_end].into(), url.into()));
            }
        }
    }
    None
}

const LINKS: &[&str] = &[
    "",
    "- [",
    "- [title](https://a.example/)",
    "- [title](https://a.example/) and more (text)",
    "- [](x)",
    "- []()",
    "- [a](b",
    "- [a]b)",
    "- [a] (b)",
    "- [a](b)(c)",
    "- [a[b]](c)",
    "- [a](b](c)",
    "-[a](b)",
    " - [a](b)",
    "- [ünï](cödé)",
    "- [a)](b)",
    "- [](",
    "- [x]()](y)",
];

#[test]
fn links_are_read_as_the_standard_library_reads_them() {
    for u in LINKS {
        assert_eq!(link_of_markdown(u), link_by_std(u), "{:?}", u);
    }
    assert_eq!(
        link_of_markdown("- [The book](https://doc.rust-lang.org/book/)"),
        Some(("The book".to_string(), "https://doc.rust-lang.org/book/".to_string()))
    );
}

#[test]
fn a_link_with_an_address_that_parses_is_a_bookmark() {
    let b = bookmark_from_markdown_url("- [The book](https://doc.rust-lang.org/book/)").unwrap();
    assert_eq!(b.title.as_deref(), Some("The book"));
    assert_eq!(b.url, "https://doc.rust-lang.org/book/");
    assert_eq!(b.description, None);
    assert!(bookmark_from_markdown_url("- [no address]()").is_none());
    assert!(bookmark_from_markdown_url("- [spaces](not an address)").is_none());
    assert!(bookmark_from_markdown_url("https://doc.rust-lang.org/book/").is_none());
    for u in LINKS {
        let expected = link_by_std(u).filter(|(_, url)| url.parse::<http::Uri>().is_ok());
        let found = bookmark_from_markdown_url(u).map(|b| (b.title.unwrap(), b.url));
        assert_eq!(found, expected, "{:?}", u);
    }
    assert!(bookmark_of_link("t".to_string(), "u".to_string(), false).is_none());
    let b = bookmark_of_link("t".to_string(), "u".to_string(), true).unwrap();
    assert_eq!((b.title, b.url, b.description), (Some("t".to_string()), "u".to_string(), None));
}

#[test]
fn scanning() {
    let chars = chars_of("  \t- # name \u{a0}\n");
    let n = chars.len();
    assert_eq!(skip_lead(&chars, 0, n, CharClass::Space), 2);
    assert_eq!(skip_lead(&chars, 0, n, CharClass::White), 3);
    assert_eq!(skip_lead(&chars, 3, n, CharClass::DashSpace), 5);
    assert_eq!(skip_lead(&chars, 3, n, CharClass::HashSpaceDash), 7);
    assert_eq!(skip_lead(&chars, 0, n, CharClass::NotNewline), n - 1);
    assert_eq!(skip_lead(&chars, 0, n, CharClass::NotSeparator), n);
    assert_eq!(skip_lead(&chars, 4, 4, CharClass::NotNewline), 4);
    assert_eq!(skip_trail(&chars, 0, n, CharClass::White), 11);
    assert_eq!(skip_trail(&chars, 0, 2, CharClass::Space), 0);
    assert_eq!(trim_range(&chars, 0, n), (3, 11));
    assert_eq!(trim_range(&chars, 0, 3), (3, 3));
    assert_eq!(trim_end_range(&chars, 0, n), 11);
    assert!(has_prefix(&chars, 3, n, "- #"));
    assert!(has_prefix(&chars, 3, n, ""));
    assert!(!has_prefix(&chars, 3, n, "-#"));
    assert!(!has_prefix(&chars, 3, 5, "- #"));
    assert_eq!(find_in(&chars, 0, n, &chars_of("name")), 7);
    assert_eq!(find_in(&chars, 0, n, &chars_of("names")), n);
    assert_eq!(find_in(&chars, 8, n, &chars_of("name")), n);
    assert_eq!(find_in(&chars, 2, n, &chars_of("")), 2);
    let quoted = chars_of("a\"(b)");
    assert_eq!(skip_lead(&quoted, 0, 5, CharClass::NotQuote), 1);
    assert_eq!(skip_lead(&quoted, 0, 5, CharClass::NotOpening), 2);
    assert_eq!(skip_lead(&quoted, 0, 5, CharClass::NotClosing), 4);
}

#[test]
fn lines_are_split_as_the_standard_library_splits_them() {
    for text in OUTLINES.iter().chain(PAGES).chain(&[
        "a\nb",
        "a\nb\n",
        "a\r\nb\r\n",
        "a\rb\r",
        "\r\n",
        "\r",
        "\n\n\n",
        "a\n\r\nb",
        "a\r\r\nb",
        "\u{2028}not a line end\u{85}\u{b}\u{c}",
    ]) {
        let expected: Vec<String> = text.lines().map(String::from).collect();
        assert_eq!(split_lines(text), expected, "{:?}", text);
    }
}

#[test]
fn text_is_trimmed_as_the_standard_library_trims_it() {
    for text in ["", " ", "...", ". a .", "a", " a. b .", ".\ta.", "\u{a0}. x .\u{a0}", "x. .", ". .x"] {
        assert_eq!(trimmed(text, CharClass::DotSpace), text.trim_matches(&['.', ' '][..]), "{:?}", text);
        assert_eq!(trimmed(text, CharClass::White), text.trim(), "{:?}", text);
        assert_eq!(trimmed(text, CharClass::Space), text.trim_matches(' '), "{:?}", text);
    }
}

#[test]
fn texts_are_kept_once() {
    let v = |t: &[&str]| t.iter().map(|s| s.to_string()).collect::<Vec<_>>();
    assert_eq!(distinct_texts(&v(&[])), v(&[]));
    assert_eq!(distinct_texts(&v(&["a", "b", "a", "", "b", "c", ""])), v(&["a", "b", "", "c"]));
}

fn drop_of(uris: Option<&[&str]>, text: Option<&str>, html: Option<&str>) -> DragDropPaste<ByteArrayFile> {
    DragDropPaste {
        file_uris: uris.map(|u| u.iter().map(|s| s.to_string()).collect()),
        text: text.map(String::from),
        text_html: html.map(String::from),
        files: None,
        uri_list: None,
        kolekk_text: None,
    }
}

// The candidates as the standard library's functions pick them.
fn candidates_by_std(data: &DragDropPaste<ByteArrayFile>) -> HashSet<String> {
    data.file_uris
        .as_ref()
        .map(|v| v.iter().map(String::as_str).collect::<HashSet<_>>())
        .or_else(|| data.text.as_ref().map(|t| t.lines().collect()))
        .or_else(|| data.text_html.as_ref().map(|h| hrefs_by_std(h)))
        .unwrap_or_default()
        .into_iter()
        .map(|s| s.trim_matches(&['.', ' '][..]))
        .map(ToOwned::to_owned)
        .collect()
}

#[test]
fn candidates_are_picked_in_the_order_of_preference() {
    let html = "<a href=\"https://h.example/ \">h</a><a href=\".https://h2.example.\">h</a>";
    let text = "https://t.example.\n  https://t2.example  \nhttps://t.example.\n";
    let uris: &[&str] = &["file:///a.", "file:///b", "file:///a."];
    let drops = [
        drop_of(Some(uris), Some(text), Some(html)),
        drop_of(None, Some(text), Some(html)),
        drop_of(None, None, Some(html)),
        drop_of(None, None, None),
        drop_of(Some(&[]), Some(text), Some(html)),
        drop_of(None, Some(""), Some(html)),
    ];
    for data in &drops {
        let found = candidates_of_drop(data);
        let set: HashSet<String> = found.iter().cloned().collect();
        assert_eq!(set, candidates_by_std(data));
    }
    assert_eq!(candidates_of_drop(&drops[0]), vec!["file:///a", "file:///b"]);
    assert_eq!(candidates_of_drop(&drops[1]), vec!["https://t.example", "https://t2.example"]);
    assert_eq!(candidates_of_drop(&drops[2]), vec!["https://h.example/", "https://h2.example"]);
    assert_eq!(candidates_of_drop(&drops[3]), Vec::<String>::new());
    assert_eq!(candidates_of_drop(&drops[4]), Vec::<String>::new());
    assert_eq!(candidates_of_drop(&drops[5]), Vec::<String>::new());
    assert_eq!(candidates_of_html(html), vec!["https://h.example/", "https://h2.example"]);
}

#[test]
fn a_page_gives_a_bookmark_where_its_address_parses() {
    for text in ["https://doc.rust-lang.org/book/", "/", "*", "example.org", "a b", "", "http://", "https://ü.example"] {
        assert_eq!(is_address(text), text.parse::<http::Uri>().is_ok(), "{:?}", text);
    }
    assert!(is_address("https://doc.rust-lang.org/book/"));
    assert!(!is_address("not an address"));
    let b = bookmark_of_page("u".to_string(), Some("t".to_string()), true).unwrap();
    assert_eq!((b.url, b.title, b.description), ("u".to_string(), Some("t".to_string()), None));
    let b = bookmark_of_page("u".to_string(), None, true).unwrap();
    assert_eq!((b.url, b.title, b.description), ("u".to_string(), None, None));
    assert!(bookmark_of_page("u".to_string(), Some("t".to_string()), false).is_none());
}
