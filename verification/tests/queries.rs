use kolekk::facet::TypeFacet;
use kolekk::fields::Fields;
use kolekk::objects::{Meta, Tag};
use kolekk::query::{
    direct_query, fuzzy_query, tag_prequery, tag_query, tagged_query, title_query, word_query,
    Clause, Occur,
    QueryNode, TagBoost, DOUBLE, FUZZY_DISTANCE, TAG_LIMIT,
};
use kolekk::tags::{resolve_tags, TagHit};
use kolekk::scan::CharClass;
use kolekk::text::{chars_of, split_whitespace, string_from};

fn show(q: &QueryNode) -> String {
    format!("{:?}", q)
}

fn fuzzy(word: &str) -> Clause {
    Clause {
        occur: Occur::Should,
        query: QueryNode::Fuzzy {
            field: Fields::Text,
            text: word.to_string(),
            distance: 2,
            transpositions: true,
        },
    }
}

fn exact(word: &str) -> Clause {
    Clause {
        occur: Occur::Should,
        query: QueryNode::Boost {
            query: Box::new(QueryNode::Text { field: Fields::Text, text: word.to_string() }),
            weight: 2.0f32.to_bits(),
        },
    }
}

fn scope(path: &str) -> Clause {
    Clause { occur: Occur::Must, query: QueryNode::Facet { field: Fields::Type, path: path.to_string() } }
}

fn words(ws: &[&str]) -> QueryNode {
    QueryNode::Boolean { clauses: ws.iter().flat_map(|w| [fuzzy(w), exact(w)]).collect() }
}

#[test]
fn constants() {
    assert_eq!(f32::from_bits(DOUBLE), 2.0);
    assert_eq!(FUZZY_DISTANCE, 2);
    assert_eq!(TAG_LIMIT, 20);
}

#[test]
fn split_at_white_space() {
    for s in [
        "",
        " ",
        "one",
        " one",
        "one ",
        "one two",
        "  one \t two\n\nthree\r\n",
        "a\u{a0}b\u{2003}c\u{3000}d\u{85}e\u{1680}f\u{2028}g\u{2029}h\u{202f}i\u{205f}j",
        "zero\u{200b}width\u{feff}is no space",
        "ünï cödé",
        "\u{b}\u{c}x\u{1c}y\u{1f}z",
    ] {
        let expected: Vec<String> = s.split_whitespace().map(String::from).collect();
        assert_eq!(split_whitespace(s), expected, "{:?}", s);
    }
    assert_eq!(split_whitespace(" Rust  Book "), vec!["Rust", "Book"]);
}

#[test]
fn characters_and_pieces() {
    assert_eq!(chars_of("añ€𝄞"), vec!['a', 'ñ', '€', '𝄞']);
    assert_eq!(chars_of(""), Vec::<char>::new());
    let chars = chars_of("hello wörld");
    assert_eq!(string_from(&chars, 0, 5), "hello");
    assert_eq!(string_from(&chars, 6, 11), "wörld");
    assert_eq!(string_from(&chars, 3, 3), "");
    assert_eq!(string_from(&chars, 0, 11), "hello wörld");
}

#[test]
fn word_clauses_come_in_pairs() {
    assert_eq!(show(&word_query(&vec![])), show(&words(&[])));
    assert_eq!(
        show(&word_query(&vec!["rust".to_string(), "book".to_string()])),
        show(&words(&["rust", "book"]))
    );
}

#[test]
fn direct_query_shape() {
    let q = direct_query(&TypeFacet::Tag, " rust  lang ");
    let expected = QueryNode::Boolean {
        clauses: vec![scope("/tag"), Clause { occur: Occur::Should, query: words(&["rust", "lang"]) }],
    };
    assert_eq!(show(&q), show(&expected));
    let q = direct_query(&TypeFacet::Temp("/x/y".to_string()), "");
    let expected = QueryNode::Boolean {
        clauses: vec![scope("/x/y"), Clause { occur: Occur::Should, query: words(&[]) }],
    };
    assert_eq!(show(&q), show(&expected));
}

#[test]
fn tag_prequery_shape() {
    let q = tag_prequery("rust");
    let expected = QueryNode::Boolean {
        clauses: vec![scope("/tag"), Clause { occur: Occur::Must, query: words(&["rust"]) }],
    };
    assert_eq!(show(&q), show(&expected));
}

#[test]
fn title_is_a_term_below_two_words() {
    let term = |t: &str| QueryNode::Text { field: Fields::Text, text: t.to_string() };
    assert_eq!(show(&title_query("", &vec![])), show(&term("")));
    assert_eq!(show(&title_query("   ", &vec![])), show(&term("   ")));
    assert_eq!(show(&title_query("rust", &vec!["rust".to_string()])), show(&term("rust")));
    // The one word is the term, whatever stands around it.
    assert_eq!(show(&title_query(" rust ", &vec!["rust".to_string()])), show(&term("rust")));
    let two = vec!["rust".to_string(), "book".to_string()];
    let phrase = QueryNode::Phrase { field: Fields::Text, terms: two.clone() };
    assert_eq!(show(&title_query("rust book", &two)), show(&phrase));
    let three = vec!["a".to_string(), "b".to_string(), "c".to_string()];
    let phrase = QueryNode::Phrase { field: Fields::Text, terms: three.clone() };
    assert_eq!(show(&title_query("a b c", &three)), show(&phrase));
}

#[test]
fn tagged_query_shape() {
    let boosts = vec![TagBoost { weight: 1.5f32.to_bits(), tag: 5 }, TagBoost { weight: 0.25f32.to_bits(), tag: 9 }];
    let q = tagged_query(&TypeFacet::Bookmark, "rust book", &boosts);
    let boost = |b: &TagBoost| Clause {
        occur: Occur::Should,
        query: QueryNode::Boost {
            query: Box::new(QueryNode::Number { field: Fields::Tag, value: b.tag as u64 }),
            weight: b.weight,
        },
    };
    let tags = QueryNode::Boolean { clauses: boosts.iter().map(boost).collect() };
    assert_eq!(show(&tag_query(&boosts)), show(&tags));
    let relevance = QueryNode::Boolean {
        clauses: vec![
            Clause {
                occur: Occur::Should,
                query: QueryNode::Phrase {
                    field: Fields::Text,
                    terms: vec!["rust".to_string(), "book".to_string()],
                },
            },
            Clause {
                occur: Occur::Should,
                query: QueryNode::Boost { query: Box::new(tags), weight: 2.0f32.to_bits() },
            },
            // The fallback: one loose clause for each word, at the plain weight.
            Clause {
                occur: Occur::Should,
                query: QueryNode::Boolean { clauses: vec![fuzzy("rust"), fuzzy("book")] },
            },
        ],
    };
    assert_eq!(
        show(&fuzzy_query(&vec!["rust".to_string(), "book".to_string()])),
        show(&QueryNode::Boolean { clauses: vec![fuzzy("rust"), fuzzy("book")] })
    );
    assert_eq!(show(&fuzzy_query(&vec![])), show(&QueryNode::Boolean { clauses: vec![] }));
    let expected = QueryNode::Boolean {
        clauses: vec![
            scope("/bookmark"),
            Clause { occur: Occur::Should, query: QueryNode::All },
            Clause { occur: Occur::Should, query: relevance },
        ],
    };
    assert_eq!(show(&q), show(&expected));
}

fn hit(score: f32, id: u32, tag: Tag) -> TagHit {
    TagHit {
        score: score.to_bits(),
        tag: Meta { id, facet: TypeFacet::Tag, data: tag, ctime: 0, last_update: 0, last_interaction: 0 },
    }
}

fn main_tag(name: &str) -> Tag {
    Tag::Main { name: name.to_string() }
}

fn alias(name: &str, alias_to: u32) -> Tag {
    Tag::Alias { name: name.to_string(), alias_to }
}

fn boosts(hits: &[TagHit]) -> Vec<(f32, u32)> {
    resolve_tags(&hits.to_vec()).into_iter().map(|b| (f32::from_bits(b.weight), b.tag)).collect()
}

#[test]
fn an_alias_favours_its_target() {
    assert_eq!(boosts(&[hit(3.0, 6, alias("rustlang", 5))]), vec![(3.0, 5)]);
    assert_eq!(boosts(&[hit(3.0, 5, main_tag("rust"))]), vec![(3.0, 5)]);
    assert_eq!(boosts(&[]), vec![]);
    // The target need not exist, and an alias may point at itself.
    assert_eq!(
        boosts(&[hit(1.0, 6, alias("a", 999)), hit(0.5, 7, alias("b", 7))]),
        vec![(1.0, 999), (0.5, 7)]
    );
}

#[test]
fn the_first_hit_for_a_target_counts() {
    let hits = [
        hit(9.0, 6, alias("rustlang", 5)),
        hit(8.0, 2, main_tag("music")),
        hit(7.0, 5, main_tag("rust")),
        hit(6.0, 7, alias("rs", 5)),
        hit(5.0, 2, main_tag("music")),
        hit(4.0, 3, main_tag("other")),
    ];
    assert_eq!(boosts(&hits), vec![(9.0, 5), (8.0, 2), (4.0, 3)]);
}

#[test]
fn tag_names_and_targets() {
    assert_eq!(main_tag("a").name(), "a");
    assert_eq!(alias("b", 1).name(), "b");
    assert_eq!(main_tag("a").resolve(4), 4);
    assert_eq!(alias("b", 1).resolve(4), 1);
}

#[test]
fn white_space_is_what_the_standard_library_calls_so() {
    let mut count = 0;
    for n in 0..=0x10ffffu32 {
        if let Some(c) = char::from_u32(n) {
            assert_eq!(CharClass::White.has(c), c.is_whitespace(), "{:x}", n);
            if c.is_whitespace() {
                count += 1;
            }
        }
    }
    assert_eq!(count, 25);
}

#[test]
fn many_hits_for_few_targets() {
    let mut hits = Vec::new();
    for i in 0..200u32 {
        hits.push(hit(1.0 / (i + 1) as f32, 1000 + i, alias("a", i % 7)));
    }
    let found = boosts(&hits);
    assert_eq!(found.len(), 7);
    for (k, (weight, tag)) in found.iter().enumerate() {
        assert_eq!(*tag, k as u32);
        assert_eq!(*weight, 1.0 / (k + 1) as f32);
    }
}
