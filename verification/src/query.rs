//! Search queries as plain trees.

use vstd::prelude::*;
use crate::facet::{FacetView, TypeFacet};
use crate::fields::Fields;
use crate::objects::Id;
use crate::text::{split_whitespace, string_views, tokens};

verus! {

/// How a clause of a boolean query counts.
#[derive(Debug, Clone, Copy, PartialEq, Eq, Structural)]
pub enum Occur {
    /// A hit has to match the clause.
    Must,
    /// A hit that matches the clause scores higher.
    Should,
    /// A hit may not match the clause.
    MustNot,
}

/// A search query.
#[derive(Debug)]
pub enum QueryNode {
    /// Matches every document.
    All,
    /// Matches the documents whose facet under `field` is `path` or lies
    /// below it.
    Facet { field: Fields, path: String },
    /// Matches the documents that hold the token `text` under `field`.
    Text { field: Fields, text: String },
    /// Matches the documents that hold the number `value` under `field`.
    Number { field: Fields, value: u64 },
    /// Matches the documents that hold the tokens `terms` under `field`, one
    /// after the other. A phrase has at least two terms.
    Phrase { field: Fields, terms: Vec<String> },
    /// Matches the documents that hold, under `field`, a token within the
    /// edit distance `distance` of `text`.
    Fuzzy { field: Fields, text: String, distance: u8, transpositions: bool },
    /// Matches what `query` matches, with the score multiplied by the
    /// weight whose IEEE 754 single precision bits are `weight`.
    Boost { query: Box<QueryNode>, weight: u32 },
    /// Combines clauses.
    Boolean { clauses: Vec<Clause> },
}

/// One clause of a boolean query.
#[derive(Debug)]
pub struct Clause {
    pub occur: Occur,
    pub query: QueryNode,
}

/// A query as a mathematical value.
pub enum QueryView {
    All,
    Facet { field: Fields, path: Seq<char> },
    Text { field: Fields, text: Seq<char> },
    Number { field: Fields, value: u64 },
    Phrase { field: Fields, terms: Seq<Seq<char>> },
    Fuzzy { field: Fields, text: Seq<char>, distance: u8, transpositions: bool },
    Boost { query: Box<QueryView>, weight: u32 },
    Boolean { clauses: Seq<(Occur, QueryView)> },
}

impl QueryNode {
    /// The query as a mathematical value.
    pub open spec fn model(self) -> QueryView
        decreases self,
    {
        match self {
            QueryNode::All => QueryView::All,
            QueryNode::Facet { field, path } => QueryView::Facet { field, path: path@ },
            QueryNode::Text { field, text } => QueryView::Text { field, text: text@ },
            QueryNode::Number { field, value } => QueryView::Number { field, value },
            QueryNode::Phrase { field, terms } => QueryView::Phrase {
                field,
                terms: terms@.map_values(|t: String| t@),
            },
            QueryNode::Fuzzy { field, text, distance, transpositions } => QueryView::Fuzzy {
                field,
                text: text@,
                distance,
                transpositions,
            },
            QueryNode::Boost { query, weight } => QueryView::Boost {
                query: Box::new(query.model()),
                weight,
            },
            QueryNode::Boolean { clauses } => QueryView::Boolean {
                clauses: Seq::new(
                    clauses@.len(),
                    |i: int|
                        if 0 <= i < clauses@.len() {
                            (clauses@[i].occur, clauses@[i].query.model())
                        } else {
                            (Occur::Should, QueryView::All)
                        },
                ),
            },
        }
    }
}

impl View for QueryNode {
    type V = QueryView;

    open spec fn view(&self) -> QueryView {
        self.model()
    }
}


/// The edit distance within which a token of a document matches a word of
/// the query loosely.
pub const FUZZY_DISTANCE: u8 = 2;

/// The bits of the weight 2.
pub const DOUBLE: u32 = 0x4000_0000;

/// How many tags the search for tags that match a query asks for.
pub const TAG_LIMIT: usize = 20;

/// A tag to favour in a search, and the bits of the weight to favour it by.
#[derive(Debug, Clone, Copy, PartialEq, Eq, Structural)]
pub struct TagBoost {
    pub weight: u32,
    pub tag: Id,
}

/// The views of the clauses of a boolean query.
pub open spec fn clause_views(clauses: Seq<Clause>) -> Seq<(Occur, QueryView)> {
    Seq::new(clauses.len(), |i: int| (clauses[i].occur, clauses[i].query.model()))
}

/// The clause that matches a word loosely.
pub open spec fn fuzzy_clause(word: Seq<char>) -> (Occur, QueryView) {
    (
        Occur::Should,
        QueryView::Fuzzy {
            field: Fields::Text,
            text: word,
            distance: FUZZY_DISTANCE,
            transpositions: true,
        },
    )
}

/// The clause that matches a word exactly, at twice the weight.
pub open spec fn exact_clause(word: Seq<char>) -> (Occur, QueryView) {
    (
        Occur::Should,
        QueryView::Boost {
            query: Box::new(QueryView::Text { field: Fields::Text, text: word }),
            weight: DOUBLE,
        },
    )
}

/// Two clauses for each word, in order: the loose one, then the exact one.
pub open spec fn word_clauses(words: Seq<Seq<char>>) -> Seq<(Occur, QueryView)>
    decreases words.len(),
{
    if words.len() == 0 {
        Seq::empty()
    } else {
        word_clauses(words.drop_last()).push(fuzzy_clause(words.last())).push(
            exact_clause(words.last()),
        )
    }
}

/// One loose clause for each word, in order, at the plain weight.
pub open spec fn fuzzy_clauses(words: Seq<Seq<char>>) -> Seq<(Occur, QueryView)> {
    Seq::new(words.len(), |i: int| fuzzy_clause(words[i]))
}

/// The query that scopes a search to the kind with the path `path`.
pub open spec fn scope_clause(path: Seq<char>) -> (Occur, QueryView) {
    (Occur::Must, QueryView::Facet { field: Fields::Type, path })
}

/// The query of a direct search: the kind is required, and each word of
/// the query text counts, loosely or, at twice the weight, exactly.
pub open spec fn direct_query_spec(path: Seq<char>, words: Seq<Seq<char>>) -> QueryView {
    QueryView::Boolean {
        clauses: seq![
            scope_clause(path),
            (Occur::Should, QueryView::Boolean { clauses: word_clauses(words) }),
        ],
    }
}

/// The query that looks for the tags that match the words of a query text.
/// Here a tag has to match at least one word.
pub open spec fn tag_prequery_spec(words: Seq<Seq<char>>) -> QueryView {
    QueryView::Boolean {
        clauses: seq![
            scope_clause(FacetView::Tag.path()),
            (Occur::Must, QueryView::Boolean { clauses: word_clauses(words) }),
        ],
    }
}

/// The title clause: the words as a phrase where there are two or more;
/// the one word as a term where there is one; and the query text as a term
/// where it holds no word.
pub open spec fn title_spec(text: Seq<char>, words: Seq<Seq<char>>) -> QueryView {
    if words.len() == 0 {
        QueryView::Text { field: Fields::Text, text }
    } else if words.len() == 1 {
        QueryView::Text { field: Fields::Text, text: words[0] }
    } else {
        QueryView::Phrase { field: Fields::Text, terms: words }
    }
}

/// One clause for each tag to favour, in order.
pub open spec fn boost_clauses(boosts: Seq<TagBoost>) -> Seq<(Occur, QueryView)> {
    Seq::new(
        boosts.len(),
        |i: int|
            (
                Occur::Should,
                QueryView::Boost {
                    query: Box::new(
                        QueryView::Number { field: Fields::Tag, value: boosts[i].tag as u64 },
                    ),
                    weight: boosts[i].weight,
                },
            ),
    )
}

/// The three-way disjunction of a tagged search: the title clause, the tag
/// clause at twice the weight, and the loose match of each word at the
/// plain weight.
pub open spec fn relevance_spec(
    text: Seq<char>,
    words: Seq<Seq<char>>,
    boosts: Seq<TagBoost>,
) -> QueryView {
    QueryView::Boolean {
        clauses: seq![
            (Occur::Should, title_spec(text, words)),
            (
                Occur::Should,
                QueryView::Boost {
                    query: Box::new(QueryView::Boolean { clauses: boost_clauses(boosts) }),
                    weight: DOUBLE,
                },
            ),
            (Occur::Should, QueryView::Boolean { clauses: fuzzy_clauses(words) }),
        ],
    }
}

/// The query of a tagged search: the kind is required; every object of the
/// kind matches; what the query text and the tags say decides the rank.
pub open spec fn tagged_query_spec(
    path: Seq<char>,
    text: Seq<char>,
    words: Seq<Seq<char>>,
    boosts: Seq<TagBoost>,
) -> QueryView {
    QueryView::Boolean {
        clauses: seq![
            scope_clause(path),
            (Occur::Should, QueryView::All),
            (Occur::Should, relevance_spec(text, words, boosts)),
        ],
    }
}

/// Whether a query admits only objects of the kind with the path `path`:
/// it is a boolean query whose first clause requires the kind.
pub open spec fn scoped_to(q: QueryView, path: Seq<char>) -> bool {
    &&& q is Boolean
    &&& q->clauses.len() > 0
    &&& q->clauses[0] == scope_clause(path)
}

/// Every search query that this crate builds is scoped to the kind that
/// was asked for, and the search for tags is scoped to tags.
pub proof fn lemma_queries_are_scoped(
    path: Seq<char>,
    text: Seq<char>,
    words: Seq<Seq<char>>,
    boosts: Seq<TagBoost>,
)
    ensures
        scoped_to(direct_query_spec(path, words), path),
        scoped_to(tagged_query_spec(path, text, words, boosts), path),
        scoped_to(tag_prequery_spec(words), FacetView::Tag.path()),
{
}

/// A query text of fewer than two words is looked up as one term, never as
/// a phrase: the one word, or the text itself where it holds no word; one
/// of two or more words is looked up as the phrase of its words.
pub proof fn lemma_title_boundary(text: Seq<char>, words: Seq<Seq<char>>)
    ensures
        words.len() == 0 ==> title_spec(text, words) == (QueryView::Text {
            field: Fields::Text,
            text,
        }),
        words.len() == 1 ==> title_spec(text, words) == (QueryView::Text {
            field: Fields::Text,
            text: words[0],
        }),
        words.len() >= 2 ==> title_spec(text, words) == (QueryView::Phrase {
            field: Fields::Text,
            terms: words,
        }),
        title_spec(text, words) is Phrase ==> title_spec(text, words)->Phrase_terms.len() >= 2,
{
}

/// Whether every phrase in the query has two terms or more. The index
/// engine takes no other phrase.
pub open spec fn phrases_hold(q: QueryView) -> bool
    decreases q,
{
    match q {
        QueryView::Phrase { terms, .. } => terms.len() >= 2,
        QueryView::Boost { query, .. } => phrases_hold(*query),
        QueryView::Boolean { clauses } => forall|i: int|
            0 <= i < clauses.len() ==> phrases_hold((#[trigger] clauses[i]).1),
        _ => true,
    }
}

/// Every search query that this crate builds holds only phrases of two
/// terms or more, whatever the query text is.
pub proof fn lemma_queries_hold_phrases(
    path: Seq<char>,
    text: Seq<char>,
    words: Seq<Seq<char>>,
    boosts: Seq<TagBoost>,
)
    ensures
        phrases_hold(direct_query_spec(path, words)),
        phrases_hold(tag_prequery_spec(words)),
        phrases_hold(tagged_query_spec(path, text, words, boosts)),
{
    lemma_word_clauses(words);
    let w = QueryView::Boolean { clauses: word_clauses(words) };
    assert(phrases_hold(w)) by {
        assert forall|i: int| 0 <= i < word_clauses(words).len() implies phrases_hold(
            (#[trigger] word_clauses(words)[i]).1,
        ) by {
            let k = i / 2;
            assert(0 <= k < words.len());
            if i % 2 == 0 {
                assert(i == 2 * k);
                assert(word_clauses(words)[i] == fuzzy_clause(words[k]));
            } else {
                assert(i == 2 * k + 1);
                assert(word_clauses(words)[i] == exact_clause(words[k]));
                assert(phrases_hold(QueryView::Text { field: Fields::Text, text: words[k] }));
            }
        }
    }
    let b = QueryView::Boolean { clauses: boost_clauses(boosts) };
    assert(phrases_hold(b)) by {
        assert forall|i: int| 0 <= i < boost_clauses(boosts).len() implies phrases_hold(
            (#[trigger] boost_clauses(boosts)[i]).1,
        ) by {
            assert(phrases_hold(
                QueryView::Number { field: Fields::Tag, value: boosts[i].tag as u64 },
            ));
        }
    }
    let scope_path = scope_clause(path);
    let scope_tag = scope_clause(FacetView::Tag.path());
    assert(phrases_hold(scope_path.1));
    assert(phrases_hold(scope_tag.1));
    assert(phrases_hold(title_spec(text, words)));
    let boosted = QueryView::Boost { query: Box::new(b), weight: DOUBLE };
    assert(phrases_hold(boosted));
    let l = QueryView::Boolean { clauses: fuzzy_clauses(words) };
    assert(phrases_hold(l)) by {
        assert forall|i: int| 0 <= i < fuzzy_clauses(words).len() implies phrases_hold(
            (#[trigger] fuzzy_clauses(words)[i]).1,
        ) by {
            assert(fuzzy_clauses(words)[i] == fuzzy_clause(words[i]));
        }
    }
    let r = relevance_spec(text, words, boosts);
    assert(phrases_hold(r)) by {
        assert(r->clauses[0].1 == title_spec(text, words));
        assert(r->clauses[1].1 == boosted);
        assert(r->clauses[2].1 == l);
    }
    assert(phrases_hold(QueryView::All));
    let d = direct_query_spec(path, words);
    assert(phrases_hold(d)) by {
        assert(d->clauses[0] == scope_path);
        assert(d->clauses[1].1 == w);
    }
    let p = tag_prequery_spec(words);
    assert(phrases_hold(p)) by {
        assert(p->clauses[0] == scope_tag);
        assert(p->clauses[1].1 == w);
    }
    let t = tagged_query_spec(path, text, words, boosts);
    assert(phrases_hold(t)) by {
        assert(t->clauses[0] == scope_path);
        assert(t->clauses[1].1 == QueryView::All);
        assert(t->clauses[2].1 == r);
    }
}

/// The fallback of a tagged search holds one clause for each word of the
/// query text: the loose match of that word within the edit distance, at
/// the plain weight, and nothing else.
pub proof fn lemma_fallback_is_loose(text: Seq<char>, words: Seq<Seq<char>>, boosts: Seq<TagBoost>)
    ensures
        relevance_spec(text, words, boosts)->clauses.len() == 3,
        relevance_spec(text, words, boosts)->clauses[2] == (
            Occur::Should,
            QueryView::Boolean { clauses: fuzzy_clauses(words) },
        ),
        fuzzy_clauses(words).len() == words.len(),
        forall|i: int|
            0 <= i < words.len() ==> (#[trigger] fuzzy_clauses(words)[i]) == (
                Occur::Should,
                QueryView::Fuzzy {
                    field: Fields::Text,
                    text: words[i],
                    distance: FUZZY_DISTANCE,
                    transpositions: true,
                },
            ),
{
}

/// There are two clauses for each word, and the clauses of the word at
/// place `i` stand at the places `2 * i` and `2 * i + 1`.
pub proof fn lemma_word_clauses(words: Seq<Seq<char>>)
    ensures
        word_clauses(words).len() == 2 * words.len(),
        forall|i: int|
            0 <= i < words.len() ==> word_clauses(words)[2 * i] == fuzzy_clause(#[trigger] words[i])
                && word_clauses(words)[2 * i + 1] == exact_clause(words[i]),
    decreases words.len(),
{
    if words.len() > 0 {
        lemma_word_clauses(words.drop_last());
        assert forall|i: int| 0 <= i < words.len() implies word_clauses(words)[2 * i]
            == fuzzy_clause(#[trigger] words[i]) && word_clauses(words)[2 * i + 1] == exact_clause(
            words[i],
        ) by {
            if i < words.len() - 1 {
                assert(words.drop_last()[i] == words[i]);
            }
        }
    }
}

/// Copies a vector of texts.
fn clone_texts(texts: &Vec<String>) -> (copy: Vec<String>)
    ensures
        string_views(copy@) == string_views(texts@),
{
    let mut copy: Vec<String> = Vec::new();
    let mut i: usize = 0;
    while i < texts.len()
        invariant
            0 <= i <= texts@.len(),
            copy@.len() == i,
            forall|k: int| 0 <= k < i ==> copy@[k]@ == texts@[k]@,
        decreases texts@.len() - i,
    {
        copy.push(texts[i].clone());
        i += 1;
    }
    assert(string_views(copy@) =~= string_views(texts@));
    copy
}

/// The boolean query of the clauses for `words`.
pub fn word_query(words: &Vec<String>) -> (q: QueryNode)
    ensures
        q@ == (QueryView::Boolean { clauses: word_clauses(string_views(words@)) }),
{
    let ghost views = string_views(words@);
    let mut clauses: Vec<Clause> = Vec::new();
    let mut i: usize = 0;
    assert(views.take(0).len() == 0);
    assert(clause_views(clauses@) =~= word_clauses(views.take(0)));
    while i < words.len()
        invariant
            views == string_views(words@),
            0 <= i <= words@.len(),
            clause_views(clauses@) == word_clauses(views.take(i as int)),
        decreases words@.len() - i,
    {
        let ghost before = clauses@;
        let fuzzy = Clause {
            occur: Occur::Should,
            query: QueryNode::Fuzzy {
                field: Fields::Text,
                text: words[i].clone(),
                distance: FUZZY_DISTANCE,
                transpositions: true,
            },
        };
        let term = QueryNode::Text { field: Fields::Text, text: words[i].clone() };
        assert(term.model() == (QueryView::Text { field: Fields::Text, text: words@[i as int]@ }));
        let exact = Clause {
            occur: Occur::Should,
            query: QueryNode::Boost { query: Box::new(term), weight: DOUBLE },
        };
        proof {
            assert(views[i as int] == words@[i as int]@);
            assert(views.take(i + 1).drop_last() == views.take(i as int));
            assert(views.take(i + 1).last() == views[i as int]);
            assert((fuzzy.occur, fuzzy.query.model()) == fuzzy_clause(views[i as int]));
            assert((exact.occur, exact.query.model()) == exact_clause(views[i as int]));
            assert(clause_views(before.push(fuzzy).push(exact)) =~= clause_views(before).push(
                fuzzy_clause(views[i as int]),
            ).push(exact_clause(views[i as int])));
        }
        clauses.push(fuzzy);
        clauses.push(exact);
        i += 1;
    }
    assert(views.take(i as int) == views);
    let q = QueryNode::Boolean { clauses };
    assert(q@->clauses =~= clause_views(clauses@));
    q
}

/// The boolean query of the loose clauses for `words`.
pub fn fuzzy_query(words: &Vec<String>) -> (q: QueryNode)
    ensures
        q@ == (QueryView::Boolean { clauses: fuzzy_clauses(string_views(words@)) }),
{
    let ghost views = string_views(words@);
    let mut clauses: Vec<Clause> = Vec::new();
    let mut i: usize = 0;
    while i < words.len()
        invariant
            views == string_views(words@),
            0 <= i <= words@.len(),
            clauses@.len() == i,
            forall|k: int|
                0 <= k < i ==> (clauses@[k].occur, clauses@[k].query.model()) == fuzzy_clause(
                    views[k],
                ),
        decreases words@.len() - i,
    {
        assert(views[i as int] == words@[i as int]@);
        clauses.push(
            Clause {
                occur: Occur::Should,
                query: QueryNode::Fuzzy {
                    field: Fields::Text,
                    text: words[i].clone(),
                    distance: FUZZY_DISTANCE,
                    transpositions: true,
                },
            },
        );
        i += 1;
    }
    let q = QueryNode::Boolean { clauses };
    assert(q@->clauses =~= fuzzy_clauses(views));
    q
}

/// The clause that scopes a search to the kind with the path `path`.
fn scope(path: &str) -> (c: Clause)
    ensures
        (c.occur, c.query.model()) == scope_clause(path@),
{
    Clause { occur: Occur::Must, query: QueryNode::Facet { field: Fields::Type, path: path.to_owned() } }
}

/// The boolean query of two clauses.
fn both(a: Clause, b: Clause) -> (q: QueryNode)
    ensures
        q@ == (QueryView::Boolean {
            clauses: seq![(a.occur, a.query.model()), (b.occur, b.query.model())],
        }),
{
    let mut clauses: Vec<Clause> = Vec::new();
    clauses.push(a);
    clauses.push(b);
    let q = QueryNode::Boolean { clauses };
    assert(q@->clauses =~= seq![(a.occur, a.query.model()), (b.occur, b.query.model())]);
    q
}

/// The boolean query of three clauses.
fn all_three(a: Clause, b: Clause, c: Clause) -> (q: QueryNode)
    ensures
        q@ == (QueryView::Boolean {
            clauses: seq![
                (a.occur, a.query.model()),
                (b.occur, b.query.model()),
                (c.occur, c.query.model()),
            ],
        }),
{
    let mut clauses: Vec<Clause> = Vec::new();
    clauses.push(a);
    clauses.push(b);
    clauses.push(c);
    let q = QueryNode::Boolean { clauses };
    assert(q@->clauses =~= seq![
        (a.occur, a.query.model()),
        (b.occur, b.query.model()),
        (c.occur, c.query.model()),
    ]);
    q
}

/// The query of a direct search for the words `words` among the objects of
/// the kind with the path `path`.
pub fn direct_query_of(path: &str, words: &Vec<String>) -> (q: QueryNode)
    ensures
        q@ == direct_query_spec(path@, string_views(words@)),
{
    both(scope(path), Clause { occur: Occur::Should, query: word_query(words) })
}

/// The query of a direct search for the text `query` among the objects of
/// the kind `ob_type`.
pub fn direct_query(ob_type: &TypeFacet, query: &str) -> (q: QueryNode)
    ensures
        q@ == direct_query_spec(ob_type@.path(), tokens(query@)),
{
    let words = split_whitespace(query);
    direct_query_of(ob_type.as_str(), &words)
}

/// The query that looks for the tags that match the words `words`.
pub fn tag_prequery_of(words: &Vec<String>) -> (q: QueryNode)
    ensures
        q@ == tag_prequery_spec(string_views(words@)),
{
    both(scope(TypeFacet::Tag.as_str()), Clause { occur: Occur::Must, query: word_query(words) })
}

/// The query that looks for the tags that match the text `query`. It is to
/// be run for the best [`TAG_LIMIT`] tags, by relevance alone.
pub fn tag_prequery(query: &str) -> (q: QueryNode)
    ensures
        q@ == tag_prequery_spec(tokens(query@)),
{
    let words = split_whitespace(query);
    tag_prequery_of(&words)
}

/// The title clause for the query text `text`, whose words are `words`.
pub fn title_query(text: &str, words: &Vec<String>) -> (q: QueryNode)
    ensures
        q@ == title_spec(text@, string_views(words@)),
{
    if words.len() == 0 {
        QueryNode::Text { field: Fields::Text, text: text.to_owned() }
    } else if words.len() == 1 {
        assert(string_views(words@)[0] == words@[0]@);
        QueryNode::Text { field: Fields::Text, text: words[0].clone() }
    } else {
        let terms = clone_texts(words);
        QueryNode::Phrase { field: Fields::Text, terms }
    }
}

/// The tag clause: one weighted clause for each tag to favour.
pub fn tag_query(boosts: &Vec<TagBoost>) -> (q: QueryNode)
    ensures
        q@ == (QueryView::Boolean { clauses: boost_clauses(boosts@) }),
{
    let mut clauses: Vec<Clause> = Vec::new();
    let mut i: usize = 0;
    while i < boosts.len()
        invariant
            0 <= i <= boosts@.len(),
            clauses@.len() == i,
            forall|k: int|
                0 <= k < i ==> (clauses@[k].occur, clauses@[k].query.model()) == boost_clauses(
                    boosts@,
                )[k],
        decreases boosts@.len() - i,
    {
        let b = boosts[i];
        let term = QueryNode::Number { field: Fields::Tag, value: b.tag as u64 };
        assert(term.model() == (QueryView::Number { field: Fields::Tag, value: b.tag as u64 }));
        clauses.push(
            Clause {
                occur: Occur::Should,
                query: QueryNode::Boost { query: Box::new(term), weight: b.weight },
            },
        );
        i += 1;
    }
    let q = QueryNode::Boolean { clauses };
    assert(q@->clauses =~= boost_clauses(boosts@));
    q
}

/// The query of a tagged search for the text `text`, whose words are
/// `words`, among the objects of the kind with the path `path`, favouring
/// the tags `boosts`.
pub fn tagged_query_of(path: &str, text: &str, words: &Vec<String>, boosts: &Vec<TagBoost>) -> (q:
    QueryNode)
    ensures
        q@ == tagged_query_spec(path@, text@, string_views(words@), boosts@),
{
    let tags = QueryNode::Boost { query: Box::new(tag_query(boosts)), weight: DOUBLE };
    let relevance = all_three(
        Clause { occur: Occur::Should, query: title_query(text, words) },
        Clause { occur: Occur::Should, query: tags },
        Clause { occur: Occur::Should, query: fuzzy_query(words) },
    );
    all_three(
        scope(path),
        Clause { occur: Occur::Should, query: QueryNode::All },
        Clause { occur: Occur::Should, query: relevance },
    )
}

/// The query of a tagged search for the text `query` among the objects of
/// the kind `ob_type`, favouring the tags `boosts`.
pub fn tagged_query(ob_type: &TypeFacet, query: &str, boosts: &Vec<TagBoost>) -> (q: QueryNode)
    ensures
        q@ == tagged_query_spec(ob_type@.path(), query@, tokens(query@), boosts@),
{
    let words = split_whitespace(query);
    tagged_query_of(ob_type.as_str(), query, &words, boosts)
}

} // verus!
