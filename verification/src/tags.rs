//! From the tags that match a query to the tags that a search favours.

use vstd::prelude::*;
use std::collections::HashSet;
use crate::facet::TypeFacet;
use crate::objects::{Id, Meta, Tag};
use crate::query::TagBoost;

verus! {

/// A tag that matched a query, with the bits of the score of the match.
#[derive(Debug, Clone)]
pub struct TagHit {
    pub score: u32,
    pub tag: Meta<Tag, TypeFacet>,
}

/// The tag that a hit speaks for, with the weight it brings: the tag
/// itself, or, for an alias, the tag that the alias stands for.
pub open spec fn target_of(hit: TagHit) -> TagBoost {
    TagBoost { weight: hit.score, tag: hit.tag.data.target(hit.tag.id) }
}

/// The targets of the hits, in order.
pub open spec fn targets(hits: Seq<TagHit>) -> Seq<TagBoost> {
    Seq::new(hits.len(), |i: int| target_of(hits[i]))
}

/// Whether the tag at place `i` already stands at an earlier place.
pub open spec fn seen_before(s: Seq<TagBoost>, i: int) -> bool {
    exists|j: int| 0 <= j < i && (#[trigger] s[j]).tag == s[i].tag
}

/// The entries whose tag stands at no earlier place, in order.
pub open spec fn first_occurrences(s: Seq<TagBoost>) -> Seq<TagBoost>
    decreases s.len(),
{
    if s.len() == 0 {
        Seq::empty()
    } else if seen_before(s, s.len() - 1) {
        first_occurrences(s.drop_last())
    } else {
        first_occurrences(s.drop_last()).push(s.last())
    }
}

/// Whether some entry of `s` is for the tag `tag`.
pub open spec fn has_tag(s: Seq<TagBoost>, tag: Id) -> bool {
    exists|k: int| 0 <= k < s.len() && (#[trigger] s[k]).tag == tag
}

/// The first occurrences are for the same tags as the whole sequence.
pub proof fn lemma_same_tags(s: Seq<TagBoost>, tag: Id)
    ensures
        has_tag(first_occurrences(s), tag) <==> has_tag(s, tag),
    decreases s.len(),
{
    if s.len() > 0 {
        let shorter = s.drop_last();
        let f = first_occurrences(s);
        let g = first_occurrences(shorter);
        lemma_same_tags(shorter, tag);
        if has_tag(f, tag) {
            let k = choose|k: int| 0 <= k < f.len() && (#[trigger] f[k]).tag == tag;
            if k < g.len() {
                assert(g[k] == f[k]);
                assert(has_tag(g, tag));
                let j = choose|j: int| 0 <= j < shorter.len() && (#[trigger] shorter[j]).tag == tag;
                assert(s[j] == shorter[j]);
            } else {
                assert(f[k] == s.last());
                assert(s[s.len() - 1].tag == tag);
            }
        }
        if has_tag(s, tag) {
            let j = choose|j: int| 0 <= j < s.len() && (#[trigger] s[j]).tag == tag;
            if j < s.len() - 1 {
                assert(shorter[j] == s[j]);
                assert(has_tag(shorter, tag));
                let k = choose|k: int| 0 <= k < g.len() && (#[trigger] g[k]).tag == tag;
                assert(f[k] == g[k]);
            } else if seen_before(s, s.len() - 1) {
                let i = choose|i: int| 0 <= i < s.len() - 1 && (#[trigger] s[i]).tag == s[s.len() - 1].tag;
                assert(shorter[i] == s[i]);
                assert(has_tag(shorter, tag));
                let k = choose|k: int| 0 <= k < g.len() && (#[trigger] g[k]).tag == tag;
                assert(f[k] == g[k]);
            } else {
                assert(f[f.len() - 1] == s.last());
            }
        }
    }
}

/// No tag is favoured twice.
pub proof fn lemma_no_tag_twice(s: Seq<TagBoost>)
    ensures
        forall|a: int, b: int|
            0 <= a < b < first_occurrences(s).len() ==> (#[trigger] first_occurrences(s)[a]).tag != (
            #[trigger] first_occurrences(s)[b]).tag,
    decreases s.len(),
{
    if s.len() > 0 {
        let shorter = s.drop_last();
        let f = first_occurrences(s);
        let g = first_occurrences(shorter);
        lemma_no_tag_twice(shorter);
        if !seen_before(s, s.len() - 1) {
            assert forall|a: int, b: int| 0 <= a < b < f.len() implies (#[trigger] f[a]).tag != (
            #[trigger] f[b]).tag by {
                if b == f.len() - 1 {
                    if f[a].tag == f[b].tag {
                        assert(g[a] == f[a]);
                        assert(has_tag(g, s.last().tag));
                        lemma_same_tags(shorter, s.last().tag);
                        let j = choose|j: int|
                            0 <= j < shorter.len() && (#[trigger] shorter[j]).tag == s.last().tag;
                        assert(s[j] == shorter[j]);
                        assert(seen_before(s, s.len() - 1));
                    }
                } else {
                    assert(g[a] == f[a]);
                    assert(g[b] == f[b]);
                }
            }
        }
    }
}

/// Whether `e` stands in the sequence at a place before which its tag does
/// not occur.
pub open spec fn is_earliest(s: Seq<TagBoost>, e: TagBoost) -> bool {
    exists|i: int| 0 <= i < s.len() && #[trigger] s[i] == e && !seen_before(s, i)
}

/// Whether `x` stands in the sequence at an earlier place than `y`.
pub open spec fn stands_before(s: Seq<TagBoost>, x: TagBoost, y: TagBoost) -> bool {
    exists|i: int, j: int| 0 <= i < j < s.len() && #[trigger] s[i] == x && #[trigger] s[j] == y
}

/// Whether `b` is the target of one of the hits.
pub open spec fn is_target(hits: Seq<TagHit>, b: TagBoost) -> bool {
    exists|i: int| 0 <= i < hits.len() && #[trigger] target_of(hits[i]) == b
}

/// Each favoured entry is the earliest entry for its tag: it stands in the
/// sequence at a place before which its tag does not occur.
pub proof fn lemma_entries_are_earliest(s: Seq<TagBoost>)
    ensures
        forall|k: int|
            0 <= k < first_occurrences(s).len() ==> is_earliest(s, #[trigger] first_occurrences(s)[k]),
    decreases s.len(),
{
    if s.len() > 0 {
        let shorter = s.drop_last();
        let f = first_occurrences(s);
        let g = first_occurrences(shorter);
        lemma_entries_are_earliest(shorter);
        assert forall|k: int| 0 <= k < f.len() implies is_earliest(s, #[trigger] f[k]) by {
            if k < g.len() {
                assert(f[k] == g[k]);
                assert(is_earliest(shorter, g[k]));
                let i = choose|i: int|
                    0 <= i < shorter.len() && #[trigger] shorter[i] == g[k] && !seen_before(
                        shorter,
                        i,
                    );
                assert(s[i] == shorter[i]);
                if seen_before(s, i) {
                    let j = choose|j: int| 0 <= j < i && (#[trigger] s[j]).tag == s[i].tag;
                    assert(shorter[j] == s[j]);
                    assert(seen_before(shorter, i));
                }
            } else {
                assert(s[s.len() - 1] == f[k]);
            }
        }
    }
}

/// The earliest entry for each tag is favoured.
pub proof fn lemma_earliest_are_entries(s: Seq<TagBoost>, i: int)
    requires
        0 <= i < s.len(),
        !seen_before(s, i),
    ensures
        exists|k: int| 0 <= k < first_occurrences(s).len() && first_occurrences(s)[k] == s[i],
    decreases s.len(),
{
    let shorter = s.drop_last();
    let f = first_occurrences(s);
    let g = first_occurrences(shorter);
    if i < s.len() - 1 {
        assert(shorter[i] == s[i]);
        if seen_before(shorter, i) {
            let j = choose|j: int| 0 <= j < i && (#[trigger] shorter[j]).tag == shorter[i].tag;
            assert(s[j] == shorter[j]);
        }
        lemma_earliest_are_entries(shorter, i);
        let k = choose|k: int| 0 <= k < g.len() && g[k] == shorter[i];
        assert(f[k] == g[k]);
    } else {
        assert(f[f.len() - 1] == s[i]);
    }
}

/// The favoured entries keep the order of the sequence: of two of them,
/// the earlier one stands at an earlier place of the sequence.
pub proof fn lemma_order_is_kept(s: Seq<TagBoost>)
    ensures
        forall|a: int, b: int|
            0 <= a < b < first_occurrences(s).len() ==> stands_before(
                s,
                #[trigger] first_occurrences(s)[a],
                #[trigger] first_occurrences(s)[b],
            ),
    decreases s.len(),
{
    if s.len() > 0 {
        let shorter = s.drop_last();
        let f = first_occurrences(s);
        let g = first_occurrences(shorter);
        lemma_order_is_kept(shorter);
        lemma_entries_are_earliest(shorter);
        assert forall|a: int, b: int| 0 <= a < b < f.len() implies stands_before(
            s,
            #[trigger] f[a],
            #[trigger] f[b],
        ) by {
            if b < g.len() {
                assert(f[a] == g[a]);
                assert(f[b] == g[b]);
                assert(stands_before(shorter, g[a], g[b]));
                let (i, j) = choose|i: int, j: int|
                    0 <= i < j < shorter.len() && #[trigger] shorter[i] == g[a]
                        && #[trigger] shorter[j] == g[b];
                assert(s[i] == shorter[i]);
                assert(s[j] == shorter[j]);
            } else {
                assert(f[a] == g[a]);
                assert(is_earliest(shorter, g[a]));
                let i = choose|i: int|
                    0 <= i < shorter.len() && #[trigger] shorter[i] == g[a] && !seen_before(
                        shorter,
                        i,
                    );
                assert(s[i] == shorter[i]);
                assert(s[s.len() - 1] == f[b]);
            }
        }
    }
}

/// Every favoured tag is the target of a hit, with the score of that hit:
/// an alias that matched favours the tag it stands for, not itself.
pub proof fn lemma_favoured_are_targets(hits: Seq<TagHit>)
    ensures
        forall|k: int|
            0 <= k < first_occurrences(targets(hits)).len() ==> is_target(
                hits,
                #[trigger] first_occurrences(targets(hits))[k],
            ),
{
    let s = targets(hits);
    lemma_entries_are_earliest(s);
    assert forall|k: int| 0 <= k < first_occurrences(s).len() implies is_target(
        hits,
        #[trigger] first_occurrences(s)[k],
    ) by {
        assert(is_earliest(s, first_occurrences(s)[k]));
        let i = choose|i: int|
            0 <= i < s.len() && #[trigger] s[i] == first_occurrences(s)[k] && !seen_before(s, i);
        assert(target_of(hits[i]) == s[i]);
    }
}

/// The tags that a search favours, given the tags that matched the query,
/// best first: each hit speaks for its target, and of the hits for one
/// target only the first counts.
pub fn resolve_tags(hits: &Vec<TagHit>) -> (boosts: Vec<TagBoost>)
    ensures
        boosts@ == first_occurrences(targets(hits@)),
{
    broadcast use vstd::std_specs::hash::group_hash_axioms;

    let ghost s = targets(hits@);
    let mut seen: HashSet<Id> = HashSet::new();
    let mut boosts: Vec<TagBoost> = Vec::new();
    let mut i: usize = 0;
    assert(s.take(0).len() == 0);
    while i < hits.len()
        invariant
            s == targets(hits@),
            0 <= i <= hits@.len(),
            boosts@ == first_occurrences(s.take(i as int)),
            forall|t: Id| seen@.contains(t) <==> has_tag(s.take(i as int), t),
        decreases hits@.len() - i,
    {
        let tag = hits[i].tag.data.resolve(hits[i].tag.id);
        let ghost before = seen@;
        let fresh = seen.insert(tag);
        proof {
            let part = s.take(i + 1);
            let sofar = s.take(i as int);
            assert(part.drop_last() == sofar);
            assert(part.last() == s[i as int]);
            assert(s[i as int] == target_of(hits@[i as int]));
            if !fresh {
                let j = choose|j: int| 0 <= j < i && (#[trigger] sofar[j]).tag == tag;
                assert(part[j] == sofar[j]);
                assert(seen_before(part, i as int));
            } else if seen_before(part, i as int) {
                let j = choose|j: int| 0 <= j < i && (#[trigger] part[j]).tag == part[i as int].tag;
                assert(sofar[j] == part[j]);
                assert(has_tag(sofar, tag));
            }
            assert forall|t: Id| seen@.contains(t) <==> has_tag(part, t) by {
                if has_tag(part, t) {
                    let k = choose|k: int| 0 <= k < part.len() && (#[trigger] part[k]).tag == t;
                    if k < i {
                        assert(sofar[k] == part[k]);
                        assert(has_tag(sofar, t));
                    }
                }
                if seen@.contains(t) {
                    if t == tag {
                        assert(part[i as int].tag == t);
                    } else {
                        assert(before.contains(t));
                        let k = choose|k: int| 0 <= k < sofar.len() && (#[trigger] sofar[k]).tag == t;
                        assert(part[k] == sofar[k]);
                    }
                }
            }
        }
        if fresh {
            boosts.push(TagBoost { weight: hits[i].score, tag });
        }
        i += 1;
    }
    assert(s.take(i as int) == s);
    boosts
}

} // verus!
