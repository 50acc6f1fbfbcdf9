//! The keys that decide the rank among hits of one relevance.

use vstd::prelude::*;
use crate::fields::{FieldRegistry, Fields};

verus! {

/// What ranks a hit behind its relevance: a secondary key, and the id of
/// the object, which no two objects share.
#[derive(Debug, Clone, Copy, PartialEq, Eq, Structural)]
pub struct RankKey {
    pub secondary: u64,
    pub id: u64,
}

/// How one key stands to another.
#[derive(Debug, Clone, Copy, PartialEq, Eq, Structural)]
pub enum Rank {
    Lower,
    Same,
    Higher,
}

impl RankKey {
    /// How `self` stands to `other`: by the secondary key, and by the id
    /// where the secondary keys are equal.
    pub open spec fn rank_spec(self, other: RankKey) -> Rank {
        if self.secondary < other.secondary {
            Rank::Lower
        } else if self.secondary > other.secondary {
            Rank::Higher
        } else if self.id < other.id {
            Rank::Lower
        } else if self.id > other.id {
            Rank::Higher
        } else {
            Rank::Same
        }
    }

    /// How `self` stands to `other`.
    pub fn rank(&self, other: &RankKey) -> (r: Rank)
        ensures
            r == self.rank_spec(*other),
    {
        if self.secondary < other.secondary {
            Rank::Lower
        } else if self.secondary > other.secondary {
            Rank::Higher
        } else if self.id < other.id {
            Rank::Lower
        } else if self.id > other.id {
            Rank::Higher
        } else {
            Rank::Same
        }
    }
}

/// The keys of two different objects never rank the same, whatever their
/// secondary keys are: the id decides where nothing else does.
pub proof fn lemma_ids_break_ties(a: RankKey, b: RankKey)
    requires
        a.id != b.id,
    ensures
        a.rank_spec(b) != Rank::Same,
        a.secondary == b.secondary ==> (a.rank_spec(b) == Rank::Lower <==> a.id < b.id),
{
}

/// The ranking is a total order: two keys rank the same only if they are
/// equal, each way of standing is the reverse of the other, and lower
/// carries over.
pub proof fn lemma_rank_is_total_order(a: RankKey, b: RankKey, c: RankKey)
    ensures
        a.rank_spec(b) == Rank::Same <==> a == b,
        a.rank_spec(b) == Rank::Lower <==> b.rank_spec(a) == Rank::Higher,
        a.rank_spec(b) == Rank::Lower && b.rank_spec(c) == Rank::Lower ==> a.rank_spec(c)
            == Rank::Lower,
{
}

/// How the hits of a search are ranked.
#[derive(Debug, Clone, Copy, PartialEq, Eq, Structural)]
pub enum Ranking {
    /// By relevance alone.
    Relevance,
    /// By relevance, then by the time of creation, then by the id.
    Created,
    /// By relevance, then by the time of the last interaction, then by the
    /// id.
    LastInteraction,
}

impl Ranking {
    /// The field whose fast column breaks ties of relevance, if one does.
    pub open spec fn secondary(self) -> Option<Fields> {
        match self {
            Ranking::Relevance => None,
            Ranking::Created => Some(Fields::Ctime),
            Ranking::LastInteraction => Some(Fields::LastInteraction),
        }
    }

    /// The field whose fast column breaks ties of relevance, if one does.
    pub fn column(self) -> (f: Option<Fields>)
        ensures
            f == self.secondary(),
    {
        match self {
            Ranking::Relevance => None,
            Ranking::Created => Some(Fields::Ctime),
            Ranking::LastInteraction => Some(Fields::LastInteraction),
        }
    }
}

/// Ranks objects of one relevance by their creation time.
#[derive(Debug, Clone, Copy)]
pub struct ObjectSearchScoreTweaker {
    pub now: u64,
    pub ctime_field: u32,
    pub id_field: u32,
}

/// Ranks tags of one relevance by the time of the last interaction.
#[derive(Debug, Clone, Copy)]
pub struct TagSearchScoreTweaker {
    pub now: u64,
    pub last_interaction: u32,
    pub id_field: u32,
}

impl ObjectSearchScoreTweaker {
    /// The tweaker for a search at the time `now`. It reads the fast
    /// columns of the creation time and of the id.
    pub fn new(fields: &FieldRegistry, now: u64) -> (t: Self)
        requires
            fields.wf(),
        ensures
            t.now == now,
            t.ctime_field == fields.handle(Fields::Ctime),
            t.id_field == fields.handle(Fields::Id),
    {
        ObjectSearchScoreTweaker {
            now,
            ctime_field: fields.get_field(Fields::Ctime),
            id_field: fields.get_field(Fields::Id),
        }
    }

    /// How a search with this tweaker ranks its hits.
    pub fn ranking(&self) -> (r: Ranking)
        ensures
            r == Ranking::Created,
    {
        Ranking::Created
    }

    /// The key of a hit, from what the two columns hold for it.
    pub fn score(&self, ctime: u64, id: u64) -> (k: RankKey)
        ensures
            k == (RankKey { secondary: ctime, id }),
    {
        RankKey { secondary: ctime, id }
    }
}

impl TagSearchScoreTweaker {
    /// The tweaker for a search at the time `now`. It reads the fast
    /// columns of the last interaction and of the id.
    pub fn new(fields: &FieldRegistry, now: u64) -> (t: Self)
        requires
            fields.wf(),
        ensures
            t.now == now,
            t.last_interaction == fields.handle(Fields::LastInteraction),
            t.id_field == fields.handle(Fields::Id),
    {
        TagSearchScoreTweaker {
            now,
            last_interaction: fields.get_field(Fields::LastInteraction),
            id_field: fields.get_field(Fields::Id),
        }
    }

    /// How a search with this tweaker ranks its hits.
    pub fn ranking(&self) -> (r: Ranking)
        ensures
            r == Ranking::LastInteraction,
    {
        Ranking::LastInteraction
    }

    /// The key of a hit, from what the two columns hold for it.
    pub fn score(&self, last_interaction: u64, id: u64) -> (k: RankKey)
        ensures
            k == (RankKey { secondary: last_interaction, id }),
    {
        RankKey { secondary: last_interaction, id }
    }
}

} // verus!
