//! A module agent: a named, privately owned copy of some concepts with its
//! own similarity engine and co-creation counter.
use vstd::prelude::*;
use vstd::string::*;
use crate::concepts::{
    dims_match, is_search_result, views, ConceptVector, ConceptView, SimilarityEngine,
};
use crate::vector_math::{VectorError, MAX_DIM};

verus! {

/// Index of the last concept of highest curiosity among the first `n`.
pub open spec fn last_most_curious_upto(cs: Seq<ConceptView>, n: int) -> int
    decreases n,
{
    if n <= 1 {
        0
    } else {
        let b = last_most_curious_upto(cs, n - 1);
        if cs[n - 1].curiosity_score >= cs[b].curiosity_score {
            n - 1
        } else {
            b
        }
    }
}

/// Index of the last concept of highest curiosity.
pub open spec fn last_most_curious(cs: Seq<ConceptView>) -> int {
    last_most_curious_upto(cs, cs.len() as int)
}

/// The chosen index holds the highest curiosity, and no later concept ties it.
pub proof fn lemma_last_most_curious(cs: Seq<ConceptView>, n: int)
    requires
        1 <= n <= cs.len(),
    ensures
        0 <= last_most_curious_upto(cs, n) < n,
        forall|j: int|
            0 <= j < n ==> (#[trigger] cs[j]).curiosity_score <= cs[last_most_curious_upto(
                cs,
                n,
            )].curiosity_score,
        forall|j: int|
            last_most_curious_upto(cs, n) < j < n ==> (#[trigger] cs[j]).curiosity_score < cs[last_most_curious_upto(
                cs,
                n,
            )].curiosity_score,
    decreases n,
{
    if n > 1 {
        lemma_last_most_curious(cs, n - 1);
    }
}

/// A copy of each concept, in order.
pub fn copy_concepts(cs: &Vec<ConceptVector>) -> (r: Vec<ConceptVector>)
    ensures
        views(r@) == views(cs@),
{
    let mut r: Vec<ConceptVector> = Vec::new();
    let mut i: usize = 0;
    while i < cs.len()
        invariant
            i <= cs@.len(),
            r@.len() == i,
            forall|j: int| 0 <= j < i ==> (#[trigger] r@[j])@ == cs@[j]@,
        decreases cs@.len() - i,
    {
        let c = cs[i].duplicate();
        r.push(c);
        i = i + 1;
    }
    assert(views(r@) =~= views(cs@));
    r
}

/// A named group of concepts with its own engine.
pub struct ModuleAgent {
    pub name: String,
    pub concepts: Vec<ConceptVector>,
    pub local_engine: SimilarityEngine,
    pub co_creation_count: u32,
}

impl ModuleAgent {
    /// A module named `name` owning `concepts`; its engine searches an
    /// independent copy of them. The counter starts at zero.
    pub fn new(name: &str, concepts: Vec<ConceptVector>) -> (r: ModuleAgent)
        ensures
            r.name@ == name@,
            views(r.concepts@) == views(concepts@),
            views(r.local_engine.concepts@) == views(concepts@),
            r.co_creation_count == 0,
    {
        let local = copy_concepts(&concepts);
        ModuleAgent {
            name: String::from_str(name),
            concepts,
            local_engine: SimilarityEngine { concepts: local },
            co_creation_count: 0,
        }
    }

    /// Searches the module's own engine for `query`, as
    /// `SimilarityEngine::find_best_match` does; the module is left as it was.
    pub fn process_input(&mut self, query: &Vec<i16>) -> (r: Result<
        Option<ConceptVector>,
        VectorError,
    >)
        requires
            query@.len() <= MAX_DIM,
        ensures
            *final(self) == *old(self),
            r is Err <==> !dims_match(views(old(self).local_engine.concepts@), query@),
            r is Err ==> r == Err::<Option<ConceptVector>, VectorError>(VectorError::InvalidInput),
            r matches Ok(m) ==> is_search_result(
                views(old(self).local_engine.concepts@),
                query@,
                match m {
                    Some(c) => Some(c@),
                    None => None,
                },
            ),
    {
        self.local_engine.find_best_match(query)
    }

    /// The module's concept of highest curiosity (the last one among equals),
    /// or nothing when the module owns no concept. The peer's name is not
    /// consulted.
    pub fn suggest_concept(&self, _other: &str) -> (r: Option<&ConceptVector>)
        ensures
            self.concepts@.len() == 0 ==> r is None,
            self.concepts@.len() > 0 ==> r == Some(
                &self.concepts@[last_most_curious(views(self.concepts@))],
            ),
            r matches Some(c) ==> forall|j: int|
                0 <= j < self.concepts@.len() ==> (#[trigger] self.concepts@[j]).curiosity_score
                    <= c.curiosity_score,
    {
        if self.concepts.len() == 0 {
            return None;
        }
        let ghost cs = views(self.concepts@);
        let mut best: usize = 0;
        let mut i: usize = 1;
        while i < self.concepts.len()
            invariant
                1 <= i <= self.concepts@.len(),
                best < i,
                cs == views(self.concepts@),
                best == last_most_curious_upto(cs, i as int),
            decreases self.concepts@.len() - i,
        {
            proof {
                lemma_last_most_curious(cs, i as int);
            }
            if self.concepts[i].curiosity_score >= self.concepts[best].curiosity_score {
                best = i;
            }
            i = i + 1;
        }
        proof {
            lemma_last_most_curious(cs, i as int);
            assert forall|j: int| 0 <= j < self.concepts@.len() implies (
            #[trigger] self.concepts@[j]).curiosity_score
                <= self.concepts@[best as int].curiosity_score by {
                assert(cs[j] == self.concepts@[j]@);
                assert(cs[best as int] == self.concepts@[best as int]@);
            }
        }
        Some(&self.concepts[best])
    }

    /// Counts one more co-creation.
    pub fn record_co_creation(&mut self)
        requires
            old(self).co_creation_count < u32::MAX,
        ensures
            *final(self) == (ModuleAgent {
                co_creation_count: (old(self).co_creation_count + 1) as u32,
                ..*old(self)
            }),
    {
        self.co_creation_count = self.co_creation_count + 1;
    }
}

} // verus!
