//! Named concept vectors and the thresholded similarity search over them.
use vstd::prelude::*;
use vstd::string::*;
use crate::ranking::{top, is_first_top, is_first_top_upto, top_upto, lemma_top_step, lemma_top_upto_bounds};
use crate::vector_math::{cosine, cosine_similarity, lemma_cosine_symmetric, VectorError, MAX_DIM, SCALE};

verus! {

/// A named vector with its evolving state. Scores, thresholds and state
/// components are in millionths (`SCALE` stands for 1.0).
#[derive(Clone, Debug)]
pub struct ConceptVector {
    pub name: String,
    pub vector: Vec<i16>,
    pub stochastic_state: [u32; 2],
    pub threshold: i32,
    pub last_interaction_time: u64,
    pub curiosity_score: u32,
}

/// The mathematical content of a `ConceptVector`.
pub struct ConceptView {
    pub name: Seq<char>,
    pub vector: Seq<i16>,
    pub state0: u32,
    pub state1: u32,
    pub threshold: i32,
    pub last_interaction_time: u64,
    pub curiosity_score: u32,
}

impl View for ConceptVector {
    type V = ConceptView;

    open spec fn view(&self) -> ConceptView {
        ConceptView {
            name: self.name@,
            vector: self.vector@,
            state0: self.stochastic_state@[0],
            state1: self.stochastic_state@[1],
            threshold: self.threshold,
            last_interaction_time: self.last_interaction_time,
            curiosity_score: self.curiosity_score,
        }
    }
}

/// The views of a sequence of concepts.
pub open spec fn views(cs: Seq<ConceptVector>) -> Seq<ConceptView> {
    cs.map_values(|c: ConceptVector| c@)
}

/// Every concept has the dimension of the query.
pub open spec fn dims_match(cs: Seq<ConceptView>, q: Seq<i16>) -> bool {
    forall|i: int| 0 <= i < cs.len() ==> #[trigger] cs[i].vector.len() == q.len()
}

/// The similarity of `c` to `q` when it strictly exceeds the concept's threshold.
pub open spec fn match_score(c: ConceptView, q: Seq<i16>) -> Option<int> {
    if cosine(c.vector, q) > c.threshold {
        Some(cosine(c.vector, q))
    } else {
        None
    }
}

/// The match score of each concept, in order.
pub open spec fn match_scores(cs: Seq<ConceptView>, q: Seq<i16>) -> Seq<Option<int>> {
    Seq::new(cs.len(), |i: int| match_score(cs[i], q))
}

/// The best similarity among the concepts that clear their thresholds.
pub open spec fn best_score(cs: Seq<ConceptView>, q: Seq<i16>) -> Option<int> {
    top(match_scores(cs, q))
}

/// What a search over `cs` returns for `q` when the dimensions agree: nothing
/// when no concept clears its threshold, else the earliest concept of highest
/// similarity among those that do.
pub open spec fn is_search_result(cs: Seq<ConceptView>, q: Seq<i16>, r: Option<ConceptView>) -> bool {
    match r {
        None => best_score(cs, q) is None,
        Some(c) => exists|i: int| is_first_top(match_scores(cs, q), i) && c == cs[i],
    }
}

/// `i` is the first concept named `name`.
pub open spec fn is_first_named(cs: Seq<ConceptView>, name: Seq<char>, i: int) -> bool {
    0 <= i < cs.len() && cs[i].name == name && forall|j: int| 0 <= j < i ==> cs[j].name != name
}

/// `c` with its interaction time set to `t`.
pub open spec fn touched(c: ConceptView, t: u64) -> ConceptView {
    ConceptView { last_interaction_time: t, ..c }
}

/// Relies on `std::time::SystemTime::now`: whole seconds since the Unix epoch,
/// or zero for a clock set before it.
#[verifier::external_body]
pub(crate) fn now_secs() -> (r: u64) {
    match std::time::SystemTime::now().duration_since(std::time::UNIX_EPOCH) {
        Ok(d) => d.as_secs(),
        Err(_) => 0,
    }
}

/// A copy of the components of `v`.
pub fn copy_components(v: &Vec<i16>) -> (r: Vec<i16>)
    ensures
        r@ == v@,
{
    let mut r: Vec<i16> = Vec::new();
    let mut i: usize = 0;
    while i < v.len()
        invariant
            i <= v@.len(),
            r@ == v@.subrange(0, i as int),
        decreases v@.len() - i,
    {
        r.push(v[i]);
        i = i + 1;
    }
    assert(r@ =~= v@);
    r
}

impl ConceptVector {
    /// A field-by-field copy.
    pub fn duplicate(&self) -> (r: ConceptVector)
        ensures
            r@ == self@,
    {
        ConceptVector {
            name: self.name.clone(),
            vector: copy_components(&self.vector),
            stochastic_state: [self.stochastic_state[0], self.stochastic_state[1]],
            threshold: self.threshold,
            last_interaction_time: self.last_interaction_time,
            curiosity_score: self.curiosity_score,
        }
    }

    /// The neutral concept used when nothing matches, stamped with time `now`.
    pub fn neutral(now: u64) -> (r: ConceptVector)
        ensures
            r@ == neutral_view(now),
    {
        ConceptVector {
            name: String::from_str("Default"),
            vector: vec![0, 0, 0],
            stochastic_state: [SCALE / 2, SCALE / 2],
            threshold: (SCALE / 2) as i32,
            last_interaction_time: now,
            curiosity_score: SCALE / 2,
        }
    }
}

/// The neutral concept: a zero vector with every score at one half.
pub open spec fn neutral_view(now: u64) -> ConceptView {
    ConceptView {
        name: "Default"@,
        vector: seq![0i16, 0i16, 0i16],
        state0: (SCALE / 2) as u32,
        state1: (SCALE / 2) as u32,
        threshold: (SCALE / 2) as i32,
        last_interaction_time: now,
        curiosity_score: (SCALE / 2) as u32,
    }
}

impl Default for ConceptVector {
    fn default() -> (r: ConceptVector)
        ensures
            exists|t: u64| r@ == neutral_view(t),
    {
        ConceptVector::neutral(now_secs())
    }
}

/// A seed concept with the given fields and a fresh state.
pub open spec fn seed_view(
    name: Seq<char>,
    vector: Seq<i16>,
    threshold: i32,
    curiosity: u32,
    now: u64,
) -> ConceptView {
    ConceptView {
        name,
        vector,
        state0: SCALE,
        state1: 0,
        threshold,
        last_interaction_time: now,
        curiosity_score: curiosity,
    }
}

/// The fixed seed set, stamped with time `now`.
pub open spec fn seed_views(now: u64) -> Seq<ConceptView> {
    seq![
        seed_view("Curiosity"@, seq![900i16, -200i16, 500i16], 700_000, 850_000, now),
        seed_view("Aesthetics"@, seq![200i16, 800i16, -100i16], 650_000, 750_000, now),
        seed_view("Verification"@, seq![-300i16, 100i16, 900i16], 750_000, 650_000, now),
    ]
}

fn seed(name: &str, vector: Vec<i16>, threshold: i32, curiosity: u32, now: u64) -> (r:
    ConceptVector)
    ensures
        r@ == seed_view(name@, vector@, threshold, curiosity, now),
{
    ConceptVector {
        name: String::from_str(name),
        vector,
        stochastic_state: [SCALE, 0],
        threshold,
        last_interaction_time: now,
        curiosity_score: curiosity,
    }
}

/// Owns a collection of concepts and searches it.
pub struct SimilarityEngine {
    pub concepts: Vec<ConceptVector>,
}

impl SimilarityEngine {
    /// The engine over the fixed seed set, stamped with the current time.
    pub fn new() -> (r: SimilarityEngine)
        ensures
            exists|t: u64| views(r.concepts@) == seed_views(t),
    {
        SimilarityEngine::with_seed_time(now_secs())
    }

    /// The engine over the fixed seed set, stamped with time `now`.
    pub fn with_seed_time(now: u64) -> (r: SimilarityEngine)
        ensures
            views(r.concepts@) == seed_views(now),
    {
        let concepts = vec![
            seed("Curiosity", vec![900, -200, 500], 700_000, 850_000, now),
            seed("Aesthetics", vec![200, 800, -100], 650_000, 750_000, now),
            seed("Verification", vec![-300, 100, 900], 750_000, 650_000, now),
        ];
        proof {
            reveal_strlit("Curiosity");
            reveal_strlit("Aesthetics");
            reveal_strlit("Verification");
        }
        assert(views(concepts@) =~= seed_views(now));
        SimilarityEngine { concepts }
    }

    /// The earliest concept of highest similarity to `query` among those whose
    /// similarity strictly exceeds their own threshold, as an independent copy.
    /// Fails with `InvalidInput` when some concept's dimension differs from
    /// the query's.
    pub fn find_best_match(&self, query: &Vec<i16>) -> (r: Result<
        Option<ConceptVector>,
        VectorError,
    >)
        requires
            query@.len() <= MAX_DIM,
        ensures
            r is Err <==> !dims_match(views(self.concepts@), query@),
            r is Err ==> r == Err::<Option<ConceptVector>, VectorError>(VectorError::InvalidInput),
            (dims_match(views(self.concepts@), query@) && forall|i: int|
                0 <= i < self.concepts@.len() ==> cosine(self.concepts@[i].vector@, query@)
                    <= #[trigger] self.concepts@[i].threshold) ==> r matches Ok(None),
            r matches Ok(m) ==> is_search_result(
                views(self.concepts@),
                query@,
                match m {
                    Some(c) => Some(c@),
                    None => None,
                },
            ),
    {
        let ghost cs = views(self.concepts@);
        let ghost s = match_scores(cs, query@);
        let mut best: Option<usize> = None;
        let mut best_sim: i32 = 0;
        let mut i: usize = 0;
        while i < self.concepts.len()
            invariant
                i <= self.concepts@.len(),
                cs == views(self.concepts@),
                s == match_scores(cs, query@),
                query@.len() <= MAX_DIM,
                forall|j: int| 0 <= j < i ==> #[trigger] cs[j].vector.len() == query@.len(),
                best is None <==> top_upto(s, i as int) is None,
                best matches Some(b) ==> is_first_top_upto(s, i as int, b as int),
                best matches Some(b) ==> top_upto(s, i as int) == Some(best_sim as int),
            decreases self.concepts@.len() - i,
        {
            let c = &self.concepts[i];
            let sim = match cosine_similarity(query, &c.vector) {
                Ok(v) => {
                    proof {
                        lemma_cosine_symmetric(query@, cs[i as int].vector);
                    }
                    v
                },
                Err(e) => {
                    assert(cs[i as int].vector.len() != query@.len());
                    return Err(e);
                },
            };
            proof {
                lemma_top_step(
                    s,
                    i as int,
                    match best {
                        Some(b) => Some(b as int),
                        None => None,
                    },
                );
            }
            if sim > c.threshold {
                match best {
                    None => {
                        best = Some(i);
                        best_sim = sim;
                    },
                    Some(_) => {
                        if sim > best_sim {
                            best = Some(i);
                            best_sim = sim;
                        }
                    },
                }
            }
            i = i + 1;
        }
        assert(dims_match(cs, query@));
        proof {
            lemma_top_upto_bounds(s, s.len() as int);
            if forall|i: int|
                0 <= i < self.concepts@.len() ==> cosine(self.concepts@[i].vector@, query@)
                    <= #[trigger] self.concepts@[i].threshold {
                assert forall|j: int| 0 <= j < s.len() implies s[j] is None by {
                    assert(cs[j] == self.concepts@[j]@);
                    assert(self.concepts@[j].threshold == cs[j].threshold);
                }
            }
        }
        match best {
            None => Ok(None),
            Some(b) => Ok(Some(self.concepts[b].duplicate())),
        }
    }

    /// Stamps the first concept named `name` with the current time.
    pub fn update_concept_after_interaction(&mut self, name: &str)
        ensures
            exists|t: u64| touched_first(views(old(self).concepts@), name@, t, views(final(self).concepts@)),
    {
        let now = now_secs();
        self.touch_concept(name, now);
    }

    /// Sets the interaction time of the first concept named `name` to `now`;
    /// the others, and every other field, are left as they were. Nothing
    /// changes when no concept has that name.
    pub fn touch_concept(&mut self, name: &str, now: u64)
        ensures
            touched_first(views(old(self).concepts@), name@, now, views(final(self).concepts@)),
    {
        let target = name.to_owned();
        let ghost cs = views(self.concepts@);
        let mut i: usize = 0;
        while i < self.concepts.len()
            invariant
                i <= self.concepts@.len(),
                cs == views(self.concepts@),
                cs == views(old(self).concepts@),
                target@ == name@,
                forall|j: int| 0 <= j < i ==> cs[j].name != name@,
            decreases self.concepts@.len() - i,
        {
            if self.concepts[i].name == target {
                let mut c = self.concepts[i].duplicate();
                c.last_interaction_time = now;
                self.concepts.set(i, c);
                assert(is_first_named(cs, name@, i as int));
                assert(views(self.concepts@) =~= cs.update(i as int, touched(cs[i as int], now)));
                assert(is_first_named(cs, name@, i as int) && views(self.concepts@) == cs.update(
                    i as int,
                    touched(cs[i as int], now),
                ));
                assert(touched_first(cs, name@, now, views(self.concepts@)));
                return;
            }
            i = i + 1;
        }
    }
}

/// `after` is `before` with the first concept named `name` stamped with `t`,
/// or `before` itself when no concept has that name.
pub open spec fn touched_first(
    before: Seq<ConceptView>,
    name: Seq<char>,
    t: u64,
    after: Seq<ConceptView>,
) -> bool {
    ||| exists|i: int|
        is_first_named(before, name, i) && after == before.update(i, touched(before[i], t))
    ||| (forall|i: int| 0 <= i < before.len() ==> before[i].name != name) && after == before
}

impl Default for SimilarityEngine {
    fn default() -> (r: SimilarityEngine)
        ensures
            exists|t: u64| views(r.concepts@) == seed_views(t),
    {
        SimilarityEngine::new()
    }
}

} // verus!
