//! The orchestrator: owns the module agents, routes a query to the best of
//! them, and runs co-creation rounds between a primary module and its peers.
use vstd::prelude::*;
use vstd::string::*;
use crate::concepts::{best_score, dims_match, is_search_result, match_scores, views};
use crate::module_agent::{last_most_curious, ModuleAgent};
use crate::ranking::{is_first_top, is_first_top_upto, lemma_top_step, top, top_upto};
use crate::vector_math::{cosine_similarity, lemma_cosine_symmetric, VectorError, MAX_DIM, SCALE};

verus! {

/// The propensity to co-create at start, in millionths.
pub const INITIAL_PROPENSITY: u32 = 300_000;

/// The rise of the propensity after a successful round, in millionths.
pub const PROPENSITY_STEP: u32 = 100_000;

/// The highest propensity that a round can reach, in millionths.
pub const PROPENSITY_CAP: u32 = 900_000;

/// Owns the module agents, a propensity to co-create (in millionths) and the
/// proactive prompts.
pub struct AgentOrchestrator {
    pub modules: Vec<ModuleAgent>,
    pub propensity_to_co_create: u32,
    pub proactive_prompts: Vec<String>,
}

/// The fixed proactive prompts, in order.
pub open spec fn default_prompts() -> Seq<Seq<char>> {
    seq![
        "What would happen if we combined these concepts?"@,
        "How might we approach this from a different perspective?"@,
        "What underlying patterns connect these ideas?"@,
    ]
}

/// The views of a sequence of strings.
pub open spec fn texts(ss: Seq<String>) -> Seq<Seq<char>> {
    ss.map_values(|s: String| s@)
}

/// No two modules share a name.
pub open spec fn names_unique(ms: Seq<ModuleAgent>) -> bool {
    forall|i: int, j: int| 0 <= i < j < ms.len() ==> ms[i].name@ != ms[j].name@
}

/// `i` is the first module named `name`.
pub open spec fn is_first_module_named(ms: Seq<ModuleAgent>, name: Seq<char>, i: int) -> bool {
    0 <= i < ms.len() && ms[i].name@ == name && forall|j: int| 0 <= j < i ==> ms[j].name@ != name
}

/// No module is named `name`.
pub open spec fn lacks_module(ms: Seq<ModuleAgent>, name: Seq<char>) -> bool {
    forall|i: int| 0 <= i < ms.len() ==> ms[i].name@ != name
}

/// The similarity of each module's best match to `q`, if it has one.
pub open spec fn module_scores(ms: Seq<ModuleAgent>, q: Seq<i16>) -> Seq<Option<int>> {
    Seq::new(ms.len(), |k: int| best_score(views(ms[k].local_engine.concepts@), q))
}

/// Every module's engine holds concepts of the query's dimension.
pub open spec fn all_dims_match(ms: Seq<ModuleAgent>, q: Seq<i16>) -> bool {
    forall|k: int| 0 <= k < ms.len() ==> dims_match(views(ms[k].local_engine.concepts@), q)
}

/// A module has something to suggest when it owns a concept.
pub open spec fn suggests(m: ModuleAgent) -> bool {
    m.concepts@.len() > 0
}

/// Module `k` is a peer of the primary module `p` and has a suggestion.
pub open spec fn peer_suggests(ms: Seq<ModuleAgent>, p: int, k: int) -> bool {
    k != p && suggests(ms[k])
}

/// How many of the first `n` modules are suggesting peers of `p`.
pub open spec fn suggestion_count(ms: Seq<ModuleAgent>, p: int, n: int) -> nat
    decreases n,
{
    if n <= 0 {
        0
    } else {
        suggestion_count(ms, p, n - 1) + if peer_suggests(ms, p, n - 1) {
            1nat
        } else {
            0nat
        }
    }
}

/// `m` with `n` more co-creations counted.
pub open spec fn bumped(m: ModuleAgent, n: nat) -> ModuleAgent {
    ModuleAgent { co_creation_count: (m.co_creation_count + n) as u32, ..m }
}

/// The modules once the first `n` have been offered the round with primary
/// `p`: each suggesting peer counts one co-creation, and the primary one per
/// suggestion.
pub open spec fn after_round(ms: Seq<ModuleAgent>, p: int, n: int) -> Seq<ModuleAgent> {
    Seq::new(
        ms.len(),
        |j: int|
            if j == p {
                bumped(ms[j], suggestion_count(ms, p, n))
            } else if j < n && peer_suggests(ms, p, j) {
                bumped(ms[j], 1)
            } else {
                ms[j]
            },
    )
}

/// The name of the concept that module `m` suggests.
pub open spec fn suggested_name(m: ModuleAgent) -> Seq<char> {
    m.concepts@[last_most_curious(views(m.concepts@))].name@
}

/// The report line for a suggestion of module `m`.
pub open spec fn suggestion_line(m: ModuleAgent) -> Seq<char> {
    "💡 Module '"@ + m.name@ + "' suggests: "@ + suggested_name(m) + "\n"@
}

/// The report lines of the suggesting peers among the first `n` modules.
pub open spec fn suggestion_lines(ms: Seq<ModuleAgent>, p: int, n: int) -> Seq<char>
    decreases n,
{
    if n <= 0 {
        Seq::empty()
    } else {
        suggestion_lines(ms, p, n - 1) + if peer_suggests(ms, p, n - 1) {
            suggestion_line(ms[n - 1])
        } else {
            Seq::empty()
        }
    }
}

/// The first line of a round's report.
pub open spec fn report_header(primary: Seq<char>, input: Seq<char>) -> Seq<char> {
    "🧠 Primary module '"@ + primary + "' processing: "@ + input + "\n"@
}

/// The report of a round with primary module `p` over `ms`.
pub open spec fn round_report(
    ms: Seq<ModuleAgent>,
    p: int,
    primary: Seq<char>,
    input: Seq<char>,
) -> Seq<char> {
    report_header(primary, input) + suggestion_lines(ms, p, ms.len() as int) + if suggestion_count(
        ms,
        p,
        ms.len() as int,
    ) == 0 {
        "🔍 No co-creation suggestions available\n"@
    } else {
        Seq::empty()
    }
}

/// The propensity after a successful round: one step up, at most the cap.
pub open spec fn raised(p: u32) -> u32 {
    if p + PROPENSITY_STEP < PROPENSITY_CAP {
        (p + PROPENSITY_STEP) as u32
    } else {
        PROPENSITY_CAP
    }
}

/// The prompt position for propensity `p` over `n` prompts: `floor(p * n)`
/// (with `p` in millionths), or the first prompt when that is out of range.
pub open spec fn prompt_index(p: u32, n: int) -> int {
    let i = (p * n) / (SCALE as int);
    if i < n {
        i
    } else {
        0
    }
}

/// Every module's counter can take one count per registered module.
pub open spec fn counts_have_room(o: AgentOrchestrator) -> bool {
    forall|j: int|
        0 <= j < o.modules@.len() ==> (#[trigger] o.modules@[j]).co_creation_count
            + o.modules@.len() <= u32::MAX
}

/// `after` and `report` are the outcome of a co-creation round on `before`
/// with primary module `primary` and input text `input`: a warning and no
/// change without such a module; otherwise the counters and report of
/// `after_round` and `round_report`, and the propensity raised when at least
/// one peer suggested something.
pub open spec fn is_round(
    before: AgentOrchestrator,
    primary: Seq<char>,
    input: Seq<char>,
    after: AgentOrchestrator,
    report: Seq<char>,
) -> bool {
    let ms = before.modules@;
    &&& lacks_module(ms, primary) ==> report == "⚠️ Primary module not found\n"@ && after == before
    &&& forall|p: int|
        is_first_module_named(ms, primary, p) ==> {
            &&& report == round_report(ms, p, primary, input)
            &&& after.modules@ == after_round(ms, p, ms.len() as int)
            &&& after.propensity_to_co_create == if suggestion_count(ms, p, ms.len() as int) > 0 {
                raised(before.propensity_to_co_create)
            } else {
                before.propensity_to_co_create
            }
            &&& after.proactive_prompts == before.proactive_prompts
        }
}

/// At most `n` of the first `n` modules suggest.
proof fn lemma_suggestion_count_bound(ms: Seq<ModuleAgent>, p: int, n: int)
    ensures
        n >= 0 ==> suggestion_count(ms, p, n) <= n,
    decreases n,
{
    if n > 0 {
        lemma_suggestion_count_bound(ms, p, n - 1);
    }
}

/// In a round with primary module `p`, the primary module counts one
/// co-creation per suggesting peer, each peer that owns a concept counts
/// exactly one more, and no other counter moves; the propensity rises by
/// one step, capped, exactly when some peer suggested.
pub proof fn lemma_round_counts(
    before: AgentOrchestrator,
    primary: Seq<char>,
    input: Seq<char>,
    after: AgentOrchestrator,
    report: Seq<char>,
    p: int,
)
    requires
        is_round(before, primary, input, after, report),
        is_first_module_named(before.modules@, primary, p),
        counts_have_room(before),
    ensures
        after.modules@.len() == before.modules@.len(),
        after.modules@[p].co_creation_count == before.modules@[p].co_creation_count
            + suggestion_count(before.modules@, p, before.modules@.len() as int),
        forall|k: int|
            0 <= k < before.modules@.len() && k != p ==> (#[trigger] after.modules@[k]).co_creation_count
                == before.modules@[k].co_creation_count + if suggests(before.modules@[k]) {
                1int
            } else {
                0int
            },
        suggestion_count(before.modules@, p, before.modules@.len() as int) > 0
            ==> after.propensity_to_co_create == raised(before.propensity_to_co_create),
        suggestion_count(before.modules@, p, before.modules@.len() as int) == 0
            ==> after.propensity_to_co_create == before.propensity_to_co_create,
{
    let ms = before.modules@;
    lemma_suggestion_count_bound(ms, p, ms.len() as int);
    assert(ms[p].co_creation_count + ms.len() <= u32::MAX);
    assert forall|k: int| 0 <= k < ms.len() && k != p implies (
    #[trigger] after.modules@[k]).co_creation_count == ms[k].co_creation_count + if suggests(
        ms[k],
    ) {
        1int
    } else {
        0int
    } by {
        assert(ms[k].co_creation_count + ms.len() <= u32::MAX);
    }
}

/// Counts one more co-creation for module `k`.
fn bump_module(ms: &mut Vec<ModuleAgent>, k: usize)
    requires
        k < old(ms)@.len(),
        old(ms)@[k as int].co_creation_count < u32::MAX,
    ensures
        final(ms)@ == old(ms)@.update(k as int, bumped(old(ms)@[k as int], 1)),
{
    let mut m = ms.remove(k);
    m.record_co_creation();
    ms.insert(k, m);
    assert(ms@ =~= old(ms)@.update(k as int, bumped(old(ms)@[k as int], 1)));
}

impl AgentOrchestrator {
    /// No modules, the initial propensity and the fixed prompts.
    pub fn new() -> (r: AgentOrchestrator)
        ensures
            r.modules@.len() == 0,
            r.propensity_to_co_create == INITIAL_PROPENSITY,
            texts(r.proactive_prompts@) == default_prompts(),
    {
        let proactive_prompts = vec![
            String::from_str("What would happen if we combined these concepts?"),
            String::from_str("How might we approach this from a different perspective?"),
            String::from_str("What underlying patterns connect these ideas?"),
        ];
        assert(texts(proactive_prompts@) =~= default_prompts());
        AgentOrchestrator {
            modules: Vec::new(),
            propensity_to_co_create: INITIAL_PROPENSITY,
            proactive_prompts,
        }
    }

    /// Adds `module`, replacing the first module of the same name in place
    /// (the last registration wins), else appending it.
    pub fn register_module(&mut self, module: ModuleAgent)
        ensures
            final(self).propensity_to_co_create == old(self).propensity_to_co_create,
            final(self).proactive_prompts == old(self).proactive_prompts,
            lacks_module(old(self).modules@, module.name@) ==> final(self).modules@ == old(self).modules@.push(module),
            forall|i: int|
                is_first_module_named(old(self).modules@, module.name@, i) ==> final(self).modules@ == old(self).modules@.update(i, module),
            names_unique(old(self).modules@) ==> names_unique(final(self).modules@),
    {
        let ghost ms = self.modules@;
        let mut i: usize = 0;
        while i < self.modules.len()
            invariant
                i <= self.modules@.len(),
                self.modules@ == ms,
                ms == old(self).modules@,
                self.propensity_to_co_create == old(self).propensity_to_co_create,
                self.proactive_prompts == old(self).proactive_prompts,
                forall|j: int| 0 <= j < i ==> ms[j].name@ != module.name@,
            decreases self.modules@.len() - i,
        {
            if self.modules[i].name == module.name {
                let _old = self.modules.set(i, module);
                assert(is_first_module_named(ms, module.name@, i as int));
                return;
            }
            i = i + 1;
        }
        self.modules.push(module);
    }

    /// The name of the module whose best match is most similar to `query`,
    /// the earliest among equals; nothing when no module has a match. Fails
    /// with `InvalidInput` when some module holds a concept whose dimension
    /// differs from the query's. The modules are left as they were.
    pub fn route_input(&mut self, query: &Vec<i16>) -> (r: Result<Option<String>, VectorError>)
        requires
            query@.len() <= MAX_DIM,
        ensures
            *final(self) == *old(self),
            r is Err <==> !all_dims_match(old(self).modules@, query@),
            r is Err ==> r == Err::<Option<String>, VectorError>(VectorError::InvalidInput),
            r matches Ok(o) ==> (o is None <==> top(module_scores(old(self).modules@, query@))
                is None),
            r matches Ok(Some(n)) ==> exists|k: int|
                is_first_top(module_scores(old(self).modules@, query@), k) && n@ == old(self).modules@[k].name@,
    {
        let ghost ms = self.modules@;
        let ghost s = module_scores(ms, query@);
        let mut best: Option<usize> = None;
        let mut best_sim: i32 = 0;
        let mut k: usize = 0;
        while k < self.modules.len()
            invariant
                k <= self.modules@.len(),
                *self == *old(self),
                ms == self.modules@,
                s == module_scores(ms, query@),
                query@.len() <= MAX_DIM,
                forall|j: int|
                    0 <= j < k ==> dims_match(views(#[trigger] ms[j].local_engine.concepts@), query@),
                best is None <==> top_upto(s, k as int) is None,
                best matches Some(b) ==> is_first_top_upto(s, k as int, b as int),
                best matches Some(b) ==> top_upto(s, k as int) == Some(best_sim as int),
            decreases self.modules@.len() - k,
        {
            let ghost cs = views(ms[k as int].local_engine.concepts@);
            let found = self.modules[k].local_engine.find_best_match(query);
            let score: Option<i32> = match found {
                Err(e) => {
                    return Err(e);
                },
                Ok(None) => None,
                Ok(Some(c)) => {
                    let sim = match cosine_similarity(query, &c.vector) {
                        Ok(v) => v,
                        Err(e) => {
                            return Err(e);
                        },
                    };
                    proof {
                        let i = choose|i: int|
                            is_first_top(match_scores(cs, query@), i) && c@ == cs[i];
                        assert(cs[i].vector.len() == query@.len());
                        lemma_cosine_symmetric(query@, cs[i].vector);
                    }
                    Some(sim)
                },
            };
            proof {
                lemma_top_step(
                    s,
                    k as int,
                    match best {
                        Some(b) => Some(b as int),
                        None => None,
                    },
                );
                assert(s[k as int] == match score {
                    Some(v) => Some(v as int),
                    None => None::<int>,
                });
            }
            match score {
                None => {},
                Some(sim) => {
                    match best {
                        None => {
                            best = Some(k);
                            best_sim = sim;
                        },
                        Some(_) => {
                            if sim > best_sim {
                                best = Some(k);
                                best_sim = sim;
                            }
                        },
                    }
                },
            }
            k = k + 1;
        }
        match best {
            None => Ok(None),
            Some(b) => {
                assert(is_first_top(s, b as int));
                Ok(Some(self.modules[b].name.clone()))
            },
        }
    }

    /// Runs a co-creation round with primary module `primary`. Without such a
    /// module the result is a warning and nothing changes. Otherwise every
    /// other module that owns a concept suggests its most curious one: each
    /// suggestion counts one co-creation for the suggesting module and one
    /// for the primary module, and adds a report line. After at least one
    /// suggestion the propensity rises by one step, capped; after none the
    /// report says so and the propensity is kept.
    pub fn co_create(&mut self, primary: &str, input: &str) -> (r: String)
        requires
            counts_have_room(*old(self)),
        ensures
            is_round(*old(self), primary@, input@, *final(self), r@),
    {
        let ghost ms = self.modules@;
        let target = primary.to_owned();
        let mut p: usize = 0;
        let mut found = false;
        while p < self.modules.len() && !found
            invariant
                p <= ms.len(),
                ms == self.modules@,
                target@ == primary@,
                found ==> p < ms.len() && ms[p as int].name@ == primary@,
                forall|j: int| 0 <= j < p ==> ms[j].name@ != primary@,
            decreases ms.len() - p + if found { 0int } else { 1int },
        {
            if self.modules[p].name == target {
                found = true;
            } else {
                p = p + 1;
            }
        }
        if !found {
            return String::from_str("⚠️ Primary module not found\n");
        }
        assert(is_first_module_named(ms, primary@, p as int));
        let mut result = String::from_str("🧠 Primary module '");
        result.append(primary);
        result.append("' processing: ");
        result.append(input);
        result.append("\n");
        let mut count: usize = 0;
        let mut k: usize = 0;
        assert(self.modules@ =~= after_round(ms, p as int, 0));
        while k < self.modules.len()
            invariant
                k <= ms.len(),
                p < ms.len(),
                self.modules@.len() == ms.len(),
                self.modules@ == after_round(ms, p as int, k as int),
                count == suggestion_count(ms, p as int, k as int),
                count <= k,
                result@ == report_header(primary@, input@) + suggestion_lines(ms, p as int, k as int),
                forall|j: int|
                    0 <= j < ms.len() ==> (#[trigger] ms[j]).co_creation_count + ms.len() <= u32::MAX,
                self.propensity_to_co_create == old(self).propensity_to_co_create,
                self.proactive_prompts == old(self).proactive_prompts,
            decreases ms.len() - k,
        {
            let ghost before = self.modules@;
            if k != p && self.modules[k].concepts.len() > 0 {
                assert(self.modules@[k as int] == ms[k as int]);
                let suggestion = match self.modules[k].suggest_concept(primary) {
                    Some(c) => c.name.clone(),
                    None => String::new(),
                };
                let peer = self.modules[k].name.clone();
                bump_module(&mut self.modules, k);
                bump_module(&mut self.modules, p);
                result.append("💡 Module '");
                result.append(peer.as_str());
                result.append("' suggests: ");
                result.append(suggestion.as_str());
                result.append("\n");
                count = count + 1;
                proof {
                    assert(self.modules@ =~= after_round(ms, p as int, k + 1));
                    assert(result@ =~= report_header(primary@, input@) + suggestion_lines(
                        ms,
                        p as int,
                        k + 1,
                    ));
                }
            } else {
                proof {
                    assert(self.modules@ =~= after_round(ms, p as int, k + 1));
                    assert(suggestion_lines(ms, p as int, k + 1) =~= suggestion_lines(
                        ms,
                        p as int,
                        k as int,
                    ));
                }
            }
            k = k + 1;
        }
        if count > 0 {
            if self.propensity_to_co_create < PROPENSITY_CAP - PROPENSITY_STEP {
                self.propensity_to_co_create = self.propensity_to_co_create + PROPENSITY_STEP;
            } else {
                self.propensity_to_co_create = PROPENSITY_CAP;
            }
        } else {
            result.append("🔍 No co-creation suggestions available\n");
        }
        result
    }

    /// The prompt at position `floor(propensity * number of prompts)`, or the
    /// first prompt when that position is out of range.
    pub fn generate_proactive_prompt(&self) -> (r: &str)
        requires
            self.proactive_prompts@.len() > 0,
        ensures
            r@ == self.proactive_prompts@[prompt_index(
                self.propensity_to_co_create,
                self.proactive_prompts@.len() as int,
            )]@,
    {
        let n = self.proactive_prompts.len();
        assert((self.propensity_to_co_create as u128) * (n as u128) <= 0xffff_ffff
            * 0xffff_ffff_ffff_ffff) by (nonlinear_arith)
            requires
                self.propensity_to_co_create <= 0xffff_ffff,
                n <= 0xffff_ffff_ffff_ffff,
        ;
        let i: u128 = ((self.propensity_to_co_create as u128) * (n as u128)) / (SCALE as u128);
        if i < n as u128 {
            self.proactive_prompts[i as usize].as_str()
        } else {
            self.proactive_prompts[0].as_str()
        }
    }
}

impl Default for AgentOrchestrator {
    fn default() -> (r: AgentOrchestrator)
        ensures
            r.modules@.len() == 0,
            r.propensity_to_co_create == INITIAL_PROPENSITY,
            texts(r.proactive_prompts@) == default_prompts(),
    {
        AgentOrchestrator::new()
    }
}

} // verus!
