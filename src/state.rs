//! Time-decayed, stochastic evolution of a concept's state, and the
//! reflection cadence.
use vstd::prelude::*;
use rand::Rng;
use crate::concepts::{now_secs, ConceptVector, ConceptView};
use crate::vector_math::SCALE;

verus! {

/// `e^-1` in millionths: the decay over one hour.
pub const HOUR_RATIO: u64 = 367_879;

/// `e^(-1/60)` in millionths: the decay over one minute.
pub const MINUTE_RATIO: u64 = 983_471;

/// Default number of interactions between two reflections.
pub const DEFAULT_REFLECTION_INTERVAL: u32 = 5;

/// `f` scaled by `ratio` millionths `n` times, rounding down each time.
pub open spec fn shrink(f: int, ratio: int, n: nat) -> int
    decreases n,
{
    if n == 0 || f <= 0 {
        f
    } else {
        shrink((f * ratio) / (SCALE as int), ratio, (n - 1) as nat)
    }
}

/// The decay factor `e^(-t / 3600)` in millionths for `t` elapsed seconds:
/// `e^-1` per whole hour, `e^(-1/60)` per further whole minute, and a linear
/// step `1 - s / 3600` for the remaining `s` seconds.
pub open spec fn decay_factor(t: nat) -> int {
    let within_minute = (SCALE * (3600 - (t % 60) as int)) / 3600;
    shrink(shrink(within_minute, MINUTE_RATIO as int, ((t % 3600) / 60) as nat), HOUR_RATIO as int, t / 3600)
}

/// Seconds from `last` to `now`; zero for a time in the future.
pub open spec fn elapsed(last: u64, now: u64) -> nat {
    if now >= last {
        (now - last) as nat
    } else {
        0
    }
}

/// `x` limited to `[lo, hi]`.
pub open spec fn clamp(x: int, lo: int, hi: int) -> int {
    if x < lo {
        lo
    } else if x > hi {
        hi
    } else {
        x
    }
}

/// The drift `0.01 * (r - 0.5)` in millionths, for a draw `r` in millionths.
pub open spec fn noise(r: u32) -> int {
    r / 100 - 5000
}

/// The curiosity score after decay, before clamping.
pub open spec fn decayed_curiosity(c: ConceptView, now: u64) -> int {
    (c.curiosity_score * decay_factor(elapsed(c.last_interaction_time, now))) / (SCALE as int)
}

/// The state of `c` after one evolution step at time `now` with draws `r0`, `r1`:
/// the curiosity decays, a boost of a tenth of the decayed curiosity pushes
/// the first component up and the second one down with the drift of each
/// draw, and everything is clamped.
pub open spec fn evolved(c: ConceptView, now: u64, r0: u32, r1: u32) -> ConceptView {
    let cur = decayed_curiosity(c, now);
    let boost = cur / 10;
    ConceptView {
        state0: clamp(c.state0 + noise(r0) + boost, 0, SCALE as int) as u32,
        state1: clamp(c.state1 - (noise(r1) - boost), 0, SCALE as int) as u32,
        curiosity_score: clamp(cur, (SCALE / 10) as int, SCALE as int) as u32,
        ..c
    }
}

/// The state components lie in `[0, SCALE]` and the curiosity in `[SCALE / 10, SCALE]`.
pub open spec fn state_in_bounds(c: ConceptView) -> bool {
    &&& c.state0 <= SCALE
    &&& c.state1 <= SCALE
    &&& SCALE / 10 <= c.curiosity_score <= SCALE
}

proof fn lemma_shrink_bounds(f: int, ratio: int, n: nat)
    requires
        0 <= f,
        0 <= ratio <= SCALE,
    ensures
        0 <= shrink(f, ratio, n) <= f,
        n >= 1 ==> shrink(f, ratio, n) <= (f * ratio) / (SCALE as int),
    decreases n,
{
    if n > 0 && f > 0 {
        let g = (f * ratio) / (SCALE as int);
        assert(0 <= g <= f) by (nonlinear_arith)
            requires
                g == (f * ratio) / (SCALE as int),
                0 <= f,
                0 <= ratio <= SCALE,
        ;
        lemma_shrink_bounds(g, ratio, (n - 1) as nat);
    }
}

proof fn lemma_decay_bounds(t: nat)
    ensures
        0 <= decay_factor(t) <= SCALE,
        t >= 3600 ==> decay_factor(t) <= HOUR_RATIO,
{
    let w = (SCALE * (3600 - (t % 60) as int)) / 3600;
    assert(0 <= w <= SCALE);
    lemma_shrink_bounds(w, MINUTE_RATIO as int, ((t % 3600) / 60) as nat);
    let m = shrink(w, MINUTE_RATIO as int, ((t % 3600) / 60) as nat);
    lemma_shrink_bounds(m, HOUR_RATIO as int, t / 3600);
    if t >= 3600 {
        assert(t / 3600 >= 1);
        assert((m * HOUR_RATIO) / (SCALE as int) <= HOUR_RATIO) by (nonlinear_arith)
            requires
                0 <= m <= SCALE,
        ;
    }
}

/// Whatever the elapsed time and the draws, an evolution step leaves the
/// state components in `[0, SCALE]` and the curiosity in `[SCALE / 10, SCALE]`.
pub proof fn lemma_evolved_in_bounds(c: ConceptView, now: u64, r0: u32, r1: u32)
    ensures
        state_in_bounds(evolved(c, now, r0, r1)),
{
}

/// After an hour or more without interaction, a curiosity above the floor
/// `SCALE / 10` strictly decreases, whatever the draws.
pub proof fn lemma_curiosity_decays_after_an_hour(c: ConceptView, now: u64, r0: u32, r1: u32)
    requires
        elapsed(c.last_interaction_time, now) >= 3600,
        SCALE / 10 < c.curiosity_score <= SCALE,
    ensures
        evolved(c, now, r0, r1).curiosity_score < c.curiosity_score,
{
    let t = elapsed(c.last_interaction_time, now);
    lemma_decay_bounds(t);
    let d = decay_factor(t);
    let k = c.curiosity_score as int;
    assert((k * d) / (SCALE as int) <= (k * HOUR_RATIO) / (SCALE as int)) by (nonlinear_arith)
        requires
            0 <= d <= HOUR_RATIO,
            0 <= k,
    ;
    assert((k * HOUR_RATIO) / (SCALE as int) < k) by (nonlinear_arith)
        requires
            k > 0,
    ;
    assert(0 <= (k * d) / (SCALE as int)) by (nonlinear_arith)
        requires
            0 <= d,
            0 <= k,
    ;
}

/// Relies on `rand::Rng::gen_range` over the thread-local generator: a value
/// in `[0, bound)`; the range must not be empty.
#[verifier::external_body]
fn random_below(bound: u32) -> (r: u32)
    requires
        bound > 0,
    ensures
        r < bound,
{
    rand::thread_rng().gen_range(0..bound)
}

/// `f` scaled by `ratio` millionths `n` times.
fn shrink_exec(f: u64, ratio: u64, n: u64) -> (r: u64)
    requires
        f <= SCALE,
        ratio <= SCALE,
    ensures
        r == shrink(f as int, ratio as int, n as nat),
{
    let mut cur = f;
    let mut rem = n;
    while rem > 0 && cur > 0
        invariant
            cur <= SCALE,
            ratio <= SCALE,
            shrink(cur as int, ratio as int, rem as nat) == shrink(f as int, ratio as int, n as nat),
        decreases rem,
    {
        assert((cur * ratio) / (SCALE as int) <= SCALE) by (nonlinear_arith)
            requires
                cur <= SCALE,
                ratio <= SCALE,
        ;
        cur = (cur * ratio) / (SCALE as u64);
        rem = rem - 1;
    }
    cur
}

/// The decay factor for `t` elapsed seconds, in millionths.
fn decay_for(t: u64) -> (r: u64)
    ensures
        r == decay_factor(t as nat),
        r <= SCALE,
{
    proof {
        lemma_decay_bounds(t as nat);
    }
    let within_minute: u64 = ((SCALE as u64) * (3600 - t % 60)) / 3600;
    let m = shrink_exec(within_minute, MINUTE_RATIO, (t % 3600) / 60);
    proof {
        lemma_shrink_bounds(within_minute as int, MINUTE_RATIO as int, ((t % 3600) / 60) as nat);
    }
    shrink_exec(m, HOUR_RATIO, t / 3600)
}

fn clamp_exec(x: i64, lo: i64, hi: i64) -> (r: i64)
    requires
        lo <= hi,
    ensures
        r == clamp(x as int, lo as int, hi as int),
{
    if x < lo {
        lo
    } else if x > hi {
        hi
    } else {
        x
    }
}

/// Drives the evolution of matched concepts and the reflection cadence.
pub struct StateUpdater {
    pub reflection_interval: u32,
    pub interaction_count: u32,
}

/// The counter after one interaction with interval `n`, and whether it triggers.
pub open spec fn reflection_step(count: nat, n: nat) -> (nat, bool) {
    let c = count + 1;
    if c % n == 0 {
        (0, true)
    } else {
        (c, false)
    }
}

/// The counter after `k` interactions from a fresh counter.
pub open spec fn counter_after(n: nat, k: nat) -> nat
    decreases k,
{
    if k == 0 {
        0
    } else {
        reflection_step(counter_after(n, (k - 1) as nat), n).0
    }
}

/// Whether the `k`-th interaction (counting from one) triggers a reflection.
pub open spec fn triggers_at(n: nat, k: nat) -> bool {
    k >= 1 && reflection_step(counter_after(n, (k - 1) as nat), n).1
}

/// From a fresh counter with interval `n`, the `k`-th interaction triggers a
/// reflection exactly when `n` divides `k`: the counter after `k`
/// interactions is `k % n`.
pub proof fn lemma_reflection_cadence(n: nat, k: nat)
    requires
        n > 0,
    ensures
        counter_after(n, k) == k % n,
        k >= 1 ==> (triggers_at(n, k) <==> k % n == 0),
    decreases k,
{
    if k > 0 {
        lemma_reflection_cadence(n, (k - 1) as nat);
        let p = (k - 1) as nat;
        assert(counter_after(n, k) == reflection_step(counter_after(n, p), n).0);
        assert((p % n + 1) % n == k % n) by (nonlinear_arith)
            requires
                n > 0,
                k == p + 1,
        ;
        if (p % n + 1) % n != 0 {
            let c = p % n + 1;
            assert(c < n && c % n == c) by (nonlinear_arith)
                requires
                    n > 0,
                    c == p % n + 1,
                    c % n != 0,
            ;
        }
    } else {
        assert(0nat % n == 0) by (nonlinear_arith)
            requires
                n > 0,
        ;
    }
}

impl StateUpdater {
    /// A fresh counter with the default reflection interval.
    pub fn new() -> (r: StateUpdater)
        ensures
            r.reflection_interval == DEFAULT_REFLECTION_INTERVAL,
            r.interaction_count == 0,
    {
        StateUpdater { reflection_interval: DEFAULT_REFLECTION_INTERVAL, interaction_count: 0 }
    }

    /// One evolution step of `concept` at time `now` with the draws `r0` and
    /// `r1` (millionths). The interaction time is left as it was.
    pub fn evolve_state(&self, concept: &mut ConceptVector, now: u64, r0: u32, r1: u32)
        ensures
            final(concept)@ == evolved(old(concept)@, now, r0, r1),
            state_in_bounds(final(concept)@),
    {
        let t: u64 = if now >= concept.last_interaction_time {
            now - concept.last_interaction_time
        } else {
            0
        };
        let d = decay_for(t);
        let k = concept.curiosity_score as u64;
        assert(k * d <= 0xffff_ffff * SCALE) by (nonlinear_arith)
            requires
                k <= 0xffff_ffff,
                d <= SCALE,
        ;
        let cur: u64 = (k * d) / (SCALE as u64);
        assert(cur <= k) by (nonlinear_arith)
            requires
                cur == (k * d) / (SCALE as int),
                d <= SCALE,
        ;
        let boost: i64 = (cur / 10) as i64;
        let n0: i64 = (r0 / 100) as i64 - 5000;
        let n1: i64 = (r1 / 100) as i64 - 5000;
        let s0 = clamp_exec(concept.stochastic_state[0] as i64 + n0 + boost, 0, SCALE as i64);
        let s1 = clamp_exec(concept.stochastic_state[1] as i64 - (n1 - boost), 0, SCALE as i64);
        let c = clamp_exec(cur as i64, (SCALE / 10) as i64, SCALE as i64);
        concept.stochastic_state = [s0 as u32, s1 as u32];
        concept.curiosity_score = c as u32;
    }

    /// Evolves `concept` at the current time with two fresh uniform draws.
    pub fn update_state(&self, concept: &mut ConceptVector)
        ensures
            exists|now: u64, r0: u32, r1: u32|
                r0 < SCALE && r1 < SCALE && final(concept)@ == evolved(old(concept)@, now, r0, r1),
            state_in_bounds(final(concept)@),
    {
        let now = now_secs();
        let r0 = random_below(SCALE);
        let r1 = random_below(SCALE);
        self.evolve_state(concept, now, r0, r1);
    }

    /// Counts one interaction; true on every `reflection_interval`-th one,
    /// when the counter goes back to zero.
    pub fn should_trigger_reflection(&mut self) -> (r: bool)
        requires
            old(self).reflection_interval > 0,
            old(self).interaction_count < u32::MAX,
        ensures
            final(self).reflection_interval == old(self).reflection_interval,
            (final(self).interaction_count as nat, r) == reflection_step(
                old(self).interaction_count as nat,
                old(self).reflection_interval as nat,
            ),
    {
        self.interaction_count = self.interaction_count + 1;
        if self.interaction_count % self.reflection_interval == 0 {
            self.interaction_count = 0;
            true
        } else {
            false
        }
    }
}

impl Default for StateUpdater {
    fn default() -> (r: StateUpdater)
        ensures
            r.reflection_interval == DEFAULT_REFLECTION_INTERVAL,
            r.interaction_count == 0,
    {
        StateUpdater::new()
    }
}

} // verus!
