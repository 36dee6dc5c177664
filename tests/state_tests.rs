use starweave_mvp::concepts::ConceptVector;
use starweave_mvp::state::StateUpdater;
use std::time::{SystemTime, UNIX_EPOCH};

#[test]
fn test_state_evolution() {
    let now = SystemTime::now()
        .duration_since(UNIX_EPOCH)
        .unwrap()
        .as_secs();

    let mut concept = ConceptVector {
        name: "Test".to_string(),
        vector: vec![500, 500, 500],
        stochastic_state: [500_000, 500_000],
        threshold: 600_000,
        last_interaction_time: now - 3600, // 1 hour ago
        curiosity_score: 800_000,
    };

    let updater = StateUpdater::new();
    updater.update_state(&mut concept);

    // State should stay within [0,1] bounds
    assert!(concept.stochastic_state[0] <= 1_000_000);
    assert!(concept.stochastic_state[1] <= 1_000_000);
    assert!(concept.curiosity_score >= 100_000 && concept.curiosity_score <= 1_000_000);

    // Curiosity should decay over time
    assert!(concept.curiosity_score < 800_000);
}

#[test]
fn test_reflection_trigger() {
    let mut updater = StateUpdater {
        reflection_interval: 3,
        interaction_count: 0,
    };

    assert!(!updater.should_trigger_reflection()); // 1
    assert!(!updater.should_trigger_reflection()); // 2
    assert!(updater.should_trigger_reflection()); // 3 - trigger
    assert!(!updater.should_trigger_reflection()); // 1
}

fn sample(curiosity: u32, last: u64) -> ConceptVector {
    ConceptVector {
        name: "Sample".to_string(),
        vector: vec![100, 200, 300],
        stochastic_state: [500_000, 500_000],
        threshold: 500_000,
        last_interaction_time: last,
        curiosity_score: curiosity,
    }
}

#[test]
fn evolve_without_elapsed_time_is_exact() {
    let updater = StateUpdater::new();
    let mut c = sample(800_000, 1_000);
    // no time has passed: decay factor is one; boost is 80_000;
    // draws at one half give no drift
    updater.evolve_state(&mut c, 1_000, 500_000, 500_000);
    assert_eq!(c.curiosity_score, 800_000);
    assert_eq!(c.stochastic_state, [580_000, 580_000]);
    assert_eq!(c.last_interaction_time, 1_000);
}

#[test]
fn evolve_one_hour_decays_by_e() {
    let updater = StateUpdater::new();
    let mut c = sample(800_000, 0);
    updater.evolve_state(&mut c, 3_600, 0, 999_999);
    // 800_000 * 0.367879 = 294_303; boost 29_430
    assert_eq!(c.curiosity_score, 294_303);
    // 500_000 - 5_000 + 29_430 and 500_000 - (4_999 - 29_430)
    assert_eq!(c.stochastic_state, [524_430, 524_431]);
}

#[test]
fn evolve_clamps_state_and_curiosity() {
    let updater = StateUpdater::new();
    let mut c = ConceptVector {
        stochastic_state: [1_000_000, 0],
        ..sample(1_000_000, 0)
    };
    updater.evolve_state(&mut c, 360_000, 999_999, 999_999);
    assert_eq!(c.curiosity_score, 100_000);
    assert_eq!(c.stochastic_state, [1_000_000, 0]);
}

#[test]
fn evolve_future_timestamp_counts_as_no_elapsed_time() {
    let updater = StateUpdater::new();
    let mut c = sample(600_000, 5_000);
    updater.evolve_state(&mut c, 1_000, 500_000, 500_000);
    assert_eq!(c.curiosity_score, 600_000);
}

#[test]
fn reflection_interval_three_cadence() {
    let mut updater = StateUpdater {
        reflection_interval: 3,
        interaction_count: 0,
    };
    let got: Vec<bool> = (0..9).map(|_| updater.should_trigger_reflection()).collect();
    assert_eq!(got, vec![false, false, true, false, false, true, false, false, true]);
}

#[test]
fn reflection_default_interval_is_five() {
    let mut updater = StateUpdater::default();
    assert_eq!(updater.reflection_interval, 5);
    for _ in 0..4 {
        assert!(!updater.should_trigger_reflection());
    }
    assert!(updater.should_trigger_reflection());
    assert_eq!(updater.interaction_count, 0);
}

#[test]
fn update_state_draws_lie_below_one() {
    // With no curiosity left to boost, each component moves by its drift alone,
    // which stays in [-0.005, 0.005) for a draw in [0, 1).
    let updater = StateUpdater::new();
    for _ in 0..50 {
        let mut c = ConceptVector {
            stochastic_state: [0, 1_000_000],
            ..sample(100_000, 0)
        };
        updater.update_state(&mut c);
        assert!(c.stochastic_state[0] < 5_000);
        assert!(c.stochastic_state[1] > 995_000);
        assert_eq!(c.curiosity_score, 100_000);
    }
}
