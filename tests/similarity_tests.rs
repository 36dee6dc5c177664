use starweave_mvp::concepts::{ConceptVector, SimilarityEngine};
use starweave_mvp::vector_math::{cosine_similarity, VectorError};

fn concept(name: &str, vector: Vec<i16>, threshold: i32) -> ConceptVector {
    ConceptVector {
        name: name.to_string(),
        vector,
        stochastic_state: [1_000_000, 0],
        threshold,
        last_interaction_time: 0,
        curiosity_score: 500_000,
    }
}

#[test]
fn cosine_is_symmetric() {
    let a = vec![900, -200, 500];
    let b = vec![200, 800, -100];
    assert_eq!(cosine_similarity(&a, &b), cosine_similarity(&b, &a));
}

#[test]
fn cosine_of_nonzero_vector_with_itself_is_one() {
    let a = vec![3, -7, 11];
    assert_eq!(cosine_similarity(&a, &a), Ok(1_000_000));
}

#[test]
fn cosine_with_zero_norm_is_zero() {
    let a = vec![0, 0, 0];
    let b = vec![1, 2, 3];
    assert_eq!(cosine_similarity(&a, &b), Ok(0));
    assert_eq!(cosine_similarity(&b, &a), Ok(0));
}

#[test]
fn cosine_exact_values() {
    // orthogonal and opposite vectors
    assert_eq!(cosine_similarity(&vec![1, 0], &vec![0, 5]), Ok(0));
    assert_eq!(cosine_similarity(&vec![2, 0], &vec![-3, 0]), Ok(-1_000_000));
    // 3-4-5: dot 3, norms 1 and 5 -> 0.6
    assert_eq!(cosine_similarity(&vec![1, 0], &vec![3, 4]), Ok(600_000));
    // 1/sqrt(2) truncated: isqrt(2) = 1 -> dot 1 * 10^6 / isqrt(1 * 2)
    assert_eq!(cosine_similarity(&vec![1, 1], &vec![1, 0]), Ok(1_000_000));
    // dot 900*850 + (-200)(-150) + 500*450 = 1_020_000
    // squared norms 1_100_000 and 947_500; isqrt(1_042_250_000_000) = 1_020_906
    assert_eq!(
        cosine_similarity(&vec![900, -200, 500], &vec![850, -150, 450]),
        Ok(999_112)
    );
}

#[test]
fn cosine_dimension_mismatch_is_invalid_input() {
    assert_eq!(
        cosine_similarity(&vec![1, 2], &vec![1, 2, 3]),
        Err(VectorError::InvalidInput)
    );
}

#[test]
fn seed_engine_matches_curiosity() {
    let engine = SimilarityEngine::new();
    assert_eq!(engine.concepts.len(), 3);
    let m = engine.find_best_match(&vec![850, -150, 450]).unwrap().unwrap();
    assert_eq!(m.name, "Curiosity");
    assert_eq!(m.curiosity_score, 850_000);
}

#[test]
fn no_match_when_every_similarity_is_at_or_below_threshold() {
    let engine = SimilarityEngine {
        concepts: vec![
            concept("A", vec![1, 0], 1_000_000),
            concept("B", vec![0, 1], 0),
        ],
    };
    // A: similarity exactly 1.0, not above its threshold; B: 0, not above 0
    assert!(engine.find_best_match(&vec![1, 0]).unwrap().is_none());
}

#[test]
fn best_match_takes_highest_similarity_and_first_among_ties() {
    let engine = SimilarityEngine {
        concepts: vec![
            concept("Low", vec![1, 1], 0),
            concept("First", vec![2, 0], 0),
            concept("Second", vec![3, 0], 0),
        ],
    };
    let m = engine.find_best_match(&vec![5, 0]).unwrap().unwrap();
    assert_eq!(m.name, "First");
}

#[test]
fn best_match_dimension_mismatch() {
    let engine = SimilarityEngine::new();
    assert!(matches!(
        engine.find_best_match(&vec![1, 2]),
        Err(VectorError::InvalidInput)
    ));
}

#[test]
fn best_match_returns_an_independent_copy() {
    let engine = SimilarityEngine::new();
    let mut m = engine.find_best_match(&vec![900, -200, 500]).unwrap().unwrap();
    m.curiosity_score = 1;
    assert_eq!(engine.concepts[0].curiosity_score, 850_000);
}

#[test]
fn touch_concept_updates_only_first_named() {
    let mut engine = SimilarityEngine {
        concepts: vec![
            concept("A", vec![1, 0], 0),
            concept("B", vec![0, 1], 0),
            concept("B", vec![1, 1], 0),
        ],
    };
    engine.touch_concept("B", 42);
    assert_eq!(engine.concepts[0].last_interaction_time, 0);
    assert_eq!(engine.concepts[1].last_interaction_time, 42);
    assert_eq!(engine.concepts[2].last_interaction_time, 0);
    engine.touch_concept("Z", 7);
    assert_eq!(engine.concepts[1].last_interaction_time, 42);
}

#[test]
fn update_after_interaction_stamps_current_time() {
    let mut engine = SimilarityEngine::with_seed_time(0);
    engine.update_concept_after_interaction("Aesthetics");
    assert!(engine.concepts[1].last_interaction_time > 0);
    assert_eq!(engine.concepts[0].last_interaction_time, 0);
}

#[test]
fn default_concept_is_neutral() {
    let c = ConceptVector::default();
    assert_eq!(c.name, "Default");
    assert_eq!(c.vector, vec![0, 0, 0]);
    assert_eq!(c.stochastic_state, [500_000, 500_000]);
    assert_eq!(c.threshold, 500_000);
    assert_eq!(c.curiosity_score, 500_000);
}
