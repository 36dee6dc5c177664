use starweave_mvp::agent_orchestrator::AgentOrchestrator;
use starweave_mvp::concepts::{ConceptVector, SimilarityEngine};
use starweave_mvp::module_agent::ModuleAgent;
use starweave_mvp::vector_math::VectorError;

fn concept(name: &str, vector: Vec<i16>, threshold: i32, curiosity: u32) -> ConceptVector {
    ConceptVector {
        name: name.to_string(),
        vector,
        stochastic_state: [1_000_000, 0],
        threshold,
        last_interaction_time: 0,
        curiosity_score: curiosity,
    }
}

fn seeded_modules() -> AgentOrchestrator {
    let engine = SimilarityEngine::with_seed_time(0);
    let mut orchestrator = AgentOrchestrator::new();
    for c in &engine.concepts {
        orchestrator.register_module(ModuleAgent::new(&c.name, vec![c.clone()]));
    }
    orchestrator
}

#[test]
fn module_copies_concepts_independently() {
    let mut m = ModuleAgent::new("M", vec![concept("A", vec![1, 0], 0, 300_000)]);
    m.concepts[0].curiosity_score = 1;
    assert_eq!(m.local_engine.concepts[0].curiosity_score, 300_000);
    assert_eq!(m.co_creation_count, 0);
    assert_eq!(m.name, "M");
}

#[test]
fn module_process_input_delegates_to_engine() {
    let mut m = ModuleAgent::new("M", vec![concept("A", vec![1, 0], 500_000, 300_000)]);
    assert_eq!(m.process_input(&vec![3, 0]).unwrap().unwrap().name, "A");
    assert!(m.process_input(&vec![0, 3]).unwrap().is_none());
    assert_eq!(m.process_input(&vec![1]).unwrap_err(), VectorError::InvalidInput);
}

#[test]
fn suggest_concept_picks_most_curious_last_among_ties() {
    let m = ModuleAgent::new(
        "M",
        vec![
            concept("A", vec![1, 0], 0, 300_000),
            concept("B", vec![1, 0], 0, 700_000),
            concept("C", vec![1, 0], 0, 700_000),
            concept("D", vec![1, 0], 0, 100_000),
        ],
    );
    assert_eq!(m.suggest_concept("anyone").unwrap().name, "C");
    let empty = ModuleAgent::new("E", vec![]);
    assert!(empty.suggest_concept("anyone").is_none());
}

#[test]
fn record_co_creation_counts_up() {
    let mut m = ModuleAgent::new("M", vec![]);
    m.record_co_creation();
    m.record_co_creation();
    assert_eq!(m.co_creation_count, 2);
}

#[test]
fn register_module_last_write_wins() {
    let mut o = AgentOrchestrator::new();
    o.register_module(ModuleAgent::new("A", vec![]));
    o.register_module(ModuleAgent::new("B", vec![]));
    o.register_module(ModuleAgent::new("A", vec![concept("X", vec![1], 0, 1)]));
    assert_eq!(o.modules.len(), 2);
    assert_eq!(o.modules[0].name, "A");
    assert_eq!(o.modules[0].concepts.len(), 1);
    assert_eq!(o.modules[1].name, "B");
}

#[test]
fn route_input_picks_best_module() {
    let mut o = seeded_modules();
    assert_eq!(o.route_input(&vec![850, -150, 450]), Ok(Some("Curiosity".to_string())));
    assert_eq!(o.route_input(&vec![200, 800, -100]), Ok(Some("Aesthetics".to_string())));
    assert_eq!(o.route_input(&vec![0, 0, 0]), Ok(None));
    assert_eq!(o.route_input(&vec![1, 2]), Err(VectorError::InvalidInput));
}

#[test]
fn route_input_first_module_wins_ties() {
    let mut o = AgentOrchestrator::new();
    o.register_module(ModuleAgent::new("One", vec![concept("A", vec![2, 0], 0, 1)]));
    o.register_module(ModuleAgent::new("Two", vec![concept("B", vec![5, 0], 0, 1)]));
    assert_eq!(o.route_input(&vec![1, 0]), Ok(Some("One".to_string())));
}

#[test]
fn co_create_unknown_primary_warns_and_changes_nothing() {
    let mut o = seeded_modules();
    let report = o.co_create("Nobody", "hello");
    assert_eq!(report, "⚠️ Primary module not found\n");
    assert!(o.modules.iter().all(|m| m.co_creation_count == 0));
    assert_eq!(o.propensity_to_co_create, 300_000);
}

#[test]
fn co_create_round_counts_and_raises_propensity() {
    let mut o = seeded_modules();
    let report = o.co_create("Curiosity", "stars");
    assert_eq!(
        report,
        "🧠 Primary module 'Curiosity' processing: stars\n\
         💡 Module 'Aesthetics' suggests: Aesthetics\n\
         💡 Module 'Verification' suggests: Verification\n"
    );
    assert_eq!(o.modules[0].co_creation_count, 2);
    assert_eq!(o.modules[1].co_creation_count, 1);
    assert_eq!(o.modules[2].co_creation_count, 1);
    assert_eq!(o.propensity_to_co_create, 400_000);
}

#[test]
fn co_create_propensity_is_capped() {
    let mut o = seeded_modules();
    for _ in 0..10 {
        o.co_create("Aesthetics", "x");
    }
    assert_eq!(o.propensity_to_co_create, 900_000);
    assert_eq!(o.modules[1].co_creation_count, 20);
}

#[test]
fn co_create_without_suggestions_keeps_propensity() {
    let mut o = AgentOrchestrator::new();
    o.register_module(ModuleAgent::new("Solo", vec![concept("A", vec![1], 0, 1)]));
    o.register_module(ModuleAgent::new("Empty", vec![]));
    let report = o.co_create("Solo", "hi");
    assert_eq!(
        report,
        "🧠 Primary module 'Solo' processing: hi\n🔍 No co-creation suggestions available\n"
    );
    assert_eq!(o.propensity_to_co_create, 300_000);
    assert_eq!(o.modules[0].co_creation_count, 0);
}

#[test]
fn proactive_prompt_follows_propensity() {
    let mut o = AgentOrchestrator::new();
    // 0.3 * 3 = 0.9 -> first prompt
    assert_eq!(o.generate_proactive_prompt(), "What would happen if we combined these concepts?");
    o.propensity_to_co_create = 400_000;
    assert_eq!(
        o.generate_proactive_prompt(),
        "How might we approach this from a different perspective?"
    );
    o.propensity_to_co_create = 900_000;
    assert_eq!(o.generate_proactive_prompt(), "What underlying patterns connect these ideas?");
    o.propensity_to_co_create = 1_000_000;
    assert_eq!(o.generate_proactive_prompt(), "What would happen if we combined these concepts?");
}
