use starweave_mvp::actions::{action_kind, ActionKind, ActionSystem};
use starweave_mvp::concepts::{ConceptVector, SimilarityEngine};
use starweave_mvp::embedding::EmbeddingGenerator;
use starweave_mvp::module_agent::ModuleAgent;

fn named(name: &str) -> ConceptVector {
    ConceptVector {
        name: name.to_string(),
        ..ConceptVector::neutral(0)
    }
}

#[test]
fn action_kinds_resolve_from_names() {
    assert_eq!(action_kind(&"Curiosity".to_string()), ActionKind::Curiosity);
    assert_eq!(action_kind(&"Aesthetics".to_string()), ActionKind::Aesthetics);
    assert_eq!(action_kind(&"Verification".to_string()), ActionKind::Verification);
    assert_eq!(action_kind(&"Other".to_string()), ActionKind::Fallback);
}

#[test]
fn curiosity_response_shows_clamped_boost() {
    let mut a = ActionSystem::new();
    assert_eq!(
        a.trigger_action(&named("Curiosity"), "hi"),
        "🔍 Curiosity matched (score: 0.10). Researching deeper aspects of: hi"
    );
    let text = "a".repeat(33);
    assert_eq!(
        a.trigger_action(&named("Curiosity"), &text),
        format!("🔍 Curiosity matched (score: 0.33). Researching deeper aspects of: {text}")
    );
    let long = "b".repeat(80);
    assert!(a
        .trigger_action(&named("Curiosity"), &long)
        .starts_with("🔍 Curiosity matched (score: 0.50)."));
}

#[test]
fn responses_and_log_entries_per_kind() {
    let mut a = ActionSystem::default();
    assert_eq!(
        a.trigger_action(&named("Aesthetics"), "art"),
        "🎨 Aesthetics matched. Considering artistic interpretations for: art"
    );
    assert_eq!(
        a.trigger_action(&named("Verification"), "fact"),
        "🔬 Verification matched. Cross-referencing facts about: fact"
    );
    assert_eq!(a.trigger_action(&ConceptVector::default(), "x"), "Standard response generated.");
    assert_eq!(
        a.get_recent_actions(),
        vec![
            "[Aesthetics] Creating: art".to_string(),
            "[Verification] Verifying: fact".to_string(),
            "[Default] Processing: x".to_string(),
        ]
    );
    assert_eq!(a.memory, vec!["art".to_string(), "fact".to_string(), "x".to_string()]);
}

#[test]
fn action_log_keeps_the_last_fifty() {
    let mut a = ActionSystem::new();
    for i in 0..60 {
        a.trigger_action(&named("Other"), &i.to_string());
    }
    let log = a.get_recent_actions();
    assert_eq!(log.len(), 50);
    assert_eq!(log[0], "[Default] Processing: 10");
    assert_eq!(log[49], "[Default] Processing: 59");
}

#[test]
fn toggle_logs_mode() {
    let mut a = ActionSystem::new();
    a.toggle_co_creation();
    assert!(a.co_creation_mode);
    a.toggle_co_creation();
    assert!(!a.co_creation_mode);
    assert_eq!(
        a.get_recent_actions(),
        vec!["Co-creation mode ENABLED".to_string(), "Co-creation mode DISABLED".to_string()]
    );
}

#[test]
fn co_creation_mode_appends_round_report() {
    let mut a = ActionSystem::new();
    let engine = SimilarityEngine::with_seed_time(0);
    for c in &engine.concepts {
        a.orchestrator.register_module(ModuleAgent::new(&c.name, vec![c.clone()]));
    }
    a.toggle_co_creation();
    let r = a.trigger_action(&named("Verification"), "q");
    assert_eq!(
        r,
        "🔬 Verification matched. Cross-referencing facts about: q\n\n🤝 Co-Creation:\n\
         🧠 Primary module 'Verification' processing: q\n\
         💡 Module 'Curiosity' suggests: Curiosity\n\
         💡 Module 'Aesthetics' suggests: Aesthetics\n"
    );
    assert_eq!(a.orchestrator.modules[2].co_creation_count, 2);
}

#[test]
fn embedding_generator_is_created() {
    assert!(EmbeddingGenerator::new().is_ok());
}
