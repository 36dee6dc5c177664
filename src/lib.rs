//! A small concept-matching agent: exact cosine similarity over integer
//! vectors, a thresholded similarity search, time-decayed state evolution,
//! and a co-creation protocol between module agents.
pub mod vector_math;
pub mod ranking;
pub mod concepts;
pub mod state;
pub mod module_agent;
pub mod agent_orchestrator;
pub mod embedding;
pub mod actions;
