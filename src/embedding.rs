//! The embedding provider's handle.
use vstd::prelude::*;

verus! {

/// The error type of the embedding provider.
#[verifier::external_type_specification]
#[verifier::external_body]
pub struct ExAnyhowError(anyhow::Error);

/// Turns text into vectors; the vectors themselves are computed outside the
/// library, by whoever drives it.
pub struct EmbeddingGenerator;

impl EmbeddingGenerator {
    /// A generator; creating one always succeeds.
    pub fn new() -> (r: Result<EmbeddingGenerator, anyhow::Error>)
        ensures
            r is Ok,
    {
        Ok(EmbeddingGenerator)
    }
}

} // verus!
