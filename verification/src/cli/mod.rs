use vstd::prelude::*;

verus! {

/// The model providers that a run can talk to.
#[derive(Debug, Clone, Copy, PartialEq, Eq, Structural)]
pub enum ProviderKind {
    OpenAI,
    Anthropic,
    Ollama,
}

} // verus!
