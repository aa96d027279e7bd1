//! The choice among the interchangeable model services.

use vstd::prelude::*;
use crate::text::str_eq;

verus! {

/// A service that completes text.
#[derive(Debug, Clone, Copy, PartialEq, Eq, Structural)]
pub enum Provider {
    Anthropic,
    OpenAi,
    OpenRouter,
}

impl Provider {
    /// The provider that a name selects. A name that is neither
    /// `anthropic` nor `openai` selects the router.
    pub open spec fn named(name: Seq<char>) -> Provider {
        if name == "anthropic"@ {
            Provider::Anthropic
        } else if name == "openai"@ {
            Provider::OpenAi
        } else {
            Provider::OpenRouter
        }
    }

    /// Selects a provider by name.
    pub fn from_name(name: &str) -> (provider: Provider)
        ensures
            provider == Provider::named(name@),
    {
        if str_eq(name, "anthropic") {
            Provider::Anthropic
        } else if str_eq(name, "openai") {
            Provider::OpenAi
        } else {
            Provider::OpenRouter
        }
    }
}

} // verus!
