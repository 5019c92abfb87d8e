//! The Ollama provider: an OpenAI-compatible Responses endpoint on the local machine.
use vstd::prelude::*;

use super::auth::StaticCredentialSource;
use super::definition::{build_definition, builtin_name, opt_seq, BuiltinProvider, ProviderDefinition, ProviderDescriptor};

verus! {

/// Where a local Ollama server listens by default.
pub const DEFAULT_BASE_URL: &'static str = "http://127.0.0.1:11434/";

/// Description of the Ollama preset.
pub const OLLAMA_DESCRIPTION: &'static str = "Ollama OpenAI-compatible Responses API provider";

/// A provider talking to an Ollama server through its OpenAI-compatible API.
#[derive(Debug, Clone)]
pub struct OllamaProvider {
    pub definition: ProviderDefinition,
    pub credentials: StaticCredentialSource,
}

impl OllamaProvider {
    /// The provider for a local server at the default address.
    pub fn new() -> (r: OllamaProvider)
        ensures
            r.definition.descriptor.id@ == builtin_name(BuiltinProvider::Ollama),
            opt_seq(r.definition.descriptor.display_name) == Some("Ollama"@),
            opt_seq(r.definition.base_url) == Some(DEFAULT_BASE_URL@),
    {
        OllamaProvider::with_base_url(DEFAULT_BASE_URL)
    }

    /// The provider for a server at `base_url`; the placeholder key `ollama` is sent as token.
    pub fn with_base_url(base_url: &str) -> (r: OllamaProvider)
        ensures
            r.definition.descriptor.id@ == builtin_name(BuiltinProvider::Ollama),
            opt_seq(r.definition.descriptor.display_name) == Some("Ollama"@),
            opt_seq(r.definition.descriptor.description) == Some(OLLAMA_DESCRIPTION@),
            opt_seq(r.definition.base_url) == Some(base_url@),
            r.credentials.key() == "ollama"@,
    {
        OllamaProvider {
            definition: build_definition(BuiltinProvider::Ollama, "Ollama", OLLAMA_DESCRIPTION, base_url),
            credentials: StaticCredentialSource::new("ollama"),
        }
    }

    /// The provider's descriptor.
    pub fn descriptor(&self) -> (r: ProviderDescriptor)
        ensures
            r.id@ == self.definition.descriptor.id@,
            opt_seq(r.display_name) == opt_seq(self.definition.descriptor.display_name),
            opt_seq(r.description) == opt_seq(self.definition.descriptor.description),
    {
        self.definition.descriptor()
    }
}

impl Default for OllamaProvider {
    fn default() -> (r: OllamaProvider)
        ensures
            r.definition.descriptor.id@ == builtin_name(BuiltinProvider::Ollama),
            opt_seq(r.definition.base_url) == Some(DEFAULT_BASE_URL@),
    {
        OllamaProvider::new()
    }
}

} // verus!
