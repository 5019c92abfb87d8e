//! The Responses-protocol presets: OpenAI and OpenRouter, each a definition and a static key.
use vstd::prelude::*;

use super::auth::StaticCredentialSource;
use super::definition::{
    build_definition, is_preset, BuiltinProvider, ProviderDefinition, DEFAULT_OPENAI_BASE_URL,
    DEFAULT_OPENROUTER_BASE_URL,
};

verus! {

pub const OPENAI_DESCRIPTION: &'static str = "OpenAI Responses API provider";
pub const OPENROUTER_DESCRIPTION: &'static str = "OpenRouter Responses API provider";

/// A provider of the Responses protocol: its definition and its credential source.
#[derive(Debug, Clone)]
pub struct ResponsesProvider {
    definition: ProviderDefinition,
    credential_source: StaticCredentialSource,
}

impl ResponsesProvider {
    pub closed spec fn spec_definition(&self) -> ProviderDefinition {
        self.definition
    }

    pub closed spec fn key(&self) -> Seq<char> {
        self.credential_source.key()
    }

    pub fn new(definition: ProviderDefinition, credential_source: StaticCredentialSource) -> (r: ResponsesProvider)
        ensures
            r.spec_definition() == definition,
            r.key() == credential_source.key(),
    {
        ResponsesProvider { definition, credential_source }
    }

    /// The OpenAI preset with `api_key`.
    pub fn openai(api_key: &str) -> (r: ResponsesProvider)
        ensures
            is_preset(r.spec_definition(), BuiltinProvider::OpenAI, "OpenAI"@, OPENAI_DESCRIPTION@, DEFAULT_OPENAI_BASE_URL@),
            r.key() == api_key@,
    {
        ResponsesProvider::new(
            build_definition(BuiltinProvider::OpenAI, "OpenAI", OPENAI_DESCRIPTION, DEFAULT_OPENAI_BASE_URL),
            StaticCredentialSource::new(api_key),
        )
    }

    /// The OpenRouter preset with `api_key`.
    pub fn openrouter(api_key: &str) -> (r: ResponsesProvider)
        ensures
            is_preset(
                r.spec_definition(),
                BuiltinProvider::OpenRouter,
                "OpenRouter"@,
                OPENROUTER_DESCRIPTION@,
                DEFAULT_OPENROUTER_BASE_URL@,
            ),
            r.key() == api_key@,
    {
        ResponsesProvider::new(
            build_definition(BuiltinProvider::OpenRouter, "OpenRouter", OPENROUTER_DESCRIPTION, DEFAULT_OPENROUTER_BASE_URL),
            StaticCredentialSource::new(api_key),
        )
    }

    pub fn definition(&self) -> (r: &ProviderDefinition)
        ensures
            *r == self.spec_definition(),
    {
        &self.definition
    }

    pub fn credential_source(&self) -> (r: &StaticCredentialSource)
        ensures
            r.key() == self.key(),
    {
        &self.credential_source
    }
}

/// The OpenAI preset with `api_key`.
pub fn openai(api_key: &str) -> (r: ResponsesProvider)
    ensures
        is_preset(r.spec_definition(), BuiltinProvider::OpenAI, "OpenAI"@, OPENAI_DESCRIPTION@, DEFAULT_OPENAI_BASE_URL@),
        r.key() == api_key@,
{
    ResponsesProvider::openai(api_key)
}

/// The OpenRouter preset with `api_key`.
pub fn openrouter(api_key: &str) -> (r: ResponsesProvider)
    ensures
        is_preset(
            r.spec_definition(),
            BuiltinProvider::OpenRouter,
            "OpenRouter"@,
            OPENROUTER_DESCRIPTION@,
            DEFAULT_OPENROUTER_BASE_URL@,
        ),
        r.key() == api_key@,
{
    ResponsesProvider::openrouter(api_key)
}

} // verus!
