//! What kind of credentials a provider expects, and the credentials resolved for it.
use vstd::prelude::*;

use super::definition::pairs_view;
use super::pairs::{law_set_pair, names_unique, set_pair, with_pair};

verus! {

/// What kind of auth material a provider expects.
#[derive(Debug, Clone, PartialEq, Eq)]
pub enum AuthScheme {
    NoAuth,
    BearerToken,
    Header { name: String },
    QueryParam { name: String },
}

impl Default for AuthScheme {
    fn default() -> (r: AuthScheme)
        ensures
            r is NoAuth,
    {
        AuthScheme::NoAuth
    }
}

/// Provider credentials resolved at runtime; `headers` holds name/value pairs.
#[derive(Debug, Clone, PartialEq, Eq)]
pub struct ProviderCredentials {
    pub bearer_token: Option<String>,
    pub account_id: Option<String>,
    pub headers: Vec<(String, String)>,
}

impl ProviderCredentials {
    /// No two credential headers share a name.
    pub open spec fn wf(&self) -> bool {
        names_unique(pairs_view(self.headers@))
    }

    /// Sets the credential header `name` to `value`.
    pub fn set_header(&mut self, name: &str, value: &str)
        ensures
            pairs_view(final(self).headers@) == with_pair(pairs_view(old(self).headers@), name@, value@),
            final(self).bearer_token == old(self).bearer_token,
            final(self).account_id == old(self).account_id,
            old(self).wf() ==> final(self).wf(),
    {
        set_pair(&mut self.headers, name, value);
        proof {
            if old(self).wf() {
                law_set_pair(pairs_view(old(self).headers@), name@, value@);
            }
        }
    }
}

impl Default for ProviderCredentials {
    fn default() -> (r: ProviderCredentials)
        ensures
            r.bearer_token is None,
            r.account_id is None,
            r.headers@.len() == 0,
            r.wf(),
    {
        ProviderCredentials { bearer_token: None, account_id: None, headers: Vec::new() }
    }
}

/// A credential source that always hands out the same API key as bearer token.
#[derive(Debug, Clone)]
pub struct StaticCredentialSource {
    api_key: String,
}

impl StaticCredentialSource {
    pub closed spec fn key(&self) -> Seq<char> {
        self.api_key@
    }

    pub fn new(api_key: &str) -> (r: StaticCredentialSource)
        ensures
            r.key() == api_key@,
    {
        StaticCredentialSource { api_key: api_key.to_owned() }
    }

    /// The key, as the bearer token its credentials carry.
    pub fn bearer_token(&self) -> (r: Result<String, String>)
        ensures
            r matches Ok(t) && t@ == self.key(),
    {
        bearer_token_of(self.credentials())
    }

    /// The credentials: the key as bearer token, no account, no extra headers.
    pub fn credentials(&self) -> (r: ProviderCredentials)
        ensures
            r.bearer_token matches Some(t) && t@ == self.key(),
            r.account_id is None,
            r.headers@.len() == 0,
            r.wf(),
    {
        ProviderCredentials { bearer_token: Some(self.api_key.clone()), account_id: None, headers: Vec::new() }
    }
}

pub const MISSING_BEARER_TOKEN: &'static str = "missing bearer token";

/// The bearer token of `credentials`; refused when they carry none.
pub fn bearer_token_of(credentials: ProviderCredentials) -> (r: Result<String, String>)
    ensures
        match credentials.bearer_token {
            Some(t) => r == Ok::<String, String>(t),
            None => r matches Err(m) && m@ == MISSING_BEARER_TOKEN@,
        },
{
    match credentials.bearer_token {
        Some(t) => Ok(t),
        None => Err(MISSING_BEARER_TOKEN.to_owned()),
    }
}

} // verus!
