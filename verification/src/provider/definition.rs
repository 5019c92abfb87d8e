//! Provider identities and definitions, and the URLs a definition yields.
use vstd::prelude::*;

use super::auth::AuthScheme;
use super::pairs::{law_set_pair, names_unique, set_pair, with_pair};
use crate::text::{first_of, lemma_first_of_at, str_eq, push_char, push_range, trim_end_char, trim_end_len, trim_start_char, trim_start_pos};

verus! {

/// Builtin provider families that can be constructed from presets.
#[derive(Debug, Clone, Copy, PartialEq, Eq, Structural)]
pub enum BuiltinProvider {
    Anthropic,
    Gemini,
    OpenAI,
    OpenRouter,
    Ollama,
    LmStudio,
}

/// The lowercase name of a builtin provider, which is also its provider id.
pub open spec fn builtin_name(b: BuiltinProvider) -> Seq<char> {
    match b {
        BuiltinProvider::Anthropic => "anthropic"@,
        BuiltinProvider::Gemini => "gemini"@,
        BuiltinProvider::OpenAI => "openai"@,
        BuiltinProvider::OpenRouter => "openrouter"@,
        BuiltinProvider::Ollama => "ollama"@,
        BuiltinProvider::LmStudio => "lmstudio"@,
    }
}

impl BuiltinProvider {
    /// The lowercase name of the provider family.
    pub fn as_str(self) -> (r: &'static str)
        ensures
            r@ == builtin_name(self),
    {
        match self {
            BuiltinProvider::Anthropic => "anthropic",
            BuiltinProvider::Gemini => "gemini",
            BuiltinProvider::OpenAI => "openai",
            BuiltinProvider::OpenRouter => "openrouter",
            BuiltinProvider::Ollama => "ollama",
            BuiltinProvider::LmStudio => "lmstudio",
        }
    }
}

/// Stable identifier for a registered provider implementation.
#[derive(Debug, Clone, PartialEq, Eq, Hash, PartialOrd, Ord)]
pub struct ProviderId {
    id: String,
}

impl View for ProviderId {
    type V = Seq<char>;

    closed spec fn view(&self) -> Seq<char> {
        self.id@
    }
}

impl ProviderId {
    pub fn new(id: &str) -> (r: ProviderId)
        ensures
            r@ == id@,
    {
        ProviderId { id: id.to_owned() }
    }

    /// The id of a builtin provider family: its lowercase name.
    pub fn from_builtin(builtin: BuiltinProvider) -> (r: ProviderId)
        ensures
            r@ == builtin_name(builtin),
    {
        ProviderId::new(builtin.as_str())
    }

    pub fn as_str(&self) -> (r: &str)
        ensures
            r@ == self@,
    {
        self.id.as_str()
    }

    /// An independent copy.
    pub fn duplicate(&self) -> (r: ProviderId)
        ensures
            r@ == self@,
    {
        ProviderId { id: self.id.clone() }
    }
}

// `From` conversions into a provider id. From a `String` the id is that string. From a `&str`
// or a builtin provider a new `String` is made, which no spec expression can name, so those
// two conversions claim no `from_spec`; they are `ProviderId::new` and `from_builtin`, whose
// own contracts state the id.
impl From<BuiltinProvider> for ProviderId {
    fn from(value: BuiltinProvider) -> (r: ProviderId) {
        ProviderId::from_builtin(value)
    }
}

impl vstd::std_specs::convert::FromSpecImpl<BuiltinProvider> for ProviderId {
    open spec fn obeys_from_spec() -> bool {
        false
    }

    open spec fn from_spec(v: BuiltinProvider) -> ProviderId {
        arbitrary()
    }
}

impl<'a> From<&'a str> for ProviderId {
    fn from(value: &'a str) -> (r: ProviderId) {
        ProviderId::new(value)
    }
}

impl<'a> vstd::std_specs::convert::FromSpecImpl<&'a str> for ProviderId {
    open spec fn obeys_from_spec() -> bool {
        false
    }

    open spec fn from_spec(v: &'a str) -> ProviderId {
        arbitrary()
    }
}

impl From<String> for ProviderId {
    fn from(value: String) -> (r: ProviderId) {
        ProviderId { id: value }
    }
}

impl vstd::std_specs::convert::FromSpecImpl<String> for ProviderId {
    open spec fn obeys_from_spec() -> bool {
        true
    }

    closed spec fn from_spec(v: String) -> ProviderId {
        ProviderId { id: v }
    }
}

/// The id made from a `String` is that string.
pub proof fn law_id_from_string(v: String)
    ensures
        <ProviderId as vstd::std_specs::convert::FromSpec<String>>::from_spec(v)@ == v@,
{
}

pub open spec fn opt_seq(o: Option<String>) -> Option<Seq<char>> {
    match o {
        Some(s) => Some(s@),
        None => None,
    }
}

pub fn copy_opt(o: &Option<String>) -> (r: Option<String>)
    ensures
        opt_seq(r) == opt_seq(*o),
{
    match o {
        Some(s) => Some(s.clone()),
        None => None,
    }
}

/// Human-facing metadata about a provider.
#[derive(Debug, Clone, PartialEq, Eq)]
pub struct ProviderDescriptor {
    pub id: ProviderId,
    pub display_name: Option<String>,
    pub description: Option<String>,
}

impl ProviderDescriptor {
    /// A descriptor with the given id and no display name or description.
    pub fn new(id: ProviderId) -> (r: ProviderDescriptor)
        ensures
            r.id@ == id@,
            r.display_name is None,
            r.description is None,
    {
        ProviderDescriptor { id, display_name: None, description: None }
    }

    pub fn duplicate(&self) -> (r: ProviderDescriptor)
        ensures
            r.id@ == self.id@,
            opt_seq(r.display_name) == opt_seq(self.display_name),
            opt_seq(r.description) == opt_seq(self.description),
    {
        ProviderDescriptor {
            id: self.id.duplicate(),
            display_name: copy_opt(&self.display_name),
            description: copy_opt(&self.description),
        }
    }
}

/// Capabilities advertised by a provider instance.
#[derive(Debug, Clone, Copy, PartialEq, Eq, Structural)]
pub struct ProviderCapabilities {
    pub supports_model_listing: bool,
    pub supports_streaming: bool,
    pub supports_websockets: bool,
    pub supports_tool_calls: bool,
    pub supports_images: bool,
}

impl Default for ProviderCapabilities {
    fn default() -> (r: ProviderCapabilities)
        ensures
            !r.supports_model_listing && !r.supports_streaming && !r.supports_websockets
                && !r.supports_tool_calls && !r.supports_images,
    {
        ProviderCapabilities {
            supports_model_listing: false,
            supports_streaming: false,
            supports_websockets: false,
            supports_tool_calls: false,
            supports_images: false,
        }
    }
}

/// Wire protocol supported by a provider.
#[derive(Debug, Clone, Copy, PartialEq, Eq, Structural)]
pub enum WireApi {
    Responses,
    AnthropicMessages,
    GeminiGenerateContent,
}

pub open spec fn wire_api_name(w: WireApi) -> Seq<char> {
    match w {
        WireApi::Responses => "responses"@,
        WireApi::AnthropicMessages => "anthropic_messages"@,
        WireApi::GeminiGenerateContent => "gemini_generate_content"@,
    }
}

impl Default for WireApi {
    fn default() -> (r: WireApi)
        ensures
            r == WireApi::Responses,
    {
        WireApi::Responses
    }
}

impl WireApi {
    /// The protocol's snake-case name, as displayed.
    pub fn as_str(self) -> (r: &'static str)
        ensures
            r@ == wire_api_name(self),
    {
        match self {
            WireApi::Responses => "responses",
            WireApi::AnthropicMessages => "anthropic_messages",
            WireApi::GeminiGenerateContent => "gemini_generate_content",
        }
    }
}

/// Retry configuration for provider transport calls; the base delay is in milliseconds.
#[derive(Debug, Clone, Copy, PartialEq, Eq, Structural)]
pub struct RetryPolicy {
    pub max_attempts: u64,
    pub base_delay_ms: u64,
    pub retry_429: bool,
    pub retry_5xx: bool,
    pub retry_transport: bool,
}

impl Default for RetryPolicy {
    /// Five attempts from 200 ms, retrying server errors and transport failures but not 429.
    fn default() -> (r: RetryPolicy)
        ensures
            r == (RetryPolicy {
                max_attempts: 5,
                base_delay_ms: 200,
                retry_429: false,
                retry_5xx: true,
                retry_transport: true,
            }),
    {
        RetryPolicy { max_attempts: 5, base_delay_ms: 200, retry_429: false, retry_5xx: true, retry_transport: true }
    }
}

/// Default idle timeout of a response stream, in milliseconds.
pub const DEFAULT_STREAM_IDLE_TIMEOUT_MS: u64 = 300_000;

/// Default timeout of a websocket connection attempt, in milliseconds.
pub const DEFAULT_WEBSOCKET_CONNECT_TIMEOUT_MS: u64 = 15_000;

/// A provider definition; query parameters and headers are name/value pairs, timeouts are in
/// milliseconds.
#[derive(Debug, Clone, PartialEq, Eq)]
pub struct ProviderDefinition {
    pub descriptor: ProviderDescriptor,
    pub wire_api: WireApi,
    pub auth_scheme: AuthScheme,
    pub capabilities: ProviderCapabilities,
    pub base_url: Option<String>,
    pub query_params: Option<Vec<(String, String)>>,
    pub headers: Option<Vec<(String, String)>>,
    pub retry: RetryPolicy,
    pub stream_idle_timeout_ms: u64,
    pub websocket_connect_timeout_ms: u64,
}

pub open spec fn pairs_view(ps: Seq<(String, String)>) -> Seq<(Seq<char>, Seq<char>)> {
    ps.map_values(|p: (String, String)| (p.0@, p.1@))
}

/// `key=value` pairs joined by `&`.
pub open spec fn query_string(ps: Seq<(Seq<char>, Seq<char>)>) -> Seq<char>
    decreases ps.len(),
{
    if ps.len() == 0 {
        Seq::empty()
    } else {
        let last = ps.last();
        let entry = last.0 + "="@ + last.1;
        if ps.len() == 1 {
            entry
        } else {
            query_string(ps.drop_last()) + "&"@ + entry
        }
    }
}

/// The URL for `path` under `base`: the base without trailing slashes, a slash, and the path
/// without leading slashes (no slash when that path is empty), followed by `?` and the query
/// string when there are query parameters.
pub open spec fn url_for(base: Option<Seq<char>>, params: Option<Seq<(Seq<char>, Seq<char>)>>, path: Seq<char>) -> Seq<
    char,
> {
    let b = trim_end_char(
        match base {
            Some(v) => v,
            None => Seq::empty(),
        },
        '/',
    );
    let p = trim_start_char(path, '/');
    let u = if p.len() == 0 {
        b
    } else {
        b + "/"@ + p
    };
    match params {
        Some(ps) => if ps.len() > 0 {
            u + "?"@ + query_string(ps)
        } else {
            u
        },
        None => u,
    }
}

impl ProviderDefinition {
    pub open spec fn params_view(&self) -> Option<Seq<(Seq<char>, Seq<char>)>> {
        match self.query_params {
            Some(ps) => Some(pairs_view(ps@)),
            None => None,
        }
    }

    /// The extra headers as name/value pairs (none without a header list).
    pub open spec fn headers_view(&self) -> Seq<(Seq<char>, Seq<char>)> {
        match self.headers {
            Some(hs) => pairs_view(hs@),
            None => Seq::empty(),
        }
    }

    /// The query parameters as name/value pairs (none without a parameter list).
    pub open spec fn params_pairs(&self) -> Seq<(Seq<char>, Seq<char>)> {
        match self.query_params {
            Some(ps) => pairs_view(ps@),
            None => Seq::empty(),
        }
    }

    /// No two query parameters, and no two extra headers, share a name.
    pub open spec fn wf(&self) -> bool {
        &&& (self.query_params matches Some(ps) ==> names_unique(pairs_view(ps@)))
        &&& (self.headers matches Some(hs) ==> names_unique(pairs_view(hs@)))
    }

    /// Sets the extra header `name` to `value`, starting a header list when there is none.
    pub fn set_header(&mut self, name: &str, value: &str)
        ensures
            final(self).headers matches Some(hs) && pairs_view(hs@) == with_pair(old(self).headers_view(), name@, value@),
            *final(self) == (ProviderDefinition { headers: final(self).headers, ..*old(self) }),
            old(self).wf() ==> final(self).wf(),
    {
        let mut hs = match self.headers.take() {
            Some(hs) => hs,
            None => Vec::new(),
        };
        assert(pairs_view(hs@) =~= old(self).headers_view());
        set_pair(&mut hs, name, value);
        self.headers = Some(hs);
        proof {
            if old(self).wf() {
                law_set_pair(old(self).headers_view(), name@, value@);
            }
        }
    }

    /// Sets the query parameter `name` to `value`, starting a parameter list when there is none.
    pub fn set_query_param(&mut self, name: &str, value: &str)
        ensures
            final(self).query_params matches Some(ps) && pairs_view(ps@) == with_pair(old(self).params_pairs(), name@, value@),
            *final(self) == (ProviderDefinition { query_params: final(self).query_params, ..*old(self) }),
            old(self).wf() ==> final(self).wf(),
    {
        let mut ps = match self.query_params.take() {
            Some(ps) => ps,
            None => Vec::new(),
        };
        assert(pairs_view(ps@) =~= old(self).params_pairs());
        set_pair(&mut ps, name, value);
        self.query_params = Some(ps);
        proof {
            if old(self).wf() {
                law_set_pair(old(self).params_pairs(), name@, value@);
            }
        }
    }

    /// A definition for the Responses protocol with no auth, listing, streaming, tool calls and
    /// images but no websockets, default retries and default timeouts.
    pub fn new(id: ProviderId) -> (r: ProviderDefinition)
        ensures
            r.descriptor.id@ == id@,
            r.descriptor.display_name is None,
            r.descriptor.description is None,
            r.wire_api == WireApi::Responses,
            r.auth_scheme is NoAuth,
            r.capabilities == (ProviderCapabilities {
                supports_model_listing: true,
                supports_streaming: true,
                supports_websockets: false,
                supports_tool_calls: true,
                supports_images: true,
            }),
            r.base_url is None,
            r.query_params is None,
            r.headers is None,
            r.wf(),
            r.retry == (RetryPolicy {
                max_attempts: 5,
                base_delay_ms: 200,
                retry_429: false,
                retry_5xx: true,
                retry_transport: true,
            }),
            r.stream_idle_timeout_ms == DEFAULT_STREAM_IDLE_TIMEOUT_MS,
            r.websocket_connect_timeout_ms == DEFAULT_WEBSOCKET_CONNECT_TIMEOUT_MS,
    {
        ProviderDefinition {
            descriptor: ProviderDescriptor::new(id),
            wire_api: WireApi::default(),
            auth_scheme: AuthScheme::default(),
            capabilities: ProviderCapabilities {
                supports_model_listing: true,
                supports_streaming: true,
                supports_websockets: false,
                supports_tool_calls: true,
                supports_images: true,
            },
            base_url: None,
            query_params: None,
            headers: None,
            retry: RetryPolicy::default(),
            stream_idle_timeout_ms: DEFAULT_STREAM_IDLE_TIMEOUT_MS,
            websocket_connect_timeout_ms: DEFAULT_WEBSOCKET_CONNECT_TIMEOUT_MS,
        }
    }

    /// A copy of the descriptor.
    pub fn descriptor(&self) -> (r: ProviderDescriptor)
        ensures
            r.id@ == self.descriptor.id@,
            opt_seq(r.display_name) == opt_seq(self.descriptor.display_name),
            opt_seq(r.description) == opt_seq(self.descriptor.description),
    {
        self.descriptor.duplicate()
    }

    pub fn provider_id(&self) -> (r: &ProviderId)
        ensures
            r@ == self.descriptor.id@,
    {
        &self.descriptor.id
    }

    /// The websocket URL of `path` under the base URL, serialized; an unparsable URL is
    /// refused with the parser's message.
    pub fn websocket_url_for_path(&self, path: &str) -> (r: Result<String, String>)
        ensures
            match url_parsed(url_for(opt_seq(self.base_url), self.params_view(), path@)) {
                Ok(u) => r matches Ok(w) && w@ == websocket_url(u),
                Err(m) => r matches Err(e) && e@ == m,
            },
    {
        let text = self.url_for_path(path);
        let parsed = parse_url_text(text.as_str())?;
        if has_scheme(parsed.as_str(), "http") {
            Ok(set_url_scheme(parsed.as_str(), "ws"))
        } else if has_scheme(parsed.as_str(), "https") {
            Ok(set_url_scheme(parsed.as_str(), "wss"))
        } else {
            Ok(parsed)
        }
    }

    /// The URL of `path` under the base URL, with the query parameters appended.
    pub fn url_for_path(&self, path: &str) -> (r: String)
        ensures
            r@ == url_for(opt_seq(self.base_url), self.params_view(), path@),
    {
        let mut url = String::new();
        match &self.base_url {
            Some(base) => {
                let b = base.as_str();
                let n = trim_end_len(b, '/');
                push_range(&mut url, b, 0, n);
            },
            None => {
                proof {
                    assert(Seq::<char>::empty().len() == 0);
                }
            },
        }
        let ghost b = url@;
        proof {
            assert(b =~= trim_end_char(
                match opt_seq(self.base_url) {
                    Some(v) => v,
                    None => Seq::empty(),
                },
                '/',
            ));
        }
        let start = trim_start_pos(path, '/');
        let plen = path.unicode_len();
        if start < plen {
            push_char(&mut url, '/');
            push_range(&mut url, path, start, plen);
            proof {
                reveal_strlit("/");
                assert(url@ =~= b + "/"@ + trim_start_char(path@, '/'));
            }
        } else {
            proof {
                assert(url@ =~= b);
            }
        }
        let ghost u = url@;
        match &self.query_params {
            Some(ps) => {
                if ps.len() > 0 {
                    push_char(&mut url, '?');
                    let ghost before = url@;
                    let mut i: usize = 0;
                    while i < ps.len()
                        invariant
                            i <= ps@.len(),
                            ps@.len() > 0,
                            url@ == before + query_string(pairs_view(ps@).take(i as int)),
                        decreases ps.len() - i,
                    {
                        let ghost prev = url@;
                        if i > 0 {
                            push_char(&mut url, '&');
                        }
                        let key = ps[i].0.as_str();
                        let value = ps[i].1.as_str();
                        let klen = key.unicode_len();
                        push_range(&mut url, key, 0, klen);
                        push_char(&mut url, '=');
                        let vlen = value.unicode_len();
                        push_range(&mut url, value, 0, vlen);
                        proof {
                            reveal_strlit("=");
                            reveal_strlit("&");
                            let t = pairs_view(ps@).take(i as int + 1);
                            assert(t.drop_last() =~= pairs_view(ps@).take(i as int));
                            assert(key@.subrange(0, klen as int) =~= key@);
                            assert(value@.subrange(0, vlen as int) =~= value@);
                            if i > 0 {
                                assert(url@ =~= prev + "&"@ + (t.last().0 + "="@ + t.last().1));
                            } else {
                                assert(url@ =~= prev + (t.last().0 + "="@ + t.last().1));
                            }
                        }
                        i += 1;
                    }
                    proof {
                        reveal_strlit("?");
                        assert(pairs_view(ps@).take(ps@.len() as int) =~= pairs_view(ps@));
                        assert(url@ =~= u + "?"@ + query_string(pairs_view(ps@)));
                    }
                }
            },
            None => {},
        }
        url
    }
}

/// What `Url::parse` makes of `s`: the URL's serialization, or the message of its error.
pub uninterp spec fn url_parsed(s: Seq<char>) -> Result<Seq<char>, Seq<char>>;

/// What `Url::set_scheme(scheme)` leaves of the parsed URL `url` (its serialization).
pub uninterp spec fn url_with_scheme(url: Seq<char>, scheme: Seq<char>) -> Seq<char>;

/// Calls `Url::parse`; the URL is returned serialized, an error as its message.
#[verifier::external_body]
fn parse_url_text(s: &str) -> (r: Result<String, String>)
    ensures
        match url_parsed(s@) {
            Ok(u) => r matches Ok(t) && t@ == u,
            Err(m) => r matches Err(e) && e@ == m,
        },
{
    match url::Url::parse(s) {
        Ok(parsed) => Ok(parsed.to_string()),
        Err(error) => Err(error.to_string()),
    }
}

/// Calls `Url::set_scheme` on the URL serialized as `url` (itself the output of
/// `Url::parse`), and serializes the result.
#[verifier::external_body]
fn set_url_scheme(url: &str, scheme: &str) -> (r: String)
    ensures
        r@ == url_with_scheme(url@, scheme@),
{
    match url::Url::parse(url) {
        Ok(mut parsed) => {
            let _ = parsed.set_scheme(scheme);
            parsed.to_string()
        },
        Err(_) => url.to_owned(),
    }
}

/// The scheme of a serialized URL: the text before its first `:`.
pub open spec fn scheme_of(u: Seq<char>) -> Seq<char> {
    u.take(first_of(u, ':') as int)
}

/// Whether the serialized URL `u` has the scheme `s`.
fn has_scheme(u: &str, s: &str) -> (r: bool)
    ensures
        r == (scheme_of(u@) == s@),
{
    let n = u.unicode_len();
    let mut k: usize = 0;
    while k < n && u.get_char(k) != ':'
        invariant
            n == u@.len(),
            k <= n,
            forall|j: int| 0 <= j < k ==> u@[j] != ':',
        decreases n - k,
    {
        k += 1;
    }
    proof {
        lemma_first_of_at(u@, ':', k as int);
    }
    let mut prefix = String::new();
    push_range(&mut prefix, u, 0, k);
    assert(prefix@ =~= u@.take(k as int));
    str_eq(prefix.as_str(), s)
}

/// The websocket URL of a serialized URL: `http` becomes `ws`, `https` becomes `wss`,
/// anything else is left alone.
pub open spec fn websocket_url(u: Seq<char>) -> Seq<char> {
    if scheme_of(u) == "http"@ {
        url_with_scheme(u, "ws"@)
    } else if scheme_of(u) == "https"@ {
        url_with_scheme(u, "wss"@)
    } else {
        u
    }
}

/// The websocket form of a URL: an `http` URL takes the scheme `ws`, an `https` URL `wss`, and
/// a URL of any other scheme is kept as it is.
pub proof fn law_websocket_scheme(u: Seq<char>)
    ensures
        scheme_of(u) == "http"@ ==> websocket_url(u) == url_with_scheme(u, "ws"@),
        scheme_of(u) == "https"@ ==> websocket_url(u) == url_with_scheme(u, "wss"@),
        scheme_of(u) != "http"@ && scheme_of(u) != "https"@ ==> websocket_url(u) == u,
{
    reveal_strlit("http");
    reveal_strlit("https");
    assert("http"@.len() != "https"@.len());
}

/// Query parameters are written `name=value`, in order, separated by `&`: one more parameter
/// adds `&name=value` to the string of the ones before it.
pub proof fn law_query_string(ps: Seq<(Seq<char>, Seq<char>)>, name: Seq<char>, value: Seq<char>)
    ensures
        query_string(Seq::empty()) == Seq::<char>::empty(),
        query_string(seq![(name, value)]) == name + "="@ + value,
        ps.len() > 0 ==> query_string(ps.push((name, value))) == query_string(ps) + "&"@ + name + "="@ + value,
{
    assert(seq![(name, value)].last() == (name, value));
    assert(ps.push((name, value)).drop_last() =~= ps);
    assert(ps.push((name, value)).last() == (name, value));
    assert(name + "="@ + value == name + "="@ + value);
    assert(query_string(ps) + "&"@ + (name + "="@ + value) =~= query_string(ps) + "&"@ + name + "="@ + value);
}

/// Query parameters only add a `?` and their query string after the URL; an empty parameter
/// list adds nothing.
pub proof fn law_url_query(base: Option<Seq<char>>, ps: Seq<(Seq<char>, Seq<char>)>, path: Seq<char>)
    ensures
        url_for(base, Some(ps), path) == if ps.len() > 0 {
            url_for(base, None, path) + "?"@ + query_string(ps)
        } else {
            url_for(base, None, path)
        },
{
}

/// Base and path meet at exactly one slash: the trimmed base does not end with `/` and the
/// trimmed path does not start with one.
pub proof fn law_url_single_slash(base: Seq<char>, path: Seq<char>)
    ensures
        trim_end_char(base, '/').len() == 0 || trim_end_char(base, '/').last() != '/',
        trim_start_char(path, '/').len() == 0 || trim_start_char(path, '/')[0] != '/',
    decreases base.len() + path.len(),
{
    if base.len() > 0 && base.last() == '/' {
        law_url_single_slash(base.drop_last(), path);
    }
    if path.len() > 0 && path[0] == '/' {
        law_url_single_slash(base, path.drop_first());
    }
}

/// Base URL of the OpenAI preset.
pub const DEFAULT_OPENAI_BASE_URL: &'static str = "https://api.openai.com/";

/// Base URL of the OpenRouter preset.
pub const DEFAULT_OPENROUTER_BASE_URL: &'static str = "https://openrouter.ai/api/";

/// `r` is the definition of the builtin Responses-protocol preset `builtin`: bearer-token
/// auth, every capability, the given base URL, no extra headers, default retries and timeouts.
pub open spec fn is_preset(
    r: ProviderDefinition,
    builtin: BuiltinProvider,
    display_name: Seq<char>,
    description: Seq<char>,
    base_url: Seq<char>,
) -> bool {
    &&& r.descriptor.id@ == builtin_name(builtin)
    &&& opt_seq(r.descriptor.display_name) == Some(display_name)
    &&& opt_seq(r.descriptor.description) == Some(description)
    &&& r.wire_api == WireApi::Responses
    &&& r.auth_scheme is BearerToken
    &&& r.capabilities == (ProviderCapabilities {
        supports_model_listing: true,
        supports_streaming: true,
        supports_websockets: true,
        supports_tool_calls: true,
        supports_images: true,
    })
    &&& opt_seq(r.base_url) == Some(base_url)
    &&& r.query_params is None
    &&& (r.headers matches Some(h) && h@.len() == 0)
    &&& r.retry == (RetryPolicy {
        max_attempts: 5,
        base_delay_ms: 200,
        retry_429: false,
        retry_5xx: true,
        retry_transport: true,
    })
    &&& r.stream_idle_timeout_ms == DEFAULT_STREAM_IDLE_TIMEOUT_MS
    &&& r.websocket_connect_timeout_ms == DEFAULT_WEBSOCKET_CONNECT_TIMEOUT_MS
}

/// The definition of a builtin Responses-protocol preset.
pub fn build_definition(builtin: BuiltinProvider, display_name: &str, description: &str, base_url: &str) -> (r:
    ProviderDefinition)
    ensures
        is_preset(r, builtin, display_name@, description@, base_url@),
        r.wf(),
{
    let mut definition = ProviderDefinition::new(ProviderId::from_builtin(builtin));
    definition.descriptor.display_name = Some(display_name.to_owned());
    definition.descriptor.description = Some(description.to_owned());
    definition.wire_api = WireApi::Responses;
    definition.auth_scheme = AuthScheme::BearerToken;
    definition.capabilities =
        ProviderCapabilities {
            supports_model_listing: true,
            supports_streaming: true,
            supports_websockets: true,
            supports_tool_calls: true,
            supports_images: true,
        };
    definition.base_url = Some(base_url.to_owned());
    definition.headers = Some(Vec::new());
    definition.retry = RetryPolicy::default();
    definition
}

} // verus!
