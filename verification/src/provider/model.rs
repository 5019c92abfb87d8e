//! Provider-neutral model metadata: roles, images, tool choice, token usage.
use vstd::prelude::*;

verus! {

/// Selection strategy used when resolving a model from a provider.
#[derive(Debug, Clone, PartialEq, Eq)]
pub enum ModelSelector {
    Id(String),
    NewestAvailable,
}

/// Token usage of a completed or in-progress response; each count may be unreported.
#[derive(Debug, Clone, Copy, PartialEq, Eq, Structural)]
pub struct TokenUsage {
    pub input_tokens: Option<u64>,
    pub output_tokens: Option<u64>,
    pub total_tokens: Option<u64>,
    pub cache_read_input_tokens: Option<u64>,
    pub cache_creation_input_tokens: Option<u64>,
    pub reasoning_tokens: Option<u64>,
    pub thoughts_tokens: Option<u64>,
    pub tool_input_tokens: Option<u64>,
}

impl Default for TokenUsage {
    fn default() -> (r: TokenUsage)
        ensures
            r.is_empty_spec(),
    {
        TokenUsage {
            input_tokens: None,
            output_tokens: None,
            total_tokens: None,
            cache_read_input_tokens: None,
            cache_creation_input_tokens: None,
            reasoning_tokens: None,
            thoughts_tokens: None,
            tool_input_tokens: None,
        }
    }
}

impl TokenUsage {
    /// No count is reported.
    pub open spec fn is_empty_spec(&self) -> bool {
        &&& self.input_tokens is None
        &&& self.output_tokens is None
        &&& self.total_tokens is None
        &&& self.cache_read_input_tokens is None
        &&& self.cache_creation_input_tokens is None
        &&& self.reasoning_tokens is None
        &&& self.thoughts_tokens is None
        &&& self.tool_input_tokens is None
    }

    /// Whether no count is reported.
    pub fn is_empty(&self) -> (r: bool)
        ensures
            r == self.is_empty_spec(),
    {
        self.input_tokens.is_none() && self.output_tokens.is_none() && self.total_tokens.is_none()
            && self.cache_read_input_tokens.is_none() && self.cache_creation_input_tokens.is_none()
            && self.reasoning_tokens.is_none() && self.thoughts_tokens.is_none() && self.tool_input_tokens.is_none()
    }
}

/// Chat role labels.
#[derive(Debug, Clone, PartialEq, Eq)]
pub enum Role {
    User,
    Assistant,
    Unknown(String),
}

/// How a role is written: `user`, `assistant`, or the unknown role's own name.
pub open spec fn role_name(r: Role) -> Seq<char> {
    match r {
        Role::User => "user"@,
        Role::Assistant => "assistant"@,
        Role::Unknown(name) => name@,
    }
}

impl Role {
    /// The role as written.
    pub fn as_str(&self) -> (r: &str)
        ensures
            r@ == role_name(*self),
    {
        match self {
            Role::User => "user",
            Role::Assistant => "assistant",
            Role::Unknown(role) => role.as_str(),
        }
    }
}

/// Image payload supported by model providers.
#[derive(Debug, Clone, PartialEq, Eq)]
pub enum ImageSource {
    Bytes { media_type: String, data: Vec<u8> },
    Url { url: String },
}

impl ImageSource {
    /// Inline image bytes of the given media type.
    pub fn bytes(media_type: &str, data: Vec<u8>) -> (r: ImageSource)
        ensures
            r matches ImageSource::Bytes { media_type: m, data: d } && m@ == media_type@ && d@ == data@,
    {
        ImageSource::Bytes { media_type: media_type.to_owned(), data }
    }

    /// An image referenced by URL.
    pub fn url(url: &str) -> (r: ImageSource)
        ensures
            r matches ImageSource::Url { url: u } && u@ == url@,
    {
        ImageSource::Url { url: url.to_owned() }
    }
}

/// Tool choice hint passed to model APIs.
#[derive(Debug, Clone, PartialEq, Eq)]
pub enum ToolChoice {
    Auto,
    Any,
    Tool { name: String },
}

impl Default for ToolChoice {
    fn default() -> (r: ToolChoice)
        ensures
            r is Auto,
    {
        ToolChoice::Auto
    }
}

/// The model providers the runtime knows by kind.
#[derive(Debug, Clone, Copy, PartialEq, Eq, Hash, Structural)]
pub enum ModelProviderKind {
    Anthropic,
    OpenAI,
    Gemini,
}

/// A model a provider offers.
#[derive(Debug, Clone, PartialEq, Eq)]
pub struct ModelInfo {
    pub id: String,
    pub provider: ModelProviderKind,
    pub display_name: Option<String>,
    pub description: Option<String>,
}

/// A content block exchanged with models; a tool call's input is JSON text.
#[derive(Debug, Clone, PartialEq, Eq)]
pub enum ContentBlock {
    Text { text: String },
    Image { source: ImageSource },
    ToolUse { id: String, name: String, input: String },
    ToolResult { tool_use_id: String, content: String, is_error: bool },
}

impl ContentBlock {
    pub fn text(text: &str) -> (r: ContentBlock)
        ensures
            r matches ContentBlock::Text { text: t } && t@ == text@,
    {
        ContentBlock::Text { text: text.to_owned() }
    }

    pub fn image_bytes(media_type: &str, data: Vec<u8>) -> (r: ContentBlock)
        ensures
            r matches ContentBlock::Image { source: ImageSource::Bytes { media_type: m, data: d } } && m@ == media_type@
                && d@ == data@,
    {
        ContentBlock::Image { source: ImageSource::bytes(media_type, data) }
    }

    pub fn image_url(url: &str) -> (r: ContentBlock)
        ensures
            r matches ContentBlock::Image { source: ImageSource::Url { url: u } } && u@ == url@,
    {
        ContentBlock::Image { source: ImageSource::url(url) }
    }
}

/// A chat message: who speaks, and what.
#[derive(Debug, Clone, PartialEq, Eq)]
pub struct Message {
    pub role: Role,
    pub content: Vec<ContentBlock>,
}

/// The text blocks of `content`, one after the other.
pub open spec fn text_of(content: Seq<ContentBlock>) -> Seq<char>
    decreases content.len(),
{
    if content.len() == 0 {
        Seq::empty()
    } else {
        text_of(content.drop_last()) + match content.last() {
            ContentBlock::Text { text } => text@,
            _ => Seq::empty(),
        }
    }
}

impl Message {
    pub fn user(content: ContentBlock) -> (r: Message)
        ensures
            r.role == Role::User,
            r.content@ == seq![content],
    {
        let mut blocks: Vec<ContentBlock> = Vec::new();
        blocks.push(content);
        Message { role: Role::User, content: blocks }
    }

    pub fn assistant(content: ContentBlock) -> (r: Message)
        ensures
            r.role == Role::Assistant,
            r.content@ == seq![content],
    {
        let mut blocks: Vec<ContentBlock> = Vec::new();
        blocks.push(content);
        Message { role: Role::Assistant, content: blocks }
    }

    pub fn unknown(role: &str, content: ContentBlock) -> (r: Message)
        ensures
            r.role matches Role::Unknown(n) && n@ == role@,
            r.content@ == seq![content],
    {
        let mut blocks: Vec<ContentBlock> = Vec::new();
        blocks.push(content);
        Message { role: Role::Unknown(role.to_owned()), content: blocks }
    }

    /// The message's text: its text blocks, concatenated.
    pub fn text(&self) -> (r: String)
        ensures
            r@ == text_of(self.content@),
    {
        let mut out = String::new();
        let mut i: usize = 0;
        while i < self.content.len()
            invariant
                i <= self.content@.len(),
                out@ == text_of(self.content@.take(i as int)),
            decreases self.content.len() - i,
        {
            proof {
                assert(self.content@.take(i as int + 1).drop_last() =~= self.content@.take(i as int));
            }
            match &self.content[i] {
                ContentBlock::Text { text } => out.append(text.as_str()),
                _ => {},
            }
            i += 1;
        }
        assert(self.content@.take(self.content@.len() as int) =~= self.content@);
        out
    }
}

} // verus!
