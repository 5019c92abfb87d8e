use mentra::provider::definition::{BuiltinProvider, ProviderId};
use mentra::provider::embedding::EmbeddingModelInfo;
use mentra::provider::ollama::OllamaProvider;
use mentra::session::types::SessionId;

#[test]
fn embedding_model_info_stores_fields() {
    let info = EmbeddingModelInfo::new("text-embedding-3-large", 3072, 8191);
    assert_eq!(info.id, "text-embedding-3-large");
    assert_eq!(info.dimensions, 3072);
    assert_eq!(info.max_tokens, 8191);
}

#[test]
fn descriptor_uses_ollama_identity() {
    let provider = OllamaProvider::new();
    let descriptor = provider.descriptor();

    assert_eq!(descriptor.id, ProviderId::from_builtin(BuiltinProvider::Ollama));
    assert_eq!(descriptor.display_name.as_deref(), Some("Ollama"));
}

#[test]
fn session_id_from_raw_preserves_value() {
    let id = SessionId::from_raw("session-abc-123");
    assert_eq!(id.as_str(), "session-abc-123");
}

use mentra::provider::anthropic::{
    find_frame_boundary, frame_data, AnthropicContentBlockDelta, AnthropicMessageHead,
    AnthropicStreamContentBlock, AnthropicStreamError, AnthropicStreamEvent, IgnoredBlocks,
};
use mentra::provider::auth::{AuthScheme, ProviderCredentials, StaticCredentialSource};
use mentra::provider::definition::{
    build_definition, ProviderDefinition, WireApi, DEFAULT_OPENAI_BASE_URL, DEFAULT_OPENROUTER_BASE_URL,
};
use mentra::provider::responses::{openai, openrouter};
use mentra::provider::embedding::{EmbeddingInput, EmbeddingRequest};
use mentra::provider::headers::{
    build_header_map, build_request_headers, build_websocket_headers_for_session, websocket_session_options,
};
use mentra::provider::model::{ContentBlock, ImageSource, Message, Role, TokenUsage};
use mentra::provider::stream::{ContentBlockDelta, ContentBlockStart, ProviderEvent};

#[test]
fn builtin_provider_names() {
    assert_eq!(BuiltinProvider::OpenAI.as_str(), "openai");
    assert_eq!(BuiltinProvider::LmStudio.as_str(), "lmstudio");
    assert_eq!(ProviderId::from_builtin(BuiltinProvider::Gemini).as_str(), "gemini");
    assert_eq!(WireApi::AnthropicMessages.as_str(), "anthropic_messages");
    assert_eq!(WireApi::default(), WireApi::Responses);
}

#[test]
fn new_definition_defaults() {
    let definition = ProviderDefinition::new(ProviderId::new("custom"));
    assert_eq!(definition.provider_id().as_str(), "custom");
    assert_eq!(definition.retry.max_attempts, 5);
    assert_eq!(definition.retry.base_delay_ms, 200);
    assert!(!definition.capabilities.supports_websockets);
    assert_eq!(definition.stream_idle_timeout_ms, 300_000);
    assert_eq!(definition.websocket_connect_timeout_ms, 15_000);
    assert_eq!(definition.auth_scheme, AuthScheme::NoAuth);
}

#[test]
fn preset_definitions() {
    let definition = build_definition(
        BuiltinProvider::OpenAI,
        "OpenAI",
        "OpenAI Responses API provider",
        "https://api.openai.com/",
    );
    assert_eq!(definition.descriptor().id, ProviderId::from_builtin(BuiltinProvider::OpenAI));
    assert_eq!(definition.descriptor.display_name.as_deref(), Some("OpenAI"));
    assert_eq!(definition.wire_api, WireApi::Responses);
    assert!(definition.capabilities.supports_websockets);
    assert_eq!(definition.base_url.as_deref(), Some("https://api.openai.com/"));
    assert_eq!(definition.auth_scheme, AuthScheme::BearerToken);
}

#[test]
fn urls_join_base_and_path_with_one_slash() {
    let mut definition = ProviderDefinition::new(ProviderId::new("p"));
    definition.base_url = Some("https://host/api//".into());
    assert_eq!(definition.url_for_path("//v1/models"), "https://host/api/v1/models");
    assert_eq!(definition.url_for_path(""), "https://host/api");
    definition.query_params = Some(vec![("a".into(), "1".into()), ("b".into(), "2".into())]);
    assert_eq!(definition.url_for_path("x"), "https://host/api/x?a=1&b=2");
    definition.query_params = Some(Vec::new());
    assert_eq!(definition.url_for_path("x"), "https://host/api/x");
}

#[test]
fn websocket_urls_switch_scheme() {
    let mut definition = ProviderDefinition::new(ProviderId::new("p"));
    definition.base_url = Some("https://host/".into());
    assert_eq!(definition.websocket_url_for_path("v1/responses"), Ok("wss://host/v1/responses".to_string()));
    definition.base_url = Some("http://host".into());
    assert_eq!(definition.websocket_url_for_path(""), Ok("ws://host/".to_string()));
    definition.base_url = None;
    assert!(definition.websocket_url_for_path("x").is_err());
}

#[test]
fn request_headers_are_checked_and_normalized() {
    let mut definition = ProviderDefinition::new(ProviderId::new("p"));
    definition.headers = Some(vec![("X-Custom".into(), "v".into())]);
    let credentials = ProviderCredentials {
        bearer_token: Some("tok".into()),
        account_id: None,
        headers: vec![("OpenAI-Beta".into(), "b".into())],
    };
    let headers = build_request_headers(&definition, &credentials).expect("headers");
    assert_eq!(
        headers,
        vec![
            ("x-custom".to_string(), "v".to_string()),
            ("openai-beta".to_string(), "b".to_string()),
            ("authorization".to_string(), "Bearer tok".to_string()),
        ]
    );
    let bad = build_header_map(&Some(vec![("bad name".into(), "v".into())])).unwrap_err();
    assert_eq!(bad, "invalid provider header name \"bad name\": invalid HTTP header name");
    let bad = build_header_map(&Some(vec![("ok".into(), "line\nbreak".into())])).unwrap_err();
    assert_eq!(bad, "invalid provider header value for \"ok\": failed to parse header value");
    assert!(build_header_map(&None).expect("none").is_empty());
}

#[test]
fn static_credentials_carry_the_key() {
    let source = StaticCredentialSource::new("k");
    let credentials = source.credentials();
    assert_eq!(credentials.bearer_token.as_deref(), Some("k"));
    assert!(credentials.headers.is_empty());
}

#[test]
fn model_values() {
    assert!(TokenUsage::default().is_empty());
    let usage = TokenUsage { output_tokens: Some(3), ..TokenUsage::default() };
    assert!(!usage.is_empty());
    assert_eq!(Role::Unknown("tool".into()).as_str(), "tool");
    assert_eq!(Role::User.as_str(), "user");
    assert_eq!(ImageSource::url("http://i"), ImageSource::Url { url: "http://i".into() });
    assert_eq!(
        ImageSource::bytes("image/png", vec![1, 2]),
        ImageSource::Bytes { media_type: "image/png".into(), data: vec![1, 2] }
    );
}

#[test]
fn embedding_requests() {
    let single = EmbeddingRequest::single("m", "hello world");
    assert_eq!(single.model, "m");
    assert_eq!(single.input, EmbeddingInput::Single("hello world"));
    let texts = ["a", "b"];
    let batch = EmbeddingRequest::batch("m", &texts);
    assert_eq!(batch.input, EmbeddingInput::Batch(&texts));
}

#[test]
fn frames_split_at_blank_lines() {
    assert_eq!(find_frame_boundary(&b"data: 1\n\ndata: 2".to_vec()), Some((7, 2)));
    assert_eq!(find_frame_boundary(&b"data: 1\r\n\r\nrest".to_vec()), Some((7, 4)));
    assert_eq!(find_frame_boundary(&b"data: 1\n".to_vec()), None);
}

#[test]
fn frame_data_lines_are_joined() {
    assert_eq!(
        frame_data(b"event: x\r\ndata:   {\"a\":1}\r\n: comment\ndata: 2"),
        Ok(Some("{\"a\":1}\n2".to_string()))
    );
    assert_eq!(frame_data(b": only a comment"), Ok(None));
    assert!(frame_data(&[0xff, 0xfe]).is_err());
}

#[test]
fn stream_events_map_to_provider_events() {
    let mut ignored = IgnoredBlocks::new();
    let started = ignored.accept(AnthropicStreamEvent::MessageStart {
        message: AnthropicMessageHead { id: "m1".into(), model: "model-a".into(), role: "assistant".into() },
    });
    assert_eq!(
        started,
        Ok(Some(ProviderEvent::MessageStarted { id: "m1".into(), model: "model-a".into(), role: Role::Assistant }))
    );
    let text = ignored.accept(AnthropicStreamEvent::ContentBlockStart { index: 0, content_block: AnthropicStreamContentBlock::Text });
    assert_eq!(text, Ok(Some(ProviderEvent::ContentBlockStarted { index: 0, kind: ContentBlockStart::Text })));

    let hidden = ignored.accept(AnthropicStreamEvent::ContentBlockStart {
        index: 1,
        content_block: AnthropicStreamContentBlock::Unsupported,
    });
    assert_eq!(hidden, Ok(None));
    let delta = ignored.accept(AnthropicStreamEvent::ContentBlockDelta {
        index: 1,
        delta: AnthropicContentBlockDelta::TextDelta { text: "x".into() },
    });
    assert_eq!(delta, Ok(None));
    assert_eq!(ignored.accept(AnthropicStreamEvent::ContentBlockStop { index: 1 }), Ok(None));
    assert_eq!(
        ignored.accept(AnthropicStreamEvent::ContentBlockStop { index: 1 }),
        Ok(Some(ProviderEvent::ContentBlockStopped { index: 1 }))
    );
    assert_eq!(
        ignored.accept(AnthropicStreamEvent::ContentBlockDelta {
            index: 0,
            delta: AnthropicContentBlockDelta::InputJsonDelta { partial_json: "{".into() },
        }),
        Ok(Some(ProviderEvent::ContentBlockDelta { index: 0, delta: ContentBlockDelta::ToolUseInputJson("{".into()) }))
    );
    assert_eq!(ignored.accept(AnthropicStreamEvent::Ping), Ok(None));
    assert_eq!(
        ignored.accept(AnthropicStreamEvent::Error {
            error: AnthropicStreamError { kind: "overloaded_error".into(), message: "busy".into() },
        }),
        Err("anthropic stream error (overloaded_error): busy".to_string())
    );
}

#[test]
fn openai_preset_uses_responses_wire_api() {
    let provider = openai("test-key");
    let definition = provider.definition();

    assert_eq!(definition.descriptor.id, ProviderId::from_builtin(BuiltinProvider::OpenAI));
    assert_eq!(definition.descriptor.display_name.as_deref(), Some("OpenAI"));
    assert_eq!(definition.wire_api, WireApi::Responses);
    assert!(definition.capabilities.supports_websockets);
    assert_eq!(definition.base_url.as_deref(), Some(DEFAULT_OPENAI_BASE_URL));
}

#[test]
fn openrouter_preset_uses_openrouter_base_url() {
    let provider = openrouter("test-key");
    let definition = provider.definition();

    assert_eq!(definition.descriptor.id, ProviderId::from_builtin(BuiltinProvider::OpenRouter));
    assert_eq!(definition.descriptor.display_name.as_deref(), Some("OpenRouter"));
    assert_eq!(definition.wire_api, WireApi::Responses);
    assert_eq!(definition.base_url.as_deref(), Some(DEFAULT_OPENROUTER_BASE_URL));
}

#[test]
fn websocket_headers_carry_session_state() {
    let definition = build_definition(BuiltinProvider::OpenAI, "OpenAI", "d", "https://api.openai.com/");
    let credentials = StaticCredentialSource::new("k").credentials();
    let options = websocket_session_options(Some("ts-1"), Some("meta\n"), true);
    let headers = build_websocket_headers_for_session(&definition, &credentials, Some(&options), None).unwrap();
    let pairs: Vec<(&str, &str)> = headers.iter().map(|(n, v)| (n.as_str(), v.as_str())).collect();
    assert_eq!(
        pairs,
        vec![
            ("authorization", "Bearer k"),
            ("x-mentra-turn-state", "ts-1"),
            ("x-codex-turn-state", "ts-1"),
            ("x-mentra-connection-reuse", "prefer-reuse"),
        ]
    );
    let headers = build_websocket_headers_for_session(&definition, &credentials, None, Some("stored")).unwrap();
    assert_eq!(headers.len(), 3);
    assert_eq!(headers[1], ("x-mentra-turn-state".to_string(), "stored".to_string()));
}

#[test]
fn anthropic_definition_and_model_pages() {
    let definition = mentra::provider::anthropic::anthropic_definition();
    assert_eq!(definition.descriptor.id, ProviderId::from_builtin(BuiltinProvider::Anthropic));
    assert_eq!(definition.wire_api, WireApi::AnthropicMessages);
    assert_eq!(definition.auth_scheme, AuthScheme::Header { name: "x-api-key".to_string() });
    assert!(!definition.capabilities.supports_websockets);
    assert_eq!(definition.base_url.as_deref(), Some("https://api.anthropic.com"));
    assert_eq!(definition.headers, Some(vec![("anthropic-version".to_string(), "2023-06-01".to_string())]));

    let mut pager = mentra::provider::anthropic::ModelPager::new();
    assert_eq!(
        pager.query(),
        vec![("limit".to_string(), "1000".to_string()), ("after_id".to_string(), String::new())]
    );
    pager.advance(Some("m-9".to_string()), true);
    assert!(!pager.done);
    assert_eq!(pager.query()[1], ("after_id".to_string(), "m-9".to_string()));
    pager.advance(None, false);
    assert!(pager.done);
}

#[test]
fn message_text_joins_text_blocks() {
    let mut message = Message::user(ContentBlock::text("Hello"));
    message.content.push(ContentBlock::ToolUse { id: "t1".into(), name: "shell".into(), input: "{}".into() });
    message.content.push(ContentBlock::text(", world"));
    message.content.push(ContentBlock::image_url("https://x/y.png"));
    assert_eq!(message.text(), "Hello, world");
    assert_eq!(message.role, Role::User);
    assert_eq!(Message::assistant(ContentBlock::text("a")).role, Role::Assistant);
    assert_eq!(Message::unknown("system", ContentBlock::text("a")).role, Role::Unknown("system".to_string()));
    assert_eq!(Message::user(ContentBlock::image_bytes("image/png", vec![1])).text(), "");
}

#[test]
fn bearer_tokens_come_from_credentials() {
    assert_eq!(StaticCredentialSource::new("sk-1").bearer_token(), Ok("sk-1".to_string()));
    assert_eq!(
        mentra::provider::auth::bearer_token_of(ProviderCredentials::default()),
        Err("missing bearer token".to_string())
    );
}

#[test]
fn setting_a_header_replaces_the_value_of_its_name() {
    let mut definition = ProviderDefinition::new(ProviderId::new("p"));
    definition.set_header("x-a", "1");
    definition.set_header("x-b", "2");
    definition.set_header("x-a", "3");
    assert_eq!(
        definition.headers,
        Some(vec![("x-a".to_string(), "3".to_string()), ("x-b".to_string(), "2".to_string())])
    );
    definition.set_query_param("api-version", "1");
    definition.set_query_param("api-version", "2");
    assert_eq!(definition.query_params, Some(vec![("api-version".to_string(), "2".to_string())]));
    assert_eq!(definition.url_for_path("v1"), "/v1?api-version=2");

    let mut credentials = ProviderCredentials::default();
    credentials.set_header("OpenAI-Beta", "a");
    credentials.set_header("OpenAI-Beta", "b");
    assert_eq!(credentials.headers, vec![("OpenAI-Beta".to_string(), "b".to_string())]);
}

#[test]
fn provider_ids_convert_from_names() {
    assert_eq!(ProviderId::from(BuiltinProvider::OpenRouter).as_str(), "openrouter");
    assert_eq!(ProviderId::from("custom").as_str(), "custom");
    assert_eq!(ProviderId::from("owned".to_string()), ProviderId::new("owned"));
}
