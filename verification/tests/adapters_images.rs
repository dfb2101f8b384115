use lettuce_ai::adapters::{
    file_extension_for_mime, normalize_chutes_base_url, size_to_xai_settings, AnthropicAdapter,
    ChutesAdapter, DeepSeekAdapter, LettuceEngineAdapter, MistralAdapter, NanoGPTAdapter,
    OllamaAdapter, OpenAIAdapter, OpenRouterAdapter, XAIAdapter, ZAIAdapter,
};
use lettuce_ai::images::{
    classify_image_data, decode_data_url, decode_raw_base64, decode_typed_data_url, ImageSource,
};

fn value_of(headers: &[(String, String)], name: &str) -> Option<String> {
    headers.iter().rev().find(|(k, _)| k == name).map(|(_, v)| v.clone())
}

#[test]
fn anthropic_endpoint_adds_v1_once() {
    assert_eq!(AnthropicAdapter.endpoint("https://api.anthropic.com/"), "https://api.anthropic.com/v1/messages");
    assert_eq!(AnthropicAdapter.endpoint("https://host/v1//"), "https://host/v1/messages");
    assert_eq!(AnthropicAdapter.list_models_endpoint("https://host"), "https://host/v1/models");
}

#[test]
fn openai_style_endpoints() {
    assert_eq!(DeepSeekAdapter.endpoint("https://api.deepseek.com"), "https://api.deepseek.com/v1/chat/completions");
    assert_eq!(MistralAdapter.endpoint("https://api.mistral.ai/v1"), "https://api.mistral.ai/v1/chat/completions");
    assert_eq!(ZAIAdapter.endpoint("https://api.z-ai.com/"), "https://api.z-ai.com/v1/llm");
    assert_eq!(LettuceEngineAdapter.endpoint("http://engine:8000///"), "http://engine:8000/health");
}

#[test]
fn ollama_endpoints_drop_v1() {
    assert_eq!(OllamaAdapter.endpoint("http://localhost:11434/v1/"), "http://localhost:11434/api/chat");
    assert_eq!(OllamaAdapter.endpoint("http://localhost:11434"), "http://localhost:11434/api/chat");
    assert_eq!(OllamaAdapter.list_models_endpoint("http://localhost:11434/v1"), "http://localhost:11434/api/tags");
}

#[test]
fn chutes_base_url_is_normalized() {
    assert_eq!(normalize_chutes_base_url("   "), "https://llm.chutes.ai");
    assert_eq!(normalize_chutes_base_url(" https://api.chutes.ai "), "https://llm.chutes.ai");
    assert_eq!(ChutesAdapter.endpoint("https://api.chutes.ai/v1"), "https://llm.chutes.ai/v1/chat/completions");
}

#[test]
fn roles_streaming_and_auth_headers() {
    assert_eq!(AnthropicAdapter.system_role(), "system");
    assert!(AnthropicAdapter.supports_stream());
    assert!(!LettuceEngineAdapter.supports_stream());
    assert_eq!(AnthropicAdapter.required_auth_headers(), vec!["x-api-key", "X-API-Key"]);
    assert_eq!(MistralAdapter.required_auth_headers(), vec!["X-API-KEY", "x-api-key"]);
    assert_eq!(OllamaAdapter.required_auth_headers(), vec!["Authorization"]);
}

#[test]
fn anthropic_headers_carry_key_and_version() {
    let headers = AnthropicAdapter.headers("secret", &None);
    assert_eq!(value_of(&headers, "x-api-key").as_deref(), Some("secret"));
    assert_eq!(value_of(&headers, "anthropic-version").as_deref(), Some("2023-06-01"));
    assert_eq!(value_of(&headers, "User-Agent").as_deref(), Some("LettuceAI/0.1"));
}

#[test]
fn extra_headers_override_defaults() {
    let extra = Some(vec![
        ("User-Agent".to_string(), "custom".to_string()),
        ("X-Trace".to_string(), "1".to_string()),
    ]);
    let headers = DeepSeekAdapter.headers("k", &extra);
    assert_eq!(value_of(&headers, "Authorization").as_deref(), Some("Bearer k"));
    assert_eq!(value_of(&headers, "User-Agent").as_deref(), Some("custom"));
    assert_eq!(value_of(&headers, "X-Trace").as_deref(), Some("1"));
    assert_eq!(value_of(&headers, "Accept").as_deref(), Some("text/event-stream"));
}

#[test]
fn header_templates_hide_the_key() {
    let t = OllamaAdapter.default_headers_template();
    assert_eq!(value_of(&t, "Authorization").as_deref(), Some("Bearer <apiKey>"));
    assert_eq!(value_of(&t, "Accept").as_deref(), Some("application/json"));
    let t = ZAIAdapter.default_headers_template();
    assert_eq!(t.len(), 2);
}

#[test]
fn image_endpoints() {
    let images = Some(vec!["data:image/png;base64,AA==".to_string()]);
    assert_eq!(OpenAIAdapter.endpoint("https://api.openai.com", &None), "https://api.openai.com/v1/images/generations");
    assert_eq!(OpenAIAdapter.endpoint("https://api.openai.com/v1/", &images), "https://api.openai.com/v1/images/edits");
    assert_eq!(XAIAdapter.endpoint("https://api.x.ai", &Some(vec![])), "https://api.x.ai/v1/images/generations");
    assert_eq!(NanoGPTAdapter.endpoint("https://nano-gpt.com/api/"), "https://nano-gpt.com/v1/images/generations");
    assert_eq!(OpenRouterAdapter.endpoint("https://openrouter.ai/api/"), "https://openrouter.ai/api/v1/chat/completions");
}

#[test]
fn openrouter_headers_name_the_referer() {
    let headers = OpenRouterAdapter.headers("k", &None);
    assert_eq!(value_of(&headers, "HTTP-Referer").as_deref(), Some("https://www.lettuceai.app/"));
}

#[test]
fn xai_sizes() {
    assert_eq!(size_to_xai_settings(Some("1024x1024")), (Some("1:1"), Some("1k")));
    assert_eq!(size_to_xai_settings(Some("1024x2048")), (Some("1:2"), Some("2k")));
    assert_eq!(size_to_xai_settings(Some("512x512")), (None, None));
    assert_eq!(size_to_xai_settings(None), (None, None));
}

#[test]
fn mime_extensions() {
    assert_eq!(file_extension_for_mime("image/webp"), "webp");
    assert_eq!(file_extension_for_mime("image/jpg"), "jpg");
    assert_eq!(file_extension_for_mime("image/gif"), "png");
}

#[test]
fn image_sources() {
    assert_eq!(classify_image_data("https://x/y.png"), ImageSource::Remote);
    assert_eq!(classify_image_data("data:image/png;base64,aGk="), ImageSource::DataUrl);
    assert_eq!(classify_image_data("aGk="), ImageSource::RawBase64);
}

#[test]
fn decodes_base64_payloads() {
    assert_eq!(decode_raw_base64("aGk="), Ok(vec![104, 105]));
    assert!(decode_raw_base64("!!").unwrap_err().starts_with("Failed to decode base64: "));
    assert_eq!(decode_data_url("data:image/png;base64,aGk="), Ok(vec![104, 105]));
    assert_eq!(decode_data_url("no comma"), Err("Invalid data URL format".to_string()));
}

#[test]
fn decodes_typed_data_urls() {
    assert_eq!(
        decode_typed_data_url("data:image/webp;base64,aGk="),
        Ok(("image/webp".to_string(), vec![104, 105]))
    );
    assert_eq!(
        decode_typed_data_url("image/webp;base64,aGk="),
        Err("Invalid data URL prefix".to_string())
    );
    assert_eq!(decode_typed_data_url("data:image/webp,aGk="), Err("Invalid data URL prefix".to_string()));
    assert!(decode_typed_data_url("data:image/png;base64,@@").unwrap_err().starts_with("Failed to decode base64 image: "));
}

use lettuce_ai::adapters::{adapter_for, parse_models_list, ListingStyle, ProviderKind};
use lettuce_ai::json::{JsonNumber, JsonValue};

fn js(t: &str) -> JsonValue {
    JsonValue::String(t.to_string())
}

fn jobj(pairs: Vec<(&str, JsonValue)>) -> JsonValue {
    JsonValue::Object(pairs.into_iter().map(|(k, v)| (k.to_string(), v)).collect())
}

#[test]
fn adapters_by_provider_id() {
    assert_eq!(adapter_for("chutes.ai"), ProviderKind::Chutes);
    assert_eq!(adapter_for("gemini"), ProviderKind::GoogleGemini);
    assert_eq!(adapter_for("z.ai"), ProviderKind::Zai);
    assert_eq!(adapter_for("custom-anthropic"), ProviderKind::CustomAnthropic);
    assert_eq!(adapter_for("something-else"), ProviderKind::OpenAi);
}

#[test]
fn model_lists() {
    let openai = jobj(vec![(
        "data",
        JsonValue::Array(vec![
            jobj(vec![("id", js("gpt")), ("name", js("GPT")), ("context_length", JsonValue::Number(JsonNumber::PosInt(8192)))]),
            jobj(vec![("name", js("no id"))]),
        ]),
    )]);
    let l = parse_models_list(&openai, ListingStyle::OpenAi);
    assert_eq!(l.len(), 1);
    assert_eq!(l[0].id, "gpt");
    assert_eq!(l[0].display_name, Some("GPT".to_string()));
    assert_eq!(l[0].context_length, Some(8192));

    let ollama = jobj(vec![(
        "models",
        JsonValue::Array(vec![jobj(vec![
            ("name", js("llama3:8b")),
            ("details", jobj(vec![("parameter_size", js("8B"))])),
        ])]),
    )]);
    let l = parse_models_list(&ollama, ListingStyle::Ollama);
    assert_eq!(l[0].display_name, Some("llama3:8b".to_string()));
    assert_eq!(l[0].description, Some("8B parameters".to_string()));

    let anthropic = jobj(vec![("data", JsonValue::Array(vec![jobj(vec![("id", js("sonnet")), ("display_name", js("Sonnet"))])]))]);
    let l = parse_models_list(&anthropic, ListingStyle::Anthropic);
    assert_eq!(l[0].display_name, Some("Sonnet".to_string()));
    assert!(parse_models_list(&js("x"), ListingStyle::OpenAi).is_empty());
}
