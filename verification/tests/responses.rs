use lettuce_ai::json::{JsonNumber, JsonValue};
use lettuce_ai::response::{
    accumulate_image_data_urls_from_sse, accumulate_reasoning_from_sse, accumulate_text_from_sse,
    extract_error_message, extract_gemini_error, extract_message_content, extract_reasoning,
    extract_reasoning_from_value, extract_text, extract_text_from_value, has_stream_text,
    is_sse_dump, join_text_fragments, provider_failure_message,
};
use lettuce_ai::sse::dump_payloads;
use lettuce_ai::usage::{
    extract_usage, map_usage_fits, parse_token_value, parse_u64, usage_from_map, usage_from_sse,
    usage_from_value, UsageCounts, UsageStep,
};

fn s(t: &str) -> JsonValue {
    JsonValue::String(t.to_string())
}

fn n(v: u64) -> JsonValue {
    JsonValue::Number(JsonNumber::PosInt(v))
}

fn obj(pairs: Vec<(&str, JsonValue)>) -> JsonValue {
    JsonValue::Object(pairs.into_iter().map(|(k, v)| (k.to_string(), v)).collect())
}

fn arr(items: Vec<JsonValue>) -> JsonValue {
    JsonValue::Array(items)
}

#[test]
fn fragments_skip_tool_calls_and_image_urls() {
    let v = arr(vec![
        s("Hello"),
        s("data:image/png;base64,AAAA"),
        obj(vec![("functionCall", obj(vec![("name", s("x"))])), ("text", s("hidden"))]),
        obj(vec![("text", s(", ")), ("other", s("ignored")), ("parts", arr(vec![s("world")]))]),
        obj(vec![("a", s("!")), ("b", n(3))]),
    ]);
    assert_eq!(join_text_fragments(&v), Some("Hello, world!".to_string()));
    assert_eq!(join_text_fragments(&s("   ")), None);
}

#[test]
fn message_content_prefers_content_then_text() {
    let m = obj(vec![("text", s("from text")), ("content", s("from content"))]);
    assert_eq!(extract_message_content(&m), Some("from content".to_string()));
    let m = obj(vec![("content", s("  ")), ("text", s("from text"))]);
    assert_eq!(extract_message_content(&m), Some("from text".to_string()));
    assert_eq!(extract_message_content(&n(1)), None);
}

#[test]
fn answer_text_from_choices_candidates_and_strings() {
    let openai = obj(vec![(
        "choices",
        arr(vec![
            obj(vec![("message", obj(vec![("content", s(" "))]))]),
            obj(vec![("delta", obj(vec![("content", s("second choice"))]))]),
        ]),
    )]);
    assert_eq!(extract_text(&openai, Some("openai")), Some("second choice".to_string()));

    let gemini = obj(vec![(
        "candidates",
        arr(vec![obj(vec![(
            "content",
            obj(vec![("parts", arr(vec![obj(vec![("text", s("Hi"))]), obj(vec![("text", s("!"))])]))]),
        )])]),
    )]);
    assert_eq!(extract_text(&gemini, None), Some("Hi!".to_string()));

    let plain = s("just text");
    assert!(!has_stream_text(&plain, Some("openai")));
    assert_eq!(extract_text(&plain, Some("openai")), Some("just text".to_string()));
    assert!(has_stream_text(&plain, Some("ollama")));
    assert!(has_stream_text(&s("data: {}"), None));

    let items = arr(vec![s("a"), n(2), s("b")]);
    assert_eq!(extract_text(&items, None), Some("ab".to_string()));
    assert_eq!(extract_text(&arr(vec![n(1)]), None), None);
    assert_eq!(extract_text(&obj(vec![("other", s("x"))]), None), None);
}

#[test]
fn answer_reasoning_from_first_choice() {
    let v = obj(vec![(
        "choices",
        arr(vec![obj(vec![(
            "message",
            obj(vec![("reasoning", s("")), ("reasoning_content", s("thought"))]),
        )])]),
    )]);
    assert_eq!(extract_reasoning(&v), Some("thought".to_string()));
    assert_eq!(extract_reasoning(&obj(vec![("choices", arr(vec![]))])), None);
    assert!(is_sse_dump(&s("data: {}")));
    assert!(!is_sse_dump(&s("plain")));
}

#[test]
fn error_messages_in_order() {
    let blocked = obj(vec![("promptFeedback", obj(vec![("blockReason", s("SAFETY"))]))]);
    assert_eq!(
        extract_error_message(&blocked),
        Some(
            "Content was blocked by Gemini safety filters. Try adjusting your prompt or safety settings."
                .to_string()
        )
    );
    let stopped = obj(vec![(
        "candidates",
        arr(vec![obj(vec![("finishReason", s("STOP"))]), obj(vec![("finishReason", s("NO_IMAGE"))])]),
    )]);
    assert_eq!(
        extract_gemini_error(&stopped),
        Some("Image generation failed: no image was produced.".to_string())
    );
    let err = obj(vec![("error", obj(vec![("message", s("  rate limited  "))]))]);
    assert_eq!(extract_error_message(&err), Some("rate limited".to_string()));
    let msg = obj(vec![("message", s(" bad key "))]);
    assert_eq!(extract_error_message(&msg), Some("bad key".to_string()));
    assert_eq!(extract_error_message(&s("  oops ")), Some("oops".to_string()));
    assert_eq!(extract_error_message(&n(5)), None);
}

#[test]
fn frames_text_reasoning_and_images() {
    let delta = obj(vec![(
        "choices",
        arr(vec![obj(vec![(
            "delta",
            obj(vec![
                ("content", s("Hel")),
                ("reasoning", s("think")),
                (
                    "images",
                    arr(vec![
                        obj(vec![("image_url", obj(vec![("url", s("data:image/png;base64,QQ=="))]))]),
                        obj(vec![("image_url", obj(vec![("url", s("https://x/y.png"))]))]),
                    ]),
                ),
            ]),
        )])]),
    )]);
    let anthropic = obj(vec![
        ("type", s("content_block_delta")),
        ("delta", obj(vec![("text", s("lo"))])),
    ]);
    let gemini = obj(vec![(
        "candidates",
        arr(vec![obj(vec![(
            "content",
            obj(vec![(
                "parts",
                arr(vec![
                    obj(vec![("text", s(" plan")), ("thought", JsonValue::Bool(true))]),
                    obj(vec![("text", s("!"))]),
                ]),
            )]),
        )])]),
    )]);
    assert_eq!(extract_text_from_value(&anthropic), Some("lo".to_string()));
    assert_eq!(extract_reasoning_from_value(&gemini), Some(" plan".to_string()));
    let frames = vec![delta, anthropic, gemini];
    assert_eq!(accumulate_text_from_sse(&frames), Some("Hello!".to_string()));
    assert_eq!(accumulate_reasoning_from_sse(&frames), Some("think plan".to_string()));
    assert_eq!(
        accumulate_image_data_urls_from_sse(&frames),
        vec!["data:image/png;base64,QQ==".to_string()]
    );
    assert_eq!(accumulate_text_from_sse(&vec![]), None);
}

#[test]
fn stream_dump_payloads() {
    let raw = "data: {\"a\":1}\n\n: comment\ndata:   \ndata: [DONE]\n  data: {\"b\":2}  ";
    assert_eq!(
        dump_payloads(raw, false),
        vec!["{\"a\":1}".to_string(), "{\"b\":2}".to_string()]
    );
    assert_eq!(dump_payloads("{\"c\":3}\n[DONE]\n", true), vec!["{\"c\":3}".to_string()]);
}

#[test]
fn token_values_parse_like_u64() {
    assert_eq!(parse_u64("+42"), Some(42));
    assert_eq!(parse_u64("18446744073709551615"), Some(u64::MAX));
    assert_eq!(parse_u64("18446744073709551616"), None);
    assert_eq!(parse_u64("-1"), None);
    assert_eq!(parse_u64(""), None);
    assert_eq!(parse_token_value(&s(" 7 ")), Some(7));
    assert_eq!(parse_token_value(&JsonValue::Number(JsonNumber::NegInt(-3))), None);
}

fn counts(u: &UsageCounts) -> (Option<u64>, Option<u64>, Option<u64>, Option<u64>, Option<u64>) {
    (u.prompt_tokens, u.completion_tokens, u.total_tokens, u.reasoning_tokens, u.image_tokens)
}

#[test]
fn usage_of_an_object() {
    let v = obj(vec![
        ("prompt_tokens", n(10)),
        ("output_tokens", s("5")),
        ("completion_tokens_details", obj(vec![("reasoning_tokens", n(2))])),
        ("prompt_tokens_details", obj(vec![("cached_tokens", n(4))])),
        ("finishReason", s("stop")),
        ("ttftMs", n(120)),
    ]);
    assert!(map_usage_fits(&v));
    let u = usage_from_map(&v).unwrap();
    assert_eq!(counts(&u), (Some(10), Some(5), Some(15), Some(2), Some(4)));
    assert_eq!(u.first_token_ms, Some(120));
    assert_eq!(u.finish_reason, Some("stop".to_string()));
    assert!(usage_from_map(&obj(vec![("foo", n(1))])).is_none());
    let big = obj(vec![("prompt_tokens", n(u64::MAX)), ("completion_tokens", n(1))]);
    assert!(!map_usage_fits(&big));
}

#[test]
fn usage_of_a_frame() {
    let gemini = obj(vec![
        (
            "usageMetadata",
            obj(vec![
                ("promptTokenCount", n(3)),
                ("candidatesTokenCount", n(4)),
                ("totalTokenCount", n(9)),
                ("thoughtsTokenCount", n(2)),
            ]),
        ),
        ("candidates", arr(vec![obj(vec![("finishReason", s("STOP"))])])),
    ]);
    let u = usage_from_value(&gemini).unwrap();
    assert_eq!(counts(&u), (Some(3), Some(4), Some(9), Some(2), None));
    assert_eq!(u.finish_reason, Some("STOP".to_string()));
    let ollama = obj(vec![("prompt_eval_count", n(6)), ("eval_count", n(1)), ("stop_reason", s("end"))]);
    let u = usage_from_value(&ollama).unwrap();
    assert_eq!(counts(&u), (Some(6), Some(1), Some(7), None, None));
    assert_eq!(u.finish_reason, Some("end".to_string()));
    let frames = vec![ollama, obj(vec![("x", n(1))])];
    assert_eq!(usage_from_sse(&frames).map(|u| u.total_tokens), Some(Some(7)));
}

#[test]
fn usage_search_asks_for_strings() {
    let v = obj(vec![
        ("id", s("abc")),
        ("usage", obj(vec![("input_tokens", n(2)), ("outputTokens", n(3))])),
    ]);
    match extract_usage(&v, &vec![]) {
        UsageStep::Done(Some(u)) => assert_eq!(u.total_tokens, Some(5)),
        _ => panic!("expected a report"),
    }
    let v = obj(vec![("note", s("text")), ("data", arr(vec![s(" ")]))]);
    match extract_usage(&v, &vec![]) {
        UsageStep::ReadString(t) => assert_eq!(t, "text"),
        _ => panic!("expected a question"),
    }
    match extract_usage(&v, &vec![("text".to_string(), None)]) {
        UsageStep::Done(None) => {}
        _ => panic!("expected nothing"),
    }
    let big = obj(vec![("usage", obj(vec![("prompt_tokens", n(u64::MAX)), ("completion_tokens", n(1))]))]);
    assert!(matches!(extract_usage(&big, &vec![]), UsageStep::Overflow));
}

#[test]
fn failure_message_adds_status_or_falls_back() {
    let msg = obj(vec![("message", s("bad key"))]);
    assert_eq!(provider_failure_message(&msg, 401), "bad key (status 401)");
    assert_eq!(provider_failure_message(&arr(vec![]), 503), "Provider returned status 503");
    let same = s("Provider returned status 500");
    assert_eq!(provider_failure_message(&same, 500), "Provider returned status 500");
}

#[test]
fn streamed_dumps_are_read_from_their_lines() {
    let sse = s("data: {\"choices\":[{\"delta\":{\"content\":\"Hel\"}}]}\n\ndata: {\"choices\":[{\"delta\":{\"content\":\"lo\"}}]}\ndata: [DONE]\n");
    assert_eq!(extract_text(&sse, Some("openai")), Some("Hello".to_string()));
    assert_eq!(extract_text(&s("data: not json"), None), Some(String::new()));
    let ollama = s("{\"message\":{\"content\":\"Hi \"}}\n{\"message\":{\"content\":\"there\"}}\n");
    assert_eq!(extract_text(&ollama, Some("ollama")), Some("Hi there".to_string()));
    assert_eq!(extract_text(&s("no json here"), Some("ollama")), None);
    assert_eq!(extract_text(&s("\"quoted\""), Some("ollama")), None);
    let reasoning = s("data: {\"choices\":[{\"delta\":{\"reasoning\":\"think\"}}]}\n");
    assert_eq!(extract_reasoning(&reasoning), Some("think".to_string()));
    assert_eq!(extract_reasoning(&s("plain")), None);
}
