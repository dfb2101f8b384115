use lettuce_ai::json::{JsonNumber, JsonValue};
use lettuce_ai::messages::{
    anthropic_messages, anthropic_token_budget, extract_image_data_urls, extract_text_content,
    parse_data_url, ContentPart,
};

fn s(t: &str) -> JsonValue {
    JsonValue::String(t.to_string())
}

fn obj(pairs: Vec<(&str, JsonValue)>) -> JsonValue {
    JsonValue::Object(pairs.into_iter().map(|(k, v)| (k.to_string(), v)).collect())
}

fn msg(role: &str, content: JsonValue) -> JsonValue {
    obj(vec![("role", s(role)), ("content", content)])
}

#[test]
fn content_text_of_each_kind() {
    let parts = JsonValue::Array(vec![
        obj(vec![("type", s("text")), ("text", s("one"))]),
        obj(vec![("type", s("image_url")), ("image_url", obj(vec![("url", s("https://x/a.png"))]))]),
        obj(vec![("type", s("text")), ("text", s("two"))]),
    ]);
    assert_eq!(extract_text_content(Some(&parts), ""), Some("one\ntwo".to_string()));
    assert_eq!(extract_image_data_urls(Some(&parts)), vec!["https://x/a.png".to_string()]);
    assert_eq!(extract_text_content(Some(&s("hi")), ""), Some("hi".to_string()));
    assert_eq!(extract_text_content(Some(&JsonValue::Null), ""), None);
    assert_eq!(extract_text_content(None, ""), None);
    assert_eq!(extract_text_content(Some(&JsonValue::Bool(true)), ""), Some("true".to_string()));
    assert_eq!(
        extract_text_content(Some(&JsonValue::Number(JsonNumber::NegInt(-12))), ""),
        Some("-12".to_string())
    );
    assert_eq!(
        extract_text_content(Some(&obj(vec![("a", s("b"))])), "{\"a\":\"b\"}"),
        Some("{\"a\":\"b\"}".to_string())
    );
    assert_eq!(extract_text_content(Some(&JsonValue::Array(vec![])), ""), None);
}

#[test]
fn data_urls_split() {
    assert_eq!(
        parse_data_url("data:image/png;base64,QUJD"),
        Some(("image/png".to_string(), "QUJD".to_string()))
    );
    assert_eq!(parse_data_url("image/png;base64,QUJD"), None);
    assert_eq!(parse_data_url("data:image/png,QUJD"), None);
}

#[test]
fn anthropic_format() {
    let messages = vec![
        msg("system", s("Be kind.")),
        msg("user", s("Hello")),
        msg("assistant", s("   ")),
        msg(
            "user",
            JsonValue::Array(vec![
                obj(vec![("type", s("image_url")), ("image_url", obj(vec![("url", s("data:image/png;base64,QQ=="))]))]),
                obj(vec![("type", s("image_url")), ("image_url", obj(vec![("url", s("ftp://no"))]))]),
            ]),
        ),
        msg("developer", s("Stay brief.")),
        msg("assistant", s("Hi!")),
    ];
    let serialized: Vec<String> = messages.iter().map(|_| String::new()).collect();
    let (out, system) =
        anthropic_messages(Some("Base".to_string()), &messages, &serialized, "user", "assistant");
    assert_eq!(system, Some("Base\n\nBe kind.\n\nStay brief.".to_string()));
    assert_eq!(out.len(), 3);
    assert_eq!(out[0].role, "user");
    assert!(matches!(&out[0].content[..], [ContentPart::Text(t)] if t == "Hello"));
    assert!(matches!(
        &out[1].content[..],
        [ContentPart::ImageBase64 { media_type, data }] if media_type == "image/png" && data == "QQ=="
    ));
    assert_eq!(out[2].role, "assistant");
    let (_, none) = anthropic_messages(Some(String::new()), &vec![], &vec![], "u", "a");
    assert_eq!(none, None);
}

#[test]
fn thinking_budget_adds_up() {
    assert_eq!(anthropic_token_budget(1000, true, Some(500)), (1500, Some(500)));
    assert_eq!(anthropic_token_budget(1000, false, Some(500)), (1000, None));
    assert_eq!(anthropic_token_budget(1000, true, None), (1000, None));
}

use lettuce_ai::messages::{combine_same_role_messages, remap_role};

fn content_of(m: &JsonValue) -> Option<String> {
    match m {
        JsonValue::Object(pairs) => pairs.iter().find(|(k, _)| k == "content").and_then(|(_, v)| match v {
            JsonValue::String(s) => Some(s.clone()),
            _ => None,
        }),
        _ => None,
    }
}

fn role_of(m: &JsonValue) -> Option<String> {
    match m {
        JsonValue::Object(pairs) => pairs.iter().find(|(k, _)| k == "role").and_then(|(_, v)| match v {
            JsonValue::String(s) => Some(s.clone()),
            _ => None,
        }),
        _ => None,
    }
}

#[test]
fn same_role_messages_join() {
    let messages = vec![
        msg("user", s("a")),
        msg("user", s("b")),
        msg("user", s("")),
        msg("assistant", s("c")),
        msg("assistant", JsonValue::Array(vec![])),
        msg("assistant", s("d")),
        obj(vec![("content", s("no role"))]),
    ];
    let out = combine_same_role_messages(messages);
    assert_eq!(out.len(), 5);
    assert_eq!(content_of(&out[0]), Some("a\n\nb\n\n".to_string()));
    assert_eq!(content_of(&out[1]), Some("c".to_string()));
    assert_eq!(content_of(&out[2]), None);
    assert_eq!(content_of(&out[3]), Some("d".to_string()));
    let empty_first = combine_same_role_messages(vec![msg("user", s("")), msg("user", s("x"))]);
    assert_eq!(content_of(&empty_first[0]), Some("x".to_string()));
}

#[test]
fn roles_are_renamed() {
    let out = remap_role(vec![msg("user", s("a")), msg("assistant", s("b"))], "user", "human");
    assert_eq!(role_of(&out[0]), Some("human".to_string()));
    assert_eq!(role_of(&out[1]), Some("assistant".to_string()));
    assert_eq!(content_of(&out[0]), Some("a".to_string()));
}
