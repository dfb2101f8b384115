use lettuce_ai::custom_adapters::{CustomAnthropicAdapter, CustomGenericAdapter, CustomToolChoice};
use lettuce_ai::json::JsonValue;

fn s(t: &str) -> JsonValue {
    JsonValue::String(t.to_string())
}

fn obj(pairs: Vec<(&str, JsonValue)>) -> JsonValue {
    JsonValue::Object(pairs.into_iter().map(|(k, v)| (k.to_string(), v)).collect())
}

fn member<'a>(v: &'a JsonValue, key: &str) -> Option<&'a str> {
    match v {
        JsonValue::Object(pairs) => pairs.iter().find(|(k, _)| k == key).and_then(|(_, v)| match v {
            JsonValue::String(t) => Some(t.as_str()),
            _ => None,
        }),
        _ => None,
    }
}

fn header<'a>(h: &'a [(String, String)], name: &str) -> Option<&'a str> {
    h.iter().rev().find(|(k, _)| k == name).map(|(_, v)| v.as_str())
}

#[test]
fn generic_defaults_without_configuration() {
    let a = CustomGenericAdapter::new(None);
    assert_eq!(a.endpoint("https://host/api/"), "https://host/api/chat/completions");
    assert_eq!(a.system_role(), "system");
    assert_eq!(a.auth_mode(), "header");
    assert_eq!(a.list_models_endpoint("https://host//"), "https://host/v1/models");
    assert!(a.supports_stream());
    assert!(a.merge_same_role_messages());
    let h = a.headers("k1", &None);
    assert_eq!(header(&h, "Content-Type"), Some("application/json"));
    assert_eq!(header(&h, "x-api-key"), Some("k1"));
    assert_eq!(header(&h, "Authorization"), None);
    assert_eq!(a.build_url("https://host", "m", "k1", true), "https://host/chat/completions");
    assert!(matches!(a.tool_choice(), CustomToolChoice::Named(ref c) if c == "auto"));
}

#[test]
fn generic_query_auth_and_paths() {
    let cfg = obj(vec![
        ("authMode", s("QUERY")),
        ("authQueryParamName", s("key")),
        ("chatEndpoint", s("/v2/chat?x=1")),
        ("modelsEndpoint", s("list")),
        ("supportsStream", JsonValue::Bool(false)),
        ("toolChoiceMode", s("Omit")),
    ]);
    let a = CustomGenericAdapter::new(Some(cfg));
    assert_eq!(a.build_url("https://h/", "m", "secret", false), "https://h/v2/chat?x=1&key=secret");
    assert_eq!(a.append_query_auth("https://h/a".to_string(), "secret"), "https://h/a?key=secret");
    assert_eq!(a.append_query_auth("https://h/a".to_string(), "  "), "https://h/a");
    assert_eq!(a.list_models_endpoint("https://h/"), "https://h/list");
    assert!(!a.supports_stream());
    assert!(matches!(a.tool_choice(), CustomToolChoice::Omit));
    let h = a.headers("secret", &None);
    assert_eq!(h.len(), 1);
}

#[test]
fn generic_bearer_and_absolute_models_url() {
    let cfg = obj(vec![
        ("authMode", s("bearer")),
        ("modelsEndpoint", s("https://other/models")),
        ("toolChoiceMode", s("weird")),
    ]);
    let a = CustomGenericAdapter::new(Some(cfg));
    let h = a.headers("tok", &Some(vec![("Authorization".to_string(), "Custom".to_string())]));
    assert_eq!(header(&h, "Authorization"), Some("Custom"));
    assert_eq!(header(&a.headers("tok", &None), "Authorization"), Some("Bearer tok"));
    assert_eq!(a.list_models_endpoint("https://h"), "https://other/models");
    assert!(matches!(a.tool_choice(), CustomToolChoice::Named(ref c) if c == "auto"));
    let none = CustomGenericAdapter::new(Some(obj(vec![("authMode", s("none"))])));
    assert_eq!(none.headers("tok", &None).len(), 1);
}

#[test]
fn generic_request_messages_join_and_rename() {
    let cfg = obj(vec![("userRole", s("human")), ("systemRole", s("developer"))]);
    let a = CustomGenericAdapter::new(Some(cfg));
    let msgs = vec![
        obj(vec![("role", s("system")), ("content", s("rules"))]),
        obj(vec![("role", s("user")), ("content", s("hi"))]),
        obj(vec![("role", s("user")), ("content", s("there"))]),
        obj(vec![("role", s("assistant")), ("content", s("hello"))]),
    ];
    let out = a.request_messages(msgs);
    assert_eq!(out.len(), 3);
    assert_eq!(member(&out[0], "role"), Some("developer"));
    assert_eq!(member(&out[1], "role"), Some("human"));
    assert_eq!(member(&out[1], "content"), Some("hi\n\nthere"));
    assert_eq!(member(&out[2], "role"), Some("assistant"));
    let unmerged = CustomGenericAdapter::new(Some(obj(vec![("mergeSameRoleMessages", JsonValue::Bool(false))])));
    let two = vec![
        obj(vec![("role", s("user")), ("content", s("a"))]),
        obj(vec![("role", s("user")), ("content", s("b"))]),
    ];
    assert_eq!(unmerged.request_messages(two).len(), 2);
}

#[test]
fn anthropic_custom_adapter_configuration() {
    let a = CustomAnthropicAdapter::new(None);
    assert_eq!(a.endpoint("https://h/"), "https://h/v1/messages");
    assert_eq!(a.message_roles(), ("user".to_string(), "assistant".to_string()));
    let h = a.headers("k", &None);
    assert_eq!(header(&h, "anthropic-version"), Some("2023-06-01"));
    assert_eq!(header(&h, "x-api-key"), Some("k"));
    let cfg = obj(vec![
        ("userRole", s("Human")),
        ("assistantRole", s("AI")),
        ("authHeaderName", s("api-key")),
        ("chatEndpoint", s("/messages")),
    ]);
    let b = CustomAnthropicAdapter::new(Some(cfg));
    assert_eq!(b.message_roles(), ("Human".to_string(), "AI".to_string()));
    assert_eq!(header(&b.headers("k", &None), "api-key"), Some("k"));
    assert_eq!(b.build_url("https://h", "m", "k", true), "https://h/messages");
    assert_eq!(b.config_value("userRole"), Some("Human".to_string()));
    assert_eq!(b.config_value("missing"), None);
}
