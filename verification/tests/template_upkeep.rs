use lettuce_ai::json::{JsonNumber, JsonValue};
use lettuce_ai::prompt_templates::{
    append_missing_entry, backfill_legacy_image_entry_content, backfill_missing_entry_conditions,
    backfill_missing_entry_payloads, is_legacy_template_content,
    migrate_legacy_scene_generation_entry_roles, repaired_protected_prompt_type,
    should_backfill_entries,
};
use lettuce_ai::prompt_types::{
    PromptEntryImageSlot, PromptEntryPayload, PromptEntryPosition, PromptEntryRole,
    PromptTemplateType, SystemPromptEntry,
};
use lettuce_ai::tool_fields::{
    payload_contains_function_call, requested_parallel_tool_calls, resolved_window_end,
    sanitize_dynamic_memory_extra_body_fields,
    tool_extra_fields_with_parallel_disabled, window_end_candidates,
};

fn entry(id: &str, content: &str) -> SystemPromptEntry {
    SystemPromptEntry {
        id: id.to_string(),
        name: id.to_string(),
        role: PromptEntryRole::System,
        content: content.to_string(),
        enabled: true,
        injection_position: PromptEntryPosition::Relative,
        injection_depth: 3,
        conditional_min_messages: Some(2),
        interval_turns: Some(1),
        system_prompt: false,
        conditions: None,
        prompt_entry_payload: None,
    }
}

fn s(t: &str) -> JsonValue {
    JsonValue::String(t.to_string())
}

fn obj(pairs: Vec<(&str, JsonValue)>) -> JsonValue {
    JsonValue::Object(pairs.into_iter().map(|(k, v)| (k.to_string(), v)).collect())
}

#[test]
fn missing_entries_are_appended_once() {
    let entries = vec![entry("a", "A")];
    let next = append_missing_entry(&entries, "b", entry("b", "B")).unwrap();
    assert_eq!(next.iter().map(|e| e.id.clone()).collect::<Vec<_>>(), vec!["a", "b"]);
    assert!(append_missing_entry(&entries, "a", entry("a", "again")).is_none());
}

#[test]
fn conditions_and_payloads_come_from_defaults() {
    let mut with_cond = entry("a", "A");
    with_cond.conditions = Some("{\"minMessages\":1}".to_string());
    let mut with_payload = entry("b", "");
    with_payload.prompt_entry_payload =
        Some(PromptEntryPayload::ImageSlot { slot: PromptEntryImageSlot::Avatar });
    let defaults = vec![entry("a", "x"), with_cond, with_payload];

    let entries = vec![entry("a", "A"), entry("c", "C")];
    let next = backfill_missing_entry_conditions(&entries, &defaults).unwrap();
    assert_eq!(next[0].conditions, Some("{\"minMessages\":1}".to_string()));
    assert_eq!(next[1].conditions, None);
    assert!(backfill_missing_entry_conditions(&next, &defaults).is_none());

    let entries = vec![entry("b", "{{image[avatar]}}")];
    let next = backfill_missing_entry_payloads(&entries, &defaults).unwrap();
    assert_eq!(
        next[0].prompt_entry_payload,
        Some(PromptEntryPayload::ImageSlot { slot: PromptEntryImageSlot::Avatar })
    );
    assert!(backfill_missing_entry_payloads(&vec![], &defaults).is_none());

    let cleared = backfill_legacy_image_entry_content(&entries, &defaults).unwrap();
    assert_eq!(cleared[0].content, "");
    assert_eq!(cleared[0].injection_depth, 3);
    let kept = vec![entry("b", "describe the avatar")];
    assert!(backfill_legacy_image_entry_content(&kept, &defaults).is_none());
}

#[test]
fn legacy_scene_entries_move_into_the_chat() {
    let mut already = entry("scene_gen_request", "R");
    already.role = PromptEntryRole::User;
    let entries = vec![entry("scene_gen_context", "C"), entry("other", "O"), already];
    let next = migrate_legacy_scene_generation_entry_roles(&entries).unwrap();
    assert_eq!(next[0].role, PromptEntryRole::User);
    assert_eq!(next[0].injection_position, PromptEntryPosition::InChat);
    assert_eq!(next[0].injection_depth, 0);
    assert_eq!(next[0].conditional_min_messages, None);
    assert_eq!(next[0].interval_turns, None);
    assert_eq!(next[1].role, PromptEntryRole::System);
    assert_eq!(next[1].injection_depth, 3);
    assert!(migrate_legacy_scene_generation_entry_roles(&next).is_none());
}

#[test]
fn template_repairs() {
    assert_eq!(
        repaired_protected_prompt_type("prompt_app_companion", PromptTemplateType::DirectChat),
        Some(PromptTemplateType::CompanionChat)
    );
    assert_eq!(
        repaired_protected_prompt_type("prompt_app_companion", PromptTemplateType::CompanionChat),
        None
    );
    assert_eq!(repaired_protected_prompt_type("mine", PromptTemplateType::DirectChat), None);
    assert!(should_backfill_entries(&vec![], " base ", "base"));
    assert!(!should_backfill_entries(&vec![entry("a", "A")], "base", "base"));
    assert!(is_legacy_template_content("old\n", "  old"));
    assert!(!is_legacy_template_content("new", "old"));
}

#[test]
fn parallel_tool_call_fields() {
    let extra = vec![("parallel_tool_calls".to_string(), JsonValue::Bool(false))];
    assert_eq!(requested_parallel_tool_calls("llamacpp", true, Some(&extra)), Some(false));
    assert_eq!(requested_parallel_tool_calls("llamacpp", true, None), Some(true));
    assert_eq!(requested_parallel_tool_calls("llamacpp", false, Some(&extra)), None);
    assert_eq!(requested_parallel_tool_calls("openai", true, Some(&extra)), None);

    let extra = vec![
        ("parallel_tool_calls".to_string(), JsonValue::Bool(true)),
        ("seed".to_string(), s("1")),
    ];
    let out = tool_extra_fields_with_parallel_disabled(Some(extra)).unwrap();
    assert_eq!(out.len(), 2);
    assert!(out.iter().any(|(k, v)| k == "parallel_tool_calls" && matches!(v, JsonValue::Bool(false))));
    assert!(out.iter().any(|(k, _)| k == "seed"));
    let out = tool_extra_fields_with_parallel_disabled(None).unwrap();
    assert_eq!(out.len(), 1);
}

#[test]
fn function_calls_anywhere() {
    let deep = JsonValue::Array(vec![obj(vec![("a", obj(vec![("functionCall", obj(vec![]))]))])]);
    assert!(payload_contains_function_call(&deep));
    assert!(!payload_contains_function_call(&obj(vec![("function", s("x"))])));
}

#[test]
fn window_end_lookups() {
    let ev = |ids: Vec<&str>| obj(vec![("windowMessageIds", JsonValue::Array(ids.into_iter().map(s).collect()))]);
    let events = vec![ev(vec!["m1", "m2"]), obj(vec![]), ev(vec!["m5"])];
    assert_eq!(
        window_end_candidates(&events),
        vec![(0, "m5".to_string()), (2, "m2".to_string())]
    );
    assert_eq!(resolved_window_end(false, None), (0, false));
    assert_eq!(resolved_window_end(true, Some((0, 7))), (7, false));
    assert_eq!(resolved_window_end(true, Some((2, 4))), (4, true));
    assert_eq!(resolved_window_end(true, None), (0, true));
}


fn field<'a>(pairs: &'a [(String, JsonValue)], key: &str) -> Option<&'a JsonValue> {
    pairs.iter().find(|(k, _)| k == key).map(|(_, v)| v)
}

#[test]
fn llama_memory_requests_use_a_fixed_sampler() {
    let user = vec![
        ("top_k".to_string(), JsonValue::Number(JsonNumber::PosInt(5))),
        ("llamaMinP".to_string(), s("x")),
        ("seed".to_string(), JsonValue::Number(JsonNumber::PosInt(7))),
    ];
    let same = sanitize_dynamic_memory_extra_body_fields("openai", Some(vec![("a".to_string(), s("b"))]), true).unwrap();
    assert_eq!(same.len(), 1);
    assert!(sanitize_dynamic_memory_extra_body_fields("llamacpp", None, false).is_none());
    let out = sanitize_dynamic_memory_extra_body_fields("llamacpp", Some(user), true).unwrap();
    assert!(matches!(field(&out, "top_k"), Some(JsonValue::Number(JsonNumber::PosInt(40)))));
    assert!(field(&out, "llamaMinP").is_none());
    assert!(matches!(field(&out, "seed"), Some(JsonValue::Number(JsonNumber::PosInt(7)))));
    assert!(matches!(field(&out, "llamaDisableSamplerProfileDefaults"), Some(JsonValue::Bool(true))));
    assert!(matches!(field(&out, "min_p"), Some(JsonValue::Number(JsonNumber::Float(t))) if t == "0.0"));
    match field(&out, "llamaSamplerOrder") {
        Some(JsonValue::Array(items)) => {
            assert_eq!(items.len(), 8);
            assert!(matches!(&items[0], JsonValue::String(t) if t == "penalties"));
            assert!(matches!(&items[7], JsonValue::String(t) if t == "typical"));
        }
        _ => panic!("sampler order missing"),
    }
    assert_eq!(out.iter().filter(|(k, _)| k == "top_k").count(), 1);
    let fresh = sanitize_dynamic_memory_extra_body_fields("llamacpp", None, true).unwrap();
    assert_eq!(fresh.len(), 8);
}
