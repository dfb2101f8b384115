use lettuce_ai::fields::FieldValue;
use lettuce_ai::memory::MemoryEmbedding;
use lettuce_ai::memory_tools::{
    apply_memory_tool_call, apply_memory_tool_calls, extract_required_memory_category,
    extract_text_argument, find_delete_target, iteration_request_id, max_loop_iterations,
    memory_loop_should_stop, MemoryToolCall, ToolOutcome, memory_tag_repairs, tag_repair_needs_fallback,
    tag_repair_user_message, TagRepairCall,
};

fn mem(id: &str, text: &str) -> MemoryEmbedding {
    MemoryEmbedding {
        id: id.to_string(),
        text: text.to_string(),
        observed_at: None,
        embedding_len: 0,
        embedding_dimensions: None,
        embedding_source_version: None,
        is_pinned: false,
        is_cold: false,
    }
}

fn call(name: &str, text: Option<&str>, id: Option<&str>, high: bool) -> MemoryToolCall {
    MemoryToolCall {
        name: name.to_string(),
        text: text.map_or(FieldValue::Missing, |t| FieldValue::Text(t.to_string())),
        id: id.map_or(FieldValue::Missing, |t| FieldValue::Text(t.to_string())),
        high_confidence: high,
    }
}

fn memories() -> Vec<MemoryEmbedding> {
    vec![mem("111111", "likes tea"), mem("222222", "has a cat"), mem("333333", "lives by the sea")]
}

#[test]
fn delete_target_by_id_or_text() {
    let ms = memories();
    assert_eq!(find_delete_target(&ms, " #222222 "), Some(1));
    assert_eq!(find_delete_target(&ms, "lives by the sea"), Some(2));
    assert_eq!(find_delete_target(&ms, "444444"), None);
    assert_eq!(find_delete_target(&ms, "likes coffee"), None);
}

#[test]
fn confident_delete_removes_the_memory() {
    let mut ms = memories();
    let mut hard = 0usize;
    let out = apply_memory_tool_call(&mut ms, &mut hard, 2, &call("delete_memory", Some("222222"), None, true));
    match out {
        ToolOutcome::HardDeleted { memory } => assert_eq!(memory.text, "has a cat"),
        _ => panic!("expected a hard delete"),
    }
    assert_eq!(hard, 1);
    assert_eq!(ms.len(), 2);
}

#[test]
fn unsure_delete_moves_to_cold_storage() {
    let mut ms = memories();
    let mut hard = 0usize;
    let out = apply_memory_tool_call(&mut ms, &mut hard, 2, &call("delete_memory", Some("likes tea"), None, false));
    assert!(matches!(out, ToolOutcome::SoftDeleted { index: 0, forced: false }));
    assert_eq!(hard, 0);
    assert_eq!(ms.len(), 3);
    assert!(ms[0].is_cold);
}

#[test]
fn hard_delete_cap_turns_deletes_soft() {
    let mut ms = memories();
    let mut hard = 0usize;
    let calls = vec![
        call("delete_memory", Some("111111"), None, true),
        call("delete_memory", Some("222222"), None, true),
        call("delete_memory", Some("333333"), None, true),
    ];
    let (outcomes, done) = apply_memory_tool_calls(&mut ms, &mut hard, 1, &calls);
    assert!(!done);
    assert_eq!(outcomes.len(), 3);
    assert_eq!(hard, 1);
    assert_eq!(ms.len(), 2);
    assert!(matches!(outcomes[1], ToolOutcome::SoftDeleted { forced: true, .. }));
    assert!(ms.iter().all(|m| m.is_cold));
}

#[test]
fn pin_and_unpin() {
    let mut ms = memories();
    let mut hard = 0usize;
    let out = apply_memory_tool_call(&mut ms, &mut hard, 1, &call("pin_memory", None, Some("[333333]"), false));
    assert!(matches!(out, ToolOutcome::Pinned { index: 2 }));
    assert!(ms[2].is_pinned);
    let out = apply_memory_tool_call(&mut ms, &mut hard, 1, &call("unpin_memory", None, Some("333333"), false));
    assert!(matches!(out, ToolOutcome::Unpinned { index: 2 }));
    assert!(!ms[2].is_pinned);
    let out = apply_memory_tool_call(&mut ms, &mut hard, 1, &call("pin_memory", None, Some("999999"), false));
    assert!(matches!(out, ToolOutcome::NotFound));
    let out = apply_memory_tool_call(&mut ms, &mut hard, 1, &call("pin_memory", None, None, false));
    assert!(matches!(out, ToolOutcome::MissingTarget));
}

#[test]
fn done_stops_the_pass() {
    let mut ms = memories();
    let mut hard = 0usize;
    let calls = vec![
        call("create_memory", Some("new fact"), None, false),
        call("done", None, None, false),
        call("delete_memory", Some("111111"), None, true),
    ];
    let (outcomes, done) = apply_memory_tool_calls(&mut ms, &mut hard, 5, &calls);
    assert!(done);
    assert_eq!(outcomes.len(), 2);
    assert!(matches!(outcomes[0], ToolOutcome::CreateRequested));
    assert!(matches!(outcomes[1], ToolOutcome::Done));
    assert_eq!(ms.len(), 3);
    let (outcomes, _) = apply_memory_tool_calls(&mut ms, &mut hard, 5, &vec![call("forget", None, None, true)]);
    assert!(matches!(outcomes[0], ToolOutcome::Unsupported));
}

#[test]
fn text_argument_falls_back_to_raw() {
    assert_eq!(extract_text_argument(&FieldValue::Text("x".into()), &Some("raw".into())), Some("x".to_string()));
    assert_eq!(extract_text_argument(&FieldValue::Missing, &Some("raw".into())), Some("raw".to_string()));
    assert_eq!(extract_text_argument(&FieldValue::Flag(true), &None), None);
}

#[test]
fn categories_are_checked() {
    assert_eq!(extract_required_memory_category(&FieldValue::Text(" preference ".into())), Ok("preference".to_string()));
    assert_eq!(extract_required_memory_category(&FieldValue::Text("  ".into())), Err("missing required category".to_string()));
    assert_eq!(extract_required_memory_category(&FieldValue::Missing), Err("missing required category".to_string()));
    assert_eq!(
        extract_required_memory_category(&FieldValue::Text("mood".into())),
        Err("invalid category 'mood'; expected one of: character_trait, relationship, plot_event, world_detail, preference, other".to_string())
    );
}

#[test]
fn loop_control() {
    assert_eq!(max_loop_iterations(false, 9), 1);
    assert_eq!(max_loop_iterations(true, 0), 1);
    assert_eq!(max_loop_iterations(true, 4), 4);
    assert!(memory_loop_should_stop(true, false, true, false));
    assert!(memory_loop_should_stop(false, true, true, false));
    assert!(memory_loop_should_stop(false, false, false, false));
    assert!(!memory_loop_should_stop(false, false, true, false));
    assert_eq!(iteration_request_id(Some("req"), true, 0), Some("req:loop-1".to_string()));
    assert_eq!(iteration_request_id(Some("req"), false, 3), Some("req".to_string()));
    assert_eq!(iteration_request_id(None, true, 3), None);
}

fn retag(name: &str, text: Option<&str>, category: &str) -> TagRepairCall {
    TagRepairCall {
        name: name.to_string(),
        text: match text {
            Some(t) => FieldValue::Text(t.to_string()),
            None => FieldValue::Missing,
        },
        category: FieldValue::Text(category.to_string()),
    }
}

#[test]
fn tag_repair_request_lists_the_texts() {
    let texts = vec!["Likes tea".to_string(), "Met Bob".to_string()];
    assert_eq!(
        tag_repair_user_message(&texts),
        "Valid categories: character_trait, relationship, plot_event, world_detail, preference, other.\nReturn one retag_memory tool call per text.\nTexts:\n1. Likes tea\n2. Met Bob"
    );
}

#[test]
fn tag_repairs_collect_valid_retag_calls() {
    let calls = vec![
        retag("retag_memory", Some("Likes tea"), " preference "),
        retag("create_memory", Some("Met Bob"), "relationship"),
        retag("retag_memory", Some("Met Bob"), "nonsense"),
        retag("retag_memory", None, "other"),
        retag("retag_memory", Some("Met Bob"), "relationship"),
        retag("retag_memory", Some("Likes tea"), "character_trait"),
    ];
    let r = memory_tag_repairs(&calls);
    assert_eq!(
        r,
        vec![
            ("Likes tea".to_string(), "character_trait".to_string()),
            ("Met Bob".to_string(), "relationship".to_string()),
        ]
    );
    assert!(!tag_repair_needs_fallback(r.len()));
    assert!(tag_repair_needs_fallback(memory_tag_repairs(&vec![]).len()));
}
