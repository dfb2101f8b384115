use lettuce_ai::fields::FieldValue;
use lettuce_ai::lorebook_entry::{
    condense_prompt_entries, extract_json_snippet, fallback_format_label, fallback_prompt,
    format_existing_entries, format_existing_keywords, format_selected_memories,
    format_selected_messages, lorebook_entry_structured_fallback_format,
    lorebook_keyword_fallback_prompt, normalize_entry_draft, normalize_keywords,
    prompt_entries_to_messages, prompt_entries_to_messages_with_instruction,
    render_simple_prompt_content, result_from_tool_calls, result_keywords_from_tool_calls,
    selected_keyword_prompt_template_id, selected_prompt_template_id,
    supports_lorebook_entry_writer_model, EntryArguments, EntryToolCall, KeywordToolCall,
    LorebookEntry, LorebookEntrySource, ModelScopes, StructuredFallbackFormat,
    LOREBOOK_JSON_FALLBACK_PROMPT_FORCE, LOREBOOK_KEYWORDS_XML_FALLBACK_PROMPT,
    MEMORY_INSTRUCTION_FORCE, parse_fallback_json_result, parse_keyword_fallback_json_result,
    parse_fallback_result,
};
use lettuce_ai::memory::MemoryEmbedding;
use lettuce_ai::prompt_types::{PromptEntryPosition, PromptEntryRole, SystemPromptEntry};
use lettuce_ai::request::StoredMessage;

fn entry(id: &str, role: PromptEntryRole, content: &str, pos: PromptEntryPosition, depth: u32) -> SystemPromptEntry {
    SystemPromptEntry {
        id: id.to_string(),
        name: id.to_string(),
        role,
        content: content.to_string(),
        enabled: true,
        injection_position: pos,
        injection_depth: depth,
        conditional_min_messages: None,
        interval_turns: None,
        system_prompt: true,
        conditions: None,
        prompt_entry_payload: None,
    }
}

fn mem(id: &str, text: &str) -> MemoryEmbedding {
    MemoryEmbedding {
        id: id.to_string(),
        text: text.to_string(),
        observed_at: None,
        embedding_len: 0,
        embedding_dimensions: None,
        embedding_source_version: None,
        is_pinned: false,
        is_cold: false,
    }
}

fn msg(role: &str, content: &str) -> StoredMessage {
    StoredMessage {
        id: "m".to_string(),
        role: role.to_string(),
        content: content.to_string(),
        created_at: 0,
        selected_variant_id: None,
        variants: vec![],
    }
}

fn args(title: FieldValue, content: FieldValue) -> EntryArguments {
    EntryArguments {
        is_object: true,
        title,
        content,
        always_active_camel: FieldValue::Missing,
        always_active_snake: FieldValue::Missing,
        keywords: FieldValue::Missing,
        reason: FieldValue::Missing,
    }
}

fn text(s: &str) -> FieldValue {
    FieldValue::Text(s.to_string())
}

#[test]
fn fallback_formats_and_prompts() {
    assert_eq!(lorebook_entry_structured_fallback_format(None), StructuredFallbackFormat::Json);
    assert_eq!(
        lorebook_entry_structured_fallback_format(Some(StructuredFallbackFormat::Xml)),
        StructuredFallbackFormat::Xml
    );
    assert_eq!(fallback_format_label(StructuredFallbackFormat::Xml), "xml");
    assert_eq!(fallback_prompt(StructuredFallbackFormat::Json, true), LOREBOOK_JSON_FALLBACK_PROMPT_FORCE);
    assert_eq!(lorebook_keyword_fallback_prompt(StructuredFallbackFormat::Xml), LOREBOOK_KEYWORDS_XML_FALLBACK_PROMPT);
}

#[test]
fn template_ids_fall_back_when_blank() {
    assert_eq!(selected_prompt_template_id(&Some("  ".to_string())), "prompt_app_lorebook_entry_writer");
    assert_eq!(selected_prompt_template_id(&Some("mine".to_string())), "mine");
    assert_eq!(selected_prompt_template_id(&None), "prompt_app_lorebook_entry_writer");
    assert_eq!(selected_keyword_prompt_template_id(&Some("kw".to_string())), "kw");
}

#[test]
fn writer_model_needs_text_both_ways() {
    let m = ModelScopes { input_scopes: vec!["image".into(), "TEXT".into()], output_scopes: vec!["text".into()] };
    assert!(supports_lorebook_entry_writer_model(&m));
    let m = ModelScopes { input_scopes: vec!["text".into()], output_scopes: vec!["image".into()] };
    assert!(!supports_lorebook_entry_writer_model(&m));
}

#[test]
fn placeholders_are_replaced_in_order() {
    let out = render_simple_prompt_content(
        "Name: {{name}}; again {{name}}; {{other}}",
        &[("{{name}}", "{{other}}"), ("{{other}}", "X")],
    );
    assert_eq!(out, "Name: X; again X; X");
}

#[test]
fn condensing_merges_alike_neighbours() {
    let entries = vec![
        entry("a", PromptEntryRole::System, "  first ", PromptEntryPosition::Relative, 0),
        entry("b", PromptEntryRole::System, "second", PromptEntryPosition::Relative, 0),
        entry("c", PromptEntryRole::System, "   ", PromptEntryPosition::Relative, 0),
        entry("d", PromptEntryRole::User, "third", PromptEntryPosition::Relative, 0),
    ];
    let out = condense_prompt_entries(entries);
    assert_eq!(out.len(), 2);
    assert_eq!(out[0].id, "a");
    assert_eq!(out[0].content, "first\n\nsecond");
    assert_eq!(out[1].content, "third");
}

#[test]
fn existing_entries_text() {
    assert_eq!(format_existing_entries(&vec![]), "(none)");
    let entries = vec![
        LorebookEntry { title: " Town ".into(), keywords: vec!["mill".into(), "river".into()], always_active: false, content: " A mill town. ".into() },
        LorebookEntry { title: " ".into(), keywords: vec!["dragon".into()], always_active: true, content: "".into() },
        LorebookEntry { title: "".into(), keywords: vec![], always_active: false, content: "x".into() },
    ];
    assert_eq!(
        format_existing_entries(&entries),
        "- Town (keywords: mill, river): A mill town.\n- dragon (always active)\n- Untitled entry (no keywords): x"
    );
}

#[test]
fn selected_memories_text() {
    let ids = vec!["2".to_string(), "legacy:1".to_string(), "3".to_string()];
    let embeddings = vec![mem("1", "skip me"), mem("2", " likes tea "), mem("3", "   ")];
    let legacy = vec!["old zero".to_string(), " old one ".to_string()];
    assert_eq!(format_selected_memories(&ids, &embeddings, &legacy), "1. likes tea\n2. old one");
    assert_eq!(format_selected_memories(&vec![], &embeddings, &legacy), "(none)");
    assert_eq!(format_selected_memories(&vec!["3".to_string()], &embeddings, &legacy), "(none)");
}

#[test]
fn selected_messages_text() {
    let messages = vec![msg("user", " hi "), msg("assistant", "  ")];
    assert_eq!(format_selected_messages(&messages), "1. user: hi\n2. assistant: [empty message]");
    assert_eq!(format_selected_messages(&vec![]), "");
}

#[test]
fn existing_keywords_text() {
    assert_eq!(format_existing_keywords(&vec![" a ".into(), "".into(), "b".into()]), "a, b");
    assert_eq!(format_existing_keywords(&vec![" ".into()]), "(none)");
}

#[test]
fn json_snippets() {
    assert_eq!(extract_json_snippet("Sure! {\"a\": [1, 2]} trailing }").as_deref(), Some("{\"a\": [1, 2]}"));
    assert_eq!(extract_json_snippet("x {\"s\": \"}{\\\"\"} y").as_deref(), Some("{\"s\": \"}{\\\"\"}"));
    assert_eq!(extract_json_snippet("[1, {\"b\": 2}]").as_deref(), Some("[1, {\"b\": 2}]"));
    assert_eq!(extract_json_snippet("{\"a\": ]"), None);
    assert_eq!(extract_json_snippet("no json here"), None);
    assert_eq!(extract_json_snippet("{\"open\": 1"), None);
}

#[test]
fn keywords_are_trimmed_deduplicated_and_capped() {
    let items = FieldValue::List(vec![
        Some(" Dragon ".into()),
        None,
        Some("dragon".into()),
        Some("  ".into()),
        Some("Cave".into()),
    ]);
    assert_eq!(normalize_keywords(&items), vec!["Dragon".to_string(), "Cave".to_string()]);
    assert_eq!(normalize_keywords(&text(" solo ")), vec!["solo".to_string()]);
    assert!(normalize_keywords(&FieldValue::Flag(true)).is_empty());
    let many = FieldValue::List((0..30).map(|i| Some(format!("k{}", i))).collect());
    let out = normalize_keywords(&many);
    assert_eq!(out.len(), 24);
    assert_eq!(out[23], "k23");
}

#[test]
fn entry_drafts_need_title_and_content() {
    let mut a = args(text(" Title "), text(" Body "));
    a.always_active_snake = FieldValue::Flag(true);
    a.keywords = FieldValue::List(vec![Some("k".into())]);
    let d = normalize_entry_draft(&a).unwrap();
    assert_eq!(d.title, "Title");
    assert_eq!(d.content, "Body");
    assert!(d.always_active);
    assert_eq!(d.keywords, vec!["k".to_string()]);
    let a = args(text("  "), text("Body"));
    assert_eq!(normalize_entry_draft(&a).err().unwrap(), "write_lorebook_entry is missing a non-empty title");
    let a = args(text("T"), FieldValue::Missing);
    assert_eq!(normalize_entry_draft(&a).err().unwrap(), "write_lorebook_entry is missing non-empty content");
    let mut a = args(text("T"), text("B"));
    a.is_object = false;
    assert_eq!(normalize_entry_draft(&a).err().unwrap(), "write_lorebook_entry arguments must be an object");
}

#[test]
fn tool_call_results() {
    let calls = vec![
        EntryToolCall { name: "no_entry".into(), arguments: args(FieldValue::Missing, FieldValue::Missing) },
        EntryToolCall { name: "write_lorebook_entry".into(), arguments: args(text("T"), text("B")) },
    ];
    let r = result_from_tool_calls(&calls).unwrap().unwrap();
    assert_eq!(r.kind, "entry");
    assert_eq!(r.draft.unwrap().title, "T");
    let mut reason = args(FieldValue::Missing, FieldValue::Missing);
    reason.reason = text(" nothing new ");
    let calls = vec![
        EntryToolCall { name: "no_entry".into(), arguments: args(FieldValue::Missing, FieldValue::Missing) },
        EntryToolCall { name: "no_entry".into(), arguments: reason },
    ];
    let r = result_from_tool_calls(&calls).unwrap().unwrap();
    assert_eq!(r.kind, "none");
    assert_eq!(r.reason.as_deref(), Some("nothing new"));
    let calls = vec![EntryToolCall { name: "no_entry".into(), arguments: args(FieldValue::Missing, FieldValue::Missing) }];
    let r = result_from_tool_calls(&calls).unwrap().unwrap();
    assert_eq!(r.reason.as_deref(), Some("The selected messages do not establish durable lore."));
    assert!(result_from_tool_calls(&vec![]).unwrap().is_none());
    let calls = vec![EntryToolCall { name: "write_lorebook_entry".into(), arguments: args(text("T"), text(" ")) }];
    assert!(result_from_tool_calls(&calls).is_err());
}

#[test]
fn keyword_tool_call_results() {
    let calls = vec![
        KeywordToolCall { name: "other".into(), keywords: text("x") },
        KeywordToolCall { name: "write_lorebook_keywords".into(), keywords: FieldValue::List(vec![Some("a".into()), Some("A".into())]) },
    ];
    let r = result_keywords_from_tool_calls(&calls).unwrap().unwrap();
    assert_eq!(r.keywords, vec!["a".to_string()]);
    assert!(result_keywords_from_tool_calls(&vec![]).unwrap().is_none());
}

#[test]
fn in_chat_entries_are_inserted_by_depth() {
    let entries = vec![
        entry("s", PromptEntryRole::System, "sys", PromptEntryPosition::Relative, 0),
        entry("i1", PromptEntryRole::User, "deep", PromptEntryPosition::InChat, 5),
        entry("u", PromptEntryRole::User, "hello", PromptEntryPosition::Relative, 0),
        entry("i2", PromptEntryRole::Assistant, "near", PromptEntryPosition::InChat, 1),
        entry("i3", PromptEntryRole::Assistant, "skipped", PromptEntryPosition::InChat, 0),
    ];
    let out = prompt_entries_to_messages_with_instruction("developer", &entries, &vec![true, true, false], "go");
    let expected: Vec<(String, String)> = vec![
        ("user", "deep"),
        ("developer", "sys"),
        ("assistant", "near"),
        ("user", "hello"),
        ("user", "go"),
    ]
    .into_iter()
    .map(|(a, b)| (a.to_string(), b.to_string()))
    .collect();
    assert_eq!(out, expected);
}

#[test]
fn instructions_follow_source_and_force() {
    let entries = vec![entry("s", PromptEntryRole::System, "sys", PromptEntryPosition::Relative, 0)];
    let out = prompt_entries_to_messages("system", &entries, &vec![], true, LorebookEntrySource::Memory);
    assert_eq!(out.len(), 2);
    assert_eq!(out[1], ("user".to_string(), MEMORY_INSTRUCTION_FORCE.to_string()));
}

#[test]
fn json_fallback_answers_are_read() {
    let raw = "```json\n{\"result\":{\"name\":\"write_lorebook_entry\",\"arguments\":{\"title\":\" The Mill \",\"keywords\":[\"mill\"],\"content\":\"An old mill.\",\"alwaysActive\":true}}}\n```";
    let r = parse_fallback_json_result(raw).unwrap();
    assert_eq!(r.kind, "entry");
    let d = r.draft.unwrap();
    assert_eq!(d.title, "The Mill");
    assert_eq!(d.keywords, vec!["mill".to_string()]);
    assert!(d.always_active);
    let same = parse_fallback_result(raw, StructuredFallbackFormat::Json).unwrap();
    assert_eq!(same.kind, "entry");
    match parse_fallback_json_result("{not json") {
        Err(e) => assert!(e.starts_with("fallback JSON parse error: "), "{}", e),
        Ok(_) => panic!("expected an error"),
    }
    let k = parse_keyword_fallback_json_result(
        "{\"result\":{\"name\":\"write_lorebook_keywords\",\"arguments\":{\"keywords\":[\"a\",\"b\"]}}}",
    )
    .unwrap();
    assert_eq!(k.keywords, vec!["a".to_string(), "b".to_string()]);
}
