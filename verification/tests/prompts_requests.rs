use lettuce_ai::parameter_engine::{
    allowed_image_slots_for_prompt_type, allowed_variables_for_prompt_type, build_parameter_engine,
    describe_prompt_type,
    prompt_type_label, required_variables_for_prompt_type, validate_required_variables,
};
use lettuce_ai::prompt_templates::{
    copy_entry, get_required_variables, single_entry_from_content, supports_entry_prompts,
    template_entries_to_content, template_entries_to_validation_content,
};
use lettuce_ai::prompt_types::{
    expected_protected_prompt_type, is_app_default_template, prompt_type_to_str,
    str_to_prompt_type, template_prompt_type_from_id, PromptEntryImageSlot, PromptTemplateType,
    APP_DEFAULT_TEMPLATE_ID, APP_LOREBOOK_ENTRY_WRITER_TEMPLATE_ID,
};
use lettuce_ai::request::{
    ensure_assistant_variant, format_gemini_block_reason, format_gemini_finish_reason_error,
    humanize_reason, message_text_for_api, new_assistant_variant, push_assistant_variant,
    MessageVariant, StoredMessage,
};
use lettuce_ai::serde_utils::{sanitize_header_value, truncate_for_log};
use lettuce_ai::sse::{SseDecoder, SseFrame};

fn message(selected: Option<&str>, variants: Vec<MessageVariant>) -> StoredMessage {
    StoredMessage {
        id: "m1".to_string(),
        role: "assistant".to_string(),
        content: "base".to_string(),
        created_at: 7,
        selected_variant_id: selected.map(|s| s.to_string()),
        variants,
    }
}

fn variant(id: &str, content: &str) -> MessageVariant {
    MessageVariant { id: id.to_string(), content: content.to_string(), created_at: 1, reasoning: None }
}

#[test]
fn template_ids_map_to_types() {
    assert_eq!(template_prompt_type_from_id(APP_DEFAULT_TEMPLATE_ID), PromptTemplateType::DirectChat);
    assert_eq!(
        template_prompt_type_from_id(APP_LOREBOOK_ENTRY_WRITER_TEMPLATE_ID),
        PromptTemplateType::LorebookEntryWriter
    );
    assert_eq!(template_prompt_type_from_id("custom-123"), PromptTemplateType::Undefined);
    assert!(is_app_default_template(APP_DEFAULT_TEMPLATE_ID));
    assert!(!is_app_default_template("custom-123"));
    assert_eq!(expected_protected_prompt_type("custom-123"), None);
}

#[test]
fn prompt_type_names_round_trip() {
    assert_eq!(prompt_type_to_str(PromptTemplateType::DirectChat), "directChat");
    assert_eq!(str_to_prompt_type("lorebookEntryWriter"), Ok(PromptTemplateType::LorebookEntryWriter));
    assert_eq!(str_to_prompt_type("nope"), Err("Unknown prompt type: nope".to_string()));
    for t in [
        PromptTemplateType::Undefined,
        PromptTemplateType::CompanionChat,
        PromptTemplateType::ScenePromptWriter,
    ] {
        assert_eq!(str_to_prompt_type(prompt_type_to_str(t)), Ok(t));
    }
}

#[test]
fn required_variables_and_validation() {
    assert_eq!(
        required_variables_for_prompt_type(PromptTemplateType::DynamicMemorySummarizer),
        vec!["{{prev_summary}}".to_string()]
    );
    assert!(required_variables_for_prompt_type(PromptTemplateType::Undefined).is_empty());
    assert_eq!(validate_required_variables(PromptTemplateType::DynamicMemorySummarizer, "x {{prev_summary}} y"), Ok(()));
    assert_eq!(
        validate_required_variables(PromptTemplateType::GroupChatConversational, "{{char.name}} {{persona.name}}"),
        Err(vec!["{{char.desc}}".to_string(), "{{persona.desc}}".to_string(), "{{group_characters}}".to_string()])
    );
}

#[test]
fn allowed_variables_have_no_repeats() {
    let vars = allowed_variables_for_prompt_type(PromptTemplateType::DirectChat);
    assert!(!vars.is_empty());
    for (i, a) in vars.iter().enumerate() {
        for b in vars.iter().skip(i + 1) {
            assert_ne!(a.variable, b.variable);
        }
    }
}

#[test]
fn engine_describes_every_type() {
    let engine = build_parameter_engine();
    assert_eq!(engine.prompt_types.len(), 17);
    assert_eq!(engine.prompt_types[1].prompt_type, PromptTemplateType::DirectChat);
    assert_eq!(engine.prompt_types[1].label, "Direct Chat");
    let d = describe_prompt_type(PromptTemplateType::DirectChat);
    assert_eq!(d.label, prompt_type_label(PromptTemplateType::DirectChat));
    assert_eq!(d.required_variables.len(), 8);
}

#[test]
fn single_entry_template_round_trip() {
    let entries = single_entry_from_content("Hello {{char.name}}");
    assert_eq!(entries.len(), 1);
    assert_eq!(template_entries_to_content(&entries), "Hello {{char.name}}");
}

#[test]
fn selected_variant_text_is_sent() {
    let m = message(Some("v2"), vec![variant("v1", "one"), variant("v2", "two")]);
    assert_eq!(message_text_for_api(&m), "two");
    let m = message(Some("zz"), vec![variant("v1", "one")]);
    assert_eq!(message_text_for_api(&m), "base");
    let m = message(None, vec![variant("v1", "one")]);
    assert_eq!(message_text_for_api(&m), "base");
}

#[test]
fn assistant_variants() {
    let v = new_assistant_variant("hello".to_string(), 42);
    assert_eq!(v.content, "hello");
    assert_eq!(v.created_at, 42);
    assert_eq!(v.id.len(), 36);
    let mut m = message(None, vec![]);
    ensure_assistant_variant(&mut m);
    assert_eq!(m.variants.len(), 1);
    assert_eq!(m.variants[0].content, "base");
    assert_eq!(m.selected_variant_id.as_deref(), Some(m.variants[0].id.as_str()));
    let before = m.variants.len();
    ensure_assistant_variant(&mut m);
    assert_eq!(m.variants.len(), before);
    push_assistant_variant(&mut m, variant("v9", "nine"));
    assert_eq!(m.variants.last().unwrap().id, "v9");
    assert_eq!(m.selected_variant_id.as_deref(), Some("v9"));
}

#[test]
fn gemini_reasons() {
    assert_eq!(humanize_reason("IMAGE_SAFETY"), "image safety");
    assert_eq!(format_gemini_block_reason("OTHER"), "Content was blocked by Gemini for an uncategorized reason.");
    assert_eq!(format_gemini_block_reason("NEW_REASON"), "Content was blocked by Gemini: new reason");
    assert_eq!(format_gemini_finish_reason_error("STOP"), None);
    assert_eq!(
        format_gemini_finish_reason_error("NO_IMAGE").as_deref(),
        Some("Image generation failed: no image was produced.")
    );
}

#[test]
fn log_values_are_truncated_and_secrets_hidden() {
    assert_eq!(truncate_for_log("abcdef", 10), "abcdef");
    assert_eq!(truncate_for_log("abcdef", 3), "abc…");
    assert_eq!(sanitize_header_value("Authorization", "Bearer x"), "***");
    assert_eq!(sanitize_header_value("X-Session-Token", "t"), "***");
    assert_eq!(sanitize_header_value("Accept", "json"), "json");
}

#[test]
fn sse_frames_follow_complete_lines() {
    let mut d = SseDecoder::new();
    let frames = d.feed("data: {\"a\":1}\n\ndata: [DO", None);
    assert_eq!(frames.len(), 1);
    assert!(matches!(&frames[0], SseFrame::Payload(p) if p == "{\"a\":1}"));
    let frames = d.feed("NE]\r\n", None);
    assert_eq!(frames.len(), 1);
    assert!(matches!(frames[0], SseFrame::Done));
}

#[test]
fn sse_chunking_does_not_matter() {
    let text = "data: one\nevent: x\ndata: two\n\ndata: [DONE]\n";
    let mut whole = SseDecoder::new();
    let a: Vec<String> = whole
        .feed(text, None)
        .into_iter()
        .map(|f| match f {
            SseFrame::Done => "DONE".to_string(),
            SseFrame::Payload(p) => p,
        })
        .collect();
    let mut parts = SseDecoder::new();
    let mut b: Vec<String> = Vec::new();
    for piece in ["da", "ta: one\nev", "ent: x\ndata: t", "wo\n\ndata: [DONE]\n"] {
        for f in parts.feed(piece, None) {
            b.push(match f {
                SseFrame::Done => "DONE".to_string(),
                SseFrame::Payload(p) => p,
            });
        }
    }
    assert_eq!(a, vec!["one".to_string(), "two".to_string(), "DONE".to_string()]);
    assert_eq!(a, b);
}

#[test]
fn ollama_streams_bare_json_lines() {
    let mut d = SseDecoder::new();
    let frames = d.feed("{\"done\":false}\n", Some("ollama"));
    assert!(matches!(&frames[0], SseFrame::Payload(p) if p == "{\"done\":false}"));
    let mut d = SseDecoder::new();
    assert!(d.feed("{\"done\":false}\n", Some("openai")).is_empty());
}

#[test]
fn validation_content_skips_disabled_and_blank_entries() {
    let mut entries = single_entry_from_content("Hello {{char.name}}");
    let mut off = copy_entry(&entries[0]);
    off.content = "hidden {{persona.name}}".to_string();
    off.enabled = false;
    off.system_prompt = false;
    let mut blank = copy_entry(&entries[0]);
    blank.content = "   ".to_string();
    entries.push(off);
    entries.push(blank);
    assert_eq!(template_entries_to_validation_content(&entries), "Hello {{char.name}}");
    assert!(supports_entry_prompts("anything"));
    let required = get_required_variables(APP_LOREBOOK_ENTRY_WRITER_TEMPLATE_ID);
    let expected = required_variables_for_prompt_type(template_prompt_type_from_id(APP_LOREBOOK_ENTRY_WRITER_TEMPLATE_ID));
    assert_eq!(required, expected);
}

const ALL_KINDS: [PromptTemplateType; 21] = [
    PromptTemplateType::Undefined,
    PromptTemplateType::DirectChat,
    PromptTemplateType::CompanionChat,
    PromptTemplateType::GroupChatRoleplay,
    PromptTemplateType::GroupChatConversational,
    PromptTemplateType::DynamicMemorySummarizer,
    PromptTemplateType::DynamicMemoryManager,
    PromptTemplateType::ReplyHelperRoleplay,
    PromptTemplateType::ReplyHelperConversational,
    PromptTemplateType::LorebookEntryWriter,
    PromptTemplateType::LorebookKeywordGenerator,
    PromptTemplateType::LorebookGeneratorPlanner,
    PromptTemplateType::LorebookGeneratorWriter,
    PromptTemplateType::LorebookGeneratorRefine,
    PromptTemplateType::LorebookGeneratorCoherence,
    PromptTemplateType::AvatarGeneration,
    PromptTemplateType::AvatarEditRequest,
    PromptTemplateType::SceneGeneration,
    PromptTemplateType::ScenePromptWriter,
    PromptTemplateType::DesignReferenceWriter,
    PromptTemplateType::CompanionSoulWriter,
];

#[test]
fn every_required_placeholder_is_allowed() {
    for t in ALL_KINDS {
        let allowed = allowed_variables_for_prompt_type(t);
        for v in required_variables_for_prompt_type(t) {
            assert!(allowed.iter().any(|d| d.variable == v), "{:?} {}", t, v);
        }
    }
}

#[test]
fn image_slots_follow_the_allowed_placeholders() {
    let slots = [
        (PromptEntryImageSlot::Character, "{{image[character]}}"),
        (PromptEntryImageSlot::Persona, "{{image[persona]}}"),
        (PromptEntryImageSlot::ChatBackground, "{{image[chatBackground]}}"),
        (PromptEntryImageSlot::Avatar, "{{image[avatar]}}"),
        (PromptEntryImageSlot::References, "{{image[references]}}"),
    ];
    for t in ALL_KINDS {
        let allowed = allowed_variables_for_prompt_type(t);
        let carried = allowed_image_slots_for_prompt_type(t);
        for (slot, var) in slots {
            assert_eq!(carried.contains(&slot), allowed.iter().any(|d| d.variable == var), "{:?}", t);
        }
    }
}

#[test]
fn engine_kinds_are_distinct_and_leave_out_the_generator() {
    let engine = build_parameter_engine();
    for (i, a) in engine.prompt_types.iter().enumerate() {
        for b in engine.prompt_types.iter().skip(i + 1) {
            assert_ne!(a.prompt_type, b.prompt_type);
        }
        assert!(!matches!(
            a.prompt_type,
            PromptTemplateType::LorebookGeneratorPlanner
                | PromptTemplateType::LorebookGeneratorWriter
                | PromptTemplateType::LorebookGeneratorRefine
                | PromptTemplateType::LorebookGeneratorCoherence
        ));
        assert_eq!(a.allowed_image_slots, allowed_image_slots_for_prompt_type(a.prompt_type));
    }
}
