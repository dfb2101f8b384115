use lettuce_ai::memory::{
    conversation_count, conversation_window, dynamic_memory_debug_capture_enabled,
    dynamic_memory_llama_sampler_overwrite_enabled, dynamic_memory_request_id,
    dynamic_memory_run_key, format_memories_with_ids, memory_tool_user_message,
    render_memory_tool_prompt, render_summary_prompt, summarize_turn_effect, transcript_text, guess_memory_category, humanize_key,
    is_cancelled_request_error, latest_observed_memory_context, lexical_anchor, SequenceAnchor, memory_embedding_requires_migration,
    normalize_llm_output_text, normalize_structured_fallback_text, normalized_tokens,
    parallel_tool_calls_requires_disable, plural_suffix, sanitize_memory_id,
    tool_choice_requires_auto, validate_memory_text, validate_summary_text, MemoryEmbedding,
    summary_from_answer,
};
use lettuce_ai::request::StoredMessage;

fn msg(id: &str, role: &str, created_at: u64) -> StoredMessage {
    StoredMessage {
        id: id.to_string(),
        role: role.to_string(),
        content: format!("content of {}", id),
        created_at,
        selected_variant_id: None,
        variants: vec![],
    }
}

fn mem(id: &str, text: &str, len: usize, dims: Option<usize>, version: Option<&str>) -> MemoryEmbedding {
    MemoryEmbedding {
        id: id.to_string(),
        text: text.to_string(),
        observed_at: None,
        embedding_len: len,
        embedding_dimensions: dims,
        embedding_source_version: version.map(|v| v.to_string()),
        is_pinned: false,
        is_cold: false,
    }
}

#[test]
fn fences_are_removed() {
    assert_eq!(normalize_structured_fallback_text("  ```json\n{\"a\":1}\n```  "), "{\"a\":1}");
    assert_eq!(normalize_structured_fallback_text(" plain "), "plain");
    assert_eq!(normalize_llm_output_text("```\n line one \n```"), "line one");
}

#[test]
fn summaries_are_vetted() {
    assert_eq!(validate_summary_text("  They   met\nat the   inn. "), Ok("They met at the inn.".to_string()));
    assert_eq!(validate_summary_text("   "), Err("summary was empty".to_string()));
    assert_eq!(validate_summary_text("I'm sorry, I can't"), Err("summary looked like a refusal".to_string()));
    assert_eq!(validate_summary_text("call write_summary now"), Err("summary leaked tool syntax".to_string()));
    assert_eq!(validate_summary_text(&"a".repeat(6001)), Err("summary was implausibly long".to_string()));
}

#[test]
fn memories_are_vetted() {
    assert_eq!(validate_memory_text(" Likes  green tea "), Ok("Likes green tea".to_string()));
    assert_eq!(validate_memory_text(""), Err("memory was empty".to_string()));
    assert_eq!(validate_memory_text("Sadly I cannot do that"), Err("memory looked like a refusal".to_string()));
    assert_eq!(validate_memory_text("As an AI I note this"), Err("memory looked like meta output".to_string()));
    assert_eq!(validate_memory_text(&"b".repeat(281)), Err("memory was too long".to_string()));
}

#[test]
fn categories_are_guessed_in_order() {
    assert_eq!(guess_memory_category("She likes the city"), "preference");
    assert_eq!(guess_memory_category("They are old friends"), "relationship");
    assert_eq!(guess_memory_category("The village by the forest"), "world_detail");
    assert_eq!(guess_memory_category("He escaped at night"), "plot_event");
    assert_eq!(guess_memory_category("Afraid of heights"), "character_trait");
    assert_eq!(guess_memory_category("Blue sky"), "other");
}

#[test]
fn provider_error_hints() {
    assert!(tool_choice_requires_auto("Error: Tool Choice must be AUTO"));
    assert!(tool_choice_requires_auto("tool choice 'required' unsupported, use auto"));
    assert!(!tool_choice_requires_auto("rate limited"));
    assert!(parallel_tool_calls_requires_disable("parallel_tool_calls is unsupported"));
    assert!(!parallel_tool_calls_requires_disable("parallel tool calls ok"));
    assert!(is_cancelled_request_error("Request was Cancelled by user"));
    assert!(!is_cancelled_request_error("timeout"));
}

#[test]
fn ids_keys_and_words() {
    assert_eq!(sanitize_memory_id("  #[123456]* "), "123456");
    assert_eq!(humanize_key("relationship.trust_level"), "relationship trust level");
    assert_eq!(plural_suffix(1), "");
    assert_eq!(plural_suffix(2), "s");
    assert_eq!(dynamic_memory_run_key("s1"), "chat:s1");
    assert_eq!(dynamic_memory_request_id("s1", "summary"), "dynamic-memory:s1:summary");
    assert!(dynamic_memory_llama_sampler_overwrite_enabled(None));
    assert!(!dynamic_memory_llama_sampler_overwrite_enabled(Some(false)));
    assert!(dynamic_memory_debug_capture_enabled(true, None));
    assert!(dynamic_memory_debug_capture_enabled(false, Some(true)));
    assert!(!dynamic_memory_debug_capture_enabled(false, None));
}

#[test]
fn tokens_are_lowercase_words_of_three_or_more() {
    assert_eq!(
        normalized_tokens("The cat, a DOG-house & an owl!"),
        vec!["the".to_string(), "cat".to_string(), "dog".to_string(), "house".to_string(), "owl".to_string()]
    );
}

#[test]
fn migration_is_needed_for_other_embeddings() {
    assert!(memory_embedding_requires_migration(&mem("1", "t", 0, Some(512), Some("v3")), "v3", 512));
    assert!(memory_embedding_requires_migration(&mem("1", "t", 256, Some(256), Some("v3")), "v3", 512));
    assert!(memory_embedding_requires_migration(&mem("1", "t", 512, None, Some("v3")), "v3", 512));
    assert!(memory_embedding_requires_migration(&mem("1", "t", 512, Some(512), Some("v2")), "v3", 512));
    assert!(!memory_embedding_requires_migration(&mem("1", "t", 512, Some(512), Some("v3")), "v3", 512));
    assert!(!memory_embedding_requires_migration(&mem("1", "t", 512, Some(512), None), "v3", 512));
    assert!(memory_embedding_requires_migration(&mem("1", "t", 768, Some(768), None), "v4", 768));
}

#[test]
fn memory_lines_carry_ids() {
    let ms = vec![mem("123456", "likes tea", 1, None, None), mem("654321", "has a cat", 1, None, None)];
    assert_eq!(format_memories_with_ids(&ms), vec!["[123456] likes tea".to_string(), "[654321] has a cat".to_string()]);
}

#[test]
fn conversation_keeps_user_and_assistant_turns() {
    let messages = vec![msg("a", "system", 1), msg("b", "user", 2), msg("c", "assistant", 3), msg("d", "user", 4)];
    assert_eq!(conversation_count(&messages), 3);
    let window = conversation_window(&messages, 2);
    let ids: Vec<&str> = window.iter().map(|m| m.id.as_str()).collect();
    assert_eq!(ids, vec!["c", "d"]);
    assert_eq!(conversation_window(&messages, 10).len(), 3);
}

#[test]
fn latest_observed_turn() {
    let messages = vec![msg("a", "user", 2), msg("b", " Assistant ", 3), msg("c", "system", 4)];
    let (at, role, id) = latest_observed_memory_context(&messages);
    assert_eq!(at, Some(3));
    assert_eq!(role.as_deref(), Some(" Assistant "));
    assert_eq!(id.as_deref(), Some("b"));
    let (at, role, id) = latest_observed_memory_context(&vec![msg("x", "tool", 1)]);
    assert!(at.is_none() && role.is_none() && id.is_none());
}

#[test]
fn memory_tool_prompt_fills_placeholders() {
    let r = render_memory_tool_prompt(
        Some("cap {{max_entries}}; now {{current_memory_tokens}} of {{hot_token_budget}}; cap {{max_entries}}"),
        50,
        1234,
        2000,
    );
    assert_eq!(r, "cap 50; now 1234 of 2000; cap 50");
}

#[test]
fn memory_tool_prompt_default_text() {
    let r = render_memory_tool_prompt(None, 7, 0, 0);
    assert!(r.starts_with("You maintain a long-term memory index"));
    assert!(r.contains("capped at 7 entries."));
    assert!(!r.contains("{{"));
}

#[test]
fn transcript_text_joins_role_and_content() {
    let w = vec![msg("a", "user", 1), msg("b", "assistant", 2)];
    assert_eq!(transcript_text(&w), "user: content of a\nassistant: content of b");
    assert_eq!(transcript_text(&vec![]), "");
}

#[test]
fn memory_tool_user_message_layout() {
    let w = vec![msg("a", "user", 1)];
    let none = memory_tool_user_message("the summary", &w, &vec![]);
    assert_eq!(
        none,
        "Conversation transcript summary:\nthe summary\n\nRecent transcript lines:\nuser: content of a\n\nCurrent memories (with IDs):\nnone"
    );
    let ms = vec![mem("m1", "likes tea", 0, None, None), mem("m2", "owns a cat", 0, None, None)];
    let some = memory_tool_user_message("s", &vec![], &ms);
    assert_eq!(
        some,
        "Conversation transcript summary:\ns\n\nRecent transcript lines:\n\n\nCurrent memories (with IDs):\n[m1] likes tea\n[m2] owns a cat"
    );
}

#[test]
fn summary_prompt_inserts_previous_summary() {
    let base = Some("Before: {{prev_summary}} | end");
    assert_eq!(render_summary_prompt(base, Some("they met")), "Before: they met | end");
    assert_eq!(
        render_summary_prompt(base, Some("   ")),
        "Before: No previous summary provided. | end"
    );
    assert_eq!(render_summary_prompt(base, None), "Before: No previous summary provided. | end");
    assert!(render_summary_prompt(None, Some("x")).starts_with("Summarize the recent conversation"));
}

#[test]
fn turn_effect_summary_counts_and_caps() {
    assert_eq!(summarize_turn_effect(None, None, 0, 0, 0), None);
    assert_eq!(
        summarize_turn_effect(None, None, 1, 2, 0),
        Some("1 signal, 2 memorys added".to_string())
    );
    assert_eq!(
        summarize_turn_effect(Some("trust +5%".to_string()), Some("joy -3%".to_string()), 2, 1, 4),
        Some("trust +5%, joy -3%, 2 signals".to_string())
    );
    assert_eq!(
        summarize_turn_effect(None, Some("calm +1%".to_string()), 0, 0, 1),
        Some("calm +1%, 1 memory superseded".to_string())
    );
}

#[test]
fn lexical_anchor_counts_and_after_questions() {
    let r = lexical_anchor("What did we do after the Coffee break?", "We had coffee, then a long break.");
    assert_eq!(r.query_tokens, 6);
    assert_eq!(r.overlapping, 3);
    assert!(matches!(r.anchor, SequenceAnchor::AnchoredInSequence));
    let plain = lexical_anchor("after coffee", "Coffee was good");
    assert!(matches!(plain.anchor, SequenceAnchor::Anchored));
    let missing = lexical_anchor("after dinner", "coffee then cake");
    assert!(matches!(missing.anchor, SequenceAnchor::Absent));
    let no_after = lexical_anchor("coffee then", "coffee then");
    assert!(matches!(no_after.anchor, SequenceAnchor::Absent));
    let only_to_next = lexical_anchor("after tea after dinner", "tea");
    assert!(matches!(only_to_next.anchor, SequenceAnchor::Anchored));
    assert_eq!(lexical_anchor("a b", "x").query_tokens, 0);
}

fn call(name: &str, summary: Option<&str>) -> (String, Option<String>) {
    (name.to_string(), summary.map(|s| s.to_string()))
}

#[test]
fn summary_answers_are_read_from_calls_then_text() {
    let calls = vec![call("other", Some("ignored")), call("write_summary", Some("  Alice met   Bob.  "))];
    assert_eq!(summary_from_answer(&calls, Some("text"), false, "openai", "gpt"), Ok("Alice met Bob.".to_string()));
    let calls = vec![call("write_summary", Some(""))];
    assert_eq!(
        summary_from_answer(&calls, Some("Plain summary."), false, "openai", "gpt"),
        Ok("Plain summary.".to_string())
    );
    assert_eq!(
        summary_from_answer(&vec![], None, true, "openai", "gpt"),
        Err("model returned no tool call and no valid text (response uses legacy function_call format). Provider=openai, model=gpt".to_string())
    );
    assert_eq!(
        summary_from_answer(&vec![], Some(""), false, "p", "m"),
        Err("model returned no tool call and no valid text. Provider=p, model=m".to_string())
    );
    assert_eq!(
        summary_from_answer(&vec![call("a", None), call("b", None)], Some(""), false, "p", "m"),
        Err("expected write_summary tool call or valid text, got a, b. Provider=p, model=m".to_string())
    );
}
