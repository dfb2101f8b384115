use lettuce_ai::lorebook_entry::{
    check_entry_draft_context, check_entry_draft_request, check_keyword_draft_content,
    lorebook_entry_source, memory_summary_text, trimmed_or_default, LorebookEntrySource,
};
use lettuce_ai::memory::{
    cap_memory_tool_events, cycle_window, dynamic_memory_active, memory_cycle_status,
    memory_request_decision, MemoryEmbedding, SendDecision, SendRetry,
};
use lettuce_ai::memory_tools::{
    next_tool_request_step, FallbackReason, ToolRequestAction, ToolRequestEvent, ToolRequestStage,
};
use lettuce_ai::json::{JsonValue, ToolCall};
use lettuce_ai::temporal::{temporal_candidate_indices, TemporalRange};

#[test]
fn entry_draft_request_checks_in_order() {
    assert_eq!(
        check_entry_draft_request(" ", "s", LorebookEntrySource::Messages, 1),
        Err("lorebookId cannot be empty".to_string())
    );
    assert_eq!(
        check_entry_draft_request("l", "", LorebookEntrySource::Messages, 1),
        Err("sessionId cannot be empty".to_string())
    );
    assert_eq!(
        check_entry_draft_request("l", "s", LorebookEntrySource::Messages, 0),
        Err("At least one message must be selected".to_string())
    );
    assert_eq!(check_entry_draft_request("l", "s", LorebookEntrySource::Memory, 0), Ok(()));
}

#[test]
fn entry_sources_and_texts() {
    assert_eq!(lorebook_entry_source(None), LorebookEntrySource::Messages);
    assert_eq!(lorebook_entry_source(Some(" memories ")), LorebookEntrySource::Memory);
    assert_eq!(lorebook_entry_source(Some("both")), LorebookEntrySource::Mixed);
    assert_eq!(lorebook_entry_source(Some("other")), LorebookEntrySource::Messages);
    assert_eq!(memory_summary_text(LorebookEntrySource::Memory, None, Some("  sum ")), "sum");
    assert_eq!(memory_summary_text(LorebookEntrySource::Memory, Some(false), Some("sum")), "(none)");
    assert_eq!(memory_summary_text(LorebookEntrySource::Messages, None, Some("sum")), "(none)");
    assert_eq!(memory_summary_text(LorebookEntrySource::Mixed, None, Some("  ")), "(none)");
    assert_eq!(trimmed_or_default(Some("  t "), "(untitled)"), "t");
    assert_eq!(trimmed_or_default(None, "(untitled)"), "(untitled)");
}

#[test]
fn entry_draft_context_checks() {
    assert_eq!(
        check_entry_draft_context(LorebookEntrySource::Messages, 2, 0, "(none)", "(none)"),
        Err("No selected messages were found for this session".to_string())
    );
    assert_eq!(
        check_entry_draft_context(LorebookEntrySource::Memory, 0, 0, "(none)", "(none)"),
        Err("Select at least one memory or ensure a context summary is available".to_string())
    );
    assert_eq!(
        check_entry_draft_context(LorebookEntrySource::Mixed, 1, 0, "(none)", "(none)"),
        Err("Select at least one message or memory, or include the context summary".to_string())
    );
    assert_eq!(check_entry_draft_context(LorebookEntrySource::Mixed, 1, 1, "(none)", "(none)"), Ok(()));
    assert_eq!(check_entry_draft_context(LorebookEntrySource::Memory, 0, 0, "- m", "(none)"), Ok(()));
    assert_eq!(check_keyword_draft_content("  "), Err("content cannot be empty".to_string()));
    assert_eq!(check_keyword_draft_content(" body "), Ok("body".to_string()));
}

#[test]
fn cycle_windows() {
    assert!(dynamic_memory_active(true, true, "Dynamic"));
    assert!(!dynamic_memory_active(true, true, "manual"));
    assert!(!dynamic_memory_active(false, true, "dynamic"));
    assert_eq!(cycle_window(10, 25, 20, false, false), None);
    assert_eq!(cycle_window(10, 20, 20, false, false), None);
    assert_eq!(cycle_window(10, 35, 20, false, false), Some((20, 35)));
    assert_eq!(cycle_window(10, 25, 20, false, true), Some((15, 25)));
    assert_eq!(cycle_window(10, 5, 20, true, false), Some((0, 5)));
    assert_eq!(cycle_window(0, 3, 2, false, false), Some((2, 3)));
}

#[test]
fn events_and_status() {
    let mut v: Vec<u32> = (0..60).collect();
    cap_memory_tool_events(&mut v);
    assert_eq!(v.len(), 50);
    assert_eq!(v[0], 10);
    let mut w: Vec<u32> = (0..5).collect();
    cap_memory_tool_events(&mut w);
    assert_eq!(w, vec![0, 1, 2, 3, 4]);
    assert_eq!(memory_cycle_status(None), ("idle".to_string(), None));
    assert_eq!(
        memory_cycle_status(Some("boom")),
        ("failed".to_string(), Some("memory_tools: boom".to_string()))
    );
}

#[test]
fn memory_request_retries() {
    let r = memory_request_decision(true, "llamacpp", false, Some("parallel_tool_calls unsupported"), false, "", false);
    assert!(matches!(r, SendDecision::Retry(SendRetry::ParallelDisabled)));
    let r = memory_request_decision(true, "openai", false, Some("net down"), false, "", false);
    assert!(matches!(r, SendDecision::Fail(ref m) if m == "net down"));
    let r = memory_request_decision(true, "openai", false, None, false, "tool_choice must be auto", false);
    assert!(matches!(r, SendDecision::Retry(SendRetry::AutoToolChoice)));
    let r = memory_request_decision(true, "openai", true, None, false, "tool_choice must be auto", false);
    assert!(matches!(r, SendDecision::UseAnswer));
    let r = memory_request_decision(true, "openai", false, None, true, "", true);
    assert!(matches!(r, SendDecision::Fail(ref m) if m == "Request was cancelled by user"));
}

#[test]
fn tool_request_steps() {
    let answer = |ok: bool, calls: bool, text: Option<&str>| ToolRequestEvent::Answer {
        ok,
        calls: if calls {
            vec![ToolCall { name: "create_memory".to_string(), arguments: JsonValue::Null }]
        } else {
            vec![]
        },
        failure: "Provider returned status 500".to_string(),
        text: text.map(|t| t.to_string()),
    };
    let (s, a) = next_tool_request_step(ToolRequestStage::Tools, answer(true, true, None), false);
    assert_eq!(s, ToolRequestStage::Tools);
    assert!(matches!(a, ToolRequestAction::UseToolCalls(ref cs) if cs.len() == 1 && cs[0].name == "create_memory"));
    let (s, a) = next_tool_request_step(ToolRequestStage::Tools, answer(true, false, None), false);
    assert_eq!(s, ToolRequestStage::Fallback(FallbackReason::EmptyToolCalls));
    assert!(matches!(a, ToolRequestAction::RetryAsText));
    let (s, a) = next_tool_request_step(s, answer(true, false, Some("ops")), false);
    assert_eq!(s, ToolRequestStage::Fallback(FallbackReason::EmptyToolCalls));
    assert!(matches!(a, ToolRequestAction::ParseText { ref text, source } if text == "ops" && source == "text_fallback_after_empty_tool_calls"));
    let (_, a) = next_tool_request_step(ToolRequestStage::Fallback(FallbackReason::HttpError), answer(false, false, None), false);
    assert!(matches!(a, ToolRequestAction::Fail(ref m) if m == "Provider returned status 500"));
    let (_, a) = next_tool_request_step(ToolRequestStage::Tools, ToolRequestEvent::SendFailed("x".to_string()), true);
    assert!(matches!(a, ToolRequestAction::Fail(ref m) if m == "Request was cancelled by user"));
}

#[test]
fn temporal_candidates_are_observed_in_range() {
    let mem = |t: Option<u64>| MemoryEmbedding {
        id: "m".to_string(),
        text: "t".to_string(),
        observed_at: t,
        embedding_len: 0,
        embedding_dimensions: None,
        embedding_source_version: None,
        is_pinned: false,
        is_cold: false,
    };
    let ms = vec![mem(Some(5)), mem(None), mem(Some(10)), mem(Some(20))];
    let range = TemporalRange { start_ms: 5, end_ms: 20 };
    assert_eq!(temporal_candidate_indices(&ms, &range), vec![0, 2]);
}
