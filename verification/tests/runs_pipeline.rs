use lettuce_ai::abort_manager::AbortRegistry;
use lettuce_ai::dynamic_memory_run_manager::DynamicMemoryRunManager;
use lettuce_ai::lorebook_pipeline::{
    apply_coherence_changes, clamp_target_count, default_target_count_from_settings,
    format_drafted_entries, format_excerpts, format_outline_for_context,
    relevant_excerpts_for_plan, require_api_key, resolve_max_tokens, resolve_pipeline_model_id,
    template_id_for_coherence, template_id_for_planner, template_id_for_refine, template_id_for_writer,
    truncate_for_error, CoherenceChange, EntryDraft, EntryPlan, LorebookGeneratorSettings,
    PromptOverrides, SourceExcerpt, WorldDigest,
};

fn settings() -> LorebookGeneratorSettings {
    LorebookGeneratorSettings {
        default_model_id: None,
        lorebook_generator_model_id: None,
        lorebook_generator_max_tokens: None,
        lorebook_generator_default_target_count: None,
        lorebook_generator_planner_prompt_template_id: None,
        lorebook_generator_writer_prompt_template_id: None,
        lorebook_generator_refine_prompt_template_id: None,
        lorebook_generator_coherence_prompt_template_id: None,
    }
}

fn overrides() -> PromptOverrides {
    PromptOverrides {
        model_id: None,
        planner_prompt_template_id: None,
        writer_prompt_template_id: None,
        refine_prompt_template_id: None,
        coherence_prompt_template_id: None,
    }
}

fn draft(title: &str, keys: &[&str], content: &str) -> EntryDraft {
    EntryDraft {
        plan_idx: 0,
        title: title.to_string(),
        keywords: keys.iter().map(|k| k.to_string()).collect(),
        content: content.to_string(),
        always_active: false,
    }
}

fn excerpt(id: &str, label: &str, content: &str) -> SourceExcerpt {
    SourceExcerpt { id: id.to_string(), label: label.to_string(), content: content.to_string() }
}

fn plan(idx: usize, refs: &[&str], keys: &[&str]) -> EntryPlan {
    EntryPlan {
        idx,
        title: "Mill".to_string(),
        category: "place".to_string(),
        proposed_keys: keys.iter().map(|k| k.to_string()).collect(),
        rationale: String::new(),
        source_refs: refs.iter().map(|k| k.to_string()).collect(),
    }
}

#[test]
fn abort_registry_aborts_once() {
    let mut registry = AbortRegistry::new();
    let mut rx = registry.register("r1".to_string());
    assert!(registry.is_registered("r1"));
    assert_eq!(registry.abort("r1"), Ok(()));
    assert!(rx.try_recv().is_ok());
    assert!(!registry.is_registered("r1"));
    assert_eq!(registry.abort("r1"), Err("Request r1 not found or already completed".to_string()));
}

#[test]
fn abort_registry_unregister_and_abort_all() {
    let mut registry = AbortRegistry::new();
    let _a = registry.register("a".to_string());
    let mut b = registry.register("b".to_string());
    registry.unregister("a");
    assert!(!registry.is_registered("a"));
    registry.abort_all();
    assert!(!registry.is_registered("b"));
    assert!(b.try_recv().is_ok());
}

#[test]
fn dynamic_runs_cancel_and_finish() {
    let mut manager = DynamicMemoryRunManager::new();
    let mut registry = AbortRegistry::new();
    let mut signal = registry.register("req-1".to_string());
    let guard = manager.start_run("chat:s1".to_string());
    let token = guard.token();
    assert!(!token.is_cancelled(&manager));
    guard.set_active_request_id(&mut manager, Some("req-1".to_string()));
    assert_eq!(manager.cancel_run(&mut registry, "chat:s1"), Ok(()));
    assert!(token.is_cancelled(&manager));
    assert!(!registry.is_registered("req-1"));
    assert!(signal.try_recv().is_ok());
    guard.finish(&mut manager);
    assert_eq!(
        manager.cancel_run(&mut registry, "chat:s1"),
        Err("Dynamic memory run for chat:s1 is not active".to_string())
    );
}

#[test]
fn a_new_run_replaces_the_old_one() {
    let mut manager = DynamicMemoryRunManager::new();
    let mut registry = AbortRegistry::new();
    let first = manager.start_run("k".to_string());
    let second = manager.start_run("k".to_string());
    assert_eq!(manager.cancel_run(&mut registry, "k"), Ok(()));
    assert!(second.token().is_cancelled(&manager));
    assert!(!first.token().is_cancelled(&manager));
}

#[test]
fn generator_settings_are_clamped() {
    let mut s = settings();
    assert_eq!(resolve_max_tokens(&s), 4096);
    s.lorebook_generator_max_tokens = Some(10);
    assert_eq!(resolve_max_tokens(&s), 256);
    s.lorebook_generator_max_tokens = Some(100_000);
    assert_eq!(resolve_max_tokens(&s), 32768);
    assert_eq!(clamp_target_count(1), 5);
    assert_eq!(clamp_target_count(20), 20);
    assert_eq!(clamp_target_count(99), 50);
    assert_eq!(default_target_count_from_settings(&s), 12);
    s.lorebook_generator_default_target_count = Some(70);
    assert_eq!(default_target_count_from_settings(&s), 50);
}

#[test]
fn planner_template_prefers_overrides() {
    let mut s = settings();
    let mut o = overrides();
    assert_eq!(template_id_for_planner(&s, &o), "prompt_app_lorebook_generator_planner");
    s.lorebook_generator_planner_prompt_template_id = Some("from-settings".to_string());
    assert_eq!(template_id_for_planner(&s, &o), "from-settings");
    o.planner_prompt_template_id = Some("from-job".to_string());
    assert_eq!(template_id_for_planner(&s, &o), "from-job");
    o.planner_prompt_template_id = Some("  ".to_string());
    assert_eq!(template_id_for_planner(&s, &o), "prompt_app_lorebook_generator_planner");
}

#[test]
fn api_keys() {
    assert_eq!(require_api_key("ollama", &None), Ok(String::new()));
    assert_eq!(require_api_key("openai", &Some("k".to_string())), Ok("k".to_string()));
    assert_eq!(require_api_key("openai", &Some(String::new())), Err("Provider credential is missing an API key".to_string()));
}

#[test]
fn error_text_is_trimmed_and_capped() {
    assert_eq!(truncate_for_error("  short  "), "short");
    let long = "x".repeat(401);
    let out = truncate_for_error(&long);
    assert_eq!(out.chars().count(), 401);
    assert!(out.ends_with('…'));
}

#[test]
fn excerpts_and_outline() {
    let digest = WorldDigest { excerpts: vec![excerpt("e1", "Town", "A mill."), excerpt("e2", "River", "Wide.")] };
    assert_eq!(format_excerpts(&WorldDigest { excerpts: vec![] }), "(none)");
    assert_eq!(format_excerpts(&digest), "[e1] Town\nA mill.\n\n---\n\n[e2] River\nWide.");
    assert_eq!(relevant_excerpts_for_plan(&plan(0, &["e2"], &[]), &digest), "[e2] River\nWide.");
    assert_eq!(relevant_excerpts_for_plan(&plan(0, &["zz"], &[]), &digest), format_excerpts(&digest));
    assert_eq!(format_outline_for_context(&vec![]), "(empty)");
    assert_eq!(
        format_outline_for_context(&vec![plan(0, &[], &["mill", "wheel"]), plan(1, &[], &[])]),
        "1. Mill [place] keys: mill, wheel\n2. Mill [place] keys: (none)"
    );
}

#[test]
fn drafted_entries_text() {
    assert_eq!(format_drafted_entries(&vec![]), "(none)");
    assert_eq!(
        format_drafted_entries(&vec![draft("Mill", &["mill"], "Old.")]),
        "Entry 1 (idx 0): \"Mill\"\nKeys: mill\nAlwaysActive: false\nContent: Old."
    );
}

#[test]
fn coherence_changes_apply_in_order() {
    let mut drafts = vec![draft("Old Mill", &["Mill", "wheel"], "The Old Mill."), draft("River", &["water"], "Near the Old Mill.")];
    let changes = vec![
        CoherenceChange::MergeKeys { id: "change_0".to_string(), entry_idx: 0, remove_keys: vec!["MILL".to_string()], reason: String::new() },
        CoherenceChange::RenameTerm { id: "change_1".to_string(), old_term: "Old Mill".to_string(), new_term: "Mill House".to_string(), affected_entry_idxs: vec![], reason: String::new() },
        CoherenceChange::ToggleAlwaysActive { id: "change_2".to_string(), entry_idx: 1, new_value: true, reason: String::new() },
        CoherenceChange::ToggleAlwaysActive { id: "change_3".to_string(), entry_idx: 9, new_value: true, reason: String::new() },
        CoherenceChange::FlagContradiction { id: "change_4".to_string(), entry_idxs: vec![0, 1], description: String::new() },
    ];
    apply_coherence_changes(&mut drafts, &changes);
    assert_eq!(drafts[0].keywords, vec!["wheel".to_string()]);
    assert_eq!(drafts[0].title, "Mill House");
    assert_eq!(drafts[1].content, "Near the Mill House.");
    assert!(drafts[1].always_active);
    assert!(!drafts[0].always_active);
    assert_eq!(drafts.len(), 2);
}

use lettuce_ai::lorebook_pipeline::{entries_to_messages, render_entries};
use lettuce_ai::prompt_types::{
    PromptEntryImageSlot, PromptEntryPayload, PromptEntryPosition, PromptEntryRole,
    SystemPromptEntry,
};

fn step_entry(id: &str, role: PromptEntryRole, content: &str) -> SystemPromptEntry {
    SystemPromptEntry {
        id: id.to_string(),
        name: id.to_string(),
        role,
        content: content.to_string(),
        enabled: true,
        injection_position: PromptEntryPosition::Relative,
        injection_depth: 0,
        conditional_min_messages: None,
        interval_turns: None,
        system_prompt: false,
        conditions: None,
        prompt_entry_payload: None,
    }
}

#[test]
fn step_entries_render_and_become_messages() {
    let mut image = step_entry("img", PromptEntryRole::User, "{{gone}}");
    image.prompt_entry_payload = Some(PromptEntryPayload::ImageSlot { slot: PromptEntryImageSlot::Character });
    let entries = vec![
        step_entry("a", PromptEntryRole::System, "World: {{world}} / {{world}}"),
        step_entry("b", PromptEntryRole::User, "inactive {{world}}"),
        step_entry("c", PromptEntryRole::Assistant, "{{gone}}"),
        image,
    ];
    let active = vec![true, false, true, true];
    let reps = vec![
        ("{{world}}".to_string(), "Ardent".to_string()),
        ("{{gone}}".to_string(), "  ".to_string()),
    ];
    let out = render_entries(&entries, &active, &reps);
    assert_eq!(out.len(), 2);
    assert_eq!(out[0].content, "World: Ardent / Ardent");
    assert_eq!(out[1].id, "img");
    assert_eq!(out[1].content, "  ");

    let msgs = entries_to_messages("developer", &out, "Go.");
    assert_eq!(
        msgs,
        vec![
            ("developer".to_string(), "World: Ardent / Ardent".to_string()),
            ("user".to_string(), "Go.".to_string()),
        ]
    );
}

#[test]
fn stage_templates_and_model_choice() {
    let mut s = settings();
    let mut o = overrides();
    assert_eq!(template_id_for_writer(&s, &o), "prompt_app_lorebook_generator_writer");
    assert_eq!(template_id_for_refine(&s, &o), "prompt_app_lorebook_generator_refine");
    assert_eq!(template_id_for_coherence(&s, &o), "prompt_app_lorebook_generator_coherence");
    o.coherence_prompt_template_id = Some("c".to_string());
    assert_eq!(template_id_for_coherence(&s, &o), "c");
    assert_eq!(
        resolve_pipeline_model_id(&s, &o),
        Err("No model is configured for the lorebook generator. Set one in Advanced → Lorebook Generator.".to_string())
    );
    s.default_model_id = Some("default".to_string());
    assert_eq!(resolve_pipeline_model_id(&s, &o), Ok("default".to_string()));
    s.lorebook_generator_model_id = Some(" ".to_string());
    assert_eq!(resolve_pipeline_model_id(&s, &o), Ok("default".to_string()));
    s.lorebook_generator_model_id = Some("gen".to_string());
    assert_eq!(resolve_pipeline_model_id(&s, &o), Ok("gen".to_string()));
    o.model_id = Some("job".to_string());
    assert_eq!(resolve_pipeline_model_id(&s, &o), Ok("job".to_string()));
}
