use lettuce_ai::companion::{
    companion_time_awareness_enabled, is_companion_mode, push_signal, push_soul_line,
    render_prompt_state, CompanionPreferences, PromptStateInput, ReassuranceNote, RegulationNote,
    SoulText,
};
use lettuce_ai::creation::{
    start_goal_and_mode, uploaded_image_triples, CreationGoal, CreationMode, DraftCharacter,
    UploadedImageArg,
};
use lettuce_ai::fields::FieldValue;
use lettuce_ai::logging::{log_file_name, log_line, LogEntry};

fn soul(essence: &str) -> SoulText {
    SoulText {
        essence: essence.to_string(),
        voice: String::new(),
        relational_style: "  ".to_string(),
        vulnerabilities: String::new(),
        habits: String::new(),
        boundaries: " no lying ".to_string(),
    }
}

fn input(session_mode: &str) -> PromptStateInput {
    PromptStateInput {
        session_mode: session_mode.to_string(),
        character_mode: "roleplay".to_string(),
        character_name: "Mira".to_string(),
        persona_title: Some("  ".to_string()),
        closeness: "40".to_string(),
        trust: "55".to_string(),
        affection: "30".to_string(),
        tension: "5".to_string(),
        expressed: String::new(),
        blocked: "longing".to_string(),
        soul: soul("curious and warm"),
        style_notes: String::new(),
        active_signals: vec!["gratitude".to_string(), "humor".to_string()],
        regulation: RegulationNote::HidesHurt,
        reassurance: ReassuranceNote::Neither,
    }
}

#[test]
fn companion_mode_ignores_case() {
    assert!(is_companion_mode("Companion", "roleplay"));
    assert!(is_companion_mode("chat", "COMPANION"));
    assert!(!is_companion_mode("chat", "roleplay"));
}

#[test]
fn time_awareness_reads_either_spelling() {
    assert!(companion_time_awareness_enabled(&FieldValue::Flag(true), &FieldValue::Missing));
    assert!(companion_time_awareness_enabled(&FieldValue::Missing, &FieldValue::Flag(true)));
    assert!(!companion_time_awareness_enabled(&FieldValue::Flag(false), &FieldValue::Flag(true)));
    assert!(!companion_time_awareness_enabled(&FieldValue::Other, &FieldValue::Flag(true)));
    assert!(!companion_time_awareness_enabled(&FieldValue::Missing, &FieldValue::Missing));
    assert!(!CompanionPreferences::new().time_awareness_enabled);
}

#[test]
fn signals_are_not_repeated() {
    let mut signals = vec!["joy".to_string()];
    push_signal(&mut signals, "joy");
    push_signal(&mut signals, "hurt");
    push_signal(&mut signals, "hurt");
    assert_eq!(signals, vec!["joy".to_string(), "hurt".to_string()]);
}

#[test]
fn soul_lines_skip_blank_values() {
    let mut lines = Vec::new();
    push_soul_line(&mut lines, "Habits", "   ");
    push_soul_line(&mut lines, "Boundaries", "  no lying ");
    assert_eq!(lines, vec!["Boundaries: no lying.".to_string()]);
}

#[test]
fn no_state_outside_companion_mode() {
    assert!(render_prompt_state(&input("chat")).is_none());
}

#[test]
fn state_prompt_text() {
    let text = render_prompt_state(&input("companion")).unwrap();
    let lines: Vec<&str> = text.lines().collect();
    assert_eq!(
        lines,
        vec![
            "The following relationship and emotional state describes Mira's live relationship with the current conversation partner, the person currently speaking in this chat.",
            "Do not apply these metrics to third-party people mentioned in character definitions, persona descriptions, lore, or memories unless that relationship is explicitly stated.",
            "Current Mira <-> the current conversation partner relationship trend: closeness 40%, trust 55%, affection 30%, tension 5%.",
            "Expressed tone right now: steady and low-intensity.",
            "Soul essence: curious and warm.",
            "Boundaries: no lying.",
            "More strongly felt than shown: longing.",
            "Recent drivers in Mira's interaction with the current conversation partner: gratitude, humor.",
            "Regulation: tends to hide direct hurt and avoids blunt emotional disclosure.",
        ]
    );
}

#[test]
fn state_prompt_names_the_persona() {
    let mut i = input("companion");
    i.persona_title = Some(" Sam ".to_string());
    i.reassurance = ReassuranceNote::AvoidsAsking;
    let text = render_prompt_state(&i).unwrap();
    assert!(text.starts_with("The following relationship and emotional state describes Mira's live relationship with Sam,"));
    assert!(text.ends_with("When unsettled, may avoid asking directly for reassurance."));
}

#[test]
fn creation_defaults() {
    let (g, m) = start_goal_and_mode(None, None);
    assert_eq!(g, CreationGoal::Character);
    assert_eq!(m, CreationMode::Create);
    let (g, m) = start_goal_and_mode(Some(CreationGoal::Lorebook), Some(CreationMode::Edit));
    assert_eq!(g, CreationGoal::Lorebook);
    assert_eq!(m, CreationMode::Edit);
    assert_eq!(CreationMode::default(), CreationMode::Create);
    let d = DraftCharacter::new();
    assert!(d.name.is_none() && d.scenes.is_empty() && !d.disable_avatar_gradient);
}

#[test]
fn uploaded_images_keep_their_order() {
    let args = vec![
        UploadedImageArg { id: "a".into(), data: "AA".into(), mime_type: "image/png".into() },
        UploadedImageArg { id: "b".into(), data: "BB".into(), mime_type: "image/jpeg".into() },
    ];
    let triples = uploaded_image_triples(Some(args)).unwrap();
    assert_eq!(
        triples,
        vec![
            ("a".to_string(), "AA".to_string(), "image/png".to_string()),
            ("b".to_string(), "BB".to_string(), "image/jpeg".to_string()),
        ]
    );
    assert!(uploaded_image_triples(None).is_none());
}

#[test]
fn log_lines() {
    let entry = LogEntry {
        timestamp: "2026-05-10T12:00:00Z".into(),
        level: "INFO".into(),
        component: "sync".into(),
        function: Some("pull".into()),
        message: "done".into(),
    };
    assert_eq!(log_line(&entry), "[2026-05-10T12:00:00Z] INFO sync at=pull | done\n");
    let entry = LogEntry { function: None, ..entry };
    assert_eq!(log_line(&entry), "[2026-05-10T12:00:00Z] INFO sync | done\n");
    assert_eq!(log_file_name("2026-05-10"), "app-2026-05-10.log");
}
