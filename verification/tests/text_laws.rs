use lettuce_ai::lorebook_entry::condense_prompt_entries;
use lettuce_ai::prompt_types::{PromptEntryPosition, PromptEntryRole, SystemPromptEntry};
use lettuce_ai::request::{push_assistant_variant, MessageVariant, StoredMessage};
use lettuce_ai::text::{
    collapse_whitespace, contains, ends_with, eq_ignore_ascii_case, is_blank, join, lines,
    replace, split_once_char, starts_with, strip_prefix, strip_suffix, take_chars,
    to_ascii_lowercase, trim, trim_end_matches, u64_to_string,
};

#[test]
fn trimming_and_blankness() {
    assert_eq!(trim("\u{3000} a b \n"), "a b");
    assert_eq!(trim(&trim("  x  ")), trim("  x  "));
    assert!(is_blank(" \t\n"));
    assert!(!is_blank(" . "));
}

#[test]
fn searching() {
    assert!(contains("hello world", "o w"));
    assert!(contains("abc", ""));
    assert!(!contains("abc", "abcd"));
    assert!(starts_with("prompt_app", "prompt"));
    assert!(ends_with("https://x/v1", "/v1"));
    assert!(!ends_with("v1", "/v1"));
}

#[test]
fn case_and_replacement() {
    assert_eq!(to_ascii_lowercase("ÄbC"), "Äbc");
    assert!(eq_ignore_ascii_case("Companion", "cOMPANION"));
    assert_eq!(replace("a-b-c", "-", "+"), "a+b+c");
    assert_eq!(replace("aaa", "aa", "b"), "ba");
    assert_eq!(replace("ab", "", "-"), "-a-b-");
}

#[test]
fn trimming_patterns_and_splitting() {
    assert_eq!(trim_end_matches("x///", "/"), "x");
    assert_eq!(trim_end_matches("a/v1/v1", "/v1"), "a");
    assert_eq!(split_once_char("k=v=w", '='), Some(("k".to_string(), "v=w".to_string())));
    assert_eq!(split_once_char("kv", '='), None);
    assert_eq!(strip_prefix("data:x", "data:"), Some("x".to_string()));
    assert_eq!(strip_prefix("x", "data:"), None);
    assert_eq!(strip_suffix("a;base64", ";base64"), Some("a".to_string()));
}

#[test]
fn joining_lines_and_numbers() {
    assert_eq!(join(&vec!["a".to_string(), "b".to_string()], ", "), "a, b");
    assert_eq!(join(&vec![], ", "), "");
    assert_eq!(lines("a\r\nb\n\nc"), vec!["a".to_string(), "b".to_string(), "".to_string(), "c".to_string()]);
    assert_eq!(lines("a\n"), vec!["a".to_string()]);
    assert_eq!(collapse_whitespace("  a \n\t b  "), "a b");
    assert_eq!(take_chars("héllo", 2), "hé");
    assert_eq!(u64_to_string(0), "0");
    assert_eq!(u64_to_string(18446744073709551615), "18446744073709551615");
}

#[test]
fn variants_stay_bounded_and_the_newest_is_selected() {
    let mut m = StoredMessage {
        id: "m".into(),
        role: "assistant".into(),
        content: "c".into(),
        created_at: 0,
        selected_variant_id: None,
        variants: vec![],
    };
    for i in 0..12 {
        push_assistant_variant(
            &mut m,
            MessageVariant { id: format!("v{}", i), content: format!("{}", i), created_at: i, reasoning: None },
        );
        assert!(m.variants.len() <= 8);
        assert_eq!(m.selected_variant_id, Some(format!("v{}", i)));
    }
    assert_eq!(m.variants.len(), 8);
    assert_eq!(m.variants[0].id, "v4");
}

#[test]
fn condensed_entries_are_never_blank() {
    let mk = |id: &str, role, content: &str| SystemPromptEntry {
        id: id.into(),
        name: id.into(),
        role,
        content: content.into(),
        enabled: true,
        injection_position: PromptEntryPosition::Relative,
        injection_depth: 0,
        conditional_min_messages: None,
        interval_turns: None,
        system_prompt: false,
        conditions: None,
        prompt_entry_payload: None,
    };
    let out = condense_prompt_entries(vec![
        mk("a", PromptEntryRole::User, " "),
        mk("b", PromptEntryRole::User, "x"),
        mk("c", PromptEntryRole::System, "\n"),
        mk("d", PromptEntryRole::User, " y "),
    ]);
    assert!(out.iter().all(|e| !e.content.trim().is_empty()));
    assert_eq!(out.len(), 1);
    assert_eq!(out[0].content, "x\n\ny");
}
