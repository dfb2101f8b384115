use lettuce_ai::json::{JsonNumber, JsonValue, ToolCall};
use lettuce_ai::lorebook_entry::{fallback_entry_result, fallback_json_text, fallback_keyword_result};
use lettuce_ai::lorebook_pipeline::{
    parse_coherence_result, parse_planner_result, parse_writer_result, CoherenceChange,
};

fn s(t: &str) -> JsonValue {
    JsonValue::String(t.to_string())
}

fn n(v: u64) -> JsonValue {
    JsonValue::Number(JsonNumber::PosInt(v))
}

fn obj(pairs: Vec<(&str, JsonValue)>) -> JsonValue {
    JsonValue::Object(pairs.into_iter().map(|(k, v)| (k.to_string(), v)).collect())
}

fn arr(items: Vec<JsonValue>) -> JsonValue {
    JsonValue::Array(items)
}

fn call(name: &str, arguments: JsonValue) -> ToolCall {
    ToolCall { name: name.to_string(), arguments }
}

#[test]
fn fallback_text_is_unfenced_and_cut() {
    assert_eq!(fallback_json_text("```json\nHere: {\"a\": 1} done\n```"), "{\"a\": 1}");
    assert_eq!(fallback_json_text("  no braces  "), "no braces");
}

#[test]
fn fallback_entry_results() {
    let v = obj(vec![(
        "result",
        obj(vec![
            ("name", s(" write_lorebook_entry ")),
            (
                "arguments",
                obj(vec![
                    ("title", s("Mill")),
                    ("content", s(" Old mill. ")),
                    ("keywords", arr(vec![s("mill"), n(3), s("MILL")])),
                    ("alwaysActive", JsonValue::Bool(true)),
                ]),
            ),
        ]),
    )]);
    let r = fallback_entry_result(&v).unwrap();
    assert_eq!(r.kind, "entry");
    let d = r.draft.unwrap();
    assert_eq!(d.title, "Mill");
    assert_eq!(d.content, "Old mill.");
    assert_eq!(d.keywords, vec!["mill".to_string()]);
    assert!(d.always_active);

    let v = obj(vec![("response", obj(vec![("tool", s("no_entry"))]))]);
    let r = fallback_entry_result(&v).unwrap();
    assert_eq!(r.kind, "none");
    assert_eq!(r.reason.as_deref(), Some("The selected messages do not establish durable lore."));

    let v = obj(vec![("action", s("shrug"))]);
    assert_eq!(fallback_entry_result(&v).err().unwrap(), "fallback JSON returned unsupported result 'shrug'");
    assert_eq!(fallback_entry_result(&arr(vec![])).err().unwrap(), "fallback JSON result must be an object");
    assert_eq!(fallback_entry_result(&obj(vec![("name", s("  "))])).err().unwrap(), "fallback JSON result is missing a name");
    let v = obj(vec![("name", s("write_lorebook_entry"))]);
    assert_eq!(fallback_entry_result(&v).err().unwrap(), "write_lorebook_entry is missing a non-empty title");
}

#[test]
fn fallback_keyword_results() {
    let v = obj(vec![("name", s("write_lorebook_keywords")), ("arguments", obj(vec![("keywords", arr(vec![s(" a "), s("b")]))]))]);
    assert_eq!(fallback_keyword_result(&v).unwrap().keywords, vec!["a".to_string(), "b".to_string()]);
    let v = obj(vec![("name", s("write_lorebook_entry"))]);
    assert_eq!(fallback_keyword_result(&v).err().unwrap(), "fallback JSON returned unsupported result 'write_lorebook_entry'");
}

#[test]
fn planner_outline() {
    let calls = vec![
        call("other", obj(vec![])),
        call(
            "propose_lorebook_outline",
            obj(vec![(
                "entries",
                arr(vec![
                    obj(vec![
                        ("title", s(" Mill ")),
                        ("proposed_keys", arr(vec![s(" mill "), s(""), n(1)])),
                        ("sourceRefs", arr(vec![s("e1"), s("")])),
                        ("rationale", s(" central ")),
                    ]),
                    obj(vec![("title", s("River")), ("category", s("place"))]),
                ]),
            )]),
        ),
    ];
    let plans = parse_planner_result(&calls).unwrap();
    assert_eq!(plans.len(), 2);
    assert_eq!(plans[0].idx, 0);
    assert_eq!(plans[0].title, "Mill");
    assert_eq!(plans[0].category, "other");
    assert_eq!(plans[0].proposed_keys, vec!["mill".to_string()]);
    assert_eq!(plans[0].source_refs, vec!["e1".to_string(), "".to_string()]);
    assert_eq!(plans[0].rationale, "central");
    assert_eq!(plans[1].idx, 1);
    assert_eq!(plans[1].category, "place");
}

#[test]
fn planner_errors() {
    assert_eq!(parse_planner_result(&vec![]).err().unwrap(), "Model did not call propose_lorebook_outline");
    let calls = vec![call("propose_lorebook_outline", obj(vec![("entries", s("x"))]))];
    assert_eq!(parse_planner_result(&calls).err().unwrap(), "propose_lorebook_outline missing 'entries' array");
    let calls = vec![call(
        "propose_lorebook_outline",
        obj(vec![("entries", arr(vec![obj(vec![("title", s("A"))]), n(2), obj(vec![])]))]),
    )];
    assert_eq!(parse_planner_result(&calls).err().unwrap(), "entry 1 is not an object");
    let calls = vec![call("propose_lorebook_outline", obj(vec![("entries", arr(vec![obj(vec![("title", s(" "))])]))]))];
    assert_eq!(parse_planner_result(&calls).err().unwrap(), "entry 0 missing title");
}

#[test]
fn writer_draft() {
    let calls = vec![call(
        "write_lorebook_entry",
        obj(vec![
            ("title", s("Mill")),
            ("content", s("Old.")),
            ("keywords", arr(vec![s(" a "), s("a")])),
            ("always_active", JsonValue::Bool(true)),
        ]),
    )];
    let d = parse_writer_result(4, &calls).unwrap();
    assert_eq!(d.plan_idx, 4);
    assert_eq!(d.keywords, vec!["a".to_string(), "a".to_string()]);
    assert!(d.always_active);
    let calls = vec![call("write_lorebook_entry", obj(vec![("title", s("Mill"))]))];
    assert_eq!(parse_writer_result(0, &calls).err().unwrap(), "write_lorebook_entry missing content");
    let calls = vec![call("write_lorebook_entry", s("x"))];
    assert_eq!(parse_writer_result(0, &calls).err().unwrap(), "write_lorebook_entry arguments must be an object");
}

#[test]
fn coherence_changes() {
    let calls = vec![call(
        "propose_coherence_changes",
        obj(vec![(
            "changes",
            arr(vec![
                obj(vec![("kind", s("mergeKeys")), ("entryIdx", n(2)), ("removeKeys", arr(vec![s("x")])), ("reason", s("dup"))]),
                obj(vec![("kind", s("mergeKeys")), ("removeKeys", arr(vec![]))]),
                obj(vec![("kind", s("renameTerm")), ("oldTerm", s("a")), ("newTerm", s("a"))]),
                obj(vec![("kind", s(" renameTerm ")), ("oldTerm", s("a")), ("newTerm", s("b")), ("affectedEntryIdxs", arr(vec![n(0), s("1"), n(3)]))]),
                s("not an object"),
                obj(vec![("kind", s("flagContradiction")), ("entryIdxs", arr(vec![n(1)])), ("description", s("clash"))]),
                obj(vec![("kind", s("toggleAlwaysActive")), ("entryIdx", n(1)), ("newValue", JsonValue::Bool(true))]),
                obj(vec![("kind", s("unknown"))]),
            ]),
        )]),
    )];
    let changes = parse_coherence_result(&calls).unwrap();
    assert_eq!(changes.len(), 4);
    match &changes[0] {
        CoherenceChange::MergeKeys { id, entry_idx, remove_keys, reason } => {
            assert_eq!(id, "change_0");
            assert_eq!(*entry_idx, 2);
            assert_eq!(remove_keys, &vec!["x".to_string()]);
            assert_eq!(reason, "dup");
        }
        _ => panic!("expected a merge"),
    }
    match &changes[1] {
        CoherenceChange::RenameTerm { id, affected_entry_idxs, .. } => {
            assert_eq!(id, "change_3");
            assert_eq!(affected_entry_idxs, &vec![0usize, 3]);
        }
        _ => panic!("expected a rename"),
    }
    assert!(matches!(&changes[2], CoherenceChange::FlagContradiction { id, .. } if id == "change_5"));
    assert!(matches!(&changes[3], CoherenceChange::ToggleAlwaysActive { entry_idx: 1, new_value: true, .. }));
    assert_eq!(
        parse_coherence_result(&vec![call("propose_coherence_changes", obj(vec![]))]).err().unwrap(),
        "propose_coherence_changes missing 'changes' array"
    );
}
