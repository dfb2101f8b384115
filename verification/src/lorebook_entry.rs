//! The deterministic steps of drafting a lorebook entry (or its keywords)
//! from a chat: prompt selection and condensing, the texts describing the
//! source material, and locating the JSON in a model's free-text answer.
use vstd::prelude::*;

use crate::fields::{aliased_flag, read_aliased_flag, FieldValue};
use crate::json::{
    deref_opt, field_from, get, item_texts, json_get, json_str, json_text_result, opt_texts,
    parse_json_result, reads_as, trimmed_str, trimmed_str_exec, JsonValue,
};
use crate::memory::{normalize_structured_fallback_text, unfenced, MemoryEmbedding};
use crate::prompt_types::{
    PromptEntryPayload, PromptEntryPosition, PromptEntryRole, SystemPromptEntry,
    APP_LOREBOOK_ENTRY_WRITER_TEMPLATE_ID, APP_LOREBOOK_KEYWORD_GENERATOR_TEMPLATE_ID,
};
use crate::request::{opt_view, StoredMessage};
use crate::xml_fallback::{
    fallback_xml_entry_of, fallback_xml_keywords_of, parse_fallback_xml_result,
    parse_keyword_fallback_xml_result,
};
use crate::text::{
    chars_of, decimal, eq_ignore_ascii_case, is_blank, join, join_seq, lower_seq, push_all,
    replace, replace_seq, str_eq, string_of, strings_contain, sub_vec, to_string, trim, trim_seq, is_ws,
    u64_to_string, views,
};

verus! {

/// The structured format a model is asked for when it cannot call tools.
#[derive(Clone, Copy, Debug, PartialEq, Eq, Structural)]
pub enum StructuredFallbackFormat {
    Json,
    Xml,
}

pub const LOREBOOK_JSON_FALLBACK_PROMPT: &'static str =
    r#"Return only JSON. Format: {"result":{"name":"write_lorebook_entry","arguments":{"title":"...","keywords":["..."],"content":"...","alwaysActive":false}}}. If no durable entry should be created, return {"result":{"name":"no_entry","arguments":{"reason":"..."}}}. Do not use markdown."#;

pub const LOREBOOK_XML_FALLBACK_PROMPT: &'static str =
    r#"Return only XML. Format: <lorebook_result><write_lorebook_entry alwaysActive="false"><title>...</title><keywords><keyword>...</keyword></keywords><content>...</content></write_lorebook_entry></lorebook_result>. If no durable entry should be created, return <lorebook_result><no_entry><reason>...</reason></no_entry></lorebook_result>. Do not use markdown."#;

pub const LOREBOOK_JSON_FALLBACK_PROMPT_FORCE: &'static str =
    r#"Return only JSON. Format: {"result":{"name":"write_lorebook_entry","arguments":{"title":"...","keywords":["..."],"content":"...","alwaysActive":false}}}. You MUST return write_lorebook_entry. The no_entry option is disabled. Do not use markdown."#;

pub const LOREBOOK_XML_FALLBACK_PROMPT_FORCE: &'static str =
    r#"Return only XML. Format: <lorebook_result><write_lorebook_entry alwaysActive="false"><title>...</title><keywords><keyword>...</keyword></keywords><content>...</content></write_lorebook_entry></lorebook_result>. You MUST return write_lorebook_entry. The no_entry option is disabled. Do not use markdown."#;

pub const LOREBOOK_KEYWORDS_JSON_FALLBACK_PROMPT: &'static str =
    r#"Return only JSON. Format: {"result":{"name":"write_lorebook_keywords","arguments":{"keywords":["..."]}}}. You MUST return write_lorebook_keywords. Do not use markdown."#;

pub const LOREBOOK_KEYWORDS_XML_FALLBACK_PROMPT: &'static str =
    r#"Return only XML. Format: <lorebook_result><write_lorebook_keywords><keywords><keyword>...</keyword></keywords></write_lorebook_keywords></lorebook_result>. You MUST return write_lorebook_keywords. Do not use markdown."#;
pub const MAX_GENERATED_KEYWORDS: usize = 24;

/// The configured fallback format, JSON when none is configured.
pub fn lorebook_entry_structured_fallback_format(setting: Option<StructuredFallbackFormat>) -> (r:
    StructuredFallbackFormat)
    ensures
        r == match setting {
            Some(f) => f,
            None => StructuredFallbackFormat::Json,
        },
{
    match setting {
        Some(f) => f,
        None => StructuredFallbackFormat::Json,
    }
}

pub fn fallback_format_label(format: StructuredFallbackFormat) -> (r: &'static str)
    ensures
        r@ == match format {
            StructuredFallbackFormat::Json => "json"@,
            StructuredFallbackFormat::Xml => "xml"@,
        },
{
    match format {
        StructuredFallbackFormat::Json => "json",
        StructuredFallbackFormat::Xml => "xml",
    }
}

/// The instruction for the entry fallback; with `force` the model may not
/// decline to write an entry.
pub fn fallback_prompt(format: StructuredFallbackFormat, force: bool) -> (r: &'static str)
    ensures
        r == match (format, force) {
            (StructuredFallbackFormat::Json, false) => LOREBOOK_JSON_FALLBACK_PROMPT,
            (StructuredFallbackFormat::Xml, false) => LOREBOOK_XML_FALLBACK_PROMPT,
            (StructuredFallbackFormat::Json, true) => LOREBOOK_JSON_FALLBACK_PROMPT_FORCE,
            (StructuredFallbackFormat::Xml, true) => LOREBOOK_XML_FALLBACK_PROMPT_FORCE,
        },
{
    match (format, force) {
        (StructuredFallbackFormat::Json, false) => LOREBOOK_JSON_FALLBACK_PROMPT,
        (StructuredFallbackFormat::Xml, false) => LOREBOOK_XML_FALLBACK_PROMPT,
        (StructuredFallbackFormat::Json, true) => LOREBOOK_JSON_FALLBACK_PROMPT_FORCE,
        (StructuredFallbackFormat::Xml, true) => LOREBOOK_XML_FALLBACK_PROMPT_FORCE,
    }
}

pub fn lorebook_keyword_fallback_prompt(format: StructuredFallbackFormat) -> (r: &'static str)
    ensures
        r == match format {
            StructuredFallbackFormat::Json => LOREBOOK_KEYWORDS_JSON_FALLBACK_PROMPT,
            StructuredFallbackFormat::Xml => LOREBOOK_KEYWORDS_XML_FALLBACK_PROMPT,
        },
{
    match format {
        StructuredFallbackFormat::Json => LOREBOOK_KEYWORDS_JSON_FALLBACK_PROMPT,
        StructuredFallbackFormat::Xml => LOREBOOK_KEYWORDS_XML_FALLBACK_PROMPT,
    }
}

/// A configured template id when it is not blank, else the built-in one.
pub open spec fn configured_or(setting: Option<Seq<char>>, fallback: Seq<char>) -> Seq<char> {
    match setting {
        Some(v) => if trim_seq(v).len() != 0 {
            v
        } else {
            fallback
        },
        None => fallback,
    }
}

pub fn selected_prompt_template_id(setting: &Option<String>) -> (r: String)
    ensures
        r@ == configured_or(opt_view(*setting), APP_LOREBOOK_ENTRY_WRITER_TEMPLATE_ID@),
{
    match setting {
        Some(v) => if !is_blank(v.as_str()) {
            v.clone()
        } else {
            to_string(APP_LOREBOOK_ENTRY_WRITER_TEMPLATE_ID)
        },
        None => to_string(APP_LOREBOOK_ENTRY_WRITER_TEMPLATE_ID),
    }
}

pub fn selected_keyword_prompt_template_id(setting: &Option<String>) -> (r: String)
    ensures
        r@ == configured_or(opt_view(*setting), APP_LOREBOOK_KEYWORD_GENERATOR_TEMPLATE_ID@),
{
    match setting {
        Some(v) => if !is_blank(v.as_str()) {
            v.clone()
        } else {
            to_string(APP_LOREBOOK_KEYWORD_GENERATOR_TEMPLATE_ID)
        },
        None => to_string(APP_LOREBOOK_KEYWORD_GENERATOR_TEMPLATE_ID),
    }
}

/// The scopes of a configured model.
pub struct ModelScopes {
    pub input_scopes: Vec<String>,
    pub output_scopes: Vec<String>,
}

/// Some scope names text, ignoring ASCII case.
pub open spec fn has_text_scope(scopes: Seq<Seq<char>>) -> bool {
    exists|i: int| 0 <= i < scopes.len() && lower_seq(#[trigger] scopes[i]) == lower_seq("text"@)
}

fn any_text_scope(scopes: &Vec<String>) -> (r: bool)
    ensures
        r == has_text_scope(views(scopes@)),
{
    let mut i: usize = 0;
    while i < scopes.len()
        invariant
            i <= scopes@.len(),
            forall|k: int| 0 <= k < i ==> lower_seq(#[trigger] views(scopes@)[k]) != lower_seq("text"@),
        decreases scopes@.len() - i,
    {
        if eq_ignore_ascii_case(scopes[i].as_str(), "text") {
            assert(lower_seq(views(scopes@)[i as int]) == lower_seq("text"@));
            return true;
        }
        i += 1;
    }
    false
}

/// The entry writer needs a model that reads and writes text.
pub fn supports_lorebook_entry_writer_model(model: &ModelScopes) -> (r: bool)
    ensures
        r == (has_text_scope(views(model.input_scopes@)) && has_text_scope(
            views(model.output_scopes@),
        )),
{
    any_text_scope(&model.input_scopes) && any_text_scope(&model.output_scopes)
}

// ------------------------------------------------------------------
// Rendering prompt entries
// ------------------------------------------------------------------

pub fn replace_custom_placeholder(content: &str, key: &str, value: &str) -> (r: String)
    ensures
        r@ == replace_seq(content@, key@, value@),
{
    replace(content, key, value)
}

/// `content` with each replacement applied in order.
pub open spec fn rendered(content: Seq<char>, reps: Seq<(Seq<char>, Seq<char>)>) -> Seq<char>
    decreases reps.len(),
{
    if reps.len() == 0 {
        content
    } else {
        replace_seq(rendered(content, reps.drop_last()), reps.last().0, reps.last().1)
    }
}

pub open spec fn pairs_view(t: Seq<(&str, &str)>) -> Seq<(Seq<char>, Seq<char>)> {
    t.map_values(|p: (&str, &str)| (p.0@, p.1@))
}

pub fn render_simple_prompt_content(content: &str, replacements: &[(&str, &str)]) -> (r: String)
    ensures
        r@ == rendered(content@, pairs_view(replacements@)),
{
    let ghost reps = pairs_view(replacements@);
    let mut next = to_string(content);
    let mut i: usize = 0;
    while i < replacements.len()
        invariant
            i <= replacements@.len(),
            reps == pairs_view(replacements@),
            next@ == rendered(content@, reps.take(i as int)),
        decreases replacements@.len() - i,
    {
        assert(reps.take(i + 1).drop_last() =~= reps.take(i as int));
        let (key, value) = replacements[i];
        next = replace_custom_placeholder(next.as_str(), key, value);
        i += 1;
    }
    assert(reps.take(replacements@.len() as int) =~= reps);
    next
}

/// An entry with its texts as sequences.
pub struct EntryView {
    pub id: Seq<char>,
    pub name: Seq<char>,
    pub role: PromptEntryRole,
    pub content: Seq<char>,
    pub enabled: bool,
    pub injection_position: PromptEntryPosition,
    pub injection_depth: u32,
    pub conditional_min_messages: Option<u32>,
    pub interval_turns: Option<u32>,
    pub system_prompt: bool,
    pub conditions: Option<Seq<char>>,
    pub prompt_entry_payload: Option<PromptEntryPayload>,
}

pub open spec fn entry_view(e: SystemPromptEntry) -> EntryView {
    EntryView {
        id: e.id@,
        name: e.name@,
        role: e.role,
        content: e.content@,
        enabled: e.enabled,
        injection_position: e.injection_position,
        injection_depth: e.injection_depth,
        conditional_min_messages: e.conditional_min_messages,
        interval_turns: e.interval_turns,
        system_prompt: e.system_prompt,
        conditions: opt_view(e.conditions),
        prompt_entry_payload: e.prompt_entry_payload,
    }
}

pub open spec fn entries_view(es: Seq<SystemPromptEntry>) -> Seq<EntryView> {
    es.map_values(|e: SystemPromptEntry| entry_view(e))
}

/// Two entries that would be sent alike and may share one message.
pub open spec fn mergeable(a: EntryView, b: EntryView) -> bool {
    a.role == b.role && a.injection_position == b.injection_position && a.injection_depth
        == b.injection_depth && a.prompt_entry_payload == b.prompt_entry_payload && a.conditions
        == b.conditions
}

/// One step of condensing: a blank entry is dropped; an entry like the last
/// kept one is appended to it after a blank line; others are kept, trimmed.
pub open spec fn condense_step(acc: Seq<EntryView>, e: EntryView) -> Seq<EntryView> {
    let t = trim_seq(e.content);
    if t.len() == 0 {
        acc
    } else if acc.len() > 0 && mergeable(acc.last(), e) {
        let last = acc.last();
        let joined = if trim_seq(last.content).len() != 0 {
            last.content + "\n\n"@ + t
        } else {
            last.content + t
        };
        acc.update(acc.len() - 1, EntryView { content: joined, ..last })
    } else {
        acc.push(EntryView { content: t, ..e })
    }
}

pub open spec fn condensed(es: Seq<EntryView>) -> Seq<EntryView>
    decreases es.len(),
{
    if es.len() == 0 {
        seq![]
    } else {
        condense_step(condensed(es.drop_last()), es.last())
    }
}

fn same_conditions(a: &Option<String>, b: &Option<String>) -> (r: bool)
    ensures
        r == (opt_view(*a) == opt_view(*b)),
{
    match (a, b) {
        (Some(x), Some(y)) => str_eq(x.as_str(), y.as_str()),
        (None, None) => true,
        _ => false,
    }
}

/// Merges neighbouring entries that would be sent alike and drops blank ones.
pub fn condense_prompt_entries(entries: Vec<SystemPromptEntry>) -> (r: Vec<SystemPromptEntry>)
    ensures
        entries_view(r@) == condensed(entries_view(entries@)),
{
    let ghost ev = entries_view(entries@);
    let mut out: Vec<SystemPromptEntry> = Vec::new();
    let mut entries = entries;
    let mut i: usize = 0;
    let n = entries.len();
    while i < n
        invariant
            n == entries@.len(),
            i <= n,
            ev == entries_view(entries@),
            entries_view(out@) == condensed(ev.take(i as int)),
        decreases n - i,
    {
        assert(ev.take(i + 1).drop_last() =~= ev.take(i as int));
        assert(ev.take(i + 1).last() == entry_view(entries@[i as int]));
        let ghost before = entries_view(out@);
        let t = trim(entries[i].content.as_str());
        if t.as_str().unicode_len() > 0 {
            let k = out.len();
            let merge = k > 0 && out[k - 1].role == entries[i].role
                && out[k - 1].injection_position == entries[i].injection_position
                && out[k - 1].injection_depth == entries[i].injection_depth
                && out[k - 1].prompt_entry_payload == entries[i].prompt_entry_payload
                && same_conditions(&out[k - 1].conditions, &entries[i].conditions);
            if merge {
                let last = &out[k - 1];
                let mut joined = last.content.clone();
                if !is_blank(last.content.as_str()) {
                    joined.append("\n\n");
                }
                joined.append(t.as_str());
                let merged = SystemPromptEntry {
                    id: last.id.clone(),
                    name: last.name.clone(),
                    role: last.role,
                    content: joined,
                    enabled: last.enabled,
                    injection_position: last.injection_position,
                    injection_depth: last.injection_depth,
                    conditional_min_messages: last.conditional_min_messages,
                    interval_turns: last.interval_turns,
                    system_prompt: last.system_prompt,
                    conditions: crate::request::copy_opt_string(&last.conditions),
                    prompt_entry_payload: last.prompt_entry_payload,
                };
                out.set(k - 1, merged);
                assert(entries_view(out@) =~= condense_step(before, ev[i as int]));
            } else {
                let e = &entries[i];
                let kept = SystemPromptEntry {
                    id: e.id.clone(),
                    name: e.name.clone(),
                    role: e.role,
                    content: t,
                    enabled: e.enabled,
                    injection_position: e.injection_position,
                    injection_depth: e.injection_depth,
                    conditional_min_messages: e.conditional_min_messages,
                    interval_turns: e.interval_turns,
                    system_prompt: e.system_prompt,
                    conditions: crate::request::copy_opt_string(&e.conditions),
                    prompt_entry_payload: e.prompt_entry_payload,
                };
                out.push(kept);
                assert(entries_view(out@) =~= condense_step(before, ev[i as int]));
            }
        }
        i += 1;
    }
    assert(ev.take(n as int) =~= ev);
    out
}

/// Condensing never leaves a blank entry, nor two neighbours that could
/// have been merged.
pub proof fn lemma_condensed_shape(es: Seq<EntryView>)
    ensures
        forall|i: int|
            0 <= i < condensed(es).len() ==> trim_seq(#[trigger] condensed(es)[i].content).len() != 0,
    decreases es.len(),
{
    if es.len() > 0 {
        lemma_condensed_shape(es.drop_last());
        let acc = condensed(es.drop_last());
        let e = es.last();
        let t = trim_seq(e.content);
        let r = condensed(es);
        assert forall|i: int| 0 <= i < r.len() implies trim_seq(#[trigger] r[i].content).len() != 0 by {
            if t.len() != 0 {
                if acc.len() > 0 && mergeable(acc.last(), e) {
                    if i == acc.len() - 1 {
                        crate::text::lemma_trim_idempotent(e.content);
                        lemma_trim_nonempty_after_append(acc.last().content, t);
                    } else {
                        assert(r[i] == acc[i]);
                    }
                } else {
                    if i < acc.len() {
                        assert(r[i] == acc[i]);
                    } else {
                        crate::text::lemma_trim_idempotent(e.content);
                    }
                }
            }
        }
    }
}

/// Appending a trimmed non-empty text keeps the trimmed result non-empty.
pub proof fn lemma_trim_nonempty_after_append(a: Seq<char>, t: Seq<char>)
    requires
        t.len() != 0,
        t == trim_seq(t),
    ensures
        trim_seq(if trim_seq(a).len() != 0 {
            a + "\n\n"@ + t
        } else {
            a + t
        }).len() != 0,
{
    let s = if trim_seq(a).len() != 0 {
        a + "\n\n"@ + t
    } else {
        a + t
    };
    crate::text::lemma_trim_idempotent(t);
    assert(s.last() == t.last());
    crate::text::lemma_blank_iff_all_ws(s);
    assert(!is_ws(s[s.len() - 1]));
}

// ------------------------------------------------------------------
// Describing the source material
// ------------------------------------------------------------------

/// A stored lorebook entry, as far as the writer is told about it.
pub struct LorebookEntry {
    pub title: String,
    pub keywords: Vec<String>,
    pub always_active: bool,
    pub content: String,
}

/// The title shown for an entry: its trimmed title, else its first keyword,
/// else a placeholder.
pub open spec fn entry_title(e: LorebookEntry) -> Seq<char> {
    if trim_seq(e.title@).len() != 0 {
        trim_seq(e.title@)
    } else if e.keywords@.len() > 0 {
        e.keywords@[0]@
    } else {
        "Untitled entry"@
    }
}

/// How an entry is triggered.
pub open spec fn entry_trigger(e: LorebookEntry) -> Seq<char> {
    if e.always_active {
        "always active"@
    } else if e.keywords@.len() == 0 {
        "no keywords"@
    } else {
        "keywords: "@ + join_seq(views(e.keywords@), ", "@)
    }
}

/// `- title (trigger)`, followed by `: content` when the content is not blank.
pub open spec fn entry_line(e: LorebookEntry) -> Seq<char> {
    let head = "- "@ + entry_title(e) + " ("@ + entry_trigger(e) + ")"@;
    if trim_seq(e.content@).len() == 0 {
        head
    } else {
        head + ": "@ + trim_seq(e.content@)
    }
}

pub open spec fn existing_entries_text(es: Seq<LorebookEntry>) -> Seq<char> {
    if es.len() == 0 {
        "(none)"@
    } else {
        join_seq(Seq::new(es.len(), |k: int| entry_line(es[k])), "\n"@)
    }
}

fn format_entry_line(e: &LorebookEntry) -> (r: String)
    ensures
        r@ == entry_line(*e),
{
    let mut line = to_string("- ");
    if !is_blank(e.title.as_str()) {
        let t = trim(e.title.as_str());
        line.append(t.as_str());
    } else if e.keywords.len() > 0 {
        line.append(e.keywords[0].as_str());
    } else {
        line.append("Untitled entry");
    }
    line.append(" (");
    if e.always_active {
        line.append("always active");
    } else if e.keywords.len() == 0 {
        line.append("no keywords");
    } else {
        line.append("keywords: ");
        let ks = join(&e.keywords, ", ");
        line.append(ks.as_str());
    }
    line.append(")");
    if !is_blank(e.content.as_str()) {
        line.append(": ");
        let c = trim(e.content.as_str());
        line.append(c.as_str());
    }
    line
}

/// One line per stored entry, or `(none)`.
pub fn format_existing_entries(entries: &Vec<LorebookEntry>) -> (r: String)
    ensures
        r@ == existing_entries_text(entries@),
{
    if entries.len() == 0 {
        return to_string("(none)");
    }
    let ghost want = Seq::new(entries@.len(), |k: int| entry_line(entries@[k]));
    let mut lines: Vec<String> = Vec::new();
    let mut i: usize = 0;
    while i < entries.len()
        invariant
            i <= entries@.len(),
            want == Seq::new(entries@.len(), |k: int| entry_line(entries@[k])),
            lines@.len() == i,
            forall|k: int| 0 <= k < i ==> (#[trigger] lines@[k])@ == want[k],
        decreases entries@.len() - i,
    {
        let line = format_entry_line(&entries[i]);
        lines.push(line);
        i += 1;
    }
    assert(views(lines@) =~= want);
    join(&lines, "\n")
}

/// The id under which the `i`-th legacy memory can be selected.
pub open spec fn legacy_id(i: nat) -> Seq<char> {
    "legacy:"@ + decimal(i)
}

/// The trimmed, non-blank texts of the stored memories whose ids were selected.
pub open spec fn picked_embedding_texts(es: Seq<MemoryEmbedding>, ids: Seq<Seq<char>>) -> Seq<
    Seq<char>,
>
    decreases es.len(),
{
    if es.len() == 0 {
        seq![]
    } else {
        let rest = picked_embedding_texts(es.drop_last(), ids);
        let t = trim_seq(es.last().text@);
        if ids.contains(es.last().id@) && t.len() != 0 {
            rest.push(t)
        } else {
            rest
        }
    }
}

/// The trimmed, non-blank legacy memories whose synthetic ids were selected.
pub open spec fn picked_legacy_texts(legacy: Seq<Seq<char>>, ids: Seq<Seq<char>>) -> Seq<Seq<char>>
    decreases legacy.len(),
{
    if legacy.len() == 0 {
        seq![]
    } else {
        let rest = picked_legacy_texts(legacy.drop_last(), ids);
        let t = trim_seq(legacy.last());
        if ids.contains(legacy_id((legacy.len() - 1) as nat)) && t.len() != 0 {
            rest.push(t)
        } else {
            rest
        }
    }
}

/// `n. text`.
pub open spec fn numbered_line(n: nat, t: Seq<char>) -> Seq<char> {
    decimal(n) + ". "@ + t
}

/// The lines numbered from one.
pub open spec fn numbered(lines: Seq<Seq<char>>) -> Seq<Seq<char>> {
    Seq::new(lines.len(), |k: int| numbered_line((k + 1) as nat, lines[k]))
}

pub open spec fn selected_memories_text(
    ids: Seq<Seq<char>>,
    es: Seq<MemoryEmbedding>,
    legacy: Seq<Seq<char>>,
) -> Seq<char> {
    let lines = picked_embedding_texts(es, ids) + picked_legacy_texts(legacy, ids);
    if ids.len() == 0 || lines.len() == 0 {
        "(none)"@
    } else {
        join_seq(numbered(lines), "\n"@)
    }
}

fn push_numbered(lines: &mut Vec<String>, text: &str)
    requires
        old(lines)@.len() < usize::MAX,
    ensures
        final(lines)@.len() == old(lines)@.len() + 1,
        forall|k: int| 0 <= k < old(lines)@.len() ==> final(lines)@[k] == old(lines)@[k],
        final(lines)@[old(lines)@.len() as int]@ == numbered_line(
            (old(lines)@.len() + 1) as nat,
            text@,
        ),
{
    let n = lines.len() + 1;
    let mut line = u64_to_string(n as u64);
    line.append(". ");
    line.append(text);
    lines.push(line);
}

/// The selected memories, numbered from one, or `(none)`.
pub fn format_selected_memories(
    memory_ids: &Vec<String>,
    embeddings: &Vec<MemoryEmbedding>,
    legacy: &Vec<String>,
) -> (r: String)
    requires
        embeddings@.len() + legacy@.len() < usize::MAX,
    ensures
        r@ == selected_memories_text(views(memory_ids@), embeddings@, views(legacy@)),
{
    let ghost ids = views(memory_ids@);
    if memory_ids.len() == 0 {
        return to_string("(none)");
    }
    let mut lines: Vec<String> = Vec::new();
    let ghost mut picked: Seq<Seq<char>> = seq![];
    let mut i: usize = 0;
    while i < embeddings.len()
        invariant
            i <= embeddings@.len(),
            ids == views(memory_ids@),
            picked == picked_embedding_texts(embeddings@.take(i as int), ids),
            picked.len() <= i,
            lines@.len() == picked.len(),
            forall|k: int|
                0 <= k < picked.len() ==> (#[trigger] lines@[k])@ == numbered_line(
                    (k + 1) as nat,
                    picked[k],
                ),
        decreases embeddings@.len() - i,
    {
        assert(embeddings@.take(i + 1).drop_last() =~= embeddings@.take(i as int));
        let e = &embeddings[i];
        if strings_contain(memory_ids, e.id.as_str()) && !is_blank(e.text.as_str()) {
            let t = trim(e.text.as_str());
            push_numbered(&mut lines, t.as_str());
            proof {
                picked = picked.push(t@);
            }
        }
        i += 1;
    }
    assert(embeddings@.take(embeddings@.len() as int) =~= embeddings@);
    let ghost first = picked;
    let ghost lv = views(legacy@);
    let mut j: usize = 0;
    let ghost mut later: Seq<Seq<char>> = seq![];
    while j < legacy.len()
        invariant
            j <= legacy@.len(),
            ids == views(memory_ids@),
            lv == views(legacy@),
            first == picked_embedding_texts(embeddings@, ids),
            first.len() <= embeddings@.len(),
            embeddings@.len() + legacy@.len() < usize::MAX,
            later == picked_legacy_texts(lv.take(j as int), ids),
            later.len() <= j,
            lines@.len() == first.len() + later.len(),
            forall|k: int|
                0 <= k < lines@.len() ==> (#[trigger] lines@[k])@ == numbered_line(
                    (k + 1) as nat,
                    (first + later)[k],
                ),
        decreases legacy@.len() - j,
    {
        assert(lv.take(j + 1).drop_last() =~= lv.take(j as int));
        let mut sid = to_string("legacy:");
        let d = u64_to_string(j as u64);
        sid.append(d.as_str());
        if strings_contain(memory_ids, sid.as_str()) && !is_blank(legacy[j].as_str()) {
            let t = trim(legacy[j].as_str());
            push_numbered(&mut lines, t.as_str());
            proof {
                later = later.push(t@);
                assert(first + later =~= (first + later.drop_last()).push(t@));
            }
        }
        j += 1;
    }
    assert(lv.take(legacy@.len() as int) =~= lv);
    if lines.len() == 0 {
        return to_string("(none)");
    }
    assert(views(lines@) =~= numbered(first + later));
    join(&lines, "\n")
}

/// The message content as shown to the writer.
pub open spec fn message_body(c: Seq<char>) -> Seq<char> {
    if trim_seq(c).len() == 0 {
        "[empty message]"@
    } else {
        trim_seq(c)
    }
}

/// `n. role: content`.
pub open spec fn message_line(n: nat, m: StoredMessage) -> Seq<char> {
    decimal(n) + ". "@ + m.role@ + ": "@ + message_body(m.content@)
}

pub open spec fn selected_messages_text(ms: Seq<StoredMessage>) -> Seq<char> {
    join_seq(Seq::new(ms.len(), |k: int| message_line((k + 1) as nat, ms[k])), "\n"@)
}

/// The selected messages, numbered from one, one per line.
pub fn format_selected_messages(messages: &Vec<StoredMessage>) -> (r: String)
    ensures
        r@ == selected_messages_text(messages@),
{
    let ghost want = Seq::new(messages@.len(), |k: int| message_line((k + 1) as nat, messages@[k]));
    let mut lines: Vec<String> = Vec::new();
    let mut i: usize = 0;
    while i < messages.len()
        invariant
            i <= messages@.len(),
            want == Seq::new(messages@.len(), |k: int| message_line((k + 1) as nat, messages@[k])),
            lines@.len() == i,
            forall|k: int| 0 <= k < i ==> (#[trigger] lines@[k])@ == want[k],
        decreases messages@.len() - i,
    {
        let m = &messages[i];
        let mut line = u64_to_string((i as u64) + 1);
        line.append(". ");
        line.append(m.role.as_str());
        line.append(": ");
        if is_blank(m.content.as_str()) {
            line.append("[empty message]");
        } else {
            let c = trim(m.content.as_str());
            line.append(c.as_str());
        }
        lines.push(line);
        i += 1;
    }
    assert(views(lines@) =~= want);
    join(&lines, "\n")
}

/// The trimmed, non-blank existing keywords.
pub open spec fn kept_keywords(ks: Seq<Seq<char>>) -> Seq<Seq<char>>
    decreases ks.len(),
{
    if ks.len() == 0 {
        seq![]
    } else {
        let rest = kept_keywords(ks.drop_last());
        let t = trim_seq(ks.last());
        if t.len() != 0 {
            rest.push(t)
        } else {
            rest
        }
    }
}

pub open spec fn existing_keywords_text(ks: Seq<Seq<char>>) -> Seq<char> {
    if kept_keywords(ks).len() == 0 {
        "(none)"@
    } else {
        join_seq(kept_keywords(ks), ", "@)
    }
}

/// The existing keywords, comma separated, or `(none)`.
pub fn format_existing_keywords(existing_keywords: &Vec<String>) -> (r: String)
    ensures
        r@ == existing_keywords_text(views(existing_keywords@)),
{
    let ghost ks = views(existing_keywords@);
    let mut kept: Vec<String> = Vec::new();
    let mut i: usize = 0;
    while i < existing_keywords.len()
        invariant
            i <= existing_keywords@.len(),
            ks == views(existing_keywords@),
            views(kept@) == kept_keywords(ks.take(i as int)),
        decreases existing_keywords@.len() - i,
    {
        assert(ks.take(i + 1).drop_last() =~= ks.take(i as int));
        if !is_blank(existing_keywords[i].as_str()) {
            let t = trim(existing_keywords[i].as_str());
            kept.push(t);
            assert(views(kept@) =~= kept_keywords(ks.take(i + 1)));
        }
        i += 1;
    }
    assert(ks.take(existing_keywords@.len() as int) =~= ks);
    if kept.len() == 0 {
        to_string("(none)")
    } else {
        join(&kept, ", ")
    }
}

// ------------------------------------------------------------------
// Locating JSON in free text
// ------------------------------------------------------------------

/// Reads `s` from position `i` on, with `start` the position of the first
/// opening bracket, `stack` the brackets still open and the string state.
/// Text inside a JSON string is skipped; a closing bracket that does not
/// match gives up; the bracket that closes the first one ends the snippet,
/// whose first and last positions are returned.
pub open spec fn scan_json(
    s: Seq<char>,
    i: int,
    start: Option<int>,
    stack: Seq<char>,
    in_string: bool,
    escape: bool,
) -> Option<(int, int)>
    decreases s.len() - i,
{
    if i < 0 || i >= s.len() {
        None
    } else {
        let c = s[i];
        if in_string {
            if escape {
                scan_json(s, i + 1, start, stack, true, false)
            } else if c == '\\' {
                scan_json(s, i + 1, start, stack, true, true)
            } else if c == '"' {
                scan_json(s, i + 1, start, stack, false, false)
            } else {
                scan_json(s, i + 1, start, stack, true, false)
            }
        } else if c == '"' {
            scan_json(s, i + 1, start, stack, true, false)
        } else if c == '{' || c == '[' {
            let st = if start is None {
                Some(i)
            } else {
                start
            };
            scan_json(s, i + 1, st, stack.push(c), false, false)
        } else if c == '}' || c == ']' {
            let open = if c == '}' {
                '{'
            } else {
                '['
            };
            if stack.len() == 0 || stack.last() != open {
                None
            } else if stack.len() == 1 {
                match start {
                    Some(b) => Some((b, i)),
                    None => None,
                }
            } else {
                scan_json(s, i + 1, start, stack.drop_last(), false, false)
            }
        } else {
            scan_json(s, i + 1, start, stack, false, false)
        }
    }
}

/// The first balanced JSON object or array in `s`, if the scan finds one.
pub open spec fn json_snippet(s: Seq<char>) -> Option<Seq<char>> {
    match scan_json(s, 0, None, seq![], false, false) {
        Some((b, e)) => Some(s.subrange(b, e + 1)),
        None => None,
    }
}

/// A found snippet lies within the text, starts at an opening bracket and
/// ends at the bracket that closes it.
pub proof fn lemma_scan_json_bounds(
    s: Seq<char>,
    i: int,
    start: Option<int>,
    stack: Seq<char>,
    in_string: bool,
    escape: bool,
)
    requires
        0 <= i,
        start matches Some(b) ==> 0 <= b < i && (s[b] == '{' || s[b] == '['),
        stack.len() > 0 ==> start is Some,
    ensures
        scan_json(s, i, start, stack, in_string, escape) matches Some((b, e)) ==> 0 <= b <= e
            < s.len() && (s[b] == '{' || s[b] == '[') && (s[e] == '}' || s[e] == ']'),
    decreases s.len() - i,
{
    if i < s.len() {
        let c = s[i];
        if in_string {
            if escape {
                lemma_scan_json_bounds(s, i + 1, start, stack, true, false);
            } else if c == '\\' {
                lemma_scan_json_bounds(s, i + 1, start, stack, true, true);
            } else if c == '"' {
                lemma_scan_json_bounds(s, i + 1, start, stack, false, false);
            } else {
                lemma_scan_json_bounds(s, i + 1, start, stack, true, false);
            }
        } else if c == '"' {
            lemma_scan_json_bounds(s, i + 1, start, stack, true, false);
        } else if c == '{' || c == '[' {
            let st = if start is None {
                Some(i)
            } else {
                start
            };
            lemma_scan_json_bounds(s, i + 1, st, stack.push(c), false, false);
        } else if c == '}' || c == ']' {
            if stack.len() > 1 {
                lemma_scan_json_bounds(s, i + 1, start, stack.drop_last(), false, false);
            }
        } else {
            lemma_scan_json_bounds(s, i + 1, start, stack, false, false);
        }
    }
}

/// The first balanced JSON object or array in `raw`, skipping brackets inside
/// strings; `None` when a bracket is closed by the wrong kind or none closes.
pub fn extract_json_snippet(raw: &str) -> (r: Option<String>)
    ensures
        match r {
            Some(t) => json_snippet(raw@) == Some(t@),
            None => json_snippet(raw@) is None,
        },
{
    let v = chars_of(raw);
    let n = v.len();
    let mut start: Option<usize> = None;
    let mut stack: Vec<char> = Vec::new();
    let mut in_string = false;
    let mut escape = false;
    let mut i: usize = 0;
    let ghost whole = scan_json(v@, 0, None, seq![], false, false);
    while i < n
        invariant
            n == v@.len(),
            i <= n,
            v@ == raw@,
            whole == scan_json(v@, 0, None, seq![], false, false),
            whole == scan_json(
                v@,
                i as int,
                match start {
                    Some(b) => Some(b as int),
                    None => None,
                },
                stack@,
                in_string,
                escape,
            ),
            start matches Some(b) ==> b < i,
            !in_string ==> !escape,
        decreases n - i,
    {
        let c = v[i];
        let ghost st0 = match start {
            Some(b) => Some(b as int),
            None => None,
        };
        let ghost stack0 = stack@;
        if in_string {
            if escape {
                escape = false;
            } else if c == '\\' {
                escape = true;
            } else if c == '"' {
                in_string = false;
            }
        } else if c == '"' {
            in_string = true;
        } else if c == '{' || c == '[' {
            if start.is_none() {
                start = Some(i);
            }
            stack.push(c);
        } else if c == '}' || c == ']' {
            let open = if c == '}' {
                '{'
            } else {
                '['
            };
            let k = stack.len();
            if k == 0 || stack[k - 1] != open {
                return None;
            }
            if k == 1 {
                match start {
                    Some(b) => {
                        let t = sub_vec(&v, b, i + 1);
                        return Some(string_of(t.as_slice()));
                    },
                    None => {
                        return None;
                    },
                }
            }
            stack.pop();
            assert(stack@ =~= stack0.drop_last());
        }
        i += 1;
    }
    None
}

// ------------------------------------------------------------------
// Reading the model's answer
// ------------------------------------------------------------------

pub open spec fn lowered(ks: Seq<Seq<char>>) -> Seq<Seq<char>> {
    ks.map_values(|k: Seq<char>| lower_seq(k))
}

/// The trimmed, non-blank string items, each kept only the first time it
/// occurs ignoring ASCII case.
pub open spec fn dedup_keywords(items: Seq<Option<Seq<char>>>) -> Seq<Seq<char>>
    decreases items.len(),
{
    if items.len() == 0 {
        seq![]
    } else {
        let rest = dedup_keywords(items.drop_last());
        match items.last() {
            Some(s) => {
                let t = trim_seq(s);
                if t.len() != 0 && !lowered(rest).contains(lower_seq(t)) {
                    rest.push(t)
                } else {
                    rest
                }
            },
            None => rest,
        }
    }
}

pub open spec fn items_view(v: Seq<Option<String>>) -> Seq<Option<Seq<char>>> {
    v.map_values(|o: Option<String>| match o {
        Some(s) => Some(s@),
        None => None,
    })
}

/// The keywords an answer gives: from an array or a single string, at most
/// the first 24.
pub open spec fn normalized_keywords(f: FieldValue) -> Seq<Seq<char>> {
    let all = match f {
        FieldValue::List(items) => dedup_keywords(items_view(items@)),
        FieldValue::Text(v) => if trim_seq(v@).len() != 0 {
            seq![trim_seq(v@)]
        } else {
            seq![]
        },
        _ => seq![],
    };
    if all.len() > MAX_GENERATED_KEYWORDS {
        all.take(MAX_GENERATED_KEYWORDS as int)
    } else {
        all
    }
}

fn seen_ignoring_case(out: &Vec<String>, t: &str) -> (r: bool)
    ensures
        r == lowered(views(out@)).contains(lower_seq(t@)),
{
    let mut i: usize = 0;
    while i < out.len()
        invariant
            i <= out@.len(),
            forall|k: int| 0 <= k < i ==> lower_seq((#[trigger] out@[k])@) != lower_seq(t@),
        decreases out@.len() - i,
    {
        if eq_ignore_ascii_case(out[i].as_str(), t) {
            assert(lowered(views(out@))[i as int] == lower_seq(t@));
            return true;
        }
        i += 1;
    }
    assert forall|k: int| 0 <= k < lowered(views(out@)).len() implies lowered(views(out@))[k]
        != lower_seq(t@) by {
        assert(lowered(views(out@))[k] == lower_seq(out@[k]@));
    }
    false
}

pub fn normalize_keywords(value: &FieldValue) -> (r: Vec<String>)
    ensures
        views(r@) == normalized_keywords(*value),
{
    let mut out: Vec<String> = Vec::new();
    match value {
        FieldValue::List(items) => {
            let ghost iv = items_view(items@);
            let mut i: usize = 0;
            while i < items.len()
                invariant
                    i <= items@.len(),
                    iv == items_view(items@),
                    views(out@) == dedup_keywords(iv.take(i as int)),
                decreases items@.len() - i,
            {
                assert(iv.take(i + 1).drop_last() =~= iv.take(i as int));
                match &items[i] {
                    Some(s) => {
                        if !is_blank(s.as_str()) {
                            let t = trim(s.as_str());
                            if !seen_ignoring_case(&out, t.as_str()) {
                                let ghost before = views(out@);
                                out.push(t);
                                assert(views(out@) =~= before.push(t@));
                            }
                        }
                    },
                    None => {},
                }
                i += 1;
            }
            assert(iv.take(items@.len() as int) =~= iv);
        },
        FieldValue::Text(v) => {
            if !is_blank(v.as_str()) {
                out.push(trim(v.as_str()));
                assert(views(out@) =~= seq![trim_seq(v@)]);
            }
        },
        _ => {
            assert(views(out@) =~= Seq::<Seq<char>>::empty());
        },
    }
    let ghost all = views(out@);
    out.truncate(MAX_GENERATED_KEYWORDS);
    assert(views(out@) =~= if all.len() > MAX_GENERATED_KEYWORDS {
        all.take(MAX_GENERATED_KEYWORDS as int)
    } else {
        all
    });
    out
}

/// The keywords kept never repeat, ignoring ASCII case.
pub proof fn lemma_dedup_keywords_distinct(items: Seq<Option<Seq<char>>>)
    ensures
        crate::keys::distinct(lowered(dedup_keywords(items))),
        forall|k: int|
            0 <= k < dedup_keywords(items).len() ==> trim_seq(#[trigger] dedup_keywords(items)[k])
                == dedup_keywords(items)[k] && dedup_keywords(items)[k].len() != 0,
    decreases items.len(),
{
    if items.len() > 0 {
        lemma_dedup_keywords_distinct(items.drop_last());
        let rest = dedup_keywords(items.drop_last());
        match items.last() {
            Some(s) => {
                let t = trim_seq(s);
                if t.len() != 0 && !lowered(rest).contains(lower_seq(t)) {
                    assert(lowered(rest.push(t)) =~= lowered(rest).push(lower_seq(t)));
                    crate::keys::lemma_push_fresh(lowered(rest), lower_seq(t));
                    crate::text::lemma_trim_idempotent(s);
                }
            },
            None => {},
        }
    }
}

/// An entry draft as the model wrote it.
pub struct LorebookEntryDraft {
    pub title: String,
    pub keywords: Vec<String>,
    pub content: String,
    pub always_active: bool,
}

/// The arguments of a `write_lorebook_entry` or `no_entry` call.
pub struct EntryArguments {
    pub is_object: bool,
    pub title: FieldValue,
    pub content: FieldValue,
    pub always_active_camel: FieldValue,
    pub always_active_snake: FieldValue,
    pub keywords: FieldValue,
    pub reason: FieldValue,
}

/// A draft's title, keywords, content and flag.
pub type DraftView = (Seq<char>, Seq<Seq<char>>, Seq<char>, bool);

pub open spec fn draft_view(d: LorebookEntryDraft) -> DraftView {
    (d.title@, views(d.keywords@), d.content@, d.always_active)
}

/// A required text argument, trimmed and not blank.
pub open spec fn required_text(f: FieldValue) -> Option<Seq<char>> {
    match f {
        FieldValue::Text(t) => if trim_seq(t@).len() != 0 {
            Some(trim_seq(t@))
        } else {
            None
        },
        _ => None,
    }
}

pub open spec fn entry_draft(a: EntryArguments) -> Result<DraftView, Seq<char>> {
    if !a.is_object {
        Err("write_lorebook_entry arguments must be an object"@)
    } else {
        match required_text(a.title) {
            None => Err("write_lorebook_entry is missing a non-empty title"@),
            Some(title) => match required_text(a.content) {
                None => Err("write_lorebook_entry is missing non-empty content"@),
                Some(content) => Ok(
                    (
                        title,
                        normalized_keywords(a.keywords),
                        content,
                        aliased_flag(a.always_active_camel, a.always_active_snake),
                    ),
                ),
            },
        }
    }
}

fn required_text_exec(f: &FieldValue) -> (r: Option<String>)
    ensures
        match r {
            Some(t) => required_text(*f) == Some(t@),
            None => required_text(*f) is None,
        },
{
    match f {
        FieldValue::Text(t) => if !is_blank(t.as_str()) {
            Some(trim(t.as_str()))
        } else {
            None
        },
        _ => None,
    }
}

/// The draft a `write_lorebook_entry` call describes, or why it cannot be
/// used.
pub fn normalize_entry_draft(arguments: &EntryArguments) -> (r: Result<LorebookEntryDraft, String>)
    ensures
        match r {
            Ok(d) => entry_draft(*arguments) == Ok::<DraftView, Seq<char>>(draft_view(d)),
            Err(e) => entry_draft(*arguments) == Err::<DraftView, Seq<char>>(e@),
        },
{
    if !arguments.is_object {
        return Err(to_string("write_lorebook_entry arguments must be an object"));
    }
    let title = match required_text_exec(&arguments.title) {
        Some(t) => t,
        None => {
            return Err(to_string("write_lorebook_entry is missing a non-empty title"));
        },
    };
    let content = match required_text_exec(&arguments.content) {
        Some(t) => t,
        None => {
            return Err(to_string("write_lorebook_entry is missing non-empty content"));
        },
    };
    let always_active = read_aliased_flag(
        &arguments.always_active_camel,
        &arguments.always_active_snake,
    );
    let keywords = normalize_keywords(&arguments.keywords);
    Ok(LorebookEntryDraft { title, keywords, content, always_active })
}

/// What the writer decided.
pub struct LorebookEntryDraftResult {
    pub kind: String,
    pub draft: Option<LorebookEntryDraft>,
    pub reason: Option<String>,
}

/// A call the writer made.
pub struct EntryToolCall {
    pub name: String,
    pub arguments: EntryArguments,
}

/// The decision's kind, draft and reason.
pub type ResultView = (Seq<char>, Option<DraftView>, Option<Seq<char>>);

pub open spec fn result_view(r: LorebookEntryDraftResult) -> ResultView {
    (
        r.kind@,
        match r.draft {
            Some(d) => Some(draft_view(d)),
            None => None,
        },
        opt_view(r.reason),
    )
}

/// The reason of a `no_entry` call, with a default when it gives none.
pub open spec fn no_entry_reason(a: EntryArguments) -> Seq<char> {
    match required_text(a.reason) {
        Some(r) => r,
        None => "The selected messages do not establish durable lore."@,
    }
}

/// The decision in the calls: the first `write_lorebook_entry` wins (its
/// draft, or its error); else the last `no_entry`; else none.
pub open spec fn calls_result(calls: Seq<EntryToolCall>) -> Result<Option<ResultView>, Seq<char>>
    decreases calls.len(),
{
    if calls.len() == 0 {
        Ok(None)
    } else {
        let first = calls[0];
        if first.name@ == "write_lorebook_entry"@ {
            match entry_draft(first.arguments) {
                Ok(d) => Ok(Some(("entry"@, Some(d), None))),
                Err(e) => Err(e),
            }
        } else {
            let rest = calls_result(calls.drop_first());
            if first.name@ == "no_entry"@ {
                match rest {
                    Ok(None) => Ok(Some(("none"@, None, Some(no_entry_reason(first.arguments))))),
                    other => other,
                }
            } else {
                rest
            }
        }
    }
}

fn no_entry_result(a: &EntryArguments) -> (r: LorebookEntryDraftResult)
    ensures
        result_view(r) == ("none"@, None::<DraftView>, Some(no_entry_reason(*a))),
{
    let reason = match required_text_exec(&a.reason) {
        Some(t) => t,
        None => to_string("The selected messages do not establish durable lore."),
    };
    LorebookEntryDraftResult { kind: to_string("none"), draft: None, reason: Some(reason) }
}

pub fn result_from_tool_calls(calls: &Vec<EntryToolCall>) -> (r: Result<
    Option<LorebookEntryDraftResult>,
    String,
>)
    ensures
        match r {
            Ok(Some(x)) => calls_result(calls@) == Ok::<Option<ResultView>, Seq<char>>(
                Some(result_view(x)),
            ),
            Ok(None) => calls_result(calls@) == Ok::<Option<ResultView>, Seq<char>>(None),
            Err(e) => calls_result(calls@) == Err::<Option<ResultView>, Seq<char>>(e@),
        },
{
    let mut pending: Option<LorebookEntryDraftResult> = None;
    let mut i: usize = 0;
    assert(calls@.skip(0) =~= calls@);
    while i < calls.len()
        invariant
            i <= calls@.len(),
            calls_result(calls@) == match calls_result(calls@.skip(i as int)) {
                Ok(None) => match pending {
                    Some(p) => Ok(Some(result_view(p))),
                    None => Ok(None),
                },
                other => other,
            },
        decreases calls@.len() - i,
    {
        assert(calls@.skip(i as int).drop_first() =~= calls@.skip(i + 1));
        assert(calls@.skip(i as int)[0] == calls@[i as int]);
        let call = &calls[i];
        if str_eq(call.name.as_str(), "write_lorebook_entry") {
            return match normalize_entry_draft(&call.arguments) {
                Ok(d) => Ok(
                    Some(
                        LorebookEntryDraftResult {
                            kind: to_string("entry"),
                            draft: Some(d),
                            reason: None,
                        },
                    ),
                ),
                Err(e) => Err(e),
            };
        } else if str_eq(call.name.as_str(), "no_entry") {
            pending = Some(no_entry_result(&call.arguments));
        }
        i += 1;
    }
    assert(calls@.skip(calls@.len() as int) =~= Seq::<EntryToolCall>::empty());
    Ok(pending)
}

/// The keywords the keyword writer produced.
pub struct LorebookKeywordDraftResult {
    pub keywords: Vec<String>,
}

/// A call the keyword writer made, with its `keywords` argument.
pub struct KeywordToolCall {
    pub name: String,
    pub keywords: FieldValue,
}

/// The keywords of the first `write_lorebook_keywords` call, if any.
pub open spec fn keyword_calls_result(calls: Seq<KeywordToolCall>) -> Option<Seq<Seq<char>>>
    decreases calls.len(),
{
    if calls.len() == 0 {
        None
    } else if calls[0].name@ == "write_lorebook_keywords"@ {
        Some(normalized_keywords(calls[0].keywords))
    } else {
        keyword_calls_result(calls.drop_first())
    }
}

pub fn result_keywords_from_tool_calls(calls: &Vec<KeywordToolCall>) -> (r: Result<
    Option<LorebookKeywordDraftResult>,
    String,
>)
    ensures
        match r {
            Ok(Some(x)) => keyword_calls_result(calls@) == Some(views(x.keywords@)),
            Ok(None) => keyword_calls_result(calls@) is None,
            Err(_) => false,
        },
{
    let mut i: usize = 0;
    assert(calls@.skip(0) =~= calls@);
    while i < calls.len()
        invariant
            i <= calls@.len(),
            keyword_calls_result(calls@) == keyword_calls_result(calls@.skip(i as int)),
        decreases calls@.len() - i,
    {
        assert(calls@.skip(i as int).drop_first() =~= calls@.skip(i + 1));
        assert(calls@.skip(i as int)[0] == calls@[i as int]);
        if str_eq(calls[i].name.as_str(), "write_lorebook_keywords") {
            let keywords = normalize_keywords(&calls[i].keywords);
            return Ok(Some(LorebookKeywordDraftResult { keywords }));
        }
        i += 1;
    }
    assert(calls@.skip(calls@.len() as int) =~= Seq::<KeywordToolCall>::empty());
    Ok(None)
}

// ------------------------------------------------------------------
// Turning the prompt entries into messages
// ------------------------------------------------------------------

/// A message as its role and content.
pub type MessageView = (Seq<char>, Seq<char>);

pub open spec fn pairs_of(v: Seq<(String, String)>) -> Seq<MessageView> {
    v.map_values(|p: (String, String)| (p.0@, p.1@))
}

pub open spec fn role_name(r: PromptEntryRole, system_role: Seq<char>) -> Seq<char> {
    match r {
        PromptEntryRole::System => system_role,
        PromptEntryRole::User => "user"@,
        PromptEntryRole::Assistant => "assistant"@,
    }
}

pub open spec fn entry_message(e: SystemPromptEntry, system_role: Seq<char>) -> MessageView {
    (role_name(e.role, system_role), trim_seq(e.content@))
}

pub open spec fn is_in_chat(e: SystemPromptEntry) -> bool {
    e.injection_position == PromptEntryPosition::InChat
}

/// The messages of the entries placed before the chat, blank ones left out.
pub open spec fn relative_messages(es: Seq<SystemPromptEntry>, sys: Seq<char>) -> Seq<MessageView>
    decreases es.len(),
{
    if es.len() == 0 {
        seq![]
    } else {
        let rest = relative_messages(es.drop_last(), sys);
        let e = es.last();
        if !is_in_chat(e) && trim_seq(e.content@).len() != 0 {
            rest.push(entry_message(e, sys))
        } else {
            rest
        }
    }
}

/// The entries placed within the chat, in order.
pub open spec fn in_chat(es: Seq<SystemPromptEntry>) -> Seq<SystemPromptEntry>
    decreases es.len(),
{
    if es.len() == 0 {
        seq![]
    } else if is_in_chat(es.last()) {
        in_chat(es.drop_last()).push(es.last())
    } else {
        in_chat(es.drop_last())
    }
}

/// The in-chat entries that are to be inserted, each with the position
/// `depth` messages from the end of the `base` messages before the chat.
pub open spec fn chosen(ins: Seq<SystemPromptEntry>, flags: Seq<bool>, base: int) -> Seq<
    (int, SystemPromptEntry),
>
    decreases ins.len(),
{
    if ins.len() == 0 {
        seq![]
    } else {
        let rest = chosen(ins.drop_last(), flags, base);
        let e = ins.last();
        if flags[ins.len() - 1] {
            rest.push(
                (
                    if base - e.injection_depth > 0 {
                        base - e.injection_depth
                    } else {
                        0
                    },
                    e,
                ),
            )
        } else {
            rest
        }
    }
}

/// The items at position `p`, in order.
pub open spec fn at_position(items: Seq<(int, SystemPromptEntry)>, p: int) -> Seq<
    (int, SystemPromptEntry),
>
    decreases items.len(),
{
    if items.len() == 0 {
        seq![]
    } else if items.last().0 == p {
        at_position(items.drop_last(), p).push(items.last())
    } else {
        at_position(items.drop_last(), p)
    }
}

/// The items ordered by position, those at one position in their order:
/// positions `p` to `hi`.
pub open spec fn by_position(items: Seq<(int, SystemPromptEntry)>, p: int, hi: int) -> Seq<
    (int, SystemPromptEntry),
>
    decreases hi - p + 1,
{
    if p > hi {
        seq![]
    } else {
        at_position(items, p) + by_position(items, p + 1, hi)
    }
}

/// The messages with the ordered insertions made: the `k`-th goes at its
/// position plus `k` (or at the end), and a blank one is skipped while
/// still counted.
pub open spec fn with_inserts(
    msgs: Seq<MessageView>,
    ordered: Seq<(int, SystemPromptEntry)>,
    sys: Seq<char>,
) -> Seq<MessageView>
    decreases ordered.len(),
{
    if ordered.len() == 0 {
        msgs
    } else {
        let prev = with_inserts(msgs, ordered.drop_last(), sys);
        let k = ordered.len() - 1;
        let (pos, e) = ordered.last();
        if trim_seq(e.content@).len() == 0 {
            prev
        } else {
            let at = if pos + k < prev.len() {
                pos + k
            } else {
                prev.len() as int
            };
            prev.insert(at, entry_message(e, sys))
        }
    }
}

/// The messages for the writer: the entries before the chat, the in-chat
/// entries chosen by `flags` inserted by depth, then the instruction.
pub open spec fn entry_messages(
    es: Seq<SystemPromptEntry>,
    flags: Seq<bool>,
    sys: Seq<char>,
    instruction: Seq<char>,
) -> Seq<MessageView> {
    let base = relative_messages(es, sys);
    let items = chosen(in_chat(es), flags, base.len() as int);
    with_inserts(base, by_position(items, 0, base.len() as int), sys).push(
        ("user"@, instruction),
    )
}

fn role_text(r: PromptEntryRole, system_role: &str) -> (s: String)
    ensures
        s@ == role_name(r, system_role@),
{
    match r {
        PromptEntryRole::System => to_string(system_role),
        PromptEntryRole::User => to_string("user"),
        PromptEntryRole::Assistant => to_string("assistant"),
    }
}

proof fn lemma_at_position_len(items: Seq<(int, SystemPromptEntry)>, p: int)
    ensures
        at_position(items, p).len() <= items.len(),
    decreases items.len(),
{
    if items.len() > 0 {
        lemma_at_position_len(items.drop_last(), p);
    }
}

/// The in-chat entries placed in the chat: `insert_in_chat` says, for each
/// in-chat entry in order, whether its conditions let it in.
pub fn prompt_entries_to_messages_with_instruction(
    system_role: &str,
    entries: &Vec<SystemPromptEntry>,
    insert_in_chat: &Vec<bool>,
    final_instruction: &str,
) -> (r: Vec<(String, String)>)
    requires
        insert_in_chat@.len() == in_chat(entries@).len(),
        entries@.len() < usize::MAX,
    ensures
        pairs_of(r@) == entry_messages(
            entries@,
            insert_in_chat@,
            system_role@,
            final_instruction@,
        ),
{
    let ghost sys = system_role@;
    let mut msgs: Vec<(String, String)> = Vec::new();
    let mut i: usize = 0;
    while i < entries.len()
        invariant
            i <= entries@.len(),
            sys == system_role@,
            pairs_of(msgs@) == relative_messages(entries@.take(i as int), sys),
            msgs@.len() <= i,
        decreases entries@.len() - i,
    {
        assert(entries@.take(i + 1).drop_last() =~= entries@.take(i as int));
        let e = &entries[i];
        if e.injection_position != PromptEntryPosition::InChat && !is_blank(e.content.as_str()) {
            let ghost before = pairs_of(msgs@);
            let m = (role_text(e.role, system_role), trim(e.content.as_str()));
            msgs.push(m);
            assert(pairs_of(msgs@) =~= before.push(entry_message(entries@[i as int], sys)));
        }
        i += 1;
    }
    assert(entries@.take(entries@.len() as int) =~= entries@);
    let base = msgs.len();
    let ghost base_msgs = pairs_of(msgs@);
    // The chosen in-chat entries as (position, index into `entries`).
    let mut items: Vec<(usize, usize)> = Vec::new();
    let mut k: usize = 0;
    let mut i: usize = 0;
    while i < entries.len()
        invariant
            i <= entries@.len(),
            base <= entries@.len(),
            k == in_chat(entries@.take(i as int)).len(),
            k <= i,
            insert_in_chat@.len() == in_chat(entries@).len(),
            in_chat(entries@.take(i as int)) == in_chat(entries@).take(k as int),
            items@.len() <= k,
            items@.map_values(|it: (usize, usize)| (it.0 as int, entries@[it.1 as int]))
                == chosen(in_chat(entries@.take(i as int)), insert_in_chat@, base as int),
            forall|m: int| 0 <= m < items@.len() ==> #[trigger] items@[m].1 < entries@.len() && items@[m].0 <= base,
        decreases entries@.len() - i,
    {
        assert(entries@.take(i + 1).drop_last() =~= entries@.take(i as int));
        proof {
            lemma_in_chat_prefix(entries@, i as int);
            lemma_in_chat_take(entries@, i + 1);
        }
        let e = &entries[i];
        if e.injection_position == PromptEntryPosition::InChat {
            let ghost ic = in_chat(entries@.take(i + 1));
            assert(ic.drop_last() == in_chat(entries@.take(i as int)));
            if insert_in_chat[k] {
                let depth = e.injection_depth as usize;
                let pos = if base > depth {
                    base - depth
                } else {
                    0
                };
                let ghost before = items@.map_values(
                    |it: (usize, usize)| (it.0 as int, entries@[it.1 as int]),
                );
                items.push((pos, i));
                assert(items@.map_values(|it: (usize, usize)| (it.0 as int, entries@[it.1 as int]))
                    =~= before.push((pos as int, entries@[i as int])));
            }
            k += 1;
        }
        i += 1;
    }
    assert(entries@.take(entries@.len() as int) =~= entries@);
    let ghost all_items = items@.map_values(
        |it: (usize, usize)| (it.0 as int, entries@[it.1 as int]),
    );
    // Ordered by position, those at one position in their order.
    let mut ordered: Vec<(usize, usize)> = Vec::new();
    let mut p: usize = 0;
    while p <= base
        invariant
            p <= base + 1,
            base <= entries@.len(),
            entries@.len() < usize::MAX,
            all_items == items@.map_values(|it: (usize, usize)| (it.0 as int, entries@[it.1 as int])),
            forall|m: int| 0 <= m < items@.len() ==> #[trigger] items@[m].1 < entries@.len() && items@[m].0 <= base,
            forall|m: int| 0 <= m < ordered@.len() ==> #[trigger] ordered@[m].1 < entries@.len(),
            ordered@.map_values(|it: (usize, usize)| (it.0 as int, entries@[it.1 as int]))
                + by_position(all_items, p as int, base as int) == by_position(
                all_items,
                0,
                base as int,
            ),
        decreases base + 1 - p,
    {
        let ghost before = ordered@.map_values(
            |it: (usize, usize)| (it.0 as int, entries@[it.1 as int]),
        );
        let mut m: usize = 0;
        while m < items.len()
            invariant
                m <= items@.len(),
                all_items == items@.map_values(|it: (usize, usize)| (it.0 as int, entries@[it.1 as int])),
                forall|q: int| 0 <= q < items@.len() ==> #[trigger] items@[q].1 < entries@.len(),
                forall|q: int| 0 <= q < ordered@.len() ==> #[trigger] ordered@[q].1 < entries@.len(),
                ordered@.map_values(|it: (usize, usize)| (it.0 as int, entries@[it.1 as int])) == before
                    + at_position(all_items.take(m as int), p as int),
            decreases items@.len() - m,
        {
            assert(all_items.take(m + 1).drop_last() =~= all_items.take(m as int));
            assert(all_items.take(m + 1).last() == all_items[m as int]);
            if items[m].0 == p {
                let ghost b2 = ordered@.map_values(
                    |it: (usize, usize)| (it.0 as int, entries@[it.1 as int]),
                );
                ordered.push(items[m]);
                assert(ordered@.map_values(|it: (usize, usize)| (it.0 as int, entries@[it.1 as int]))
                    =~= b2.push(all_items[m as int]));
            }
            m += 1;
        }
        assert(all_items.take(items@.len() as int) =~= all_items);
        assert(by_position(all_items, p as int, base as int) == at_position(all_items, p as int)
            + by_position(all_items, p + 1, base as int));
        p += 1;
    }
    let ghost ord = ordered@.map_values(|it: (usize, usize)| (it.0 as int, entries@[it.1 as int]));
    assert(by_position(all_items, p as int, base as int) =~= Seq::<(int, SystemPromptEntry)>::empty());
    assert(ord =~= by_position(all_items, 0, base as int));
    // Insert them.
    let mut j: usize = 0;
    while j < ordered.len()
        invariant
            j <= ordered@.len(),
            sys == system_role@,
            ord == ordered@.map_values(|it: (usize, usize)| (it.0 as int, entries@[it.1 as int])),
            forall|q: int| 0 <= q < ordered@.len() ==> #[trigger] ordered@[q].1 < entries@.len(),
            pairs_of(msgs@) == with_inserts(base_msgs, ord.take(j as int), sys),
        decreases ordered@.len() - j,
    {
        assert(ord.take(j + 1).drop_last() =~= ord.take(j as int));
        assert(ord.take(j + 1).last() == ord[j as int]);
        let (pos, idx) = ordered[j];
        let e = &entries[idx];
        if !is_blank(e.content.as_str()) {
            let at = if pos < msgs.len() && j < msgs.len() - pos {
                pos + j
            } else {
                msgs.len()
            };
            let ghost before = pairs_of(msgs@);
            let m = (role_text(e.role, system_role), trim(e.content.as_str()));
            msgs.insert(at, m);
            assert(pairs_of(msgs@) =~= before.insert(at as int, entry_message(entries@[idx as int], sys)));
        }
        j += 1;
    }
    assert(ord.take(ordered@.len() as int) =~= ord);
    let ghost before = pairs_of(msgs@);
    msgs.push((to_string("user"), to_string(final_instruction)));
    assert(pairs_of(msgs@) =~= before.push(("user"@, final_instruction@)));
    msgs
}

/// Taking one more entry adds it to the in-chat list when it is in-chat.
proof fn lemma_in_chat_prefix(es: Seq<SystemPromptEntry>, i: int)
    requires
        0 <= i < es.len(),
    ensures
        in_chat(es.take(i + 1)) == if is_in_chat(es[i]) {
            in_chat(es.take(i)).push(es[i])
        } else {
            in_chat(es.take(i))
        },
{
    assert(es.take(i + 1).drop_last() =~= es.take(i));
    assert(es.take(i + 1).last() == es[i]);
}

/// The in-chat entries of a prefix are a prefix of the in-chat entries.
proof fn lemma_in_chat_take(es: Seq<SystemPromptEntry>, i: int)
    requires
        0 <= i <= es.len(),
    ensures
        in_chat(es.take(i)) == in_chat(es).take(in_chat(es.take(i)).len() as int),
        in_chat(es.take(i)).len() <= in_chat(es).len(),
    decreases es.len() - i,
{
    if i < es.len() {
        lemma_in_chat_take(es, i + 1);
        lemma_in_chat_prefix(es, i);
        let a = in_chat(es.take(i));
        let b = in_chat(es.take(i + 1));
        let all = in_chat(es);
        if is_in_chat(es[i]) {
            assert(b == a.push(es[i]));
            assert(all.take(a.len() as int) =~= b.take(a.len() as int));
            assert(b.take(a.len() as int) =~= a);
        }
    } else {
        assert(es.take(i) =~= es);
        assert(in_chat(es).take(in_chat(es).len() as int) =~= in_chat(es));
    }
}

/// What the writer is asked to read.
#[derive(Clone, Copy, Debug, PartialEq, Eq, Structural)]
pub enum LorebookEntrySource {
    Messages,
    Memory,
    Mixed,
}

pub const MESSAGES_INSTRUCTION: &'static str =
    "Analyze the selected transcript and return exactly one result now. Use the write_lorebook_entry tool when there is a durable lorebook entry to create. Use no_entry when there is not.";

pub const MESSAGES_INSTRUCTION_FORCE: &'static str =
    "Analyze the selected transcript and return exactly one result now. You MUST call write_lorebook_entry. The no_entry option is disabled — produce the best possible durable lorebook entry even if facts seem weak or already covered.";

pub const MEMORY_INSTRUCTION: &'static str =
    "Analyze the dynamic memory context summary and the selected memories, then return exactly one result now. Use the write_lorebook_entry tool when there is a durable lorebook entry to create. Use no_entry when there is not.";

pub const MEMORY_INSTRUCTION_FORCE: &'static str =
    "Analyze the dynamic memory context summary and the selected memories, then return exactly one result now. You MUST call write_lorebook_entry. The no_entry option is disabled — produce the best possible durable lorebook entry even if the memories seem weak or already covered.";

pub const MIXED_INSTRUCTION: &'static str =
    "Analyze every provided input section that is not marked (none) — selected messages, dynamic memory context summary, and selected memories — and return exactly one result now. Use the write_lorebook_entry tool when there is a durable lorebook entry to create. Use no_entry when there is not.";

pub const MIXED_INSTRUCTION_FORCE: &'static str =
    "Analyze every provided input section that is not marked (none) — selected messages, dynamic memory context summary, and selected memories — and return exactly one result now. You MUST call write_lorebook_entry. The no_entry option is disabled — produce the best possible durable lorebook entry even if facts seem weak or already covered.";

/// The closing instruction for a source; with `force` declining is not
/// offered.
pub open spec fn final_instruction(source: LorebookEntrySource, force: bool) -> &'static str {
    match (source, force) {
        (LorebookEntrySource::Messages, false) => MESSAGES_INSTRUCTION,
        (LorebookEntrySource::Messages, true) => MESSAGES_INSTRUCTION_FORCE,
        (LorebookEntrySource::Memory, false) => MEMORY_INSTRUCTION,
        (LorebookEntrySource::Memory, true) => MEMORY_INSTRUCTION_FORCE,
        (LorebookEntrySource::Mixed, false) => MIXED_INSTRUCTION,
        (LorebookEntrySource::Mixed, true) => MIXED_INSTRUCTION_FORCE,
    }
}

pub fn prompt_entries_to_messages(
    system_role: &str,
    entries: &Vec<SystemPromptEntry>,
    insert_in_chat: &Vec<bool>,
    force: bool,
    source: LorebookEntrySource,
) -> (r: Vec<(String, String)>)
    requires
        insert_in_chat@.len() == in_chat(entries@).len(),
        entries@.len() < usize::MAX,
    ensures
        pairs_of(r@) == entry_messages(
            entries@,
            insert_in_chat@,
            system_role@,
            final_instruction(source, force)@,
        ),
{
    let instruction = match (source, force) {
        (LorebookEntrySource::Messages, false) => MESSAGES_INSTRUCTION,
        (LorebookEntrySource::Messages, true) => MESSAGES_INSTRUCTION_FORCE,
        (LorebookEntrySource::Memory, false) => MEMORY_INSTRUCTION,
        (LorebookEntrySource::Memory, true) => MEMORY_INSTRUCTION_FORCE,
        (LorebookEntrySource::Mixed, false) => MIXED_INSTRUCTION,
        (LorebookEntrySource::Mixed, true) => MIXED_INSTRUCTION_FORCE,
    };
    prompt_entries_to_messages_with_instruction(system_role, entries, insert_in_chat, instruction)
}

// ------------------------------------------------------------------
// The structured fallback: JSON instead of tool calls
// ------------------------------------------------------------------

/// The JSON text of a fallback answer: the answer without code fences, cut
/// down to the first balanced object or array when there is one.
pub open spec fn fallback_json_text_of(raw: Seq<char>) -> Seq<char> {
    match json_snippet(unfenced(raw)) {
        Some(s) => s,
        None => unfenced(raw),
    }
}

pub fn fallback_json_text(raw: &str) -> (r: String)
    ensures
        r@ == fallback_json_text_of(raw@),
{
    let normalized = normalize_structured_fallback_text(raw);
    match extract_json_snippet(normalized.as_str()) {
        Some(s) => s,
        None => normalized,
    }
}

/// The arguments of a call read from a JSON value.
pub open spec fn arguments_read_from(a: EntryArguments, v: JsonValue) -> bool {
    &&& a.is_object == (v is Object)
    &&& reads_as(a.title, json_get(v, "title"@))
    &&& reads_as(a.content, json_get(v, "content"@))
    &&& reads_as(a.always_active_camel, json_get(v, "alwaysActive"@))
    &&& reads_as(a.always_active_snake, json_get(v, "always_active"@))
    &&& reads_as(a.keywords, json_get(v, "keywords"@))
    &&& reads_as(a.reason, json_get(v, "reason"@))
}

pub fn entry_arguments_of(v: &JsonValue) -> (r: EntryArguments)
    ensures
        arguments_read_from(r, *v),
{
    let is_object = match v {
        JsonValue::Object(_) => true,
        _ => false,
    };
    EntryArguments {
        is_object,
        title: field_from(get(v, "title")),
        content: field_from(get(v, "content")),
        always_active_camel: field_from(get(v, "alwaysActive")),
        always_active_snake: field_from(get(v, "always_active")),
        keywords: field_from(get(v, "keywords")),
        reason: field_from(get(v, "reason")),
    }
}

/// The keywords a JSON member gives.
pub open spec fn json_keywords(v: Option<JsonValue>) -> Seq<Seq<char>> {
    let all = match v {
        Some(JsonValue::Array(items)) => dedup_keywords(item_texts(items@)),
        Some(JsonValue::String(s)) => if trim_seq(s@).len() != 0 {
            seq![trim_seq(s@)]
        } else {
            seq![]
        },
        _ => seq![],
    };
    if all.len() > MAX_GENERATED_KEYWORDS {
        all.take(MAX_GENERATED_KEYWORDS as int)
    } else {
        all
    }
}

/// A flag under its camel-case name, or its snake-case name when the first
/// is absent.
pub open spec fn json_aliased_flag(v: JsonValue, camel: Seq<char>, snake: Seq<char>) -> bool {
    match json_get(v, camel) {
        None => match json_get(v, snake) {
            Some(JsonValue::Bool(b)) => b,
            _ => false,
        },
        Some(JsonValue::Bool(b)) => b,
        _ => false,
    }
}

/// The draft a `write_lorebook_entry` argument object describes.
pub open spec fn json_entry_draft(a: JsonValue) -> Result<DraftView, Seq<char>> {
    if !(a is Object) {
        Err("write_lorebook_entry arguments must be an object"@)
    } else {
        match trimmed_str(json_get(a, "title"@)) {
            None => Err("write_lorebook_entry is missing a non-empty title"@),
            Some(title) => match trimmed_str(json_get(a, "content"@)) {
                None => Err("write_lorebook_entry is missing non-empty content"@),
                Some(content) => Ok(
                    (
                        title,
                        json_keywords(json_get(a, "keywords"@)),
                        content,
                        json_aliased_flag(a, "alwaysActive"@, "always_active"@),
                    ),
                ),
            },
        }
    }
}

proof fn lemma_required_text_read(f: FieldValue, v: Option<JsonValue>)
    requires
        reads_as(f, v),
    ensures
        required_text(f) == trimmed_str(v),
{
}

proof fn lemma_keywords_read(f: FieldValue, v: Option<JsonValue>)
    requires
        reads_as(f, v),
    ensures
        normalized_keywords(f) == json_keywords(v),
{
    match f {
        FieldValue::List(l) => {
            assert(items_view(l@) =~= opt_texts(l@));
        },
        _ => {},
    }
}

/// Reading the arguments first and then the draft is reading the draft.
pub proof fn lemma_entry_draft_read(a: EntryArguments, v: JsonValue)
    requires
        arguments_read_from(a, v),
    ensures
        entry_draft(a) == json_entry_draft(v),
{
    lemma_required_text_read(a.title, json_get(v, "title"@));
    lemma_required_text_read(a.content, json_get(v, "content"@));
    lemma_keywords_read(a.keywords, json_get(v, "keywords"@));
}

/// The object a fallback answer keeps its result in: under `result`, else
/// under `response`, else the answer itself.
pub open spec fn result_node(v: JsonValue) -> JsonValue {
    match json_get(v, "result"@) {
        Some(x) => x,
        None => match json_get(v, "response"@) {
            Some(x) => x,
            None => v,
        },
    }
}

/// The first of `name`, `tool` and `action` that is present.
pub open spec fn name_member(node: JsonValue) -> Option<JsonValue> {
    match json_get(node, "name"@) {
        Some(x) => Some(x),
        None => match json_get(node, "tool"@) {
            Some(x) => Some(x),
            None => json_get(node, "action"@),
        },
    }
}

/// The name of the result, trimmed and non-blank.
pub open spec fn result_name(v: JsonValue) -> Result<Seq<char>, Seq<char>> {
    let node = result_node(v);
    if !(node is Object) {
        Err("fallback JSON result must be an object"@)
    } else {
        match trimmed_str(name_member(node)) {
            Some(n) => Ok(n),
            None => Err("fallback JSON result is missing a name"@),
        }
    }
}

/// The arguments of the result; an empty object when there are none.
pub open spec fn result_arguments(v: JsonValue) -> Option<JsonValue> {
    json_get(result_node(v), "arguments"@)
}

pub open spec fn unsupported(name: Seq<char>) -> Seq<char> {
    "fallback JSON returned unsupported result '"@ + name + "'"@
}

/// The decision a parsed fallback answer states.
pub open spec fn fallback_entry_result_of(v: JsonValue) -> Result<ResultView, Seq<char>> {
    match result_name(v) {
        Err(e) => Err(e),
        Ok(name) => if name == "write_lorebook_entry"@ {
            match result_arguments(v) {
                Some(a) => match json_entry_draft(a) {
                    Ok(d) => Ok(("entry"@, Some(d), None)),
                    Err(e) => Err(e),
                },
                None => Err("write_lorebook_entry is missing a non-empty title"@),
            }
        } else if name == "no_entry"@ {
            Ok(
                (
                    "none"@,
                    None,
                    Some(
                        match result_arguments(v) {
                            Some(a) => match trimmed_str(json_get(a, "reason"@)) {
                                Some(r) => r,
                                None => "The selected messages do not establish durable lore."@,
                            },
                            None => "The selected messages do not establish durable lore."@,
                        },
                    ),
                ),
            )
        } else {
            Err(unsupported(name))
        },
    }
}

fn result_node_exec(v: &JsonValue) -> (r: &JsonValue)
    ensures
        *r == result_node(*v),
{
    match get(v, "result") {
        Some(x) => x,
        None => match get(v, "response") {
            Some(x) => x,
            None => v,
        },
    }
}

fn result_name_exec(v: &JsonValue) -> (r: Result<String, String>)
    ensures
        match r {
            Ok(n) => result_name(*v) == Ok::<Seq<char>, Seq<char>>(n@),
            Err(e) => result_name(*v) == Err::<Seq<char>, Seq<char>>(e@),
        },
{
    let node = result_node_exec(v);
    match node {
        JsonValue::Object(_) => {},
        _ => {
            return Err(to_string("fallback JSON result must be an object"));
        },
    }
    let member = match get(node, "name") {
        Some(x) => Some(x),
        None => match get(node, "tool") {
            Some(x) => Some(x),
            None => get(node, "action"),
        },
    };
    assert(deref_opt(member) == name_member(*node));
    match trimmed_str_exec(member) {
        Some(n) => Ok(n),
        None => Err(to_string("fallback JSON result is missing a name")),
    }
}

fn unsupported_exec(name: &str) -> (r: String)
    ensures
        r@ == unsupported(name@),
{
    let mut m = to_string("fallback JSON returned unsupported result '");
    m.append(name);
    m.append("'");
    m
}

/// The writer's decision from its parsed fallback answer.
pub fn fallback_entry_result(value: &JsonValue) -> (r: Result<LorebookEntryDraftResult, String>)
    ensures
        match r {
            Ok(x) => fallback_entry_result_of(*value) == Ok::<ResultView, Seq<char>>(
                result_view(x),
            ),
            Err(e) => fallback_entry_result_of(*value) == Err::<ResultView, Seq<char>>(e@),
        },
{
    let name = result_name_exec(value)?;
    let arguments = get(result_node_exec(value), "arguments");
    if str_eq(name.as_str(), "write_lorebook_entry") {
        match arguments {
            Some(a) => {
                let args = entry_arguments_of(a);
                proof {
                    lemma_entry_draft_read(args, *a);
                }
                match normalize_entry_draft(&args) {
                    Ok(d) => Ok(
                        LorebookEntryDraftResult {
                            kind: to_string("entry"),
                            draft: Some(d),
                            reason: None,
                        },
                    ),
                    Err(e) => Err(e),
                }
            },
            None => Err(to_string("write_lorebook_entry is missing a non-empty title")),
        }
    } else if str_eq(name.as_str(), "no_entry") {
        let reason = match arguments {
            Some(a) => match trimmed_str_exec(get(a, "reason")) {
                Some(r) => r,
                None => to_string("The selected messages do not establish durable lore."),
            },
            None => to_string("The selected messages do not establish durable lore."),
        };
        Ok(LorebookEntryDraftResult { kind: to_string("none"), draft: None, reason: Some(reason) })
    } else {
        Err(unsupported_exec(name.as_str()))
    }
}

/// The keywords from the keyword writer's parsed fallback answer.
pub open spec fn fallback_keyword_result_of(v: JsonValue) -> Result<Seq<Seq<char>>, Seq<char>> {
    match result_name(v) {
        Err(e) => Err(e),
        Ok(name) => if name != "write_lorebook_keywords"@ {
            Err(unsupported(name))
        } else {
            Ok(
                match result_arguments(v) {
                    Some(a) => json_keywords(json_get(a, "keywords"@)),
                    None => seq![],
                },
            )
        },
    }
}

pub fn fallback_keyword_result(value: &JsonValue) -> (r: Result<LorebookKeywordDraftResult, String>)
    ensures
        match r {
            Ok(x) => fallback_keyword_result_of(*value) == Ok::<Seq<Seq<char>>, Seq<char>>(
                views(x.keywords@),
            ),
            Err(e) => fallback_keyword_result_of(*value) == Err::<Seq<Seq<char>>, Seq<char>>(e@),
        },
{
    let name = result_name_exec(value)?;
    if !str_eq(name.as_str(), "write_lorebook_keywords") {
        return Err(unsupported_exec(name.as_str()));
    }
    let keywords = match get(result_node_exec(value), "arguments") {
        Some(a) => {
            let f = field_from(get(a, "keywords"));
            proof {
                lemma_keywords_read(f, json_get(*a, "keywords"@));
            }
            normalize_keywords(&f)
        },
        None => {
            let e: Vec<String> = Vec::new();
            assert(views(e@) =~= Seq::<Seq<char>>::empty());
            e
        },
    };
    Ok(LorebookKeywordDraftResult { keywords })
}

// ------------------------------------------------------------------
// Checking a draft request
// ------------------------------------------------------------------

/// The trimmed text, or `default` when it is missing or blank.
pub open spec fn trimmed_or(o: Option<Seq<char>>, default: Seq<char>) -> Seq<char> {
    match o {
        Some(t) => if trim_seq(t).len() != 0 {
            trim_seq(t)
        } else {
            default
        },
        None => default,
    }
}

pub open spec fn str_opt_view(o: Option<&str>) -> Option<Seq<char>> {
    match o {
        Some(t) => Some(t@),
        None => None,
    }
}

pub fn trimmed_or_default(o: Option<&str>, default: &str) -> (r: String)
    ensures
        r@ == trimmed_or(str_opt_view(o), default@),
{
    match o {
        Some(t) => if is_blank(t) {
            to_string(default)
        } else {
            trim(t)
        },
        None => to_string(default),
    }
}

/// What a draft reads, by the name the request gives (trimmed, `messages`
/// when absent): memories for `memory`, `memories` or `dynamic_memory`,
/// both for `mixed`, `both` or `all`, messages otherwise.
pub open spec fn entry_source_of(source: Option<Seq<char>>) -> LorebookEntrySource {
    let s = match source {
        Some(t) => trim_seq(t),
        None => "messages"@,
    };
    if s == "memory"@ || s == "memories"@ || s == "dynamic_memory"@ {
        LorebookEntrySource::Memory
    } else if s == "mixed"@ || s == "both"@ || s == "all"@ {
        LorebookEntrySource::Mixed
    } else {
        LorebookEntrySource::Messages
    }
}

pub fn lorebook_entry_source(source: Option<&str>) -> (r: LorebookEntrySource)
    ensures
        r == entry_source_of(str_opt_view(source)),
{
    let s = match source {
        Some(t) => trim(t),
        None => to_string("messages"),
    };
    let t = s.as_str();
    if str_eq(t, "memory") || str_eq(t, "memories") || str_eq(t, "dynamic_memory") {
        LorebookEntrySource::Memory
    } else if str_eq(t, "mixed") || str_eq(t, "both") || str_eq(t, "all") {
        LorebookEntrySource::Mixed
    } else {
        LorebookEntrySource::Messages
    }
}

/// The checks made before anything is loaded: a lorebook and a session
/// must be named, and a draft from messages needs some selected.
pub open spec fn entry_request_check(
    lorebook_id: Seq<char>,
    session_id: Seq<char>,
    source: LorebookEntrySource,
    message_ids: nat,
) -> Result<(), Seq<char>> {
    if trim_seq(lorebook_id).len() == 0 {
        Err("lorebookId cannot be empty"@)
    } else if trim_seq(session_id).len() == 0 {
        Err("sessionId cannot be empty"@)
    } else if source == LorebookEntrySource::Messages && message_ids == 0 {
        Err("At least one message must be selected"@)
    } else {
        Ok(())
    }
}

pub open spec fn unit_result_view(r: Result<(), String>) -> Result<(), Seq<char>> {
    match r {
        Ok(()) => Ok(()),
        Err(e) => Err(e@),
    }
}

pub fn check_entry_draft_request(
    lorebook_id: &str,
    session_id: &str,
    source: LorebookEntrySource,
    message_ids: usize,
) -> (r: Result<(), String>)
    ensures
        unit_result_view(r) == entry_request_check(lorebook_id@, session_id@, source, message_ids as nat),
{
    if is_blank(lorebook_id) {
        Err(to_string("lorebookId cannot be empty"))
    } else if is_blank(session_id) {
        Err(to_string("sessionId cannot be empty"))
    } else if source == LorebookEntrySource::Messages && message_ids == 0 {
        Err(to_string("At least one message must be selected"))
    } else {
        Ok(())
    }
}

/// The context summary a draft reads: the session's trimmed summary when
/// memories are read and the summary is included (it is unless turned
/// off), `(none)` otherwise.
pub open spec fn summary_text_of(source: LorebookEntrySource, include_summary: Option<bool>, summary: Option<
    Seq<char>,
>) -> Seq<char> {
    let memory_enabled = source != LorebookEntrySource::Messages;
    let inc = match include_summary {
        Some(b) => b,
        None => true,
    };
    if memory_enabled && inc {
        trimmed_or(summary, "(none)"@)
    } else {
        "(none)"@
    }
}

pub fn memory_summary_text(source: LorebookEntrySource, include_summary: Option<bool>, summary: Option<&str>) -> (r:
    String)
    ensures
        r@ == summary_text_of(source, include_summary, str_opt_view(summary)),
{
    let inc = match include_summary {
        Some(b) => b,
        None => true,
    };
    if source != LorebookEntrySource::Messages && inc {
        trimmed_or_default(summary, "(none)")
    } else {
        to_string("(none)")
    }
}

/// The checks made once the selection is loaded: messages were found for
/// a draft from messages, and a draft from memories or from both has
/// something to read.
pub open spec fn entry_context_check(
    source: LorebookEntrySource,
    requested_messages: nat,
    loaded_messages: nat,
    memories_text: Seq<char>,
    summary_text: Seq<char>,
) -> Result<(), Seq<char>> {
    if source == LorebookEntrySource::Messages && requested_messages > 0 && loaded_messages == 0 {
        Err("No selected messages were found for this session"@)
    } else if source == LorebookEntrySource::Memory && memories_text == "(none)"@ && summary_text
        == "(none)"@ {
        Err("Select at least one memory or ensure a context summary is available"@)
    } else if source == LorebookEntrySource::Mixed && (requested_messages == 0 || loaded_messages
        == 0) && memories_text == "(none)"@ && summary_text == "(none)"@ {
        Err("Select at least one message or memory, or include the context summary"@)
    } else {
        Ok(())
    }
}

pub fn check_entry_draft_context(
    source: LorebookEntrySource,
    requested_messages: usize,
    loaded_messages: usize,
    memories_text: &str,
    summary_text: &str,
) -> (r: Result<(), String>)
    ensures
        unit_result_view(r) == entry_context_check(
            source,
            requested_messages as nat,
            loaded_messages as nat,
            memories_text@,
            summary_text@,
        ),
{
    let none_memories = str_eq(memories_text, "(none)");
    let none_summary = str_eq(summary_text, "(none)");
    if source == LorebookEntrySource::Messages && requested_messages > 0 && loaded_messages == 0 {
        Err(to_string("No selected messages were found for this session"))
    } else if source == LorebookEntrySource::Memory && none_memories && none_summary {
        Err(to_string("Select at least one memory or ensure a context summary is available"))
    } else if source == LorebookEntrySource::Mixed && (requested_messages == 0 || loaded_messages
        == 0) && none_memories && none_summary {
        Err(to_string("Select at least one message or memory, or include the context summary"))
    } else {
        Ok(())
    }
}

/// The entry text a keyword draft reads: trimmed, and not empty.
pub open spec fn keyword_content_check(content: Seq<char>) -> Result<Seq<char>, Seq<char>> {
    if trim_seq(content).len() == 0 {
        Err("content cannot be empty"@)
    } else {
        Ok(trim_seq(content))
    }
}

pub fn check_keyword_draft_content(content: &str) -> (r: Result<String, String>)
    ensures
        match r {
            Ok(t) => keyword_content_check(content@) == Ok::<Seq<char>, Seq<char>>(t@),
            Err(e) => keyword_content_check(content@) == Err::<Seq<char>, Seq<char>>(e@),
        },
{
    if is_blank(content) {
        Err(to_string("content cannot be empty"))
    } else {
        Ok(trim(content))
    }
}

// ------------------------------------------------------------------
// Reading a JSON fallback answer
// ------------------------------------------------------------------

/// The JSON value of a fallback answer (see `fallback_json_text_of`), or
/// the parse error.
pub open spec fn fallback_json_of(raw: Seq<char>) -> Result<JsonValue, Seq<char>> {
    match json_text_result(fallback_json_text_of(raw)) {
        Ok(v) => Ok(v),
        Err(e) => Err("fallback JSON parse error: "@ + e),
    }
}

pub fn parse_fallback_json(raw: &str) -> (r: Result<JsonValue, String>)
    ensures
        match r {
            Ok(v) => fallback_json_of(raw@) == Ok::<JsonValue, Seq<char>>(v),
            Err(e) => fallback_json_of(raw@) == Err::<JsonValue, Seq<char>>(e@),
        },
{
    let text = fallback_json_text(raw);
    match parse_json_result(text.as_str()) {
        Ok(v) => Ok(v),
        Err(e) => {
            let mut m = to_string("fallback JSON parse error: ");
            m.append(e.as_str());
            Err(m)
        },
    }
}

/// A lorebook entry the model wrote as JSON.
pub open spec fn fallback_json_entry_of(raw: Seq<char>) -> Result<ResultView, Seq<char>> {
    match fallback_json_of(raw) {
        Ok(v) => fallback_entry_result_of(v),
        Err(e) => Err(e),
    }
}

pub fn parse_fallback_json_result(raw: &str) -> (r: Result<LorebookEntryDraftResult, String>)
    ensures
        match r {
            Ok(x) => fallback_json_entry_of(raw@) == Ok::<ResultView, Seq<char>>(result_view(x)),
            Err(e) => fallback_json_entry_of(raw@) == Err::<ResultView, Seq<char>>(e@),
        },
{
    match parse_fallback_json(raw) {
        Ok(v) => fallback_entry_result(&v),
        Err(e) => Err(e),
    }
}

/// Lorebook keywords the model wrote as JSON.
pub open spec fn fallback_json_keywords_of(raw: Seq<char>) -> Result<Seq<Seq<char>>, Seq<char>> {
    match fallback_json_of(raw) {
        Ok(v) => fallback_keyword_result_of(v),
        Err(e) => Err(e),
    }
}

pub fn parse_keyword_fallback_json_result(raw: &str) -> (r: Result<LorebookKeywordDraftResult, String>)
    ensures
        match r {
            Ok(x) => fallback_json_keywords_of(raw@) == Ok::<Seq<Seq<char>>, Seq<char>>(
                views(x.keywords@),
            ),
            Err(e) => fallback_json_keywords_of(raw@) == Err::<Seq<Seq<char>>, Seq<char>>(e@),
        },
{
    match parse_fallback_json(raw) {
        Ok(v) => fallback_keyword_result(&v),
        Err(e) => Err(e),
    }
}

/// A lorebook entry the model wrote in the format it was asked for.
pub open spec fn fallback_entry_of(
    raw: Seq<char>,
    format: StructuredFallbackFormat,
) -> Result<ResultView, Seq<char>> {
    match format {
        StructuredFallbackFormat::Json => fallback_json_entry_of(raw),
        StructuredFallbackFormat::Xml => fallback_xml_entry_of(raw),
    }
}

pub fn parse_fallback_result(raw: &str, format: StructuredFallbackFormat) -> (r: Result<
    LorebookEntryDraftResult,
    String,
>)
    ensures
        match r {
            Ok(x) => fallback_entry_of(raw@, format) == Ok::<ResultView, Seq<char>>(result_view(x)),
            Err(e) => fallback_entry_of(raw@, format) == Err::<ResultView, Seq<char>>(e@),
        },
{
    match format {
        StructuredFallbackFormat::Json => parse_fallback_json_result(raw),
        StructuredFallbackFormat::Xml => parse_fallback_xml_result(raw),
    }
}

/// Lorebook keywords the model wrote in the format it was asked for.
pub open spec fn fallback_keywords_of(
    raw: Seq<char>,
    format: StructuredFallbackFormat,
) -> Result<Seq<Seq<char>>, Seq<char>> {
    match format {
        StructuredFallbackFormat::Json => fallback_json_keywords_of(raw),
        StructuredFallbackFormat::Xml => fallback_xml_keywords_of(raw),
    }
}

pub fn parse_keyword_fallback_result(raw: &str, format: StructuredFallbackFormat) -> (r: Result<
    LorebookKeywordDraftResult,
    String,
>)
    ensures
        match r {
            Ok(x) => fallback_keywords_of(raw@, format) == Ok::<Seq<Seq<char>>, Seq<char>>(
                views(x.keywords@),
            ),
            Err(e) => fallback_keywords_of(raw@, format) == Err::<Seq<Seq<char>>, Seq<char>>(e@),
        },
{
    match format {
        StructuredFallbackFormat::Json => parse_keyword_fallback_json_result(raw),
        StructuredFallbackFormat::Xml => parse_keyword_fallback_xml_result(raw),
    }
}

} // verus!
