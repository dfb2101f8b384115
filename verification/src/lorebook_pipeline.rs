//! The deterministic steps of the lorebook generator: settings resolution,
//! the texts handed to the model, and the application of coherence edits to
//! the drafted entries.
use vstd::prelude::*;

use crate::json::{
    aliased, aliased_get, as_array, as_bool, as_str, as_u64, find_call, first_named, get,
    index_items, index_items_exec, json_array, json_bool, json_get, json_str, json_u64,
    lemma_first_named_bounds, str_items, str_items_exec, trimmed_items, trimmed_items_exec,
    trimmed_str, trimmed_str_exec, JsonValue, ToolCall,
};
use crate::prompt_templates::copy_entry;
use crate::prompt_types::{
    PromptEntryRole, SystemPromptEntry, APP_LOREBOOK_GENERATOR_COHERENCE_TEMPLATE_ID, APP_LOREBOOK_GENERATOR_PLANNER_TEMPLATE_ID,
    APP_LOREBOOK_GENERATOR_REFINE_TEMPLATE_ID, APP_LOREBOOK_GENERATOR_WRITER_TEMPLATE_ID,
};
use crate::text::{
    bool_text, bool_to_string, chars_of, decimal, is_blank, join, join_seq, lower_seq, min_nat,
    replace, replace_seq, str_eq, strings_contain, take_chars, to_ascii_lowercase, to_string,
    trim, trim_seq, u64_to_string, views,
};

verus! {

pub const DEFAULT_TARGET_COUNT: u32 = 12;
pub const MIN_TARGET_COUNT: u32 = 5;
pub const MAX_TARGET_COUNT: u32 = 50;
pub const DEFAULT_MAX_TOKENS: u32 = 4096;
pub const MIN_MAX_TOKENS: u32 = 256;
pub const MAX_MAX_TOKENS: u32 = 32768;

/// The generator's part of the application settings.
pub struct LorebookGeneratorSettings {
    pub default_model_id: Option<String>,
    pub lorebook_generator_model_id: Option<String>,
    pub lorebook_generator_max_tokens: Option<u32>,
    pub lorebook_generator_default_target_count: Option<u32>,
    pub lorebook_generator_planner_prompt_template_id: Option<String>,
    pub lorebook_generator_writer_prompt_template_id: Option<String>,
    pub lorebook_generator_refine_prompt_template_id: Option<String>,
    pub lorebook_generator_coherence_prompt_template_id: Option<String>,
}

/// Choices made for one generation job that take precedence over settings.
pub struct PromptOverrides {
    pub model_id: Option<String>,
    pub planner_prompt_template_id: Option<String>,
    pub writer_prompt_template_id: Option<String>,
    pub refine_prompt_template_id: Option<String>,
    pub coherence_prompt_template_id: Option<String>,
}

pub open spec fn clamp(v: u32, lo: u32, hi: u32) -> u32 {
    if v < lo {
        lo
    } else if v > hi {
        hi
    } else {
        v
    }
}

pub fn resolve_max_tokens(settings: &LorebookGeneratorSettings) -> (r: u32)
    ensures
        r == match settings.lorebook_generator_max_tokens {
            Some(v) => clamp(v, MIN_MAX_TOKENS, MAX_MAX_TOKENS),
            None => DEFAULT_MAX_TOKENS,
        },
{
    match settings.lorebook_generator_max_tokens {
        Some(v) => if v < MIN_MAX_TOKENS {
            MIN_MAX_TOKENS
        } else if v > MAX_MAX_TOKENS {
            MAX_MAX_TOKENS
        } else {
            v
        },
        None => DEFAULT_MAX_TOKENS,
    }
}

/// Keeps a requested entry count inside the range the generator accepts.
pub fn clamp_target_count(value: u32) -> (r: u32)
    ensures
        r == clamp(value, MIN_TARGET_COUNT, MAX_TARGET_COUNT),
{
    if value < MIN_TARGET_COUNT {
        MIN_TARGET_COUNT
    } else if value > MAX_TARGET_COUNT {
        MAX_TARGET_COUNT
    } else {
        value
    }
}

pub fn default_target_count_from_settings(settings: &LorebookGeneratorSettings) -> (r: u32)
    ensures
        r == match settings.lorebook_generator_default_target_count {
            Some(v) => clamp(v, MIN_TARGET_COUNT, MAX_TARGET_COUNT),
            None => DEFAULT_TARGET_COUNT,
        },
{
    match settings.lorebook_generator_default_target_count {
        Some(v) => clamp_target_count(v),
        None => DEFAULT_TARGET_COUNT,
    }
}

/// Every target count the generator works with lies in its accepted range.
pub proof fn lemma_target_count_in_range(v: u32)
    ensures
        MIN_TARGET_COUNT <= clamp(v, MIN_TARGET_COUNT, MAX_TARGET_COUNT) <= MAX_TARGET_COUNT,
        MIN_TARGET_COUNT <= v <= MAX_TARGET_COUNT ==> clamp(v, MIN_TARGET_COUNT, MAX_TARGET_COUNT)
            == v,
{
}

pub open spec fn opt_view(o: Option<String>) -> Option<Seq<char>> {
    match o {
        Some(s) => Some(s@),
        None => None,
    }
}

/// The override when there is one, else the setting; a blank choice, or
/// none, falls back to the built-in template.
pub open spec fn chosen_template_id(
    over: Option<Seq<char>>,
    setting: Option<Seq<char>>,
    fallback: Seq<char>,
) -> Seq<char> {
    let chosen = if over is Some {
        over
    } else {
        setting
    };
    match chosen {
        Some(v) => if trim_seq(v).len() == 0 {
            fallback
        } else {
            v
        },
        None => fallback,
    }
}

fn choose_template_id(over: &Option<String>, setting: &Option<String>, fallback: &str) -> (r:
    String)
    ensures
        r@ == chosen_template_id(opt_view(*over), opt_view(*setting), fallback@),
{
    let chosen = match over {
        Some(v) => Some(v),
        None => match setting {
            Some(v) => Some(v),
            None => None,
        },
    };
    match chosen {
        Some(v) => if is_blank(v.as_str()) {
            to_string(fallback)
        } else {
            v.clone()
        },
        None => to_string(fallback),
    }
}

pub fn template_id_for_planner(settings: &LorebookGeneratorSettings, overrides: &PromptOverrides) -> (r:
    String)
    ensures
        r@ == chosen_template_id(
            opt_view(overrides.planner_prompt_template_id),
            opt_view(settings.lorebook_generator_planner_prompt_template_id),
            APP_LOREBOOK_GENERATOR_PLANNER_TEMPLATE_ID@,
        ),
{
    choose_template_id(
        &overrides.planner_prompt_template_id,
        &settings.lorebook_generator_planner_prompt_template_id,
        APP_LOREBOOK_GENERATOR_PLANNER_TEMPLATE_ID,
    )
}

pub fn template_id_for_writer(settings: &LorebookGeneratorSettings, overrides: &PromptOverrides) -> (r:
    String)
    ensures
        r@ == chosen_template_id(
            opt_view(overrides.writer_prompt_template_id),
            opt_view(settings.lorebook_generator_writer_prompt_template_id),
            APP_LOREBOOK_GENERATOR_WRITER_TEMPLATE_ID@,
        ),
{
    choose_template_id(
        &overrides.writer_prompt_template_id,
        &settings.lorebook_generator_writer_prompt_template_id,
        APP_LOREBOOK_GENERATOR_WRITER_TEMPLATE_ID,
    )
}

pub fn template_id_for_refine(settings: &LorebookGeneratorSettings, overrides: &PromptOverrides) -> (r:
    String)
    ensures
        r@ == chosen_template_id(
            opt_view(overrides.refine_prompt_template_id),
            opt_view(settings.lorebook_generator_refine_prompt_template_id),
            APP_LOREBOOK_GENERATOR_REFINE_TEMPLATE_ID@,
        ),
{
    choose_template_id(
        &overrides.refine_prompt_template_id,
        &settings.lorebook_generator_refine_prompt_template_id,
        APP_LOREBOOK_GENERATOR_REFINE_TEMPLATE_ID,
    )
}

pub fn template_id_for_coherence(
    settings: &LorebookGeneratorSettings,
    overrides: &PromptOverrides,
) -> (r: String)
    ensures
        r@ == chosen_template_id(
            opt_view(overrides.coherence_prompt_template_id),
            opt_view(settings.lorebook_generator_coherence_prompt_template_id),
            APP_LOREBOOK_GENERATOR_COHERENCE_TEMPLATE_ID@,
        ),
{
    choose_template_id(
        &overrides.coherence_prompt_template_id,
        &settings.lorebook_generator_coherence_prompt_template_id,
        APP_LOREBOOK_GENERATOR_COHERENCE_TEMPLATE_ID,
    )
}

/// The first non-blank of: the job's model, the generator's model; else the
/// default model, blank or not.
pub open spec fn preferred_model(
    over: Option<Seq<char>>,
    setting: Option<Seq<char>>,
    default: Option<Seq<char>>,
) -> Option<Seq<char>> {
    if over matches Some(v) && trim_seq(v).len() != 0 {
        over
    } else if setting matches Some(v) && trim_seq(v).len() != 0 {
        setting
    } else {
        default
    }
}

/// The id of the model the generator runs on; an error when none is chosen.
/// (Resolving the id to a model and its credential is the caller's step.)
pub fn resolve_pipeline_model_id(
    settings: &LorebookGeneratorSettings,
    overrides: &PromptOverrides,
) -> (r: Result<String, String>)
    ensures
        match preferred_model(
            opt_view(overrides.model_id),
            opt_view(settings.lorebook_generator_model_id),
            opt_view(settings.default_model_id),
        ) {
            Some(id) => (r matches Ok(v) && v@ == id),
            None => (r matches Err(m) && m@
                == "No model is configured for the lorebook generator. Set one in Advanced → Lorebook Generator."@),
        },
{
    if let Some(v) = &overrides.model_id {
        if !is_blank(v.as_str()) {
            return Ok(v.clone());
        }
    }
    if let Some(v) = &settings.lorebook_generator_model_id {
        if !is_blank(v.as_str()) {
            return Ok(v.clone());
        }
    }
    match &settings.default_model_id {
        Some(v) => Ok(v.clone()),
        None => Err(
            to_string(
                "No model is configured for the lorebook generator. Set one in Advanced → Lorebook Generator.",
            ),
        ),
    }
}

/// Providers that run locally and need no API key.
pub open spec fn keyless_provider(provider_id: Seq<char>) -> bool {
    provider_id == "llamacpp"@ || provider_id == "ollama"@
}

/// The API key to send: local providers take whatever is stored (or none);
/// others need a non-empty key.
pub fn require_api_key(provider_id: &str, api_key: &Option<String>) -> (r: Result<String, String>)
    ensures
        keyless_provider(provider_id@) ==> (r matches Ok(k) && k@ == match opt_view(*api_key) {
            Some(v) => v,
            None => Seq::<char>::empty(),
        }),
        !keyless_provider(provider_id@) ==> match opt_view(*api_key) {
            Some(v) => if v.len() > 0 {
                (r matches Ok(k) && k@ == v)
            } else {
                (r matches Err(m) && m@ == "Provider credential is missing an API key"@)
            },
            None => (r matches Err(m) && m@ == "Provider credential is missing an API key"@),
        },
{
    if str_eq(provider_id, "llamacpp") || str_eq(provider_id, "ollama") {
        return match api_key {
            Some(k) => Ok(k.clone()),
            None => Ok(String::new()),
        };
    }
    match api_key {
        Some(k) => if k.as_str().unicode_len() > 0 {
            Ok(k.clone())
        } else {
            Err(to_string("Provider credential is missing an API key"))
        },
        None => Err(to_string("Provider credential is missing an API key")),
    }
}

// ------------------------------------------------------------------
// Texts for the model
// ------------------------------------------------------------------

/// `text` trimmed, cut to 400 characters with an ellipsis when longer.
pub open spec fn error_excerpt(text: Seq<char>) -> Seq<char> {
    let t = trim_seq(text);
    if t.len() <= 400 {
        t
    } else {
        t.take(400) + "…"@
    }
}

pub fn truncate_for_error(text: &str) -> (r: String)
    ensures
        r@ == error_excerpt(text@),
{
    let trimmed = trim(text);
    if trimmed.as_str().unicode_len() <= 400 {
        trimmed
    } else {
        let mut out = take_chars(trimmed.as_str(), 400);
        out.append("…");
        out
    }
}

/// A piece of user-supplied source material.
pub struct SourceExcerpt {
    pub id: String,
    pub label: String,
    pub content: String,
}

/// The source material of a job.
pub struct WorldDigest {
    pub excerpts: Vec<SourceExcerpt>,
}

/// One entry of the planned outline.
pub struct EntryPlan {
    pub idx: usize,
    pub title: String,
    pub category: String,
    pub proposed_keys: Vec<String>,
    pub rationale: String,
    pub source_refs: Vec<String>,
}

/// A drafted lorebook entry.
pub struct EntryDraft {
    pub plan_idx: usize,
    pub title: String,
    pub keywords: Vec<String>,
    pub content: String,
    pub always_active: bool,
}

/// `[id] label` and the content on the next line.
pub open spec fn excerpt_text(e: SourceExcerpt) -> Seq<char> {
    "["@ + e.id@ + "] "@ + e.label@ + "\n"@ + e.content@
}

pub fn format_excerpt(e: &SourceExcerpt) -> (r: String)
    ensures
        r@ == excerpt_text(*e),
{
    let mut s = to_string("[");
    s.append(e.id.as_str());
    s.append("] ");
    s.append(e.label.as_str());
    s.append("\n");
    s.append(e.content.as_str());
    s
}

pub open spec fn excerpt_texts(es: Seq<SourceExcerpt>) -> Seq<Seq<char>> {
    es.map_values(|e: SourceExcerpt| excerpt_text(e))
}

/// All excerpts, separated by a rule; `(none)` when there are none.
pub open spec fn excerpts_text(es: Seq<SourceExcerpt>) -> Seq<char> {
    if es.len() == 0 {
        "(none)"@
    } else {
        join_seq(excerpt_texts(es), "\n\n---\n\n"@)
    }
}

pub fn format_excerpts(digest: &WorldDigest) -> (r: String)
    ensures
        r@ == excerpts_text(digest.excerpts@),
{
    if digest.excerpts.len() == 0 {
        return to_string("(none)");
    }
    let mut parts: Vec<String> = Vec::new();
    let mut i: usize = 0;
    while i < digest.excerpts.len()
        invariant
            i <= digest.excerpts@.len(),
            parts@.len() == i,
            forall|k: int| 0 <= k < i ==> (#[trigger] parts@[k])@ == excerpt_text(digest.excerpts@[k]),
        decreases digest.excerpts@.len() - i,
    {
        parts.push(format_excerpt(&digest.excerpts[i]));
        i += 1;
    }
    assert(views(parts@) =~= excerpt_texts(digest.excerpts@));
    join(&parts, "\n\n---\n\n")
}

/// The excerpts a plan refers to, in digest order.
pub open spec fn referenced_excerpts(refs: Seq<Seq<char>>, es: Seq<SourceExcerpt>) -> Seq<
    SourceExcerpt,
>
    decreases es.len(),
{
    if es.len() == 0 {
        seq![]
    } else {
        referenced_excerpts(refs, es.drop_last()) + if refs.contains(es.last().id@) {
            seq![es.last()]
        } else {
            seq![]
        }
    }
}

/// The excerpts a plan refers to; all excerpts when it refers to none, or
/// to none that exists.
pub open spec fn plan_excerpts_text(refs: Seq<Seq<char>>, es: Seq<SourceExcerpt>) -> Seq<char> {
    let picked = referenced_excerpts(refs, es);
    if refs.len() == 0 || picked.len() == 0 {
        excerpts_text(es)
    } else {
        join_seq(excerpt_texts(picked), "\n\n---\n\n"@)
    }
}

pub fn relevant_excerpts_for_plan(plan: &EntryPlan, digest: &WorldDigest) -> (r: String)
    ensures
        r@ == plan_excerpts_text(views(plan.source_refs@), digest.excerpts@),
{
    if plan.source_refs.len() == 0 {
        return format_excerpts(digest);
    }
    let ghost refs = views(plan.source_refs@);
    let ghost es = digest.excerpts@;
    let mut out: Vec<String> = Vec::new();
    let ghost mut picked: Seq<SourceExcerpt> = seq![];
    let mut i: usize = 0;
    while i < digest.excerpts.len()
        invariant
            i <= es.len(),
            es == digest.excerpts@,
            refs == views(plan.source_refs@),
            picked == referenced_excerpts(refs, es.take(i as int)),
            views(out@) == excerpt_texts(picked),
        decreases es.len() - i,
    {
        assert(es.take(i + 1).drop_last() =~= es.take(i as int));
        assert(es.take(i + 1).last() == es[i as int]);
        let e = &digest.excerpts[i];
        if strings_contain(&plan.source_refs, e.id.as_str()) {
            let ghost before = out@;
            let x = format_excerpt(e);
            out.push(x);
            proof {
                picked = picked + seq![es[i as int]];
                assert(out@ =~= before.push(x));
                assert(views(out@) =~= views(before).push(x@));
                assert(excerpt_texts(picked) =~= excerpt_texts(picked.drop_last()).push(excerpt_text(es[i as int])));
                assert(picked.drop_last() =~= referenced_excerpts(refs, es.take(i as int)));
            }
        } else {
            proof {
                assert(picked + Seq::<SourceExcerpt>::empty() =~= picked);
            }
        }
        i += 1;
    }
    assert(es.take(es.len() as int) =~= es);
    if out.len() == 0 {
        return format_excerpts(digest);
    }
    join(&out, "\n\n---\n\n")
}

/// The keys joined by commas, or `(none)`.
pub open spec fn keys_text(keys: Seq<Seq<char>>) -> Seq<char> {
    if keys.len() == 0 {
        "(none)"@
    } else {
        join_seq(keys, ", "@)
    }
}

fn format_keys(keys: &Vec<String>) -> (r: String)
    ensures
        r@ == keys_text(views(keys@)),
{
    if keys.len() == 0 {
        to_string("(none)")
    } else {
        join(keys, ", ")
    }
}

/// `n. title [category] keys: ...`, numbered from one.
pub open spec fn outline_line(p: EntryPlan) -> Seq<char> {
    decimal(p.idx as nat + 1) + ". "@ + p.title@ + " ["@ + p.category@ + "] keys: "@ + keys_text(
        views(p.proposed_keys@),
    )
}

pub open spec fn outline_lines(ps: Seq<EntryPlan>) -> Seq<Seq<char>> {
    ps.map_values(|p: EntryPlan| outline_line(p))
}

/// The outline, one line per planned entry; `(empty)` for no entries.
pub open spec fn outline_text(ps: Seq<EntryPlan>) -> Seq<char> {
    if ps.len() == 0 {
        "(empty)"@
    } else {
        join_seq(outline_lines(ps), "\n"@)
    }
}

pub fn format_outline_for_context(outline: &Vec<EntryPlan>) -> (r: String)
    requires
        forall|i: int| 0 <= i < outline@.len() ==> (#[trigger] outline@[i]).idx < u64::MAX,
    ensures
        r@ == outline_text(outline@),
{
    if outline.len() == 0 {
        return to_string("(empty)");
    }
    let mut lines: Vec<String> = Vec::new();
    let mut i: usize = 0;
    while i < outline.len()
        invariant
            i <= outline@.len(),
            forall|k: int| 0 <= k < outline@.len() ==> (#[trigger] outline@[k]).idx < u64::MAX,
            lines@.len() == i,
            forall|k: int| 0 <= k < i ==> (#[trigger] lines@[k])@ == outline_line(outline@[k]),
        decreases outline@.len() - i,
    {
        let p = &outline[i];
        assert(p.idx < u64::MAX);
        let mut s = u64_to_string(p.idx as u64 + 1);
        s.append(". ");
        s.append(p.title.as_str());
        s.append(" [");
        s.append(p.category.as_str());
        s.append("] keys: ");
        let keys = format_keys(&p.proposed_keys);
        s.append(keys.as_str());
        lines.push(s);
        i += 1;
    }
    assert(views(lines@) =~= outline_lines(outline@));
    join(&lines, "\n")
}

/// The description of the `i`-th draft handed to the coherence pass.
pub open spec fn draft_text(i: nat, d: EntryDraft) -> Seq<char> {
    "Entry "@ + decimal(i + 1) + " (idx "@ + decimal(i) + "): \""@ + d.title@ + "\"\nKeys: "@
        + keys_text(views(d.keywords@)) + "\nAlwaysActive: "@ + bool_text(d.always_active)
        + "\nContent: "@ + d.content@
}

pub open spec fn draft_texts(ds: Seq<EntryDraft>) -> Seq<Seq<char>> {
    Seq::new(ds.len(), |i: int| draft_text(i as nat, ds[i]))
}

pub open spec fn drafts_text(ds: Seq<EntryDraft>) -> Seq<char> {
    if ds.len() == 0 {
        "(none)"@
    } else {
        join_seq(draft_texts(ds), "\n\n---\n\n"@)
    }
}

pub fn format_drafted_entries(drafts: &Vec<EntryDraft>) -> (r: String)
    requires
        drafts@.len() < u64::MAX,
    ensures
        r@ == drafts_text(drafts@),
{
    if drafts.len() == 0 {
        return to_string("(none)");
    }
    let mut parts: Vec<String> = Vec::new();
    let mut i: usize = 0;
    while i < drafts.len()
        invariant
            i <= drafts@.len(),
            drafts@.len() < u64::MAX,
            parts@.len() == i,
            forall|k: int| 0 <= k < i ==> (#[trigger] parts@[k])@ == draft_text(k as nat, drafts@[k]),
        decreases drafts@.len() - i,
    {
        let d = &drafts[i];
        let mut s = to_string("Entry ");
        let n1 = u64_to_string(i as u64 + 1);
        s.append(n1.as_str());
        s.append(" (idx ");
        let n0 = u64_to_string(i as u64);
        s.append(n0.as_str());
        s.append("): \"");
        s.append(d.title.as_str());
        s.append("\"\nKeys: ");
        let keys = format_keys(&d.keywords);
        s.append(keys.as_str());
        s.append("\nAlwaysActive: ");
        let aa = bool_to_string(d.always_active);
        s.append(aa.as_str());
        s.append("\nContent: ");
        s.append(d.content.as_str());
        parts.push(s);
        i += 1;
    }
    assert(views(parts@) =~= draft_texts(drafts@));
    join(&parts, "\n\n---\n\n")
}

// ------------------------------------------------------------------
// Coherence edits
// ------------------------------------------------------------------

/// An edit proposed by the coherence pass.
pub enum CoherenceChange {
    MergeKeys { id: String, entry_idx: usize, remove_keys: Vec<String>, reason: String },
    RenameTerm {
        id: String,
        old_term: String,
        new_term: String,
        affected_entry_idxs: Vec<usize>,
        reason: String,
    },
    FlagContradiction { id: String, entry_idxs: Vec<usize>, description: String },
    ToggleAlwaysActive { id: String, entry_idx: usize, new_value: bool, reason: String },
}

/// Plan index, title, keywords, content and always-active flag of a draft.
pub type DraftView = (usize, Seq<char>, Seq<Seq<char>>, Seq<char>, bool);

pub open spec fn draft_view(d: EntryDraft) -> DraftView {
    (d.plan_idx, d.title@, views(d.keywords@), d.content@, d.always_active)
}

pub open spec fn drafts_view(ds: Seq<EntryDraft>) -> Seq<DraftView> {
    ds.map_values(|d: EntryDraft| draft_view(d))
}

/// The keywords kept when those matching `removed` (ignoring ASCII case) go.
pub open spec fn retained_keys(ks: Seq<Seq<char>>, removed_lower: Seq<Seq<char>>) -> Seq<
    Seq<char>,
>
    decreases ks.len(),
{
    if ks.len() == 0 {
        seq![]
    } else {
        retained_keys(ks.drop_last(), removed_lower) + if removed_lower.contains(
            lower_seq(ks.last()),
        ) {
            seq![]
        } else {
            seq![ks.last()]
        }
    }
}

pub open spec fn lower_all(ks: Seq<Seq<char>>) -> Seq<Seq<char>> {
    ks.map_values(|k: Seq<char>| lower_seq(k))
}

pub open spec fn renamed_draft(d: DraftView, from: Seq<char>, to: Seq<char>) -> DraftView {
    (
        d.0,
        replace_seq(d.1, from, to),
        d.2.map_values(|k: Seq<char>| replace_seq(k, from, to)),
        replace_seq(d.3, from, to),
        d.4,
    )
}

/// Renames in the drafts at the listed indices, in list order; an index
/// listed twice is renamed twice, one out of range is skipped.
pub open spec fn rename_at(ds: Seq<DraftView>, targets: Seq<int>, from: Seq<char>, to: Seq<char>) -> Seq<
    DraftView,
>
    decreases targets.len(),
{
    if targets.len() == 0 {
        ds
    } else {
        let prev = rename_at(ds, targets.drop_last(), from, to);
        let i = targets.last();
        if 0 <= i < prev.len() {
            prev.update(i, renamed_draft(prev[i], from, to))
        } else {
            prev
        }
    }
}

pub open spec fn change_view_targets(ds_len: nat, affected: Seq<usize>) -> Seq<int> {
    if affected.len() == 0 {
        Seq::new(ds_len, |i: int| i)
    } else {
        affected.map_values(|i: usize| i as int)
    }
}

/// The drafts after one edit.
pub open spec fn apply_change(ds: Seq<DraftView>, c: CoherenceChange) -> Seq<DraftView> {
    match c {
        CoherenceChange::MergeKeys { entry_idx, remove_keys, .. } => if entry_idx < ds.len() {
            let d = ds[entry_idx as int];
            ds.update(
                entry_idx as int,
                (d.0, d.1, retained_keys(d.2, lower_all(views(remove_keys@))), d.3, d.4),
            )
        } else {
            ds
        },
        CoherenceChange::RenameTerm { old_term, new_term, affected_entry_idxs, .. } => rename_at(
            ds,
            change_view_targets(ds.len(), affected_entry_idxs@),
            old_term@,
            new_term@,
        ),
        CoherenceChange::FlagContradiction { .. } => ds,
        CoherenceChange::ToggleAlwaysActive { entry_idx, new_value, .. } => if entry_idx
            < ds.len() {
            let d = ds[entry_idx as int];
            ds.update(entry_idx as int, (d.0, d.1, d.2, d.3, new_value))
        } else {
            ds
        },
    }
}

/// The drafts after the edits, applied in order.
pub open spec fn apply_changes(ds: Seq<DraftView>, cs: Seq<CoherenceChange>) -> Seq<DraftView>
    decreases cs.len(),
{
    if cs.len() == 0 {
        ds
    } else {
        apply_change(apply_changes(ds, cs.drop_last()), cs.last())
    }
}

fn retain_keys(keys: &Vec<String>, remove_keys: &Vec<String>) -> (r: Vec<String>)
    ensures
        views(r@) == retained_keys(views(keys@), lower_all(views(remove_keys@))),
{
    let mut lowered: Vec<String> = Vec::new();
    let mut j: usize = 0;
    while j < remove_keys.len()
        invariant
            j <= remove_keys@.len(),
            lowered@.len() == j,
            forall|k: int| 0 <= k < j ==> (#[trigger] lowered@[k])@ == lower_seq(remove_keys@[k]@),
        decreases remove_keys@.len() - j,
    {
        lowered.push(to_ascii_lowercase(remove_keys[j].as_str()));
        j += 1;
    }
    assert(views(lowered@) =~= lower_all(views(remove_keys@)));
    let ghost kv = views(keys@);
    let mut out: Vec<String> = Vec::new();
    let mut i: usize = 0;
    while i < keys.len()
        invariant
            i <= keys@.len(),
            kv == views(keys@),
            views(lowered@) == lower_all(views(remove_keys@)),
            views(out@) == retained_keys(kv.take(i as int), views(lowered@)),
        decreases keys@.len() - i,
    {
        assert(kv.take(i + 1).drop_last() =~= kv.take(i as int));
        assert(kv.take(i + 1).last() == keys@[i as int]@);
        let lk = to_ascii_lowercase(keys[i].as_str());
        if !strings_contain(&lowered, lk.as_str()) {
            let ghost before = views(out@);
            out.push(keys[i].clone());
            assert(views(out@) =~= before + seq![keys@[i as int]@]);
        } else {
            assert(views(out@) =~= views(out@) + Seq::<Seq<char>>::empty());
        }
        i += 1;
    }
    assert(kv.take(keys@.len() as int) =~= kv);
    out
}

fn rename_in_draft(d: &EntryDraft, from: &str, to: &str) -> (r: EntryDraft)
    ensures
        draft_view(r) == renamed_draft(draft_view(*d), from@, to@),
{
    let mut keywords: Vec<String> = Vec::new();
    let mut i: usize = 0;
    while i < d.keywords.len()
        invariant
            i <= d.keywords@.len(),
            keywords@.len() == i,
            forall|k: int| 0 <= k < i ==> (#[trigger] keywords@[k])@ == replace_seq(
                d.keywords@[k]@,
                from@,
                to@,
            ),
        decreases d.keywords@.len() - i,
    {
        keywords.push(replace(d.keywords[i].as_str(), from, to));
        i += 1;
    }
    let r = EntryDraft {
        plan_idx: d.plan_idx,
        title: replace(d.title.as_str(), from, to),
        keywords,
        content: replace(d.content.as_str(), from, to),
        always_active: d.always_active,
    };
    assert(views(r.keywords@) =~= views(d.keywords@).map_values(
        |k: Seq<char>| replace_seq(k, from@, to@),
    ));
    r
}

fn copy_draft(d: &EntryDraft) -> (r: EntryDraft)
    ensures
        draft_view(r) == draft_view(*d),
{
    let mut keywords: Vec<String> = Vec::new();
    let mut i: usize = 0;
    while i < d.keywords.len()
        invariant
            i <= d.keywords@.len(),
            keywords@.len() == i,
            forall|k: int| 0 <= k < i ==> (#[trigger] keywords@[k])@ == d.keywords@[k]@,
        decreases d.keywords@.len() - i,
    {
        keywords.push(d.keywords[i].clone());
        i += 1;
    }
    let r = EntryDraft {
        plan_idx: d.plan_idx,
        title: d.title.clone(),
        keywords,
        content: d.content.clone(),
        always_active: d.always_active,
    };
    assert(views(r.keywords@) =~= views(d.keywords@));
    r
}

fn rename_targets(
    drafts: &mut Vec<EntryDraft>,
    targets: &Vec<usize>,
    from: &str,
    to: &str,
)
    ensures
        drafts_view(final(drafts)@) == rename_at(
            drafts_view(old(drafts)@),
            targets@.map_values(|i: usize| i as int),
            from@,
            to@,
        ),
{
    let ghost start = drafts_view(drafts@);
    let ghost ts = targets@.map_values(|i: usize| i as int);
    let mut j: usize = 0;
    while j < targets.len()
        invariant
            j <= targets@.len(),
            ts == targets@.map_values(|i: usize| i as int),
            drafts_view(drafts@) == rename_at(start, ts.take(j as int), from@, to@),
        decreases targets@.len() - j,
    {
        assert(ts.take(j + 1).drop_last() =~= ts.take(j as int));
        assert(ts.take(j + 1).last() == targets@[j as int] as int);
        let idx = targets[j];
        if idx < drafts.len() {
            let nd = rename_in_draft(&drafts[idx], from, to);
            let ghost before = drafts_view(drafts@);
            drafts.set(idx, nd);
            assert(drafts_view(drafts@) =~= before.update(idx as int, renamed_draft(before[idx as int], from@, to@)));
        }
        j += 1;
    }
    assert(ts.take(targets@.len() as int) =~= ts);
}

/// Applies the coherence edits to the drafts, in order.
pub fn apply_coherence_changes(drafts: &mut Vec<EntryDraft>, changes: &Vec<CoherenceChange>)
    ensures
        drafts_view(final(drafts)@) == apply_changes(drafts_view(old(drafts)@), changes@),
{
    let ghost start = drafts_view(drafts@);
    let mut c: usize = 0;
    while c < changes.len()
        invariant
            c <= changes@.len(),
            drafts_view(drafts@) == apply_changes(start, changes@.take(c as int)),
        decreases changes@.len() - c,
    {
        assert(changes@.take(c + 1).drop_last() =~= changes@.take(c as int));
        assert(changes@.take(c + 1).last() == changes@[c as int]);
        let ghost before = drafts_view(drafts@);
        match &changes[c] {
            CoherenceChange::MergeKeys { entry_idx, remove_keys, .. } => {
                let idx = *entry_idx;
                if idx < drafts.len() {
                    let kept = retain_keys(&drafts[idx].keywords, remove_keys);
                    let mut nd = copy_draft(&drafts[idx]);
                    nd.keywords = kept;
                    drafts.set(idx, nd);
                    let ghost d = before[idx as int];
                    assert(drafts_view(drafts@) =~= before.update(
                        idx as int,
                        (d.0, d.1, retained_keys(d.2, lower_all(views(remove_keys@))), d.3, d.4),
                    ));
                }
            },
            CoherenceChange::RenameTerm { old_term, new_term, affected_entry_idxs, .. } => {
                if affected_entry_idxs.len() == 0 {
                    let mut all: Vec<usize> = Vec::new();
                    let mut k: usize = 0;
                    while k < drafts.len()
                        invariant
                            k <= drafts@.len(),
                            all@.len() == k,
                            forall|q: int| 0 <= q < k ==> #[trigger] all@[q] == q,
                        decreases drafts@.len() - k,
                    {
                        all.push(k);
                        k += 1;
                    }
                    assert(all@.map_values(|i: usize| i as int) =~= Seq::new(
                        before.len(),
                        |i: int| i,
                    ));
                    rename_targets(drafts, &all, old_term.as_str(), new_term.as_str());
                } else {
                    rename_targets(drafts, affected_entry_idxs, old_term.as_str(), new_term.as_str());
                }
            },
            CoherenceChange::FlagContradiction { .. } => {},
            CoherenceChange::ToggleAlwaysActive { entry_idx, new_value, .. } => {
                let idx = *entry_idx;
                if idx < drafts.len() {
                    let mut nd = copy_draft(&drafts[idx]);
                    nd.always_active = *new_value;
                    drafts.set(idx, nd);
                    let ghost d = before[idx as int];
                    assert(drafts_view(drafts@) =~= before.update(
                        idx as int,
                        (d.0, d.1, d.2, d.3, *new_value),
                    ));
                }
            },
        }
        c += 1;
    }
    assert(changes@.take(changes@.len() as int) =~= changes@);
}

/// Edits never add or remove drafts, and never change which plan a draft
/// belongs to.
pub proof fn lemma_changes_keep_drafts(ds: Seq<DraftView>, cs: Seq<CoherenceChange>)
    ensures
        apply_changes(ds, cs).len() == ds.len(),
        forall|i: int| 0 <= i < ds.len() ==> (#[trigger] apply_changes(ds, cs)[i]).0 == ds[i].0,
    decreases cs.len(),
{
    if cs.len() > 0 {
        lemma_changes_keep_drafts(ds, cs.drop_last());
        let prev = apply_changes(ds, cs.drop_last());
        match cs.last() {
            CoherenceChange::RenameTerm { old_term, new_term, affected_entry_idxs, .. } => {
                lemma_rename_keeps_drafts(
                    prev,
                    change_view_targets(prev.len(), affected_entry_idxs@),
                    old_term@,
                    new_term@,
                );
            },
            _ => {},
        }
    }
}

pub proof fn lemma_rename_keeps_drafts(
    ds: Seq<DraftView>,
    ts: Seq<int>,
    from: Seq<char>,
    to: Seq<char>,
)
    ensures
        rename_at(ds, ts, from, to).len() == ds.len(),
        forall|i: int| 0 <= i < ds.len() ==> (#[trigger] rename_at(ds, ts, from, to)[i]).0 == ds[i].0,
    decreases ts.len(),
{
    if ts.len() > 0 {
        lemma_rename_keeps_drafts(ds, ts.drop_last(), from, to);
    }
}

/// Flagging a contradiction changes nothing.
pub proof fn lemma_flag_is_inert(ds: Seq<DraftView>, c: CoherenceChange)
    requires
        c is FlagContradiction,
    ensures
        apply_change(ds, c) == ds,
{
}

/// Setting the always-active flag: the draft named gets exactly the
/// requested value, whatever it had before; its other fields and every
/// other draft stay as they were, and an index out of range changes
/// nothing.  Setting the same value again changes nothing more.
pub proof fn lemma_toggle_sets_requested_flag(ds: Seq<DraftView>, c: CoherenceChange)
    requires
        c is ToggleAlwaysActive,
    ensures
        apply_change(ds, c).len() == ds.len(),
        match c {
            CoherenceChange::ToggleAlwaysActive { entry_idx, new_value, .. } => {
                &&& forall|i: int|
                    0 <= i < ds.len() && i != entry_idx ==> #[trigger] apply_change(ds, c)[i] == ds[i]
                &&& entry_idx < ds.len() ==> {
                    let d = apply_change(ds, c)[entry_idx as int];
                    let o = ds[entry_idx as int];
                    d.4 == new_value && d.0 == o.0 && d.1 == o.1 && d.2 == o.2 && d.3 == o.3
                }
                &&& entry_idx >= ds.len() ==> apply_change(ds, c) == ds
            },
            _ => true,
        },
        apply_change(apply_change(ds, c), c) == apply_change(ds, c),
{
}

/// The keywords kept are exactly those whose lower-case form is not among
/// the lower-cased keys to remove, in their order.
pub proof fn lemma_retained_keys_filter(ks: Seq<Seq<char>>, removed_lower: Seq<Seq<char>>)
    ensures
        retained_keys(ks, removed_lower) == ks.filter(
            |k: Seq<char>| !removed_lower.contains(lower_seq(k)),
        ),
    decreases ks.len(),
{
    reveal(Seq::filter);
    if ks.len() > 0 {
        lemma_retained_keys_filter(ks.drop_last(), removed_lower);
        let f = ks.drop_last().filter(|k: Seq<char>| !removed_lower.contains(lower_seq(k)));
        if removed_lower.contains(lower_seq(ks.last())) {
            assert(f + Seq::<Seq<char>>::empty() =~= f);
        } else {
            assert(f + seq![ks.last()] =~= f.push(ks.last()));
        }
    }
}

/// Merging keys removes, from the draft named only, each keyword equal to
/// a key to remove up to ASCII case, and keeps the others in order; the
/// draft's other fields and every other draft stay as they were.
pub proof fn lemma_merge_keys_removes_only_named_keys(ds: Seq<DraftView>, c: CoherenceChange)
    requires
        c is MergeKeys,
    ensures
        apply_change(ds, c).len() == ds.len(),
        match c {
            CoherenceChange::MergeKeys { entry_idx, remove_keys, .. } => {
                &&& forall|i: int|
                    0 <= i < ds.len() && i != entry_idx ==> #[trigger] apply_change(ds, c)[i] == ds[i]
                &&& entry_idx < ds.len() ==> {
                    let d = apply_change(ds, c)[entry_idx as int];
                    let o = ds[entry_idx as int];
                    &&& d.2 == o.2.filter(
                        |k: Seq<char>| !lower_all(views(remove_keys@)).contains(lower_seq(k)),
                    )
                    &&& d.0 == o.0 && d.1 == o.1 && d.3 == o.3 && d.4 == o.4
                }
            },
            _ => true,
        },
{
    if let CoherenceChange::MergeKeys { entry_idx, remove_keys, .. } = c {
        if entry_idx < ds.len() {
            lemma_retained_keys_filter(ds[entry_idx as int].2, lower_all(views(remove_keys@)));
        }
    }
}

/// Whatever edits came before, a draft named by a final always-active edit
/// ends with exactly the value that edit asks for.
pub proof fn lemma_last_toggle_decides_flag(ds: Seq<DraftView>, cs: Seq<CoherenceChange>)
    requires
        cs.len() > 0,
        cs.last() is ToggleAlwaysActive,
    ensures
        match cs.last() {
            CoherenceChange::ToggleAlwaysActive { entry_idx, new_value, .. } => entry_idx < ds.len()
                ==> apply_changes(ds, cs)[entry_idx as int].4 == new_value,
            _ => true,
        },
{
    lemma_changes_keep_drafts(ds, cs.drop_last());
    lemma_toggle_sets_requested_flag(apply_changes(ds, cs.drop_last()), cs.last());
}

// ------------------------------------------------------------------
// Reading the model's tool calls
// ------------------------------------------------------------------

/// Index, title, category, keys, rationale and sources of a planned entry.
pub type PlanView = (usize, Seq<char>, Seq<char>, Seq<Seq<char>>, Seq<char>, Seq<Seq<char>>);

pub open spec fn plan_view(p: EntryPlan) -> PlanView {
    (p.idx, p.title@, p.category@, views(p.proposed_keys@), p.rationale@, views(p.source_refs@))
}

pub open spec fn items_or_empty(a: Option<Seq<JsonValue>>, trimmed: bool) -> Seq<Seq<char>> {
    match a {
        Some(items) => if trimmed {
            trimmed_items(items)
        } else {
            str_items(items)
        },
        None => seq![],
    }
}

/// The planned entry at position `idx` of the outline.
pub open spec fn plan_of(idx: nat, v: JsonValue) -> Result<PlanView, Seq<char>> {
    if !(v is Object) {
        Err("entry "@ + decimal(idx) + " is not an object"@)
    } else {
        match trimmed_str(json_get(v, "title"@)) {
            None => Err("entry "@ + decimal(idx) + " missing title"@),
            Some(title) => Ok(
                (
                    idx as usize,
                    title,
                    match trimmed_str(json_get(v, "category"@)) {
                        Some(c) => c,
                        None => "other"@,
                    },
                    items_or_empty(json_array(aliased(v, "proposedKeys"@, "proposed_keys"@)), true),
                    match json_str(json_get(v, "rationale"@)) {
                        Some(r) => trim_seq(r),
                        None => seq![],
                    },
                    items_or_empty(json_array(aliased(v, "sourceRefs"@, "source_refs"@)), false),
                ),
            ),
        }
    }
}

/// The outline's entries in order; the first bad entry is the error.
pub open spec fn plans_of(items: Seq<JsonValue>) -> Result<Seq<PlanView>, Seq<char>>
    decreases items.len(),
{
    if items.len() == 0 {
        Ok(seq![])
    } else {
        match plans_of(items.drop_last()) {
            Err(e) => Err(e),
            Ok(ps) => match plan_of((items.len() - 1) as nat, items.last()) {
                Err(e) => Err(e),
                Ok(p) => Ok(ps.push(p)),
            },
        }
    }
}

/// What the planner's calls propose.
pub open spec fn planner_result(calls: Seq<ToolCall>) -> Result<Seq<PlanView>, Seq<char>> {
    match first_named(calls, "propose_lorebook_outline"@) {
        None => Err("Model did not call propose_lorebook_outline"@),
        Some(i) => match json_array(json_get(calls[i].arguments, "entries"@)) {
            None => Err("propose_lorebook_outline missing 'entries' array"@),
            Some(items) => plans_of(items),
        },
    }
}

fn indexed_message(idx: usize, tail: &str) -> (r: String)
    ensures
        r@ == "entry "@ + decimal(idx as nat) + tail@,
{
    let mut m = to_string("entry ");
    let d = u64_to_string(idx as u64);
    m.append(d.as_str());
    m.append(tail);
    m
}

fn plan_from(idx: usize, v: &JsonValue) -> (r: Result<EntryPlan, String>)
    ensures
        match r {
            Ok(p) => plan_of(idx as nat, *v) == Ok::<PlanView, Seq<char>>(plan_view(p)),
            Err(e) => plan_of(idx as nat, *v) == Err::<PlanView, Seq<char>>(e@),
        },
{
    match v {
        JsonValue::Object(_) => {},
        _ => {
            return Err(indexed_message(idx, " is not an object"));
        },
    }
    let title = match trimmed_str_exec(get(v, "title")) {
        Some(t) => t,
        None => {
            return Err(indexed_message(idx, " missing title"));
        },
    };
    let category = match trimmed_str_exec(get(v, "category")) {
        Some(c) => c,
        None => to_string("other"),
    };
    let rationale = match as_str(get(v, "rationale")) {
        Some(r) => trim(r),
        None => String::new(),
    };
    let proposed_keys = match as_array(aliased_get(v, "proposedKeys", "proposed_keys")) {
        Some(items) => trimmed_items_exec(items),
        None => {
            let e: Vec<String> = Vec::new();
            assert(views(e@) =~= Seq::<Seq<char>>::empty());
            e
        },
    };
    let source_refs = match as_array(aliased_get(v, "sourceRefs", "source_refs")) {
        Some(items) => str_items_exec(items),
        None => {
            let e: Vec<String> = Vec::new();
            assert(views(e@) =~= Seq::<Seq<char>>::empty());
            e
        },
    };
    Ok(EntryPlan { idx, title, category, proposed_keys, rationale, source_refs })
}

/// The outline the planner proposed.
pub fn parse_planner_result(calls: &Vec<ToolCall>) -> (r: Result<Vec<EntryPlan>, String>)
    ensures
        match r {
            Ok(ps) => planner_result(calls@) == Ok::<Seq<PlanView>, Seq<char>>(
                ps@.map_values(|p: EntryPlan| plan_view(p)),
            ),
            Err(e) => planner_result(calls@) == Err::<Seq<PlanView>, Seq<char>>(e@),
        },
{
    let i = match find_call(calls, "propose_lorebook_outline") {
        Some(i) => i,
        None => {
            return Err(to_string("Model did not call propose_lorebook_outline"));
        },
    };
    let items = match as_array(get(&calls[i].arguments, "entries")) {
        Some(items) => items,
        None => {
            return Err(to_string("propose_lorebook_outline missing 'entries' array"));
        },
    };
    let mut out: Vec<EntryPlan> = Vec::new();
    let mut k: usize = 0;
    assert(items@.take(0) =~= Seq::<JsonValue>::empty());
    assert(out@.map_values(|p: EntryPlan| plan_view(p)) =~= Seq::<PlanView>::empty());
    assert(planner_result(calls@) == plans_of(items@));
    while k < items.len()
        invariant
            k <= items@.len(),
            planner_result(calls@) == plans_of(items@),
            plans_of(items@.take(k as int)) == Ok::<Seq<PlanView>, Seq<char>>(
                out@.map_values(|p: EntryPlan| plan_view(p)),
            ),
        decreases items@.len() - k,
    {
        assert(items@.take(k + 1).drop_last() =~= items@.take(k as int));
        assert(items@.take(k + 1).last() == items@[k as int]);
        match plan_from(k, &items[k]) {
            Ok(p) => {
                let ghost before = out@.map_values(|p: EntryPlan| plan_view(p));
                out.push(p);
                assert(out@.map_values(|p: EntryPlan| plan_view(p)) =~= before.push(
                    plan_view(out@.last()),
                ));
            },
            Err(e) => {
                proof {
                    lemma_plans_error_persists(items@, (k + 1) as int);
                }
                return Err(e);
            },
        }
        k += 1;
    }
    assert(items@.take(items@.len() as int) =~= items@);
    Ok(out)
}

/// An error in the first `k` entries is the error of the whole outline.
proof fn lemma_plans_error_persists(items: Seq<JsonValue>, k: int)
    requires
        0 <= k <= items.len(),
        plans_of(items.take(k)) is Err,
    ensures
        plans_of(items) == plans_of(items.take(k)),
    decreases items.len() - k,
{
    if k < items.len() {
        assert(items.take(k + 1).drop_last() =~= items.take(k));
        lemma_plans_error_persists(items, k + 1);
    } else {
        assert(items.take(k) =~= items);
    }
}

/// What the writer's call drafts for the planned entry `plan_idx`.
pub open spec fn writer_result(plan_idx: usize, calls: Seq<ToolCall>) -> Result<
    DraftView,
    Seq<char>,
> {
    match first_named(calls, "write_lorebook_entry"@) {
        None => Err("Model did not call write_lorebook_entry"@),
        Some(i) => {
            let a = calls[i].arguments;
            if !(a is Object) {
                Err("write_lorebook_entry arguments must be an object"@)
            } else {
                match trimmed_str(json_get(a, "title"@)) {
                    None => Err("write_lorebook_entry missing title"@),
                    Some(title) => match trimmed_str(json_get(a, "content"@)) {
                        None => Err("write_lorebook_entry missing content"@),
                        Some(content) => Ok(
                            (
                                plan_idx,
                                title,
                                items_or_empty(json_array(json_get(a, "keywords"@)), true),
                                content,
                                match json_bool(aliased(a, "alwaysActive"@, "always_active"@)) {
                                    Some(b) => b,
                                    None => false,
                                },
                            ),
                        ),
                    },
                }
            }
        },
    }
}

pub fn parse_writer_result(plan_idx: usize, calls: &Vec<ToolCall>) -> (r: Result<EntryDraft, String>)
    ensures
        match r {
            Ok(d) => writer_result(plan_idx, calls@) == Ok::<DraftView, Seq<char>>(draft_view(d)),
            Err(e) => writer_result(plan_idx, calls@) == Err::<DraftView, Seq<char>>(e@),
        },
{
    let i = match find_call(calls, "write_lorebook_entry") {
        Some(i) => i,
        None => {
            return Err(to_string("Model did not call write_lorebook_entry"));
        },
    };
    let a = &calls[i].arguments;
    match a {
        JsonValue::Object(_) => {},
        _ => {
            return Err(to_string("write_lorebook_entry arguments must be an object"));
        },
    }
    let title = match trimmed_str_exec(get(a, "title")) {
        Some(t) => t,
        None => {
            return Err(to_string("write_lorebook_entry missing title"));
        },
    };
    let content = match trimmed_str_exec(get(a, "content")) {
        Some(t) => t,
        None => {
            return Err(to_string("write_lorebook_entry missing content"));
        },
    };
    let always_active = match as_bool(aliased_get(a, "alwaysActive", "always_active")) {
        Some(b) => b,
        None => false,
    };
    let keywords = match as_array(get(a, "keywords")) {
        Some(items) => trimmed_items_exec(items),
        None => {
            let e: Vec<String> = Vec::new();
            assert(views(e@) =~= Seq::<Seq<char>>::empty());
            e
        },
    };
    Ok(EntryDraft { plan_idx, title, keywords, content, always_active })
}

/// The kind of a change, id, and the numbers and texts it carries.
pub enum ChangeView {
    MergeKeys { id: Seq<char>, entry_idx: usize, remove_keys: Seq<Seq<char>>, reason: Seq<char> },
    RenameTerm {
        id: Seq<char>,
        old_term: Seq<char>,
        new_term: Seq<char>,
        affected: Seq<usize>,
        reason: Seq<char>,
    },
    FlagContradiction { id: Seq<char>, entry_idxs: Seq<usize>, description: Seq<char> },
    ToggleAlwaysActive { id: Seq<char>, entry_idx: usize, new_value: bool, reason: Seq<char> },
}

pub open spec fn change_view(c: CoherenceChange) -> ChangeView {
    match c {
        CoherenceChange::MergeKeys { id, entry_idx, remove_keys, reason } => ChangeView::MergeKeys {
            id: id@,
            entry_idx,
            remove_keys: views(remove_keys@),
            reason: reason@,
        },
        CoherenceChange::RenameTerm { id, old_term, new_term, affected_entry_idxs, reason } =>
            ChangeView::RenameTerm {
            id: id@,
            old_term: old_term@,
            new_term: new_term@,
            affected: affected_entry_idxs@,
            reason: reason@,
        },
        CoherenceChange::FlagContradiction { id, entry_idxs, description } =>
            ChangeView::FlagContradiction {
            id: id@,
            entry_idxs: entry_idxs@,
            description: description@,
        },
        CoherenceChange::ToggleAlwaysActive { id, entry_idx, new_value, reason } =>
            ChangeView::ToggleAlwaysActive { id: id@, entry_idx, new_value, reason: reason@ },
    }
}

pub open spec fn str_or_empty(v: Option<JsonValue>) -> Seq<char> {
    match json_str(v) {
        Some(s) => s,
        None => seq![],
    }
}

pub open spec fn indexes_or_empty(a: Option<Seq<JsonValue>>) -> Seq<usize> {
    match a {
        Some(items) => index_items(items),
        None => seq![],
    }
}

/// The change the `i`-th proposal describes, if it is a usable one: a merge
/// that removes some keys, a rename between two different non-empty terms,
/// a contradiction with entries and a description, or a flag toggle.
pub open spec fn change_of(i: nat, v: JsonValue) -> Option<ChangeView> {
    if !(v is Object) {
        None
    } else {
        let kind = match json_str(json_get(v, "kind"@)) {
            Some(k) => trim_seq(k),
            None => seq![],
        };
        let id = "change_"@ + decimal(i);
        let reason = str_or_empty(json_get(v, "reason"@));
        let entry_idx = match json_u64(json_get(v, "entryIdx"@)) {
            Some(n) => n as usize,
            None => 0usize,
        };
        if kind == "mergeKeys"@ {
            let keys = items_or_empty(json_array(json_get(v, "removeKeys"@)), false);
            if keys.len() == 0 {
                None
            } else {
                Some(ChangeView::MergeKeys { id, entry_idx, remove_keys: keys, reason })
            }
        } else if kind == "renameTerm"@ {
            let old_term = str_or_empty(json_get(v, "oldTerm"@));
            let new_term = str_or_empty(json_get(v, "newTerm"@));
            if old_term.len() == 0 || new_term.len() == 0 || old_term == new_term {
                None
            } else {
                Some(
                    ChangeView::RenameTerm {
                        id,
                        old_term,
                        new_term,
                        affected: indexes_or_empty(json_array(json_get(v, "affectedEntryIdxs"@))),
                        reason,
                    },
                )
            }
        } else if kind == "flagContradiction"@ {
            let idxs = indexes_or_empty(json_array(json_get(v, "entryIdxs"@)));
            let description = str_or_empty(json_get(v, "description"@));
            if idxs.len() == 0 || description.len() == 0 {
                None
            } else {
                Some(ChangeView::FlagContradiction { id, entry_idxs: idxs, description })
            }
        } else if kind == "toggleAlwaysActive"@ {
            Some(
                ChangeView::ToggleAlwaysActive {
                    id,
                    entry_idx,
                    new_value: match json_bool(json_get(v, "newValue"@)) {
                        Some(b) => b,
                        None => false,
                    },
                    reason,
                },
            )
        } else {
            None
        }
    }
}

/// The usable proposals, in order.
pub open spec fn changes_of(items: Seq<JsonValue>) -> Seq<ChangeView>
    decreases items.len(),
{
    if items.len() == 0 {
        seq![]
    } else {
        let rest = changes_of(items.drop_last());
        match change_of((items.len() - 1) as nat, items.last()) {
            Some(c) => rest.push(c),
            None => rest,
        }
    }
}

pub open spec fn coherence_result(calls: Seq<ToolCall>) -> Result<Seq<ChangeView>, Seq<char>> {
    match first_named(calls, "propose_coherence_changes"@) {
        None => Err("Model did not call propose_coherence_changes"@),
        Some(i) => match json_array(json_get(calls[i].arguments, "changes"@)) {
            None => Err("propose_coherence_changes missing 'changes' array"@),
            Some(items) => Ok(changes_of(items)),
        },
    }
}

fn str_or_empty_exec(v: Option<&JsonValue>) -> (r: String)
    ensures
        r@ == str_or_empty(crate::json::deref_opt(v)),
{
    match as_str(v) {
        Some(s) => to_string(s),
        None => String::new(),
    }
}

fn indexes_exec(v: Option<&JsonValue>) -> (r: Vec<usize>)
    ensures
        r@ == indexes_or_empty(json_array(crate::json::deref_opt(v))),
{
    match as_array(v) {
        Some(items) => index_items_exec(items),
        None => Vec::new(),
    }
}

fn change_from(i: usize, v: &JsonValue) -> (r: Option<CoherenceChange>)
    ensures
        match r {
            Some(c) => change_of(i as nat, *v) == Some(change_view(c)),
            None => change_of(i as nat, *v) is None,
        },
{
    match v {
        JsonValue::Object(_) => {},
        _ => {
            return None;
        },
    }
    let kind = match as_str(get(v, "kind")) {
        Some(k) => trim(k),
        None => String::new(),
    };
    let id = {
        let mut s = to_string("change_");
        let d = u64_to_string(i as u64);
        s.append(d.as_str());
        s
    };
    let reason = str_or_empty_exec(get(v, "reason"));
    let entry_idx: usize = match as_u64(get(v, "entryIdx")) {
        Some(n) => n as usize,
        None => 0,
    };
    if str_eq(kind.as_str(), "mergeKeys") {
        let keys = match as_array(get(v, "removeKeys")) {
            Some(items) => str_items_exec(items),
            None => Vec::new(),
        };
        if keys.len() == 0 {
            None
        } else {
            Some(CoherenceChange::MergeKeys { id, entry_idx, remove_keys: keys, reason })
        }
    } else if str_eq(kind.as_str(), "renameTerm") {
        let old_term = str_or_empty_exec(get(v, "oldTerm"));
        let new_term = str_or_empty_exec(get(v, "newTerm"));
        if old_term.unicode_len() == 0 || new_term.unicode_len() == 0 || str_eq(
            old_term.as_str(),
            new_term.as_str(),
        ) {
            None
        } else {
            let affected = indexes_exec(get(v, "affectedEntryIdxs"));
            Some(
                CoherenceChange::RenameTerm {
                    id,
                    old_term,
                    new_term,
                    affected_entry_idxs: affected,
                    reason,
                },
            )
        }
    } else if str_eq(kind.as_str(), "flagContradiction") {
        let idxs = indexes_exec(get(v, "entryIdxs"));
        let description = str_or_empty_exec(get(v, "description"));
        if idxs.len() == 0 || description.unicode_len() == 0 {
            None
        } else {
            Some(CoherenceChange::FlagContradiction { id, entry_idxs: idxs, description })
        }
    } else if str_eq(kind.as_str(), "toggleAlwaysActive") {
        let new_value = match as_bool(get(v, "newValue")) {
            Some(b) => b,
            None => false,
        };
        Some(CoherenceChange::ToggleAlwaysActive { id, entry_idx, new_value, reason })
    } else {
        None
    }
}

/// The usable changes the coherence pass proposed.
pub fn parse_coherence_result(calls: &Vec<ToolCall>) -> (r: Result<Vec<CoherenceChange>, String>)
    ensures
        match r {
            Ok(cs) => coherence_result(calls@) == Ok::<Seq<ChangeView>, Seq<char>>(
                cs@.map_values(|c: CoherenceChange| change_view(c)),
            ),
            Err(e) => coherence_result(calls@) == Err::<Seq<ChangeView>, Seq<char>>(e@),
        },
{
    let i = match find_call(calls, "propose_coherence_changes") {
        Some(i) => i,
        None => {
            return Err(to_string("Model did not call propose_coherence_changes"));
        },
    };
    let items = match as_array(get(&calls[i].arguments, "changes")) {
        Some(items) => items,
        None => {
            return Err(to_string("propose_coherence_changes missing 'changes' array"));
        },
    };
    let mut out: Vec<CoherenceChange> = Vec::new();
    let mut k: usize = 0;
    assert(items@.take(0) =~= Seq::<JsonValue>::empty());
    assert(out@.map_values(|c: CoherenceChange| change_view(c)) =~= Seq::<ChangeView>::empty());
    assert(coherence_result(calls@) == Ok::<Seq<ChangeView>, Seq<char>>(changes_of(items@)));
    while k < items.len()
        invariant
            k <= items@.len(),
            coherence_result(calls@) == Ok::<Seq<ChangeView>, Seq<char>>(changes_of(items@)),
            changes_of(items@.take(k as int)) == out@.map_values(
                |c: CoherenceChange| change_view(c),
            ),
        decreases items@.len() - k,
    {
        assert(items@.take(k + 1).drop_last() =~= items@.take(k as int));
        assert(items@.take(k + 1).last() == items@[k as int]);
        match change_from(k, &items[k]) {
            Some(c) => {
                let ghost before = out@.map_values(|c: CoherenceChange| change_view(c));
                out.push(c);
                assert(out@.map_values(|c: CoherenceChange| change_view(c)) =~= before.push(
                    change_view(out@.last()),
                ));
            },
            None => {},
        }
        k += 1;
    }
    assert(items@.take(items@.len() as int) =~= items@);
    Ok(out)
}

// ------------------------------------------------------------------
// The prompt entries of a pipeline step
// ------------------------------------------------------------------

/// A text with each `(key, value)` replacement applied in turn.
pub open spec fn replaced_all(t: Seq<char>, reps: Seq<(String, String)>) -> Seq<char>
    decreases reps.len(),
{
    if reps.len() == 0 {
        t
    } else {
        replace_seq(replaced_all(t, reps.drop_last()), reps.last().0@, reps.last().1@)
    }
}

fn replace_all(t: &str, replacements: &Vec<(String, String)>) -> (r: String)
    ensures
        r@ == replaced_all(t@, replacements@),
{
    let mut out = to_string(t);
    let mut i: usize = 0;
    while i < replacements.len()
        invariant
            i <= replacements@.len(),
            out@ == replaced_all(t@, replacements@.take(i as int)),
        decreases replacements@.len() - i,
    {
        assert(replacements@.take(i + 1).drop_last() =~= replacements@.take(i as int));
        out = replace(out.as_str(), replacements[i].0.as_str(), replacements[i].1.as_str());
        i += 1;
    }
    assert(replacements@.take(i as int) =~= replacements@);
    out
}

/// An entry kept by the rendering: active, and with text after the
/// replacements or with a payload.
pub open spec fn rendered_kept(
    e: SystemPromptEntry,
    active: bool,
    reps: Seq<(String, String)>,
) -> bool {
    active && (trim_seq(replaced_all(e.content@, reps)).len() != 0 || e.prompt_entry_payload is Some)
}

/// The positions of the entries that the rendering keeps, among the
/// first `n`.
pub open spec fn kept_indices(
    entries: Seq<SystemPromptEntry>,
    active: Seq<bool>,
    reps: Seq<(String, String)>,
    n: int,
) -> Seq<int>
    decreases n,
{
    if n <= 0 {
        seq![]
    } else {
        kept_indices(entries, active, reps, n - 1) + if rendered_kept(entries[n - 1], active[n - 1], reps) {
            seq![n - 1]
        } else {
            seq![]
        }
    }
}

/// `r` holds the entries at `kept`, each with its content replaced by the
/// text after the replacements.
pub open spec fn rendered_as(
    r: Seq<SystemPromptEntry>,
    entries: Seq<SystemPromptEntry>,
    reps: Seq<(String, String)>,
    kept: Seq<int>,
) -> bool {
    &&& r.len() == kept.len()
    &&& forall|j: int|
        0 <= j < kept.len() ==> (#[trigger] r[j]).content@ == replaced_all(
            entries[kept[j]].content@,
            reps,
        ) && r[j] == (SystemPromptEntry { content: r[j].content, ..entries[kept[j]] })
}

/// The active entries of a step with the replacements made in their
/// content, those left blank without a payload dropped; `active` says of
/// each entry whether its conditions hold.
pub fn render_entries(
    entries: &Vec<SystemPromptEntry>,
    active: &Vec<bool>,
    replacements: &Vec<(String, String)>,
) -> (r: Vec<SystemPromptEntry>)
    requires
        active@.len() == entries@.len(),
    ensures
        rendered_as(
            r@,
            entries@,
            replacements@,
            kept_indices(entries@, active@, replacements@, entries@.len() as int),
        ),
{
    let mut out: Vec<SystemPromptEntry> = Vec::new();
    let mut i: usize = 0;
    while i < entries.len()
        invariant
            i <= entries@.len(),
            active@.len() == entries@.len(),
            rendered_as(
                out@,
                entries@,
                replacements@,
                kept_indices(entries@, active@, replacements@, i as int),
            ),
        decreases entries@.len() - i,
    {
        let ghost before = out@;
        let ghost ks = kept_indices(entries@, active@, replacements@, i as int);
        if active[i] {
            let e = &entries[i];
            let content = replace_all(e.content.as_str(), replacements);
            if !is_blank(content.as_str()) || e.prompt_entry_payload.is_some() {
                let mut next = copy_entry(e);
                next.content = content;
                out.push(next);
                assert(kept_indices(entries@, active@, replacements@, i + 1) =~= ks.push(i as int));
                assert forall|j: int| 0 <= j < ks.len() + 1 implies (#[trigger] out@[j]).content@
                    == replaced_all(entries@[ks.push(i as int)[j]].content@, replacements@)
                    && out@[j] == (SystemPromptEntry {
                    content: out@[j].content,
                    ..entries@[ks.push(i as int)[j]]
                }) by {
                    if j < ks.len() {
                        assert(out@[j] == before[j]);
                    }
                }
            } else {
                assert(kept_indices(entries@, active@, replacements@, i + 1) =~= ks);
            }
        } else {
            assert(kept_indices(entries@, active@, replacements@, i + 1) =~= ks);
        }
        i += 1;
    }
    out
}

/// A step's messages: each entry with text, trimmed, as a message of its
/// role (system entries under `system_role`), then the final instruction as
/// a user message.
pub open spec fn step_messages(
    system_role: Seq<char>,
    entries: Seq<SystemPromptEntry>,
) -> Seq<(Seq<char>, Seq<char>)>
    decreases entries.len(),
{
    if entries.len() == 0 {
        seq![]
    } else {
        let e = entries.last();
        step_messages(system_role, entries.drop_last()) + if trim_seq(e.content@).len() == 0 {
            seq![]
        } else {
            seq![
                (
                    match e.role {
                        PromptEntryRole::System => system_role,
                        PromptEntryRole::User => "user"@,
                        PromptEntryRole::Assistant => "assistant"@,
                    },
                    trim_seq(e.content@),
                ),
            ]
        }
    }
}

pub open spec fn message_pairs(ms: Seq<(String, String)>) -> Seq<(Seq<char>, Seq<char>)> {
    ms.map_values(|m: (String, String)| (m.0@, m.1@))
}

pub fn entries_to_messages(
    system_role: &str,
    entries: &Vec<SystemPromptEntry>,
    final_user_instruction: &str,
) -> (r: Vec<(String, String)>)
    ensures
        message_pairs(r@) == step_messages(system_role@, entries@).push(
            ("user"@, final_user_instruction@),
        ),
{
    let mut out: Vec<(String, String)> = Vec::new();
    let mut i: usize = 0;
    while i < entries.len()
        invariant
            i <= entries@.len(),
            message_pairs(out@) == step_messages(system_role@, entries@.take(i as int)),
        decreases entries@.len() - i,
    {
        assert(entries@.take(i + 1).drop_last() =~= entries@.take(i as int));
        assert(entries@.take(i + 1).last() == entries@[i as int]);
        let e = &entries[i];
        let ghost before = message_pairs(out@);
        if !is_blank(e.content.as_str()) {
            let role = match e.role {
                PromptEntryRole::System => to_string(system_role),
                PromptEntryRole::User => to_string("user"),
                PromptEntryRole::Assistant => to_string("assistant"),
            };
            out.push((role, trim(e.content.as_str())));
            assert(message_pairs(out@) =~= before + seq![message_pairs(out@).last()]);
        } else {
            assert(before + Seq::<(Seq<char>, Seq<char>)>::empty() =~= before);
        }
        assert(message_pairs(out@) =~= step_messages(system_role@, entries@.take(i + 1)));
        i += 1;
    }
    assert(entries@.take(i as int) =~= entries@);
    let ghost before = message_pairs(out@);
    out.push((to_string("user"), to_string(final_user_instruction)));
    assert(message_pairs(out@) =~= before.push(("user"@, final_user_instruction@)));
    out
}

} // verus!
