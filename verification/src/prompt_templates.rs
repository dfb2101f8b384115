//! Prompt templates as lists of entries: their merged text, the text that
//! required-variable validation reads, and the variables a template needs.
use vstd::prelude::*;

use crate::parameter_engine::{self, missing_names, required_names};
use crate::prompt_types::{
    expected_protected_prompt_type, is_app_default_id, template_prompt_type_from_id, template_type_of, PromptEntryImageSlot, PromptEntryPayload,
    PromptEntryPosition, PromptEntryRole, PromptTemplateType, SystemPromptEntry,
};
use crate::text::{is_blank, join, join_seq, str_eq, to_string, trim, trim_seq, views};

verus! {

/// Every template can be edited as a list of entries.
pub fn supports_entry_prompts(_id: &str) -> (r: bool)
    ensures
        r,
{
    true
}

/// A template made of one enabled system entry holding `content`.
pub fn single_entry_from_content(content: &str) -> (r: Vec<SystemPromptEntry>)
    ensures
        r@.len() == 1,
        r@[0].id@ == "entry_system"@,
        r@[0].name@ == "System Prompt"@,
        r@[0].role == PromptEntryRole::System,
        r@[0].content@ == content@,
        r@[0].enabled,
        r@[0].injection_position == PromptEntryPosition::Relative,
        r@[0].injection_depth == 0,
        r@[0].conditional_min_messages is None,
        r@[0].interval_turns is None,
        r@[0].system_prompt,
        r@[0].conditions is None,
        r@[0].prompt_entry_payload is None,
{
    let mut v: Vec<SystemPromptEntry> = Vec::new();
    v.push(
        SystemPromptEntry {
            id: to_string("entry_system"),
            name: to_string("System Prompt"),
            role: PromptEntryRole::System,
            content: to_string(content),
            enabled: true,
            injection_position: PromptEntryPosition::Relative,
            injection_depth: 0,
            conditional_min_messages: None,
            interval_turns: None,
            system_prompt: true,
            conditions: None,
            prompt_entry_payload: None,
        },
    );
    v
}

/// The contents of the enabled, non-blank entries, in order.
pub open spec fn enabled_contents(es: Seq<SystemPromptEntry>) -> Seq<Seq<char>>
    decreases es.len(),
{
    if es.len() == 0 {
        seq![]
    } else {
        enabled_contents(es.drop_last()) + if es.last().enabled && trim_seq(es.last().content@).len()
            != 0 {
            seq![es.last().content@]
        } else {
            seq![]
        }
    }
}

/// The template's text: its enabled entries separated by blank lines, or
/// nothing when that is blank.
pub open spec fn merged_content(es: Seq<SystemPromptEntry>) -> Seq<char> {
    let merged = join_seq(enabled_contents(es), "\n\n"@);
    if trim_seq(merged).len() == 0 {
        seq![]
    } else {
        merged
    }
}

/// Whether an entry takes part in the template's text: it is enabled and
/// its content is not blank.
pub open spec fn contributes(e: SystemPromptEntry) -> bool {
    e.enabled && trim_seq(e.content@).len() != 0
}

/// An entry that is disabled, or blank, contributes nothing: taking it out
/// leaves the merged parts, and so the template's text, as they were.
pub proof fn lemma_non_contributing_entry_is_ignored(es: Seq<SystemPromptEntry>, k: int)
    requires
        0 <= k < es.len(),
        !contributes(es[k]),
    ensures
        enabled_contents(es.remove(k)) == enabled_contents(es),
        merged_content(es.remove(k)) == merged_content(es),
    decreases es.len(),
{
    if k == es.len() - 1 {
        assert(es.remove(k) =~= es.drop_last());
        assert(enabled_contents(es) =~= enabled_contents(es.drop_last()) + Seq::<Seq<char>>::empty());
    } else {
        lemma_non_contributing_entry_is_ignored(es.drop_last(), k);
        assert(es.remove(k).drop_last() =~= es.drop_last().remove(k));
        assert(es.remove(k).last() == es.last());
    }
}

/// The parts merged into the template's text are the contents of exactly
/// the contributing entries, in their order.
pub proof fn lemma_merged_parts_are_contributing_entries(es: Seq<SystemPromptEntry>)
    ensures
        enabled_contents(es) == es.filter(|e: SystemPromptEntry| contributes(e)).map_values(
            |e: SystemPromptEntry| e.content@,
        ),
    decreases es.len(),
{
    reveal(Seq::filter);
    if es.len() > 0 {
        lemma_merged_parts_are_contributing_entries(es.drop_last());
        let f = es.drop_last().filter(|e: SystemPromptEntry| contributes(e));
        if contributes(es.last()) {
            assert(f.push(es.last()).map_values(|e: SystemPromptEntry| e.content@) =~= f.map_values(
                |e: SystemPromptEntry| e.content@,
            ) + seq![es.last().content@]);
        } else {
            assert(f.map_values(|e: SystemPromptEntry| e.content@) + Seq::<Seq<char>>::empty()
                =~= f.map_values(|e: SystemPromptEntry| e.content@));
        }
    }
}

pub fn template_entries_to_content(entries: &Vec<SystemPromptEntry>) -> (r: String)
    ensures
        r@ == merged_content(entries@),
{
    let mut parts: Vec<String> = Vec::new();
    let mut i: usize = 0;
    while i < entries.len()
        invariant
            i <= entries@.len(),
            views(parts@) == enabled_contents(entries@.take(i as int)),
        decreases entries@.len() - i,
    {
        assert(entries@.take(i + 1).drop_last() =~= entries@.take(i as int));
        assert(entries@.take(i + 1).last() == entries@[i as int]);
        let ghost before = views(parts@);
        let e = &entries[i];
        if e.enabled && !is_blank(e.content.as_str()) {
            parts.push(e.content.clone());
            assert(views(parts@) =~= before + seq![e.content@]);
        } else {
            assert(views(parts@) =~= before + Seq::<Seq<char>>::empty());
        }
        i += 1;
    }
    assert(entries@.take(entries@.len() as int) =~= entries@);
    let merged = join(&parts, "\n\n");
    if is_blank(merged.as_str()) {
        String::new()
    } else {
        merged
    }
}

/// The placeholder that stands for an entry's image payload.
pub open spec fn payload_variable(p: PromptEntryPayload) -> Seq<char> {
    match p {
        PromptEntryPayload::ImageSlot { slot } => match slot {
            PromptEntryImageSlot::Character => "{{image[character]}}"@,
            PromptEntryImageSlot::Persona => "{{image[persona]}}"@,
            PromptEntryImageSlot::ChatBackground => "{{image[chatBackground]}}"@,
            PromptEntryImageSlot::Avatar => "{{image[avatar]}}"@,
            PromptEntryImageSlot::References => "{{image[references]}}"@,
        },
    }
}

pub fn prompt_entry_payload_variable(payload: &PromptEntryPayload) -> (r: &'static str)
    ensures
        r@ == payload_variable(*payload),
{
    match payload {
        PromptEntryPayload::ImageSlot { slot } => match slot {
            PromptEntryImageSlot::Character => "{{image[character]}}",
            PromptEntryImageSlot::Persona => "{{image[persona]}}",
            PromptEntryImageSlot::ChatBackground => "{{image[chatBackground]}}",
            PromptEntryImageSlot::Avatar => "{{image[avatar]}}",
            PromptEntryImageSlot::References => "{{image[references]}}",
        },
    }
}

/// What one entry contributes to validation: its non-blank content, then
/// the placeholder of its payload.
pub open spec fn entry_validation_parts(e: SystemPromptEntry) -> Seq<Seq<char>> {
    (if trim_seq(e.content@).len() != 0 {
        seq![e.content@]
    } else {
        seq![]
    }) + match e.prompt_entry_payload {
        Some(p) => seq![payload_variable(p)],
        None => seq![],
    }
}

/// The parts of the entries that are enabled or are the system prompt.
pub open spec fn validation_parts(es: Seq<SystemPromptEntry>) -> Seq<Seq<char>>
    decreases es.len(),
{
    if es.len() == 0 {
        seq![]
    } else {
        validation_parts(es.drop_last()) + if es.last().enabled || es.last().system_prompt {
            entry_validation_parts(es.last())
        } else {
            seq![]
        }
    }
}

pub fn template_entries_to_validation_content(entries: &Vec<SystemPromptEntry>) -> (r: String)
    ensures
        r@ == join_seq(validation_parts(entries@), "\n\n"@),
{
    let mut parts: Vec<String> = Vec::new();
    let mut i: usize = 0;
    while i < entries.len()
        invariant
            i <= entries@.len(),
            views(parts@) == validation_parts(entries@.take(i as int)),
        decreases entries@.len() - i,
    {
        assert(entries@.take(i + 1).drop_last() =~= entries@.take(i as int));
        assert(entries@.take(i + 1).last() == entries@[i as int]);
        let ghost before = views(parts@);
        let e = &entries[i];
        if e.enabled || e.system_prompt {
            let blank = is_blank(e.content.as_str());
            if !blank {
                parts.push(e.content.clone());
            }
            let ghost mid = views(parts@);
            assert(mid =~= before + if !blank {
                seq![e.content@]
            } else {
                Seq::<Seq<char>>::empty()
            });
            match &e.prompt_entry_payload {
                Some(p) => {
                    parts.push(to_string(prompt_entry_payload_variable(p)));
                    assert(views(parts@) =~= mid + seq![payload_variable(*p)]);
                },
                None => {
                    assert(views(parts@) =~= mid + Seq::<Seq<char>>::empty());
                },
            }
            assert(views(parts@) =~= before + entry_validation_parts(*e));
        } else {
            assert(views(parts@) =~= before + Seq::<Seq<char>>::empty());
        }
        i += 1;
    }
    assert(entries@.take(entries@.len() as int) =~= entries@);
    join(&parts, "\n\n")
}

/// The placeholders the built-in template `template_id` must contain.
pub fn get_required_variables(template_id: &str) -> (r: Vec<String>)
    ensures
        views(r@) == required_names(template_type_of(template_id@)),
{
    parameter_engine::required_variables_for_prompt_type(template_prompt_type_from_id(template_id))
}

/// See `parameter_engine::validate_required_variables`.
pub fn validate_required_variables(prompt_type: PromptTemplateType, content: &str) -> (r: Result<
    (),
    Vec<String>,
>)
    ensures
        match r {
            Ok(_) => missing_names(required_names(prompt_type), content@).len() == 0,
            Err(m) => views(m@) == missing_names(required_names(prompt_type), content@)
                && m@.len() > 0,
        },
{
    parameter_engine::validate_required_variables(prompt_type, content)
}

// ------------------------------------------------------------------
// Template upkeep: what a migration or backfill changes in the entries
// ------------------------------------------------------------------

fn copy_opt_string(o: &Option<String>) -> (r: Option<String>)
    ensures
        r == *o,
{
    match o {
        Some(s) => Some(s.clone()),
        None => None,
    }
}

/// A copy of an entry.
pub fn copy_entry(e: &SystemPromptEntry) -> (r: SystemPromptEntry)
    ensures
        r == *e,
{
    SystemPromptEntry {
        id: e.id.clone(),
        name: e.name.clone(),
        role: e.role,
        content: e.content.clone(),
        enabled: e.enabled,
        injection_position: e.injection_position,
        injection_depth: e.injection_depth,
        conditional_min_messages: e.conditional_min_messages,
        interval_turns: e.interval_turns,
        system_prompt: e.system_prompt,
        conditions: copy_opt_string(&e.conditions),
        prompt_entry_payload: e.prompt_entry_payload,
    }
}

pub open spec fn has_entry_id(es: Seq<SystemPromptEntry>, id: Seq<char>) -> bool {
    exists|i: int| 0 <= i < es.len() && (#[trigger] es[i]).id@ == id
}

/// The entries with `entry` added at the end, unless an entry called
/// `entry_id` is already there (then nothing is to be written).
pub fn append_missing_entry(
    entries: &Vec<SystemPromptEntry>,
    entry_id: &str,
    entry: SystemPromptEntry,
) -> (r: Option<Vec<SystemPromptEntry>>)
    ensures
        r is None <==> has_entry_id(entries@, entry_id@),
        r matches Some(next) ==> next@ == entries@.push(entry),
{
    let mut i: usize = 0;
    while i < entries.len()
        invariant
            i <= entries@.len(),
            forall|j: int| 0 <= j < i ==> (#[trigger] entries@[j]).id@ != entry_id@,
        decreases entries@.len() - i,
    {
        if str_eq(entries[i].id.as_str(), entry_id) {
            return None;
        }
        i += 1;
    }
    let mut next: Vec<SystemPromptEntry> = Vec::new();
    let mut k: usize = 0;
    while k < entries.len()
        invariant
            k <= entries@.len(),
            next@ == entries@.take(k as int),
        decreases entries@.len() - k,
    {
        next.push(copy_entry(&entries[k]));
        assert(next@ =~= entries@.take(k + 1));
        k += 1;
    }
    assert(entries@.take(entries@.len() as int) =~= entries@);
    next.push(entry);
    Some(next)
}

/// The first default entry with the id `id` for which `has` holds.
pub open spec fn first_default(
    defaults: Seq<SystemPromptEntry>,
    id: Seq<char>,
    has: spec_fn(SystemPromptEntry) -> bool,
) -> Option<SystemPromptEntry>
    decreases defaults.len(),
{
    if defaults.len() == 0 {
        None
    } else if defaults[0].id@ == id && has(defaults[0]) {
        Some(defaults[0])
    } else {
        first_default(defaults.drop_first(), id, has)
    }
}

pub open spec fn has_conditions(e: SystemPromptEntry) -> bool {
    e.conditions is Some
}

pub open spec fn has_payload(e: SystemPromptEntry) -> bool {
    e.prompt_entry_payload is Some
}

fn find_default<'a>(defaults: &'a Vec<SystemPromptEntry>, id: &str, want_payload: bool) -> (r: Option<
    &'a SystemPromptEntry,
>)
    ensures
        deref_entry(r) == first_default(
            defaults@,
            id@,
            if want_payload {
                |e: SystemPromptEntry| has_payload(e)
            } else {
                |e: SystemPromptEntry| has_conditions(e)
            },
        ),
{
    let ghost has = if want_payload {
        |e: SystemPromptEntry| has_payload(e)
    } else {
        |e: SystemPromptEntry| has_conditions(e)
    };
    let mut i: usize = 0;
    assert(defaults@.skip(0) =~= defaults@);
    while i < defaults.len()
        invariant
            i <= defaults@.len(),
            first_default(defaults@, id@, has) == first_default(defaults@.skip(i as int), id@, has),
            has == (if want_payload {
                |e: SystemPromptEntry| has_payload(e)
            } else {
                |e: SystemPromptEntry| has_conditions(e)
            }),
        decreases defaults@.len() - i,
    {
        assert(defaults@.skip(i as int).drop_first() =~= defaults@.skip(i + 1));
        assert(defaults@.skip(i as int)[0] == defaults@[i as int]);
        let d = &defaults[i];
        let ok = if want_payload {
            d.prompt_entry_payload.is_some()
        } else {
            d.conditions.is_some()
        };
        if str_eq(d.id.as_str(), id) && ok {
            return Some(d);
        }
        i += 1;
    }
    None
}

pub open spec fn deref_entry(r: Option<&SystemPromptEntry>) -> Option<SystemPromptEntry> {
    match r {
        Some(e) => Some(*e),
        None => None,
    }
}

/// An entry without conditions takes those of its default.
pub open spec fn with_default_conditions(
    e: SystemPromptEntry,
    defaults: Seq<SystemPromptEntry>,
) -> SystemPromptEntry {
    match first_default(defaults, e.id@, |d: SystemPromptEntry| has_conditions(d)) {
        Some(d) => if e.conditions is None {
            SystemPromptEntry { conditions: d.conditions, ..e }
        } else {
            e
        },
        None => e,
    }
}

pub open spec fn gains_conditions(e: SystemPromptEntry, defaults: Seq<SystemPromptEntry>) -> bool {
    e.conditions is None && first_default(defaults, e.id@, |d: SystemPromptEntry| has_conditions(d))
        is Some
}

/// An entry without a payload takes that of its default.
pub open spec fn with_default_payload(
    e: SystemPromptEntry,
    defaults: Seq<SystemPromptEntry>,
) -> SystemPromptEntry {
    match first_default(defaults, e.id@, |d: SystemPromptEntry| has_payload(d)) {
        Some(d) => if e.prompt_entry_payload is None {
            SystemPromptEntry { prompt_entry_payload: d.prompt_entry_payload, ..e }
        } else {
            e
        },
        None => e,
    }
}

pub open spec fn gains_payload(e: SystemPromptEntry, defaults: Seq<SystemPromptEntry>) -> bool {
    e.prompt_entry_payload is None && first_default(
        defaults,
        e.id@,
        |d: SystemPromptEntry| has_payload(d),
    ) is Some
}

/// The entries with the conditions of their defaults filled in where they
/// had none; nothing when there are no entries or none changed.
pub fn backfill_missing_entry_conditions(
    entries: &Vec<SystemPromptEntry>,
    defaults: &Vec<SystemPromptEntry>,
) -> (r: Option<Vec<SystemPromptEntry>>)
    ensures
        r is Some <==> exists|i: int|
            0 <= i < entries@.len() && gains_conditions(#[trigger] entries@[i], defaults@),
        r matches Some(next) ==> next@ == entries@.map_values(
            |e: SystemPromptEntry| with_default_conditions(e, defaults@),
        ),
{
    let mut next: Vec<SystemPromptEntry> = Vec::new();
    let mut changed = false;
    let mut i: usize = 0;
    while i < entries.len()
        invariant
            i <= entries@.len(),
            next@ == entries@.take(i as int).map_values(
                |e: SystemPromptEntry| with_default_conditions(e, defaults@),
            ),
            changed <==> exists|j: int| 0 <= j < i && gains_conditions(#[trigger] entries@[j], defaults@),
        decreases entries@.len() - i,
    {
        let e = &entries[i];
        let mut copy = copy_entry(e);
        if e.conditions.is_none() {
            match find_default(defaults, e.id.as_str(), false) {
                Some(d) => {
                    copy.conditions = copy_opt_string(&d.conditions);
                    changed = true;
                },
                None => {},
            }
        }
        assert(copy == with_default_conditions(entries@[i as int], defaults@));
        next.push(copy);
        assert(next@ =~= entries@.take(i + 1).map_values(
            |e: SystemPromptEntry| with_default_conditions(e, defaults@),
        ));
        i += 1;
    }
    assert(entries@.take(entries@.len() as int) =~= entries@);
    if changed {
        Some(next)
    } else {
        None
    }
}

/// The entries with the payloads of their defaults filled in where they
/// had none; nothing when there are no entries or none changed.
pub fn backfill_missing_entry_payloads(
    entries: &Vec<SystemPromptEntry>,
    defaults: &Vec<SystemPromptEntry>,
) -> (r: Option<Vec<SystemPromptEntry>>)
    ensures
        r is Some <==> exists|i: int|
            0 <= i < entries@.len() && gains_payload(#[trigger] entries@[i], defaults@),
        r matches Some(next) ==> next@ == entries@.map_values(
            |e: SystemPromptEntry| with_default_payload(e, defaults@),
        ),
{
    let mut next: Vec<SystemPromptEntry> = Vec::new();
    let mut changed = false;
    let mut i: usize = 0;
    while i < entries.len()
        invariant
            i <= entries@.len(),
            next@ == entries@.take(i as int).map_values(
                |e: SystemPromptEntry| with_default_payload(e, defaults@),
            ),
            changed <==> exists|j: int| 0 <= j < i && gains_payload(#[trigger] entries@[j], defaults@),
        decreases entries@.len() - i,
    {
        let e = &entries[i];
        let mut copy = copy_entry(e);
        if e.prompt_entry_payload.is_none() {
            match find_default(defaults, e.id.as_str(), true) {
                Some(d) => {
                    copy.prompt_entry_payload = d.prompt_entry_payload;
                    changed = true;
                },
                None => {},
            }
        }
        assert(copy == with_default_payload(entries@[i as int], defaults@));
        next.push(copy);
        assert(next@ =~= entries@.take(i + 1).map_values(
            |e: SystemPromptEntry| with_default_payload(e, defaults@),
        ));
        i += 1;
    }
    assert(entries@.take(entries@.len() as int) =~= entries@);
    if changed {
        Some(next)
    } else {
        None
    }
}

/// An entry whose content is just the placeholder of its default's payload,
/// where the default itself has no text.
pub open spec fn clears_legacy_content(e: SystemPromptEntry, defaults: Seq<SystemPromptEntry>) -> bool {
    match first_default(defaults, e.id@, |d: SystemPromptEntry| has_payload(d)) {
        Some(d) => match d.prompt_entry_payload {
            Some(p) => trim_seq(d.content@).len() == 0 && trim_seq(e.content@) == payload_variable(p),
            None => false,
        },
        None => false,
    }
}

/// The entries whose content was only the placeholder of an image payload,
/// with that content emptied; nothing when no entry changed.
pub fn backfill_legacy_image_entry_content(
    entries: &Vec<SystemPromptEntry>,
    defaults: &Vec<SystemPromptEntry>,
) -> (r: Option<Vec<SystemPromptEntry>>)
    ensures
        r is Some <==> exists|i: int|
            0 <= i < entries@.len() && clears_legacy_content(#[trigger] entries@[i], defaults@),
        r matches Some(next) ==> {
            &&& next@.len() == entries@.len()
            &&& forall|i: int|
                0 <= i < entries@.len() ==> if clears_legacy_content(entries@[i], defaults@) {
                    (#[trigger] next@[i]).content@.len() == 0 && next@[i] == (SystemPromptEntry {
                        content: next@[i].content,
                        ..entries@[i]
                    })
                } else {
                    next@[i] == entries@[i]
                }
        },
{
    let mut next: Vec<SystemPromptEntry> = Vec::new();
    let mut changed = false;
    let mut i: usize = 0;
    while i < entries.len()
        invariant
            i <= entries@.len(),
            next@.len() == i,
            forall|j: int|
                0 <= j < i ==> if clears_legacy_content(entries@[j], defaults@) {
                    (#[trigger] next@[j]).content@.len() == 0 && next@[j] == (SystemPromptEntry {
                        content: next@[j].content,
                        ..entries@[j]
                    })
                } else {
                    next@[j] == entries@[j]
                },
            changed <==> exists|j: int|
                0 <= j < i && clears_legacy_content(#[trigger] entries@[j], defaults@),
        decreases entries@.len() - i,
    {
        let e = &entries[i];
        let mut copy = copy_entry(e);
        match find_default(defaults, e.id.as_str(), true) {
            Some(d) => match &d.prompt_entry_payload {
                Some(p) => {
                    let own = trim(e.content.as_str());
                    if is_blank(d.content.as_str()) && str_eq(
                        own.as_str(),
                        prompt_entry_payload_variable(p),
                    ) {
                        copy.content = String::new();
                        changed = true;
                    }
                },
                None => {},
            },
            None => {},
        }
        next.push(copy);
        i += 1;
    }
    if changed {
        Some(next)
    } else {
        None
    }
}

/// The entries of the scene generation template that carry the user's
/// side of the request.
pub open spec fn is_scene_user_payload_id(id: Seq<char>) -> bool {
    id == "scene_gen_context"@ || id == "scene_gen_character_image"@ || id
        == "scene_gen_chat_background"@ || id == "scene_gen_persona_image"@ || id
        == "scene_gen_request"@
}

/// Such an entry still stored as a relative system entry, as it once was.
pub open spec fn legacy_scene_entry(e: SystemPromptEntry) -> bool {
    is_scene_user_payload_id(e.id@) && e.role == PromptEntryRole::System && e.injection_position
        == PromptEntryPosition::Relative
}

/// A legacy scene entry turned into a user message in the chat.
pub open spec fn migrated_scene_entry(e: SystemPromptEntry) -> SystemPromptEntry {
    if legacy_scene_entry(e) {
        SystemPromptEntry {
            role: PromptEntryRole::User,
            injection_position: PromptEntryPosition::InChat,
            injection_depth: 0,
            conditional_min_messages: None,
            interval_turns: None,
            ..e
        }
    } else {
        e
    }
}

/// The scene generation entries with their legacy entries moved into the
/// chat as user messages; nothing when none was legacy.
pub fn migrate_legacy_scene_generation_entry_roles(entries: &Vec<SystemPromptEntry>) -> (r: Option<
    Vec<SystemPromptEntry>,
>)
    ensures
        r is Some <==> exists|i: int| 0 <= i < entries@.len() && legacy_scene_entry(#[trigger] entries@[i]),
        r matches Some(next) ==> next@ == entries@.map_values(
            |e: SystemPromptEntry| migrated_scene_entry(e),
        ),
{
    let mut next: Vec<SystemPromptEntry> = Vec::new();
    let mut changed = false;
    let mut i: usize = 0;
    while i < entries.len()
        invariant
            i <= entries@.len(),
            next@ == entries@.take(i as int).map_values(|e: SystemPromptEntry| migrated_scene_entry(e)),
            changed <==> exists|j: int| 0 <= j < i && legacy_scene_entry(#[trigger] entries@[j]),
        decreases entries@.len() - i,
    {
        let e = &entries[i];
        let mut copy = copy_entry(e);
        let id = e.id.as_str();
        let is_scene_user_payload = str_eq(id, "scene_gen_context") || str_eq(
            id,
            "scene_gen_character_image",
        ) || str_eq(id, "scene_gen_chat_background") || str_eq(id, "scene_gen_persona_image")
            || str_eq(id, "scene_gen_request");
        let looks_like_legacy_default = e.role == PromptEntryRole::System && e.injection_position
            == PromptEntryPosition::Relative;
        if is_scene_user_payload && looks_like_legacy_default {
            copy.role = PromptEntryRole::User;
            copy.injection_position = PromptEntryPosition::InChat;
            copy.injection_depth = 0;
            copy.conditional_min_messages = None;
            copy.interval_turns = None;
            changed = true;
        }
        assert(copy == migrated_scene_entry(entries@[i as int]));
        next.push(copy);
        assert(next@ =~= entries@.take(i + 1).map_values(
            |e: SystemPromptEntry| migrated_scene_entry(e),
        ));
        i += 1;
    }
    assert(entries@.take(entries@.len() as int) =~= entries@);
    if changed {
        Some(next)
    } else {
        None
    }
}

/// The kind to store for a built-in template whose stored kind is
/// `current`, when it must change.
pub fn repaired_protected_prompt_type(id: &str, current: PromptTemplateType) -> (r: Option<
    PromptTemplateType,
>)
    ensures
        r == (if is_app_default_id(id@) && template_type_of(id@) != PromptTemplateType::Undefined
            && template_type_of(id@) != current {
            Some(template_type_of(id@))
        } else {
            None
        }),
{
    match expected_protected_prompt_type(id) {
        Some(expected) => if expected == current {
            None
        } else {
            Some(expected)
        },
        None => None,
    }
}

/// Whether a template still holding only its base text gets the base
/// entries: it has no entries and its text is the base text, both trimmed.
pub fn should_backfill_entries(entries: &Vec<SystemPromptEntry>, content: &str, base: &str) -> (r:
    bool)
    ensures
        r == (entries@.len() == 0 && trim_seq(content@) == trim_seq(base@)),
{
    if entries.len() != 0 {
        return false;
    }
    let a = trim(content);
    let b = trim(base);
    str_eq(a.as_str(), b.as_str())
}

/// Whether a template's text is a legacy default (compared trimmed), which
/// is then replaced by the current default.
pub fn is_legacy_template_content(content: &str, legacy_content: &str) -> (r: bool)
    ensures
        r == (trim_seq(content@) == trim_seq(legacy_content@)),
{
    let a = trim(content);
    let b = trim(legacy_content);
    str_eq(a.as_str(), b.as_str())
}

// ------------------------------------------------------------------
// Upkeep run twice changes nothing
// ------------------------------------------------------------------

/// After its conditions are filled in, an entry gains no conditions
/// again: the backfill changes nothing the second time.
pub proof fn lemma_conditions_backfill_settles(e: SystemPromptEntry, defaults: Seq<SystemPromptEntry>)
    ensures
        !gains_conditions(with_default_conditions(e, defaults), defaults),
{
    lemma_first_default_has(defaults, e.id@, |d: SystemPromptEntry| has_conditions(d));
}

/// After its payload is filled in, an entry gains no payload again.
pub proof fn lemma_payload_backfill_settles(e: SystemPromptEntry, defaults: Seq<SystemPromptEntry>)
    ensures
        !gains_payload(with_default_payload(e, defaults), defaults),
{
    lemma_first_default_has(defaults, e.id@, |d: SystemPromptEntry| has_payload(d));
}

/// The default found has the id looked for and what was asked of it.
pub proof fn lemma_first_default_has(
    defaults: Seq<SystemPromptEntry>,
    id: Seq<char>,
    has: spec_fn(SystemPromptEntry) -> bool,
)
    ensures
        first_default(defaults, id, has) matches Some(d) ==> has(d) && d.id@ == id,
    decreases defaults.len(),
{
    if defaults.len() > 0 {
        lemma_first_default_has(defaults.drop_first(), id, has);
    }
}

/// A migrated scene entry is no legacy entry any more.
pub proof fn lemma_scene_migration_settles(e: SystemPromptEntry)
    ensures
        !legacy_scene_entry(migrated_scene_entry(e)),
{
}

/// Once appended, an entry is there: appending it again changes nothing.
pub proof fn lemma_appended_entry_is_present(entries: Seq<SystemPromptEntry>, entry: SystemPromptEntry)
    ensures
        has_entry_id(entries.push(entry), entry.id@),
{
    assert(entries.push(entry)[entries.len() as int] == entry);
}

} // verus!
