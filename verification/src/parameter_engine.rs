//! The variables that each kind of prompt template may use and must use,
//! and the catalogue of template kinds offered to the editor.
use vstd::prelude::*;

use crate::prompt_types::{PromptEntryImageSlot, PromptTemplateType};
use crate::text::{contains, has_sub, str_eq, to_string, views};

verus! {

/// A placeholder that a template may contain, with its display text.
pub struct PromptVariableDefinition {
    pub variable: String,
    pub label: String,
    pub description: String,
}

/// A template kind together with what its templates may and must contain.
pub struct PromptTypeDefinition {
    pub prompt_type: PromptTemplateType,
    pub label: String,
    pub allowed_variables: Vec<PromptVariableDefinition>,
    pub required_variables: Vec<String>,
    pub allowed_image_slots: Vec<PromptEntryImageSlot>,
}

/// The catalogue of template kinds.
pub struct PromptParameterEngine {
    pub prompt_types: Vec<PromptTypeDefinition>,
}

/// Placeholder, label and description of a variable.
pub type DefView = (Seq<char>, Seq<char>, Seq<char>);

pub open spec fn def_view(d: PromptVariableDefinition) -> DefView {
    (d.variable@, d.label@, d.description@)
}

pub open spec fn defs_view(v: Seq<PromptVariableDefinition>) -> Seq<DefView> {
    v.map_values(|d: PromptVariableDefinition| def_view(d))
}

pub open spec fn table_view(t: Seq<(&'static str, &'static str, &'static str)>) -> Seq<DefView> {
    t.map_values(|e: (&'static str, &'static str, &'static str)| (e.0@, e.1@, e.2@))
}

pub open spec fn names_view(t: Seq<&'static str>) -> Seq<Seq<char>> {
    t.map_values(|e: &'static str| e@)
}

pub const TIME_VARIABLES: [(&'static str, &'static str, &'static str); 11] = [
    ("{{date}}", "Date", "Current local date in YYYY-MM-DD format."),
    ("{{date_full}}", "Full Date", "Current local date in a long readable format."),
    ("{{weekday}}", "Weekday", "Current local weekday name."),
    ("{{time_hour}}", "Hour", "Current local hour in 24-hour format."),
    ("{{time_minute}}", "Minute", "Current local minute."),
    ("{{time_second}}", "Second", "Current local second."),
    ("{{time_full}}", "Full Time", "Current local time with UTC offset."),
    ("{{time_12hour_format}}", "12-Hour Time", "Current local time in 12-hour format."),
    ("{{time_timezone}}", "Timezone Offset", "Current local UTC offset."),
    ("{{time_timezone_name}}", "Timezone Name", "Current local timezone abbreviation."),
    ("{{datetime_iso}}", "ISO Timestamp", "Current local timestamp in RFC3339 format."),
];

pub const DIRECT_CHAT_VARIABLES: [(&'static str, &'static str, &'static str); 13] = [
    ("{{char.name}}", "Character Name", "The character's display name."),
    ("{{char.desc}}", "Character Definition", "The active character definition."),
    ("{{scene}}", "Scene", "Starting scene or scenario text."),
    ("{{scene_direction}}", "Scene Direction", "Optional hidden direction for the scene."),
    ("{{persona.name}}", "User Name", "The active persona name."),
    ("{{persona.desc}}", "User Description", "The active persona description."),
    ("{{context_summary}}", "Context Summary", "Dynamic conversation summary."),
    ("{{companion_state}}", "Companion State", "Rendered emotional and relationship state for companion chats."),
    ("{{key_memories}}", "Key Memories", "Relevant long-term memory facts."),
    ("{{lorebook}}", "Lorebook", "Matched lorebook content."),
    ("{{author_note}}", "Author Note", "Private session note for the current chat."),
    ("{{rules}}", "Rules", "Legacy behavioral rules block."),
    ("{{content_rules}}", "Content Rules", "Resolved content rules and safety constraints."),
];

pub const GROUP_CHAT_CONVERSATIONAL_VARIABLES: [(&'static str, &'static str, &'static str); 5] = [
    ("{{char.name}}", "Character Name", "The speaking character's display name."),
    ("{{char.desc}}", "Character Definition", "The speaking character definition."),
    ("{{persona.name}}", "User Name", "The active persona name."),
    ("{{persona.desc}}", "User Description", "The active persona description."),
    ("{{group_characters}}", "Group Characters", "Rendered list of group participants."),
];

pub const GROUP_CHAT_ROLEPLAY_VARIABLES: [(&'static str, &'static str, &'static str); 9] = [
    ("{{scene}}", "Scene", "Starting scene or scenario text."),
    ("{{scene_direction}}", "Scene Direction", "Optional hidden direction for the scene."),
    ("{{char.name}}", "Character Name", "The speaking character's display name."),
    ("{{char.desc}}", "Character Definition", "The speaking character definition."),
    ("{{persona.name}}", "User Name", "The active persona name."),
    ("{{persona.desc}}", "User Description", "The active persona description."),
    ("{{group_characters}}", "Group Characters", "Rendered list of group participants."),
    ("{{context_summary}}", "Context Summary", "Dynamic conversation summary."),
    ("{{key_memories}}", "Key Memories", "Relevant long-term memory facts."),
];

pub const DYNAMIC_MEMORY_SUMMARIZER_VARIABLES: [(&'static str, &'static str, &'static str); 3] = [
    ("{{prev_summary}}", "Previous Summary", "The cumulative summary so far."),
    ("{{character}}", "Character", "Character summary placeholder."),
    ("{{persona}}", "Persona", "Persona summary placeholder."),
];

pub const DYNAMIC_MEMORY_MANAGER_VARIABLES: [(&'static str, &'static str, &'static str); 3] = [
    ("{{max_entries}}", "Max Entries", "Maximum number of memory entries allowed."),
    ("{{current_memory_tokens}}", "Current Memory Tokens", "Current hot memory token usage."),
    ("{{hot_token_budget}}", "Hot Token Budget", "Configured token budget for hot memories."),
];

pub const REPLY_HELPER_VARIABLES: [(&'static str, &'static str, &'static str); 5] = [
    ("{{char.name}}", "Character Name", "The character being replied to."),
    ("{{char.desc}}", "Character Definition", "The character definition."),
    ("{{persona.name}}", "User Name", "The active persona name."),
    ("{{persona.desc}}", "User Description", "The active persona description."),
    ("{{current_draft}}", "Current Draft", "The user's unfinished draft reply."),
];

pub const LOREBOOK_ENTRY_WRITER_VARIABLES: [(&'static str, &'static str, &'static str); 8] = [
    ("{{lorebook_name}}", "Lorebook Name", "Name of the target lorebook."),
    ("{{character_name}}", "Character Name", "Name of the character whose session is being mined."),
    ("{{session_title}}", "Session Title", "Title of the selected session."),
    ("{{selected_messages}}", "Selected Messages", "Chronological transcript of the selected messages (messages source mode)."),
    ("{{memory_summary}}", "Memory Summary", "Dynamic memory context summary for the session (memory source mode)."),
    ("{{selected_memories}}", "Selected Memories", "Selected memory entries from dynamic memory (memory source mode)."),
    ("{{direction_prompt}}", "Direction Prompt", "Optional user guidance for the extraction focus."),
    ("{{existing_entries}}", "Existing Entries", "Existing lorebook entry summaries for duplicate avoidance."),
];

pub const LOREBOOK_KEYWORD_GENERATOR_VARIABLES: [(&'static str, &'static str, &'static str); 4] = [
    ("{{entry_title}}", "Entry Title", "Current lorebook entry title."),
    ("{{entry_content}}", "Entry Content", "Current lorebook entry content."),
    ("{{existing_keywords}}", "Existing Keywords", "Current keywords already attached to the entry."),
    ("{{direction_prompt}}", "Direction Prompt", "Optional user guidance for keyword selection."),
];

pub const LOREBOOK_GENERATOR_PLANNER_VARIABLES: [(&'static str, &'static str, &'static str); 3] = [
    ("{{brief}}", "Brief", "User-written brief describing the world or topic."),
    ("{{target_count}}", "Target Count", "Number of entries the planner must produce."),
    ("{{source_excerpts}}", "Source Excerpts", "Concatenated excerpts from user-supplied sources, each tagged with a source id."),
];

pub const LOREBOOK_GENERATOR_WRITER_VARIABLES: [(&'static str, &'static str, &'static str); 7] = [
    ("{{brief}}", "Brief", "User-written brief describing the world or topic."),
    ("{{outline}}", "Outline", "Full planned outline (titles + categories + keys) for context."),
    ("{{entry_title}}", "Entry Title", "Title of the entry being written."),
    ("{{entry_category}}", "Entry Category", "Category of the entry being written."),
    ("{{entry_proposed_keys}}", "Entry Proposed Keys", "Keys proposed by the planner for this entry."),
    ("{{entry_rationale}}", "Entry Rationale", "Planner rationale for why this entry exists."),
    ("{{relevant_excerpts}}", "Relevant Excerpts", "Source excerpts relevant to this specific entry."),
];

pub const LOREBOOK_GENERATOR_REFINE_VARIABLES: [(&'static str, &'static str, &'static str); 8] = [
    ("{{brief}}", "Brief", "User-written brief describing the world or topic."),
    ("{{outline}}", "Outline", "Full planned outline for context."),
    ("{{entry_title}}", "Entry Title", "Current entry title."),
    ("{{entry_keywords}}", "Entry Keywords", "Current entry keywords."),
    ("{{entry_always_active}}", "Entry Always Active", "Current alwaysActive flag value."),
    ("{{entry_content}}", "Entry Content", "Current entry content body."),
    ("{{user_feedback}}", "User Feedback", "Feedback message describing the requested changes."),
    ("{{relevant_excerpts}}", "Relevant Excerpts", "Source excerpts relevant to this entry."),
];

pub const LOREBOOK_GENERATOR_COHERENCE_VARIABLES: [(&'static str, &'static str, &'static str); 1] = [
    ("{{drafted_entries}}", "Drafted Entries", "Full set of drafted entries with title, keys, content, alwaysActive."),
];

pub const AVATAR_GENERATION_VARIABLES: [(&'static str, &'static str, &'static str); 3] = [
    ("{{avatar_subject_name}}", "Avatar Subject Name", "Name of the character or persona the avatar is for."),
    ("{{avatar_subject_description}}", "Avatar Subject Description", "Description of the avatar subject."),
    ("{{avatar_request}}", "Avatar Request", "The requested avatar prompt direction."),
];

pub const AVATAR_EDIT_REQUEST_VARIABLES: [(&'static str, &'static str, &'static str); 4] = [
    ("{{avatar_subject_name}}", "Avatar Subject Name", "Name of the character or persona the avatar is for."),
    ("{{avatar_subject_description}}", "Avatar Subject Description", "Description of the avatar subject."),
    ("{{current_avatar_prompt}}", "Current Avatar Prompt", "The prompt used to create the current avatar."),
    ("{{edit_request}}", "Edit Request", "Requested changes for the avatar."),
];

pub const SCENE_GENERATION_VARIABLES: [(&'static str, &'static str, &'static str); 12] = [
    ("{{char.name}}", "Character Name", "The active character name."),
    ("{{char.desc}}", "Character Definition", "The active character definition."),
    ("{{persona.name}}", "User Name", "The active persona name."),
    ("{{persona.desc}}", "User Description", "The active persona description."),
    ("{{image[character]}}", "Character Reference Image", "Injected image attachment for the character reference."),
    ("{{reference[character]}}", "Character Reference Text", "Rendered text notes for the character design reference."),
    ("{{image[persona]}}", "Persona Reference Image", "Injected image attachment for the persona reference."),
    ("{{reference[persona]}}", "Persona Reference Text", "Rendered text notes for the persona design reference."),
    ("{{image[chatBackground]}}", "Chat Background Image", "Injected image attachment for the chat background reference."),
    ("{{reference[chatBackground]}}", "Chat Background Text", "Rendered text notes for the background/environment reference."),
    ("{{recent_messages}}", "Recent Messages", "Recent chat lines used to derive the scene."),
    ("{{scene_request}}", "Scene Request", "Manual or automatic scene image request."),
];

pub const DESIGN_REFERENCE_WRITER_VARIABLES: [(&'static str, &'static str, &'static str); 5] = [
    ("{{subject_name}}", "Subject Name", "Name of the subject being described."),
    ("{{subject_description}}", "Subject Context", "Character or persona context that informs the design notes."),
    ("{{current_description}}", "Current Notes", "Existing design notes to refine."),
    ("{{image[avatar]}}", "Avatar Image", "Injected image attachment for the subject avatar."),
    ("{{image[references]}}", "Reference Images", "Injected image attachments for supporting design references."),
];

pub const COMPANION_SOUL_WRITER_VARIABLES: [(&'static str, &'static str, &'static str); 6] = [
    ("{{char.name}}", "Character Name", "Name of the companion character."),
    ("{{char.definition}}", "Character Definition", "Full character definition or card text."),
    ("{{char.description}}", "Character Description", "Shorter public-facing character description."),
    ("{{opening_context}}", "Opening Context", "Starting scene or context used to infer companion grounding."),
    ("{{current_soul}}", "Current Soul", "Existing companion Soul draft as JSON."),
    ("{{user_notes}}", "User Notes", "User direction for how the Soul should be drafted or revised."),
];

pub const REQUIRED_UNDEFINED: [&'static str; 0] = [
];

pub const REQUIRED_DIRECT_CHAT: [&'static str; 8] = [
    "{{scene}}",
    "{{scene_direction}}",
    "{{char.name}}",
    "{{char.desc}}",
    "{{persona.name}}",
    "{{persona.desc}}",
    "{{context_summary}}",
    "{{key_memories}}",
];

pub const REQUIRED_COMPANION_CHAT: [&'static str; 6] = [
    "{{char.name}}",
    "{{char.desc}}",
    "{{persona.name}}",
    "{{persona.desc}}",
    "{{context_summary}}",
    "{{key_memories}}",
];

pub const REQUIRED_GROUP_CHAT_ROLEPLAY: [&'static str; 9] = [
    "{{scene}}",
    "{{scene_direction}}",
    "{{char.name}}",
    "{{char.desc}}",
    "{{persona.name}}",
    "{{persona.desc}}",
    "{{group_characters}}",
    "{{context_summary}}",
    "{{key_memories}}",
];

pub const REQUIRED_GROUP_CHAT_CONVERSATIONAL: [&'static str; 5] = [
    "{{char.name}}",
    "{{char.desc}}",
    "{{persona.name}}",
    "{{persona.desc}}",
    "{{group_characters}}",
];

pub const REQUIRED_DYNAMIC_MEMORY_SUMMARIZER: [&'static str; 1] = [
    "{{prev_summary}}",
];

pub const REQUIRED_DYNAMIC_MEMORY_MANAGER: [&'static str; 1] = [
    "{{max_entries}}",
];

pub const REQUIRED_REPLY_HELPER_ROLEPLAY: [&'static str; 5] = [
    "{{char.name}}",
    "{{char.desc}}",
    "{{persona.name}}",
    "{{persona.desc}}",
    "{{current_draft}}",
];

pub const REQUIRED_LOREBOOK_ENTRY_WRITER: [&'static str; 4] = [
    "{{selected_messages}}",
    "{{memory_summary}}",
    "{{selected_memories}}",
    "{{direction_prompt}}",
];

pub const REQUIRED_LOREBOOK_KEYWORD_GENERATOR: [&'static str; 2] = [
    "{{entry_content}}",
    "{{direction_prompt}}",
];

pub const REQUIRED_LOREBOOK_GENERATOR_PLANNER: [&'static str; 3] = [
    "{{brief}}",
    "{{target_count}}",
    "{{source_excerpts}}",
];

pub const REQUIRED_LOREBOOK_GENERATOR_WRITER: [&'static str; 7] = [
    "{{brief}}",
    "{{outline}}",
    "{{entry_title}}",
    "{{entry_category}}",
    "{{entry_proposed_keys}}",
    "{{entry_rationale}}",
    "{{relevant_excerpts}}",
];

pub const REQUIRED_LOREBOOK_GENERATOR_REFINE: [&'static str; 5] = [
    "{{entry_title}}",
    "{{entry_keywords}}",
    "{{entry_content}}",
    "{{entry_always_active}}",
    "{{user_feedback}}",
];

pub const REQUIRED_LOREBOOK_GENERATOR_COHERENCE: [&'static str; 1] = [
    "{{drafted_entries}}",
];

pub const REQUIRED_AVATAR_GENERATION: [&'static str; 1] = [
    "{{avatar_request}}",
];

pub const REQUIRED_AVATAR_EDIT_REQUEST: [&'static str; 2] = [
    "{{current_avatar_prompt}}",
    "{{edit_request}}",
];

pub const REQUIRED_SCENE_GENERATION: [&'static str; 2] = [
    "{{recent_messages}}",
    "{{scene_request}}",
];

pub const REQUIRED_DESIGN_REFERENCE_WRITER: [&'static str; 2] = [
    "{{subject_name}}",
    "{{image[avatar]}}",
];

pub const REQUIRED_COMPANION_SOUL_WRITER: [&'static str; 1] = [
    "{{char.name}}",
];

/// A variable definition from its three texts.
pub fn variable(placeholder: &str, label: &str, description: &str) -> (r: PromptVariableDefinition)
    ensures
        def_view(r) == (placeholder@, label@, description@),
{
    PromptVariableDefinition {
        variable: to_string(placeholder),
        label: to_string(label),
        description: to_string(description),
    }
}

/// The definitions of a table, in table order.
pub fn defs_from_table(t: &[(&'static str, &'static str, &'static str)]) -> (r: Vec<
    PromptVariableDefinition,
>)
    ensures
        defs_view(r@) == table_view(t@),
{
    let mut out: Vec<PromptVariableDefinition> = Vec::new();
    let mut i: usize = 0;
    while i < t.len()
        invariant
            i <= t.len(),
            out.len() == i,
            forall|k: int| 0 <= k < i ==> def_view(#[trigger] out@[k]) == (t@[k].0@, t@[k].1@, t@[k].2@),
        decreases t.len() - i,
    {
        let (a, b, c) = t[i];
        out.push(variable(a, b, c));
        i += 1;
    }
    assert(defs_view(out@) =~= table_view(t@));
    out
}

pub fn time_variables() -> (r: Vec<PromptVariableDefinition>)
    ensures
        defs_view(r@) == table_view(TIME_VARIABLES@),
{
    defs_from_table(&TIME_VARIABLES)
}

pub fn direct_chat_variables() -> (r: Vec<PromptVariableDefinition>)
    ensures
        defs_view(r@) == table_view(DIRECT_CHAT_VARIABLES@),
{
    defs_from_table(&DIRECT_CHAT_VARIABLES)
}

pub fn group_chat_conversational_variables() -> (r: Vec<PromptVariableDefinition>)
    ensures
        defs_view(r@) == table_view(GROUP_CHAT_CONVERSATIONAL_VARIABLES@),
{
    defs_from_table(&GROUP_CHAT_CONVERSATIONAL_VARIABLES)
}

pub fn group_chat_roleplay_variables() -> (r: Vec<PromptVariableDefinition>)
    ensures
        defs_view(r@) == table_view(GROUP_CHAT_ROLEPLAY_VARIABLES@),
{
    defs_from_table(&GROUP_CHAT_ROLEPLAY_VARIABLES)
}

pub fn dynamic_memory_summarizer_variables() -> (r: Vec<PromptVariableDefinition>)
    ensures
        defs_view(r@) == table_view(DYNAMIC_MEMORY_SUMMARIZER_VARIABLES@),
{
    defs_from_table(&DYNAMIC_MEMORY_SUMMARIZER_VARIABLES)
}

pub fn dynamic_memory_manager_variables() -> (r: Vec<PromptVariableDefinition>)
    ensures
        defs_view(r@) == table_view(DYNAMIC_MEMORY_MANAGER_VARIABLES@),
{
    defs_from_table(&DYNAMIC_MEMORY_MANAGER_VARIABLES)
}

pub fn reply_helper_variables() -> (r: Vec<PromptVariableDefinition>)
    ensures
        defs_view(r@) == table_view(REPLY_HELPER_VARIABLES@),
{
    defs_from_table(&REPLY_HELPER_VARIABLES)
}

pub fn lorebook_entry_writer_variables() -> (r: Vec<PromptVariableDefinition>)
    ensures
        defs_view(r@) == table_view(LOREBOOK_ENTRY_WRITER_VARIABLES@),
{
    defs_from_table(&LOREBOOK_ENTRY_WRITER_VARIABLES)
}

pub fn lorebook_keyword_generator_variables() -> (r: Vec<PromptVariableDefinition>)
    ensures
        defs_view(r@) == table_view(LOREBOOK_KEYWORD_GENERATOR_VARIABLES@),
{
    defs_from_table(&LOREBOOK_KEYWORD_GENERATOR_VARIABLES)
}

pub fn lorebook_generator_planner_variables() -> (r: Vec<PromptVariableDefinition>)
    ensures
        defs_view(r@) == table_view(LOREBOOK_GENERATOR_PLANNER_VARIABLES@),
{
    defs_from_table(&LOREBOOK_GENERATOR_PLANNER_VARIABLES)
}

pub fn lorebook_generator_writer_variables() -> (r: Vec<PromptVariableDefinition>)
    ensures
        defs_view(r@) == table_view(LOREBOOK_GENERATOR_WRITER_VARIABLES@),
{
    defs_from_table(&LOREBOOK_GENERATOR_WRITER_VARIABLES)
}

pub fn lorebook_generator_refine_variables() -> (r: Vec<PromptVariableDefinition>)
    ensures
        defs_view(r@) == table_view(LOREBOOK_GENERATOR_REFINE_VARIABLES@),
{
    defs_from_table(&LOREBOOK_GENERATOR_REFINE_VARIABLES)
}

pub fn lorebook_generator_coherence_variables() -> (r: Vec<PromptVariableDefinition>)
    ensures
        defs_view(r@) == table_view(LOREBOOK_GENERATOR_COHERENCE_VARIABLES@),
{
    defs_from_table(&LOREBOOK_GENERATOR_COHERENCE_VARIABLES)
}

pub fn avatar_generation_variables() -> (r: Vec<PromptVariableDefinition>)
    ensures
        defs_view(r@) == table_view(AVATAR_GENERATION_VARIABLES@),
{
    defs_from_table(&AVATAR_GENERATION_VARIABLES)
}

pub fn avatar_edit_request_variables() -> (r: Vec<PromptVariableDefinition>)
    ensures
        defs_view(r@) == table_view(AVATAR_EDIT_REQUEST_VARIABLES@),
{
    defs_from_table(&AVATAR_EDIT_REQUEST_VARIABLES)
}

pub fn scene_generation_variables() -> (r: Vec<PromptVariableDefinition>)
    ensures
        defs_view(r@) == table_view(SCENE_GENERATION_VARIABLES@),
{
    defs_from_table(&SCENE_GENERATION_VARIABLES)
}

pub fn design_reference_writer_variables() -> (r: Vec<PromptVariableDefinition>)
    ensures
        defs_view(r@) == table_view(DESIGN_REFERENCE_WRITER_VARIABLES@),
{
    defs_from_table(&DESIGN_REFERENCE_WRITER_VARIABLES)
}

pub fn companion_soul_writer_variables() -> (r: Vec<PromptVariableDefinition>)
    ensures
        defs_view(r@) == table_view(COMPANION_SOUL_WRITER_VARIABLES@),
{
    defs_from_table(&COMPANION_SOUL_WRITER_VARIABLES)
}

/// The variable tables whose union a kind of template may use, in order.
pub open spec fn allowed_groups(t: PromptTemplateType) -> Seq<Seq<DefView>> {
    match t {
        PromptTemplateType::Undefined => seq![table_view(TIME_VARIABLES@), table_view(DIRECT_CHAT_VARIABLES@), table_view(GROUP_CHAT_CONVERSATIONAL_VARIABLES@), table_view(GROUP_CHAT_ROLEPLAY_VARIABLES@), table_view(DYNAMIC_MEMORY_SUMMARIZER_VARIABLES@), table_view(DYNAMIC_MEMORY_MANAGER_VARIABLES@), table_view(REPLY_HELPER_VARIABLES@), table_view(AVATAR_GENERATION_VARIABLES@), table_view(AVATAR_EDIT_REQUEST_VARIABLES@), table_view(SCENE_GENERATION_VARIABLES@), table_view(SCENE_GENERATION_VARIABLES@), table_view(DESIGN_REFERENCE_WRITER_VARIABLES@), table_view(COMPANION_SOUL_WRITER_VARIABLES@)],
        PromptTemplateType::DirectChat => seq![table_view(TIME_VARIABLES@), table_view(DIRECT_CHAT_VARIABLES@)],
        PromptTemplateType::CompanionChat => seq![table_view(TIME_VARIABLES@), table_view(DIRECT_CHAT_VARIABLES@)],
        PromptTemplateType::GroupChatRoleplay => seq![table_view(TIME_VARIABLES@), table_view(GROUP_CHAT_ROLEPLAY_VARIABLES@)],
        PromptTemplateType::GroupChatConversational => seq![table_view(TIME_VARIABLES@), table_view(GROUP_CHAT_CONVERSATIONAL_VARIABLES@)],
        PromptTemplateType::DynamicMemorySummarizer => seq![table_view(TIME_VARIABLES@), table_view(DYNAMIC_MEMORY_SUMMARIZER_VARIABLES@)],
        PromptTemplateType::DynamicMemoryManager => seq![table_view(TIME_VARIABLES@), table_view(DYNAMIC_MEMORY_MANAGER_VARIABLES@)],
        PromptTemplateType::ReplyHelperRoleplay => seq![table_view(TIME_VARIABLES@), table_view(REPLY_HELPER_VARIABLES@)],
        PromptTemplateType::ReplyHelperConversational => seq![table_view(TIME_VARIABLES@), table_view(REPLY_HELPER_VARIABLES@)],
        PromptTemplateType::LorebookEntryWriter => seq![table_view(TIME_VARIABLES@), table_view(LOREBOOK_ENTRY_WRITER_VARIABLES@)],
        PromptTemplateType::LorebookKeywordGenerator => seq![table_view(TIME_VARIABLES@), table_view(LOREBOOK_KEYWORD_GENERATOR_VARIABLES@)],
        PromptTemplateType::LorebookGeneratorPlanner => seq![table_view(TIME_VARIABLES@), table_view(LOREBOOK_GENERATOR_PLANNER_VARIABLES@)],
        PromptTemplateType::LorebookGeneratorWriter => seq![table_view(TIME_VARIABLES@), table_view(LOREBOOK_GENERATOR_WRITER_VARIABLES@)],
        PromptTemplateType::LorebookGeneratorRefine => seq![table_view(TIME_VARIABLES@), table_view(LOREBOOK_GENERATOR_REFINE_VARIABLES@)],
        PromptTemplateType::LorebookGeneratorCoherence => seq![table_view(TIME_VARIABLES@), table_view(LOREBOOK_GENERATOR_COHERENCE_VARIABLES@)],
        PromptTemplateType::AvatarGeneration => seq![table_view(TIME_VARIABLES@), table_view(AVATAR_GENERATION_VARIABLES@)],
        PromptTemplateType::AvatarEditRequest => seq![table_view(TIME_VARIABLES@), table_view(AVATAR_EDIT_REQUEST_VARIABLES@)],
        PromptTemplateType::SceneGeneration => seq![table_view(TIME_VARIABLES@), table_view(SCENE_GENERATION_VARIABLES@)],
        PromptTemplateType::ScenePromptWriter => seq![table_view(TIME_VARIABLES@), table_view(SCENE_GENERATION_VARIABLES@)],
        PromptTemplateType::DesignReferenceWriter => seq![table_view(TIME_VARIABLES@), table_view(DESIGN_REFERENCE_WRITER_VARIABLES@)],
        PromptTemplateType::CompanionSoulWriter => seq![table_view(TIME_VARIABLES@), table_view(COMPANION_SOUL_WRITER_VARIABLES@)],
    }
}

pub open spec fn groups_view(g: Seq<Vec<PromptVariableDefinition>>) -> Seq<Seq<DefView>> {
    g.map_values(|v: Vec<PromptVariableDefinition>| defs_view(v@))
}

/// The variables a kind of template may use: the union of its tables, each
/// placeholder once, at its first place.
pub fn allowed_variables_for_prompt_type(prompt_type: PromptTemplateType) -> (r: Vec<
    PromptVariableDefinition,
>)
    ensures
        defs_view(r@) == dedupe_spec(concat_groups(allowed_groups(prompt_type))),
{
    let groups: Vec<Vec<PromptVariableDefinition>> = match prompt_type {
        PromptTemplateType::Undefined => vec![time_variables(), direct_chat_variables(), group_chat_conversational_variables(), group_chat_roleplay_variables(), dynamic_memory_summarizer_variables(), dynamic_memory_manager_variables(), reply_helper_variables(), avatar_generation_variables(), avatar_edit_request_variables(), scene_generation_variables(), scene_generation_variables(), design_reference_writer_variables(), companion_soul_writer_variables()],
        PromptTemplateType::DirectChat => vec![time_variables(), direct_chat_variables()],
        PromptTemplateType::CompanionChat => vec![time_variables(), direct_chat_variables()],
        PromptTemplateType::GroupChatRoleplay => vec![time_variables(), group_chat_roleplay_variables()],
        PromptTemplateType::GroupChatConversational => vec![time_variables(), group_chat_conversational_variables()],
        PromptTemplateType::DynamicMemorySummarizer => vec![time_variables(), dynamic_memory_summarizer_variables()],
        PromptTemplateType::DynamicMemoryManager => vec![time_variables(), dynamic_memory_manager_variables()],
        PromptTemplateType::ReplyHelperRoleplay => vec![time_variables(), reply_helper_variables()],
        PromptTemplateType::ReplyHelperConversational => vec![time_variables(), reply_helper_variables()],
        PromptTemplateType::LorebookEntryWriter => vec![time_variables(), lorebook_entry_writer_variables()],
        PromptTemplateType::LorebookKeywordGenerator => vec![time_variables(), lorebook_keyword_generator_variables()],
        PromptTemplateType::LorebookGeneratorPlanner => vec![time_variables(), lorebook_generator_planner_variables()],
        PromptTemplateType::LorebookGeneratorWriter => vec![time_variables(), lorebook_generator_writer_variables()],
        PromptTemplateType::LorebookGeneratorRefine => vec![time_variables(), lorebook_generator_refine_variables()],
        PromptTemplateType::LorebookGeneratorCoherence => vec![time_variables(), lorebook_generator_coherence_variables()],
        PromptTemplateType::AvatarGeneration => vec![time_variables(), avatar_generation_variables()],
        PromptTemplateType::AvatarEditRequest => vec![time_variables(), avatar_edit_request_variables()],
        PromptTemplateType::SceneGeneration => vec![time_variables(), scene_generation_variables()],
        PromptTemplateType::ScenePromptWriter => vec![time_variables(), scene_generation_variables()],
        PromptTemplateType::DesignReferenceWriter => vec![time_variables(), design_reference_writer_variables()],
        PromptTemplateType::CompanionSoulWriter => vec![time_variables(), companion_soul_writer_variables()],
    };
    assert(groups_view(groups@) =~= allowed_groups(prompt_type));
    dedupe_variables(groups)
}

/// The placeholders that a template of the kind must contain.
pub open spec fn required_names(t: PromptTemplateType) -> Seq<Seq<char>> {
    match t {
        PromptTemplateType::Undefined => names_view(REQUIRED_UNDEFINED@),
        PromptTemplateType::DirectChat => names_view(REQUIRED_DIRECT_CHAT@),
        PromptTemplateType::CompanionChat => names_view(REQUIRED_COMPANION_CHAT@),
        PromptTemplateType::GroupChatRoleplay => names_view(REQUIRED_GROUP_CHAT_ROLEPLAY@),
        PromptTemplateType::GroupChatConversational => names_view(REQUIRED_GROUP_CHAT_CONVERSATIONAL@),
        PromptTemplateType::DynamicMemorySummarizer => names_view(REQUIRED_DYNAMIC_MEMORY_SUMMARIZER@),
        PromptTemplateType::DynamicMemoryManager => names_view(REQUIRED_DYNAMIC_MEMORY_MANAGER@),
        PromptTemplateType::ReplyHelperRoleplay => names_view(REQUIRED_REPLY_HELPER_ROLEPLAY@),
        PromptTemplateType::ReplyHelperConversational => names_view(REQUIRED_REPLY_HELPER_ROLEPLAY@),
        PromptTemplateType::LorebookEntryWriter => names_view(REQUIRED_LOREBOOK_ENTRY_WRITER@),
        PromptTemplateType::LorebookKeywordGenerator => names_view(REQUIRED_LOREBOOK_KEYWORD_GENERATOR@),
        PromptTemplateType::LorebookGeneratorPlanner => names_view(REQUIRED_LOREBOOK_GENERATOR_PLANNER@),
        PromptTemplateType::LorebookGeneratorWriter => names_view(REQUIRED_LOREBOOK_GENERATOR_WRITER@),
        PromptTemplateType::LorebookGeneratorRefine => names_view(REQUIRED_LOREBOOK_GENERATOR_REFINE@),
        PromptTemplateType::LorebookGeneratorCoherence => names_view(REQUIRED_LOREBOOK_GENERATOR_COHERENCE@),
        PromptTemplateType::AvatarGeneration => names_view(REQUIRED_AVATAR_GENERATION@),
        PromptTemplateType::AvatarEditRequest => names_view(REQUIRED_AVATAR_EDIT_REQUEST@),
        PromptTemplateType::SceneGeneration => names_view(REQUIRED_SCENE_GENERATION@),
        PromptTemplateType::ScenePromptWriter => names_view(REQUIRED_SCENE_GENERATION@),
        PromptTemplateType::DesignReferenceWriter => names_view(REQUIRED_DESIGN_REFERENCE_WRITER@),
        PromptTemplateType::CompanionSoulWriter => names_view(REQUIRED_COMPANION_SOUL_WRITER@),
    }
}

/// Owned copies of the strings of a table, in order.
pub fn strings_from_table(t: &[&'static str]) -> (r: Vec<String>)
    ensures
        views(r@) == names_view(t@),
{
    let mut out: Vec<String> = Vec::new();
    let mut i: usize = 0;
    while i < t.len()
        invariant
            i <= t.len(),
            out.len() == i,
            forall|k: int| 0 <= k < i ==> (#[trigger] out@[k])@ == t@[k]@,
        decreases t.len() - i,
    {
        out.push(to_string(t[i]));
        i += 1;
    }
    assert(views(out@) =~= names_view(t@));
    out
}

pub fn required_variables_for_prompt_type(prompt_type: PromptTemplateType) -> (r: Vec<String>)
    ensures
        views(r@) == required_names(prompt_type),
{
    match prompt_type {
        PromptTemplateType::Undefined => strings_from_table(&REQUIRED_UNDEFINED),
        PromptTemplateType::DirectChat => strings_from_table(&REQUIRED_DIRECT_CHAT),
        PromptTemplateType::CompanionChat => strings_from_table(&REQUIRED_COMPANION_CHAT),
        PromptTemplateType::GroupChatRoleplay => strings_from_table(&REQUIRED_GROUP_CHAT_ROLEPLAY),
        PromptTemplateType::GroupChatConversational => strings_from_table(&REQUIRED_GROUP_CHAT_CONVERSATIONAL),
        PromptTemplateType::DynamicMemorySummarizer => strings_from_table(&REQUIRED_DYNAMIC_MEMORY_SUMMARIZER),
        PromptTemplateType::DynamicMemoryManager => strings_from_table(&REQUIRED_DYNAMIC_MEMORY_MANAGER),
        PromptTemplateType::ReplyHelperRoleplay => strings_from_table(&REQUIRED_REPLY_HELPER_ROLEPLAY),
        PromptTemplateType::ReplyHelperConversational => strings_from_table(&REQUIRED_REPLY_HELPER_ROLEPLAY),
        PromptTemplateType::LorebookEntryWriter => strings_from_table(&REQUIRED_LOREBOOK_ENTRY_WRITER),
        PromptTemplateType::LorebookKeywordGenerator => strings_from_table(&REQUIRED_LOREBOOK_KEYWORD_GENERATOR),
        PromptTemplateType::LorebookGeneratorPlanner => strings_from_table(&REQUIRED_LOREBOOK_GENERATOR_PLANNER),
        PromptTemplateType::LorebookGeneratorWriter => strings_from_table(&REQUIRED_LOREBOOK_GENERATOR_WRITER),
        PromptTemplateType::LorebookGeneratorRefine => strings_from_table(&REQUIRED_LOREBOOK_GENERATOR_REFINE),
        PromptTemplateType::LorebookGeneratorCoherence => strings_from_table(&REQUIRED_LOREBOOK_GENERATOR_COHERENCE),
        PromptTemplateType::AvatarGeneration => strings_from_table(&REQUIRED_AVATAR_GENERATION),
        PromptTemplateType::AvatarEditRequest => strings_from_table(&REQUIRED_AVATAR_EDIT_REQUEST),
        PromptTemplateType::SceneGeneration => strings_from_table(&REQUIRED_SCENE_GENERATION),
        PromptTemplateType::ScenePromptWriter => strings_from_table(&REQUIRED_SCENE_GENERATION),
        PromptTemplateType::DesignReferenceWriter => strings_from_table(&REQUIRED_DESIGN_REFERENCE_WRITER),
        PromptTemplateType::CompanionSoulWriter => strings_from_table(&REQUIRED_COMPANION_SOUL_WRITER),
    }
}

/// The display name of a template kind.
pub open spec fn type_label(t: PromptTemplateType) -> Seq<char> {
    match t {
        PromptTemplateType::Undefined => "Undefined"@,
        PromptTemplateType::DirectChat => "Direct Chat"@,
        PromptTemplateType::CompanionChat => "Companion Chat"@,
        PromptTemplateType::GroupChatRoleplay => "Group Chat (Roleplay)"@,
        PromptTemplateType::GroupChatConversational => "Group Chat (Conversation)"@,
        PromptTemplateType::DynamicMemorySummarizer => "Dynamic Memory Summarizer"@,
        PromptTemplateType::DynamicMemoryManager => "Dynamic Memory Manager"@,
        PromptTemplateType::ReplyHelperRoleplay => "Reply Helper (Roleplay)"@,
        PromptTemplateType::ReplyHelperConversational => "Reply Helper (Conversational)"@,
        PromptTemplateType::LorebookEntryWriter => "Lorebook Entry Writer"@,
        PromptTemplateType::LorebookKeywordGenerator => "Lorebook Keyword Generator"@,
        PromptTemplateType::LorebookGeneratorPlanner => "Lorebook Generator: Planner"@,
        PromptTemplateType::LorebookGeneratorWriter => "Lorebook Generator: Writer"@,
        PromptTemplateType::LorebookGeneratorRefine => "Lorebook Generator: Refine"@,
        PromptTemplateType::LorebookGeneratorCoherence => "Lorebook Generator: Coherence"@,
        PromptTemplateType::AvatarGeneration => "Avatar Generation"@,
        PromptTemplateType::AvatarEditRequest => "Avatar Edit Request"@,
        PromptTemplateType::SceneGeneration => "Scene Generation"@,
        PromptTemplateType::ScenePromptWriter => "Scene Prompt Writer"@,
        PromptTemplateType::DesignReferenceWriter => "Design Reference Writer"@,
        PromptTemplateType::CompanionSoulWriter => "Companion Soul Writer"@,
    }
}

pub fn prompt_type_label(prompt_type: PromptTemplateType) -> (r: &'static str)
    ensures
        r@ == type_label(prompt_type),
{
    match prompt_type {
        PromptTemplateType::Undefined => "Undefined",
        PromptTemplateType::DirectChat => "Direct Chat",
        PromptTemplateType::CompanionChat => "Companion Chat",
        PromptTemplateType::GroupChatRoleplay => "Group Chat (Roleplay)",
        PromptTemplateType::GroupChatConversational => "Group Chat (Conversation)",
        PromptTemplateType::DynamicMemorySummarizer => "Dynamic Memory Summarizer",
        PromptTemplateType::DynamicMemoryManager => "Dynamic Memory Manager",
        PromptTemplateType::ReplyHelperRoleplay => "Reply Helper (Roleplay)",
        PromptTemplateType::ReplyHelperConversational => "Reply Helper (Conversational)",
        PromptTemplateType::LorebookEntryWriter => "Lorebook Entry Writer",
        PromptTemplateType::LorebookKeywordGenerator => "Lorebook Keyword Generator",
        PromptTemplateType::LorebookGeneratorPlanner => "Lorebook Generator: Planner",
        PromptTemplateType::LorebookGeneratorWriter => "Lorebook Generator: Writer",
        PromptTemplateType::LorebookGeneratorRefine => "Lorebook Generator: Refine",
        PromptTemplateType::LorebookGeneratorCoherence => "Lorebook Generator: Coherence",
        PromptTemplateType::AvatarGeneration => "Avatar Generation",
        PromptTemplateType::AvatarEditRequest => "Avatar Edit Request",
        PromptTemplateType::SceneGeneration => "Scene Generation",
        PromptTemplateType::ScenePromptWriter => "Scene Prompt Writer",
        PromptTemplateType::DesignReferenceWriter => "Design Reference Writer",
        PromptTemplateType::CompanionSoulWriter => "Companion Soul Writer",
    }
}
// ------------------------------------------------------------------
// Deduplication
// ------------------------------------------------------------------

/// The tables one after another.
pub open spec fn concat_groups(g: Seq<Seq<DefView>>) -> Seq<DefView>
    decreases g.len(),
{
    if g.len() == 0 {
        seq![]
    } else {
        concat_groups(g.drop_last()) + g.last()
    }
}

/// Keeps the first definition of each placeholder that is not in `seen`.
pub open spec fn dedupe_from(s: Seq<DefView>, seen: Set<Seq<char>>) -> Seq<DefView>
    decreases s.len(),
{
    if s.len() == 0 {
        seq![]
    } else if seen.contains(s[0].0) {
        dedupe_from(s.drop_first(), seen)
    } else {
        seq![s[0]] + dedupe_from(s.drop_first(), seen.insert(s[0].0))
    }
}

/// Keeps the first definition of each placeholder.
pub open spec fn dedupe_spec(s: Seq<DefView>) -> Seq<DefView> {
    dedupe_from(s, Set::empty())
}

/// A copy of a definition.
pub fn copy_definition(d: &PromptVariableDefinition) -> (r: PromptVariableDefinition)
    ensures
        def_view(r) == def_view(*d),
{
    PromptVariableDefinition {
        variable: d.variable.clone(),
        label: d.label.clone(),
        description: d.description.clone(),
    }
}

/// The definitions of all groups, group after group.
pub fn flatten_groups(groups: &Vec<Vec<PromptVariableDefinition>>) -> (r: Vec<
    PromptVariableDefinition,
>)
    ensures
        defs_view(r@) == concat_groups(groups_view(groups@)),
{
    let mut out: Vec<PromptVariableDefinition> = Vec::new();
    let ghost gv = groups_view(groups@);
    let mut i: usize = 0;
    while i < groups.len()
        invariant
            i <= groups.len(),
            gv == groups_view(groups@),
            defs_view(out@) == concat_groups(gv.take(i as int)),
        decreases groups.len() - i,
    {
        let ghost before = defs_view(out@);
        let group = &groups[i];
        let mut j: usize = 0;
        while j < group.len()
            invariant
                j <= group.len(),
                group == groups@[i as int],
                i < groups.len(),
                defs_view(out@) == before + defs_view(group@).take(j as int),
            decreases group.len() - j,
        {
            let ghost prev = out@;
            let c = copy_definition(&group[j]);
            out.push(c);
            assert(defs_view(out@) =~= defs_view(prev).push(def_view(group@[j as int])));
            assert(defs_view(group@).take(j + 1) =~= defs_view(group@).take(j as int).push(
                def_view(group@[j as int]),
            ));
            j += 1;
            assert(defs_view(out@) =~= before + defs_view(group@).take(j as int));
        }
        assert(defs_view(group@).take(group.len() as int) =~= defs_view(group@));
        assert(gv.take(i + 1).drop_last() =~= gv.take(i as int));
        i += 1;
    }
    assert(gv.take(groups.len() as int) =~= gv);
    out
}

/// Whether one of `names` has the characters of `name`.
pub fn names_contain(names: &Vec<String>, name: &String) -> (r: bool)
    ensures
        r == views(names@).contains(name@),
{
    let mut i: usize = 0;
    while i < names.len()
        invariant
            i <= names.len(),
            forall|k: int| 0 <= k < i ==> (#[trigger] names@[k])@ != name@,
        decreases names.len() - i,
    {
        if str_eq(names[i].as_str(), name.as_str()) {
            assert(views(names@)[i as int] == name@);
            return true;
        }
        i += 1;
    }
    assert forall|k: int| 0 <= k < views(names@).len() implies views(names@)[k] != name@ by {
        assert(names@[k]@ != name@);
    }
    false
}

/// The definitions of all groups, each placeholder once, at its first place.
pub fn dedupe_variables(groups: Vec<Vec<PromptVariableDefinition>>) -> (r: Vec<
    PromptVariableDefinition,
>)
    ensures
        defs_view(r@) == dedupe_spec(concat_groups(groups_view(groups@))),
{
    let flat = flatten_groups(&groups);
    let ghost fv = defs_view(flat@);
    let mut out: Vec<PromptVariableDefinition> = Vec::new();
    let mut seen: Vec<String> = Vec::new();
    let ghost mut seen_set: Set<Seq<char>> = Set::empty();
    let mut k: usize = 0;
    assert(fv.skip(0) =~= fv);
    while k < flat.len()
        invariant
            k <= flat.len(),
            fv == defs_view(flat@),
            forall|x: Seq<char>| seen_set.contains(x) <==> views(seen@).contains(x),
            defs_view(out@) + dedupe_from(fv.skip(k as int), seen_set) == dedupe_spec(fv),
        decreases flat.len() - k,
    {
        let ghost rest = fv.skip(k as int);
        assert(rest.drop_first() =~= fv.skip(k + 1));
        assert(rest[0] == def_view(flat@[k as int]));
        let d = &flat[k];
        if !names_contain(&seen, &d.variable) {
            let ghost before = defs_view(out@);
            out.push(copy_definition(d));
            let ghost old_seen = seen@;
            seen.push(d.variable.clone());
            proof {
                assert(views(seen@) =~= views(old_seen).push(d.variable@));
                let ghost old_set = seen_set;
                seen_set = seen_set.insert(d.variable@);
                assert forall|x: Seq<char>| seen_set.contains(x) <==> views(seen@).contains(x) by {
                    if views(old_seen).contains(x) {
                        let q = choose|q: int| 0 <= q < views(old_seen).len() && views(old_seen)[q] == x;
                        assert(views(seen@)[q] == x);
                    }
                    if x == d.variable@ {
                        assert(views(seen@)[views(seen@).len() - 1] == x);
                    }
                    if views(seen@).contains(x) {
                        let q = choose|q: int| 0 <= q < views(seen@).len() && views(seen@)[q] == x;
                        if q < views(old_seen).len() {
                            assert(views(old_seen)[q] == x);
                        }
                    }
                }
                assert(defs_view(out@) =~= before + seq![rest[0]]);
                assert(before + (seq![rest[0]] + dedupe_from(rest.drop_first(), seen_set))
                    =~= defs_view(out@) + dedupe_from(rest.drop_first(), seen_set));
            }
        }
        k += 1;
    }
    assert(fv.skip(flat.len() as int) =~= Seq::<DefView>::empty());
    assert(defs_view(out@) + Seq::<DefView>::empty() =~= defs_view(out@));
    out
}

/// Deduplication never keeps a placeholder of `seen`, nor any placeholder twice.
pub proof fn lemma_dedupe_from_distinct(s: Seq<DefView>, seen: Set<Seq<char>>)
    ensures
        forall|i: int|
            0 <= i < dedupe_from(s, seen).len() ==> !seen.contains(
                #[trigger] dedupe_from(s, seen)[i].0,
            ),
        forall|i: int, j: int|
            0 <= i < j < dedupe_from(s, seen).len() ==> #[trigger] dedupe_from(s, seen)[i].0
                != #[trigger] dedupe_from(s, seen)[j].0,
    decreases s.len(),
{
    if s.len() > 0 {
        if seen.contains(s[0].0) {
            lemma_dedupe_from_distinct(s.drop_first(), seen);
            assert(dedupe_from(s, seen) == dedupe_from(s.drop_first(), seen));
        } else {
            let seen2 = seen.insert(s[0].0);
            lemma_dedupe_from_distinct(s.drop_first(), seen2);
            let tail = dedupe_from(s.drop_first(), seen2);
            let r = dedupe_from(s, seen);
            assert(r == seq![s[0]] + tail);
            assert forall|i: int| 0 <= i < r.len() implies !seen.contains(#[trigger] r[i].0) by {
                if i > 0 {
                    assert(r[i] == tail[i - 1]);
                }
            }
            assert forall|i: int, j: int| 0 <= i < j < r.len() implies #[trigger] r[i].0
                != #[trigger] r[j].0 by {
                assert(r[j] == tail[j - 1]);
                if i > 0 {
                    assert(r[i] == tail[i - 1]);
                }
            }
        }
    }
}

/// Every placeholder of the input that is not in `seen` is kept, and every
/// kept definition comes from the input.
pub proof fn lemma_dedupe_from_covers(s: Seq<DefView>, seen: Set<Seq<char>>)
    ensures
        forall|i: int|
            0 <= i < s.len() && !seen.contains(#[trigger] s[i].0) ==> exists|j: int|
                0 <= j < dedupe_from(s, seen).len() && #[trigger] dedupe_from(s, seen)[j].0
                    == s[i].0,
        forall|j: int|
            0 <= j < dedupe_from(s, seen).len() ==> s.contains(#[trigger] dedupe_from(s, seen)[j]),
    decreases s.len(),
{
    if s.len() > 0 {
        let t = s.drop_first();
        if seen.contains(s[0].0) {
            lemma_dedupe_from_covers(t, seen);
            let r = dedupe_from(s, seen);
            assert(r == dedupe_from(t, seen));
            assert forall|i: int| 0 <= i < s.len() && !seen.contains(#[trigger] s[i].0) implies exists|
                j: int,
            | 0 <= j < r.len() && #[trigger] r[j].0 == s[i].0 by {
                assert(s[i] == t[i - 1]);
            }
            assert forall|j: int| 0 <= j < r.len() implies s.contains(#[trigger] r[j]) by {
                assert(t.contains(r[j]));
                let k = choose|k: int| 0 <= k < t.len() && t[k] == r[j];
                assert(s[k + 1] == t[k]);
            }
        } else {
            let seen2 = seen.insert(s[0].0);
            lemma_dedupe_from_covers(t, seen2);
            let tail = dedupe_from(t, seen2);
            let r = dedupe_from(s, seen);
            assert(r == seq![s[0]] + tail);
            assert forall|i: int| 0 <= i < s.len() && !seen.contains(#[trigger] s[i].0) implies exists|
                j: int,
            | 0 <= j < r.len() && #[trigger] r[j].0 == s[i].0 by {
                if i == 0 {
                    assert(r[0].0 == s[0].0);
                } else {
                    assert(s[i] == t[i - 1]);
                    if s[i].0 == s[0].0 {
                        assert(r[0].0 == s[i].0);
                    } else {
                        assert(!seen2.contains(t[i - 1].0));
                        let j = choose|j: int| 0 <= j < tail.len() && #[trigger] tail[j].0 == t[i - 1].0;
                        assert(r[j + 1] == tail[j]);
                    }
                }
            }
            assert forall|j: int| 0 <= j < r.len() implies s.contains(#[trigger] r[j]) by {
                if j == 0 {
                    assert(s[0] == r[0]);
                } else {
                    assert(r[j] == tail[j - 1]);
                    assert(t.contains(tail[j - 1]));
                    let k = choose|k: int| 0 <= k < t.len() && t[k] == tail[j - 1];
                    assert(s[k + 1] == t[k]);
                }
            }
        }
    }
}

/// The variables offered for a kind of template name each placeholder once,
/// and name every placeholder of the kind's tables.
pub proof fn lemma_allowed_variables_unique_and_complete(t: PromptTemplateType)
    ensures
        ({
            let all = concat_groups(allowed_groups(t));
            let r = dedupe_spec(all);
            &&& forall|i: int, j: int| 0 <= i < j < r.len() ==> #[trigger] r[i].0 != #[trigger] r[j].0
            &&& forall|i: int| 0 <= i < all.len() ==> exists|j: int| 0 <= j < r.len() && #[trigger] r[j].0 == #[trigger] all[i].0
            &&& forall|j: int| 0 <= j < r.len() ==> all.contains(#[trigger] r[j])
        }),
{
    let all = concat_groups(allowed_groups(t));
    let r = dedupe_spec(all);
    lemma_dedupe_from_distinct(all, Set::empty());
    lemma_dedupe_from_covers(all, Set::empty());
    assert(r == dedupe_from(all, Set::empty()));
    assert forall|i: int| 0 <= i < all.len() implies exists|j: int|
        0 <= j < r.len() && #[trigger] r[j].0 == #[trigger] all[i].0 by {
        assert(!Set::<Seq<char>>::empty().contains(all[i].0));
        let j = choose|j: int| 0 <= j < r.len() && #[trigger] r[j].0 == all[i].0;
        assert(r[j].0 == all[i].0);
    }
}

/// Where the `i`-th placeholder a kind of template requires stands among
/// the placeholders of its tables.
proof fn lemma_required_in_tables(t: PromptTemplateType, i: int)
    requires
        0 <= i < required_names(t).len(),
    ensures
        exists|k: int|
            0 <= k < concat_groups(allowed_groups(t)).len() && #[trigger] concat_groups(
                allowed_groups(t),
            )[k].0 == required_names(t)[i],
{
    reveal_with_fuel(concat_groups, 3);
    let all = concat_groups(allowed_groups(t));
    let req = required_names(t);
    match t {
        PromptTemplateType::DirectChat => {
            assert(all =~= table_view(TIME_VARIABLES@) + table_view(DIRECT_CHAT_VARIABLES@));
            if i == 0 {
                assert(all[13].0 == req[0]);
            } else if i == 1 {
                assert(all[14].0 == req[1]);
            } else if i == 2 {
                assert(all[11].0 == req[2]);
            } else if i == 3 {
                assert(all[12].0 == req[3]);
            } else if i == 4 {
                assert(all[15].0 == req[4]);
            } else if i == 5 {
                assert(all[16].0 == req[5]);
            } else if i == 6 {
                assert(all[17].0 == req[6]);
            } else if i == 7 {
                assert(all[19].0 == req[7]);
            }
        },
        PromptTemplateType::CompanionChat => {
            assert(all =~= table_view(TIME_VARIABLES@) + table_view(DIRECT_CHAT_VARIABLES@));
            if i == 0 {
                assert(all[11].0 == req[0]);
            } else if i == 1 {
                assert(all[12].0 == req[1]);
            } else if i == 2 {
                assert(all[15].0 == req[2]);
            } else if i == 3 {
                assert(all[16].0 == req[3]);
            } else if i == 4 {
                assert(all[17].0 == req[4]);
            } else if i == 5 {
                assert(all[19].0 == req[5]);
            }
        },
        PromptTemplateType::GroupChatRoleplay => {
            assert(all =~= table_view(TIME_VARIABLES@) + table_view(GROUP_CHAT_ROLEPLAY_VARIABLES@));
            if i == 0 {
                assert(all[11].0 == req[0]);
            } else if i == 1 {
                assert(all[12].0 == req[1]);
            } else if i == 2 {
                assert(all[13].0 == req[2]);
            } else if i == 3 {
                assert(all[14].0 == req[3]);
            } else if i == 4 {
                assert(all[15].0 == req[4]);
            } else if i == 5 {
                assert(all[16].0 == req[5]);
            } else if i == 6 {
                assert(all[17].0 == req[6]);
            } else if i == 7 {
                assert(all[18].0 == req[7]);
            } else if i == 8 {
                assert(all[19].0 == req[8]);
            }
        },
        PromptTemplateType::GroupChatConversational => {
            assert(all =~= table_view(TIME_VARIABLES@) + table_view(GROUP_CHAT_CONVERSATIONAL_VARIABLES@));
            if i == 0 {
                assert(all[11].0 == req[0]);
            } else if i == 1 {
                assert(all[12].0 == req[1]);
            } else if i == 2 {
                assert(all[13].0 == req[2]);
            } else if i == 3 {
                assert(all[14].0 == req[3]);
            } else if i == 4 {
                assert(all[15].0 == req[4]);
            }
        },
        PromptTemplateType::DynamicMemorySummarizer => {
            assert(all =~= table_view(TIME_VARIABLES@) + table_view(DYNAMIC_MEMORY_SUMMARIZER_VARIABLES@));
            if i == 0 {
                assert(all[11].0 == req[0]);
            }
        },
        PromptTemplateType::DynamicMemoryManager => {
            assert(all =~= table_view(TIME_VARIABLES@) + table_view(DYNAMIC_MEMORY_MANAGER_VARIABLES@));
            if i == 0 {
                assert(all[11].0 == req[0]);
            }
        },
        PromptTemplateType::ReplyHelperRoleplay => {
            assert(all =~= table_view(TIME_VARIABLES@) + table_view(REPLY_HELPER_VARIABLES@));
            if i == 0 {
                assert(all[11].0 == req[0]);
            } else if i == 1 {
                assert(all[12].0 == req[1]);
            } else if i == 2 {
                assert(all[13].0 == req[2]);
            } else if i == 3 {
                assert(all[14].0 == req[3]);
            } else if i == 4 {
                assert(all[15].0 == req[4]);
            }
        },
        PromptTemplateType::ReplyHelperConversational => {
            assert(all =~= table_view(TIME_VARIABLES@) + table_view(REPLY_HELPER_VARIABLES@));
            if i == 0 {
                assert(all[11].0 == req[0]);
            } else if i == 1 {
                assert(all[12].0 == req[1]);
            } else if i == 2 {
                assert(all[13].0 == req[2]);
            } else if i == 3 {
                assert(all[14].0 == req[3]);
            } else if i == 4 {
                assert(all[15].0 == req[4]);
            }
        },
        PromptTemplateType::LorebookEntryWriter => {
            assert(all =~= table_view(TIME_VARIABLES@) + table_view(LOREBOOK_ENTRY_WRITER_VARIABLES@));
            if i == 0 {
                assert(all[14].0 == req[0]);
            } else if i == 1 {
                assert(all[15].0 == req[1]);
            } else if i == 2 {
                assert(all[16].0 == req[2]);
            } else if i == 3 {
                assert(all[17].0 == req[3]);
            }
        },
        PromptTemplateType::LorebookKeywordGenerator => {
            assert(all =~= table_view(TIME_VARIABLES@) + table_view(LOREBOOK_KEYWORD_GENERATOR_VARIABLES@));
            if i == 0 {
                assert(all[12].0 == req[0]);
            } else if i == 1 {
                assert(all[14].0 == req[1]);
            }
        },
        PromptTemplateType::LorebookGeneratorPlanner => {
            assert(all =~= table_view(TIME_VARIABLES@) + table_view(LOREBOOK_GENERATOR_PLANNER_VARIABLES@));
            if i == 0 {
                assert(all[11].0 == req[0]);
            } else if i == 1 {
                assert(all[12].0 == req[1]);
            } else if i == 2 {
                assert(all[13].0 == req[2]);
            }
        },
        PromptTemplateType::LorebookGeneratorWriter => {
            assert(all =~= table_view(TIME_VARIABLES@) + table_view(LOREBOOK_GENERATOR_WRITER_VARIABLES@));
            if i == 0 {
                assert(all[11].0 == req[0]);
            } else if i == 1 {
                assert(all[12].0 == req[1]);
            } else if i == 2 {
                assert(all[13].0 == req[2]);
            } else if i == 3 {
                assert(all[14].0 == req[3]);
            } else if i == 4 {
                assert(all[15].0 == req[4]);
            } else if i == 5 {
                assert(all[16].0 == req[5]);
            } else if i == 6 {
                assert(all[17].0 == req[6]);
            }
        },
        PromptTemplateType::LorebookGeneratorRefine => {
            assert(all =~= table_view(TIME_VARIABLES@) + table_view(LOREBOOK_GENERATOR_REFINE_VARIABLES@));
            if i == 0 {
                assert(all[13].0 == req[0]);
            } else if i == 1 {
                assert(all[14].0 == req[1]);
            } else if i == 2 {
                assert(all[16].0 == req[2]);
            } else if i == 3 {
                assert(all[15].0 == req[3]);
            } else if i == 4 {
                assert(all[17].0 == req[4]);
            }
        },
        PromptTemplateType::LorebookGeneratorCoherence => {
            assert(all =~= table_view(TIME_VARIABLES@) + table_view(LOREBOOK_GENERATOR_COHERENCE_VARIABLES@));
            if i == 0 {
                assert(all[11].0 == req[0]);
            }
        },
        PromptTemplateType::AvatarGeneration => {
            assert(all =~= table_view(TIME_VARIABLES@) + table_view(AVATAR_GENERATION_VARIABLES@));
            if i == 0 {
                assert(all[13].0 == req[0]);
            }
        },
        PromptTemplateType::AvatarEditRequest => {
            assert(all =~= table_view(TIME_VARIABLES@) + table_view(AVATAR_EDIT_REQUEST_VARIABLES@));
            if i == 0 {
                assert(all[13].0 == req[0]);
            } else if i == 1 {
                assert(all[14].0 == req[1]);
            }
        },
        PromptTemplateType::SceneGeneration => {
            assert(all =~= table_view(TIME_VARIABLES@) + table_view(SCENE_GENERATION_VARIABLES@));
            if i == 0 {
                assert(all[21].0 == req[0]);
            } else if i == 1 {
                assert(all[22].0 == req[1]);
            }
        },
        PromptTemplateType::ScenePromptWriter => {
            assert(all =~= table_view(TIME_VARIABLES@) + table_view(SCENE_GENERATION_VARIABLES@));
            if i == 0 {
                assert(all[21].0 == req[0]);
            } else if i == 1 {
                assert(all[22].0 == req[1]);
            }
        },
        PromptTemplateType::DesignReferenceWriter => {
            assert(all =~= table_view(TIME_VARIABLES@) + table_view(DESIGN_REFERENCE_WRITER_VARIABLES@));
            if i == 0 {
                assert(all[11].0 == req[0]);
            } else if i == 1 {
                assert(all[14].0 == req[1]);
            }
        },
        PromptTemplateType::CompanionSoulWriter => {
            assert(all =~= table_view(TIME_VARIABLES@) + table_view(COMPANION_SOUL_WRITER_VARIABLES@));
            if i == 0 {
                assert(all[11].0 == req[0]);
            }
        },
        _ => {},
    }
}

/// Every placeholder that a kind of template requires is among the
/// variables it allows: nothing is required that is not allowed.
pub proof fn lemma_required_are_allowed(t: PromptTemplateType)
    ensures
        forall|i: int|
            0 <= i < required_names(t).len() ==> exists|j: int|
                0 <= j < dedupe_spec(concat_groups(allowed_groups(t))).len() && #[trigger] dedupe_spec(
                    concat_groups(allowed_groups(t)),
                )[j].0 == #[trigger] required_names(t)[i],
{
    lemma_allowed_variables_unique_and_complete(t);
    let all = concat_groups(allowed_groups(t));
    let r = dedupe_spec(all);
    assert forall|i: int| 0 <= i < required_names(t).len() implies exists|j: int|
        0 <= j < r.len() && #[trigger] r[j].0 == #[trigger] required_names(t)[i] by {
        lemma_required_in_tables(t, i);
        let k = choose|k: int| 0 <= k < all.len() && #[trigger] all[k].0 == required_names(t)[i];
        assert(all[k].0 == required_names(t)[i]);
    }
}

// ------------------------------------------------------------------
// Image slots
// ------------------------------------------------------------------

/// The image slots that entries of a kind of template may carry.
pub open spec fn image_slots(t: PromptTemplateType) -> Seq<PromptEntryImageSlot> {
    match t {
        PromptTemplateType::Undefined => seq![
            PromptEntryImageSlot::Character,
            PromptEntryImageSlot::Persona,
            PromptEntryImageSlot::ChatBackground,
            PromptEntryImageSlot::Avatar,
            PromptEntryImageSlot::References,
        ],
        PromptTemplateType::SceneGeneration | PromptTemplateType::ScenePromptWriter => seq![
            PromptEntryImageSlot::Character,
            PromptEntryImageSlot::Persona,
            PromptEntryImageSlot::ChatBackground,
        ],
        PromptTemplateType::DesignReferenceWriter => seq![
            PromptEntryImageSlot::Avatar,
            PromptEntryImageSlot::References,
        ],
        _ => seq![],
    }
}

/// The placeholder that stands for an image slot.
pub open spec fn slot_placeholder(s: PromptEntryImageSlot) -> Seq<char> {
    match s {
        PromptEntryImageSlot::Character => "{{image[character]}}"@,
        PromptEntryImageSlot::Persona => "{{image[persona]}}"@,
        PromptEntryImageSlot::ChatBackground => "{{image[chatBackground]}}"@,
        PromptEntryImageSlot::Avatar => "{{image[avatar]}}"@,
        PromptEntryImageSlot::References => "{{image[references]}}"@,
    }
}

/// A placeholder that opens like those of image slots, `{{image[`.
pub open spec fn image_named(n: Seq<char>) -> bool {
    &&& n.len() >= 8
    &&& n[0] == '{' && n[1] == '{' && n[2] == 'i' && n[3] == 'm'
    &&& n[4] == 'a' && n[5] == 'g' && n[6] == 'e' && n[7] == '['
}

/// Each slot's placeholder is image-named, and no two slots share one.
proof fn lemma_slot_placeholders()
    ensures
        forall|s: PromptEntryImageSlot| image_named(#[trigger] slot_placeholder(s)),
        forall|a: PromptEntryImageSlot, b: PromptEntryImageSlot|
            #[trigger] slot_placeholder(a) == #[trigger] slot_placeholder(b) ==> a == b,
{
    reveal_strlit("{{image[character]}}");
    assert("{{image[character]}}"@.len() == 20);
    reveal_strlit("{{image[persona]}}");
    assert("{{image[persona]}}"@.len() == 18);
    reveal_strlit("{{image[chatBackground]}}");
    assert("{{image[chatBackground]}}"@.len() == 25);
    reveal_strlit("{{image[avatar]}}");
    assert("{{image[avatar]}}"@.len() == 17);
    reveal_strlit("{{image[references]}}");
    assert("{{image[references]}}"@.len() == 21);
    assert forall|s: PromptEntryImageSlot| image_named(#[trigger] slot_placeholder(s)) by {
        match s {
            PromptEntryImageSlot::Character => assert("{{image[character]}}"@[0] == '{' && "{{image[character]}}"@[1] == '{' && "{{image[character]}}"@[2] == 'i' && "{{image[character]}}"@[3] == 'm' && "{{image[character]}}"@[4] == 'a' && "{{image[character]}}"@[5] == 'g' && "{{image[character]}}"@[6] == 'e' && "{{image[character]}}"@[7] == '['),
            PromptEntryImageSlot::Persona => assert("{{image[persona]}}"@[0] == '{' && "{{image[persona]}}"@[1] == '{' && "{{image[persona]}}"@[2] == 'i' && "{{image[persona]}}"@[3] == 'm' && "{{image[persona]}}"@[4] == 'a' && "{{image[persona]}}"@[5] == 'g' && "{{image[persona]}}"@[6] == 'e' && "{{image[persona]}}"@[7] == '['),
            PromptEntryImageSlot::ChatBackground => assert("{{image[chatBackground]}}"@[0] == '{' && "{{image[chatBackground]}}"@[1] == '{' && "{{image[chatBackground]}}"@[2] == 'i' && "{{image[chatBackground]}}"@[3] == 'm' && "{{image[chatBackground]}}"@[4] == 'a' && "{{image[chatBackground]}}"@[5] == 'g' && "{{image[chatBackground]}}"@[6] == 'e' && "{{image[chatBackground]}}"@[7] == '['),
            PromptEntryImageSlot::Avatar => assert("{{image[avatar]}}"@[0] == '{' && "{{image[avatar]}}"@[1] == '{' && "{{image[avatar]}}"@[2] == 'i' && "{{image[avatar]}}"@[3] == 'm' && "{{image[avatar]}}"@[4] == 'a' && "{{image[avatar]}}"@[5] == 'g' && "{{image[avatar]}}"@[6] == 'e' && "{{image[avatar]}}"@[7] == '['),
            PromptEntryImageSlot::References => assert("{{image[references]}}"@[0] == '{' && "{{image[references]}}"@[1] == '{' && "{{image[references]}}"@[2] == 'i' && "{{image[references]}}"@[3] == 'm' && "{{image[references]}}"@[4] == 'a' && "{{image[references]}}"@[5] == 'g' && "{{image[references]}}"@[6] == 'e' && "{{image[references]}}"@[7] == '['),
        }
    }
}

/// No placeholder of this table opens like an image slot's.
proof fn lemma_no_image_names_time_variables()
    ensures
        forall|j: int| 0 <= j < table_view(TIME_VARIABLES@).len() ==> !image_named(#[trigger] table_view(TIME_VARIABLES@)[j].0),
{
    reveal_strlit("{{date}}");
    reveal_strlit("{{date_full}}");
    reveal_strlit("{{weekday}}");
    reveal_strlit("{{time_hour}}");
    reveal_strlit("{{time_minute}}");
    reveal_strlit("{{time_second}}");
    reveal_strlit("{{time_full}}");
    reveal_strlit("{{time_12hour_format}}");
    reveal_strlit("{{time_timezone}}");
    reveal_strlit("{{time_timezone_name}}");
    reveal_strlit("{{datetime_iso}}");
    assert forall|j: int| 0 <= j < table_view(TIME_VARIABLES@).len() implies !image_named(#[trigger] table_view(TIME_VARIABLES@)[j].0) by {
        if j == 0 {
            assert(table_view(TIME_VARIABLES@)[0].0 == "{{date}}"@);
            assert("{{date}}"@[2] == 'd');
        } else if j == 1 {
            assert(table_view(TIME_VARIABLES@)[1].0 == "{{date_full}}"@);
            assert("{{date_full}}"@[2] == 'd');
        } else if j == 2 {
            assert(table_view(TIME_VARIABLES@)[2].0 == "{{weekday}}"@);
            assert("{{weekday}}"@[2] == 'w');
        } else if j == 3 {
            assert(table_view(TIME_VARIABLES@)[3].0 == "{{time_hour}}"@);
            assert("{{time_hour}}"@[2] == 't');
        } else if j == 4 {
            assert(table_view(TIME_VARIABLES@)[4].0 == "{{time_minute}}"@);
            assert("{{time_minute}}"@[2] == 't');
        } else if j == 5 {
            assert(table_view(TIME_VARIABLES@)[5].0 == "{{time_second}}"@);
            assert("{{time_second}}"@[2] == 't');
        } else if j == 6 {
            assert(table_view(TIME_VARIABLES@)[6].0 == "{{time_full}}"@);
            assert("{{time_full}}"@[2] == 't');
        } else if j == 7 {
            assert(table_view(TIME_VARIABLES@)[7].0 == "{{time_12hour_format}}"@);
            assert("{{time_12hour_format}}"@[2] == 't');
        } else if j == 8 {
            assert(table_view(TIME_VARIABLES@)[8].0 == "{{time_timezone}}"@);
            assert("{{time_timezone}}"@[2] == 't');
        } else if j == 9 {
            assert(table_view(TIME_VARIABLES@)[9].0 == "{{time_timezone_name}}"@);
            assert("{{time_timezone_name}}"@[2] == 't');
        } else if j == 10 {
            assert(table_view(TIME_VARIABLES@)[10].0 == "{{datetime_iso}}"@);
            assert("{{datetime_iso}}"@[2] == 'd');
        }
    }
}

/// No placeholder of this table opens like an image slot's.
proof fn lemma_no_image_names_direct_chat_variables()
    ensures
        forall|j: int| 0 <= j < table_view(DIRECT_CHAT_VARIABLES@).len() ==> !image_named(#[trigger] table_view(DIRECT_CHAT_VARIABLES@)[j].0),
{
    reveal_strlit("{{char.name}}");
    reveal_strlit("{{char.desc}}");
    reveal_strlit("{{scene}}");
    reveal_strlit("{{scene_direction}}");
    reveal_strlit("{{persona.name}}");
    reveal_strlit("{{persona.desc}}");
    reveal_strlit("{{context_summary}}");
    reveal_strlit("{{companion_state}}");
    reveal_strlit("{{key_memories}}");
    reveal_strlit("{{lorebook}}");
    reveal_strlit("{{author_note}}");
    reveal_strlit("{{rules}}");
    reveal_strlit("{{content_rules}}");
    assert forall|j: int| 0 <= j < table_view(DIRECT_CHAT_VARIABLES@).len() implies !image_named(#[trigger] table_view(DIRECT_CHAT_VARIABLES@)[j].0) by {
        if j == 0 {
            assert(table_view(DIRECT_CHAT_VARIABLES@)[0].0 == "{{char.name}}"@);
            assert("{{char.name}}"@[2] == 'c');
        } else if j == 1 {
            assert(table_view(DIRECT_CHAT_VARIABLES@)[1].0 == "{{char.desc}}"@);
            assert("{{char.desc}}"@[2] == 'c');
        } else if j == 2 {
            assert(table_view(DIRECT_CHAT_VARIABLES@)[2].0 == "{{scene}}"@);
            assert("{{scene}}"@[2] == 's');
        } else if j == 3 {
            assert(table_view(DIRECT_CHAT_VARIABLES@)[3].0 == "{{scene_direction}}"@);
            assert("{{scene_direction}}"@[2] == 's');
        } else if j == 4 {
            assert(table_view(DIRECT_CHAT_VARIABLES@)[4].0 == "{{persona.name}}"@);
            assert("{{persona.name}}"@[2] == 'p');
        } else if j == 5 {
            assert(table_view(DIRECT_CHAT_VARIABLES@)[5].0 == "{{persona.desc}}"@);
            assert("{{persona.desc}}"@[2] == 'p');
        } else if j == 6 {
            assert(table_view(DIRECT_CHAT_VARIABLES@)[6].0 == "{{context_summary}}"@);
            assert("{{context_summary}}"@[2] == 'c');
        } else if j == 7 {
            assert(table_view(DIRECT_CHAT_VARIABLES@)[7].0 == "{{companion_state}}"@);
            assert("{{companion_state}}"@[2] == 'c');
        } else if j == 8 {
            assert(table_view(DIRECT_CHAT_VARIABLES@)[8].0 == "{{key_memories}}"@);
            assert("{{key_memories}}"@[2] == 'k');
        } else if j == 9 {
            assert(table_view(DIRECT_CHAT_VARIABLES@)[9].0 == "{{lorebook}}"@);
            assert("{{lorebook}}"@[2] == 'l');
        } else if j == 10 {
            assert(table_view(DIRECT_CHAT_VARIABLES@)[10].0 == "{{author_note}}"@);
            assert("{{author_note}}"@[2] == 'a');
        } else if j == 11 {
            assert(table_view(DIRECT_CHAT_VARIABLES@)[11].0 == "{{rules}}"@);
            assert("{{rules}}"@[2] == 'r');
        } else if j == 12 {
            assert(table_view(DIRECT_CHAT_VARIABLES@)[12].0 == "{{content_rules}}"@);
            assert("{{content_rules}}"@[2] == 'c');
        }
    }
}

/// No placeholder of this table opens like an image slot's.
proof fn lemma_no_image_names_group_chat_conversational_variables()
    ensures
        forall|j: int| 0 <= j < table_view(GROUP_CHAT_CONVERSATIONAL_VARIABLES@).len() ==> !image_named(#[trigger] table_view(GROUP_CHAT_CONVERSATIONAL_VARIABLES@)[j].0),
{
    reveal_strlit("{{char.name}}");
    reveal_strlit("{{char.desc}}");
    reveal_strlit("{{persona.name}}");
    reveal_strlit("{{persona.desc}}");
    reveal_strlit("{{group_characters}}");
    assert forall|j: int| 0 <= j < table_view(GROUP_CHAT_CONVERSATIONAL_VARIABLES@).len() implies !image_named(#[trigger] table_view(GROUP_CHAT_CONVERSATIONAL_VARIABLES@)[j].0) by {
        if j == 0 {
            assert(table_view(GROUP_CHAT_CONVERSATIONAL_VARIABLES@)[0].0 == "{{char.name}}"@);
            assert("{{char.name}}"@[2] == 'c');
        } else if j == 1 {
            assert(table_view(GROUP_CHAT_CONVERSATIONAL_VARIABLES@)[1].0 == "{{char.desc}}"@);
            assert("{{char.desc}}"@[2] == 'c');
        } else if j == 2 {
            assert(table_view(GROUP_CHAT_CONVERSATIONAL_VARIABLES@)[2].0 == "{{persona.name}}"@);
            assert("{{persona.name}}"@[2] == 'p');
        } else if j == 3 {
            assert(table_view(GROUP_CHAT_CONVERSATIONAL_VARIABLES@)[3].0 == "{{persona.desc}}"@);
            assert("{{persona.desc}}"@[2] == 'p');
        } else if j == 4 {
            assert(table_view(GROUP_CHAT_CONVERSATIONAL_VARIABLES@)[4].0 == "{{group_characters}}"@);
            assert("{{group_characters}}"@[2] == 'g');
        }
    }
}

/// No placeholder of this table opens like an image slot's.
proof fn lemma_no_image_names_group_chat_roleplay_variables()
    ensures
        forall|j: int| 0 <= j < table_view(GROUP_CHAT_ROLEPLAY_VARIABLES@).len() ==> !image_named(#[trigger] table_view(GROUP_CHAT_ROLEPLAY_VARIABLES@)[j].0),
{
    reveal_strlit("{{scene}}");
    reveal_strlit("{{scene_direction}}");
    reveal_strlit("{{char.name}}");
    reveal_strlit("{{char.desc}}");
    reveal_strlit("{{persona.name}}");
    reveal_strlit("{{persona.desc}}");
    reveal_strlit("{{group_characters}}");
    reveal_strlit("{{context_summary}}");
    reveal_strlit("{{key_memories}}");
    assert forall|j: int| 0 <= j < table_view(GROUP_CHAT_ROLEPLAY_VARIABLES@).len() implies !image_named(#[trigger] table_view(GROUP_CHAT_ROLEPLAY_VARIABLES@)[j].0) by {
        if j == 0 {
            assert(table_view(GROUP_CHAT_ROLEPLAY_VARIABLES@)[0].0 == "{{scene}}"@);
            assert("{{scene}}"@[2] == 's');
        } else if j == 1 {
            assert(table_view(GROUP_CHAT_ROLEPLAY_VARIABLES@)[1].0 == "{{scene_direction}}"@);
            assert("{{scene_direction}}"@[2] == 's');
        } else if j == 2 {
            assert(table_view(GROUP_CHAT_ROLEPLAY_VARIABLES@)[2].0 == "{{char.name}}"@);
            assert("{{char.name}}"@[2] == 'c');
        } else if j == 3 {
            assert(table_view(GROUP_CHAT_ROLEPLAY_VARIABLES@)[3].0 == "{{char.desc}}"@);
            assert("{{char.desc}}"@[2] == 'c');
        } else if j == 4 {
            assert(table_view(GROUP_CHAT_ROLEPLAY_VARIABLES@)[4].0 == "{{persona.name}}"@);
            assert("{{persona.name}}"@[2] == 'p');
        } else if j == 5 {
            assert(table_view(GROUP_CHAT_ROLEPLAY_VARIABLES@)[5].0 == "{{persona.desc}}"@);
            assert("{{persona.desc}}"@[2] == 'p');
        } else if j == 6 {
            assert(table_view(GROUP_CHAT_ROLEPLAY_VARIABLES@)[6].0 == "{{group_characters}}"@);
            assert("{{group_characters}}"@[2] == 'g');
        } else if j == 7 {
            assert(table_view(GROUP_CHAT_ROLEPLAY_VARIABLES@)[7].0 == "{{context_summary}}"@);
            assert("{{context_summary}}"@[2] == 'c');
        } else if j == 8 {
            assert(table_view(GROUP_CHAT_ROLEPLAY_VARIABLES@)[8].0 == "{{key_memories}}"@);
            assert("{{key_memories}}"@[2] == 'k');
        }
    }
}

/// No placeholder of this table opens like an image slot's.
proof fn lemma_no_image_names_dynamic_memory_summarizer_variables()
    ensures
        forall|j: int| 0 <= j < table_view(DYNAMIC_MEMORY_SUMMARIZER_VARIABLES@).len() ==> !image_named(#[trigger] table_view(DYNAMIC_MEMORY_SUMMARIZER_VARIABLES@)[j].0),
{
    reveal_strlit("{{prev_summary}}");
    reveal_strlit("{{character}}");
    reveal_strlit("{{persona}}");
    assert forall|j: int| 0 <= j < table_view(DYNAMIC_MEMORY_SUMMARIZER_VARIABLES@).len() implies !image_named(#[trigger] table_view(DYNAMIC_MEMORY_SUMMARIZER_VARIABLES@)[j].0) by {
        if j == 0 {
            assert(table_view(DYNAMIC_MEMORY_SUMMARIZER_VARIABLES@)[0].0 == "{{prev_summary}}"@);
            assert("{{prev_summary}}"@[2] == 'p');
        } else if j == 1 {
            assert(table_view(DYNAMIC_MEMORY_SUMMARIZER_VARIABLES@)[1].0 == "{{character}}"@);
            assert("{{character}}"@[2] == 'c');
        } else if j == 2 {
            assert(table_view(DYNAMIC_MEMORY_SUMMARIZER_VARIABLES@)[2].0 == "{{persona}}"@);
            assert("{{persona}}"@[2] == 'p');
        }
    }
}

/// No placeholder of this table opens like an image slot's.
proof fn lemma_no_image_names_dynamic_memory_manager_variables()
    ensures
        forall|j: int| 0 <= j < table_view(DYNAMIC_MEMORY_MANAGER_VARIABLES@).len() ==> !image_named(#[trigger] table_view(DYNAMIC_MEMORY_MANAGER_VARIABLES@)[j].0),
{
    reveal_strlit("{{max_entries}}");
    reveal_strlit("{{current_memory_tokens}}");
    reveal_strlit("{{hot_token_budget}}");
    assert forall|j: int| 0 <= j < table_view(DYNAMIC_MEMORY_MANAGER_VARIABLES@).len() implies !image_named(#[trigger] table_view(DYNAMIC_MEMORY_MANAGER_VARIABLES@)[j].0) by {
        if j == 0 {
            assert(table_view(DYNAMIC_MEMORY_MANAGER_VARIABLES@)[0].0 == "{{max_entries}}"@);
            assert("{{max_entries}}"@[2] == 'm');
        } else if j == 1 {
            assert(table_view(DYNAMIC_MEMORY_MANAGER_VARIABLES@)[1].0 == "{{current_memory_tokens}}"@);
            assert("{{current_memory_tokens}}"@[2] == 'c');
        } else if j == 2 {
            assert(table_view(DYNAMIC_MEMORY_MANAGER_VARIABLES@)[2].0 == "{{hot_token_budget}}"@);
            assert("{{hot_token_budget}}"@[2] == 'h');
        }
    }
}

/// No placeholder of this table opens like an image slot's.
proof fn lemma_no_image_names_reply_helper_variables()
    ensures
        forall|j: int| 0 <= j < table_view(REPLY_HELPER_VARIABLES@).len() ==> !image_named(#[trigger] table_view(REPLY_HELPER_VARIABLES@)[j].0),
{
    reveal_strlit("{{char.name}}");
    reveal_strlit("{{char.desc}}");
    reveal_strlit("{{persona.name}}");
    reveal_strlit("{{persona.desc}}");
    reveal_strlit("{{current_draft}}");
    assert forall|j: int| 0 <= j < table_view(REPLY_HELPER_VARIABLES@).len() implies !image_named(#[trigger] table_view(REPLY_HELPER_VARIABLES@)[j].0) by {
        if j == 0 {
            assert(table_view(REPLY_HELPER_VARIABLES@)[0].0 == "{{char.name}}"@);
            assert("{{char.name}}"@[2] == 'c');
        } else if j == 1 {
            assert(table_view(REPLY_HELPER_VARIABLES@)[1].0 == "{{char.desc}}"@);
            assert("{{char.desc}}"@[2] == 'c');
        } else if j == 2 {
            assert(table_view(REPLY_HELPER_VARIABLES@)[2].0 == "{{persona.name}}"@);
            assert("{{persona.name}}"@[2] == 'p');
        } else if j == 3 {
            assert(table_view(REPLY_HELPER_VARIABLES@)[3].0 == "{{persona.desc}}"@);
            assert("{{persona.desc}}"@[2] == 'p');
        } else if j == 4 {
            assert(table_view(REPLY_HELPER_VARIABLES@)[4].0 == "{{current_draft}}"@);
            assert("{{current_draft}}"@[2] == 'c');
        }
    }
}

/// No placeholder of this table opens like an image slot's.
proof fn lemma_no_image_names_lorebook_entry_writer_variables()
    ensures
        forall|j: int| 0 <= j < table_view(LOREBOOK_ENTRY_WRITER_VARIABLES@).len() ==> !image_named(#[trigger] table_view(LOREBOOK_ENTRY_WRITER_VARIABLES@)[j].0),
{
    reveal_strlit("{{lorebook_name}}");
    reveal_strlit("{{character_name}}");
    reveal_strlit("{{session_title}}");
    reveal_strlit("{{selected_messages}}");
    reveal_strlit("{{memory_summary}}");
    reveal_strlit("{{selected_memories}}");
    reveal_strlit("{{direction_prompt}}");
    reveal_strlit("{{existing_entries}}");
    assert forall|j: int| 0 <= j < table_view(LOREBOOK_ENTRY_WRITER_VARIABLES@).len() implies !image_named(#[trigger] table_view(LOREBOOK_ENTRY_WRITER_VARIABLES@)[j].0) by {
        if j == 0 {
            assert(table_view(LOREBOOK_ENTRY_WRITER_VARIABLES@)[0].0 == "{{lorebook_name}}"@);
            assert("{{lorebook_name}}"@[2] == 'l');
        } else if j == 1 {
            assert(table_view(LOREBOOK_ENTRY_WRITER_VARIABLES@)[1].0 == "{{character_name}}"@);
            assert("{{character_name}}"@[2] == 'c');
        } else if j == 2 {
            assert(table_view(LOREBOOK_ENTRY_WRITER_VARIABLES@)[2].0 == "{{session_title}}"@);
            assert("{{session_title}}"@[2] == 's');
        } else if j == 3 {
            assert(table_view(LOREBOOK_ENTRY_WRITER_VARIABLES@)[3].0 == "{{selected_messages}}"@);
            assert("{{selected_messages}}"@[2] == 's');
        } else if j == 4 {
            assert(table_view(LOREBOOK_ENTRY_WRITER_VARIABLES@)[4].0 == "{{memory_summary}}"@);
            assert("{{memory_summary}}"@[2] == 'm');
        } else if j == 5 {
            assert(table_view(LOREBOOK_ENTRY_WRITER_VARIABLES@)[5].0 == "{{selected_memories}}"@);
            assert("{{selected_memories}}"@[2] == 's');
        } else if j == 6 {
            assert(table_view(LOREBOOK_ENTRY_WRITER_VARIABLES@)[6].0 == "{{direction_prompt}}"@);
            assert("{{direction_prompt}}"@[2] == 'd');
        } else if j == 7 {
            assert(table_view(LOREBOOK_ENTRY_WRITER_VARIABLES@)[7].0 == "{{existing_entries}}"@);
            assert("{{existing_entries}}"@[2] == 'e');
        }
    }
}

/// No placeholder of this table opens like an image slot's.
proof fn lemma_no_image_names_lorebook_keyword_generator_variables()
    ensures
        forall|j: int| 0 <= j < table_view(LOREBOOK_KEYWORD_GENERATOR_VARIABLES@).len() ==> !image_named(#[trigger] table_view(LOREBOOK_KEYWORD_GENERATOR_VARIABLES@)[j].0),
{
    reveal_strlit("{{entry_title}}");
    reveal_strlit("{{entry_content}}");
    reveal_strlit("{{existing_keywords}}");
    reveal_strlit("{{direction_prompt}}");
    assert forall|j: int| 0 <= j < table_view(LOREBOOK_KEYWORD_GENERATOR_VARIABLES@).len() implies !image_named(#[trigger] table_view(LOREBOOK_KEYWORD_GENERATOR_VARIABLES@)[j].0) by {
        if j == 0 {
            assert(table_view(LOREBOOK_KEYWORD_GENERATOR_VARIABLES@)[0].0 == "{{entry_title}}"@);
            assert("{{entry_title}}"@[2] == 'e');
        } else if j == 1 {
            assert(table_view(LOREBOOK_KEYWORD_GENERATOR_VARIABLES@)[1].0 == "{{entry_content}}"@);
            assert("{{entry_content}}"@[2] == 'e');
        } else if j == 2 {
            assert(table_view(LOREBOOK_KEYWORD_GENERATOR_VARIABLES@)[2].0 == "{{existing_keywords}}"@);
            assert("{{existing_keywords}}"@[2] == 'e');
        } else if j == 3 {
            assert(table_view(LOREBOOK_KEYWORD_GENERATOR_VARIABLES@)[3].0 == "{{direction_prompt}}"@);
            assert("{{direction_prompt}}"@[2] == 'd');
        }
    }
}

/// No placeholder of this table opens like an image slot's.
proof fn lemma_no_image_names_lorebook_generator_planner_variables()
    ensures
        forall|j: int| 0 <= j < table_view(LOREBOOK_GENERATOR_PLANNER_VARIABLES@).len() ==> !image_named(#[trigger] table_view(LOREBOOK_GENERATOR_PLANNER_VARIABLES@)[j].0),
{
    reveal_strlit("{{brief}}");
    reveal_strlit("{{target_count}}");
    reveal_strlit("{{source_excerpts}}");
    assert forall|j: int| 0 <= j < table_view(LOREBOOK_GENERATOR_PLANNER_VARIABLES@).len() implies !image_named(#[trigger] table_view(LOREBOOK_GENERATOR_PLANNER_VARIABLES@)[j].0) by {
        if j == 0 {
            assert(table_view(LOREBOOK_GENERATOR_PLANNER_VARIABLES@)[0].0 == "{{brief}}"@);
            assert("{{brief}}"@[2] == 'b');
        } else if j == 1 {
            assert(table_view(LOREBOOK_GENERATOR_PLANNER_VARIABLES@)[1].0 == "{{target_count}}"@);
            assert("{{target_count}}"@[2] == 't');
        } else if j == 2 {
            assert(table_view(LOREBOOK_GENERATOR_PLANNER_VARIABLES@)[2].0 == "{{source_excerpts}}"@);
            assert("{{source_excerpts}}"@[2] == 's');
        }
    }
}

/// No placeholder of this table opens like an image slot's.
proof fn lemma_no_image_names_lorebook_generator_writer_variables()
    ensures
        forall|j: int| 0 <= j < table_view(LOREBOOK_GENERATOR_WRITER_VARIABLES@).len() ==> !image_named(#[trigger] table_view(LOREBOOK_GENERATOR_WRITER_VARIABLES@)[j].0),
{
    reveal_strlit("{{brief}}");
    reveal_strlit("{{outline}}");
    reveal_strlit("{{entry_title}}");
    reveal_strlit("{{entry_category}}");
    reveal_strlit("{{entry_proposed_keys}}");
    reveal_strlit("{{entry_rationale}}");
    reveal_strlit("{{relevant_excerpts}}");
    assert forall|j: int| 0 <= j < table_view(LOREBOOK_GENERATOR_WRITER_VARIABLES@).len() implies !image_named(#[trigger] table_view(LOREBOOK_GENERATOR_WRITER_VARIABLES@)[j].0) by {
        if j == 0 {
            assert(table_view(LOREBOOK_GENERATOR_WRITER_VARIABLES@)[0].0 == "{{brief}}"@);
            assert("{{brief}}"@[2] == 'b');
        } else if j == 1 {
            assert(table_view(LOREBOOK_GENERATOR_WRITER_VARIABLES@)[1].0 == "{{outline}}"@);
            assert("{{outline}}"@[2] == 'o');
        } else if j == 2 {
            assert(table_view(LOREBOOK_GENERATOR_WRITER_VARIABLES@)[2].0 == "{{entry_title}}"@);
            assert("{{entry_title}}"@[2] == 'e');
        } else if j == 3 {
            assert(table_view(LOREBOOK_GENERATOR_WRITER_VARIABLES@)[3].0 == "{{entry_category}}"@);
            assert("{{entry_category}}"@[2] == 'e');
        } else if j == 4 {
            assert(table_view(LOREBOOK_GENERATOR_WRITER_VARIABLES@)[4].0 == "{{entry_proposed_keys}}"@);
            assert("{{entry_proposed_keys}}"@[2] == 'e');
        } else if j == 5 {
            assert(table_view(LOREBOOK_GENERATOR_WRITER_VARIABLES@)[5].0 == "{{entry_rationale}}"@);
            assert("{{entry_rationale}}"@[2] == 'e');
        } else if j == 6 {
            assert(table_view(LOREBOOK_GENERATOR_WRITER_VARIABLES@)[6].0 == "{{relevant_excerpts}}"@);
            assert("{{relevant_excerpts}}"@[2] == 'r');
        }
    }
}

/// No placeholder of this table opens like an image slot's.
proof fn lemma_no_image_names_lorebook_generator_refine_variables()
    ensures
        forall|j: int| 0 <= j < table_view(LOREBOOK_GENERATOR_REFINE_VARIABLES@).len() ==> !image_named(#[trigger] table_view(LOREBOOK_GENERATOR_REFINE_VARIABLES@)[j].0),
{
    reveal_strlit("{{brief}}");
    reveal_strlit("{{outline}}");
    reveal_strlit("{{entry_title}}");
    reveal_strlit("{{entry_keywords}}");
    reveal_strlit("{{entry_always_active}}");
    reveal_strlit("{{entry_content}}");
    reveal_strlit("{{user_feedback}}");
    reveal_strlit("{{relevant_excerpts}}");
    assert forall|j: int| 0 <= j < table_view(LOREBOOK_GENERATOR_REFINE_VARIABLES@).len() implies !image_named(#[trigger] table_view(LOREBOOK_GENERATOR_REFINE_VARIABLES@)[j].0) by {
        if j == 0 {
            assert(table_view(LOREBOOK_GENERATOR_REFINE_VARIABLES@)[0].0 == "{{brief}}"@);
            assert("{{brief}}"@[2] == 'b');
        } else if j == 1 {
            assert(table_view(LOREBOOK_GENERATOR_REFINE_VARIABLES@)[1].0 == "{{outline}}"@);
            assert("{{outline}}"@[2] == 'o');
        } else if j == 2 {
            assert(table_view(LOREBOOK_GENERATOR_REFINE_VARIABLES@)[2].0 == "{{entry_title}}"@);
            assert("{{entry_title}}"@[2] == 'e');
        } else if j == 3 {
            assert(table_view(LOREBOOK_GENERATOR_REFINE_VARIABLES@)[3].0 == "{{entry_keywords}}"@);
            assert("{{entry_keywords}}"@[2] == 'e');
        } else if j == 4 {
            assert(table_view(LOREBOOK_GENERATOR_REFINE_VARIABLES@)[4].0 == "{{entry_always_active}}"@);
            assert("{{entry_always_active}}"@[2] == 'e');
        } else if j == 5 {
            assert(table_view(LOREBOOK_GENERATOR_REFINE_VARIABLES@)[5].0 == "{{entry_content}}"@);
            assert("{{entry_content}}"@[2] == 'e');
        } else if j == 6 {
            assert(table_view(LOREBOOK_GENERATOR_REFINE_VARIABLES@)[6].0 == "{{user_feedback}}"@);
            assert("{{user_feedback}}"@[2] == 'u');
        } else if j == 7 {
            assert(table_view(LOREBOOK_GENERATOR_REFINE_VARIABLES@)[7].0 == "{{relevant_excerpts}}"@);
            assert("{{relevant_excerpts}}"@[2] == 'r');
        }
    }
}

/// No placeholder of this table opens like an image slot's.
proof fn lemma_no_image_names_lorebook_generator_coherence_variables()
    ensures
        forall|j: int| 0 <= j < table_view(LOREBOOK_GENERATOR_COHERENCE_VARIABLES@).len() ==> !image_named(#[trigger] table_view(LOREBOOK_GENERATOR_COHERENCE_VARIABLES@)[j].0),
{
    reveal_strlit("{{drafted_entries}}");
    assert forall|j: int| 0 <= j < table_view(LOREBOOK_GENERATOR_COHERENCE_VARIABLES@).len() implies !image_named(#[trigger] table_view(LOREBOOK_GENERATOR_COHERENCE_VARIABLES@)[j].0) by {
        if j == 0 {
            assert(table_view(LOREBOOK_GENERATOR_COHERENCE_VARIABLES@)[0].0 == "{{drafted_entries}}"@);
            assert("{{drafted_entries}}"@[2] == 'd');
        }
    }
}

/// No placeholder of this table opens like an image slot's.
proof fn lemma_no_image_names_avatar_generation_variables()
    ensures
        forall|j: int| 0 <= j < table_view(AVATAR_GENERATION_VARIABLES@).len() ==> !image_named(#[trigger] table_view(AVATAR_GENERATION_VARIABLES@)[j].0),
{
    reveal_strlit("{{avatar_subject_name}}");
    reveal_strlit("{{avatar_subject_description}}");
    reveal_strlit("{{avatar_request}}");
    assert forall|j: int| 0 <= j < table_view(AVATAR_GENERATION_VARIABLES@).len() implies !image_named(#[trigger] table_view(AVATAR_GENERATION_VARIABLES@)[j].0) by {
        if j == 0 {
            assert(table_view(AVATAR_GENERATION_VARIABLES@)[0].0 == "{{avatar_subject_name}}"@);
            assert("{{avatar_subject_name}}"@[2] == 'a');
        } else if j == 1 {
            assert(table_view(AVATAR_GENERATION_VARIABLES@)[1].0 == "{{avatar_subject_description}}"@);
            assert("{{avatar_subject_description}}"@[2] == 'a');
        } else if j == 2 {
            assert(table_view(AVATAR_GENERATION_VARIABLES@)[2].0 == "{{avatar_request}}"@);
            assert("{{avatar_request}}"@[2] == 'a');
        }
    }
}

/// No placeholder of this table opens like an image slot's.
proof fn lemma_no_image_names_avatar_edit_request_variables()
    ensures
        forall|j: int| 0 <= j < table_view(AVATAR_EDIT_REQUEST_VARIABLES@).len() ==> !image_named(#[trigger] table_view(AVATAR_EDIT_REQUEST_VARIABLES@)[j].0),
{
    reveal_strlit("{{avatar_subject_name}}");
    reveal_strlit("{{avatar_subject_description}}");
    reveal_strlit("{{current_avatar_prompt}}");
    reveal_strlit("{{edit_request}}");
    assert forall|j: int| 0 <= j < table_view(AVATAR_EDIT_REQUEST_VARIABLES@).len() implies !image_named(#[trigger] table_view(AVATAR_EDIT_REQUEST_VARIABLES@)[j].0) by {
        if j == 0 {
            assert(table_view(AVATAR_EDIT_REQUEST_VARIABLES@)[0].0 == "{{avatar_subject_name}}"@);
            assert("{{avatar_subject_name}}"@[2] == 'a');
        } else if j == 1 {
            assert(table_view(AVATAR_EDIT_REQUEST_VARIABLES@)[1].0 == "{{avatar_subject_description}}"@);
            assert("{{avatar_subject_description}}"@[2] == 'a');
        } else if j == 2 {
            assert(table_view(AVATAR_EDIT_REQUEST_VARIABLES@)[2].0 == "{{current_avatar_prompt}}"@);
            assert("{{current_avatar_prompt}}"@[2] == 'c');
        } else if j == 3 {
            assert(table_view(AVATAR_EDIT_REQUEST_VARIABLES@)[3].0 == "{{edit_request}}"@);
            assert("{{edit_request}}"@[2] == 'e');
        }
    }
}

/// No placeholder of this table opens like an image slot's.
proof fn lemma_no_image_names_companion_soul_writer_variables()
    ensures
        forall|j: int| 0 <= j < table_view(COMPANION_SOUL_WRITER_VARIABLES@).len() ==> !image_named(#[trigger] table_view(COMPANION_SOUL_WRITER_VARIABLES@)[j].0),
{
    reveal_strlit("{{char.name}}");
    reveal_strlit("{{char.definition}}");
    reveal_strlit("{{char.description}}");
    reveal_strlit("{{opening_context}}");
    reveal_strlit("{{current_soul}}");
    reveal_strlit("{{user_notes}}");
    assert forall|j: int| 0 <= j < table_view(COMPANION_SOUL_WRITER_VARIABLES@).len() implies !image_named(#[trigger] table_view(COMPANION_SOUL_WRITER_VARIABLES@)[j].0) by {
        if j == 0 {
            assert(table_view(COMPANION_SOUL_WRITER_VARIABLES@)[0].0 == "{{char.name}}"@);
            assert("{{char.name}}"@[2] == 'c');
        } else if j == 1 {
            assert(table_view(COMPANION_SOUL_WRITER_VARIABLES@)[1].0 == "{{char.definition}}"@);
            assert("{{char.definition}}"@[2] == 'c');
        } else if j == 2 {
            assert(table_view(COMPANION_SOUL_WRITER_VARIABLES@)[2].0 == "{{char.description}}"@);
            assert("{{char.description}}"@[2] == 'c');
        } else if j == 3 {
            assert(table_view(COMPANION_SOUL_WRITER_VARIABLES@)[3].0 == "{{opening_context}}"@);
            assert("{{opening_context}}"@[2] == 'o');
        } else if j == 4 {
            assert(table_view(COMPANION_SOUL_WRITER_VARIABLES@)[4].0 == "{{current_soul}}"@);
            assert("{{current_soul}}"@[2] == 'c');
        } else if j == 5 {
            assert(table_view(COMPANION_SOUL_WRITER_VARIABLES@)[5].0 == "{{user_notes}}"@);
            assert("{{user_notes}}"@[2] == 'u');
        }
    }
}

/// An image-named placeholder among a kind's tables is the placeholder of
/// one of the kind's image slots.
proof fn lemma_image_named_in_tables(t: PromptTemplateType, k: int)
    requires
        t != PromptTemplateType::Undefined,
        0 <= k < concat_groups(allowed_groups(t)).len(),
        image_named(concat_groups(allowed_groups(t))[k].0),
    ensures
        exists|s: PromptEntryImageSlot|
            image_slots(t).contains(s) && #[trigger] slot_placeholder(s) == concat_groups(allowed_groups(t))[k].0,
{
    reveal_with_fuel(concat_groups, 3);
    let all = concat_groups(allowed_groups(t));
    match t {
        PromptTemplateType::Undefined => {},
        PromptTemplateType::DirectChat => {
            assert(all =~= table_view(TIME_VARIABLES@) + table_view(DIRECT_CHAT_VARIABLES@));
            lemma_no_image_names_time_variables();
            lemma_no_image_names_direct_chat_variables();
            assert(k >= 11 ==> table_view(DIRECT_CHAT_VARIABLES@)[k - 11].0 == all[k].0);
            assert(k < 11 ==> table_view(TIME_VARIABLES@)[k].0 == all[k].0);
        },
        PromptTemplateType::CompanionChat => {
            assert(all =~= table_view(TIME_VARIABLES@) + table_view(DIRECT_CHAT_VARIABLES@));
            lemma_no_image_names_time_variables();
            lemma_no_image_names_direct_chat_variables();
            assert(k >= 11 ==> table_view(DIRECT_CHAT_VARIABLES@)[k - 11].0 == all[k].0);
            assert(k < 11 ==> table_view(TIME_VARIABLES@)[k].0 == all[k].0);
        },
        PromptTemplateType::GroupChatRoleplay => {
            assert(all =~= table_view(TIME_VARIABLES@) + table_view(GROUP_CHAT_ROLEPLAY_VARIABLES@));
            lemma_no_image_names_time_variables();
            lemma_no_image_names_group_chat_roleplay_variables();
            assert(k >= 11 ==> table_view(GROUP_CHAT_ROLEPLAY_VARIABLES@)[k - 11].0 == all[k].0);
            assert(k < 11 ==> table_view(TIME_VARIABLES@)[k].0 == all[k].0);
        },
        PromptTemplateType::GroupChatConversational => {
            assert(all =~= table_view(TIME_VARIABLES@) + table_view(GROUP_CHAT_CONVERSATIONAL_VARIABLES@));
            lemma_no_image_names_time_variables();
            lemma_no_image_names_group_chat_conversational_variables();
            assert(k >= 11 ==> table_view(GROUP_CHAT_CONVERSATIONAL_VARIABLES@)[k - 11].0 == all[k].0);
            assert(k < 11 ==> table_view(TIME_VARIABLES@)[k].0 == all[k].0);
        },
        PromptTemplateType::DynamicMemorySummarizer => {
            assert(all =~= table_view(TIME_VARIABLES@) + table_view(DYNAMIC_MEMORY_SUMMARIZER_VARIABLES@));
            lemma_no_image_names_time_variables();
            lemma_no_image_names_dynamic_memory_summarizer_variables();
            assert(k >= 11 ==> table_view(DYNAMIC_MEMORY_SUMMARIZER_VARIABLES@)[k - 11].0 == all[k].0);
            assert(k < 11 ==> table_view(TIME_VARIABLES@)[k].0 == all[k].0);
        },
        PromptTemplateType::DynamicMemoryManager => {
            assert(all =~= table_view(TIME_VARIABLES@) + table_view(DYNAMIC_MEMORY_MANAGER_VARIABLES@));
            lemma_no_image_names_time_variables();
            lemma_no_image_names_dynamic_memory_manager_variables();
            assert(k >= 11 ==> table_view(DYNAMIC_MEMORY_MANAGER_VARIABLES@)[k - 11].0 == all[k].0);
            assert(k < 11 ==> table_view(TIME_VARIABLES@)[k].0 == all[k].0);
        },
        PromptTemplateType::ReplyHelperRoleplay => {
            assert(all =~= table_view(TIME_VARIABLES@) + table_view(REPLY_HELPER_VARIABLES@));
            lemma_no_image_names_time_variables();
            lemma_no_image_names_reply_helper_variables();
            assert(k >= 11 ==> table_view(REPLY_HELPER_VARIABLES@)[k - 11].0 == all[k].0);
            assert(k < 11 ==> table_view(TIME_VARIABLES@)[k].0 == all[k].0);
        },
        PromptTemplateType::ReplyHelperConversational => {
            assert(all =~= table_view(TIME_VARIABLES@) + table_view(REPLY_HELPER_VARIABLES@));
            lemma_no_image_names_time_variables();
            lemma_no_image_names_reply_helper_variables();
            assert(k >= 11 ==> table_view(REPLY_HELPER_VARIABLES@)[k - 11].0 == all[k].0);
            assert(k < 11 ==> table_view(TIME_VARIABLES@)[k].0 == all[k].0);
        },
        PromptTemplateType::LorebookEntryWriter => {
            assert(all =~= table_view(TIME_VARIABLES@) + table_view(LOREBOOK_ENTRY_WRITER_VARIABLES@));
            lemma_no_image_names_time_variables();
            lemma_no_image_names_lorebook_entry_writer_variables();
            assert(k >= 11 ==> table_view(LOREBOOK_ENTRY_WRITER_VARIABLES@)[k - 11].0 == all[k].0);
            assert(k < 11 ==> table_view(TIME_VARIABLES@)[k].0 == all[k].0);
        },
        PromptTemplateType::LorebookKeywordGenerator => {
            assert(all =~= table_view(TIME_VARIABLES@) + table_view(LOREBOOK_KEYWORD_GENERATOR_VARIABLES@));
            lemma_no_image_names_time_variables();
            lemma_no_image_names_lorebook_keyword_generator_variables();
            assert(k >= 11 ==> table_view(LOREBOOK_KEYWORD_GENERATOR_VARIABLES@)[k - 11].0 == all[k].0);
            assert(k < 11 ==> table_view(TIME_VARIABLES@)[k].0 == all[k].0);
        },
        PromptTemplateType::LorebookGeneratorPlanner => {
            assert(all =~= table_view(TIME_VARIABLES@) + table_view(LOREBOOK_GENERATOR_PLANNER_VARIABLES@));
            lemma_no_image_names_time_variables();
            lemma_no_image_names_lorebook_generator_planner_variables();
            assert(k >= 11 ==> table_view(LOREBOOK_GENERATOR_PLANNER_VARIABLES@)[k - 11].0 == all[k].0);
            assert(k < 11 ==> table_view(TIME_VARIABLES@)[k].0 == all[k].0);
        },
        PromptTemplateType::LorebookGeneratorWriter => {
            assert(all =~= table_view(TIME_VARIABLES@) + table_view(LOREBOOK_GENERATOR_WRITER_VARIABLES@));
            lemma_no_image_names_time_variables();
            lemma_no_image_names_lorebook_generator_writer_variables();
            assert(k >= 11 ==> table_view(LOREBOOK_GENERATOR_WRITER_VARIABLES@)[k - 11].0 == all[k].0);
            assert(k < 11 ==> table_view(TIME_VARIABLES@)[k].0 == all[k].0);
        },
        PromptTemplateType::LorebookGeneratorRefine => {
            assert(all =~= table_view(TIME_VARIABLES@) + table_view(LOREBOOK_GENERATOR_REFINE_VARIABLES@));
            lemma_no_image_names_time_variables();
            lemma_no_image_names_lorebook_generator_refine_variables();
            assert(k >= 11 ==> table_view(LOREBOOK_GENERATOR_REFINE_VARIABLES@)[k - 11].0 == all[k].0);
            assert(k < 11 ==> table_view(TIME_VARIABLES@)[k].0 == all[k].0);
        },
        PromptTemplateType::LorebookGeneratorCoherence => {
            assert(all =~= table_view(TIME_VARIABLES@) + table_view(LOREBOOK_GENERATOR_COHERENCE_VARIABLES@));
            lemma_no_image_names_time_variables();
            lemma_no_image_names_lorebook_generator_coherence_variables();
            assert(k >= 11 ==> table_view(LOREBOOK_GENERATOR_COHERENCE_VARIABLES@)[k - 11].0 == all[k].0);
            assert(k < 11 ==> table_view(TIME_VARIABLES@)[k].0 == all[k].0);
        },
        PromptTemplateType::AvatarGeneration => {
            assert(all =~= table_view(TIME_VARIABLES@) + table_view(AVATAR_GENERATION_VARIABLES@));
            lemma_no_image_names_time_variables();
            lemma_no_image_names_avatar_generation_variables();
            assert(k >= 11 ==> table_view(AVATAR_GENERATION_VARIABLES@)[k - 11].0 == all[k].0);
            assert(k < 11 ==> table_view(TIME_VARIABLES@)[k].0 == all[k].0);
        },
        PromptTemplateType::AvatarEditRequest => {
            assert(all =~= table_view(TIME_VARIABLES@) + table_view(AVATAR_EDIT_REQUEST_VARIABLES@));
            lemma_no_image_names_time_variables();
            lemma_no_image_names_avatar_edit_request_variables();
            assert(k >= 11 ==> table_view(AVATAR_EDIT_REQUEST_VARIABLES@)[k - 11].0 == all[k].0);
            assert(k < 11 ==> table_view(TIME_VARIABLES@)[k].0 == all[k].0);
        },
        PromptTemplateType::SceneGeneration => {
            assert(all =~= table_view(TIME_VARIABLES@) + table_view(SCENE_GENERATION_VARIABLES@));
            lemma_no_image_names_time_variables();
            lemma_some_image_names_scene_generation_variables();
            assert(k >= 11 ==> table_view(SCENE_GENERATION_VARIABLES@)[k - 11].0 == all[k].0);
            assert(k < 11 ==> table_view(TIME_VARIABLES@)[k].0 == all[k].0);
            if k == 15 {
                assert(all[15].0 == slot_placeholder(PromptEntryImageSlot::Character));
                assert(image_slots(t)[0] == PromptEntryImageSlot::Character);
            } else if k == 17 {
                assert(all[17].0 == slot_placeholder(PromptEntryImageSlot::Persona));
                assert(image_slots(t)[1] == PromptEntryImageSlot::Persona);
            } else if k == 19 {
                assert(all[19].0 == slot_placeholder(PromptEntryImageSlot::ChatBackground));
                assert(image_slots(t)[2] == PromptEntryImageSlot::ChatBackground);
            }
        },
        PromptTemplateType::ScenePromptWriter => {
            assert(all =~= table_view(TIME_VARIABLES@) + table_view(SCENE_GENERATION_VARIABLES@));
            lemma_no_image_names_time_variables();
            lemma_some_image_names_scene_generation_variables();
            assert(k >= 11 ==> table_view(SCENE_GENERATION_VARIABLES@)[k - 11].0 == all[k].0);
            assert(k < 11 ==> table_view(TIME_VARIABLES@)[k].0 == all[k].0);
            if k == 15 {
                assert(all[15].0 == slot_placeholder(PromptEntryImageSlot::Character));
                assert(image_slots(t)[0] == PromptEntryImageSlot::Character);
            } else if k == 17 {
                assert(all[17].0 == slot_placeholder(PromptEntryImageSlot::Persona));
                assert(image_slots(t)[1] == PromptEntryImageSlot::Persona);
            } else if k == 19 {
                assert(all[19].0 == slot_placeholder(PromptEntryImageSlot::ChatBackground));
                assert(image_slots(t)[2] == PromptEntryImageSlot::ChatBackground);
            }
        },
        PromptTemplateType::DesignReferenceWriter => {
            assert(all =~= table_view(TIME_VARIABLES@) + table_view(DESIGN_REFERENCE_WRITER_VARIABLES@));
            lemma_no_image_names_time_variables();
            lemma_some_image_names_design_reference_writer_variables();
            assert(k >= 11 ==> table_view(DESIGN_REFERENCE_WRITER_VARIABLES@)[k - 11].0 == all[k].0);
            assert(k < 11 ==> table_view(TIME_VARIABLES@)[k].0 == all[k].0);
            if k == 14 {
                assert(all[14].0 == slot_placeholder(PromptEntryImageSlot::Avatar));
                assert(image_slots(t)[0] == PromptEntryImageSlot::Avatar);
            } else if k == 15 {
                assert(all[15].0 == slot_placeholder(PromptEntryImageSlot::References));
                assert(image_slots(t)[1] == PromptEntryImageSlot::References);
            }
        },
        PromptTemplateType::CompanionSoulWriter => {
            assert(all =~= table_view(TIME_VARIABLES@) + table_view(COMPANION_SOUL_WRITER_VARIABLES@));
            lemma_no_image_names_time_variables();
            lemma_no_image_names_companion_soul_writer_variables();
            assert(k >= 11 ==> table_view(COMPANION_SOUL_WRITER_VARIABLES@)[k - 11].0 == all[k].0);
            assert(k < 11 ==> table_view(TIME_VARIABLES@)[k].0 == all[k].0);
        },
    }
}

/// The places of this table's image-slot placeholders.
proof fn lemma_some_image_names_scene_generation_variables()
    ensures
        forall|j: int|
            0 <= j < table_view(SCENE_GENERATION_VARIABLES@).len() && image_named(#[trigger] table_view(SCENE_GENERATION_VARIABLES@)[j].0) ==> j == 4 || j == 6 || j == 8,
{
    reveal_strlit("{{char.name}}");
    reveal_strlit("{{char.desc}}");
    reveal_strlit("{{persona.name}}");
    reveal_strlit("{{persona.desc}}");
    reveal_strlit("{{image[character]}}");
    reveal_strlit("{{reference[character]}}");
    reveal_strlit("{{image[persona]}}");
    reveal_strlit("{{reference[persona]}}");
    reveal_strlit("{{image[chatBackground]}}");
    reveal_strlit("{{reference[chatBackground]}}");
    reveal_strlit("{{recent_messages}}");
    reveal_strlit("{{scene_request}}");
    assert forall|j: int| 0 <= j < table_view(SCENE_GENERATION_VARIABLES@).len() && image_named(#[trigger] table_view(SCENE_GENERATION_VARIABLES@)[j].0) implies j == 4 || j == 6 || j == 8 by {
        if j == 0 {
            assert(table_view(SCENE_GENERATION_VARIABLES@)[0].0 == "{{char.name}}"@);
            assert("{{char.name}}"@[2] == 'c');
        } else if j == 1 {
            assert(table_view(SCENE_GENERATION_VARIABLES@)[1].0 == "{{char.desc}}"@);
            assert("{{char.desc}}"@[2] == 'c');
        } else if j == 2 {
            assert(table_view(SCENE_GENERATION_VARIABLES@)[2].0 == "{{persona.name}}"@);
            assert("{{persona.name}}"@[2] == 'p');
        } else if j == 3 {
            assert(table_view(SCENE_GENERATION_VARIABLES@)[3].0 == "{{persona.desc}}"@);
            assert("{{persona.desc}}"@[2] == 'p');
        } else if j == 5 {
            assert(table_view(SCENE_GENERATION_VARIABLES@)[5].0 == "{{reference[character]}}"@);
            assert("{{reference[character]}}"@[2] == 'r');
        } else if j == 7 {
            assert(table_view(SCENE_GENERATION_VARIABLES@)[7].0 == "{{reference[persona]}}"@);
            assert("{{reference[persona]}}"@[2] == 'r');
        } else if j == 9 {
            assert(table_view(SCENE_GENERATION_VARIABLES@)[9].0 == "{{reference[chatBackground]}}"@);
            assert("{{reference[chatBackground]}}"@[2] == 'r');
        } else if j == 10 {
            assert(table_view(SCENE_GENERATION_VARIABLES@)[10].0 == "{{recent_messages}}"@);
            assert("{{recent_messages}}"@[2] == 'r');
        } else if j == 11 {
            assert(table_view(SCENE_GENERATION_VARIABLES@)[11].0 == "{{scene_request}}"@);
            assert("{{scene_request}}"@[2] == 's');
        }
    }
}

/// The places of this table's image-slot placeholders.
proof fn lemma_some_image_names_design_reference_writer_variables()
    ensures
        forall|j: int|
            0 <= j < table_view(DESIGN_REFERENCE_WRITER_VARIABLES@).len() && image_named(#[trigger] table_view(DESIGN_REFERENCE_WRITER_VARIABLES@)[j].0) ==> j == 3 || j == 4,
{
    reveal_strlit("{{subject_name}}");
    reveal_strlit("{{subject_description}}");
    reveal_strlit("{{current_description}}");
    reveal_strlit("{{image[avatar]}}");
    reveal_strlit("{{image[references]}}");
    assert forall|j: int| 0 <= j < table_view(DESIGN_REFERENCE_WRITER_VARIABLES@).len() && image_named(#[trigger] table_view(DESIGN_REFERENCE_WRITER_VARIABLES@)[j].0) implies j == 3 || j == 4 by {
        if j == 0 {
            assert(table_view(DESIGN_REFERENCE_WRITER_VARIABLES@)[0].0 == "{{subject_name}}"@);
            assert("{{subject_name}}"@[2] == 's');
        } else if j == 1 {
            assert(table_view(DESIGN_REFERENCE_WRITER_VARIABLES@)[1].0 == "{{subject_description}}"@);
            assert("{{subject_description}}"@[2] == 's');
        } else if j == 2 {
            assert(table_view(DESIGN_REFERENCE_WRITER_VARIABLES@)[2].0 == "{{current_description}}"@);
            assert("{{current_description}}"@[2] == 'c');
        }
    }
}


/// Where the placeholder of an image slot that a kind carries stands among
/// the placeholders of its tables.
proof fn lemma_slot_in_tables(t: PromptTemplateType, slot: PromptEntryImageSlot)
    requires
        image_slots(t).contains(slot),
    ensures
        exists|k: int|
            0 <= k < concat_groups(allowed_groups(t)).len() && #[trigger] concat_groups(
                allowed_groups(t),
            )[k].0 == slot_placeholder(slot),
{
    reveal_with_fuel(concat_groups, 14);
    let all = concat_groups(allowed_groups(t));
    match t {
        PromptTemplateType::Undefined => {
            assert(all =~= table_view(TIME_VARIABLES@) + table_view(DIRECT_CHAT_VARIABLES@) + table_view(GROUP_CHAT_CONVERSATIONAL_VARIABLES@) + table_view(GROUP_CHAT_ROLEPLAY_VARIABLES@) + table_view(DYNAMIC_MEMORY_SUMMARIZER_VARIABLES@) + table_view(DYNAMIC_MEMORY_MANAGER_VARIABLES@) + table_view(REPLY_HELPER_VARIABLES@) + table_view(AVATAR_GENERATION_VARIABLES@) + table_view(AVATAR_EDIT_REQUEST_VARIABLES@) + table_view(SCENE_GENERATION_VARIABLES@) + table_view(SCENE_GENERATION_VARIABLES@) + table_view(DESIGN_REFERENCE_WRITER_VARIABLES@) + table_view(COMPANION_SOUL_WRITER_VARIABLES@));
            if slot == PromptEntryImageSlot::Character {
                assert(all[60].0 == slot_placeholder(slot));
            }
            if slot == PromptEntryImageSlot::Persona {
                assert(all[62].0 == slot_placeholder(slot));
            }
            if slot == PromptEntryImageSlot::ChatBackground {
                assert(all[64].0 == slot_placeholder(slot));
            }
            if slot == PromptEntryImageSlot::Avatar {
                assert(all[83].0 == slot_placeholder(slot));
            }
            if slot == PromptEntryImageSlot::References {
                assert(all[84].0 == slot_placeholder(slot));
            }
        },
        PromptTemplateType::SceneGeneration => {
            assert(all =~= table_view(TIME_VARIABLES@) + table_view(SCENE_GENERATION_VARIABLES@));
            if slot == PromptEntryImageSlot::Character {
                assert(all[15].0 == slot_placeholder(slot));
            }
            if slot == PromptEntryImageSlot::Persona {
                assert(all[17].0 == slot_placeholder(slot));
            }
            if slot == PromptEntryImageSlot::ChatBackground {
                assert(all[19].0 == slot_placeholder(slot));
            }
        },
        PromptTemplateType::ScenePromptWriter => {
            assert(all =~= table_view(TIME_VARIABLES@) + table_view(SCENE_GENERATION_VARIABLES@));
            if slot == PromptEntryImageSlot::Character {
                assert(all[15].0 == slot_placeholder(slot));
            }
            if slot == PromptEntryImageSlot::Persona {
                assert(all[17].0 == slot_placeholder(slot));
            }
            if slot == PromptEntryImageSlot::ChatBackground {
                assert(all[19].0 == slot_placeholder(slot));
            }
        },
        PromptTemplateType::DesignReferenceWriter => {
            assert(all =~= table_view(TIME_VARIABLES@) + table_view(DESIGN_REFERENCE_WRITER_VARIABLES@));
            if slot == PromptEntryImageSlot::Avatar {
                assert(all[14].0 == slot_placeholder(slot));
            }
            if slot == PromptEntryImageSlot::References {
                assert(all[15].0 == slot_placeholder(slot));
            }
        },
        _ => {},
    }
}

/// A kind of template carries an image slot exactly when the slot's
/// placeholder is among the variables the kind allows.
pub proof fn lemma_image_slots_match_placeholders(t: PromptTemplateType, slot: PromptEntryImageSlot)
    ensures
        image_slots(t).contains(slot) <==> exists|j: int|
            0 <= j < dedupe_spec(concat_groups(allowed_groups(t))).len() && #[trigger] dedupe_spec(
                concat_groups(allowed_groups(t)),
            )[j].0 == slot_placeholder(slot),
{
    lemma_allowed_variables_unique_and_complete(t);
    lemma_slot_placeholders();
    let all = concat_groups(allowed_groups(t));
    let r = dedupe_spec(all);
    if image_slots(t).contains(slot) {
        lemma_slot_in_tables(t, slot);
        let k = choose|k: int| 0 <= k < all.len() && #[trigger] all[k].0 == slot_placeholder(slot);
        assert(all[k].0 == slot_placeholder(slot));
    }
    if exists|j: int| 0 <= j < r.len() && #[trigger] r[j].0 == slot_placeholder(slot) {
        let j = choose|j: int| 0 <= j < r.len() && #[trigger] r[j].0 == slot_placeholder(slot);
        assert(all.contains(r[j]));
        let k = choose|k: int| 0 <= k < all.len() && all[k] == r[j];
        assert(image_named(all[k].0));
        if t != PromptTemplateType::Undefined {
            lemma_image_named_in_tables(t, k);
            let s = choose|s: PromptEntryImageSlot|
                image_slots(t).contains(s) && #[trigger] slot_placeholder(s) == all[k].0;
            assert(slot_placeholder(s) == slot_placeholder(slot));
        } else {
            match slot {
                PromptEntryImageSlot::Character => assert(image_slots(t)[0] == slot),
                PromptEntryImageSlot::Persona => assert(image_slots(t)[1] == slot),
                PromptEntryImageSlot::ChatBackground => assert(image_slots(t)[2] == slot),
                PromptEntryImageSlot::Avatar => assert(image_slots(t)[3] == slot),
                PromptEntryImageSlot::References => assert(image_slots(t)[4] == slot),
            }
        }
    }
}

/// Some definition has this placeholder.
pub open spec fn listed(defs: Seq<PromptVariableDefinition>, name: Seq<char>) -> bool {
    exists|j: int| 0 <= j < defs.len() && #[trigger] allowed_names(defs)[j] == name
}

/// The placeholders of the definitions, in order.
pub open spec fn allowed_names(defs: Seq<PromptVariableDefinition>) -> Seq<Seq<char>> {
    defs.map_values(|d: PromptVariableDefinition| d.variable@)
}

proof fn lemma_required_vector_at(
    t: PromptTemplateType,
    allowed: Seq<PromptVariableDefinition>,
    required: Seq<String>,
    i: int,
) -> (j: int)
    requires
        defs_view(allowed) == dedupe_spec(concat_groups(allowed_groups(t))),
        views(required) == required_names(t),
        0 <= i < required.len(),
    ensures
        0 <= j < allowed.len() && allowed[j].variable@ == required[i]@,
{
    lemma_required_are_allowed(t);
    let r = dedupe_spec(concat_groups(allowed_groups(t)));
    assert(required_names(t)[i] == required[i]@);
    let j = choose|j: int| 0 <= j < r.len() && #[trigger] r[j].0 == required_names(t)[i];
    assert(defs_view(allowed)[j] == def_view(allowed[j]));
    j
}

/// The law on required placeholders, read on the vectors that
/// `allowed_variables_for_prompt_type` and
/// `required_variables_for_prompt_type` return: each required placeholder
/// is the variable of some allowed definition.
pub proof fn lemma_required_vectors_allowed(
    t: PromptTemplateType,
    allowed: Seq<PromptVariableDefinition>,
    required: Seq<String>,
)
    requires
        defs_view(allowed) == dedupe_spec(concat_groups(allowed_groups(t))),
        views(required) == required_names(t),
    ensures
        forall|i: int| 0 <= i < required.len() ==> #[trigger] listed(allowed, required[i]@),
{
    assert forall|i: int| 0 <= i < required.len() implies #[trigger] listed(allowed, required[i]@) by {
        let j = lemma_required_vector_at(t, allowed, required, i);
        assert(allowed_names(allowed)[j] == required[i]@);
    }
}

/// The law on image slots, read on the vectors that
/// `allowed_image_slots_for_prompt_type` and
/// `allowed_variables_for_prompt_type` return: a slot is listed exactly
/// when its placeholder is the variable of some allowed definition.
pub proof fn lemma_image_slot_vectors(
    t: PromptTemplateType,
    slots: Seq<PromptEntryImageSlot>,
    allowed: Seq<PromptVariableDefinition>,
    slot: PromptEntryImageSlot,
)
    requires
        slots == image_slots(t),
        defs_view(allowed) == dedupe_spec(concat_groups(allowed_groups(t))),
    ensures
        slots.contains(slot) <==> listed(allowed, slot_placeholder(slot)),
{
    lemma_image_slots_match_placeholders(t, slot);
    let r = dedupe_spec(concat_groups(allowed_groups(t)));
    if slots.contains(slot) {
        let j = choose|j: int| 0 <= j < r.len() && #[trigger] r[j].0 == slot_placeholder(slot);
        assert(defs_view(allowed)[j] == def_view(allowed[j]));
        assert(allowed_names(allowed)[j] == slot_placeholder(slot));
    }
    if listed(allowed, slot_placeholder(slot)) {
        let j = choose|j: int| 0 <= j < allowed.len() && #[trigger] allowed_names(allowed)[j] == slot_placeholder(slot);
        assert(defs_view(allowed)[j] == def_view(allowed[j]));
        assert(r[j].0 == slot_placeholder(slot));
    }
}

pub fn allowed_image_slots_for_prompt_type(prompt_type: PromptTemplateType) -> (r: Vec<
    PromptEntryImageSlot,
>)
    ensures
        r@ == image_slots(prompt_type),
{
    let r = match prompt_type {
        PromptTemplateType::Undefined => vec![
            PromptEntryImageSlot::Character,
            PromptEntryImageSlot::Persona,
            PromptEntryImageSlot::ChatBackground,
            PromptEntryImageSlot::Avatar,
            PromptEntryImageSlot::References,
        ],
        PromptTemplateType::SceneGeneration | PromptTemplateType::ScenePromptWriter => vec![
            PromptEntryImageSlot::Character,
            PromptEntryImageSlot::Persona,
            PromptEntryImageSlot::ChatBackground,
        ],
        PromptTemplateType::DesignReferenceWriter => vec![
            PromptEntryImageSlot::Avatar,
            PromptEntryImageSlot::References,
        ],
        _ => Vec::new(),
    };
    assert(r@ =~= image_slots(prompt_type));
    r
}

// ------------------------------------------------------------------
// Validation
// ------------------------------------------------------------------

/// The placeholders of `req`, in order, that do not occur in `content`.
pub open spec fn missing_names(req: Seq<Seq<char>>, content: Seq<char>) -> Seq<Seq<char>>
    decreases req.len(),
{
    if req.len() == 0 {
        seq![]
    } else {
        missing_names(req.drop_last(), content) + (if has_sub(content, req.last()) {
            seq![]
        } else {
            seq![req.last()]
        })
    }
}

/// Checks that `content` contains every placeholder the kind requires; the
/// error lists the missing ones in their required order.
pub fn validate_required_variables(prompt_type: PromptTemplateType, content: &str) -> (r: Result<
    (),
    Vec<String>,
>)
    ensures
        match r {
            Ok(_) => missing_names(required_names(prompt_type), content@).len() == 0,
            Err(m) => views(m@) == missing_names(required_names(prompt_type), content@)
                && m@.len() > 0,
        },
{
    let req = required_variables_for_prompt_type(prompt_type);
    let ghost rv = views(req@);
    let mut missing: Vec<String> = Vec::new();
    let mut i: usize = 0;
    while i < req.len()
        invariant
            i <= req.len(),
            rv == views(req@),
            views(missing@) == missing_names(rv.take(i as int), content@),
        decreases req.len() - i,
    {
        let ghost before = views(missing@);
        assert(rv.take(i + 1).drop_last() =~= rv.take(i as int));
        assert(rv.take(i + 1).last() == req@[i as int]@);
        if !contains(content, req[i].as_str()) {
            missing.push(req[i].clone());
            assert(views(missing@) =~= before + seq![req@[i as int]@]);
        } else {
            assert(views(missing@) =~= before + Seq::<Seq<char>>::empty());
        }
        i += 1;
    }
    assert(rv.take(req.len() as int) =~= rv);
    if missing.len() == 0 {
        Ok(())
    } else {
        Err(missing)
    }
}

/// The placeholders a template lacks are the required ones it does not
/// contain, in their order: the required list filtered by absence.
pub proof fn lemma_missing_names_filter(req: Seq<Seq<char>>, content: Seq<char>)
    ensures
        missing_names(req, content) == req.filter(|v: Seq<char>| !has_sub(content, v)),
    decreases req.len(),
{
    reveal(Seq::filter);
    if req.len() > 0 {
        lemma_missing_names_filter(req.drop_last(), content);
        let f = |v: Seq<char>| !has_sub(content, v);
        assert(req.filter(f) == if f(req.last()) {
            req.drop_last().filter(f).push(req.last())
        } else {
            req.drop_last().filter(f)
        });
        if has_sub(content, req.last()) {
            assert(missing_names(req, content) =~= missing_names(req.drop_last(), content));
        } else {
            assert(missing_names(req, content) =~= missing_names(req.drop_last(), content).push(
                req.last(),
            ));
        }
    }
}

/// A template passes validation exactly when every required placeholder
/// occurs in it.
pub proof fn lemma_missing_names_empty(req: Seq<Seq<char>>, content: Seq<char>)
    ensures
        missing_names(req, content).len() == 0 <==> forall|i: int|
            0 <= i < req.len() ==> has_sub(content, #[trigger] req[i]),
    decreases req.len(),
{
    if req.len() > 0 {
        lemma_missing_names_empty(req.drop_last(), content);
        if missing_names(req, content).len() == 0 {
            assert forall|i: int| 0 <= i < req.len() implies has_sub(content, #[trigger] req[i]) by {
                if i < req.len() - 1 {
                    assert(req[i] == req.drop_last()[i]);
                }
            }
        }
        if forall|i: int| 0 <= i < req.len() ==> has_sub(content, #[trigger] req[i]) {
            assert(has_sub(content, req[req.len() - 1]));
            assert forall|i: int| 0 <= i < req.drop_last().len() implies has_sub(
                content,
                #[trigger] req.drop_last()[i],
            ) by {
                assert(req.drop_last()[i] == req[i]);
            }
        }
    }
}

// ------------------------------------------------------------------
// Catalogue
// ------------------------------------------------------------------

/// The kinds offered to the template editor, in display order.
pub const ENGINE_PROMPT_TYPES: [PromptTemplateType; 17] = [
    PromptTemplateType::Undefined,
    PromptTemplateType::DirectChat,
    PromptTemplateType::CompanionChat,
    PromptTemplateType::GroupChatRoleplay,
    PromptTemplateType::GroupChatConversational,
    PromptTemplateType::DynamicMemorySummarizer,
    PromptTemplateType::DynamicMemoryManager,
    PromptTemplateType::ReplyHelperRoleplay,
    PromptTemplateType::ReplyHelperConversational,
    PromptTemplateType::LorebookEntryWriter,
    PromptTemplateType::LorebookKeywordGenerator,
    PromptTemplateType::AvatarGeneration,
    PromptTemplateType::AvatarEditRequest,
    PromptTemplateType::SceneGeneration,
    PromptTemplateType::ScenePromptWriter,
    PromptTemplateType::DesignReferenceWriter,
    PromptTemplateType::CompanionSoulWriter,
];

/// `d` describes the kind `t` completely.
pub open spec fn describes(d: PromptTypeDefinition, t: PromptTemplateType) -> bool {
    &&& d.prompt_type == t
    &&& d.label@ == type_label(t)
    &&& defs_view(d.allowed_variables@) == dedupe_spec(concat_groups(allowed_groups(t)))
    &&& views(d.required_variables@) == required_names(t)
    &&& d.allowed_image_slots@ == image_slots(t)
}

pub fn describe_prompt_type(prompt_type: PromptTemplateType) -> (r: PromptTypeDefinition)
    ensures
        describes(r, prompt_type),
{
    PromptTypeDefinition {
        prompt_type,
        label: to_string(prompt_type_label(prompt_type)),
        allowed_variables: allowed_variables_for_prompt_type(prompt_type),
        required_variables: required_variables_for_prompt_type(prompt_type),
        allowed_image_slots: allowed_image_slots_for_prompt_type(prompt_type),
    }
}

/// The kinds offered to the template editor are seventeen different ones,
/// and none of the lorebook generator's four.
pub proof fn lemma_engine_prompt_types()
    ensures
        ENGINE_PROMPT_TYPES@.len() == 17,
        forall|i: int, j: int|
            0 <= i < j < 17 ==> #[trigger] ENGINE_PROMPT_TYPES@[i] != #[trigger] ENGINE_PROMPT_TYPES@[j],
        forall|i: int|
            0 <= i < 17 ==> {
                let t = #[trigger] ENGINE_PROMPT_TYPES@[i];
                t != PromptTemplateType::LorebookGeneratorPlanner && t != PromptTemplateType::LorebookGeneratorWriter
                    && t != PromptTemplateType::LorebookGeneratorRefine && t
                    != PromptTemplateType::LorebookGeneratorCoherence
            },
{
}

/// One definition for each kind of `ENGINE_PROMPT_TYPES`, in that order.
pub fn build_parameter_engine() -> (r: PromptParameterEngine)
    ensures
        r.prompt_types@.len() == ENGINE_PROMPT_TYPES@.len(),
        forall|i: int|
            0 <= i < ENGINE_PROMPT_TYPES@.len() ==> describes(
                #[trigger] r.prompt_types@[i],
                ENGINE_PROMPT_TYPES@[i],
            ),
        r.prompt_types@.len() == 17,
        forall|i: int, j: int|
            0 <= i < j < r.prompt_types@.len() ==> #[trigger] r.prompt_types@[i].prompt_type
                != #[trigger] r.prompt_types@[j].prompt_type,
        forall|i: int|
            0 <= i < r.prompt_types@.len() ==> {
                let t = #[trigger] r.prompt_types@[i].prompt_type;
                t != PromptTemplateType::LorebookGeneratorPlanner && t != PromptTemplateType::LorebookGeneratorWriter
                    && t != PromptTemplateType::LorebookGeneratorRefine && t
                    != PromptTemplateType::LorebookGeneratorCoherence
            },
{
    proof {
        lemma_engine_prompt_types();
    }
    let mut prompt_types: Vec<PromptTypeDefinition> = Vec::new();
    let mut i: usize = 0;
    while i < ENGINE_PROMPT_TYPES.len()
        invariant
            i <= ENGINE_PROMPT_TYPES@.len(),
            prompt_types@.len() == i,
            forall|k: int|
                0 <= k < i ==> describes(#[trigger] prompt_types@[k], ENGINE_PROMPT_TYPES@[k]),
        decreases ENGINE_PROMPT_TYPES@.len() - i,
    {
        prompt_types.push(describe_prompt_type(ENGINE_PROMPT_TYPES[i]));
        i += 1;
    }
    PromptParameterEngine { prompt_types }
}

} // verus!
