//! Prompt template kinds, the identifiers of the built-in templates, and the
//! mapping between them.
use vstd::prelude::*;

use crate::text::str_eq;

verus! {

/// The purpose a prompt template serves.
#[derive(Clone, Copy, Debug, PartialEq, Eq, Structural)]
pub enum PromptTemplateType {
    Undefined,
    DirectChat,
    CompanionChat,
    GroupChatRoleplay,
    GroupChatConversational,
    DynamicMemorySummarizer,
    DynamicMemoryManager,
    ReplyHelperRoleplay,
    ReplyHelperConversational,
    LorebookEntryWriter,
    LorebookKeywordGenerator,
    LorebookGeneratorPlanner,
    LorebookGeneratorWriter,
    LorebookGeneratorRefine,
    LorebookGeneratorCoherence,
    AvatarGeneration,
    AvatarEditRequest,
    SceneGeneration,
    ScenePromptWriter,
    DesignReferenceWriter,
    CompanionSoulWriter,
}

/// An image attachment slot that a prompt entry can carry.
#[derive(Clone, Copy, Debug, PartialEq, Eq, Structural)]
pub enum PromptEntryImageSlot {
    Character,
    Persona,
    ChatBackground,
    Avatar,
    References,
}

/// Who speaks a prompt entry.
#[derive(Clone, Copy, Debug, PartialEq, Eq, Structural)]
pub enum PromptEntryRole {
    System,
    User,
    Assistant,
}

/// Where a prompt entry is placed.
#[derive(Clone, Copy, Debug, PartialEq, Eq, Structural)]
pub enum PromptEntryPosition {
    Relative,
    InChat,
}

/// A non-text payload carried by a prompt entry.
#[derive(Clone, Copy, Debug, PartialEq, Eq, Structural)]
pub enum PromptEntryPayload {
    ImageSlot { slot: PromptEntryImageSlot },
}

/// One entry of a prompt template.  `conditions` holds the entry's
/// activation conditions in their stored JSON form.
pub struct SystemPromptEntry {
    pub id: String,
    pub name: String,
    pub role: PromptEntryRole,
    pub content: String,
    pub enabled: bool,
    pub injection_position: PromptEntryPosition,
    pub injection_depth: u32,
    pub conditional_min_messages: Option<u32>,
    pub interval_turns: Option<u32>,
    pub system_prompt: bool,
    pub conditions: Option<String>,
    pub prompt_entry_payload: Option<PromptEntryPayload>,
}

pub const APP_DEFAULT_TEMPLATE_ID: &'static str = "prompt_app_default";
pub const APP_LOCAL_ROLEPLAY_TEMPLATE_ID: &'static str = "prompt_app_local_roleplay";
pub const APP_COMPANION_TEMPLATE_ID: &'static str = "prompt_app_companion";
pub const APP_DYNAMIC_SUMMARY_TEMPLATE_ID: &'static str = "prompt_app_dynamic_summary";
pub const APP_DYNAMIC_MEMORY_TEMPLATE_ID: &'static str = "prompt_app_dynamic_memory";
pub const APP_DYNAMIC_MEMORY_LOCAL_TEMPLATE_ID: &'static str = "prompt_app_dynamic_memory_local";
pub const APP_HELP_ME_REPLY_TEMPLATE_ID: &'static str = "prompt_app_help_me_reply";
pub const APP_HELP_ME_REPLY_CONVERSATIONAL_TEMPLATE_ID: &'static str =
    "prompt_app_help_me_reply_conversational";
pub const APP_LOREBOOK_ENTRY_WRITER_TEMPLATE_ID: &'static str = "prompt_app_lorebook_entry_writer";
pub const LEGACY_APP_LOREBOOK_ENTRY_GENERATOR_TEMPLATE_ID: &'static str =
    "prompt_app_lorebook_entry_generator";
pub const APP_LOREBOOK_KEYWORD_GENERATOR_TEMPLATE_ID: &'static str =
    "prompt_app_lorebook_keyword_generator";
pub const APP_LOREBOOK_GENERATOR_PLANNER_TEMPLATE_ID: &'static str =
    "prompt_app_lorebook_generator_planner";
pub const APP_LOREBOOK_GENERATOR_WRITER_TEMPLATE_ID: &'static str = "prompt_app_lorebook_generator_writer";
pub const APP_LOREBOOK_GENERATOR_REFINE_TEMPLATE_ID: &'static str = "prompt_app_lorebook_generator_refine";
pub const APP_LOREBOOK_GENERATOR_COHERENCE_TEMPLATE_ID: &'static str =
    "prompt_app_lorebook_generator_coherence";
pub const APP_GROUP_CHAT_TEMPLATE_ID: &'static str = "prompt_app_group_chat";
pub const APP_GROUP_CHAT_ROLEPLAY_TEMPLATE_ID: &'static str = "prompt_app_group_chat_roleplay";
pub const APP_AVATAR_GENERATION_TEMPLATE_ID: &'static str = "prompt_app_avatar_generation";
pub const APP_AVATAR_EDIT_TEMPLATE_ID: &'static str = "prompt_app_avatar_edit";
pub const APP_SCENE_GENERATION_TEMPLATE_ID: &'static str = "prompt_app_scene_generation";
pub const APP_SCENE_PROMPT_WRITER_TEMPLATE_ID: &'static str = "prompt_app_scene_prompt_writer";
pub const APP_DESIGN_REFERENCE_TEMPLATE_ID: &'static str = "prompt_app_design_reference";
pub const APP_COMPANION_SOUL_WRITER_TEMPLATE_ID: &'static str = "prompt_app_companion_soul_writer";

/// The template kind that a built-in template id stands for.
pub open spec fn template_type_of(id: Seq<char>) -> PromptTemplateType {
    if id == APP_DEFAULT_TEMPLATE_ID@ || id == APP_LOCAL_ROLEPLAY_TEMPLATE_ID@ {
        PromptTemplateType::DirectChat
    } else if id == APP_COMPANION_TEMPLATE_ID@ {
        PromptTemplateType::CompanionChat
    } else if id == APP_GROUP_CHAT_TEMPLATE_ID@ {
        PromptTemplateType::GroupChatConversational
    } else if id == APP_GROUP_CHAT_ROLEPLAY_TEMPLATE_ID@ {
        PromptTemplateType::GroupChatRoleplay
    } else if id == APP_DYNAMIC_SUMMARY_TEMPLATE_ID@ {
        PromptTemplateType::DynamicMemorySummarizer
    } else if id == APP_DYNAMIC_MEMORY_TEMPLATE_ID@ || id == APP_DYNAMIC_MEMORY_LOCAL_TEMPLATE_ID@ {
        PromptTemplateType::DynamicMemoryManager
    } else if id == APP_HELP_ME_REPLY_TEMPLATE_ID@ {
        PromptTemplateType::ReplyHelperRoleplay
    } else if id == APP_HELP_ME_REPLY_CONVERSATIONAL_TEMPLATE_ID@ {
        PromptTemplateType::ReplyHelperConversational
    } else if id == APP_LOREBOOK_ENTRY_WRITER_TEMPLATE_ID@ || id
        == LEGACY_APP_LOREBOOK_ENTRY_GENERATOR_TEMPLATE_ID@ {
        PromptTemplateType::LorebookEntryWriter
    } else if id == APP_LOREBOOK_KEYWORD_GENERATOR_TEMPLATE_ID@ {
        PromptTemplateType::LorebookKeywordGenerator
    } else if id == APP_LOREBOOK_GENERATOR_PLANNER_TEMPLATE_ID@ {
        PromptTemplateType::LorebookGeneratorPlanner
    } else if id == APP_LOREBOOK_GENERATOR_WRITER_TEMPLATE_ID@ {
        PromptTemplateType::LorebookGeneratorWriter
    } else if id == APP_LOREBOOK_GENERATOR_REFINE_TEMPLATE_ID@ {
        PromptTemplateType::LorebookGeneratorRefine
    } else if id == APP_LOREBOOK_GENERATOR_COHERENCE_TEMPLATE_ID@ {
        PromptTemplateType::LorebookGeneratorCoherence
    } else if id == APP_AVATAR_GENERATION_TEMPLATE_ID@ {
        PromptTemplateType::AvatarGeneration
    } else if id == APP_AVATAR_EDIT_TEMPLATE_ID@ {
        PromptTemplateType::AvatarEditRequest
    } else if id == APP_SCENE_GENERATION_TEMPLATE_ID@ {
        PromptTemplateType::SceneGeneration
    } else if id == APP_SCENE_PROMPT_WRITER_TEMPLATE_ID@ {
        PromptTemplateType::ScenePromptWriter
    } else if id == APP_DESIGN_REFERENCE_TEMPLATE_ID@ {
        PromptTemplateType::DesignReferenceWriter
    } else if id == APP_COMPANION_SOUL_WRITER_TEMPLATE_ID@ {
        PromptTemplateType::CompanionSoulWriter
    } else {
        PromptTemplateType::Undefined
    }
}

/// The kind of template that the built-in template `id` provides; any other
/// id gives `Undefined`.
pub fn template_prompt_type_from_id(id: &str) -> (r: PromptTemplateType)
    ensures
        r == template_type_of(id@),
{
    if str_eq(id, APP_DEFAULT_TEMPLATE_ID) || str_eq(id, APP_LOCAL_ROLEPLAY_TEMPLATE_ID) {
        PromptTemplateType::DirectChat
    } else if str_eq(id, APP_COMPANION_TEMPLATE_ID) {
        PromptTemplateType::CompanionChat
    } else if str_eq(id, APP_GROUP_CHAT_TEMPLATE_ID) {
        PromptTemplateType::GroupChatConversational
    } else if str_eq(id, APP_GROUP_CHAT_ROLEPLAY_TEMPLATE_ID) {
        PromptTemplateType::GroupChatRoleplay
    } else if str_eq(id, APP_DYNAMIC_SUMMARY_TEMPLATE_ID) {
        PromptTemplateType::DynamicMemorySummarizer
    } else if str_eq(id, APP_DYNAMIC_MEMORY_TEMPLATE_ID) || str_eq(
        id,
        APP_DYNAMIC_MEMORY_LOCAL_TEMPLATE_ID,
    ) {
        PromptTemplateType::DynamicMemoryManager
    } else if str_eq(id, APP_HELP_ME_REPLY_TEMPLATE_ID) {
        PromptTemplateType::ReplyHelperRoleplay
    } else if str_eq(id, APP_HELP_ME_REPLY_CONVERSATIONAL_TEMPLATE_ID) {
        PromptTemplateType::ReplyHelperConversational
    } else if str_eq(id, APP_LOREBOOK_ENTRY_WRITER_TEMPLATE_ID) || str_eq(
        id,
        LEGACY_APP_LOREBOOK_ENTRY_GENERATOR_TEMPLATE_ID,
    ) {
        PromptTemplateType::LorebookEntryWriter
    } else if str_eq(id, APP_LOREBOOK_KEYWORD_GENERATOR_TEMPLATE_ID) {
        PromptTemplateType::LorebookKeywordGenerator
    } else if str_eq(id, APP_LOREBOOK_GENERATOR_PLANNER_TEMPLATE_ID) {
        PromptTemplateType::LorebookGeneratorPlanner
    } else if str_eq(id, APP_LOREBOOK_GENERATOR_WRITER_TEMPLATE_ID) {
        PromptTemplateType::LorebookGeneratorWriter
    } else if str_eq(id, APP_LOREBOOK_GENERATOR_REFINE_TEMPLATE_ID) {
        PromptTemplateType::LorebookGeneratorRefine
    } else if str_eq(id, APP_LOREBOOK_GENERATOR_COHERENCE_TEMPLATE_ID) {
        PromptTemplateType::LorebookGeneratorCoherence
    } else if str_eq(id, APP_AVATAR_GENERATION_TEMPLATE_ID) {
        PromptTemplateType::AvatarGeneration
    } else if str_eq(id, APP_AVATAR_EDIT_TEMPLATE_ID) {
        PromptTemplateType::AvatarEditRequest
    } else if str_eq(id, APP_SCENE_GENERATION_TEMPLATE_ID) {
        PromptTemplateType::SceneGeneration
    } else if str_eq(id, APP_SCENE_PROMPT_WRITER_TEMPLATE_ID) {
        PromptTemplateType::ScenePromptWriter
    } else if str_eq(id, APP_DESIGN_REFERENCE_TEMPLATE_ID) {
        PromptTemplateType::DesignReferenceWriter
    } else if str_eq(id, APP_COMPANION_SOUL_WRITER_TEMPLATE_ID) {
        PromptTemplateType::CompanionSoulWriter
    } else {
        PromptTemplateType::Undefined
    }
}

/// The ids of the templates that ship with the application.
pub open spec fn is_app_default_id(id: Seq<char>) -> bool {
    id == APP_DEFAULT_TEMPLATE_ID@ || id == APP_LOCAL_ROLEPLAY_TEMPLATE_ID@ || id
        == APP_COMPANION_TEMPLATE_ID@ || id == APP_DYNAMIC_SUMMARY_TEMPLATE_ID@ || id
        == APP_DYNAMIC_MEMORY_TEMPLATE_ID@ || id == APP_DYNAMIC_MEMORY_LOCAL_TEMPLATE_ID@ || id
        == APP_HELP_ME_REPLY_TEMPLATE_ID@ || id == APP_HELP_ME_REPLY_CONVERSATIONAL_TEMPLATE_ID@
        || id == APP_LOREBOOK_ENTRY_WRITER_TEMPLATE_ID@ || id
        == LEGACY_APP_LOREBOOK_ENTRY_GENERATOR_TEMPLATE_ID@ || id
        == APP_LOREBOOK_KEYWORD_GENERATOR_TEMPLATE_ID@ || id == APP_GROUP_CHAT_TEMPLATE_ID@ || id
        == APP_GROUP_CHAT_ROLEPLAY_TEMPLATE_ID@ || id == APP_AVATAR_GENERATION_TEMPLATE_ID@ || id
        == APP_AVATAR_EDIT_TEMPLATE_ID@ || id == APP_SCENE_GENERATION_TEMPLATE_ID@ || id
        == APP_SCENE_PROMPT_WRITER_TEMPLATE_ID@ || id == APP_DESIGN_REFERENCE_TEMPLATE_ID@ || id
        == APP_COMPANION_SOUL_WRITER_TEMPLATE_ID@ || id
        == APP_LOREBOOK_GENERATOR_PLANNER_TEMPLATE_ID@ || id
        == APP_LOREBOOK_GENERATOR_WRITER_TEMPLATE_ID@ || id
        == APP_LOREBOOK_GENERATOR_REFINE_TEMPLATE_ID@ || id
        == APP_LOREBOOK_GENERATOR_COHERENCE_TEMPLATE_ID@
}

/// Whether `id` names one of the built-in templates.
pub fn is_app_default_template(id: &str) -> (r: bool)
    ensures
        r == is_app_default_id(id@),
{
    str_eq(id, APP_DEFAULT_TEMPLATE_ID) || str_eq(id, APP_LOCAL_ROLEPLAY_TEMPLATE_ID) || str_eq(
        id,
        APP_COMPANION_TEMPLATE_ID,
    ) || str_eq(id, APP_DYNAMIC_SUMMARY_TEMPLATE_ID) || str_eq(id, APP_DYNAMIC_MEMORY_TEMPLATE_ID)
        || str_eq(id, APP_DYNAMIC_MEMORY_LOCAL_TEMPLATE_ID) || str_eq(
        id,
        APP_HELP_ME_REPLY_TEMPLATE_ID,
    ) || str_eq(id, APP_HELP_ME_REPLY_CONVERSATIONAL_TEMPLATE_ID) || str_eq(
        id,
        APP_LOREBOOK_ENTRY_WRITER_TEMPLATE_ID,
    ) || str_eq(id, LEGACY_APP_LOREBOOK_ENTRY_GENERATOR_TEMPLATE_ID) || str_eq(
        id,
        APP_LOREBOOK_KEYWORD_GENERATOR_TEMPLATE_ID,
    ) || str_eq(id, APP_GROUP_CHAT_TEMPLATE_ID) || str_eq(id, APP_GROUP_CHAT_ROLEPLAY_TEMPLATE_ID)
        || str_eq(id, APP_AVATAR_GENERATION_TEMPLATE_ID) || str_eq(id, APP_AVATAR_EDIT_TEMPLATE_ID)
        || str_eq(id, APP_SCENE_GENERATION_TEMPLATE_ID) || str_eq(
        id,
        APP_SCENE_PROMPT_WRITER_TEMPLATE_ID,
    ) || str_eq(id, APP_DESIGN_REFERENCE_TEMPLATE_ID) || str_eq(
        id,
        APP_COMPANION_SOUL_WRITER_TEMPLATE_ID,
    ) || str_eq(id, APP_LOREBOOK_GENERATOR_PLANNER_TEMPLATE_ID) || str_eq(
        id,
        APP_LOREBOOK_GENERATOR_WRITER_TEMPLATE_ID,
    ) || str_eq(id, APP_LOREBOOK_GENERATOR_REFINE_TEMPLATE_ID) || str_eq(
        id,
        APP_LOREBOOK_GENERATOR_COHERENCE_TEMPLATE_ID,
    )
}

/// The kind a built-in template must keep; `None` for templates of users.
pub fn expected_protected_prompt_type(id: &str) -> (r: Option<PromptTemplateType>)
    ensures
        r == (if is_app_default_id(id@) && template_type_of(id@) != PromptTemplateType::Undefined {
            Some(template_type_of(id@))
        } else {
            None
        }),
{
    if !is_app_default_template(id) {
        return None;
    }
    let prompt_type = template_prompt_type_from_id(id);
    if prompt_type == PromptTemplateType::Undefined {
        None
    } else {
        Some(prompt_type)
    }
}

/// Every built-in template has a defined kind, so each one is protected.
pub proof fn lemma_app_default_templates_are_protected(id: Seq<char>)
    requires
        is_app_default_id(id),
    ensures
        template_type_of(id) != PromptTemplateType::Undefined,
{
}

/// The name under which a template kind is stored.
pub open spec fn stored_type_name(t: PromptTemplateType) -> Seq<char> {
    match t {
        PromptTemplateType::Undefined => "undefined"@,
        PromptTemplateType::DirectChat => "directChat"@,
        PromptTemplateType::CompanionChat => "companionChat"@,
        PromptTemplateType::GroupChatRoleplay => "groupChatRoleplay"@,
        PromptTemplateType::GroupChatConversational => "groupChatConversational"@,
        PromptTemplateType::DynamicMemorySummarizer => "dynamicMemorySummarizer"@,
        PromptTemplateType::DynamicMemoryManager => "dynamicMemoryManager"@,
        PromptTemplateType::ReplyHelperRoleplay => "replyHelperRoleplay"@,
        PromptTemplateType::ReplyHelperConversational => "replyHelperConversational"@,
        PromptTemplateType::LorebookEntryWriter => "lorebookEntryWriter"@,
        PromptTemplateType::LorebookKeywordGenerator => "lorebookKeywordGenerator"@,
        PromptTemplateType::LorebookGeneratorPlanner => "lorebookGeneratorPlanner"@,
        PromptTemplateType::LorebookGeneratorWriter => "lorebookGeneratorWriter"@,
        PromptTemplateType::LorebookGeneratorRefine => "lorebookGeneratorRefine"@,
        PromptTemplateType::LorebookGeneratorCoherence => "lorebookGeneratorCoherence"@,
        PromptTemplateType::AvatarGeneration => "avatarGeneration"@,
        PromptTemplateType::AvatarEditRequest => "avatarEditRequest"@,
        PromptTemplateType::SceneGeneration => "sceneGeneration"@,
        PromptTemplateType::ScenePromptWriter => "scenePromptWriter"@,
        PromptTemplateType::DesignReferenceWriter => "designReferenceWriter"@,
        PromptTemplateType::CompanionSoulWriter => "companionSoulWriter"@,
    }
}

pub fn prompt_type_to_str(prompt_type: PromptTemplateType) -> (r: &'static str)
    ensures
        r@ == stored_type_name(prompt_type),
{
    match prompt_type {
        PromptTemplateType::Undefined => "undefined",
        PromptTemplateType::DirectChat => "directChat",
        PromptTemplateType::CompanionChat => "companionChat",
        PromptTemplateType::GroupChatRoleplay => "groupChatRoleplay",
        PromptTemplateType::GroupChatConversational => "groupChatConversational",
        PromptTemplateType::DynamicMemorySummarizer => "dynamicMemorySummarizer",
        PromptTemplateType::DynamicMemoryManager => "dynamicMemoryManager",
        PromptTemplateType::ReplyHelperRoleplay => "replyHelperRoleplay",
        PromptTemplateType::ReplyHelperConversational => "replyHelperConversational",
        PromptTemplateType::LorebookEntryWriter => "lorebookEntryWriter",
        PromptTemplateType::LorebookKeywordGenerator => "lorebookKeywordGenerator",
        PromptTemplateType::LorebookGeneratorPlanner => "lorebookGeneratorPlanner",
        PromptTemplateType::LorebookGeneratorWriter => "lorebookGeneratorWriter",
        PromptTemplateType::LorebookGeneratorRefine => "lorebookGeneratorRefine",
        PromptTemplateType::LorebookGeneratorCoherence => "lorebookGeneratorCoherence",
        PromptTemplateType::AvatarGeneration => "avatarGeneration",
        PromptTemplateType::AvatarEditRequest => "avatarEditRequest",
        PromptTemplateType::SceneGeneration => "sceneGeneration",
        PromptTemplateType::ScenePromptWriter => "scenePromptWriter",
        PromptTemplateType::DesignReferenceWriter => "designReferenceWriter",
        PromptTemplateType::CompanionSoulWriter => "companionSoulWriter",
    }
}

/// The template kind stored under the name `s`; the lorebook kinds are also
/// accepted under their older snake-case names.
pub open spec fn parse_type_name(s: Seq<char>) -> Option<PromptTemplateType> {
    if s == "undefined"@ {
        Some(PromptTemplateType::Undefined)
    } else if s == "directChat"@ {
        Some(PromptTemplateType::DirectChat)
    } else if s == "companionChat"@ {
        Some(PromptTemplateType::CompanionChat)
    } else if s == "groupChatRoleplay"@ {
        Some(PromptTemplateType::GroupChatRoleplay)
    } else if s == "groupChatConversational"@ {
        Some(PromptTemplateType::GroupChatConversational)
    } else if s == "dynamicMemorySummarizer"@ {
        Some(PromptTemplateType::DynamicMemorySummarizer)
    } else if s == "dynamicMemoryManager"@ {
        Some(PromptTemplateType::DynamicMemoryManager)
    } else if s == "replyHelperRoleplay"@ {
        Some(PromptTemplateType::ReplyHelperRoleplay)
    } else if s == "replyHelperConversational"@ {
        Some(PromptTemplateType::ReplyHelperConversational)
    } else if s == "lorebookEntryWriter"@ || s == "lorebook_entry_writer"@ {
        Some(PromptTemplateType::LorebookEntryWriter)
    } else if s == "lorebookKeywordGenerator"@ || s == "lorebook_keyword_generator"@ {
        Some(PromptTemplateType::LorebookKeywordGenerator)
    } else if s == "lorebookGeneratorPlanner"@ || s == "lorebook_generator_planner"@ {
        Some(PromptTemplateType::LorebookGeneratorPlanner)
    } else if s == "lorebookGeneratorWriter"@ || s == "lorebook_generator_writer"@ {
        Some(PromptTemplateType::LorebookGeneratorWriter)
    } else if s == "lorebookGeneratorRefine"@ || s == "lorebook_generator_refine"@ {
        Some(PromptTemplateType::LorebookGeneratorRefine)
    } else if s == "lorebookGeneratorCoherence"@ || s == "lorebook_generator_coherence"@ {
        Some(PromptTemplateType::LorebookGeneratorCoherence)
    } else if s == "avatarGeneration"@ {
        Some(PromptTemplateType::AvatarGeneration)
    } else if s == "avatarEditRequest"@ {
        Some(PromptTemplateType::AvatarEditRequest)
    } else if s == "sceneGeneration"@ {
        Some(PromptTemplateType::SceneGeneration)
    } else if s == "scenePromptWriter"@ {
        Some(PromptTemplateType::ScenePromptWriter)
    } else if s == "designReferenceWriter"@ {
        Some(PromptTemplateType::DesignReferenceWriter)
    } else if s == "companionSoulWriter"@ {
        Some(PromptTemplateType::CompanionSoulWriter)
    } else {
        None
    }
}

/// Reads a stored template kind; an unknown name is refused with a message
/// that quotes it.
pub fn str_to_prompt_type(s: &str) -> (r: Result<PromptTemplateType, String>)
    ensures
        match r {
            Ok(t) => parse_type_name(s@) == Some(t),
            Err(m) => parse_type_name(s@) is None && m@ == "Unknown prompt type: "@ + s@,
        },
{
    if str_eq(s, "undefined") {
        Ok(PromptTemplateType::Undefined)
    } else if str_eq(s, "directChat") {
        Ok(PromptTemplateType::DirectChat)
    } else if str_eq(s, "companionChat") {
        Ok(PromptTemplateType::CompanionChat)
    } else if str_eq(s, "groupChatRoleplay") {
        Ok(PromptTemplateType::GroupChatRoleplay)
    } else if str_eq(s, "groupChatConversational") {
        Ok(PromptTemplateType::GroupChatConversational)
    } else if str_eq(s, "dynamicMemorySummarizer") {
        Ok(PromptTemplateType::DynamicMemorySummarizer)
    } else if str_eq(s, "dynamicMemoryManager") {
        Ok(PromptTemplateType::DynamicMemoryManager)
    } else if str_eq(s, "replyHelperRoleplay") {
        Ok(PromptTemplateType::ReplyHelperRoleplay)
    } else if str_eq(s, "replyHelperConversational") {
        Ok(PromptTemplateType::ReplyHelperConversational)
    } else if str_eq(s, "lorebookEntryWriter") || str_eq(s, "lorebook_entry_writer") {
        Ok(PromptTemplateType::LorebookEntryWriter)
    } else if str_eq(s, "lorebookKeywordGenerator") || str_eq(s, "lorebook_keyword_generator") {
        Ok(PromptTemplateType::LorebookKeywordGenerator)
    } else if str_eq(s, "lorebookGeneratorPlanner") || str_eq(s, "lorebook_generator_planner") {
        Ok(PromptTemplateType::LorebookGeneratorPlanner)
    } else if str_eq(s, "lorebookGeneratorWriter") || str_eq(s, "lorebook_generator_writer") {
        Ok(PromptTemplateType::LorebookGeneratorWriter)
    } else if str_eq(s, "lorebookGeneratorRefine") || str_eq(s, "lorebook_generator_refine") {
        Ok(PromptTemplateType::LorebookGeneratorRefine)
    } else if str_eq(s, "lorebookGeneratorCoherence") || str_eq(
        s,
        "lorebook_generator_coherence",
    ) {
        Ok(PromptTemplateType::LorebookGeneratorCoherence)
    } else if str_eq(s, "avatarGeneration") {
        Ok(PromptTemplateType::AvatarGeneration)
    } else if str_eq(s, "avatarEditRequest") {
        Ok(PromptTemplateType::AvatarEditRequest)
    } else if str_eq(s, "sceneGeneration") {
        Ok(PromptTemplateType::SceneGeneration)
    } else if str_eq(s, "scenePromptWriter") {
        Ok(PromptTemplateType::ScenePromptWriter)
    } else if str_eq(s, "designReferenceWriter") {
        Ok(PromptTemplateType::DesignReferenceWriter)
    } else if str_eq(s, "companionSoulWriter") {
        Ok(PromptTemplateType::CompanionSoulWriter)
    } else {
        let mut m = String::from_str("Unknown prompt type: ");
        m.append(s);
        Err(m)
    }
}

/// Reading back the stored name of a template kind gives that kind.
pub proof fn lemma_type_name_round_trip(t: PromptTemplateType)
    ensures
        parse_type_name(stored_type_name(t)) == Some(t),
{
    reveal_strlit("undefined");
    assert("undefined"@.len() == 9);
    reveal_strlit("directChat");
    assert("directChat"@.len() == 10);
    reveal_strlit("companionChat");
    assert("companionChat"@.len() == 13);
    reveal_strlit("groupChatRoleplay");
    assert("groupChatRoleplay"@.len() == 17);
    assert("groupChatRoleplay"@[0] == 'g');
    reveal_strlit("groupChatConversational");
    assert("groupChatConversational"@.len() == 23);
    assert("groupChatConversational"@[0] == 'g');
    reveal_strlit("dynamicMemorySummarizer");
    assert("dynamicMemorySummarizer"@.len() == 23);
    assert("dynamicMemorySummarizer"@[0] == 'd');
    reveal_strlit("dynamicMemoryManager");
    assert("dynamicMemoryManager"@.len() == 20);
    reveal_strlit("replyHelperRoleplay");
    assert("replyHelperRoleplay"@.len() == 19);
    assert("replyHelperRoleplay"@[0] == 'r');
    reveal_strlit("replyHelperConversational");
    assert("replyHelperConversational"@.len() == 25);
    assert("replyHelperConversational"@[0] == 'r');
    reveal_strlit("lorebookEntryWriter");
    assert("lorebookEntryWriter"@.len() == 19);
    assert("lorebookEntryWriter"@[0] == 'l');
    reveal_strlit("lorebook_entry_writer");
    assert("lorebook_entry_writer"@.len() == 21);
    assert("lorebook_entry_writer"@[0] == 'l');
    reveal_strlit("lorebookKeywordGenerator");
    assert("lorebookKeywordGenerator"@.len() == 24);
    assert("lorebookKeywordGenerator"@[8] == 'K');
    reveal_strlit("lorebook_keyword_generator");
    assert("lorebook_keyword_generator"@.len() == 26);
    assert("lorebook_keyword_generator"@[8] == '_');
    assert("lorebook_keyword_generator"@[9] == 'k');
    reveal_strlit("lorebookGeneratorPlanner");
    assert("lorebookGeneratorPlanner"@.len() == 24);
    assert("lorebookGeneratorPlanner"@[8] == 'G');
    reveal_strlit("lorebook_generator_planner");
    assert("lorebook_generator_planner"@.len() == 26);
    assert("lorebook_generator_planner"@[8] == '_');
    assert("lorebook_generator_planner"@[9] == 'g');
    reveal_strlit("lorebookGeneratorWriter");
    assert("lorebookGeneratorWriter"@.len() == 23);
    assert("lorebookGeneratorWriter"@[0] == 'l');
    assert("lorebookGeneratorWriter"@[17] == 'W');
    reveal_strlit("lorebook_generator_writer");
    assert("lorebook_generator_writer"@.len() == 25);
    assert("lorebook_generator_writer"@[0] == 'l');
    assert("lorebook_generator_writer"@[19] == 'w');
    reveal_strlit("lorebookGeneratorRefine");
    assert("lorebookGeneratorRefine"@.len() == 23);
    assert("lorebookGeneratorRefine"@[0] == 'l');
    assert("lorebookGeneratorRefine"@[17] == 'R');
    reveal_strlit("lorebook_generator_refine");
    assert("lorebook_generator_refine"@.len() == 25);
    assert("lorebook_generator_refine"@[0] == 'l');
    assert("lorebook_generator_refine"@[19] == 'r');
    reveal_strlit("lorebookGeneratorCoherence");
    assert("lorebookGeneratorCoherence"@.len() == 26);
    assert("lorebookGeneratorCoherence"@[8] == 'G');
    reveal_strlit("lorebook_generator_coherence");
    assert("lorebook_generator_coherence"@.len() == 28);
    reveal_strlit("avatarGeneration");
    assert("avatarGeneration"@.len() == 16);
    reveal_strlit("avatarEditRequest");
    assert("avatarEditRequest"@.len() == 17);
    assert("avatarEditRequest"@[0] == 'a');
    reveal_strlit("sceneGeneration");
    assert("sceneGeneration"@.len() == 15);
    reveal_strlit("scenePromptWriter");
    assert("scenePromptWriter"@.len() == 17);
    assert("scenePromptWriter"@[0] == 's');
    reveal_strlit("designReferenceWriter");
    assert("designReferenceWriter"@.len() == 21);
    assert("designReferenceWriter"@[0] == 'd');
    reveal_strlit("companionSoulWriter");
    assert("companionSoulWriter"@.len() == 19);
    assert("companionSoulWriter"@[0] == 'c');
}

} // verus!
