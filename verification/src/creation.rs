//! The records of the character creation helper and the defaults its
//! commands apply.
use vstd::prelude::*;

verus! {

/// A scene of a character draft.
pub struct DraftScene {
    pub id: String,
    pub content: String,
    pub direction: Option<String>,
}

/// The character being drafted.
pub struct DraftCharacter {
    pub name: Option<String>,
    pub definition: Option<String>,
    pub description: Option<String>,
    pub scenes: Vec<DraftScene>,
    pub default_scene_id: Option<String>,
    pub avatar_path: Option<String>,
    pub background_image_path: Option<String>,
    pub disable_avatar_gradient: bool,
    pub default_model_id: Option<String>,
    pub prompt_template_id: Option<String>,
}

impl DraftCharacter {
    /// An empty draft.
    pub fn new() -> (r: Self)
        ensures
            r.name is None,
            r.definition is None,
            r.description is None,
            r.scenes@.len() == 0,
            r.default_scene_id is None,
            r.avatar_path is None,
            r.background_image_path is None,
            !r.disable_avatar_gradient,
            r.default_model_id is None,
            r.prompt_template_id is None,
    {
        DraftCharacter {
            name: None,
            definition: None,
            description: None,
            scenes: Vec::new(),
            default_scene_id: None,
            avatar_path: None,
            background_image_path: None,
            disable_avatar_gradient: false,
            default_model_id: None,
            prompt_template_id: None,
        }
    }
}

#[derive(Clone, Copy, Debug, PartialEq, Eq, Structural)]
pub enum CreationMessageRole {
    User,
    Assistant,
    System,
}

#[derive(Clone, Copy, Debug, PartialEq, Eq, Structural)]
pub enum CreationMode {
    Create,
    Edit,
}

impl Default for CreationMode {
    fn default() -> (r: Self)
        ensures
            r == CreationMode::Create,
    {
        CreationMode::Create
    }
}

#[derive(Clone, Copy, Debug, PartialEq, Eq, Structural)]
pub enum CreationStatus {
    Active,
    PreviewShown,
    Completed,
    Cancelled,
}

#[derive(Clone, Copy, Debug, PartialEq, Eq, Structural)]
pub enum CreationGoal {
    Character,
    Persona,
    Lorebook,
}

/// A listed creation session.
pub struct CreationSessionSummary {
    pub id: String,
    pub creation_goal: CreationGoal,
    pub creation_mode: CreationMode,
    pub target_type: Option<CreationGoal>,
    pub target_id: Option<String>,
    pub status: CreationStatus,
    pub title: String,
    pub preview: String,
    pub message_count: usize,
    pub created_at: i64,
    pub updated_at: i64,
}

/// An image the user uploaded to a creation session.
pub struct UploadedImage {
    pub id: String,
    pub data: String,
    pub mime_type: String,
    pub asset_id: Option<String>,
}

/// An image as the front end hands it over with a message.
pub struct UploadedImageArg {
    pub id: String,
    pub data: String,
    pub mime_type: String,
}

/// A system prompt offered for a draft.
pub struct SystemPromptInfo {
    pub id: String,
    pub name: String,
}

/// The goal and mode a new session starts with: a character, created from
/// scratch, unless the caller says otherwise.
pub fn start_goal_and_mode(goal: Option<CreationGoal>, mode: Option<CreationMode>) -> (r: (
    CreationGoal,
    CreationMode,
))
    ensures
        r.0 == match goal {
            Some(g) => g,
            None => CreationGoal::Character,
        },
        r.1 == match mode {
            Some(m) => m,
            None => CreationMode::Create,
        },
{
    let g = match goal {
        Some(g) => g,
        None => CreationGoal::Character,
    };
    let m = match mode {
        Some(m) => m,
        None => CreationMode::Create,
    };
    (g, m)
}

pub open spec fn triples_view(v: Seq<(String, String, String)>) -> Seq<(Seq<char>, Seq<char>, Seq<char>)> {
    v.map_values(|t: (String, String, String)| (t.0@, t.1@, t.2@))
}

pub open spec fn args_view(v: Seq<UploadedImageArg>) -> Seq<(Seq<char>, Seq<char>, Seq<char>)> {
    v.map_values(|a: UploadedImageArg| (a.id@, a.data@, a.mime_type@))
}

/// The uploaded images as id, data and type, in order.
pub fn uploaded_image_triples(images: Option<Vec<UploadedImageArg>>) -> (r: Option<
    Vec<(String, String, String)>,
>)
    ensures
        match images {
            Some(v) => r matches Some(t) && triples_view(t@) == args_view(v@),
            None => r is None,
        },
{
    match images {
        Some(v) => {
            let mut out: Vec<(String, String, String)> = Vec::new();
            let mut i: usize = 0;
            while i < v.len()
                invariant
                    i <= v@.len(),
                    triples_view(out@) == args_view(v@).take(i as int),
                decreases v@.len() - i,
            {
                let a = &v[i];
                let t = (a.id.clone(), a.data.clone(), a.mime_type.clone());
                let ghost before = triples_view(out@);
                out.push(t);
                assert(triples_view(out@) =~= before.push(args_view(v@)[i as int]));
                assert(args_view(v@).take(i + 1) =~= args_view(v@).take(i as int).push(
                    args_view(v@)[i as int],
                ));
                i += 1;
            }
            assert(args_view(v@).take(v@.len() as int) =~= args_view(v@));
            Some(out)
        },
        None => None,
    }
}

} // verus!
