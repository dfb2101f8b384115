//! Companion mode: when it applies, the signals it remembers and the text
//! that tells the model about the live relationship state.
use vstd::prelude::*;

use crate::fields::{aliased_flag, read_aliased_flag, FieldValue};
use crate::text::{
    eq_ignore_ascii_case, is_blank, join, join_seq, lower_seq, to_string, trim, trim_seq,
    views,
};

verus! {

/// The preferences a companion session keeps.
#[derive(Clone, Copy, Debug, PartialEq, Eq, Structural)]
pub struct CompanionPreferences {
    pub time_awareness_enabled: bool,
}

impl CompanionPreferences {
    pub fn new() -> (r: Self)
        ensures
            !r.time_awareness_enabled,
    {
        CompanionPreferences { time_awareness_enabled: false }
    }
}

/// Whether time awareness is on, from the two spellings of the preference
/// in the session's companion state (both `Missing` when there is none).
pub fn companion_time_awareness_enabled(camel: &FieldValue, snake: &FieldValue) -> (r: bool)
    ensures
        r == aliased_flag(*camel, *snake),
{
    read_aliased_flag(camel, snake)
}

pub open spec fn is_companion(mode: Seq<char>) -> bool {
    lower_seq(mode) == lower_seq("companion"@)
}

/// Companion mode is on when the session or the character says so,
/// ignoring ASCII case.
pub fn is_companion_mode(session_mode: &str, character_mode: &str) -> (r: bool)
    ensures
        r == (is_companion(session_mode@) || is_companion(character_mode@)),
{
    eq_ignore_ascii_case(session_mode, "companion") || eq_ignore_ascii_case(
        character_mode,
        "companion",
    )
}

/// Adds a signal unless it is already there.
pub fn push_signal(signals: &mut Vec<String>, label: &str)
    ensures
        views(old(signals)@).contains(label@) ==> final(signals)@ == old(signals)@,
        !views(old(signals)@).contains(label@) ==> views(final(signals)@) == views(
            old(signals)@,
        ).push(label@),
{
    if !crate::text::strings_contain(signals, label) {
        let ghost before = views(signals@);
        signals.push(to_string(label));
        assert(views(signals@) =~= before.push(label@));
    }
}

/// Adding signals one by one never repeats one.
pub proof fn lemma_push_signal_keeps_distinct(before: Seq<Seq<char>>, label: Seq<char>)
    requires
        crate::keys::distinct(before),
        !before.contains(label),
    ensures
        crate::keys::distinct(before.push(label)),
{
    crate::keys::lemma_push_fresh(before, label);
}

// ------------------------------------------------------------------
// The state prompt
// ------------------------------------------------------------------

/// What the companion's regulation style makes it do with hurt.
#[derive(Clone, Copy, Debug, PartialEq, Eq, Structural)]
pub enum RegulationNote {
    HidesHurt,
    Direct,
    Neither,
}

/// How the companion asks for reassurance when unsettled.
#[derive(Clone, Copy, Debug, PartialEq, Eq, Structural)]
pub enum ReassuranceNote {
    SeeksOpenly,
    AvoidsAsking,
    Neither,
}

/// The soul description of a companion.
pub struct SoulText {
    pub essence: String,
    pub voice: String,
    pub relational_style: String,
    pub vulnerabilities: String,
    pub habits: String,
    pub boundaries: String,
}

/// What the state prompt is made of. The relationship metrics come as the
/// percentages already written out, the emotion descriptions as text.
pub struct PromptStateInput {
    pub session_mode: String,
    pub character_mode: String,
    pub character_name: String,
    pub persona_title: Option<String>,
    pub closeness: String,
    pub trust: String,
    pub affection: String,
    pub tension: String,
    pub expressed: String,
    pub blocked: String,
    pub soul: SoulText,
    pub style_notes: String,
    pub active_signals: Vec<String>,
    pub regulation: RegulationNote,
    pub reassurance: ReassuranceNote,
}

/// The persona's trimmed title, or a neutral description.
pub open spec fn partner_name(title: Option<String>) -> Seq<char> {
    match title {
        Some(t) => if trim_seq(t@).len() != 0 {
            trim_seq(t@)
        } else {
            "the current conversation partner"@
        },
        None => "the current conversation partner"@,
    }
}

/// `label: value.` when the trimmed value is not empty.
pub open spec fn soul_line(label: Seq<char>, value: Seq<char>) -> Seq<Seq<char>> {
    if trim_seq(value).len() != 0 {
        seq![label + ": "@ + trim_seq(value) + "."@]
    } else {
        seq![]
    }
}

pub open spec fn opening_lines(i: PromptStateInput) -> Seq<Seq<char>> {
    let name = i.character_name@;
    let partner = partner_name(i.persona_title);
    seq![
        "The following relationship and emotional state describes "@ + name
            + "'s live relationship with "@ + partner
            + ", the person currently speaking in this chat."@,
        "Do not apply these metrics to third-party people mentioned in character definitions, persona descriptions, lore, or memories unless that relationship is explicitly stated."@,
        "Current "@ + name + " <-> "@ + partner + " relationship trend: closeness "@ + i.closeness@
            + "%, trust "@ + i.trust@ + "%, affection "@ + i.affection@ + "%, tension "@
            + i.tension@ + "%."@,
        "Expressed tone right now: "@ + (if i.expressed@.len() == 0 {
            "steady and low-intensity"@
        } else {
            i.expressed@
        }) + "."@,
    ]
}

pub open spec fn soul_lines(i: PromptStateInput) -> Seq<Seq<char>> {
    soul_line("Soul essence"@, i.soul.essence@) + soul_line("Companion voice"@, i.soul.voice@)
        + soul_line("Relational style"@, i.soul.relational_style@) + soul_line(
        "Vulnerabilities"@,
        i.soul.vulnerabilities@,
    ) + soul_line("Habits"@, i.soul.habits@) + soul_line("Boundaries"@, i.soul.boundaries@)
        + soul_line("Companion style notes"@, i.style_notes@)
}

pub open spec fn closing_lines(i: PromptStateInput) -> Seq<Seq<char>> {
    let name = i.character_name@;
    let partner = partner_name(i.persona_title);
    (if i.blocked@.len() != 0 {
        seq!["More strongly felt than shown: "@ + i.blocked@ + "."@]
    } else {
        seq![]
    }) + (if i.active_signals@.len() != 0 {
        seq![
            "Recent drivers in "@ + name + "'s interaction with "@ + partner + ": "@ + join_seq(
                views(i.active_signals@),
                ", "@,
            ) + "."@,
        ]
    } else {
        seq![]
    }) + match i.regulation {
        RegulationNote::HidesHurt => seq![
            "Regulation: tends to hide direct hurt and avoids blunt emotional disclosure."@,
        ],
        RegulationNote::Direct => seq![
            "Regulation: relatively emotionally direct when trust is present."@,
        ],
        RegulationNote::Neither => seq![],
    } + match i.reassurance {
        ReassuranceNote::SeeksOpenly => seq!["When unsettled, may seek reassurance more openly."@],
        ReassuranceNote::AvoidsAsking => seq![
            "When unsettled, may avoid asking directly for reassurance."@,
        ],
        ReassuranceNote::Neither => seq![],
    }
}

pub open spec fn prompt_state_text(i: PromptStateInput) -> Option<Seq<char>> {
    if !(is_companion(i.session_mode@) || is_companion(i.character_mode@)) {
        None
    } else {
        Some(join_seq(opening_lines(i) + soul_lines(i) + closing_lines(i), "\n"@))
    }
}

fn push_text(lines: &mut Vec<String>, s: String)
    ensures
        views(final(lines)@) == views(old(lines)@).push(s@),
{
    let ghost before = views(lines@);
    lines.push(s);
    assert(views(lines@) =~= before.push(s@));
}

/// Adds `label: value.` when the trimmed value is not empty.
pub fn push_soul_line(lines: &mut Vec<String>, label: &str, value: &str)
    ensures
        views(final(lines)@) == views(old(lines)@) + soul_line(label@, value@),
{
    if !is_blank(value) {
        let t = trim(value);
        let mut s = to_string(label);
        s.append(": ");
        s.append(t.as_str());
        s.append(".");
        push_text(lines, s);
    } else {
        assert(views(lines@) + soul_line(label@, value@) =~= views(lines@));
    }
}

fn partner_name_exec(title: &Option<String>) -> (r: String)
    ensures
        r@ == partner_name(*title),
{
    match title {
        Some(t) => if !is_blank(t.as_str()) {
            trim(t.as_str())
        } else {
            to_string("the current conversation partner")
        },
        None => to_string("the current conversation partner"),
    }
}

fn opening_lines_exec(input: &PromptStateInput) -> (r: Vec<String>)
    ensures
        views(r@) == opening_lines(*input),
{
    let name = input.character_name.as_str();
    let partner = partner_name_exec(&input.persona_title);
    let mut lines: Vec<String> = Vec::new();
    let mut l1 = to_string("The following relationship and emotional state describes ");
    l1.append(name);
    l1.append("'s live relationship with ");
    l1.append(partner.as_str());
    l1.append(", the person currently speaking in this chat.");
    push_text(&mut lines, l1);
    push_text(
        &mut lines,
        to_string(
            "Do not apply these metrics to third-party people mentioned in character definitions, persona descriptions, lore, or memories unless that relationship is explicitly stated.",
        ),
    );
    let mut l3 = to_string("Current ");
    l3.append(name);
    l3.append(" <-> ");
    l3.append(partner.as_str());
    l3.append(" relationship trend: closeness ");
    l3.append(input.closeness.as_str());
    l3.append("%, trust ");
    l3.append(input.trust.as_str());
    l3.append("%, affection ");
    l3.append(input.affection.as_str());
    l3.append("%, tension ");
    l3.append(input.tension.as_str());
    l3.append("%.");
    push_text(&mut lines, l3);
    let mut l4 = to_string("Expressed tone right now: ");
    if input.expressed.unicode_len() == 0 {
        l4.append("steady and low-intensity");
    } else {
        l4.append(input.expressed.as_str());
    }
    l4.append(".");
    push_text(&mut lines, l4);
    assert(views(lines@) =~= opening_lines(*input));
    lines
}

fn push_soul_lines(lines: &mut Vec<String>, input: &PromptStateInput)
    ensures
        views(final(lines)@) == views(old(lines)@) + soul_lines(*input),
{
    let ghost start = views(lines@);
    push_soul_line(lines, "Soul essence", input.soul.essence.as_str());
    push_soul_line(lines, "Companion voice", input.soul.voice.as_str());
    push_soul_line(lines, "Relational style", input.soul.relational_style.as_str());
    push_soul_line(lines, "Vulnerabilities", input.soul.vulnerabilities.as_str());
    push_soul_line(lines, "Habits", input.soul.habits.as_str());
    push_soul_line(lines, "Boundaries", input.soul.boundaries.as_str());
    push_soul_line(lines, "Companion style notes", input.style_notes.as_str());
    assert(views(lines@) =~= start + soul_lines(*input));
}

fn push_drivers(lines: &mut Vec<String>, input: &PromptStateInput)
    ensures
        views(final(lines)@) == views(old(lines)@) + (if input.blocked@.len() != 0 {
            seq!["More strongly felt than shown: "@ + input.blocked@ + "."@]
        } else {
            seq![]
        }) + (if input.active_signals@.len() != 0 {
            seq![
                "Recent drivers in "@ + input.character_name@ + "'s interaction with "@
                    + partner_name(input.persona_title) + ": "@ + join_seq(
                    views(input.active_signals@),
                    ", "@,
                ) + "."@,
            ]
        } else {
            seq![]
        }),
{
    let ghost start = views(lines@);
    if input.blocked.unicode_len() != 0 {
        let mut s = to_string("More strongly felt than shown: ");
        s.append(input.blocked.as_str());
        s.append(".");
        push_text(lines, s);
    }
    let ghost mid = views(lines@);
    if input.active_signals.len() != 0 {
        let partner = partner_name_exec(&input.persona_title);
        let mut s = to_string("Recent drivers in ");
        s.append(input.character_name.as_str());
        s.append("'s interaction with ");
        s.append(partner.as_str());
        s.append(": ");
        let joined = join(&input.active_signals, ", ");
        s.append(joined.as_str());
        s.append(".");
        push_text(lines, s);
    }
    assert(views(lines@) =~= start + (if input.blocked@.len() != 0 {
        seq!["More strongly felt than shown: "@ + input.blocked@ + "."@]
    } else {
        seq![]
    }) + (if input.active_signals@.len() != 0 {
        seq![
            "Recent drivers in "@ + input.character_name@ + "'s interaction with "@
                + partner_name(input.persona_title) + ": "@ + join_seq(
                views(input.active_signals@),
                ", "@,
            ) + "."@,
        ]
    } else {
        seq![]
    }));
}

fn push_regulation(lines: &mut Vec<String>, input: &PromptStateInput)
    ensures
        views(final(lines)@) == views(old(lines)@) + match input.regulation {
            RegulationNote::HidesHurt => seq![
                "Regulation: tends to hide direct hurt and avoids blunt emotional disclosure."@,
            ],
            RegulationNote::Direct => seq![
                "Regulation: relatively emotionally direct when trust is present."@,
            ],
            RegulationNote::Neither => seq![],
        } + match input.reassurance {
            ReassuranceNote::SeeksOpenly => seq![
                "When unsettled, may seek reassurance more openly."@,
            ],
            ReassuranceNote::AvoidsAsking => seq![
                "When unsettled, may avoid asking directly for reassurance."@,
            ],
            ReassuranceNote::Neither => seq![],
        },
{
    let ghost start = views(lines@);
    match input.regulation {
        RegulationNote::HidesHurt => push_text(
            lines,
            to_string(
                "Regulation: tends to hide direct hurt and avoids blunt emotional disclosure.",
            ),
        ),
        RegulationNote::Direct => push_text(
            lines,
            to_string("Regulation: relatively emotionally direct when trust is present."),
        ),
        RegulationNote::Neither => {},
    }
    match input.reassurance {
        ReassuranceNote::SeeksOpenly => push_text(
            lines,
            to_string("When unsettled, may seek reassurance more openly."),
        ),
        ReassuranceNote::AvoidsAsking => push_text(
            lines,
            to_string("When unsettled, may avoid asking directly for reassurance."),
        ),
        ReassuranceNote::Neither => {},
    }
    assert(views(lines@) =~= start + match input.regulation {
        RegulationNote::HidesHurt => seq![
            "Regulation: tends to hide direct hurt and avoids blunt emotional disclosure."@,
        ],
        RegulationNote::Direct => seq![
            "Regulation: relatively emotionally direct when trust is present."@,
        ],
        RegulationNote::Neither => seq![],
    } + match input.reassurance {
        ReassuranceNote::SeeksOpenly => seq!["When unsettled, may seek reassurance more openly."@],
        ReassuranceNote::AvoidsAsking => seq![
            "When unsettled, may avoid asking directly for reassurance."@,
        ],
        ReassuranceNote::Neither => seq![],
    });
}

proof fn lemma_join_starts_with_first(parts: Seq<Seq<char>>, sep: Seq<char>)
    requires
        parts.len() >= 2,
    ensures
        crate::text::has_prefix(join_seq(parts, sep), parts[0] + sep),
    decreases parts.len(),
{
    if parts.len() == 2 {
        assert(parts.drop_last().len() == 1);
        assert(join_seq(parts.drop_last(), sep) == parts[0]);
        assert((parts[0] + sep + parts.last()).subrange(0, (parts[0] + sep).len() as int) =~= parts[0]
            + sep);
    } else {
        lemma_join_starts_with_first(parts.drop_last(), sep);
        let j = join_seq(parts.drop_last(), sep);
        assert((j + sep + parts.last()).subrange(0, (parts[0] + sep).len() as int) =~= j.subrange(
            0,
            (parts[0] + sep).len() as int,
        ));
    }
}

/// In companion mode the state text opens with the line naming the
/// character and the partner (the persona's trimmed title, or a neutral
/// description).
pub proof fn lemma_prompt_state_first_line(i: PromptStateInput)
    ensures
        prompt_state_text(i) matches Some(t) ==> crate::text::has_prefix(
            t,
            "The following relationship and emotional state describes "@ + i.character_name@
                + "'s live relationship with "@ + partner_name(i.persona_title)
                + ", the person currently speaking in this chat."@ + "\n"@,
        ),
{
    if prompt_state_text(i) is Some {
        let parts = opening_lines(i) + soul_lines(i) + closing_lines(i);
        assert(parts[0] == opening_lines(i)[0]);
        lemma_join_starts_with_first(parts, "\n"@);
    }
}

/// The relationship and emotional state told to the model in companion
/// mode; nothing otherwise.
pub fn render_prompt_state(input: &PromptStateInput) -> (r: Option<String>)
    ensures
        match r {
            Some(t) => prompt_state_text(*input) == Some(t@),
            None => prompt_state_text(*input) is None,
        },
        r is None <==> !(is_companion(input.session_mode@) || is_companion(input.character_mode@)),
        r matches Some(t) ==> crate::text::has_prefix(
            t@,
            "The following relationship and emotional state describes "@ + input.character_name@
                + "'s live relationship with "@ + partner_name(input.persona_title)
                + ", the person currently speaking in this chat."@ + "\n"@,
        ),
{
    proof {
        lemma_prompt_state_first_line(*input);
    }
    if !is_companion_mode(input.session_mode.as_str(), input.character_mode.as_str()) {
        return None;
    }
    let mut lines = opening_lines_exec(input);
    push_soul_lines(&mut lines, input);
    push_drivers(&mut lines, input);
    push_regulation(&mut lines, input);
    assert(views(lines@) =~= opening_lines(*input) + soul_lines(*input) + closing_lines(*input));
    Some(join(&lines, "\n"))
}

} // verus!
