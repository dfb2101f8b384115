//! Deterministic helpers of the dynamic-memory cycle: cleaning and vetting
//! what the model wrote, categorising memories, and choosing the messages a
//! cycle looks at.
use vstd::prelude::*;
use vstd::utf8::encode_utf8;

use crate::request::{copy_message, message_view, opt_view, MessageView, StoredMessage};
use crate::text::{
    chars_of, collapse_whitespace, collapse_ws, contains, has_prefix, has_sub, is_ascii_alnum,
    is_ascii_alphanumeric, join, join_seq, lines, lower_seq, lower_vec, occurs_at_exec, starts_with,
    decimal, first_occurrence, is_blank, replace, split_once_str, replace_seq, str_eq, str_lines, string_of, sub_vec, to_ascii_lowercase,
    to_string, trim, trim_seq, u64_to_string, views,
};

verus! {

/// A stored long-term memory.  `embedding_len` is the number of components
/// of its embedding vector.
pub struct MemoryEmbedding {
    pub id: String,
    pub text: String,
    pub observed_at: Option<u64>,
    pub embedding_len: usize,
    pub embedding_dimensions: Option<usize>,
    pub embedding_source_version: Option<String>,
    pub is_pinned: bool,
    pub is_cold: bool,
}

/// The length of the UTF-8 encoding, as `str::len` reports it.
pub open spec fn byte_len(s: Seq<char>) -> usize {
    encode_utf8(s).len() as usize
}

// ------------------------------------------------------------------
// Cleaning model output
// ------------------------------------------------------------------

/// Model output without a surrounding Markdown code fence: when the trimmed
/// text opens with three backticks, its first line goes, and its last line
/// too when that line is a closing fence.
pub open spec fn unfenced(raw: Seq<char>) -> Seq<char> {
    let t = trim_seq(raw);
    if has_prefix(t, "```"@) {
        let body = str_lines(t).drop_first();
        let body2 = if body.len() > 0 && trim_seq(body.last()) == "```"@ {
            body.drop_last()
        } else {
            body
        };
        trim_seq(join_seq(body2, "\n"@))
    } else {
        t
    }
}

pub fn normalize_structured_fallback_text(raw: &str) -> (r: String)
    ensures
        r@ == unfenced(raw@),
{
    let t = trim(raw);
    if !starts_with(t.as_str(), "```") {
        return t;
    }
    let ls = lines(t.as_str());
    let ghost lv = views(ls@);
    proof {
        reveal_strlit("```");
        assert("```"@.len() == 3);
        assert(t@.len() >= 3);
        lemma_lines_nonempty(t@);
    }
    let mut body: Vec<String> = Vec::new();
    let mut i: usize = 1;
    while i < ls.len()
        invariant
            1 <= i <= ls@.len(),
            lv == views(ls@),
            body@.len() == i - 1,
            forall|k: int| 0 <= k < i - 1 ==> (#[trigger] body@[k])@ == lv[k + 1],
        decreases ls@.len() - i,
    {
        body.push(ls[i].clone());
        i += 1;
    }
    assert(views(body@) =~= lv.drop_first());
    let n = body.len();
    if n > 0 {
        let last = trim(body[n - 1].as_str());
        if str_eq(last.as_str(), "```") {
            let ghost before = views(body@);
            let _ = body.pop();
            assert(views(body@) =~= before.drop_last());
        }
    }
    let joined = join(&body, "\n");
    trim(joined.as_str())
}

/// A text of at least one character has at least one line.
pub proof fn lemma_lines_nonempty(s: Seq<char>)
    requires
        s.len() > 0,
    ensures
        str_lines(s).len() >= 1,
{
    lemma_split_lines_count(s, seq![]);
}

proof fn lemma_split_lines_count(s: Seq<char>, cur: Seq<char>)
    ensures
        crate::text::split_lines(s, cur).0.len() > 0 || crate::text::split_lines(s, cur).1.len()
            == cur.len() + s.len(),
    decreases s.len(),
{
    if s.len() > 0 {
        if s[0] == '\n' {
        } else {
            lemma_split_lines_count(s.drop_first(), cur.push(s[0]));
        }
    }
}

/// What the model wrote, with a surrounding code fence removed.
pub fn normalize_llm_output_text(raw: &str) -> (r: String)
    ensures
        r@ == unfenced(raw@),
{
    normalize_structured_fallback_text(raw)
}

// ------------------------------------------------------------------
// Marker lists
// ------------------------------------------------------------------

pub open spec fn strs_view(t: Seq<&'static str>) -> Seq<Seq<char>> {
    t.map_values(|s: &'static str| s@)
}

/// Some marker of `markers` occurs in `s`.
pub open spec fn any_sub(s: Seq<char>, markers: Seq<Seq<char>>) -> bool {
    exists|i: int| 0 <= i < markers.len() && has_sub(s, #[trigger] markers[i])
}

/// `s` starts with some marker of `markers`.
pub open spec fn any_prefix(s: Seq<char>, markers: Seq<Seq<char>>) -> bool {
    exists|i: int| 0 <= i < markers.len() && has_prefix(s, #[trigger] markers[i])
}

pub fn contains_any(s: &str, markers: &[&'static str]) -> (r: bool)
    ensures
        r == any_sub(s@, strs_view(markers@)),
{
    let mut i: usize = 0;
    while i < markers.len()
        invariant
            i <= markers@.len(),
            forall|k: int| 0 <= k < i ==> !has_sub(s@, #[trigger] strs_view(markers@)[k]),
        decreases markers@.len() - i,
    {
        if contains(s, markers[i]) {
            assert(has_sub(s@, strs_view(markers@)[i as int]));
            return true;
        }
        i += 1;
    }
    false
}

pub fn starts_with_any(s: &str, markers: &[&'static str]) -> (r: bool)
    ensures
        r == any_prefix(s@, strs_view(markers@)),
{
    let mut i: usize = 0;
    while i < markers.len()
        invariant
            i <= markers@.len(),
            forall|k: int| 0 <= k < i ==> !has_prefix(s@, #[trigger] strs_view(markers@)[k]),
        decreases markers@.len() - i,
    {
        if starts_with(s, markers[i]) {
            assert(has_prefix(s@, strs_view(markers@)[i as int]));
            return true;
        }
        i += 1;
    }
    false
}

pub const SUMMARY_REFUSAL_PREFIXES: [&'static str; 13] = [
    "i'm sorry",
    "i am sorry",
    "sorry,",
    "sorry but",
    "i can't help",
    "i cannot help",
    "i can't assist",
    "i cannot assist",
    "i can't provide",
    "i cannot provide",
    "i'm unable to",
    "i am unable to",
    "cannot comply",
];

pub const SUMMARY_TOOL_MARKERS: [&'static str; 2] = ["write_summary", "create_memory("];

pub const MEMORY_REFUSAL_MARKERS: [&'static str; 8] = [
    "i'm sorry",
    "i am sorry",
    "i can't",
    "i cannot",
    "i'm unable",
    "i am unable",
    "cannot comply",
    "i won't help",
];

pub const MEMORY_META_MARKERS: [&'static str; 13] = [
    "as an ai",
    "as a language model",
    "assistant:",
    "user:",
    "system:",
    "content policy",
    "safety policy",
    "cannot assist with",
    "here's a summary",
    "write_summary",
    "create_memory(",
    "\"operations\"",
    "\"items\"",
];

// ------------------------------------------------------------------
// Vetting summaries and memories
// ------------------------------------------------------------------

/// The summary to store, or why the model's summary is refused.
pub open spec fn summary_verdict(summary: Seq<char>) -> Result<Seq<char>, Seq<char>> {
    let n = collapse_ws(unfenced(summary));
    let lower = lower_seq(n);
    if n.len() == 0 {
        Err("summary was empty"@)
    } else if byte_len(n) > 6000 {
        Err("summary was implausibly long"@)
    } else if any_prefix(lower, strs_view(SUMMARY_REFUSAL_PREFIXES@)) {
        Err("summary looked like a refusal"@)
    } else if any_sub(lower, strs_view(SUMMARY_TOOL_MARKERS@)) {
        Err("summary leaked tool syntax"@)
    } else {
        Ok(n)
    }
}

pub open spec fn result_view(r: Result<String, String>) -> Result<Seq<char>, Seq<char>> {
    match r {
        Ok(s) => Ok(s@),
        Err(e) => Err(e@),
    }
}

pub fn validate_summary_text(summary: &str) -> (r: Result<String, String>)
    ensures
        result_view(r) == summary_verdict(summary@),
{
    let cleaned = normalize_llm_output_text(summary);
    let normalized = collapse_whitespace(cleaned.as_str());
    if normalized.as_str().unicode_len() == 0 {
        return Err(to_string("summary was empty"));
    }
    if normalized.as_str().len() > 6000 {
        return Err(to_string("summary was implausibly long"));
    }
    let lower = to_ascii_lowercase(normalized.as_str());
    if starts_with_any(lower.as_str(), &SUMMARY_REFUSAL_PREFIXES) {
        return Err(to_string("summary looked like a refusal"));
    }
    if contains_any(lower.as_str(), &SUMMARY_TOOL_MARKERS) {
        return Err(to_string("summary leaked tool syntax"));
    }
    Ok(normalized)
}

/// The memory to store, or why the model's memory text is refused.
pub open spec fn memory_verdict(memory: Seq<char>) -> Result<Seq<char>, Seq<char>> {
    let n = collapse_ws(unfenced(memory));
    let lower = lower_seq(n);
    if n.len() == 0 {
        Err("memory was empty"@)
    } else if byte_len(n) > 280 {
        Err("memory was too long"@)
    } else if any_sub(lower, strs_view(MEMORY_REFUSAL_MARKERS@)) {
        Err("memory looked like a refusal"@)
    } else if any_sub(lower, strs_view(MEMORY_META_MARKERS@)) {
        Err("memory looked like meta output"@)
    } else {
        Ok(n)
    }
}

pub fn validate_memory_text(memory: &str) -> (r: Result<String, String>)
    ensures
        result_view(r) == memory_verdict(memory@),
{
    let cleaned = normalize_llm_output_text(memory);
    let normalized = collapse_whitespace(cleaned.as_str());
    if normalized.as_str().unicode_len() == 0 {
        return Err(to_string("memory was empty"));
    }
    if normalized.as_str().len() > 280 {
        return Err(to_string("memory was too long"));
    }
    let lower = to_ascii_lowercase(normalized.as_str());
    if contains_any(lower.as_str(), &MEMORY_REFUSAL_MARKERS) {
        return Err(to_string("memory looked like a refusal"));
    }
    if contains_any(lower.as_str(), &MEMORY_META_MARKERS) {
        return Err(to_string("memory looked like meta output"));
    }
    Ok(normalized)
}

// ------------------------------------------------------------------
// Categories
// ------------------------------------------------------------------

pub const PREFERENCE_CUES: [&'static str; 10] = [
    "prefer",
    "preference",
    "likes",
    "dislikes",
    "favorite",
    "boundary",
    "request",
    "wants",
    "doesn't want",
    "does not want",
];

pub const RELATIONSHIP_CUES: [&'static str; 10] = [
    "friend",
    "ally",
    "enemy",
    "trust",
    "relationship",
    "bond",
    "dating",
    "married",
    "siblings",
    "partners",
];

pub const WORLD_DETAIL_CUES: [&'static str; 10] = [
    "city",
    "town",
    "kingdom",
    "forest",
    "artifact",
    "magic",
    "rule",
    "world",
    "location",
    "village",
];

pub const PLOT_EVENT_CUES: [&'static str; 11] = [
    "decided",
    "chose",
    "agreed",
    "arrived",
    "left",
    "found",
    "discovered",
    "promised",
    "killed",
    "saved",
    "escaped",
];

pub const CHARACTER_TRAIT_CUES: [&'static str; 11] = [
    "afraid",
    "fear",
    "goal",
    "trait",
    "personality",
    "backstory",
    "secret",
    "revealed",
    "believes",
    "hates",
    "loves",
];

/// The category of a memory, by the first list of cue words (checked in
/// the order preference, relationship, world detail, plot event, character
/// trait) with a cue in the lower-cased text.
pub open spec fn memory_category(text: Seq<char>) -> Seq<char> {
    let lower = lower_seq(text);
    if any_sub(lower, strs_view(PREFERENCE_CUES@)) {
        "preference"@
    } else if any_sub(lower, strs_view(RELATIONSHIP_CUES@)) {
        "relationship"@
    } else if any_sub(lower, strs_view(WORLD_DETAIL_CUES@)) {
        "world_detail"@
    } else if any_sub(lower, strs_view(PLOT_EVENT_CUES@)) {
        "plot_event"@
    } else if any_sub(lower, strs_view(CHARACTER_TRAIT_CUES@)) {
        "character_trait"@
    } else {
        "other"@
    }
}

pub fn guess_memory_category(text: &str) -> (r: String)
    ensures
        r@ == memory_category(text@),
{
    let lower = to_ascii_lowercase(text);
    let l = lower.as_str();
    if contains_any(l, &PREFERENCE_CUES) {
        to_string("preference")
    } else if contains_any(l, &RELATIONSHIP_CUES) {
        to_string("relationship")
    } else if contains_any(l, &WORLD_DETAIL_CUES) {
        to_string("world_detail")
    } else if contains_any(l, &PLOT_EVENT_CUES) {
        to_string("plot_event")
    } else if contains_any(l, &CHARACTER_TRAIT_CUES) {
        to_string("character_trait")
    } else {
        to_string("other")
    }
}

// ------------------------------------------------------------------
// Provider error texts
// ------------------------------------------------------------------

/// The provider refused a forced tool choice and wants `auto`.
pub open spec fn needs_auto_tool_choice(error: Seq<char>) -> bool {
    let lower = lower_seq(error);
    has_sub(lower, "tool choice must be auto"@) || has_sub(lower, "tool_choice must be auto"@) || (
    has_sub(lower, "tool choice"@) && has_sub(lower, "auto"@))
}

pub fn tool_choice_requires_auto(error: &str) -> (r: bool)
    ensures
        r == needs_auto_tool_choice(error@),
{
    let lower = to_ascii_lowercase(error);
    let l = lower.as_str();
    contains(l, "tool choice must be auto") || contains(l, "tool_choice must be auto") || (
    contains(l, "tool choice") && contains(l, "auto"))
}

/// The provider rejected the `parallel_tool_calls` field.
pub open spec fn rejects_parallel_tool_calls(error: Seq<char>) -> bool {
    let lower = lower_seq(error);
    (has_sub(lower, "parallel_tool_calls"@) || has_sub(lower, "parallel tool calls"@)) && (has_sub(
        lower,
        "unsupported"@,
    ) || has_sub(lower, "unknown"@) || has_sub(lower, "invalid"@) || has_sub(lower, "unexpected"@)
        || has_sub(lower, "must be"@))
}

pub fn parallel_tool_calls_requires_disable(error: &str) -> (r: bool)
    ensures
        r == rejects_parallel_tool_calls(error@),
{
    let lower = to_ascii_lowercase(error);
    let l = lower.as_str();
    (contains(l, "parallel_tool_calls") || contains(l, "parallel tool calls")) && (contains(
        l,
        "unsupported",
    ) || contains(l, "unknown") || contains(l, "invalid") || contains(l, "unexpected") || contains(
        l,
        "must be",
    ))
}

/// The error tells of a request the user cancelled.
pub open spec fn cancelled_request_error(message: Seq<char>) -> bool {
    let lower = lower_seq(message);
    has_sub(lower, "aborted"@) || has_sub(lower, "cancelled"@) || has_sub(lower, "canceled"@)
}

pub fn is_cancelled_request_error(message: &str) -> (r: bool)
    ensures
        r == cancelled_request_error(message@),
{
    let lower = to_ascii_lowercase(message);
    let l = lower.as_str();
    contains(l, "aborted") || contains(l, "cancelled") || contains(l, "canceled")
}

// ------------------------------------------------------------------
// Identifiers and small texts
// ------------------------------------------------------------------

/// Characters a model tends to wrap memory ids in.
pub open spec fn is_id_noise(c: char) -> bool {
    c == '#' || c == '*' || c == '"' || c == '\'' || c == '[' || c == ']' || c == '(' || c == ')'
}

pub open spec fn strip_noise_start(s: Seq<char>) -> Seq<char>
    decreases s.len(),
{
    if s.len() > 0 && is_id_noise(s[0]) {
        strip_noise_start(s.drop_first())
    } else {
        s
    }
}

pub open spec fn strip_noise_end(s: Seq<char>) -> Seq<char>
    decreases s.len(),
{
    if s.len() > 0 && is_id_noise(s.last()) {
        strip_noise_end(s.drop_last())
    } else {
        s
    }
}

/// A memory id as the model wrote it, trimmed and unwrapped.
pub open spec fn clean_memory_id(id: Seq<char>) -> Seq<char> {
    strip_noise_end(strip_noise_start(trim_seq(id)))
}

pub fn sanitize_memory_id(id: &str) -> (r: String)
    ensures
        r@ == clean_memory_id(id@),
{
    let t = trim(id);
    let v = chars_of(t.as_str());
    let n = v.len();
    let mut a: usize = 0;
    assert(v@.skip(0) =~= v@);
    while a < n && (v[a] == '#' || v[a] == '*' || v[a] == '"' || v[a] == '\'' || v[a] == '['
        || v[a] == ']' || v[a] == '(' || v[a] == ')')
        invariant
            n == v.len(),
            a <= n,
            strip_noise_start(v@) == strip_noise_start(v@.skip(a as int)),
        decreases n - a,
    {
        assert(v@.skip(a as int).drop_first() =~= v@.skip(a + 1));
        a += 1;
    }
    let mut b: usize = n;
    assert(v@.skip(a as int) =~= v@.subrange(a as int, n as int));
    while b > a && (v[b - 1] == '#' || v[b - 1] == '*' || v[b - 1] == '"' || v[b - 1] == '\''
        || v[b - 1] == '[' || v[b - 1] == ']' || v[b - 1] == '(' || v[b - 1] == ')')
        invariant
            n == v.len(),
            a <= b <= n,
            strip_noise_end(v@.subrange(a as int, n as int)) == strip_noise_end(
                v@.subrange(a as int, b as int),
            ),
        decreases b - a,
    {
        assert(v@.subrange(a as int, b as int).drop_last() =~= v@.subrange(a as int, b - 1));
        b -= 1;
    }
    let out = sub_vec(&v, a, b);
    string_of(out.as_slice())
}

/// A settings key for display: underscores and dots become spaces.
pub open spec fn humanized_key(key: Seq<char>) -> Seq<char> {
    key.map_values(|c: char| if c == '_' || c == '.' { ' ' } else { c })
}

pub fn humanize_key(key: &str) -> (r: String)
    ensures
        r@ == humanized_key(key@),
{
    let v = chars_of(key);
    let mut out: Vec<char> = Vec::new();
    let mut i: usize = 0;
    while i < v.len()
        invariant
            i <= v.len(),
            out@.len() == i,
            forall|k: int| 0 <= k < i ==> #[trigger] out@[k] == (if v@[k] == '_' || v@[k] == '.' {
                ' '
            } else {
                v@[k]
            }),
        decreases v.len() - i,
    {
        let c = v[i];
        out.push(if c == '_' || c == '.' { ' ' } else { c });
        i += 1;
    }
    assert(out@ =~= humanized_key(key@));
    string_of(out.as_slice())
}

pub fn plural_suffix(count: usize) -> (r: &'static str)
    ensures
        r@ == if count == 1 {
            ""@
        } else {
            "s"@
        },
{
    if count == 1 {
        ""
    } else {
        "s"
    }
}

/// `N <word>` with the plural `s` when N is not one, then `tail`.
pub open spec fn counted(n: nat, word: Seq<char>, tail: Seq<char>) -> Seq<char> {
    decimal(n) + " "@ + word + (if n == 1 {
        ""@
    } else {
        "s"@
    }) + tail
}

pub open spec fn opt_seq(o: Option<Seq<char>>) -> Seq<Seq<char>> {
    match o {
        Some(x) => seq![x],
        None => seq![],
    }
}

/// The phrases describing a turn's effect, in order: the largest relationship
/// change, the largest emotion change, new signals, added memories and
/// superseded memories, each only where there is one.
pub open spec fn turn_effect_parts(
    relationship: Option<Seq<char>>,
    emotion: Option<Seq<char>>,
    added_signals: nat,
    added_memories: nat,
    superseded_memories: nat,
) -> Seq<Seq<char>> {
    opt_seq(relationship) + opt_seq(emotion) + (if added_signals > 0 {
        seq![counted(added_signals, "signal"@, ""@)]
    } else {
        seq![]
    }) + (if added_memories > 0 {
        seq![counted(added_memories, "memory"@, " added"@)]
    } else {
        seq![]
    }) + (if superseded_memories > 0 {
        seq![counted(superseded_memories, "memory"@, " superseded"@)]
    } else {
        seq![]
    })
}

/// At most the first three phrases, joined by commas; none when there is
/// nothing to say.
pub open spec fn turn_effect_summary(parts: Seq<Seq<char>>) -> Option<Seq<char>> {
    if parts.len() == 0 {
        None
    } else if parts.len() <= 3 {
        Some(join_seq(parts, ", "@))
    } else {
        Some(join_seq(parts.take(3), ", "@))
    }
}

fn push_counted(parts: &mut Vec<String>, n: usize, word: &str, tail: &str)
    requires
        n > 0,
    ensures
        views(final(parts)@) == views(old(parts)@).push(counted(n as nat, word@, tail@)),
{
    let mut p = u64_to_string(n as u64);
    p.append(" ");
    p.append(word);
    p.append(plural_suffix(n));
    p.append(tail);
    let ghost before = views(parts@);
    parts.push(p);
    assert(views(parts@) =~= before.push(counted(n as nat, word@, tail@)));
}

/// A one-line account of what a companion turn changed.  The two change
/// phrases come formatted (`<key> +N%`); the counts are those of new
/// signals, added memories and superseded memories.
pub fn summarize_turn_effect(
    relationship_part: Option<String>,
    emotion_part: Option<String>,
    added_signals: usize,
    added_memories: usize,
    superseded_memories: usize,
) -> (r: Option<String>)
    ensures
        opt_view(r) == turn_effect_summary(
            turn_effect_parts(
                opt_view(relationship_part),
                opt_view(emotion_part),
                added_signals as nat,
                added_memories as nat,
                superseded_memories as nat,
            ),
        ),
{
    let mut parts: Vec<String> = Vec::new();
    let ghost rel = opt_seq(opt_view(relationship_part));
    let ghost emo = opt_seq(opt_view(emotion_part));
    match relationship_part {
        Some(p) => parts.push(p),
        None => {},
    }
    assert(views(parts@) =~= rel);
    match emotion_part {
        Some(p) => {
            let ghost before = views(parts@);
            parts.push(p);
            assert(views(parts@) =~= before.push(emo[0]));
        },
        None => {},
    }
    assert(views(parts@) =~= rel + emo);
    let ghost mid = views(parts@);
    if added_signals > 0 {
        push_counted(&mut parts, added_signals, "signal", "");
    }
    assert(views(parts@) =~= mid + (if added_signals > 0 {
        seq![counted(added_signals as nat, "signal"@, ""@)]
    } else {
        seq![]
    }));
    let ghost mid2 = views(parts@);
    if added_memories > 0 {
        push_counted(&mut parts, added_memories, "memory", " added");
    }
    assert(views(parts@) =~= mid2 + (if added_memories > 0 {
        seq![counted(added_memories as nat, "memory"@, " added"@)]
    } else {
        seq![]
    }));
    let ghost mid3 = views(parts@);
    if superseded_memories > 0 {
        push_counted(&mut parts, superseded_memories, "memory", " superseded");
    }
    assert(views(parts@) =~= mid3 + (if superseded_memories > 0 {
        seq![counted(superseded_memories as nat, "memory"@, " superseded"@)]
    } else {
        seq![]
    }));
    let ghost all = views(parts@);
    assert(all =~= turn_effect_parts(
        opt_view(relationship_part),
        opt_view(emotion_part),
        added_signals as nat,
        added_memories as nat,
        superseded_memories as nat,
    ));
    if parts.len() == 0 {
        None
    } else {
        if parts.len() > 3 {
            parts.truncate(3);
            assert(views(parts@) =~= all.take(3));
        }
        Some(join(&parts, ", "))
    }
}

/// The key under which a chat's memory run is registered.
pub fn dynamic_memory_run_key(session_id: &str) -> (r: String)
    ensures
        r@ == "chat:"@ + session_id@,
{
    let mut s = to_string("chat:");
    s.append(session_id);
    s
}

/// The request id of one phase of a chat's memory cycle.
pub fn dynamic_memory_request_id(session_id: &str, phase: &str) -> (r: String)
    ensures
        r@ == "dynamic-memory:"@ + session_id@ + ":"@ + phase@,
{
    let mut s = to_string("dynamic-memory:");
    s.append(session_id);
    s.append(":");
    s.append(phase);
    s
}

/// The local sampler settings are overwritten unless the user turned that off.
pub fn dynamic_memory_llama_sampler_overwrite_enabled(setting: Option<bool>) -> (r: bool)
    ensures
        r == match setting {
            Some(b) => b,
            None => true,
        },
{
    match setting {
        Some(b) => b,
        None => true,
    }
}

/// Debug captures are kept in debug builds and in developer mode.
pub fn dynamic_memory_debug_capture_enabled(debug_build: bool, developer_mode: Option<bool>) -> (r:
    bool)
    ensures
        r == (debug_build || developer_mode == Some(true)),
{
    debug_build || match developer_mode {
        Some(b) => b,
        None => false,
    }
}

// ------------------------------------------------------------------
// Tokens
// ------------------------------------------------------------------

pub open spec fn keep_token(cur: Seq<char>) -> Seq<Seq<char>> {
    if cur.len() >= 3 {
        seq![cur]
    } else {
        seq![]
    }
}

/// Runs of ASCII letters and digits, read with `cur` as the run so far;
/// runs shorter than three characters are dropped.
pub open spec fn tokens_acc(s: Seq<char>, cur: Seq<char>) -> Seq<Seq<char>>
    decreases s.len(),
{
    if s.len() == 0 {
        keep_token(cur)
    } else if is_ascii_alnum(s[0]) {
        tokens_acc(s.drop_first(), cur.push(s[0]))
    } else {
        keep_token(cur) + tokens_acc(s.drop_first(), seq![])
    }
}

/// The lower-cased words of at least three letters or digits.
pub open spec fn word_tokens(text: Seq<char>) -> Seq<Seq<char>> {
    tokens_acc(lower_seq(text), seq![])
}

pub fn normalized_tokens(text: &str) -> (r: Vec<String>)
    ensures
        views(r@) == word_tokens(text@),
{
    let raw = chars_of(text);
    let v = lower_vec(&raw);
    let n = v.len();
    let ghost total = tokens_acc(v@, seq![]);
    let mut out: Vec<String> = Vec::new();
    let mut cur: Vec<char> = Vec::new();
    let mut i: usize = 0;
    assert(v@.skip(0) =~= v@);
    while i < n
        invariant
            n == v.len(),
            i <= n,
            views(out@) + tokens_acc(v@.skip(i as int), cur@) == total,
        decreases n - i,
    {
        let ghost rest = v@.skip(i as int);
        assert(rest.drop_first() =~= v@.skip(i + 1));
        let c = v[i];
        if is_ascii_alphanumeric(c) {
            cur.push(c);
        } else {
            let ghost before = views(out@);
            if cur.len() >= 3 {
                out.push(string_of(cur.as_slice()));
                assert(views(out@) =~= before + keep_token(rest.take(0) + cur@));
            }
            assert(rest.take(0) + cur@ =~= cur@);
            assert(views(out@) =~= before + keep_token(cur@));
            assert(before + (keep_token(cur@) + tokens_acc(rest.drop_first(), seq![])) =~= views(out@)
                + tokens_acc(rest.drop_first(), seq![]));
            cur = Vec::new();
            assert(cur@ =~= Seq::<char>::empty());
        }
        i += 1;
    }
    assert(v@.skip(n as int) =~= Seq::<char>::empty());
    let ghost before = views(out@);
    if cur.len() >= 3 {
        out.push(string_of(cur.as_slice()));
    }
    assert(views(out@) =~= before + keep_token(cur@));
    out
}

/// The words of `ts` that occur in `h`, counted.
pub open spec fn count_contained(ts: Seq<Seq<char>>, h: Seq<char>) -> nat
    decreases ts.len(),
{
    if ts.len() == 0 {
        0
    } else {
        count_contained(ts.drop_last(), h) + if has_sub(h, ts.last()) {
            1nat
        } else {
            0nat
        }
    }
}

/// The text after the first `after ` of `q`, up to the next one.
pub open spec fn after_piece(q: Seq<char>) -> Option<Seq<char>> {
    match first_occurrence(q, "after "@, 0) {
        Some(i) => {
            let rest = q.skip(i + 6);
            match first_occurrence(rest, "after "@, 0) {
                Some(j) => Some(rest.take(j)),
                None => Some(rest),
            }
        },
        None => None,
    }
}

/// Whether a memory answers an `after X` question: X's words all occur in
/// it, and it also speaks of a sequence.
pub enum SequenceAnchor {
    /// The question has no `after `, or the memory lacks one of X's words
    /// (or X has none).
    Absent,
    /// X's words occur in the memory.
    Anchored,
    /// X's words occur and the memory says `then `, `after ` or `afterward`.
    AnchoredInSequence,
}

/// What lexical matching finds between a question and a memory: how many of
/// the question's words the memory contains, out of how many, and whether it
/// answers an `after` question.
pub struct LexicalAnchor {
    pub overlapping: usize,
    pub query_tokens: usize,
    pub anchor: SequenceAnchor,
}

pub open spec fn anchor_of(query: Seq<char>, memory: Seq<char>) -> SequenceAnchor {
    let ml = lower_seq(memory);
    match after_piece(lower_seq(query)) {
        Some(piece) => {
            let ts = word_tokens(piece);
            if ts.len() > 0 && forall|k: int| 0 <= k < ts.len() ==> has_sub(ml, #[trigger] ts[k]) {
                if has_sub(ml, "then "@) || has_sub(ml, "after "@) || has_sub(ml, "afterward"@) {
                    SequenceAnchor::AnchoredInSequence
                } else {
                    SequenceAnchor::Anchored
                }
            } else {
                SequenceAnchor::Absent
            }
        },
        None => SequenceAnchor::Absent,
    }
}

fn count_in(ts: &Vec<String>, h: &str) -> (r: usize)
    ensures
        r == count_contained(views(ts@), h@),
{
    let ghost all = views(ts@);
    let mut n: usize = 0;
    let mut i: usize = 0;
    while i < ts.len()
        invariant
            i <= ts@.len(),
            all == views(ts@),
            n == count_contained(all.take(i as int), h@),
            n <= i,
        decreases ts@.len() - i,
    {
        assert(all.take(i + 1).drop_last() =~= all.take(i as int));
        if contains(h, ts[i].as_str()) {
            n += 1;
        }
        i += 1;
    }
    assert(all.take(ts@.len() as int) =~= all);
    n
}

fn all_in(ts: &Vec<String>, h: &str) -> (r: bool)
    ensures
        r == forall|k: int| 0 <= k < ts@.len() ==> has_sub(h@, #[trigger] views(ts@)[k]),
{
    let mut i: usize = 0;
    while i < ts.len()
        invariant
            i <= ts@.len(),
            forall|k: int| 0 <= k < i ==> has_sub(h@, #[trigger] views(ts@)[k]),
        decreases ts@.len() - i,
    {
        if !contains(h, ts[i].as_str()) {
            assert(!has_sub(h@, views(ts@)[i as int]));
            return false;
        }
        i += 1;
    }
    true
}

/// Lexical evidence that `memory_text` answers `query` (see `anchor_of`).
pub fn lexical_anchor(query: &str, memory_text: &str) -> (r: LexicalAnchor)
    ensures
        r.query_tokens == word_tokens(query@).len(),
        r.overlapping == count_contained(word_tokens(query@), lower_seq(memory_text@)),
        r.anchor == anchor_of(query@, memory_text@),
{
    let ql = to_ascii_lowercase(query);
    let ml = to_ascii_lowercase(memory_text);
    let qt = normalized_tokens(query);
    let overlapping = count_in(&qt, ml.as_str());
    let anchor = match split_once_str(ql.as_str(), "after ") {
        Some((_, rest)) => {
            proof {
                reveal_strlit("after ");
            }
            let piece = match split_once_str(rest.as_str(), "after ") {
                Some((p, _)) => p,
                None => rest,
            };
            let ts = normalized_tokens(piece.as_str());
            if ts.len() > 0 && all_in(&ts, ml.as_str()) {
                if contains(ml.as_str(), "then ") || contains(ml.as_str(), "after ") || contains(
                    ml.as_str(),
                    "afterward",
                ) {
                    SequenceAnchor::AnchoredInSequence
                } else {
                    SequenceAnchor::Anchored
                }
            } else {
                SequenceAnchor::Absent
            }
        },
        None => SequenceAnchor::Absent,
    };
    LexicalAnchor { overlapping, query_tokens: qt.len(), anchor }
}

// ------------------------------------------------------------------
// Memories and messages
// ------------------------------------------------------------------

/// A memory must be embedded again when its vector is missing or of another
/// size, its recorded size differs, or it came from another embedding
/// version (memories without a version count as `v3` at 512 dimensions).
pub open spec fn needs_migration(m: MemoryEmbedding, version: Seq<char>, dims: usize) -> bool {
    if m.embedding_len == 0 || m.embedding_len != dims {
        true
    } else if m.embedding_dimensions != Some(dims) {
        true
    } else {
        match m.embedding_source_version {
            Some(v) => v@ != version,
            None => !(version == "v3"@ && dims == 512),
        }
    }
}

pub fn memory_embedding_requires_migration(
    memory: &MemoryEmbedding,
    target_source_version: &str,
    target_dimensions: usize,
) -> (r: bool)
    ensures
        r == needs_migration(*memory, target_source_version@, target_dimensions),
{
    if memory.embedding_len == 0 || memory.embedding_len != target_dimensions {
        return true;
    }
    match memory.embedding_dimensions {
        Some(d) => if d != target_dimensions {
            return true;
        },
        None => {
            return true;
        },
    }
    match &memory.embedding_source_version {
        Some(v) => !str_eq(v.as_str(), target_source_version),
        None => !(str_eq(target_source_version, "v3") && target_dimensions == 512),
    }
}

/// `[id] text` for each memory.
pub open spec fn memory_line(m: MemoryEmbedding) -> Seq<char> {
    "["@ + m.id@ + "] "@ + m.text@
}

pub fn format_memories_with_ids(memories: &Vec<MemoryEmbedding>) -> (r: Vec<String>)
    ensures
        r@.len() == memories@.len(),
        forall|i: int| 0 <= i < memories@.len() ==> (#[trigger] r@[i])@ == memory_line(memories@[i]),
{
    let mut out: Vec<String> = Vec::new();
    let mut i: usize = 0;
    while i < memories.len()
        invariant
            i <= memories@.len(),
            out@.len() == i,
            forall|k: int| 0 <= k < i ==> (#[trigger] out@[k])@ == memory_line(memories@[k]),
        decreases memories@.len() - i,
    {
        let mut s = to_string("[");
        s.append(memories[i].id.as_str());
        s.append("] ");
        s.append(memories[i].text.as_str());
        out.push(s);
        i += 1;
    }
    out
}

/// `role: content`, the way a transcript shows one message.
pub open spec fn transcript_line(m: StoredMessage) -> Seq<char> {
    m.role@ + ": "@ + m.content@
}

pub open spec fn transcript_lines(ms: Seq<StoredMessage>) -> Seq<Seq<char>> {
    Seq::new(ms.len(), |i: int| transcript_line(ms[i]))
}

/// The window's messages as transcript lines, one per line.
pub fn transcript_text(window: &Vec<StoredMessage>) -> (r: String)
    ensures
        r@ == join_seq(transcript_lines(window@), "\n"@),
{
    let mut parts: Vec<String> = Vec::new();
    let mut i: usize = 0;
    while i < window.len()
        invariant
            i <= window@.len(),
            parts@.len() == i,
            forall|k: int| 0 <= k < i ==> (#[trigger] parts@[k])@ == transcript_line(window@[k]),
        decreases window@.len() - i,
    {
        let mut line = to_string(window[i].role.as_str());
        line.append(": ");
        line.append(window[i].content.as_str());
        parts.push(line);
        i += 1;
    }
    let r = join(&parts, "\n");
    assert(views(parts@) =~= transcript_lines(window@));
    r
}

/// The instructions used when no memory-manager template is stored.
pub open spec fn default_memory_tool_prompt() -> Seq<char> {
    "You maintain a long-term memory index for a conversation transcript. Use tools to add or delete concise factual memories. Every create_memory call must include a category tag. Keep the list tidy and capped at {{max_entries}} entries. Prefer deleting by ID when removing items. When finished, call the done tool."@
}

/// The memory manager's instructions: the rendered template (or the
/// default text), with the entry cap, the current hot-memory tokens and the
/// hot-memory budget written in place of their placeholders.
pub open spec fn memory_tool_prompt(
    base: Option<Seq<char>>,
    max_entries: nat,
    current_tokens: nat,
    token_budget: nat,
) -> Seq<char> {
    let b = match base {
        Some(t) => t,
        None => default_memory_tool_prompt(),
    };
    replace_seq(
        replace_seq(
            replace_seq(b, "{{max_entries}}"@, decimal(max_entries)),
            "{{current_memory_tokens}}"@,
            decimal(current_tokens),
        ),
        "{{hot_token_budget}}"@,
        decimal(token_budget),
    )
}

pub fn render_memory_tool_prompt(
    base: Option<&str>,
    max_entries: u64,
    current_tokens: u64,
    token_budget: u64,
) -> (r: String)
    ensures
        r@ == memory_tool_prompt(
            match base {
                Some(t) => Some(t@),
                None => None,
            },
            max_entries as nat,
            current_tokens as nat,
            token_budget as nat,
        ),
{
    let b = match base {
        Some(t) => to_string(t),
        None => to_string(
            "You maintain a long-term memory index for a conversation transcript. Use tools to add or delete concise factual memories. Every create_memory call must include a category tag. Keep the list tidy and capped at {{max_entries}} entries. Prefer deleting by ID when removing items. When finished, call the done tool.",
        ),
    };
    let m = u64_to_string(max_entries);
    let c = u64_to_string(current_tokens);
    let t = u64_to_string(token_budget);
    let r1 = replace(b.as_str(), "{{max_entries}}", m.as_str());
    let r2 = replace(r1.as_str(), "{{current_memory_tokens}}", c.as_str());
    replace(r2.as_str(), "{{hot_token_budget}}", t.as_str())
}

/// The instructions used when no summarizer template is stored.
pub open spec fn default_summary_prompt() -> Seq<char> {
    "Summarize the recent conversation transcript into a concise paragraph capturing durable facts and decisions. Avoid adding new information."@
}

/// The summarizer's instructions: the rendered template (or the default
/// text) with the previous summary in place of `{{prev_summary}}`; a missing
/// or blank previous summary is announced as absent.
pub open spec fn summary_prompt(base: Option<Seq<char>>, prior: Option<Seq<char>>) -> Seq<char> {
    let b = match base {
        Some(t) => t,
        None => default_summary_prompt(),
    };
    let prev = match prior {
        Some(p) => if trim_seq(p).len() == 0 {
            "No previous summary provided."@
        } else {
            p
        },
        None => "No previous summary provided."@,
    };
    replace_seq(b, "{{prev_summary}}"@, prev)
}

/// A tool call of a summary answer: its name, and its `summary` argument
/// when that is a string.
pub open spec fn summary_calls_view(calls: Seq<(String, Option<String>)>) -> Seq<(Seq<char>, Option<Seq<char>>)> {
    calls.map_values(|c: (String, Option<String>)| (c.0@, opt_view(c.1)))
}

/// The first `write_summary` call whose summary passes the checks, checked.
pub open spec fn summary_from_calls(calls: Seq<(Seq<char>, Option<Seq<char>>)>) -> Option<Seq<char>>
    decreases calls.len(),
{
    if calls.len() == 0 {
        None
    } else {
        let c = calls[0];
        if c.0 == "write_summary"@ && c.1 is Some && summary_verdict(c.1->0) is Ok {
            Some(summary_verdict(c.1->0)->Ok_0)
        } else {
            summary_from_calls(calls.drop_first())
        }
    }
}

/// What a successful summary answer gives: the summary from its tool
/// calls, else its non-empty text when that passes the checks, else why
/// neither did.
pub open spec fn summary_answer(
    calls: Seq<(Seq<char>, Option<Seq<char>>)>,
    text: Option<Seq<char>>,
    legacy_function_call: bool,
    provider_id: Seq<char>,
    model: Seq<char>,
) -> Result<Seq<char>, Seq<char>> {
    let whose = ". Provider="@ + provider_id + ", model="@ + model;
    match summary_from_calls(calls) {
        Some(v) => Ok(v),
        None => if text matches Some(t) && t.len() > 0 && summary_verdict(t) is Ok {
            Ok(summary_verdict(text->0)->Ok_0)
        } else if calls.len() == 0 {
            Err("model returned no tool call and no valid text"@ + (if legacy_function_call {
                " (response uses legacy function_call format)"@
            } else {
                ""@
            }) + whose)
        } else {
            Err("expected write_summary tool call or valid text, got "@ + join_seq(
                calls.map_values(|c: (Seq<char>, Option<Seq<char>>)| c.0),
                ", "@,
            ) + whose)
        },
    }
}

/// The summary that a successful answer to the summary request carries,
/// given its tool calls, its text and whether it used the legacy
/// `function_call` form; or why it carries none.
pub fn summary_from_answer(
    calls: &Vec<(String, Option<String>)>,
    text: Option<&str>,
    legacy_function_call: bool,
    provider_id: &str,
    model: &str,
) -> (r: Result<String, String>)
    ensures
        result_view(r) == summary_answer(
            summary_calls_view(calls@),
            match text {
                Some(t) => Some(t@),
                None => None,
            },
            legacy_function_call,
            provider_id@,
            model@,
        ),
{
    let ghost cv = summary_calls_view(calls@);
    let mut i: usize = 0;
    let mut names: Vec<String> = Vec::new();
    assert(cv.skip(0) =~= cv);
    assert(views(names@) =~= cv.take(0).map_values(|c: (Seq<char>, Option<Seq<char>>)| c.0));
    while i < calls.len()
        invariant
            i <= calls@.len(),
            cv == summary_calls_view(calls@),
            summary_from_calls(cv) == summary_from_calls(cv.skip(i as int)),
            views(names@) == cv.take(i as int).map_values(|c: (Seq<char>, Option<Seq<char>>)| c.0),
        decreases calls@.len() - i,
    {
        assert(cv.skip(i as int).drop_first() =~= cv.skip(i + 1));
        assert(cv.skip(i as int)[0] == cv[i as int]);
        assert(cv[i as int] == (calls@[i as int].0@, opt_view(calls@[i as int].1)));
        let (name, arg) = (&calls[i].0, &calls[i].1);
        if str_eq(name.as_str(), "write_summary") {
            match arg {
                Some(a) => {
                    let checked = validate_summary_text(a.as_str());
                    match checked {
                        Ok(v) => {
                            return Ok(v);
                        },
                        Err(_) => {},
                    }
                },
                None => {},
            }
        }
        names.push(name.clone());
        assert(cv.take(i + 1).map_values(|c: (Seq<char>, Option<Seq<char>>)| c.0) =~= cv.take(
            i as int,
        ).map_values(|c: (Seq<char>, Option<Seq<char>>)| c.0).push(cv[i as int].0));
        i += 1;
    }
    assert(cv.skip(i as int) =~= Seq::<(Seq<char>, Option<Seq<char>>)>::empty());
    assert(cv.take(i as int) =~= cv);
    match text {
        Some(t) => {
            if t.unicode_len() > 0 {
                match validate_summary_text(t) {
                    Ok(v) => {
                        return Ok(v);
                    },
                    Err(_) => {},
                }
            }
        },
        None => {},
    }
    let mut m = if calls.len() == 0 {
        let mut m = to_string("model returned no tool call and no valid text");
        if legacy_function_call {
            m.append(" (response uses legacy function_call format)");
        } else {
            proof {
                reveal_strlit("");
            }
            assert(m@ =~= "model returned no tool call and no valid text"@ + ""@);
        }
        m
    } else {
        let mut m = to_string("expected write_summary tool call or valid text, got ");
        let joined = join(&names, ", ");
        assert(views(names@) == cv.map_values(|c: (Seq<char>, Option<Seq<char>>)| c.0));
        m.append(joined.as_str());
        m
    };
    let ghost head = m@;
    m.append(". Provider=");
    m.append(provider_id);
    m.append(", model=");
    m.append(model);
    assert(m@ =~= head + (". Provider="@ + provider_id@ + ", model="@ + model@));
    Err(m)
}

pub fn render_summary_prompt(base: Option<&str>, prior_summary: Option<&str>) -> (r: String)
    ensures
        r@ == summary_prompt(
            match base {
                Some(t) => Some(t@),
                None => None,
            },
            match prior_summary {
                Some(p) => Some(p@),
                None => None,
            },
        ),
{
    let b = match base {
        Some(t) => to_string(t),
        None => to_string(
            "Summarize the recent conversation transcript into a concise paragraph capturing durable facts and decisions. Avoid adding new information.",
        ),
    };
    let prev = match prior_summary {
        Some(p) => if is_blank(p) {
            "No previous summary provided."
        } else {
            p
        },
        None => "No previous summary provided.",
    };
    replace(b.as_str(), "{{prev_summary}}", prev)
}

/// The memory lines, or `none` when there are no memories.
pub open spec fn memory_listing(memories: Seq<MemoryEmbedding>) -> Seq<char> {
    if memories.len() == 0 {
        "none"@
    } else {
        join_seq(Seq::new(memories.len(), |i: int| memory_line(memories[i])), "\n"@)
    }
}

/// The user message of a memory-tool round: the summary, the recent
/// transcript lines and the current memories with their ids.
pub open spec fn memory_tool_user_text(
    summary: Seq<char>,
    window: Seq<StoredMessage>,
    memories: Seq<MemoryEmbedding>,
) -> Seq<char> {
    "Conversation transcript summary:\n"@ + summary + "\n\nRecent transcript lines:\n"@
        + join_seq(transcript_lines(window), "\n"@) + "\n\nCurrent memories (with IDs):\n"@
        + memory_listing(memories)
}

pub fn memory_tool_user_message(
    summary: &str,
    window: &Vec<StoredMessage>,
    memories: &Vec<MemoryEmbedding>,
) -> (r: String)
    ensures
        r@ == memory_tool_user_text(summary@, window@, memories@),
{
    let lines = format_memories_with_ids(memories);
    let listing = if lines.len() == 0 {
        to_string("none")
    } else {
        let j = join(&lines, "\n");
        assert(views(lines@) =~= Seq::new(memories@.len(), |i: int| memory_line(memories@[i])));
        j
    };
    let transcript = transcript_text(window);
    let mut s = to_string("Conversation transcript summary:\n");
    s.append(summary);
    s.append("\n\nRecent transcript lines:\n");
    s.append(transcript.as_str());
    s.append("\n\nCurrent memories (with IDs):\n");
    s.append(listing.as_str());
    s
}

/// Messages of the user and of the character (roles spelled exactly).
pub open spec fn is_conversation_role(role: Seq<char>) -> bool {
    role == "user"@ || role == "assistant"@
}

/// The conversation messages among `ms`, in order.
pub open spec fn conversation_of(ms: Seq<StoredMessage>) -> Seq<MessageView>
    decreases ms.len(),
{
    if ms.len() == 0 {
        seq![]
    } else {
        conversation_of(ms.drop_last()) + if is_conversation_role(ms.last().role@) {
            seq![message_view(ms.last())]
        } else {
            seq![]
        }
    }
}

/// The last `limit` conversation messages.
pub open spec fn window_of(ms: Seq<StoredMessage>, limit: nat) -> Seq<MessageView> {
    let c = conversation_of(ms);
    if c.len() > limit {
        c.skip(c.len() - limit)
    } else {
        c
    }
}

fn is_conversation_message(m: &StoredMessage) -> (r: bool)
    ensures
        r == is_conversation_role(m.role@),
{
    str_eq(m.role.as_str(), "user") || str_eq(m.role.as_str(), "assistant")
}

pub fn conversation_window(messages: &Vec<StoredMessage>, limit: usize) -> (r: Vec<StoredMessage>)
    ensures
        r@.map_values(|m: StoredMessage| message_view(m)) == window_of(messages@, limit as nat),
{
    let mut convo: Vec<StoredMessage> = Vec::new();
    let mut i: usize = 0;
    while i < messages.len()
        invariant
            i <= messages@.len(),
            convo@.map_values(|m: StoredMessage| message_view(m)) == conversation_of(
                messages@.take(i as int),
            ),
        decreases messages@.len() - i,
    {
        assert(messages@.take(i + 1).drop_last() =~= messages@.take(i as int));
        assert(messages@.take(i + 1).last() == messages@[i as int]);
        let ghost before = convo@.map_values(|m: StoredMessage| message_view(m));
        if is_conversation_message(&messages[i]) {
            let c = copy_message(&messages[i]);
            convo.push(c);
            assert(convo@.map_values(|m: StoredMessage| message_view(m)) =~= before + seq![
                message_view(messages@[i as int]),
            ]);
        } else {
            assert(before =~= before + Seq::<MessageView>::empty());
        }
        i += 1;
    }
    assert(messages@.take(messages@.len() as int) =~= messages@);
    if convo.len() > limit {
        let overflow = convo.len() - limit;
        let ghost all = convo@;
        let mut removed: usize = 0;
        while removed < overflow
            invariant
                removed <= overflow,
                overflow == all.len() - limit,
                convo@ == all.skip(removed as int),
            decreases overflow - removed,
        {
            convo.remove(0);
            assert(convo@ =~= all.skip(removed + 1));
            removed += 1;
        }
        assert(convo@.map_values(|m: StoredMessage| message_view(m)) =~= all.map_values(
            |m: StoredMessage| message_view(m),
        ).skip(overflow as int));
    }
    convo
}

pub fn conversation_count(messages: &Vec<StoredMessage>) -> (r: usize)
    ensures
        r == conversation_of(messages@).len(),
{
    let mut count: usize = 0;
    let mut i: usize = 0;
    while i < messages.len()
        invariant
            i <= messages@.len(),
            count == conversation_of(messages@.take(i as int)).len(),
            count <= i,
        decreases messages@.len() - i,
    {
        assert(messages@.take(i + 1).drop_last() =~= messages@.take(i as int));
        assert(messages@.take(i + 1).last() == messages@[i as int]);
        if is_conversation_message(&messages[i]) {
            count += 1;
        }
        i += 1;
    }
    assert(messages@.take(messages@.len() as int) =~= messages@);
    count
}

/// Roles as the memory cycle reads them: trimmed, ASCII case ignored.
pub open spec fn is_observed_role(role: Seq<char>) -> bool {
    let r = lower_seq(trim_seq(role));
    r == "user"@ || r == "assistant"@
}

/// Index of the newest message of the user or the character.
pub open spec fn latest_observed_index(ms: Seq<StoredMessage>) -> Option<int>
    decreases ms.len(),
{
    if ms.len() == 0 {
        None
    } else if is_observed_role(ms.last().role@) {
        Some(ms.len() - 1)
    } else {
        latest_observed_index(ms.drop_last())
    }
}

pub proof fn lemma_latest_observed_bounds(ms: Seq<StoredMessage>)
    ensures
        latest_observed_index(ms) matches Some(i) ==> 0 <= i < ms.len() && is_observed_role(ms[i].role@),
    decreases ms.len(),
{
    if ms.len() > 0 && !is_observed_role(ms.last().role@) {
        lemma_latest_observed_bounds(ms.drop_last());
    }
}

/// Creation time, role and id of the newest message of the user or the
/// character.
pub fn latest_observed_memory_context(messages: &Vec<StoredMessage>) -> (r: (
    Option<u64>,
    Option<String>,
    Option<String>,
))
    ensures
        match latest_observed_index(messages@) {
            Some(i) => r.0 == Some(messages@[i].created_at) && opt_view(r.1) == Some(
                messages@[i].role@,
            ) && opt_view(r.2) == Some(messages@[i].id@),
            None => r.0 is None && r.1 is None && r.2 is None,
        },
{
    let mut i: usize = messages.len();
    assert(messages@.take(i as int) =~= messages@);
    while i > 0
        invariant
            i <= messages@.len(),
            latest_observed_index(messages@) == latest_observed_index(messages@.take(i as int)),
        decreases i,
    {
        let ghost t = messages@.take(i as int);
        assert(t.drop_last() =~= messages@.take(i - 1));
        assert(t.last() == messages@[i - 1]);
        let role = trim(messages[i - 1].role.as_str());
        let lower = to_ascii_lowercase(role.as_str());
        if str_eq(lower.as_str(), "user") || str_eq(lower.as_str(), "assistant") {
            let m = &messages[i - 1];
            return (Some(m.created_at), Some(m.role.clone()), Some(m.id.clone()));
        }
        i -= 1;
    }
    assert(messages@.take(0) =~= Seq::<StoredMessage>::empty());
    (None, None, None)
}

// ------------------------------------------------------------------
// When a memory cycle runs, and over which messages
// ------------------------------------------------------------------

/// Dynamic memory runs when its settings exist and are enabled and the
/// character's memory type is `dynamic` (in any case).
pub open spec fn dynamic_memory_on(config_present: bool, enabled: bool, memory_type: Seq<char>) -> bool {
    config_present && enabled && lower_seq(memory_type) == lower_seq("dynamic"@)
}

pub fn dynamic_memory_active(config_present: bool, enabled: bool, memory_type: &str) -> (r: bool)
    ensures
        r == dynamic_memory_on(config_present, enabled, memory_type@),
{
    config_present && enabled && crate::text::eq_ignore_ascii_case(memory_type, "dynamic")
}

/// The conversation messages a cycle summarizes, as `(start, end)`
/// positions, or nothing when the cycle is skipped.  The window is
/// `interval` messages (at least one).  An ordinary cycle runs only once a
/// full window of messages has arrived since the last window's end, and
/// then covers everything since then; a forced cycle (a retry, a manual
/// trigger or another model) covers the last window; after a rewind the
/// cycle covers the whole conversation.
pub open spec fn cycle_window_of(
    interval: nat,
    total: nat,
    last_end: nat,
    rewound: bool,
    forced: bool,
) -> Option<(nat, nat)> {
    let ws: nat = if interval == 0 {
        1
    } else {
        interval
    };
    let new_convo: nat = if total > last_end {
        (total - last_end) as nat
    } else {
        0
    };
    if !forced && !rewound && (total <= last_end || new_convo < ws) {
        None
    } else {
        let start: nat = if rewound {
            0
        } else if forced {
            if total > ws {
                (total - ws) as nat
            } else {
                0
            }
        } else {
            last_end
        };
        Some((start, total))
    }
}

pub fn cycle_window(
    summary_interval: u32,
    total_convo: usize,
    last_window_end: usize,
    cursor_rewound: bool,
    forced: bool,
) -> (r: Option<(usize, usize)>)
    ensures
        match r {
            Some((a, b)) => cycle_window_of(
                summary_interval as nat,
                total_convo as nat,
                last_window_end as nat,
                cursor_rewound,
                forced,
            ) == Some((a as nat, b as nat)),
            None => cycle_window_of(
                summary_interval as nat,
                total_convo as nat,
                last_window_end as nat,
                cursor_rewound,
                forced,
            ) is None,
        },
{
    let ws: usize = if summary_interval == 0 {
        1
    } else {
        summary_interval as usize
    };
    let new_convo: usize = if total_convo > last_window_end {
        total_convo - last_window_end
    } else {
        0
    };
    if !forced && !cursor_rewound && (total_convo <= last_window_end || new_convo < ws) {
        return None;
    }
    let start: usize = if cursor_rewound {
        0
    } else if forced {
        if total_convo > ws {
            total_convo - ws
        } else {
            0
        }
    } else {
        last_window_end
    };
    Some((start, total_convo))
}

/// The most tool-event records a session keeps.
pub const MAX_MEMORY_TOOL_EVENTS: usize = 50;

/// Keeps the last 50 records, dropping the oldest.
pub fn cap_memory_tool_events<T>(events: &mut Vec<T>)
    ensures
        old(events)@.len() <= 50 ==> final(events)@ == old(events)@,
        old(events)@.len() > 50 ==> final(events)@ == old(events)@.skip(old(events)@.len() - 50),
{
    if events.len() > MAX_MEMORY_TOOL_EVENTS {
        let excess = events.len() - MAX_MEMORY_TOOL_EVENTS;
        let kept = events.split_off(excess);
        *events = kept;
        assert(events@ =~= old(events)@.skip(old(events)@.len() - 50));
    }
}

/// The memory status a session shows once its memory-tool stage ends:
/// idle when it went well, failed with that stage's error otherwise.
pub open spec fn cycle_status_of(error: Option<Seq<char>>) -> (Seq<char>, Option<Seq<char>>) {
    match error {
        None => ("idle"@, None),
        Some(e) => ("failed"@, Some("memory_tools: "@ + e)),
    }
}

pub fn memory_cycle_status(tool_error: Option<&str>) -> (r: (String, Option<String>))
    ensures
        (r.0@, opt_view(r.1)) == cycle_status_of(match tool_error {
            Some(e) => Some(e@),
            None => None,
        }),
{
    match tool_error {
        None => (to_string("idle"), None),
        Some(e) => {
            let mut m = to_string("memory_tools: ");
            m.append(e);
            (to_string("failed"), Some(m))
        },
    }
}

// ------------------------------------------------------------------
// Sending a memory request, and retrying it once
// ------------------------------------------------------------------

/// How a refused memory request is sent again.
#[derive(Clone, Copy, Debug, PartialEq, Eq, Structural)]
pub enum SendRetry {
    /// With `parallel_tool_calls` set to false.
    ParallelDisabled,
    /// With the tool choice left to the model.
    AutoToolChoice,
}

/// What follows a memory request.
pub enum SendDecision {
    /// The answer stands as it came.
    UseAnswer,
    Fail(String),
    Retry(SendRetry),
}

/// 0 for the answer, 1 for failing with the message, 2 and 3 for the two
/// retries.
pub open spec fn send_decision_view(d: SendDecision) -> (int, Seq<char>) {
    match d {
        SendDecision::UseAnswer => (0, seq![]),
        SendDecision::Fail(m) => (1, m@),
        SendDecision::Retry(SendRetry::ParallelDisabled) => (2, seq![]),
        SendDecision::Retry(SendRetry::AutoToolChoice) => (3, seq![]),
    }
}

/// After the first request: a llama.cpp server that rejects
/// `parallel_tool_calls` (in the send error, or in the error of a failing
/// answer) gets the request again without it; a provider that refuses a
/// forced tool choice gets it again with `auto`; a cancelled run stops; a
/// send error otherwise ends the attempt; any other answer stands.
/// `answer_error` is the error the answer reports, or the bare status text.
pub open spec fn send_decision_of(
    has_tools: bool,
    provider_id: Seq<char>,
    choice_is_auto: bool,
    send_error: Option<Seq<char>>,
    answer_ok: bool,
    answer_error: Seq<char>,
    cancelled: bool,
) -> (int, Seq<char>) {
    let llama = has_tools && provider_id == "llamacpp"@;
    match send_error {
        Some(e) => if llama && rejects_parallel_tool_calls(e) {
            if cancelled {
                (1, "Request was cancelled by user"@)
            } else {
                (2, seq![])
            }
        } else {
            (1, e)
        },
        None => if cancelled {
            (1, "Request was cancelled by user"@)
        } else if !answer_ok && llama && rejects_parallel_tool_calls(answer_error) {
            (2, seq![])
        } else if !answer_ok && has_tools && !choice_is_auto && needs_auto_tool_choice(answer_error) {
            (3, seq![])
        } else {
            (0, seq![])
        },
    }
}

pub fn memory_request_decision(
    has_tools: bool,
    provider_id: &str,
    choice_is_auto: bool,
    send_error: Option<&str>,
    answer_ok: bool,
    answer_error: &str,
    cancelled: bool,
) -> (r: SendDecision)
    ensures
        send_decision_view(r) == send_decision_of(
            has_tools,
            provider_id@,
            choice_is_auto,
            match send_error {
                Some(e) => Some(e@),
                None => None,
            },
            answer_ok,
            answer_error@,
            cancelled,
        ),
{
    let llama = has_tools && str_eq(provider_id, "llamacpp");
    match send_error {
        Some(e) => if llama && parallel_tool_calls_requires_disable(e) {
            if cancelled {
                SendDecision::Fail(to_string("Request was cancelled by user"))
            } else {
                SendDecision::Retry(SendRetry::ParallelDisabled)
            }
        } else {
            SendDecision::Fail(to_string(e))
        },
        None => if cancelled {
            SendDecision::Fail(to_string("Request was cancelled by user"))
        } else if !answer_ok && llama && parallel_tool_calls_requires_disable(answer_error) {
            SendDecision::Retry(SendRetry::ParallelDisabled)
        } else if !answer_ok && has_tools && !choice_is_auto && tool_choice_requires_auto(
            answer_error,
        ) {
            SendDecision::Retry(SendRetry::AutoToolChoice)
        } else {
            SendDecision::UseAnswer
        },
    }
}

} // verus!
