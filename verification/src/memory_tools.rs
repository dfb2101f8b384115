//! The memory tool loop: applying the model's delete, pin and unpin calls to
//! the stored memories, with a cap on how many memories one cycle may
//! delete outright, and deciding when the loop goes on.
use vstd::prelude::*;

use crate::fields::{text_arg, text_of, FieldValue};
use crate::json::ToolCall;
use crate::memory::{byte_len, clean_memory_id, sanitize_memory_id, MemoryEmbedding};
use crate::request::opt_view;
use crate::text::{
    chars_of, decimal, join, join_seq, str_eq, strings_contain, to_string, trim, trim_seq,
    u64_to_string, views,
};

verus! {

/// Whether `char::is_numeric` holds: the character is in one of Unicode's
/// number categories.
pub uninterp spec fn unicode_numeric(c: char) -> bool;

/// `char::is_numeric`.
#[verifier::external_body]
fn is_numeric_char(c: char) -> (r: bool)
    ensures
        r == unicode_numeric(c),
{
    c.is_numeric()
}

/// A memory id as the model writes them: six bytes, all numeric.
pub open spec fn looks_like_id(s: Seq<char>) -> bool {
    byte_len(s) == 6 && forall|i: int| 0 <= i < s.len() ==> unicode_numeric(#[trigger] s[i])
}

fn is_memory_id_shape(s: &str) -> (r: bool)
    ensures
        r == looks_like_id(s@),
{
    if s.len() != 6 {
        return false;
    }
    let v = chars_of(s);
    let mut i: usize = 0;
    while i < v.len()
        invariant
            i <= v@.len(),
            v@ == s@,
            forall|k: int| 0 <= k < i ==> unicode_numeric(#[trigger] v@[k]),
        decreases v@.len() - i,
    {
        if !is_numeric_char(v[i]) {
            return false;
        }
        i += 1;
    }
    true
}

/// The position of the first memory with this id.
pub open spec fn first_with_id(ms: Seq<MemoryEmbedding>, id: Seq<char>) -> Option<int>
    decreases ms.len(),
{
    if ms.len() == 0 {
        None
    } else {
        match first_with_id(ms.drop_last(), id) {
            Some(i) => Some(i),
            None => if ms.last().id@ == id {
                Some(ms.len() - 1)
            } else {
                None
            },
        }
    }
}

/// The position of the first memory with this text.
pub open spec fn first_with_text(ms: Seq<MemoryEmbedding>, text: Seq<char>) -> Option<int>
    decreases ms.len(),
{
    if ms.len() == 0 {
        None
    } else {
        match first_with_text(ms.drop_last(), text) {
            Some(i) => Some(i),
            None => if ms.last().text@ == text {
                Some(ms.len() - 1)
            } else {
                None
            },
        }
    }
}

proof fn lemma_first_with_id_bounds(ms: Seq<MemoryEmbedding>, id: Seq<char>)
    ensures
        first_with_id(ms, id) matches Some(i) ==> 0 <= i < ms.len() && ms[i].id@ == id,
    decreases ms.len(),
{
    if ms.len() > 0 {
        lemma_first_with_id_bounds(ms.drop_last(), id);
    }
}

proof fn lemma_first_with_text_bounds(ms: Seq<MemoryEmbedding>, text: Seq<char>)
    ensures
        first_with_text(ms, text) matches Some(i) ==> 0 <= i < ms.len() && ms[i].text@ == text,
    decreases ms.len(),
{
    if ms.len() > 0 {
        lemma_first_with_text_bounds(ms.drop_last(), text);
    }
}

fn find_by_id(ms: &Vec<MemoryEmbedding>, id: &str) -> (r: Option<usize>)
    ensures
        match r {
            Some(i) => first_with_id(ms@, id@) == Some(i as int),
            None => first_with_id(ms@, id@) is None,
        },
        r matches Some(i) ==> i < ms@.len(),
{
    let mut i: usize = 0;
    while i < ms.len()
        invariant
            i <= ms@.len(),
            first_with_id(ms@.take(i as int), id@) is None,
        decreases ms@.len() - i,
    {
        assert(ms@.take(i + 1).drop_last() =~= ms@.take(i as int));
        if str_eq(ms[i].id.as_str(), id) {
            proof {
                lemma_first_with_id_prefix(ms@, id@, i as int);
            }
            return Some(i);
        }
        i += 1;
    }
    assert(ms@.take(ms@.len() as int) =~= ms@);
    None
}

/// When no memory before `i` has the id and the one at `i` has it, `i` is
/// the first.
proof fn lemma_first_with_id_prefix(ms: Seq<MemoryEmbedding>, id: Seq<char>, i: int)
    requires
        0 <= i < ms.len(),
        first_with_id(ms.take(i), id) is None,
        ms[i].id@ == id,
    ensures
        first_with_id(ms, id) == Some(i),
    decreases ms.len() - i,
{
    if i + 1 < ms.len() {
        assert(ms.drop_last().take(i) =~= ms.take(i));
        lemma_first_with_id_prefix(ms.drop_last(), id, i);
    } else {
        assert(ms.drop_last() =~= ms.take(i));
    }
}

proof fn lemma_first_with_text_prefix(ms: Seq<MemoryEmbedding>, text: Seq<char>, i: int)
    requires
        0 <= i < ms.len(),
        first_with_text(ms.take(i), text) is None,
        ms[i].text@ == text,
    ensures
        first_with_text(ms, text) == Some(i),
    decreases ms.len() - i,
{
    if i + 1 < ms.len() {
        assert(ms.drop_last().take(i) =~= ms.take(i));
        lemma_first_with_text_prefix(ms.drop_last(), text, i);
    } else {
        assert(ms.drop_last() =~= ms.take(i));
    }
}

fn find_by_text(ms: &Vec<MemoryEmbedding>, text: &str) -> (r: Option<usize>)
    ensures
        match r {
            Some(i) => first_with_text(ms@, text@) == Some(i as int),
            None => first_with_text(ms@, text@) is None,
        },
        r matches Some(i) ==> i < ms@.len(),
{
    let mut i: usize = 0;
    while i < ms.len()
        invariant
            i <= ms@.len(),
            first_with_text(ms@.take(i as int), text@) is None,
        decreases ms@.len() - i,
    {
        assert(ms@.take(i + 1).drop_last() =~= ms@.take(i as int));
        if str_eq(ms[i].text.as_str(), text) {
            proof {
                lemma_first_with_text_prefix(ms@, text@, i as int);
            }
            return Some(i);
        }
        i += 1;
    }
    assert(ms@.take(ms@.len() as int) =~= ms@);
    None
}

/// The memory a delete call names: by id when the cleaned argument looks
/// like one, else by its exact text.
pub open spec fn delete_target(ms: Seq<MemoryEmbedding>, arg: Seq<char>) -> Option<int> {
    let id = clean_memory_id(arg);
    if looks_like_id(id) {
        first_with_id(ms, id)
    } else {
        first_with_text(ms, arg)
    }
}

pub fn find_delete_target(ms: &Vec<MemoryEmbedding>, arg: &str) -> (r: Option<usize>)
    ensures
        match r {
            Some(i) => delete_target(ms@, arg@) == Some(i as int),
            None => delete_target(ms@, arg@) is None,
        },
        r matches Some(i) ==> i < ms@.len(),
{
    let id = sanitize_memory_id(arg);
    if is_memory_id_shape(id.as_str()) {
        find_by_id(ms, id.as_str())
    } else {
        find_by_text(ms, arg)
    }
}

/// A tool call of the memory loop, with the arguments it may carry.
/// `high_confidence` says whether the stated confidence of a delete (or the
/// configured default) reaches the threshold for deleting outright.
pub struct MemoryToolCall {
    pub name: String,
    pub text: FieldValue,
    pub id: FieldValue,
    pub high_confidence: bool,
}

/// What applying a call did.
pub enum ToolOutcome {
    /// The memory at `index` was moved to cold storage; `forced` when only the
    /// cap on outright deletions kept it.
    SoftDeleted { index: usize, forced: bool },
    /// This memory was removed.
    HardDeleted { memory: MemoryEmbedding },
    Pinned { index: usize },
    Unpinned { index: usize },
    /// The call names no memory there is.
    NotFound,
    /// The call lacks the argument that names its target; nothing is done.
    MissingTarget,
    /// A memory is to be created; the caller does that.
    CreateRequested,
    Done,
    Unsupported,
}

/// A memory as its id, text, pinned and cold flags, when it was observed,
/// and its embedding's length, dimensions and source version.
pub type MemoryView = (
    Seq<char>,
    Seq<char>,
    bool,
    bool,
    Option<u64>,
    usize,
    Option<usize>,
    Option<Seq<char>>,
);

pub open spec fn memory_view(m: MemoryEmbedding) -> MemoryView {
    (
        m.id@,
        m.text@,
        m.is_pinned,
        m.is_cold,
        m.observed_at,
        m.embedding_len,
        m.embedding_dimensions,
        opt_view(m.embedding_source_version),
    )
}

pub open spec fn memories_view(ms: Seq<MemoryEmbedding>) -> Seq<MemoryView> {
    ms.map_values(|m: MemoryEmbedding| memory_view(m))
}

/// The memories with the one at `i` flagged.
pub open spec fn with_flags(ms: Seq<MemoryView>, i: int, pinned: bool, cold: bool) -> Seq<MemoryView> {
    ms.update(i, (ms[i].0, ms[i].1, pinned, cold, ms[i].4, ms[i].5, ms[i].6, ms[i].7))
}

/// The effect of one call on the memories and the count of outright
/// deletions, and what it reports.
pub open spec fn tool_step(
    ms: Seq<MemoryEmbedding>,
    hard: nat,
    max_hard: nat,
    name: Seq<char>,
    text: Option<Seq<char>>,
    id: Option<Seq<char>>,
    high: bool,
) -> (Seq<MemoryView>, nat, int) {
    let v = memories_view(ms);
    if name == "delete_memory"@ {
        match text {
            None => (v, hard, 5),
            Some(t) => match delete_target(ms, t) {
                None => (v, hard, 4),
                Some(i) => if !high || hard >= max_hard {
                    (with_flags(v, i, v[i].2, true), hard, 0)
                } else {
                    (v.remove(i), hard + 1, 1)
                },
            },
        }
    } else if name == "pin_memory"@ || name == "unpin_memory"@ {
        match id {
            None => (v, hard, 5),
            Some(raw) => match first_with_id(ms, clean_memory_id(raw)) {
                None => (v, hard, 4),
                Some(i) => if name == "pin_memory"@ {
                    (with_flags(v, i, true, v[i].3), hard, 2)
                } else {
                    (with_flags(v, i, false, v[i].3), hard, 3)
                },
            },
        }
    } else if name == "create_memory"@ {
        (v, hard, 6)
    } else if name == "done"@ {
        (v, hard, 7)
    } else {
        (v, hard, 8)
    }
}

/// The number that stands for an outcome in `tool_step`.
pub open spec fn outcome_code(o: ToolOutcome) -> int {
    match o {
        ToolOutcome::SoftDeleted { .. } => 0,
        ToolOutcome::HardDeleted { .. } => 1,
        ToolOutcome::Pinned { .. } => 2,
        ToolOutcome::Unpinned { .. } => 3,
        ToolOutcome::NotFound => 4,
        ToolOutcome::MissingTarget => 5,
        ToolOutcome::CreateRequested => 6,
        ToolOutcome::Done => 7,
        ToolOutcome::Unsupported => 8,
    }
}

fn set_flags(ms: &mut Vec<MemoryEmbedding>, i: usize, pinned: bool, cold: bool)
    requires
        i < old(ms)@.len(),
    ensures
        final(ms)@.len() == old(ms)@.len(),
        memories_view(final(ms)@) == with_flags(memories_view(old(ms)@), i as int, pinned, cold),
        forall|k: int|
            0 <= k < old(ms)@.len() && k != i ==> #[trigger] final(ms)@[k] == old(ms)@[k],
        final(ms)@[i as int].observed_at == old(ms)@[i as int].observed_at,
{
    let ghost before = memories_view(ms@);
    let mut m = ms.remove(i);
    m.is_pinned = pinned;
    m.is_cold = cold;
    ms.insert(i, m);
    assert(memories_view(ms@) =~= with_flags(before, i as int, pinned, cold));
}

/// Applies one call: deletes, pins or unpins the memory it names, keeping
/// outright deletions within `max_hard_deletes`, or reports what the
/// caller is to do.
pub fn apply_memory_tool_call(
    memories: &mut Vec<MemoryEmbedding>,
    hard_deletes: &mut usize,
    max_hard_deletes: usize,
    call: &MemoryToolCall,
) -> (r: ToolOutcome)
    ensures
        tool_step(
            old(memories)@,
            *old(hard_deletes) as nat,
            max_hard_deletes as nat,
            call.name@,
            text_arg(call.text),
            text_arg(call.id),
            call.high_confidence,
        ) == (memories_view(final(memories)@), *final(hard_deletes) as nat, outcome_code(r)),
        match r {
            ToolOutcome::SoftDeleted { index, forced } => index < old(memories)@.len() && forced
                == (call.high_confidence && *old(hard_deletes) >= max_hard_deletes),
            ToolOutcome::HardDeleted { memory } => exists|i: int|
                0 <= i < old(memories)@.len() && old(memories)@[i] == memory && final(memories)@
                    == old(memories)@.remove(i),
            ToolOutcome::Pinned { index } => index < old(memories)@.len(),
            ToolOutcome::Unpinned { index } => index < old(memories)@.len(),
            _ => final(memories)@ == old(memories)@,
        },
{
    let ghost ms0 = memories@;
    if str_eq(call.name.as_str(), "delete_memory") {
        let t = match text_of(&call.text) {
            Some(t) => t,
            None => {
                return ToolOutcome::MissingTarget;
            },
        };
        let i = match find_delete_target(memories, t) {
            Some(i) => i,
            None => {
                return ToolOutcome::NotFound;
            },
        };
        let forced = call.high_confidence && *hard_deletes >= max_hard_deletes;
        if !call.high_confidence || forced {
            let pinned = memories[i].is_pinned;
            set_flags(memories, i, pinned, true);
            ToolOutcome::SoftDeleted { index: i, forced }
        } else {
            let ghost v0 = memories_view(memories@);
            let m = memories.remove(i);
            assert(memories_view(memories@) =~= v0.remove(i as int));
            *hard_deletes = *hard_deletes + 1;
            ToolOutcome::HardDeleted { memory: m }
        }
    } else if str_eq(call.name.as_str(), "pin_memory") || str_eq(call.name.as_str(), "unpin_memory") {
        let raw = match text_of(&call.id) {
            Some(t) => t,
            None => {
                return ToolOutcome::MissingTarget;
            },
        };
        let id = sanitize_memory_id(raw);
        let i = match find_by_id(memories, id.as_str()) {
            Some(i) => i,
            None => {
                return ToolOutcome::NotFound;
            },
        };
        let cold = memories[i].is_cold;
        if str_eq(call.name.as_str(), "pin_memory") {
            set_flags(memories, i, true, cold);
            ToolOutcome::Pinned { index: i }
        } else {
            set_flags(memories, i, false, cold);
            ToolOutcome::Unpinned { index: i }
        }
    } else if str_eq(call.name.as_str(), "create_memory") {
        ToolOutcome::CreateRequested
    } else if str_eq(call.name.as_str(), "done") {
        ToolOutcome::Done
    } else {
        ToolOutcome::Unsupported
    }
}

/// One call deletes at most one memory outright, only while under the cap,
/// and otherwise keeps the number of memories.
pub proof fn lemma_tool_step_counts(
    ms: Seq<MemoryEmbedding>,
    hard: nat,
    max_hard: nat,
    name: Seq<char>,
    text: Option<Seq<char>>,
    id: Option<Seq<char>>,
    high: bool,
)
    ensures
        ({
            let (v, h, c) = tool_step(ms, hard, max_hard, name, text, id, high);
            &&& c == 1 ==> h == hard + 1 && hard < max_hard && v.len() + 1 == ms.len()
            &&& c != 1 ==> h == hard && v.len() == ms.len()
            &&& c == 7 ==> name == "done"@
        }),
{
    let v = memories_view(ms);
    if name == "delete_memory"@ {
        match text {
            Some(t) => match delete_target(ms, t) {
                Some(i) => {
                    let id = clean_memory_id(t);
                    if looks_like_id(id) {
                        lemma_first_with_id_bounds(ms, id);
                    } else {
                        lemma_first_with_text_bounds(ms, t);
                    }
                },
                None => {},
            },
            None => {},
        }
    } else if name == "pin_memory"@ || name == "unpin_memory"@ {
        match id {
            Some(raw) => {
                lemma_first_with_id_bounds(ms, clean_memory_id(raw));
            },
            None => {},
        }
    }
}

pub open spec fn outcome_codes(os: Seq<ToolOutcome>) -> Seq<int> {
    os.map_values(|o: ToolOutcome| outcome_code(o))
}

/// `states[j]` and `hs[j]` are the memories and the count of outright
/// deletions before call `j`, and each call `j < codes.len()` takes them to
/// `states[j + 1]` and `hs[j + 1]` as `tool_step` says, reporting `codes[j]`.
pub open spec fn calls_applied(
    states: Seq<Seq<MemoryEmbedding>>,
    hs: Seq<nat>,
    calls: Seq<MemoryToolCall>,
    max_hard: nat,
    codes: Seq<int>,
) -> bool {
    &&& states.len() == codes.len() + 1
    &&& hs.len() == codes.len() + 1
    &&& codes.len() <= calls.len()
    &&& forall|j: int|
        0 <= j < codes.len() ==> tool_step(
            states[j],
            hs[j],
            max_hard,
            calls[j].name@,
            text_arg(calls[j].text),
            text_arg(calls[j].id),
            calls[j].high_confidence,
        ) == (memories_view(states[j + 1]), hs[j + 1], #[trigger] codes[j])
}

/// Applies the calls in order and stops after `done`. The outcomes come
/// back one per call applied, with whether `done` was seen. However the
/// calls read, outright deletions stay within `max_hard_deletes` once they
/// start within it, and every memory that leaves was deleted outright.
pub fn apply_memory_tool_calls(
    memories: &mut Vec<MemoryEmbedding>,
    hard_deletes: &mut usize,
    max_hard_deletes: usize,
    calls: &Vec<MemoryToolCall>,
) -> (r: (Vec<ToolOutcome>, bool))
    ensures
        r.0@.len() <= calls@.len(),
        r.1 ==> r.0@.len() > 0 && outcome_code(r.0@.last()) == 7 && calls@[r.0@.len() - 1].name@
            == "done"@,
        !r.1 ==> r.0@.len() == calls@.len(),
        forall|k: int| 0 <= k < r.0@.len() - 1 ==> outcome_code(#[trigger] r.0@[k]) != 7,
        *old(hard_deletes) <= max_hard_deletes ==> *final(hard_deletes) <= max_hard_deletes,
        *old(hard_deletes) <= *final(hard_deletes),
        final(memories)@.len() + (*final(hard_deletes) - *old(hard_deletes)) == old(
            memories,
        )@.len(),
        exists|states: Seq<Seq<MemoryEmbedding>>, hs: Seq<nat>|
            #![trigger calls_applied(states, hs, calls@, max_hard_deletes as nat, outcome_codes(r.0@))]
            {
                &&& calls_applied(states, hs, calls@, max_hard_deletes as nat, outcome_codes(r.0@))
                &&& states[0] == old(memories)@
                &&& hs[0] == *old(hard_deletes) as nat
                &&& states.last() == final(memories)@
                &&& hs.last() == *final(hard_deletes) as nat
            },
{
    let mut outcomes: Vec<ToolOutcome> = Vec::new();
    let mut i: usize = 0;
    let ghost h0 = *hard_deletes;
    let ghost n0 = memories@.len();
    let ghost mut states: Seq<Seq<MemoryEmbedding>> = seq![memories@];
    let ghost mut hs: Seq<nat> = seq![*hard_deletes as nat];
    while i < calls.len()
        invariant
            i <= calls@.len(),
            outcomes@.len() == i,
            forall|k: int| 0 <= k < i ==> outcome_code(#[trigger] outcomes@[k]) != 7,
            h0 == *old(hard_deletes),
            n0 == old(memories)@.len(),
            h0 <= max_hard_deletes ==> *hard_deletes <= max_hard_deletes,
            h0 <= *hard_deletes,
            memories@.len() + (*hard_deletes - h0) == n0,
            calls_applied(states, hs, calls@, max_hard_deletes as nat, outcome_codes(outcomes@)),
            states[0] == old(memories)@,
            hs[0] == h0 as nat,
            states.last() == memories@,
            hs.last() == *hard_deletes as nat,
        decreases calls@.len() - i,
    {
        let ghost before_h = *hard_deletes;
        let ghost old_ms = memories@;
        let o = apply_memory_tool_call(memories, hard_deletes, max_hard_deletes, &calls[i]);
        proof {
            lemma_tool_step_counts(
                old_ms,
                before_h as nat,
                max_hard_deletes as nat,
                calls@[i as int].name@,
                text_arg(calls@[i as int].text),
                text_arg(calls@[i as int].id),
                calls@[i as int].high_confidence,
            );
            assert(memories_view(memories@).len() == memories@.len());
        }
        let done = match o {
            ToolOutcome::Done => true,
            _ => false,
        };
        let ghost prev_codes = outcome_codes(outcomes@);
        let ghost code = outcome_code(o);
        outcomes.push(o);
        proof {
            let ghost prev_states = states;
            let ghost prev_hs = hs;
            states = states.push(memories@);
            hs = hs.push(*hard_deletes as nat);
            assert(outcome_codes(outcomes@) =~= prev_codes.push(code));
            assert forall|j: int| 0 <= j < outcome_codes(outcomes@).len() implies tool_step(
                states[j],
                hs[j],
                max_hard_deletes as nat,
                calls@[j].name@,
                text_arg(calls@[j].text),
                text_arg(calls@[j].id),
                calls@[j].high_confidence,
            ) == (memories_view(states[j + 1]), hs[j + 1], #[trigger] outcome_codes(outcomes@)[j]) by {
                if j < prev_codes.len() {
                    assert(prev_codes[j] == outcome_codes(outcomes@)[j]);
                    assert(states[j] == prev_states[j] && states[j + 1] == prev_states[j + 1]);
                }
            }
        }
        i += 1;
        if done {
            assert(calls_applied(states, hs, calls@, max_hard_deletes as nat, outcome_codes(outcomes@)));
            assert(states[0] == old(memories)@ && hs[0] == *old(hard_deletes) as nat);
            assert(states.last() == memories@ && hs.last() == *hard_deletes as nat);
            return (outcomes, true);
        }
    }
    (outcomes, false)
}

// ------------------------------------------------------------------
// Arguments and the loop around the calls
// ------------------------------------------------------------------

/// The text a create call carries: its `text` argument, else the raw
/// arguments as the model sent them.
pub fn extract_text_argument(text: &FieldValue, raw_arguments: &Option<String>) -> (r: Option<
    String,
>)
    ensures
        match text_arg(*text) {
            Some(t) => r matches Some(s) && s@ == t,
            None => match raw_arguments {
                Some(raw) => r matches Some(s) && s@ == raw@,
                None => r is None,
            },
        },
{
    match text {
        FieldValue::Text(t) => Some(t.clone()),
        _ => match raw_arguments {
            Some(raw) => Some(raw.clone()),
            None => None,
        },
    }
}

pub open spec fn allowed_categories() -> Seq<Seq<char>> {
    seq![
        "character_trait"@,
        "relationship"@,
        "plot_event"@,
        "world_detail"@,
        "preference"@,
        "other"@,
    ]
}

/// The trimmed category when it is one of the allowed ones; an error naming
/// the problem otherwise.
pub open spec fn category_result(category: Option<Seq<char>>) -> Result<Seq<char>, Seq<char>> {
    match category {
        Some(c) if trim_seq(c).len() != 0 => if allowed_categories().contains(trim_seq(c)) {
            Ok(trim_seq(c))
        } else {
            Err("invalid category '"@ + trim_seq(c) + "'; expected one of: "@ + join_seq(
                allowed_categories(),
                ", "@,
            ))
        },
        _ => Err("missing required category"@),
    }
}

pub fn extract_required_memory_category(category: &FieldValue) -> (r: Result<String, String>)
    ensures
        match r {
            Ok(c) => category_result(text_arg(*category)) == Ok::<Seq<char>, Seq<char>>(c@),
            Err(e) => category_result(text_arg(*category)) == Err::<Seq<char>, Seq<char>>(e@),
        },
{
    let raw = match text_of(category) {
        Some(t) => t,
        None => {
            return Err(to_string("missing required category"));
        },
    };
    let c = trim(raw);
    if c.unicode_len() == 0 {
        return Err(to_string("missing required category"));
    }
    let allowed = vec![
        to_string("character_trait"),
        to_string("relationship"),
        to_string("plot_event"),
        to_string("world_detail"),
        to_string("preference"),
        to_string("other"),
    ];
    assert(views(allowed@) =~= allowed_categories());
    if strings_contain(&allowed, c.as_str()) {
        Ok(c)
    } else {
        let mut m = to_string("invalid category '");
        m.append(c.as_str());
        m.append("'; expected one of: ");
        let all = crate::text::join(&allowed, ", ");
        m.append(all.as_str());
        Err(m)
    }
}

/// How many passes the loop may make: the configured cap (at least one)
/// when passes repeat, else one.
pub fn max_loop_iterations(recursive: bool, hard_cap: u32) -> (r: usize)
    ensures
        r == (if recursive {
            if hard_cap >= 1 {
                hard_cap as int
            } else {
                1
            }
        } else {
            1
        }),
{
    if recursive {
        if hard_cap >= 1 {
            hard_cap as usize
        } else {
            1
        }
    } else {
        1
    }
}

/// Whether the loop ends after a pass: no calls came, `done` came, passes
/// do not repeat, or nothing could be reported back.
pub fn memory_loop_should_stop(
    calls_empty: bool,
    saw_done: bool,
    recursive: bool,
    results_empty: bool,
) -> (r: bool)
    ensures
        r == (calls_empty || saw_done || !recursive || results_empty),
{
    calls_empty || saw_done || !recursive || results_empty
}

/// The request id of pass `iteration` (from zero): the cycle's id, with
/// `:loop-` and the pass number from one when passes repeat.
pub fn iteration_request_id(request_id: Option<&str>, recursive: bool, iteration: usize) -> (r:
    Option<String>)
    requires
        iteration < usize::MAX,
    ensures
        match request_id {
            None => r is None,
            Some(id) => r matches Some(s) && s@ == (if recursive {
                id@ + ":loop-"@ + crate::text::decimal((iteration + 1) as nat)
            } else {
                id@
            }),
        },
{
    match request_id {
        None => None,
        Some(id) => {
            let mut s = to_string(id);
            if recursive {
                s.append(":loop-");
                let n = crate::text::u64_to_string((iteration + 1) as u64);
                s.append(n.as_str());
            }
            Some(s)
        },
    }
}

// ------------------------------------------------------------------
// Asking for tool calls, with a text fallback
// ------------------------------------------------------------------

/// Why the model is asked again to answer in text.
#[derive(Clone, Copy, Debug, PartialEq, Eq, Structural)]
pub enum FallbackReason {
    HttpError,
    EmptyToolCalls,
    RequestError,
}

/// Where a request for memory tool calls stands.
#[derive(Clone, Copy, Debug, PartialEq, Eq, Structural)]
pub enum ToolRequestStage {
    /// The request with tools was sent.
    Tools,
    /// The request for a text answer was sent.
    Fallback(FallbackReason),
}

/// What came back from the last request.
pub enum ToolRequestEvent {
    /// The request could not be made; its error.
    SendFailed(String),
    /// An answer: whether its status was a success, the tool calls read
    /// from it, the message for a failing status (see
    /// `provider_failure_message`), and its text when it has one.
    Answer { ok: bool, calls: Vec<ToolCall>, failure: String, text: Option<String> },
}

/// What to do next.
pub enum ToolRequestAction {
    /// Use these tool calls, those of the answer.
    UseToolCalls(Vec<ToolCall>),
    /// Send the request again without tools, asking for a text answer.
    RetryAsText,
    /// Read the operations from this text; `source` names the path taken.
    ParseText { text: String, source: &'static str },
    Fail(String),
}

pub open spec fn fallback_source(reason: FallbackReason) -> Seq<char> {
    match reason {
        FallbackReason::HttpError => "text_fallback_after_http_error"@,
        FallbackReason::EmptyToolCalls => "text_fallback_after_empty_tool_calls"@,
        FallbackReason::RequestError => "text_fallback_after_request_error"@,
    }
}

/// The view of an action: 0 use the calls, 1 retry in text, 2 parse the
/// text from the source, 3 fail with the message.
pub open spec fn action_view(a: ToolRequestAction) -> (int, Seq<char>, Seq<char>) {
    match a {
        ToolRequestAction::UseToolCalls(_) => (0, seq![], seq![]),
        ToolRequestAction::RetryAsText => (1, seq![], seq![]),
        ToolRequestAction::ParseText { text, source } => (2, text@, source@),
        ToolRequestAction::Fail(m) => (3, m@, seq![]),
    }
}

/// One step: after the request with tools, an answer with tool calls is
/// used; a failed request, a failing status or an answer without tool
/// calls leads to a text request, unless the run was cancelled.  After the
/// text request, a failure ends the attempt with its message, and the
/// answer's text is read, or its absence is an error.
pub open spec fn tool_request_step(
    stage: ToolRequestStage,
    failed: Option<Seq<char>>,
    ok: bool,
    has_tool_calls: bool,
    failure: Seq<char>,
    text: Option<Seq<char>>,
    cancelled: bool,
) -> (ToolRequestStage, (int, Seq<char>, Seq<char>)) {
    match stage {
        ToolRequestStage::Tools => {
            let reason = if failed is Some {
                FallbackReason::RequestError
            } else if !ok {
                FallbackReason::HttpError
            } else {
                FallbackReason::EmptyToolCalls
            };
            if failed is None && ok && has_tool_calls {
                (stage, (0, seq![], seq![]))
            } else if cancelled {
                (stage, (3, "Request was cancelled by user"@, seq![]))
            } else {
                (ToolRequestStage::Fallback(reason), (1, seq![], seq![]))
            }
        },
        ToolRequestStage::Fallback(reason) => match failed {
            Some(e) => (stage, (3, e, seq![])),
            None => if !ok {
                (stage, (3, failure, seq![]))
            } else {
                match text {
                    Some(t) => (stage, (2, t, fallback_source(reason))),
                    None => (
                        stage,
                        (3, "memory fallback returned neither tool calls nor text output"@, seq![]),
                    ),
                }
            },
        },
    }
}

pub open spec fn event_failed(e: ToolRequestEvent) -> Option<Seq<char>> {
    match e {
        ToolRequestEvent::SendFailed(m) => Some(m@),
        _ => None,
    }
}

pub fn next_tool_request_step(stage: ToolRequestStage, event: ToolRequestEvent, cancelled: bool) -> (r: (
    ToolRequestStage,
    ToolRequestAction,
))
    ensures
        (r.0, action_view(r.1)) == match event {
            ToolRequestEvent::SendFailed(m) => tool_request_step(
                stage,
                Some(m@),
                false,
                false,
                seq![],
                None,
                cancelled,
            ),
            ToolRequestEvent::Answer { ok, calls, failure, text } => tool_request_step(
                stage,
                None,
                ok,
                calls@.len() > 0,
                failure@,
                opt_view(text),
                cancelled,
            ),
        },
        r.1 matches ToolRequestAction::UseToolCalls(used) ==> (event matches ToolRequestEvent::Answer {
            calls,
            ..
        } && used@ == calls@ && used@.len() > 0),
{
    match stage {
        ToolRequestStage::Tools => {
            let (failed, ok, calls) = match event {
                ToolRequestEvent::SendFailed(_) => (true, false, Vec::new()),
                ToolRequestEvent::Answer { ok, calls, .. } => (false, ok, calls),
            };
            let reason = if failed {
                FallbackReason::RequestError
            } else if !ok {
                FallbackReason::HttpError
            } else {
                FallbackReason::EmptyToolCalls
            };
            if !failed && ok && calls.len() > 0 {
                (stage, ToolRequestAction::UseToolCalls(calls))
            } else if cancelled {
                (stage, ToolRequestAction::Fail(to_string("Request was cancelled by user")))
            } else {
                (ToolRequestStage::Fallback(reason), ToolRequestAction::RetryAsText)
            }
        },
        ToolRequestStage::Fallback(reason) => match event {
            ToolRequestEvent::SendFailed(e) => (stage, ToolRequestAction::Fail(e)),
            ToolRequestEvent::Answer { ok, failure, text, .. } => if !ok {
                (stage, ToolRequestAction::Fail(failure))
            } else {
                match text {
                    Some(t) => {
                        let source = match reason {
                            FallbackReason::HttpError => "text_fallback_after_http_error",
                            FallbackReason::EmptyToolCalls => "text_fallback_after_empty_tool_calls",
                            FallbackReason::RequestError => "text_fallback_after_request_error",
                        };
                        (stage, ToolRequestAction::ParseText { text: t, source })
                    },
                    None => (
                        stage,
                        ToolRequestAction::Fail(
                            to_string("memory fallback returned neither tool calls nor text output"),
                        ),
                    ),
                }
            },
        },
    }
}


// ------------------------------------------------------------------
// Repairing memory categories
// ------------------------------------------------------------------

/// The instruction that opens a category repair request.
pub const MEMORY_TAG_REPAIR_SYSTEM_PROMPT: &'static str =
    "Classify each memory text with exactly one valid category. Use only retag_memory tool calls.";

/// The `i`-th text (from 0) as the repair request lists it: `i + 1. text`.
pub open spec fn numbered_text(i: int, t: Seq<char>) -> Seq<char> {
    decimal((i + 1) as nat) + ". "@ + t
}

pub open spec fn numbered_texts(texts: Seq<Seq<char>>) -> Seq<Seq<char>> {
    Seq::new(texts.len(), |i: int| numbered_text(i, texts[i]))
}

/// The request to repair the categories of these texts: the valid
/// categories, then the texts numbered from 1, one per line.
pub open spec fn tag_repair_text(texts: Seq<Seq<char>>) -> Seq<char> {
    "Valid categories: "@ + join_seq(allowed_categories(), ", "@)
        + ".\nReturn one retag_memory tool call per text.\nTexts:\n"@ + join_seq(
        numbered_texts(texts),
        "\n"@,
    )
}

pub fn tag_repair_user_message(texts: &Vec<String>) -> (r: String)
    ensures
        r@ == tag_repair_text(views(texts@)),
{
    let ghost all = numbered_texts(views(texts@));
    let mut lines: Vec<String> = Vec::new();
    let mut i: usize = 0;
    while i < texts.len()
        invariant
            i <= texts@.len(),
            all == numbered_texts(views(texts@)),
            views(lines@) == all.take(i as int),
        decreases texts@.len() - i,
    {
        let n: u64 = (i + 1) as u64;
        assert(n as nat == (i as int + 1) as nat);
        let mut line = u64_to_string(n);
        assert(line@ == decimal((i as int + 1) as nat));
        line.append(". ");
        line.append(texts[i].as_str());
        assert(views(texts@)[i as int] == texts@[i as int]@);
        assert(line@ =~= numbered_text(i as int, texts@[i as int]@));
        assert(all[i as int] == numbered_text(i as int, views(texts@)[i as int]));
        let ghost before = views(lines@);
        lines.push(line);
        assert(views(lines@) =~= before.push(all[i as int]));
        assert(views(lines@) =~= all.take(i + 1));
        i += 1;
    }
    assert(all.take(i as int) =~= all);
    let allowed = vec![
        to_string("character_trait"),
        to_string("relationship"),
        to_string("plot_event"),
        to_string("world_detail"),
        to_string("preference"),
        to_string("other"),
    ];
    assert(views(allowed@) =~= allowed_categories());
    let mut m = to_string("Valid categories: ");
    let cats = join(&allowed, ", ");
    m.append(cats.as_str());
    m.append(".\nReturn one retag_memory tool call per text.\nTexts:\n");
    let listed = join(&lines, "\n");
    m.append(listed.as_str());
    m
}

/// A call of the category repair: its name and its `text` and `category`
/// arguments.
pub struct TagRepairCall {
    pub name: String,
    pub text: FieldValue,
    pub category: FieldValue,
}

pub open spec fn pairs_view(ps: Seq<(String, String)>) -> Seq<(Seq<char>, Seq<char>)> {
    ps.map_values(|p: (String, String)| (p.0@, p.1@))
}

/// The position of the first pair with this text.
pub open spec fn pair_index(ps: Seq<(Seq<char>, Seq<char>)>, k: Seq<char>) -> Option<int>
    decreases ps.len(),
{
    if ps.len() == 0 {
        None
    } else if ps[0].0 == k {
        Some(0)
    } else {
        match pair_index(ps.drop_first(), k) {
            Some(j) => Some(j + 1),
            None => None,
        }
    }
}

proof fn lemma_pair_index(ps: Seq<(Seq<char>, Seq<char>)>, k: Seq<char>)
    ensures
        match pair_index(ps, k) {
            Some(j) => 0 <= j < ps.len() && ps[j].0 == k && forall|m: int| 0 <= m < j ==> ps[m].0 != k,
            None => forall|m: int| 0 <= m < ps.len() ==> ps[m].0 != k,
        },
    decreases ps.len(),
{
    if ps.len() > 0 && ps[0].0 != k {
        lemma_pair_index(ps.drop_first(), k);
        assert forall|m: int| 1 <= m < ps.len() implies ps[m].0 == ps.drop_first()[m - 1].0 by {}
    }
}

/// Sets the category of a text: in place when the text is there, else
/// at the end (as a map keyed by text keeps the last value given).
pub open spec fn upsert(ps: Seq<(Seq<char>, Seq<char>)>, k: Seq<char>, v: Seq<char>) -> Seq<
    (Seq<char>, Seq<char>),
> {
    match pair_index(ps, k) {
        Some(j) => ps.update(j, (k, v)),
        None => ps.push((k, v)),
    }
}

/// The repairs so far after one more call: a `retag_memory` call with a
/// text and a valid category sets that text's category.
pub open spec fn repair_step(ps: Seq<(Seq<char>, Seq<char>)>, c: TagRepairCall) -> Seq<
    (Seq<char>, Seq<char>),
> {
    if c.name@ == "retag_memory"@ && text_arg(c.text) is Some && category_result(
        text_arg(c.category),
    ) is Ok {
        upsert(ps, text_arg(c.text)->0, category_result(text_arg(c.category))->Ok_0)
    } else {
        ps
    }
}

/// The categories the calls give, one per text, the last call for a text
/// winning.
pub open spec fn repairs_of(calls: Seq<TagRepairCall>) -> Seq<(Seq<char>, Seq<char>)>
    decreases calls.len(),
{
    if calls.len() == 0 {
        seq![]
    } else {
        repair_step(repairs_of(calls.drop_last()), calls.last())
    }
}

fn find_text(ps: &Vec<(String, String)>, k: &str) -> (r: Option<usize>)
    ensures
        match r {
            Some(j) => pair_index(pairs_view(ps@), k@) == Some(j as int),
            None => pair_index(pairs_view(ps@), k@) is None,
        },
{
    let ghost pv = pairs_view(ps@);
    let mut i: usize = 0;
    while i < ps.len()
        invariant
            i <= ps@.len(),
            pv == pairs_view(ps@),
            forall|m: int| 0 <= m < i ==> pv[m].0 != k@,
        decreases ps@.len() - i,
    {
        assert(pv[i as int] == (ps@[i as int].0@, ps@[i as int].1@));
        if str_eq(ps[i].0.as_str(), k) {
            proof {
                lemma_pair_index(pv, k@);
            }
            return Some(i);
        }
        i += 1;
    }
    proof {
        lemma_pair_index(pv, k@);
    }
    None
}

/// The text-to-category pairs that the repair calls give.
pub fn memory_tag_repairs(calls: &Vec<TagRepairCall>) -> (r: Vec<(String, String)>)
    ensures
        pairs_view(r@) == repairs_of(calls@),
{
    let mut out: Vec<(String, String)> = Vec::new();
    let mut i: usize = 0;
    assert(calls@.take(0) =~= Seq::<TagRepairCall>::empty());
    assert(pairs_view(out@) =~= Seq::<(Seq<char>, Seq<char>)>::empty());
    while i < calls.len()
        invariant
            i <= calls@.len(),
            pairs_view(out@) == repairs_of(calls@.take(i as int)),
        decreases calls@.len() - i,
    {
        assert(calls@.take(i + 1).drop_last() =~= calls@.take(i as int));
        assert(calls@.take(i + 1).last() == calls@[i as int]);
        let c = &calls[i];
        if str_eq(c.name.as_str(), "retag_memory") {
            match text_of(&c.text) {
                Some(t) => {
                    match extract_required_memory_category(&c.category) {
                        Ok(cat) => {
                            let ghost before = pairs_view(out@);
                            proof {
                                lemma_pair_index(before, t@);
                            }
                            match find_text(&out, t) {
                                Some(j) => {
                                    out.set(j, (to_string(t), cat));
                                    assert(pairs_view(out@) =~= before.update(j as int, (t@, cat@)));
                                },
                                None => {
                                    out.push((to_string(t), cat));
                                    assert(pairs_view(out@) =~= before.push((t@, cat@)));
                                },
                            }
                        },
                        Err(_) => {},
                    }
                },
                None => {},
            }
        }
        i += 1;
    }
    assert(calls@.take(i as int) =~= calls@);
    out
}

/// Whether the text request must follow: the tool calls repaired nothing.
pub fn tag_repair_needs_fallback(found: usize) -> (r: bool)
    ensures
        r == (found == 0),
{
    found == 0
}

} // verus!
