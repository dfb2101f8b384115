//! The extra fields sent with a tool-calling request, and what a payload
//! says about function calls.
use vstd::prelude::*;

use crate::json::{
    as_array, as_str, deref_opt, get, json_array, json_get, json_str, member, JsonNumber, JsonValue,
};
use crate::response::{key_index, key_index_exec, lemma_key_index};
use crate::text::{str_eq, to_string};

verus! {

/// Whether the provider is asked to run tool calls in parallel: only for a
/// llama.cpp server given tools, where the extra body field
/// `parallel_tool_calls` decides, `true` unless it says otherwise.
pub open spec fn parallel_request(
    provider_id: Seq<char>,
    has_tools: bool,
    extra: Option<Seq<(String, JsonValue)>>,
) -> Option<bool> {
    if provider_id != "llamacpp"@ || !has_tools {
        None
    } else {
        Some(
            match extra {
                Some(pairs) => match member(pairs, "parallel_tool_calls"@) {
                    Some(JsonValue::Bool(b)) => b,
                    _ => true,
                },
                None => true,
            },
        )
    }
}

pub open spec fn opt_pairs(extra: Option<&Vec<(String, JsonValue)>>) -> Option<
    Seq<(String, JsonValue)>,
> {
    match extra {
        Some(p) => Some(p@),
        None => None,
    }
}

pub fn requested_parallel_tool_calls(
    provider_id: &str,
    has_tools: bool,
    extra_body_fields: Option<&Vec<(String, JsonValue)>>,
) -> (r: Option<bool>)
    ensures
        r == parallel_request(provider_id@, has_tools, opt_pairs(extra_body_fields)),
{
    if !str_eq(provider_id, "llamacpp") || !has_tools {
        return None;
    }
    match extra_body_fields {
        Some(pairs) => {
            proof {
                lemma_key_index(pairs@, "parallel_tool_calls"@);
            }
            match key_index_exec(pairs, "parallel_tool_calls") {
                Some(i) => match &pairs[i].1 {
                    JsonValue::Bool(b) => Some(*b),
                    _ => Some(true),
                },
                None => Some(true),
            }
        },
        None => Some(true),
    }
}

/// The pairs without those called `key`.
pub open spec fn without_key(pairs: Seq<(String, JsonValue)>, key: Seq<char>) -> Seq<
    (String, JsonValue),
>
    decreases pairs.len(),
{
    if pairs.len() == 0 {
        seq![]
    } else if pairs.last().0@ == key {
        without_key(pairs.drop_last(), key)
    } else {
        without_key(pairs.drop_last(), key).push(pairs.last())
    }
}

pub proof fn lemma_member_push(p: Seq<(String, JsonValue)>, x: (String, JsonValue), k: Seq<char>)
    ensures
        member(p.push(x), k) === if member(p, k) is Some {
            member(p, k)
        } else if x.0@ == k {
            Some(x.1)
        } else {
            None
        },
    decreases p.len(),
{
    let q = p.push(x);
    if p.len() > 0 {
        assert(q[0] == p[0]);
        assert(q.drop_first() =~= p.drop_first().push(x));
        lemma_member_push(p.drop_first(), x, k);
        if p[0].0@ == k {
            assert(member(q, k) === Some(p[0].1));
            assert(member(p, k) === Some(p[0].1));
        } else {
            assert(member(q, k) === member(q.drop_first(), k));
            assert(member(p, k) === member(p.drop_first(), k));
        }
    } else {
        assert(q[0] == x);
        assert(q.drop_first() =~= Seq::<(String, JsonValue)>::empty());
        assert(member(p, k) === None);
        if x.0@ == k {
            assert(member(q, k) === Some(x.1));
        } else {
            assert(member(q, k) === member(q.drop_first(), k));
        }
    }
}

pub proof fn lemma_without_key(pairs: Seq<(String, JsonValue)>, key: Seq<char>, k: Seq<char>)
    ensures
        member(without_key(pairs, key), k) == if k == key {
            None
        } else {
            member(pairs, k)
        },
    decreases pairs.len(),
{
    if pairs.len() > 0 {
        lemma_without_key(pairs.drop_last(), key, k);
        assert(pairs =~= pairs.drop_last().push(pairs.last()));
        lemma_member_push(pairs.drop_last(), pairs.last(), k);
        if pairs.last().0@ != key {
            lemma_member_push(without_key(pairs.drop_last(), key), pairs.last(), k);
        }
    }
}

/// The extra fields with `parallel_tool_calls` set to `false`, every other
/// field kept.
pub fn tool_extra_fields_with_parallel_disabled(
    extra_body_fields: Option<Vec<(String, JsonValue)>>,
) -> (r: Option<Vec<(String, JsonValue)>>)
    ensures
        r is Some,
        member(r.unwrap()@, "parallel_tool_calls"@) == Some(JsonValue::Bool(false)),
        forall|k: Seq<char>|
            k != "parallel_tool_calls"@ ==> member(#[trigger] r.unwrap()@, k) === match extra_body_fields {
                Some(pairs) => member(pairs@, k),
                None => None,
            },
{
    let ghost orig = extra_body_fields;
    let ghost all: Seq<(String, JsonValue)> = match &extra_body_fields {
        Some(pairs) => pairs@,
        None => seq![],
    };
    let mut rest: Vec<(String, JsonValue)> = match extra_body_fields {
        Some(pairs) => pairs,
        None => Vec::new(),
    };
    let mut out: Vec<(String, JsonValue)> = Vec::new();
    let ghost mut i: int = 0;
    assert(all.skip(0) =~= all);
    assert(all =~= rest@);
    while rest.len() > 0
        invariant
            0 <= i,
            all.len() == i + rest@.len(),
            rest@ == all.skip(i),
            out@ == without_key(all.take(i), "parallel_tool_calls"@),
        decreases rest@.len(),
    {
        assert(all.take(i + 1).drop_last() =~= all.take(i));
        assert(all.take(i + 1).last() == all[i]);
        assert(rest@[0] == all[i]);
        let pair = rest.remove(0);
        assert(rest@ =~= all.skip(i + 1));
        if !str_eq(pair.0.as_str(), "parallel_tool_calls") {
            out.push(pair);
        }
        proof {
            i = i + 1;
        }
    }
    assert(all.take(i) =~= all);
    let ghost kept = out@;
    let key = String::from_str("parallel_tool_calls");
    out.push((key, JsonValue::Bool(false)));
    proof {
        assert(out@ =~= kept.push(out@.last()));
        assert(out@.last().0@ == "parallel_tool_calls"@);
        assert forall|k: Seq<char>| k != "parallel_tool_calls"@ implies member(#[trigger] out@, k)
            === match orig {
            Some(pairs) => member(pairs@, k),
            None => None,
        } by {
            lemma_without_key(all, "parallel_tool_calls"@, k);
            lemma_member_push(kept, out@.last(), k);
            assert(member(kept, k) === member(all, k));
            if orig is None {
                assert(all.len() == 0);
                assert(member(all, k) === None);
            }
        }
        lemma_without_key(all, "parallel_tool_calls"@, "parallel_tool_calls"@);
        lemma_member_push(kept, out@.last(), "parallel_tool_calls"@);
    }
    Some(out)
}

// ------------------------------------------------------------------
// Fixed sampling for a local llama.cpp memory model
// ------------------------------------------------------------------

/// The sampling fields a memory request to llama.cpp does not take from the
/// user's settings.
pub open spec fn is_sampler_key(k: Seq<char>) -> bool {
    ||| k == "llamaSamplerProfile"@
    ||| k == "llamaSamplerOrder"@
    ||| k == "llamaMinP"@
    ||| k == "llamaTypicalP"@
    ||| k == "llamaDryMultiplier"@
    ||| k == "llamaDryBase"@
    ||| k == "llamaDryAllowedLength"@
    ||| k == "llamaDryPenaltyLastN"@
    ||| k == "llamaDrySequenceBreakers"@
    ||| k == "llamaDisableSamplerProfileDefaults"@
    ||| k == "top_k"@
    ||| k == "frequency_penalty"@
    ||| k == "presence_penalty"@
    ||| k == "min_p"@
    ||| k == "typical_p"@
}

/// The order in which llama.cpp applies its samplers for memory requests.
pub open spec fn sampler_order() -> Seq<Seq<char>> {
    seq!["penalties"@, "grammar"@, "top_k"@, "top_p"@, "temp"@, "dry"@, "min_p"@, "typical"@]
}

pub open spec fn is_text(v: JsonValue, t: Seq<char>) -> bool {
    v matches JsonValue::String(s) && s@ == t
}

/// A number written `0.0`.
pub open spec fn is_zero_float(v: JsonValue) -> bool {
    v matches JsonValue::Number(JsonNumber::Float(t)) && t@ == "0.0"@
}

/// The fixed value of each sampling field that is set, and `None` for those
/// that are only removed.
pub open spec fn sampler_value_ok(k: Seq<char>, v: Option<JsonValue>) -> bool {
    if k == "llamaDisableSamplerProfileDefaults"@ {
        v == Some(JsonValue::Bool(true))
    } else if k == "llamaSamplerOrder"@ {
        v matches Some(JsonValue::Array(items)) && items@.len() == 8 && forall|i: int|
            0 <= i < 8 ==> is_text(#[trigger] items@[i], sampler_order()[i])
    } else if k == "top_k"@ {
        v == Some(JsonValue::Number(JsonNumber::PosInt(40)))
    } else if k == "frequency_penalty"@ || k == "presence_penalty"@ || k == "min_p"@ || k
        == "typical_p"@ || k == "llamaDryMultiplier"@ {
        v matches Some(x) && is_zero_float(x)
    } else {
        v is None
    }
}

/// The pairs whose names are not sampling fields.
pub open spec fn without_sampler_keys(pairs: Seq<(String, JsonValue)>) -> Seq<(String, JsonValue)>
    decreases pairs.len(),
{
    if pairs.len() == 0 {
        seq![]
    } else if is_sampler_key(pairs.last().0@) {
        without_sampler_keys(pairs.drop_last())
    } else {
        without_sampler_keys(pairs.drop_last()).push(pairs.last())
    }
}

pub proof fn lemma_without_sampler_keys(pairs: Seq<(String, JsonValue)>, k: Seq<char>)
    ensures
        member(without_sampler_keys(pairs), k) == if is_sampler_key(k) {
            None
        } else {
            member(pairs, k)
        },
    decreases pairs.len(),
{
    if pairs.len() > 0 {
        lemma_without_sampler_keys(pairs.drop_last(), k);
        assert(pairs =~= pairs.drop_last().push(pairs.last()));
        lemma_member_push(pairs.drop_last(), pairs.last(), k);
        if !is_sampler_key(pairs.last().0@) {
            lemma_member_push(without_sampler_keys(pairs.drop_last()), pairs.last(), k);
        }
    }
}

/// The first member of `a + b` called `k`: that of `a`, else that of `b`.
pub proof fn lemma_member_concat(a: Seq<(String, JsonValue)>, b: Seq<(String, JsonValue)>, k: Seq<char>)
    ensures
        member(a + b, k) === match member(a, k) {
            Some(v) => Some(v),
            None => member(b, k),
        },
    decreases a.len(),
{
    if a.len() > 0 {
        assert((a + b).drop_first() =~= a.drop_first() + b);
        assert((a + b)[0] == a[0]);
        lemma_member_concat(a.drop_first(), b, k);
    } else {
        assert(a + b =~= b);
    }
}

/// The fixed sampler fields, in the order they are appended.
pub open spec fn sampler_tail_ok(tail: Seq<(String, JsonValue)>) -> bool {
    &&& tail.len() == 8
    &&& tail[0].0@ == "llamaDisableSamplerProfileDefaults"@ && tail[0].1 == JsonValue::Bool(true)
    &&& tail[1].0@ == "llamaSamplerOrder"@ && sampler_value_ok("llamaSamplerOrder"@, Some(tail[1].1))
    &&& tail[2].0@ == "top_k"@ && tail[2].1 == JsonValue::Number(JsonNumber::PosInt(40))
    &&& tail[3].0@ == "frequency_penalty"@ && is_zero_float(tail[3].1)
    &&& tail[4].0@ == "presence_penalty"@ && is_zero_float(tail[4].1)
    &&& tail[5].0@ == "min_p"@ && is_zero_float(tail[5].1)
    &&& tail[6].0@ == "typical_p"@ && is_zero_float(tail[6].1)
    &&& tail[7].0@ == "llamaDryMultiplier"@ && is_zero_float(tail[7].1)
}

proof fn lemma_sampler_tail(tail: Seq<(String, JsonValue)>, k: Seq<char>)
    requires
        sampler_tail_ok(tail),
    ensures
        is_sampler_key(k) ==> sampler_value_ok(k, member(tail, k)),
        !is_sampler_key(k) ==> member(tail, k) is None,
{
    reveal_with_fuel(member, 9);
    let t1 = tail.drop_first();
    let t2 = t1.drop_first();
    let t3 = t2.drop_first();
    let t4 = t3.drop_first();
    let t5 = t4.drop_first();
    let t6 = t5.drop_first();
    let t7 = t6.drop_first();
    let t8 = t7.drop_first();
    assert(t1[0] == tail[1] && t2[0] == tail[2] && t3[0] == tail[3] && t4[0] == tail[4]);
    assert(t5[0] == tail[5] && t6[0] == tail[6] && t7[0] == tail[7] && t8.len() == 0);
}

fn sampler_key_exec(k: &str) -> (r: bool)
    ensures
        r == is_sampler_key(k@),
{
    str_eq(k, "llamaSamplerProfile") || str_eq(k, "llamaSamplerOrder") || str_eq(k, "llamaMinP")
        || str_eq(k, "llamaTypicalP") || str_eq(k, "llamaDryMultiplier") || str_eq(k, "llamaDryBase")
        || str_eq(k, "llamaDryAllowedLength") || str_eq(k, "llamaDryPenaltyLastN") || str_eq(
        k,
        "llamaDrySequenceBreakers",
    ) || str_eq(k, "llamaDisableSamplerProfileDefaults") || str_eq(k, "top_k") || str_eq(
        k,
        "frequency_penalty",
    ) || str_eq(k, "presence_penalty") || str_eq(k, "min_p") || str_eq(k, "typical_p")
}

fn zero_float() -> (r: JsonValue)
    ensures
        is_zero_float(r),
{
    JsonValue::Number(JsonNumber::Float(to_string("0.0")))
}

/// The extra body fields of a memory request.  For a llama.cpp server whose
/// sampler is to be overwritten, the user's sampling fields give way to a
/// fixed sampler; otherwise the fields are sent as they are.
pub fn sanitize_dynamic_memory_extra_body_fields(
    provider_id: &str,
    extra_body_fields: Option<Vec<(String, JsonValue)>>,
    overwrite_llama_sampler_config: bool,
) -> (r: Option<Vec<(String, JsonValue)>>)
    ensures
        !overwrite_llama_sampler_config || provider_id@ != "llamacpp"@ ==> r === extra_body_fields,
        overwrite_llama_sampler_config && provider_id@ == "llamacpp"@ ==> {
            &&& r is Some
            &&& forall|k: Seq<char>|
                !is_sampler_key(k) ==> member(#[trigger] r.unwrap()@, k) === match extra_body_fields {
                    Some(pairs) => member(pairs@, k),
                    None => None,
                }
            &&& forall|k: Seq<char>|
                is_sampler_key(k) ==> sampler_value_ok(k, #[trigger] member(r.unwrap()@, k))
        },
{
    if !overwrite_llama_sampler_config || !str_eq(provider_id, "llamacpp") {
        return extra_body_fields;
    }
    let ghost orig = extra_body_fields;
    let ghost all: Seq<(String, JsonValue)> = match &extra_body_fields {
        Some(pairs) => pairs@,
        None => seq![],
    };
    let mut rest: Vec<(String, JsonValue)> = match extra_body_fields {
        Some(pairs) => pairs,
        None => Vec::new(),
    };
    let mut out: Vec<(String, JsonValue)> = Vec::new();
    let ghost mut i: int = 0;
    assert(all.skip(0) =~= all);
    while rest.len() > 0
        invariant
            0 <= i,
            all.len() == i + rest@.len(),
            rest@ == all.skip(i),
            out@ == without_sampler_keys(all.take(i)),
        decreases rest@.len(),
    {
        assert(all.take(i + 1).drop_last() =~= all.take(i));
        assert(all.take(i + 1).last() == all[i]);
        assert(rest@[0] == all[i]);
        let pair = rest.remove(0);
        assert(rest@ =~= all.skip(i + 1));
        if !sampler_key_exec(pair.0.as_str()) {
            out.push(pair);
        }
        proof {
            i = i + 1;
        }
    }
    assert(all.take(i) =~= all);
    let ghost kept = out@;
    let order = vec![
        JsonValue::String(to_string("penalties")),
        JsonValue::String(to_string("grammar")),
        JsonValue::String(to_string("top_k")),
        JsonValue::String(to_string("top_p")),
        JsonValue::String(to_string("temp")),
        JsonValue::String(to_string("dry")),
        JsonValue::String(to_string("min_p")),
        JsonValue::String(to_string("typical")),
    ];
    assert(forall|j: int| 0 <= j < 8 ==> is_text(#[trigger] order@[j], sampler_order()[j]));
    let arr = JsonValue::Array(order);
    proof {
        reveal_strlit("llamaDisableSamplerProfileDefaults");
        reveal_strlit("llamaSamplerOrder");
        // The two names differ in length, so the order field is not read as the first one.
        assert("llamaSamplerOrder"@.len() != "llamaDisableSamplerProfileDefaults"@.len());
    }
    let mut tail: Vec<(String, JsonValue)> = Vec::new();
    tail.push((to_string("llamaDisableSamplerProfileDefaults"), JsonValue::Bool(true)));
    tail.push((to_string("llamaSamplerOrder"), arr));
    tail.push((to_string("top_k"), JsonValue::Number(JsonNumber::PosInt(40))));
    tail.push((to_string("frequency_penalty"), zero_float()));
    tail.push((to_string("presence_penalty"), zero_float()));
    tail.push((to_string("min_p"), zero_float()));
    tail.push((to_string("typical_p"), zero_float()));
    tail.push((to_string("llamaDryMultiplier"), zero_float()));
    let ghost tv = tail@;
    assert(sampler_tail_ok(tv));
    out.append(&mut tail);
    proof {
        let tail = tv;
        assert forall|k: Seq<char>| !is_sampler_key(k) implies member(#[trigger] out@, k)
            === match orig {
            Some(pairs) => member(pairs@, k),
            None => None,
        } by {
            lemma_without_sampler_keys(all, k);
            lemma_member_concat(kept, tail, k);
            lemma_sampler_tail(tail, k);
            if orig is None {
                assert(member(all, k) === None);
            }
        }
        assert forall|k: Seq<char>| is_sampler_key(k) implies sampler_value_ok(
            k,
            #[trigger] member(out@, k),
        ) by {
            lemma_without_sampler_keys(all, k);
            lemma_member_concat(kept, tail, k);
            lemma_sampler_tail(tail, k);
        }
    }
    Some(out)
}

// ------------------------------------------------------------------
// Function calls inside a payload
// ------------------------------------------------------------------

pub open spec fn is_function_call_key(k: Seq<char>) -> bool {
    k == "function_call"@ || k == "functionCall"@
}

/// Whether a function call appears anywhere in a value: an object with a
/// `function_call` or `functionCall` member, at any depth.
pub open spec fn mentions_function_call(v: JsonValue) -> bool
    decreases v,
{
    match v {
        JsonValue::Object(pairs) => pairs_mention_function_call(pairs@),
        JsonValue::Array(items) => items_mention_function_call(items@),
        _ => false,
    }
}

pub open spec fn pairs_mention_function_call(pairs: Seq<(String, JsonValue)>) -> bool
    decreases pairs,
{
    if pairs.len() == 0 {
        false
    } else {
        (exists|i: int| 0 <= i < pairs.len() && is_function_call_key((#[trigger] pairs[i]).0@))
            || mentions_function_call(pairs[0].1) || pairs_mention_function_call(
            pairs.drop_first(),
        )
    }
}

pub open spec fn items_mention_function_call(items: Seq<JsonValue>) -> bool
    decreases items,
{
    if items.len() == 0 {
        false
    } else {
        mentions_function_call(items[0]) || items_mention_function_call(items.drop_first())
    }
}

pub fn payload_contains_function_call(value: &JsonValue) -> (r: bool)
    ensures
        r == mentions_function_call(*value),
    decreases value,
{
    match value {
        JsonValue::Object(pairs) => {
            let mut k: usize = 0;
            while k < pairs.len()
                invariant
                    k <= pairs@.len(),
                    *value == JsonValue::Object(*pairs),
                    forall|j: int| 0 <= j < k ==> !is_function_call_key((#[trigger] pairs@[j]).0@),
                decreases pairs@.len() - k,
            {
                let name = pairs[k].0.as_str();
                if str_eq(name, "function_call") || str_eq(name, "functionCall") {
                    assert(is_function_call_key(pairs@[k as int].0@));
                    assert(pairs_mention_function_call(pairs@));
                    return true;
                }
                k += 1;
            }
            let mut i: usize = 0;
            assert(pairs@.skip(0) =~= pairs@);
            while i < pairs.len()
                invariant
                    i <= pairs@.len(),
                    *value == JsonValue::Object(*pairs),
                    forall|j: int| 0 <= j < pairs@.len() ==> !is_function_call_key(
                        (#[trigger] pairs@[j]).0@,
                    ),
                    mentions_function_call(*value) == pairs_mention_function_call(
                        pairs@.skip(i as int),
                    ),
                decreases pairs@.len() - i,
            {
                let ghost rest = pairs@.skip(i as int);
                assert(rest.drop_first() =~= pairs@.skip(i + 1));
                assert(rest[0] == pairs@[i as int]);
                assert(!(exists|j: int| 0 <= j < rest.len() && is_function_call_key(
                    (#[trigger] rest[j]).0@,
                ))) by {
                    assert forall|j: int| 0 <= j < rest.len() implies !is_function_call_key(
                        (#[trigger] rest[j]).0@,
                    ) by {
                        assert(rest[j] == pairs@[i + j]);
                    }
                }
                proof {
                    assert(decreases_to!(*value => (*value)->Object_0));
                    assert(decreases_to!(*pairs => pairs@));
                    assert(decreases_to!(pairs@ => pairs@[i as int]));
                    assert(decreases_to!(pairs@[i as int] => pairs@[i as int].1));
                }
                if payload_contains_function_call(&pairs[i].1) {
                    return true;
                }
                i += 1;
            }
            false
        },
        JsonValue::Array(items) => {
            let mut i: usize = 0;
            assert(items@.skip(0) =~= items@);
            while i < items.len()
                invariant
                    i <= items@.len(),
                    *value == JsonValue::Array(*items),
                    mentions_function_call(*value) == items_mention_function_call(
                        items@.skip(i as int),
                    ),
                decreases items@.len() - i,
            {
                assert(items@.skip(i as int).drop_first() =~= items@.skip(i + 1));
                assert(items@.skip(i as int)[0] == items@[i as int]);
                proof {
                    assert(decreases_to!(*value => (*value)->Array_0));
                    assert(decreases_to!(*items => items@));
                    assert(decreases_to!(items@ => items@[i as int]));
                }
                if payload_contains_function_call(&items[i]) {
                    return true;
                }
                i += 1;
            }
            false
        },
        _ => false,
    }
}

// ------------------------------------------------------------------
// Where the last memory cycle ended
// ------------------------------------------------------------------

/// The id of the last message a memory event covered: the last item of its
/// `windowMessageIds`, when that is a string.
pub open spec fn window_end_id(event: JsonValue) -> Option<Seq<char>> {
    match json_array(json_get(event, "windowMessageIds"@)) {
        Some(ids) => if ids.len() > 0 {
            json_str(Some(ids.last()))
        } else {
            None
        },
        None => None,
    }
}

/// The events from the `k`-th newest on that name their last message,
/// newest first: each with its distance from the newest event and that id.
pub open spec fn window_end_candidates_from(events: Seq<JsonValue>, k: int) -> Seq<(int, Seq<char>)>
    decreases events.len() - k,
{
    if k < 0 || k >= events.len() {
        seq![]
    } else {
        (match window_end_id(events[events.len() - 1 - k]) {
            Some(id) => seq![(k, id)],
            None => seq![],
        }) + window_end_candidates_from(events, k + 1)
    }
}

pub open spec fn candidates_view(cs: Seq<(usize, String)>) -> Seq<(int, Seq<char>)> {
    cs.map_values(|c: (usize, String)| (c.0 as int, c.1@))
}

/// The message ids to look up, newest event first, to find where the last
/// memory cycle that still matches the conversation ended.
pub fn window_end_candidates(events: &Vec<JsonValue>) -> (r: Vec<(usize, String)>)
    ensures
        candidates_view(r@) == window_end_candidates_from(events@, 0),
{
    let mut out: Vec<(usize, String)> = Vec::new();
    let n = events.len();
    let mut k: usize = 0;
    while k < n
        invariant
            n == events@.len(),
            k <= n,
            candidates_view(out@) + window_end_candidates_from(events@, k as int)
                == window_end_candidates_from(events@, 0),
        decreases n - k,
    {
        let idx = n - 1 - k;
        let ghost before = candidates_view(out@);
        match as_str(last_item(get(&events[idx], "windowMessageIds"))) {
            Some(id) => {
                out.push((k, to_string(id)));
                assert(candidates_view(out@) =~= before + seq![(k as int, id@)]);
            },
            None => {
                assert(candidates_view(out@) =~= before + Seq::<(int, Seq<char>)>::empty());
            },
        }
        assert(candidates_view(out@) + window_end_candidates_from(events@, k + 1) =~= before
            + window_end_candidates_from(events@, k as int));
        k += 1;
    }
    assert(candidates_view(out@) + window_end_candidates_from(events@, n as int) =~= candidates_view(out@));
    out
}

fn last_item(v: Option<&JsonValue>) -> (r: Option<&JsonValue>)
    ensures
        deref_opt(r) == match json_array(deref_opt(v)) {
            Some(ids) => if ids.len() > 0 {
                Some(ids.last())
            } else {
                None
            },
            None => None,
        },
{
    match as_array(v) {
        Some(items) => if items.len() > 0 {
            Some(&items[items.len() - 1])
        } else {
            None
        },
        None => None,
    }
}

/// Where the next memory cycle starts, and whether the conversation was
/// rewound: no events, the start; the first candidate whose message still
/// exists (`hit`, its distance from the newest event and the message's
/// position), that position, rewound unless it was the newest event's; no
/// such candidate, the start, rewound.
pub fn resolved_window_end(has_events: bool, hit: Option<(usize, usize)>) -> (r: (usize, bool))
    ensures
        r == if !has_events {
            (0usize, false)
        } else {
            match hit {
                Some((distance, window_end)) => (window_end, distance != 0),
                None => (0usize, true),
            }
        },
{
    if !has_events {
        return (0, false);
    }
    match hit {
        Some((distance, window_end)) => (window_end, distance != 0),
        None => (0, true),
    }
}

} // verus!
