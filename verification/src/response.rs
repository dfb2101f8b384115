//! Reading a provider's answer: the text it shows the user, its reasoning,
//! the error it reports and the images it carries, from a whole answer or
//! from the frames of a streamed one.
use vstd::prelude::*;

use crate::json::{
    as_array, as_bool, as_str, deref_opt, get, items_strings_below, json_array, json_bool, json_get,
    json_str, json_text_value, member, opt_get, opt_get_exec, parse_json_text, strings_below,
    JsonValue,
};
use crate::request::{
    block_reason_message, finish_reason_message, format_gemini_block_reason,
    format_gemini_finish_reason_error, opt_view,
};
use crate::sse::{bare_lines_for, dump_payloads, payloads_of_lines};
use crate::text::{
    contains, decimal, has_prefix, has_sub, is_blank, starts_with, str_eq, str_lines, to_string,
    trim, trim_seq, u64_to_string, views,
};

verus! {

// ------------------------------------------------------------------
// Members by position
// ------------------------------------------------------------------

/// The position of the first member called `key`.
pub open spec fn key_index(pairs: Seq<(String, JsonValue)>, key: Seq<char>) -> Option<int>
    decreases pairs.len(),
{
    if pairs.len() == 0 {
        None
    } else if pairs[0].0@ == key {
        Some(0)
    } else {
        match key_index(pairs.drop_first(), key) {
            Some(i) => Some(i + 1),
            None => None,
        }
    }
}

pub proof fn lemma_key_index(pairs: Seq<(String, JsonValue)>, key: Seq<char>)
    ensures
        match key_index(pairs, key) {
            Some(i) => 0 <= i < pairs.len() && pairs[i].0@ == key && member(pairs, key) == Some(
                pairs[i].1,
            ),
            None => member(pairs, key) is None && forall|j: int|
                0 <= j < pairs.len() ==> (#[trigger] pairs[j]).0@ != key,
        },
    decreases pairs.len(),
{
    if pairs.len() > 0 && pairs[0].0@ != key {
        lemma_key_index(pairs.drop_first(), key);
        if key_index(pairs, key) is None {
            assert forall|j: int| 0 <= j < pairs.len() implies (#[trigger] pairs[j]).0@ != key by {
                if j > 0 {
                    assert(pairs[j] == pairs.drop_first()[j - 1]);
                }
            }
        }
    }
}

/// `Map::get` by position: the index of the member called `key`.
pub fn key_index_exec(pairs: &Vec<(String, JsonValue)>, key: &str) -> (r: Option<usize>)
    ensures
        match r {
            Some(i) => key_index(pairs@, key@) == Some(i as int),
            None => key_index(pairs@, key@) is None,
        },
{
    let mut i: usize = 0;
    assert(pairs@.skip(0) =~= pairs@);
    while i < pairs.len()
        invariant
            i <= pairs@.len(),
            key_index(pairs@, key@) == match key_index(pairs@.skip(i as int), key@) {
                Some(j) => Some(j + i),
                None => None,
            },
        decreases pairs@.len() - i,
    {
        assert(pairs@.skip(i as int).drop_first() =~= pairs@.skip(i + 1));
        assert(pairs@.skip(i as int)[0] == pairs@[i as int]);
        if str_eq(pairs[i].0.as_str(), key) {
            return Some(i);
        }
        i += 1;
    }
    None
}

// ------------------------------------------------------------------
// Visible text fragments
// ------------------------------------------------------------------

/// Members that describe a tool call or a tool's answer.
pub open spec fn is_tool_key(k: Seq<char>) -> bool {
    k == "function_call"@ || k == "functionCall"@ || k == "function_response"@ || k
        == "functionResponse"@
}

pub open spec fn has_tool_member(pairs: Seq<(String, JsonValue)>) -> bool {
    exists|i: int| 0 <= i < pairs.len() && is_tool_key((#[trigger] pairs[i]).0@)
}

/// Whether one of the members that carry text is present.
pub open spec fn has_text_member(pairs: Seq<(String, JsonValue)>) -> bool {
    ||| key_index(pairs, "text"@) is Some
    ||| key_index(pairs, "content"@) is Some
    ||| key_index(pairs, "value"@) is Some
    ||| key_index(pairs, "message"@) is Some
    ||| key_index(pairs, "parts"@) is Some
}

/// The text a value shows: its strings, except image data URLs, read
/// depth first; in an object only the members `text`, `content`, `value`,
/// `message` and `parts`, in that order, or, when none of them is there,
/// every member in order; nothing from an object that holds a tool call or
/// a tool's answer.
pub open spec fn fragments(v: JsonValue) -> Seq<char>
    decreases v,
{
    match v {
        JsonValue::String(s) => if has_prefix(s@, "data:image/"@) {
            seq![]
        } else {
            s@
        },
        JsonValue::Array(items) => items_fragments(items@),
        JsonValue::Object(pairs) => if has_tool_member(pairs@) {
            seq![]
        } else if has_text_member(pairs@) {
            keyed_fragments(pairs@, "text"@) + keyed_fragments(pairs@, "content"@)
                + keyed_fragments(pairs@, "value"@) + keyed_fragments(pairs@, "message"@)
                + keyed_fragments(pairs@, "parts"@)
        } else {
            values_fragments(pairs@)
        },
        _ => seq![],
    }
}

/// The text of the member called `key`, if there is one.
pub open spec fn keyed_fragments(pairs: Seq<(String, JsonValue)>, key: Seq<char>) -> Seq<char>
    decreases pairs,
{
    match key_index(pairs, key) {
        Some(i) => if 0 <= i < pairs.len() {
            fragments(pairs[i].1)
        } else {
            seq![]
        },
        None => seq![],
    }
}

/// The text of the items, one after another.
pub open spec fn items_fragments(items: Seq<JsonValue>) -> Seq<char>
    decreases items,
{
    if items.len() == 0 {
        seq![]
    } else {
        fragments(items[0]) + items_fragments(items.drop_first())
    }
}

/// The text of every member, in order.
pub open spec fn values_fragments(pairs: Seq<(String, JsonValue)>) -> Seq<char>
    decreases pairs,
{
    if pairs.len() == 0 {
        seq![]
    } else {
        fragments(pairs[0].1) + values_fragments(pairs.drop_first())
    }
}

fn has_tool_member_exec(pairs: &Vec<(String, JsonValue)>) -> (r: bool)
    ensures
        r == has_tool_member(pairs@),
{
    let mut i: usize = 0;
    while i < pairs.len()
        invariant
            i <= pairs@.len(),
            forall|j: int| 0 <= j < i ==> !is_tool_key((#[trigger] pairs@[j]).0@),
        decreases pairs@.len() - i,
    {
        let k = pairs[i].0.as_str();
        if str_eq(k, "function_call") || str_eq(k, "functionCall") || str_eq(k, "function_response")
            || str_eq(k, "functionResponse") {
            assert(is_tool_key(pairs@[i as int].0@));
            return true;
        }
        i += 1;
    }
    false
}

/// Appends the text of the member at `i`, when there is one.
fn collect_keyed(value: &JsonValue, pairs: &Vec<(String, JsonValue)>, key: &str, acc: &mut String)
    requires
        *value == JsonValue::Object(*pairs),
    ensures
        final(acc)@ == old(acc)@ + keyed_fragments(pairs@, key@),
    decreases value, 0int,
{
    proof {
        lemma_key_index(pairs@, key@);
    }
    match key_index_exec(pairs, key) {
        Some(i) => {
            proof {
                assert(decreases_to!(*value => (*value)->Object_0));
                assert(decreases_to!(*pairs => pairs@));
                assert(decreases_to!(pairs@ => pairs@[i as int]));
                assert(decreases_to!(pairs@[i as int] => pairs@[i as int].1));
            }
            collect_text_fragments(&pairs[i].1, acc);
        },
        None => {
            assert(old(acc)@ + keyed_fragments(pairs@, key@) =~= old(acc)@);
        },
    }
}

/// Appends to `acc` the text that `value` shows (see `fragments`).
pub fn collect_text_fragments(value: &JsonValue, acc: &mut String)
    ensures
        final(acc)@ == old(acc)@ + fragments(*value),
    decreases value, 1int,
{
    let ghost start = acc@;
    match value {
        JsonValue::String(s) => {
            if !starts_with(s.as_str(), "data:image/") {
                acc.append(s.as_str());
            } else {
                assert(start + fragments(*value) =~= start);
            }
        },
        JsonValue::Array(items) => {
            let mut i: usize = 0;
            assert(items@.skip(0) =~= items@);
            while i < items.len()
                invariant
                    i <= items@.len(),
                    *value == JsonValue::Array(*items),
                    start + items_fragments(items@) == acc@ + items_fragments(items@.skip(i as int)),
                decreases items@.len() - i,
            {
                let ghost before = acc@;
                assert(items@.skip(i as int).drop_first() =~= items@.skip(i + 1));
                assert(items@.skip(i as int)[0] == items@[i as int]);
                proof {
                    assert(decreases_to!(*value => (*value)->Array_0));
                    assert(decreases_to!(*items => items@));
                    assert(decreases_to!(items@ => items@[i as int]));
                }
                collect_text_fragments(&items[i], acc);
                assert(before + items_fragments(items@.skip(i as int)) =~= acc@ + items_fragments(
                    items@.skip(i + 1),
                ));
                i += 1;
            }
            assert(items@.skip(i as int) =~= Seq::<JsonValue>::empty());
            assert(acc@ + items_fragments(Seq::<JsonValue>::empty()) =~= acc@);
        },
        JsonValue::Object(pairs) => {
            if has_tool_member_exec(pairs) {
                assert(start + fragments(*value) =~= start);
                return ;
            }
            let has_named = key_index_exec(pairs, "text").is_some() || key_index_exec(
                pairs,
                "content",
            ).is_some() || key_index_exec(pairs, "value").is_some() || key_index_exec(
                pairs,
                "message",
            ).is_some() || key_index_exec(pairs, "parts").is_some();
            if has_named {
                collect_keyed(value, pairs, "text", acc);
                collect_keyed(value, pairs, "content", acc);
                collect_keyed(value, pairs, "value", acc);
                collect_keyed(value, pairs, "message", acc);
                collect_keyed(value, pairs, "parts", acc);
                assert(acc@ =~= start + fragments(*value));
            } else {
                let mut i: usize = 0;
                assert(pairs@.skip(0) =~= pairs@);
                while i < pairs.len()
                    invariant
                        i <= pairs@.len(),
                        *value == JsonValue::Object(*pairs),
                        start + values_fragments(pairs@) == acc@ + values_fragments(
                            pairs@.skip(i as int),
                        ),
                    decreases pairs@.len() - i,
                {
                    let ghost before = acc@;
                    assert(pairs@.skip(i as int).drop_first() =~= pairs@.skip(i + 1));
                    assert(pairs@.skip(i as int)[0] == pairs@[i as int]);
                    proof {
                        assert(decreases_to!(*value => (*value)->Object_0));
                assert(decreases_to!(*pairs => pairs@));
                        assert(decreases_to!(pairs@ => pairs@[i as int]));
                        assert(decreases_to!(pairs@[i as int] => pairs@[i as int].1));
                    }
                    collect_text_fragments(&pairs[i].1, acc);
                    assert(before + values_fragments(pairs@.skip(i as int)) =~= acc@
                        + values_fragments(pairs@.skip(i + 1)));
                    i += 1;
                }
                assert(pairs@.skip(i as int) =~= Seq::<(String, JsonValue)>::empty());
                assert(acc@ + values_fragments(Seq::<(String, JsonValue)>::empty()) =~= acc@);
            }
        },
        _ => {
            assert(start + fragments(*value) =~= start);
        },
    }
}

/// The shown text, when it is not blank.
pub open spec fn joined(v: JsonValue) -> Option<Seq<char>> {
    if trim_seq(fragments(v)).len() == 0 {
        None
    } else {
        Some(fragments(v))
    }
}

pub fn join_text_fragments(value: &JsonValue) -> (r: Option<String>)
    ensures
        opt_view(r) == joined(*value),
{
    let mut buffer = String::new();
    collect_text_fragments(value, &mut buffer);
    assert(buffer@ =~= fragments(*value));
    if is_blank(buffer.as_str()) {
        None
    } else {
        Some(buffer)
    }
}

pub open spec fn opt_joined(v: Option<JsonValue>) -> Option<Seq<char>> {
    match v {
        Some(x) => joined(x),
        None => None,
    }
}

/// The text of a message: its `content`, else its `text`, else all it shows.
pub open spec fn message_content(v: JsonValue) -> Option<Seq<char>> {
    match v {
        JsonValue::Object(pairs) => if opt_joined(member(pairs@, "content"@)) is Some {
            opt_joined(member(pairs@, "content"@))
        } else if opt_joined(member(pairs@, "text"@)) is Some {
            opt_joined(member(pairs@, "text"@))
        } else {
            joined(v)
        },
        _ => joined(v),
    }
}

fn join_member(v: &JsonValue, key: &str) -> (r: Option<String>)
    ensures
        opt_view(r) == opt_joined(json_get(*v, key@)),
{
    match get(v, key) {
        Some(x) => join_text_fragments(x),
        None => None,
    }
}

pub fn extract_message_content(value: &JsonValue) -> (r: Option<String>)
    ensures
        opt_view(r) == message_content(*value),
{
    match value {
        JsonValue::Object(_) => {
            if let Some(text) = join_member(value, "content") {
                return Some(text);
            }
            if let Some(text) = join_member(value, "text") {
                return Some(text);
            }
            join_text_fragments(value)
        },
        _ => join_text_fragments(value),
    }
}

// ------------------------------------------------------------------
// The text of an answer
// ------------------------------------------------------------------

pub open spec fn or_else(a: Option<Seq<char>>, b: Option<Seq<char>>) -> Option<Seq<char>> {
    if a is Some {
        a
    } else {
        b
    }
}

pub open spec fn opt_message_content(v: Option<JsonValue>) -> Option<Seq<char>> {
    match v {
        Some(x) => message_content(x),
        None => None,
    }
}

/// The first of the candidates that is there.
pub open spec fn first_text(s: Seq<Option<Seq<char>>>) -> Option<Seq<char>>
    decreases s.len(),
{
    if s.len() == 0 {
        None
    } else if s[0] is Some {
        s[0]
    } else {
        first_text(s.drop_first())
    }
}

/// The text of one of `choices`: that of its `message`, else of its
/// `delta`, else of its `content`.
pub open spec fn choice_text(c: JsonValue) -> Option<Seq<char>> {
    match c {
        JsonValue::Object(pairs) => or_else(
            opt_message_content(member(pairs@, "message"@)),
            or_else(
                opt_message_content(member(pairs@, "delta"@)),
                opt_message_content(member(pairs@, "content"@)),
            ),
        ),
        _ => None,
    }
}

pub open spec fn choices_text(choices: Seq<JsonValue>) -> Option<Seq<char>> {
    first_text(choices.map_values(|c: JsonValue| choice_text(c)))
}

pub open spec fn candidates_text(candidates: Seq<JsonValue>) -> Option<Seq<char>> {
    first_text(candidates.map_values(|c: JsonValue| message_content(c)))
}

pub open spec fn array_member(pairs: Seq<(String, JsonValue)>, key: Seq<char>) -> Option<
    Seq<JsonValue>,
> {
    match member(pairs, key) {
        Some(JsonValue::Array(items)) => Some(items@),
        _ => None,
    }
}

/// The text of an answer object: from its `choices`, else its `candidates`,
/// else its `message`, else its `content`, else its `text`.
pub open spec fn object_text(pairs: Seq<(String, JsonValue)>) -> Option<Seq<char>> {
    let from_choices = match array_member(pairs, "choices"@) {
        Some(cs) => choices_text(cs),
        None => None,
    };
    let from_candidates = match array_member(pairs, "candidates"@) {
        Some(cs) => candidates_text(cs),
        None => None,
    };
    or_else(
        from_choices,
        or_else(
            from_candidates,
            or_else(
                opt_message_content(member(pairs, "message"@)),
                or_else(opt_joined(member(pairs, "content"@)), opt_joined(member(pairs, "text"@))),
            ),
        ),
    )
}

/// A string that holds a whole streamed answer, whose text comes from the
/// JSON of its lines.
pub open spec fn is_stream_text(s: Seq<char>, ollama: bool) -> bool {
    has_sub(s, "data:"@) || ollama
}

/// No string that `response_text` would read holds a streamed answer.
pub open spec fn stream_free(v: JsonValue, ollama: bool) -> bool
    decreases v,
{
    match v {
        JsonValue::String(s) => !is_stream_text(s@, ollama),
        JsonValue::Array(items) => items_stream_free(items@, ollama),
        _ => true,
    }
}

pub open spec fn items_stream_free(items: Seq<JsonValue>, ollama: bool) -> bool
    decreases items,
{
    if items.len() == 0 {
        true
    } else {
        stream_free(items[0], ollama) && items_stream_free(items.drop_first(), ollama)
    }
}

pub open spec fn text_or_empty(t: Option<Seq<char>>) -> Seq<char> {
    match t {
        Some(x) => x,
        None => seq![],
    }
}

/// The text of an answer that is no streamed dump: a string as it is, the
/// texts of an array's items one after another, or that of an object.
pub open spec fn response_text(v: JsonValue) -> Option<Seq<char>>
    decreases v,
{
    match v {
        JsonValue::String(s) => Some(s@),
        JsonValue::Array(items) => if items_text(items@).len() == 0 {
            None
        } else {
            Some(items_text(items@))
        },
        JsonValue::Object(pairs) => object_text(pairs@),
        _ => None,
    }
}

pub open spec fn items_text(items: Seq<JsonValue>) -> Seq<char>
    decreases items,
{
    if items.len() == 0 {
        seq![]
    } else {
        text_or_empty(response_text(items[0])) + items_text(items.drop_first())
    }
}

fn opt_message_content_exec(v: Option<&JsonValue>) -> (r: Option<String>)
    ensures
        opt_view(r) == opt_message_content(deref_opt(v)),
{
    match v {
        Some(x) => extract_message_content(x),
        None => None,
    }
}

fn choice_text_exec(c: &JsonValue) -> (r: Option<String>)
    ensures
        opt_view(r) == choice_text(*c),
{
    match c {
        JsonValue::Object(_) => {
            if let Some(t) = opt_message_content_exec(get(c, "message")) {
                return Some(t);
            }
            if let Some(t) = opt_message_content_exec(get(c, "delta")) {
                return Some(t);
            }
            opt_message_content_exec(get(c, "content"))
        },
        _ => None,
    }
}

fn choices_text_exec(choices: &Vec<JsonValue>) -> (r: Option<String>)
    ensures
        opt_view(r) == choices_text(choices@),
{
    let ghost all = choices@.map_values(|c: JsonValue| choice_text(c));
    let mut i: usize = 0;
    assert(all.skip(0) =~= all);
    while i < choices.len()
        invariant
            i <= choices@.len(),
            all == choices@.map_values(|c: JsonValue| choice_text(c)),
            first_text(all) == first_text(all.skip(i as int)),
        decreases choices@.len() - i,
    {
        assert(all.skip(i as int).drop_first() =~= all.skip(i + 1));
        assert(all.skip(i as int)[0] == choice_text(choices@[i as int]));
        if let Some(t) = choice_text_exec(&choices[i]) {
            return Some(t);
        }
        i += 1;
    }
    None
}

fn candidates_text_exec(candidates: &Vec<JsonValue>) -> (r: Option<String>)
    ensures
        opt_view(r) == candidates_text(candidates@),
{
    let ghost all = candidates@.map_values(|c: JsonValue| message_content(c));
    let mut i: usize = 0;
    assert(all.skip(0) =~= all);
    while i < candidates.len()
        invariant
            i <= candidates@.len(),
            all == candidates@.map_values(|c: JsonValue| message_content(c)),
            first_text(all) == first_text(all.skip(i as int)),
        decreases candidates@.len() - i,
    {
        assert(all.skip(i as int).drop_first() =~= all.skip(i + 1));
        assert(all.skip(i as int)[0] == message_content(candidates@[i as int]));
        if let Some(t) = extract_message_content(&candidates[i]) {
            return Some(t);
        }
        i += 1;
    }
    None
}

fn object_text_exec(data: &JsonValue, pairs: &Vec<(String, JsonValue)>) -> (r: Option<String>)
    requires
        *data == JsonValue::Object(*pairs),
    ensures
        opt_view(r) == object_text(pairs@),
{
    if let Some(JsonValue::Array(choices)) = get(data, "choices") {
        if let Some(t) = choices_text_exec(choices) {
            return Some(t);
        }
    }
    if let Some(JsonValue::Array(candidates)) = get(data, "candidates") {
        if let Some(t) = candidates_text_exec(candidates) {
            return Some(t);
        }
    }
    if let Some(t) = opt_message_content_exec(get(data, "message")) {
        return Some(t);
    }
    if let Some(t) = join_member(data, "content") {
        return Some(t);
    }
    join_member(data, "text")
}

/// Whether `data` holds a string that is a streamed answer (see
/// `stream_free`).
pub fn has_stream_text(data: &JsonValue, provider_id: Option<&str>) -> (r: bool)
    ensures
        r == !stream_free(*data, bare_lines_for(provider_id)),
    decreases data,
{
    match data {
        JsonValue::String(s) => contains(s.as_str(), "data:") || is_ollama(provider_id),
        JsonValue::Array(items) => {
            let mut i: usize = 0;
            assert(items@.skip(0) =~= items@);
            while i < items.len()
                invariant
                    i <= items@.len(),
                    *data == JsonValue::Array(*items),
                    stream_free(*data, bare_lines_for(provider_id)) == items_stream_free(
                        items@.skip(i as int),
                        bare_lines_for(provider_id),
                    ),
                decreases items@.len() - i,
            {
                assert(items@.skip(i as int).drop_first() =~= items@.skip(i + 1));
                assert(items@.skip(i as int)[0] == items@[i as int]);
                proof {
                    assert(decreases_to!(*data => (*data)->Array_0));
                    assert(decreases_to!(*items => items@));
                    assert(decreases_to!(items@ => items@[i as int]));
                }
                if has_stream_text(&items[i], provider_id) {
                    return true;
                }
                i += 1;
            }
            false
        },
        _ => false,
    }
}

fn is_ollama(provider_id: Option<&str>) -> (r: bool)
    ensures
        r == bare_lines_for(provider_id),
{
    match provider_id {
        Some(p) => str_eq(p, "ollama"),
        None => false,
    }
}

/// The text of an answer (see `response_text`), for an answer with no
/// streamed dump in it.
pub fn extract_stream_free_text(data: &JsonValue, provider_id: Option<&str>) -> (r: Option<String>)
    requires
        stream_free(*data, bare_lines_for(provider_id)),
    ensures
        opt_view(r) == response_text(*data),
    decreases data,
{
    match data {
        JsonValue::String(s) => Some(s.clone()),
        JsonValue::Array(items) => {
            let mut combined = String::new();
            let mut i: usize = 0;
            assert(items@.skip(0) =~= items@);
            while i < items.len()
                invariant
                    i <= items@.len(),
                    *data == JsonValue::Array(*items),
                    items_stream_free(items@.skip(i as int), bare_lines_for(provider_id)),
                    items_text(items@) == combined@ + items_text(items@.skip(i as int)),
                decreases items@.len() - i,
            {
                assert(items@.skip(i as int).drop_first() =~= items@.skip(i + 1));
                assert(items@.skip(i as int)[0] == items@[i as int]);
                proof {
                    assert(decreases_to!(*data => (*data)->Array_0));
                    assert(decreases_to!(*items => items@));
                    assert(decreases_to!(items@ => items@[i as int]));
                }
                let ghost before = combined@;
                if let Some(part) = extract_stream_free_text(&items[i], provider_id) {
                    combined.append(part.as_str());
                }
                assert(before + items_text(items@.skip(i as int)) =~= combined@ + items_text(
                    items@.skip(i + 1),
                ));
                i += 1;
            }
            assert(items@.skip(i as int) =~= Seq::<JsonValue>::empty());
            assert(combined@ + items_text(Seq::<JsonValue>::empty()) =~= combined@);
            if combined.unicode_len() == 0 {
                None
            } else {
                Some(combined)
            }
        },
        JsonValue::Object(pairs) => object_text_exec(data, pairs),
        _ => None,
    }
}

// ------------------------------------------------------------------
// The text of any answer, streamed dumps included
// ------------------------------------------------------------------

/// The JSON values of the payloads that parse, in order.
pub open spec fn parsed_payloads(ps: Seq<Seq<char>>) -> Seq<JsonValue>
    decreases ps.len(),
{
    if ps.len() == 0 {
        seq![]
    } else {
        parsed_payloads(ps.drop_last()) + match json_text_value(ps.last()) {
            Some(v) => seq![v],
            None => seq![],
        }
    }
}

/// The frames of a server-sent-events dump: the JSON of its `data:` lines.
pub open spec fn dump_frames(s: Seq<char>) -> Seq<JsonValue> {
    parsed_payloads(payloads_of_lines(str_lines(s), false))
}

/// The text of an answer, reading streamed dumps too: a string holding
/// `data:` lines gives the text of its frames (empty when there is none);
/// for Ollama, a string gives the texts of the JSON of its lines, one after
/// another; any other string is the text itself; an array gives its items'
/// texts one after another; an object its `choices`, `candidates`,
/// `message`, `content` or `text`.  `bound` exceeds the length of every
/// string the reading can meet (a payload is never longer than its line).
pub open spec fn answer_text_within(v: JsonValue, ollama: bool, bound: nat) -> Option<Seq<char>>
    decreases bound, 0nat, v,
{
    match v {
        JsonValue::String(s) => if has_sub(s@, "data:"@) {
            Some(text_or_empty(nonempty_text(frames_text(dump_frames(s@)))))
        } else if ollama {
            if s@.len() < bound {
                nonempty_text(payloads_text(payloads_of_lines(str_lines(s@), true), ollama, s@.len()))
            } else {
                None
            }
        } else {
            Some(s@)
        },
        JsonValue::Array(items) => nonempty_text(items_answer_text(items@, ollama, bound)),
        JsonValue::Object(pairs) => object_text(pairs@),
        _ => None,
    }
}

pub open spec fn items_answer_text(items: Seq<JsonValue>, ollama: bool, bound: nat) -> Seq<char>
    decreases bound, 0nat, items,
{
    if items.len() == 0 {
        seq![]
    } else {
        text_or_empty(answer_text_within(items[0], ollama, bound)) + items_answer_text(
            items.drop_first(),
            ollama,
            bound,
        )
    }
}

/// The texts of the JSON of the payloads, one after another.
pub open spec fn payloads_text(ps: Seq<Seq<char>>, ollama: bool, bound: nat) -> Seq<char>
    decreases bound, 1nat, ps,
{
    if ps.len() == 0 {
        seq![]
    } else {
        let p = ps.last();
        payloads_text(ps.drop_last(), ollama, bound) + match json_text_value(p) {
            Some(v) => if p.len() <= bound {
                text_or_empty(answer_text_within(v, ollama, p.len()))
            } else {
                seq![]
            },
            None => seq![],
        }
    }
}

/// One more than the length of the longest string of the value and of its
/// arrays.
pub open spec fn string_bound(v: JsonValue) -> nat
    decreases v,
{
    match v {
        JsonValue::String(s) => s@.len() + 1,
        JsonValue::Array(items) => items_string_bound(items@),
        _ => 0,
    }
}

pub open spec fn items_string_bound(items: Seq<JsonValue>) -> nat
    decreases items,
{
    if items.len() == 0 {
        0
    } else {
        let a = string_bound(items[0]);
        let b = items_string_bound(items.drop_first());
        if a >= b {
            a
        } else {
            b
        }
    }
}

proof fn lemma_strings_below_grows(v: JsonValue, a: nat, b: nat)
    requires
        strings_below(v, a),
        a <= b,
    ensures
        strings_below(v, b),
    decreases v,
{
    if let JsonValue::Array(items) = v {
        lemma_items_below_grows(items@, a, b);
    }
}

proof fn lemma_items_below_grows(items: Seq<JsonValue>, a: nat, b: nat)
    requires
        items_strings_below(items, a),
        a <= b,
    ensures
        items_strings_below(items, b),
    decreases items,
{
    if items.len() > 0 {
        lemma_strings_below_grows(items[0], a, b);
        lemma_items_below_grows(items.drop_first(), a, b);
    }
}

proof fn lemma_string_bound(v: JsonValue)
    ensures
        strings_below(v, string_bound(v)),
    decreases v,
{
    if let JsonValue::Array(items) = v {
        lemma_items_string_bound(items@);
    }
}

proof fn lemma_items_string_bound(items: Seq<JsonValue>)
    ensures
        items_strings_below(items, items_string_bound(items)),
    decreases items,
{
    if items.len() > 0 {
        lemma_string_bound(items[0]);
        lemma_items_string_bound(items.drop_first());
        lemma_strings_below_grows(items[0], string_bound(items[0]), items_string_bound(items));
        lemma_items_below_grows(
            items.drop_first(),
            items_string_bound(items.drop_first()),
            items_string_bound(items),
        );
    }
}

/// The JSON values of the payloads that parse.
fn parse_payloads(ps: &Vec<String>) -> (r: Vec<JsonValue>)
    ensures
        r@ == parsed_payloads(views(ps@)),
{
    let ghost all = views(ps@);
    let mut out: Vec<JsonValue> = Vec::new();
    let mut i: usize = 0;
    while i < ps.len()
        invariant
            i <= ps@.len(),
            all == views(ps@),
            out@ == parsed_payloads(all.take(i as int)),
        decreases ps@.len() - i,
    {
        assert(all.take(i + 1).drop_last() =~= all.take(i as int));
        assert(all.take(i + 1).last() == ps@[i as int]@);
        let ghost before = out@;
        match parse_json_text(ps[i].as_str()) {
            Some(v) => {
                out.push(v);
            },
            None => {},
        }
        assert(out@ =~= parsed_payloads(all.take(i + 1)));
        i += 1;
    }
    assert(all.take(ps@.len() as int) =~= all);
    out
}

fn payloads_text_exec(ps: &Vec<String>, ollama: bool, bound: usize) -> (r: String)
    ensures
        r@ == payloads_text(views(ps@), ollama, bound as nat),
    decreases bound, 1nat, ps@,
{
    let ghost all = views(ps@);
    let mut out = String::new();
    let mut i: usize = 0;
    while i < ps.len()
        invariant
            i <= ps@.len(),
            all == views(ps@),
            out@ == payloads_text(all.take(i as int), ollama, bound as nat),
        decreases ps@.len() - i,
    {
        assert(all.take(i + 1).drop_last() =~= all.take(i as int));
        assert(all.take(i + 1).last() == ps@[i as int]@);
        let p = ps[i].as_str();
        match parse_json_text(p) {
            Some(v) => {
                let n = p.unicode_len();
                if n <= bound {
                    if let Some(part) = answer_text_exec(&v, ollama, Ghost(n as nat)) {
                        out.append(part.as_str());
                    }
                }
            },
            None => {},
        }
        assert(out@ =~= payloads_text(all.take(i + 1), ollama, bound as nat));
        i += 1;
    }
    assert(all.take(ps@.len() as int) =~= all);
    out
}

fn answer_text_exec(data: &JsonValue, ollama: bool, Ghost(bound): Ghost<nat>) -> (r: Option<String>)
    requires
        strings_below(*data, bound),
    ensures
        opt_view(r) == answer_text_within(*data, ollama, bound),
    decreases bound, 0nat, data,
{
    match data {
        JsonValue::String(s) => {
            if contains(s.as_str(), "data:") {
                let ps = dump_payloads(s.as_str(), false);
                let frames = parse_payloads(&ps);
                match accumulate_text_from_sse(&frames) {
                    Some(t) => Some(t),
                    None => Some(String::new()),
                }
            } else if ollama {
                let n = s.unicode_len();
                let ps = dump_payloads(s.as_str(), true);
                let t = payloads_text_exec(&ps, ollama, n);
                if t.unicode_len() == 0 {
                    None
                } else {
                    Some(t)
                }
            } else {
                Some(s.clone())
            }
        },
        JsonValue::Array(items) => {
            let mut combined = String::new();
            let mut i: usize = 0;
            assert(items@.skip(0) =~= items@);
            while i < items.len()
                invariant
                    i <= items@.len(),
                    *data == JsonValue::Array(*items),
                    items_strings_below(items@.skip(i as int), bound),
                    items_answer_text(items@, ollama, bound) == combined@ + items_answer_text(
                        items@.skip(i as int),
                        ollama,
                        bound,
                    ),
                decreases items@.len() - i,
            {
                assert(items@.skip(i as int).drop_first() =~= items@.skip(i + 1));
                assert(items@.skip(i as int)[0] == items@[i as int]);
                proof {
                    assert(decreases_to!(*data => (*data)->Array_0));
                    assert(decreases_to!(*items => items@));
                    assert(decreases_to!(items@ => items@[i as int]));
                }
                let ghost before = combined@;
                if let Some(part) = answer_text_exec(&items[i], ollama, Ghost(bound)) {
                    combined.append(part.as_str());
                }
                assert(before + items_answer_text(items@.skip(i as int), ollama, bound) =~= combined@
                    + items_answer_text(items@.skip(i + 1), ollama, bound));
                i += 1;
            }
            assert(items@.skip(i as int) =~= Seq::<JsonValue>::empty());
            assert(combined@ + items_answer_text(Seq::<JsonValue>::empty(), ollama, bound)
                =~= combined@);
            if combined.unicode_len() == 0 {
                None
            } else {
                Some(combined)
            }
        },
        JsonValue::Object(pairs) => object_text_exec(data, pairs),
        _ => None,
    }
}

/// The text of an answer as the provider sent it (see
/// `answer_text_within`); `ollama` when the provider is Ollama.
pub open spec fn answer_text(v: JsonValue, ollama: bool) -> Option<Seq<char>> {
    answer_text_within(v, ollama, string_bound(v))
}

pub fn extract_text(data: &JsonValue, provider_id: Option<&str>) -> (r: Option<String>)
    ensures
        opt_view(r) == answer_text(*data, bare_lines_for(provider_id)),
{
    proof {
        lemma_string_bound(*data);
    }
    answer_text_exec(data, is_ollama(provider_id), Ghost(string_bound(*data)))
}

// ------------------------------------------------------------------
// Reasoning and errors
// ------------------------------------------------------------------

/// A string that holds a whole streamed answer in server-sent events.
pub open spec fn sse_dump(v: JsonValue) -> bool {
    v matches JsonValue::String(s) && has_sub(s@, "data:"@)
}

pub fn is_sse_dump(v: &JsonValue) -> (r: bool)
    ensures
        r == sse_dump(*v),
{
    match v {
        JsonValue::String(s) => contains(s.as_str(), "data:"),
        _ => false,
    }
}

/// A string member that is not empty.
pub open spec fn nonempty_str(v: Option<JsonValue>) -> Option<Seq<char>> {
    match json_str(v) {
        Some(s) => if s.len() > 0 {
            Some(s)
        } else {
            None
        },
        None => None,
    }
}

/// The reasoning of an answer that is no streamed dump: the `reasoning`,
/// else the `reasoning_content`, of the message of its first choice, when
/// not empty.
pub open spec fn response_reasoning(v: JsonValue) -> Option<Seq<char>> {
    match v {
        JsonValue::Object(pairs) => match array_member(pairs@, "choices"@) {
            Some(cs) => if cs.len() > 0 {
                let msg = json_get(cs[0], "message"@);
                or_else(
                    nonempty_str(opt_get(msg, "reasoning"@)),
                    nonempty_str(opt_get(msg, "reasoning_content"@)),
                )
            } else {
                None
            },
            None => None,
        },
        _ => None,
    }
}

fn nonempty_str_exec(v: Option<&JsonValue>) -> (r: Option<String>)
    ensures
        opt_view(r) == nonempty_str(deref_opt(v)),
{
    match as_str(v) {
        Some(s) => if s.unicode_len() > 0 {
            Some(to_string(s))
        } else {
            None
        },
        None => None,
    }
}

/// The reasoning of an answer (see `response_reasoning`); a streamed dump
/// is read frame by frame instead.
/// The reasoning of an answer: that of the frames of a streamed dump, else
/// that of the answer object (see `response_reasoning`).
pub open spec fn answer_reasoning(v: JsonValue) -> Option<Seq<char>> {
    match v {
        JsonValue::String(s) => if has_sub(s@, "data:"@) {
            nonempty_text(frames_reasoning(dump_frames(s@)))
        } else {
            None
        },
        _ => response_reasoning(v),
    }
}

pub fn extract_reasoning(data: &JsonValue) -> (r: Option<String>)
    ensures
        opt_view(r) == answer_reasoning(*data),
{
    match data {
        JsonValue::String(s) => {
            if contains(s.as_str(), "data:") {
                let ps = dump_payloads(s.as_str(), false);
                let frames = parse_payloads(&ps);
                accumulate_reasoning_from_sse(&frames)
            } else {
                None
            }
        },
        JsonValue::Object(_) => {
            if let Some(JsonValue::Array(choices)) = get(data, "choices") {
                if choices.len() > 0 {
                    let msg = get(&choices[0], "message");
                    if let Some(t) = nonempty_str_exec(opt_get_exec(msg, "reasoning")) {
                        return Some(t);
                    }
                    if let Some(t) = nonempty_str_exec(opt_get_exec(msg, "reasoning_content")) {
                        return Some(t);
                    }
                }
            }
            None
        },
        _ => None,
    }
}

/// The error of the first candidate that stopped for a reason other than
/// a normal end.
pub open spec fn candidates_error(cs: Seq<JsonValue>) -> Option<Seq<char>> {
    first_text(
        cs.map_values(
            |c: JsonValue|
                match json_str(json_get(c, "finishReason"@)) {
                    Some(reason) => finish_reason_message(reason),
                    None => None,
                },
        ),
    )
}

/// The refusal that a Gemini answer reports: a blocked prompt, else a
/// candidate that stopped abnormally.
pub open spec fn gemini_error(v: JsonValue) -> Option<Seq<char>> {
    match json_str(opt_get(json_get(v, "promptFeedback"@), "blockReason"@)) {
        Some(reason) => Some(block_reason_message(reason)),
        None => match json_array(json_get(v, "candidates"@)) {
            Some(cs) => candidates_error(cs),
            None => None,
        },
    }
}

fn candidates_error_exec(cs: &Vec<JsonValue>) -> (r: Option<String>)
    ensures
        opt_view(r) == candidates_error(cs@),
{
    let ghost all = cs@.map_values(
        |c: JsonValue|
            match json_str(json_get(c, "finishReason"@)) {
                Some(reason) => finish_reason_message(reason),
                None => None,
            },
    );
    let mut i: usize = 0;
    assert(all.skip(0) =~= all);
    while i < cs.len()
        invariant
            i <= cs@.len(),
            all == cs@.map_values(
                |c: JsonValue|
                    match json_str(json_get(c, "finishReason"@)) {
                        Some(reason) => finish_reason_message(reason),
                        None => None,
                    },
            ),
            first_text(all) == first_text(all.skip(i as int)),
        decreases cs@.len() - i,
    {
        assert(all.skip(i as int).drop_first() =~= all.skip(i + 1));
        assert(all.skip(i as int)[0] == all[i as int]);
        if let Some(reason) = as_str(get(&cs[i], "finishReason")) {
            if let Some(m) = format_gemini_finish_reason_error(reason) {
                return Some(m);
            }
        }
        i += 1;
    }
    None
}

/// The refusal a Gemini answer reports (see `gemini_error`).
pub fn extract_gemini_error(v: &JsonValue) -> (r: Option<String>)
    ensures
        opt_view(r) == gemini_error(*v),
{
    if let Some(reason) = as_str(opt_get_exec(get(v, "promptFeedback"), "blockReason")) {
        return Some(format_gemini_block_reason(reason));
    }
    match as_array(get(v, "candidates")) {
        Some(cs) => candidates_error_exec(cs),
        None => None,
    }
}

pub open spec fn trimmed_text(t: Option<Seq<char>>) -> Option<Seq<char>> {
    match t {
        Some(x) => if trim_seq(x).len() > 0 {
            Some(trim_seq(x))
        } else {
            None
        },
        None => None,
    }
}

/// The error an answer reports: a Gemini refusal, else the text of its
/// `error`, else its `message` string, trimmed; a string answer trimmed;
/// else, all the answer shows, trimmed, when any of these is not blank.
pub open spec fn error_message(v: JsonValue) -> Option<Seq<char>> {
    let fallback = trimmed_text(joined(v));
    match v {
        JsonValue::Object(pairs) => if gemini_error(v) is Some {
            gemini_error(v)
        } else if trimmed_text(opt_joined(member(pairs@, "error"@))) is Some {
            trimmed_text(opt_joined(member(pairs@, "error"@)))
        } else if trimmed_text(json_str(member(pairs@, "message"@))) is Some {
            trimmed_text(json_str(member(pairs@, "message"@)))
        } else {
            fallback
        },
        JsonValue::String(s) => if trimmed_text(Some(s@)) is Some {
            trimmed_text(Some(s@))
        } else {
            fallback
        },
        _ => fallback,
    }
}

fn trimmed_text_exec(t: Option<&str>) -> (r: Option<String>)
    ensures
        opt_view(r) == trimmed_text(
            match t {
                Some(x) => Some(x@),
                None => None,
            },
        ),
{
    match t {
        Some(x) => if is_blank(x) {
            None
        } else {
            Some(trim(x))
        },
        None => None,
    }
}

/// The error an answer reports (see `error_message`).
pub fn extract_error_message(data: &JsonValue) -> (r: Option<String>)
    ensures
        opt_view(r) == error_message(*data),
{
    match data {
        JsonValue::Object(_) => {
            if let Some(m) = extract_gemini_error(data) {
                return Some(m);
            }
            if let Some(err) = get(data, "error") {
                let joined_err = join_text_fragments(err);
                let t = match &joined_err {
                    Some(x) => trimmed_text_exec(Some(x.as_str())),
                    None => None,
                };
                if t.is_some() {
                    return t;
                }
            }
            if let Some(t) = trimmed_text_exec(as_str(get(data, "message"))) {
                return Some(t);
            }
        },
        JsonValue::String(s) => {
            if let Some(t) = trimmed_text_exec(Some(s.as_str())) {
                return Some(t);
            }
        },
        _ => {},
    }
    let all = join_text_fragments(data);
    match &all {
        Some(x) => trimmed_text_exec(Some(x.as_str())),
        None => None,
    }
}

/// `Provider returned status N`.
pub open spec fn status_text(status: u16) -> Seq<char> {
    "Provider returned status "@ + decimal(status as nat)
}

/// The message of a refused request: what the answer reports, followed by
/// its status, or the bare status text when the answer reports nothing (or
/// reports exactly that text).
pub open spec fn failure_message(reported: Option<Seq<char>>, status: u16) -> Seq<char> {
    match reported {
        Some(m) => if m == status_text(status) {
            m
        } else {
            m + " (status "@ + decimal(status as nat) + ")"@
        },
        None => status_text(status),
    }
}

/// The message for an answer that came back with a failing status.
pub fn provider_failure_message(data: &JsonValue, status: u16) -> (r: String)
    ensures
        r@ == failure_message(error_message(*data), status),
{
    let code = u64_to_string(status as u64);
    let mut fallback = to_string("Provider returned status ");
    fallback.append(code.as_str());
    match extract_error_message(data) {
        Some(m) => {
            if str_eq(m.as_str(), fallback.as_str()) {
                m
            } else {
                let mut out = m;
                out.append(" (status ");
                out.append(code.as_str());
                out.append(")");
                out
            }
        },
        None => fallback,
    }
}

// ------------------------------------------------------------------
// One frame of a streamed answer
// ------------------------------------------------------------------

/// `Value::get(0)`: the first item of an array.
pub open spec fn first_item(v: Option<JsonValue>) -> Option<JsonValue> {
    match json_array(v) {
        Some(items) => if items.len() > 0 {
            Some(items[0])
        } else {
            None
        },
        None => None,
    }
}

pub(crate) fn first_item_exec(v: Option<&JsonValue>) -> (r: Option<&JsonValue>)
    ensures
        deref_opt(r) == first_item(deref_opt(v)),
{
    match as_array(v) {
        Some(items) => if items.len() > 0 {
            Some(&items[0])
        } else {
            None
        },
        None => None,
    }
}

/// A Gemini part's text, taken when its `thought` flag is `thought`.
pub open spec fn part_text(part: JsonValue, thought: bool) -> Seq<char> {
    if (json_bool(json_get(part, "thought"@)) == Some(true)) == thought {
        text_or_empty(json_str(json_get(part, "text"@)))
    } else {
        seq![]
    }
}

pub open spec fn parts_text(parts: Seq<JsonValue>, thought: bool) -> Seq<char>
    decreases parts.len(),
{
    if parts.len() == 0 {
        seq![]
    } else {
        parts_text(parts.drop_last(), thought) + part_text(parts.last(), thought)
    }
}

pub open spec fn candidate_parts_text(c: JsonValue, thought: bool) -> Seq<char> {
    match json_array(opt_get(json_get(c, "content"@), "parts"@)) {
        Some(parts) => parts_text(parts, thought),
        None => seq![],
    }
}

pub open spec fn candidates_parts_text(cs: Seq<JsonValue>, thought: bool) -> Seq<char>
    decreases cs.len(),
{
    if cs.len() == 0 {
        seq![]
    } else {
        candidates_parts_text(cs.drop_last(), thought) + candidate_parts_text(cs.last(), thought)
    }
}

/// The text of the parts of all candidates whose `thought` flag is
/// `thought`, when there is some.
pub open spec fn gemini_parts_text(v: JsonValue, thought: bool) -> Option<Seq<char>> {
    match json_array(json_get(v, "candidates"@)) {
        Some(cs) => if candidates_parts_text(cs, thought).len() > 0 {
            Some(candidates_parts_text(cs, thought))
        } else {
            None
        },
        None => None,
    }
}

fn append_parts_text(parts: &Vec<JsonValue>, thought: bool, out: &mut String)
    ensures
        final(out)@ == old(out)@ + parts_text(parts@, thought),
{
    let ghost start = out@;
    let mut i: usize = 0;
    while i < parts.len()
        invariant
            i <= parts@.len(),
            out@ == start + parts_text(parts@.take(i as int), thought),
        decreases parts@.len() - i,
    {
        assert(parts@.take(i + 1).drop_last() =~= parts@.take(i as int));
        let part = &parts[i];
        let is_thought = match as_bool(get(part, "thought")) {
            Some(b) => b,
            None => false,
        };
        if is_thought == thought {
            if let Some(text) = as_str(get(part, "text")) {
                out.append(text);
            }
        }
        assert(out@ =~= start + parts_text(parts@.take(i + 1), thought));
        i += 1;
    }
    assert(parts@.take(i as int) =~= parts@);
}

fn gemini_parts_text_exec(v: &JsonValue, thought: bool) -> (r: Option<String>)
    ensures
        opt_view(r) == gemini_parts_text(*v, thought),
{
    match as_array(get(v, "candidates")) {
        Some(cs) => {
            let mut combined = String::new();
            let mut i: usize = 0;
            while i < cs.len()
                invariant
                    i <= cs@.len(),
                    combined@ == candidates_parts_text(cs@.take(i as int), thought),
                decreases cs@.len() - i,
            {
                assert(cs@.take(i + 1).drop_last() =~= cs@.take(i as int));
                if let Some(parts) = as_array(opt_get_exec(get(&cs[i], "content"), "parts")) {
                    append_parts_text(parts, thought, &mut combined);
                }
                assert(combined@ =~= candidates_parts_text(cs@.take(i + 1), thought));
                i += 1;
            }
            assert(cs@.take(i as int) =~= cs@);
            if combined.unicode_len() > 0 {
                Some(combined)
            } else {
                None
            }
        },
        None => None,
    }
}

/// The text of one streamed frame: the first choice's delta content, else
/// its message content, else the text of an Anthropic content delta, else
/// the non-thought parts of the Gemini candidates, else a top-level
/// `content`, the `message` content, or a top-level `text`.
pub open spec fn frame_text(v: JsonValue) -> Option<Seq<char>> {
    let c0 = first_item(json_get(v, "choices"@));
    or_else(
        json_str(opt_get(opt_get(c0, "delta"@), "content"@)),
        or_else(
            json_str(opt_get(opt_get(c0, "message"@), "content"@)),
            or_else(
                if json_str(json_get(v, "type"@)) == Some("content_block_delta"@) {
                    json_str(opt_get(json_get(v, "delta"@), "text"@))
                } else {
                    None
                },
                or_else(
                    gemini_parts_text(v, false),
                    or_else(
                        json_str(json_get(v, "content"@)),
                        or_else(
                            json_str(opt_get(json_get(v, "message"@), "content"@)),
                            json_str(json_get(v, "text"@)),
                        ),
                    ),
                ),
            ),
        ),
    )
}

pub(crate) fn str_owned(v: Option<&JsonValue>) -> (r: Option<String>)
    ensures
        opt_view(r) == json_str(deref_opt(v)),
{
    match as_str(v) {
        Some(s) => Some(to_string(s)),
        None => None,
    }
}

/// The text of one streamed frame (see `frame_text`).
pub fn extract_text_from_value(v: &JsonValue) -> (r: Option<String>)
    ensures
        opt_view(r) == frame_text(*v),
{
    let c0 = first_item_exec(get(v, "choices"));
    if let Some(s) = str_owned(opt_get_exec(opt_get_exec(c0, "delta"), "content")) {
        return Some(s);
    }
    if let Some(s) = str_owned(opt_get_exec(opt_get_exec(c0, "message"), "content")) {
        return Some(s);
    }
    let is_delta = match as_str(get(v, "type")) {
        Some(t) => str_eq(t, "content_block_delta"),
        None => false,
    };
    if is_delta {
        if let Some(s) = str_owned(opt_get_exec(get(v, "delta"), "text")) {
            return Some(s);
        }
    }
    if let Some(s) = gemini_parts_text_exec(v, false) {
        return Some(s);
    }
    if let Some(s) = str_owned(get(v, "content")) {
        return Some(s);
    }
    if let Some(s) = str_owned(opt_get_exec(get(v, "message"), "content")) {
        return Some(s);
    }
    str_owned(get(v, "text"))
}

/// The reasoning of one streamed frame: the first choice's delta
/// `reasoning`, else its delta `reasoning_content`, else the same two of its
/// message, else the thought parts of the Gemini candidates.
pub open spec fn frame_reasoning(v: JsonValue) -> Option<Seq<char>> {
    let c0 = first_item(json_get(v, "choices"@));
    or_else(
        json_str(opt_get(opt_get(c0, "delta"@), "reasoning"@)),
        or_else(
            json_str(opt_get(opt_get(c0, "delta"@), "reasoning_content"@)),
            or_else(
                json_str(opt_get(opt_get(c0, "message"@), "reasoning"@)),
                or_else(
                    json_str(opt_get(opt_get(c0, "message"@), "reasoning_content"@)),
                    gemini_parts_text(v, true),
                ),
            ),
        ),
    )
}

/// The reasoning of one streamed frame (see `frame_reasoning`).
pub fn extract_reasoning_from_value(v: &JsonValue) -> (r: Option<String>)
    ensures
        opt_view(r) == frame_reasoning(*v),
{
    let c0 = first_item_exec(get(v, "choices"));
    let delta = opt_get_exec(c0, "delta");
    let message = opt_get_exec(c0, "message");
    if let Some(s) = str_owned(opt_get_exec(delta, "reasoning")) {
        return Some(s);
    }
    if let Some(s) = str_owned(opt_get_exec(delta, "reasoning_content")) {
        return Some(s);
    }
    if let Some(s) = str_owned(opt_get_exec(message, "reasoning")) {
        return Some(s);
    }
    if let Some(s) = str_owned(opt_get_exec(message, "reasoning_content")) {
        return Some(s);
    }
    gemini_parts_text_exec(v, true)
}

// ------------------------------------------------------------------
// Images
// ------------------------------------------------------------------

/// The data URL of one image entry, when it is an image data URL.
pub open spec fn image_entry_url(img: JsonValue) -> Seq<Seq<char>> {
    match json_str(opt_get(json_get(img, "image_url"@), "url"@)) {
        Some(u) => if has_prefix(u, "data:image/"@) {
            seq![u]
        } else {
            seq![]
        },
        None => seq![],
    }
}

pub open spec fn images_urls(imgs: Seq<JsonValue>) -> Seq<Seq<char>>
    decreases imgs.len(),
{
    if imgs.len() == 0 {
        seq![]
    } else {
        images_urls(imgs.drop_last()) + image_entry_url(imgs.last())
    }
}

/// The images of a choice: those of its delta, else those of its message.
pub open spec fn choice_images(choice: JsonValue) -> Seq<JsonValue> {
    match json_array(opt_get(json_get(choice, "delta"@), "images"@)) {
        Some(a) => a,
        None => match json_array(opt_get(json_get(choice, "message"@), "images"@)) {
            Some(a) => a,
            None => seq![],
        },
    }
}

pub open spec fn choices_image_urls(cs: Seq<JsonValue>) -> Seq<Seq<char>>
    decreases cs.len(),
{
    if cs.len() == 0 {
        seq![]
    } else {
        choices_image_urls(cs.drop_last()) + images_urls(choice_images(cs.last()))
    }
}

/// The image data URLs of one frame, choice by choice.
pub open spec fn image_data_urls(v: JsonValue) -> Seq<Seq<char>> {
    match json_array(json_get(v, "choices"@)) {
        Some(cs) => choices_image_urls(cs),
        None => seq![],
    }
}

fn append_image_urls(imgs: &Vec<JsonValue>, out: &mut Vec<String>)
    ensures
        views(final(out)@) == views(old(out)@) + images_urls(imgs@),
{
    let ghost start = views(out@);
    let mut i: usize = 0;
    while i < imgs.len()
        invariant
            i <= imgs@.len(),
            views(out@) == start + images_urls(imgs@.take(i as int)),
        decreases imgs@.len() - i,
    {
        assert(imgs@.take(i + 1).drop_last() =~= imgs@.take(i as int));
        let ghost before = views(out@);
        if let Some(url) = as_str(opt_get_exec(get(&imgs[i], "image_url"), "url")) {
            if starts_with(url, "data:image/") {
                out.push(to_string(url));
                assert(views(out@) =~= before + seq![url@]);
            }
        }
        assert(views(out@) =~= start + images_urls(imgs@.take(i + 1)));
        i += 1;
    }
    assert(imgs@.take(i as int) =~= imgs@);
}

/// Appends to `out` the image data URLs of one frame (see
/// `image_data_urls`).
pub fn extract_image_data_urls_from_value(v: &JsonValue, out: &mut Vec<String>)
    ensures
        views(final(out)@) == views(old(out)@) + image_data_urls(*v),
{
    let ghost start = views(out@);
    match as_array(get(v, "choices")) {
        Some(cs) => {
            let mut i: usize = 0;
            while i < cs.len()
                invariant
                    i <= cs@.len(),
                    views(out@) == start + choices_image_urls(cs@.take(i as int)),
                decreases cs@.len() - i,
            {
                assert(cs@.take(i + 1).drop_last() =~= cs@.take(i as int));
                let choice = &cs[i];
                let images = match as_array(opt_get_exec(get(choice, "delta"), "images")) {
                    Some(a) => Some(a),
                    None => as_array(opt_get_exec(get(choice, "message"), "images")),
                };
                let ghost before = views(out@);
                match images {
                    Some(a) => append_image_urls(a, out),
                    None => {
                        assert(images_urls(Seq::<JsonValue>::empty()) =~= Seq::<Seq<char>>::empty());
                        assert(views(out@) =~= before + images_urls(Seq::<JsonValue>::empty()));
                    },
                }
                assert(views(out@) =~= start + choices_image_urls(cs@.take(i + 1)));
                i += 1;
            }
            assert(cs@.take(i as int) =~= cs@);
        },
        None => {
            assert(views(out@) =~= start + image_data_urls(*v));
        },
    }
}

// ------------------------------------------------------------------
// A whole streamed answer, frame by frame
// ------------------------------------------------------------------

pub open spec fn nonempty_text(t: Seq<char>) -> Option<Seq<char>> {
    if t.len() > 0 {
        Some(t)
    } else {
        None
    }
}

pub open spec fn frames_text(frames: Seq<JsonValue>) -> Seq<char>
    decreases frames.len(),
{
    if frames.len() == 0 {
        seq![]
    } else {
        frames_text(frames.drop_last()) + text_or_empty(frame_text(frames.last()))
    }
}

pub open spec fn frames_reasoning(frames: Seq<JsonValue>) -> Seq<char>
    decreases frames.len(),
{
    if frames.len() == 0 {
        seq![]
    } else {
        frames_reasoning(frames.drop_last()) + text_or_empty(frame_reasoning(frames.last()))
    }
}

pub open spec fn frames_image_urls(frames: Seq<JsonValue>) -> Seq<Seq<char>>
    decreases frames.len(),
{
    if frames.len() == 0 {
        seq![]
    } else {
        frames_image_urls(frames.drop_last()) + image_data_urls(frames.last())
    }
}

/// The text of a streamed answer: the texts of its frames (the JSON of its
/// payloads, in order) one after another, when there is any.
pub fn accumulate_text_from_sse(frames: &Vec<JsonValue>) -> (r: Option<String>)
    ensures
        opt_view(r) == nonempty_text(frames_text(frames@)),
{
    let mut out = String::new();
    let mut i: usize = 0;
    while i < frames.len()
        invariant
            i <= frames@.len(),
            out@ == frames_text(frames@.take(i as int)),
        decreases frames@.len() - i,
    {
        assert(frames@.take(i + 1).drop_last() =~= frames@.take(i as int));
        if let Some(piece) = extract_text_from_value(&frames[i]) {
            out.append(piece.as_str());
        }
        assert(out@ =~= frames_text(frames@.take(i + 1)));
        i += 1;
    }
    assert(frames@.take(i as int) =~= frames@);
    if out.unicode_len() == 0 {
        None
    } else {
        Some(out)
    }
}

/// The reasoning of a streamed answer, frame by frame, when there is any.
pub fn accumulate_reasoning_from_sse(frames: &Vec<JsonValue>) -> (r: Option<String>)
    ensures
        opt_view(r) == nonempty_text(frames_reasoning(frames@)),
{
    let mut out = String::new();
    let mut i: usize = 0;
    while i < frames.len()
        invariant
            i <= frames@.len(),
            out@ == frames_reasoning(frames@.take(i as int)),
        decreases frames@.len() - i,
    {
        assert(frames@.take(i + 1).drop_last() =~= frames@.take(i as int));
        if let Some(piece) = extract_reasoning_from_value(&frames[i]) {
            out.append(piece.as_str());
        }
        assert(out@ =~= frames_reasoning(frames@.take(i + 1)));
        i += 1;
    }
    assert(frames@.take(i as int) =~= frames@);
    if out.unicode_len() == 0 {
        None
    } else {
        Some(out)
    }
}

/// The image data URLs of a streamed answer, frame by frame.
pub fn accumulate_image_data_urls_from_sse(frames: &Vec<JsonValue>) -> (r: Vec<String>)
    ensures
        views(r@) == frames_image_urls(frames@),
{
    let mut out: Vec<String> = Vec::new();
    let mut i: usize = 0;
    assert(views(out@) =~= Seq::<Seq<char>>::empty());
    while i < frames.len()
        invariant
            i <= frames@.len(),
            views(out@) == frames_image_urls(frames@.take(i as int)),
        decreases frames@.len() - i,
    {
        assert(frames@.take(i + 1).drop_last() =~= frames@.take(i as int));
        extract_image_data_urls_from_value(&frames[i], &mut out);
        i += 1;
    }
    assert(frames@.take(i as int) =~= frames@);
    out
}

/// A stream read in two parts shows the text of the first part followed by
/// that of the second: the text of a whole streamed answer is the text of
/// its frames, delta after delta.
pub proof fn lemma_frames_text_append(a: Seq<JsonValue>, b: Seq<JsonValue>)
    ensures
        frames_text(a + b) == frames_text(a) + frames_text(b),
        frames_reasoning(a + b) == frames_reasoning(a) + frames_reasoning(b),
    decreases b.len(),
{
    if b.len() == 0 {
        assert(a + b =~= a);
        assert(frames_text(a) + frames_text(b) =~= frames_text(a));
        assert(frames_reasoning(a) + frames_reasoning(b) =~= frames_reasoning(a));
    } else {
        lemma_frames_text_append(a, b.drop_last());
        assert((a + b).drop_last() =~= a + b.drop_last());
        assert((a + b).last() == b.last());
        assert(frames_text(a + b) =~= frames_text(a) + frames_text(b));
        assert(frames_reasoning(a + b) =~= frames_reasoning(a) + frames_reasoning(b));
    }
}

} // verus!
