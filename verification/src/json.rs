//! JSON values as the model's answers carry them, and the ways the answers
//! are read: a field of an object, a string, an array, a flag, a count.
use vstd::prelude::*;

use crate::fields::FieldValue;
use crate::text::{str_eq, trim, trim_seq};

verus! {

/// A JSON number: a non-negative integer, a negative integer, or one with
/// a fraction or exponent, kept as its JSON text (the library never reads
/// its value).
#[derive(Debug)]
pub enum JsonNumber {
    PosInt(u64),
    NegInt(i64),
    Float(String),
}

/// A JSON value; an object keeps its members in order, each name once.
#[derive(Debug)]
pub enum JsonValue {
    Null,
    Bool(bool),
    Number(JsonNumber),
    String(String),
    Array(Vec<JsonValue>),
    Object(Vec<(String, JsonValue)>),
}

// ------------------------------------------------------------------
// Parsing JSON text (serde_json)
// ------------------------------------------------------------------

#[verifier::external_type_specification]
#[verifier::external_body]
pub struct ExSerdeJsonValue(serde_json::Value);

/// A `serde_json::Value` as the library's value: numbers as non-negative
/// or negative integers when they are, else as their JSON text.
#[verifier::external_body]
fn json_value_of(v: serde_json::Value) -> JsonValue {
    match v {
        serde_json::Value::Null => JsonValue::Null,
        serde_json::Value::Bool(b) => JsonValue::Bool(b),
        serde_json::Value::Number(n) => JsonValue::Number(match (n.as_u64(), n.as_i64()) {
            (Some(u), _) => JsonNumber::PosInt(u),
            (None, Some(i)) => JsonNumber::NegInt(i),
            _ => JsonNumber::Float(n.to_string()),
        }),
        serde_json::Value::String(t) => JsonValue::String(t),
        serde_json::Value::Array(a) => JsonValue::Array(a.into_iter().map(json_value_of).collect()),
        serde_json::Value::Object(o) => JsonValue::Object(o.into_iter().map(|(k, x)| (k, json_value_of(x))).collect()),
    }
}

/// What `serde_json::from_str::<Value>` gives for a text: the value read,
/// as the library's value, or the error's `Display` text.
pub uninterp spec fn json_text_result(text: Seq<char>) -> Result<JsonValue, Seq<char>>;

/// The value a JSON text holds; nothing when the text is no JSON.
pub open spec fn json_text_value(text: Seq<char>) -> Option<JsonValue> {
    match json_text_result(text) {
        Ok(v) => Some(v),
        Err(_) => None,
    }
}

/// Every string of the value, and of its arrays at any depth, is shorter
/// than `n`.
pub open spec fn strings_below(v: JsonValue, n: nat) -> bool
    decreases v,
{
    match v {
        JsonValue::String(s) => s@.len() < n,
        JsonValue::Array(items) => items_strings_below(items@, n),
        _ => true,
    }
}

pub open spec fn items_strings_below(items: Seq<JsonValue>, n: nat) -> bool
    decreases items,
{
    if items.len() == 0 {
        true
    } else {
        strings_below(items[0], n) && items_strings_below(items.drop_first(), n)
    }
}

/// Calls `serde_json::from_str::<serde_json::Value>`; the value read, or
/// the error's `Display` text, is named `json_text_result`.  A string in
/// JSON text is written between quotes, each escape at least as long as
/// what it stands for, so every string the value holds is shorter than the
/// text.
#[verifier::external_body]
fn parse_json(text: &str) -> (r: Result<JsonValue, String>)
    ensures
        match r {
            Ok(v) => json_text_result(text@) == Ok::<JsonValue, Seq<char>>(v) && strings_below(
                v,
                text@.len(),
            ),
            Err(e) => json_text_result(text@) == Err::<JsonValue, Seq<char>>(e@),
        },
{
    match serde_json::from_str::<serde_json::Value>(text) {
        Ok(v) => Ok(json_value_of(v)),
        Err(e) => Err(e.to_string()),
    }
}

/// The value a JSON text holds, when it is JSON.
pub fn parse_json_text(text: &str) -> (r: Option<JsonValue>)
    ensures
        r == json_text_value(text@),
        r matches Some(v) ==> strings_below(v, text@.len()),
{
    match parse_json(text) {
        Ok(v) => Some(v),
        Err(_) => None,
    }
}

/// The value a JSON text holds, or why it holds none.
pub fn parse_json_result(text: &str) -> (r: Result<JsonValue, String>)
    ensures
        match r {
            Ok(v) => json_text_result(text@) == Ok::<JsonValue, Seq<char>>(v),
            Err(e) => json_text_result(text@) == Err::<JsonValue, Seq<char>>(e@),
        },
{
    parse_json(text)
}

/// The first member called `key`.
pub open spec fn member(pairs: Seq<(String, JsonValue)>, key: Seq<char>) -> Option<JsonValue>
    decreases pairs.len(),
{
    if pairs.len() == 0 {
        None
    } else if pairs[0].0@ == key {
        Some(pairs[0].1)
    } else {
        member(pairs.drop_first(), key)
    }
}

/// `Value::get` with a name: the member of an object.
pub open spec fn json_get(v: JsonValue, key: Seq<char>) -> Option<JsonValue> {
    match v {
        JsonValue::Object(pairs) => member(pairs@, key),
        _ => None,
    }
}

pub open spec fn opt_get(v: Option<JsonValue>, key: Seq<char>) -> Option<JsonValue> {
    match v {
        Some(x) => json_get(x, key),
        None => None,
    }
}

/// `Value::as_str`.
pub open spec fn json_str(v: Option<JsonValue>) -> Option<Seq<char>> {
    match v {
        Some(JsonValue::String(s)) => Some(s@),
        _ => None,
    }
}

/// `Value::as_bool`.
pub open spec fn json_bool(v: Option<JsonValue>) -> Option<bool> {
    match v {
        Some(JsonValue::Bool(b)) => Some(b),
        _ => None,
    }
}

/// `Value::as_u64`.
pub open spec fn json_u64(v: Option<JsonValue>) -> Option<u64> {
    match v {
        Some(JsonValue::Number(JsonNumber::PosInt(n))) => Some(n),
        _ => None,
    }
}

/// `Value::as_array`.
pub open spec fn json_array(v: Option<JsonValue>) -> Option<Seq<JsonValue>> {
    match v {
        Some(JsonValue::Array(items)) => Some(items@),
        _ => None,
    }
}

/// The member under `camel`, or under `snake` when there is none.
pub open spec fn aliased(v: JsonValue, camel: Seq<char>, snake: Seq<char>) -> Option<JsonValue> {
    match json_get(v, camel) {
        Some(x) => Some(x),
        None => json_get(v, snake),
    }
}

/// A string member, trimmed, when it is not blank.
pub open spec fn trimmed_str(v: Option<JsonValue>) -> Option<Seq<char>> {
    match json_str(v) {
        Some(s) => if trim_seq(s).len() != 0 {
            Some(trim_seq(s))
        } else {
            None
        },
        None => None,
    }
}

pub fn get<'a>(v: &'a JsonValue, key: &str) -> (r: Option<&'a JsonValue>)
    ensures
        match r {
            Some(x) => json_get(*v, key@) == Some(*x),
            None => json_get(*v, key@) is None,
        },
{
    match v {
        JsonValue::Object(pairs) => {
            let mut i: usize = 0;
            assert(pairs@.skip(0) =~= pairs@);
            while i < pairs.len()
                invariant
                    i <= pairs@.len(),
                    json_get(*v, key@) == member(pairs@, key@),
                    member(pairs@, key@) == member(pairs@.skip(i as int), key@),
                decreases pairs@.len() - i,
            {
                assert(pairs@.skip(i as int).drop_first() =~= pairs@.skip(i + 1));
                assert(pairs@.skip(i as int)[0] == pairs@[i as int]);
                if str_eq(pairs[i].0.as_str(), key) {
                    return Some(&pairs[i].1);
                }
                i += 1;
            }
            None
        },
        _ => None,
    }
}

pub fn opt_get_exec<'a>(v: Option<&'a JsonValue>, key: &str) -> (r: Option<&'a JsonValue>)
    ensures
        match r {
            Some(x) => opt_get(
                match v {
                    Some(y) => Some(*y),
                    None => None,
                },
                key@,
            ) == Some(*x),
            None => opt_get(
                match v {
                    Some(y) => Some(*y),
                    None => None,
                },
                key@,
            ) is None,
        },
{
    match v {
        Some(x) => get(x, key),
        None => None,
    }
}

pub open spec fn deref_opt(v: Option<&JsonValue>) -> Option<JsonValue> {
    match v {
        Some(x) => Some(*x),
        None => None,
    }
}

pub fn as_str<'a>(v: Option<&'a JsonValue>) -> (r: Option<&'a str>)
    ensures
        match r {
            Some(s) => json_str(deref_opt(v)) == Some(s@),
            None => json_str(deref_opt(v)) is None,
        },
{
    match v {
        Some(JsonValue::String(s)) => Some(s.as_str()),
        _ => None,
    }
}

pub fn as_bool(v: Option<&JsonValue>) -> (r: Option<bool>)
    ensures
        r == json_bool(deref_opt(v)),
{
    match v {
        Some(JsonValue::Bool(b)) => Some(*b),
        _ => None,
    }
}

pub fn as_u64(v: Option<&JsonValue>) -> (r: Option<u64>)
    ensures
        r == json_u64(deref_opt(v)),
{
    match v {
        Some(JsonValue::Number(JsonNumber::PosInt(n))) => Some(*n),
        _ => None,
    }
}

pub fn as_array<'a>(v: Option<&'a JsonValue>) -> (r: Option<&'a Vec<JsonValue>>)
    ensures
        match r {
            Some(a) => json_array(deref_opt(v)) == Some(a@),
            None => json_array(deref_opt(v)) is None,
        },
{
    match v {
        Some(JsonValue::Array(items)) => Some(items),
        _ => None,
    }
}

pub fn aliased_get<'a>(v: &'a JsonValue, camel: &str, snake: &str) -> (r: Option<&'a JsonValue>)
    ensures
        deref_opt(r) == aliased(*v, camel@, snake@),
{
    match get(v, camel) {
        Some(x) => Some(x),
        None => get(v, snake),
    }
}

pub fn trimmed_str_exec(v: Option<&JsonValue>) -> (r: Option<String>)
    ensures
        match r {
            Some(s) => trimmed_str(deref_opt(v)) == Some(s@),
            None => trimmed_str(deref_opt(v)) is None,
        },
{
    match as_str(v) {
        Some(s) => if !crate::text::is_blank(s) {
            Some(trim(s))
        } else {
            None
        },
        None => None,
    }
}

/// The texts of an array's string items; other items give nothing.
pub open spec fn item_texts(items: Seq<JsonValue>) -> Seq<Option<Seq<char>>> {
    items.map_values(|x: JsonValue| json_str(Some(x)))
}

pub open spec fn opt_texts(v: Seq<Option<String>>) -> Seq<Option<Seq<char>>> {
    v.map_values(|o: Option<String>| match o {
        Some(s) => Some(s@),
        None => None,
    })
}

/// The library's reading of a member: absent, its text, its flag, the
/// texts of an array, or something else.
pub open spec fn reads_as(f: FieldValue, v: Option<JsonValue>) -> bool {
    match v {
        None => f is Missing,
        Some(JsonValue::String(s)) => f matches FieldValue::Text(t) && t@ == s@,
        Some(JsonValue::Bool(b)) => f == FieldValue::Flag(b),
        Some(JsonValue::Array(items)) => f matches FieldValue::List(l) && opt_texts(l@)
            == item_texts(items@),
        Some(_) => f is Other,
    }
}

pub fn field_from(v: Option<&JsonValue>) -> (r: FieldValue)
    ensures
        reads_as(r, deref_opt(v)),
{
    match v {
        None => FieldValue::Missing,
        Some(JsonValue::String(s)) => FieldValue::Text(s.clone()),
        Some(JsonValue::Bool(b)) => FieldValue::Flag(*b),
        Some(JsonValue::Array(items)) => {
            let mut out: Vec<Option<String>> = Vec::new();
            let mut i: usize = 0;
            while i < items.len()
                invariant
                    i <= items@.len(),
                    opt_texts(out@) == item_texts(items@).take(i as int),
                decreases items@.len() - i,
            {
                let t = match &items[i] {
                    JsonValue::String(s) => Some(s.clone()),
                    _ => None,
                };
                let ghost before = opt_texts(out@);
                out.push(t);
                assert(opt_texts(out@) =~= before.push(item_texts(items@)[i as int]));
                assert(item_texts(items@).take(i + 1) =~= item_texts(items@).take(i as int).push(
                    item_texts(items@)[i as int],
                ));
                i += 1;
            }
            assert(item_texts(items@).take(items@.len() as int) =~= item_texts(items@));
            FieldValue::List(out)
        },
        Some(_) => FieldValue::Other,
    }
}

/// A tool call of the model: its name and arguments.
#[derive(Debug)]
pub struct ToolCall {
    pub name: String,
    pub arguments: JsonValue,
}

/// The position of the first call with this name.
pub open spec fn first_named(calls: Seq<ToolCall>, name: Seq<char>) -> Option<int>
    decreases calls.len(),
{
    if calls.len() == 0 {
        None
    } else if calls[0].name@ == name {
        Some(0)
    } else {
        match first_named(calls.drop_first(), name) {
            Some(i) => Some(i + 1),
            None => None,
        }
    }
}

pub proof fn lemma_first_named_bounds(calls: Seq<ToolCall>, name: Seq<char>)
    ensures
        first_named(calls, name) matches Some(i) ==> 0 <= i < calls.len() && calls[i].name@
            == name,
    decreases calls.len(),
{
    if calls.len() > 0 && calls[0].name@ != name {
        lemma_first_named_bounds(calls.drop_first(), name);
    }
}

pub fn find_call(calls: &Vec<ToolCall>, name: &str) -> (r: Option<usize>)
    ensures
        match r {
            Some(i) => first_named(calls@, name@) == Some(i as int) && i < calls@.len(),
            None => first_named(calls@, name@) is None,
        },
{
    let mut i: usize = 0;
    assert(calls@.skip(0) =~= calls@);
    while i < calls.len()
        invariant
            i <= calls@.len(),
            first_named(calls@, name@) == match first_named(calls@.skip(i as int), name@) {
                Some(k) => Some(k + i),
                None => None,
            },
        decreases calls@.len() - i,
    {
        assert(calls@.skip(i as int).drop_first() =~= calls@.skip(i + 1));
        assert(calls@.skip(i as int)[0] == calls@[i as int]);
        if str_eq(calls[i].name.as_str(), name) {
            return Some(i);
        }
        i += 1;
    }
    None
}

/// The trimmed, non-blank string items of an array.
pub open spec fn trimmed_items(items: Seq<JsonValue>) -> Seq<Seq<char>>
    decreases items.len(),
{
    if items.len() == 0 {
        seq![]
    } else {
        let rest = trimmed_items(items.drop_last());
        match trimmed_str(Some(items.last())) {
            Some(t) => rest.push(t),
            None => rest,
        }
    }
}

/// The string items of an array, as they are.
pub open spec fn str_items(items: Seq<JsonValue>) -> Seq<Seq<char>>
    decreases items.len(),
{
    if items.len() == 0 {
        seq![]
    } else {
        let rest = str_items(items.drop_last());
        match json_str(Some(items.last())) {
            Some(t) => rest.push(t),
            None => rest,
        }
    }
}

/// The non-negative integer items of an array.
pub open spec fn index_items(items: Seq<JsonValue>) -> Seq<usize>
    decreases items.len(),
{
    if items.len() == 0 {
        seq![]
    } else {
        let rest = index_items(items.drop_last());
        match json_u64(Some(items.last())) {
            Some(n) => rest.push(n as usize),
            None => rest,
        }
    }
}

pub fn trimmed_items_exec(items: &Vec<JsonValue>) -> (r: Vec<String>)
    ensures
        crate::text::views(r@) == trimmed_items(items@),
{
    let mut out: Vec<String> = Vec::new();
    let mut i: usize = 0;
    while i < items.len()
        invariant
            i <= items@.len(),
            crate::text::views(out@) == trimmed_items(items@.take(i as int)),
        decreases items@.len() - i,
    {
        assert(items@.take(i + 1).drop_last() =~= items@.take(i as int));
        assert(items@.take(i + 1).last() == items@[i as int]);
        match trimmed_str_exec(Some(&items[i])) {
            Some(t) => {
                let ghost before = crate::text::views(out@);
                out.push(t);
                assert(crate::text::views(out@) =~= before.push(out@.last()@));
            },
            None => {},
        }
        i += 1;
    }
    assert(items@.take(items@.len() as int) =~= items@);
    out
}

pub fn str_items_exec(items: &Vec<JsonValue>) -> (r: Vec<String>)
    ensures
        crate::text::views(r@) == str_items(items@),
{
    let mut out: Vec<String> = Vec::new();
    let mut i: usize = 0;
    while i < items.len()
        invariant
            i <= items@.len(),
            crate::text::views(out@) == str_items(items@.take(i as int)),
        decreases items@.len() - i,
    {
        assert(items@.take(i + 1).drop_last() =~= items@.take(i as int));
        assert(items@.take(i + 1).last() == items@[i as int]);
        match &items[i] {
            JsonValue::String(s) => {
                let ghost before = crate::text::views(out@);
                out.push(s.clone());
                assert(crate::text::views(out@) =~= before.push(out@.last()@));
            },
            _ => {},
        }
        i += 1;
    }
    assert(items@.take(items@.len() as int) =~= items@);
    out
}

pub fn index_items_exec(items: &Vec<JsonValue>) -> (r: Vec<usize>)
    ensures
        r@ == index_items(items@),
{
    let mut out: Vec<usize> = Vec::new();
    let mut i: usize = 0;
    while i < items.len()
        invariant
            i <= items@.len(),
            out@ == index_items(items@.take(i as int)),
        decreases items@.len() - i,
    {
        assert(items@.take(i + 1).drop_last() =~= items@.take(i as int));
        assert(items@.take(i + 1).last() == items@[i as int]);
        match &items[i] {
            JsonValue::Number(JsonNumber::PosInt(n)) => {
                out.push(*n as usize);
            },
            _ => {},
        }
        i += 1;
    }
    assert(items@.take(items@.len() as int) =~= items@);
    out
}

} // verus!
