//! Fields read from the JSON arguments a model sends, kept as plain values.
use vstd::prelude::*;

verus! {

/// A field read from a JSON object: absent, or a value of some kind.
#[derive(Debug)]
pub enum FieldValue {
    Missing,
    Text(String),
    Flag(bool),
    /// An array, each item's text when it is a string.
    List(Vec<Option<String>>),
    Other,
}

/// A flag read under its camel-case name, or under its snake-case name when
/// the first is absent; false unless the field found is `true`.
pub open spec fn aliased_flag(camel: FieldValue, snake: FieldValue) -> bool {
    match camel {
        FieldValue::Missing => snake matches FieldValue::Flag(b) && b,
        FieldValue::Flag(b) => b,
        _ => false,
    }
}

pub fn read_aliased_flag(camel: &FieldValue, snake: &FieldValue) -> (r: bool)
    ensures
        r == aliased_flag(*camel, *snake),
{
    match camel {
        FieldValue::Missing => match snake {
            FieldValue::Flag(b) => *b,
            _ => false,
        },
        FieldValue::Flag(b) => *b,
        _ => false,
    }
}

pub open spec fn text_arg(f: FieldValue) -> Option<Seq<char>> {
    match f {
        FieldValue::Text(t) => Some(t@),
        _ => None,
    }
}

pub fn text_of(f: &FieldValue) -> (r: Option<&str>)
    ensures
        match r {
            Some(t) => text_arg(*f) == Some(t@),
            None => text_arg(*f) is None,
        },
{
    match f {
        FieldValue::Text(t) => Some(t.as_str()),
        _ => None,
    }
}

} // verus!
