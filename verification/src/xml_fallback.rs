//! Reading the XML that a model writes in place of a tool call.  The
//! document's events (read with quick-xml) drive a small state machine;
//! text and references are decoded here.
use vstd::prelude::*;

use quick_xml::events::{BytesRef, BytesStart, Event};

use crate::fields::FieldValue;
use crate::lorebook_entry::{
    dedup_keywords, items_view, normalize_entry_draft, normalize_keywords, result_view,
    EntryArguments, LorebookEntryDraftResult, LorebookKeywordDraftResult, ResultView,
    MAX_GENERATED_KEYWORDS,
};
use crate::memory::{normalize_structured_fallback_text, unfenced};
use crate::request::opt_view;
use crate::text::{
    is_blank, lemma_trim_idempotent, lower_seq, str_eq, string_of, to_ascii_lowercase, to_string,
    trim, trim_seq, views,
};

verus! {

// ------------------------------------------------------------------
// Events
// ------------------------------------------------------------------

/// An element's start: its name and its attributes, each value unescaped
/// (`None` where unescaping failed).
pub struct XmlTag {
    pub name: String,
    pub attributes: Vec<(String, Option<String>)>,
}

/// One event of the document.
pub enum XmlEvent {
    Start(XmlTag),
    Empty(XmlTag),
    End(String),
    /// Text as written, with its escapes.
    Text(String),
    /// A reference `&...;`: the character it names when it is a character
    /// reference, and its content decoded.
    GeneralRef { char_ref: Option<char>, content: Result<String, String> },
    Eof,
    /// An event that carries nothing read here (a comment, a declaration).
    Other,
    /// The reader's error, as text.
    Error(String),
}

// ------------------------------------------------------------------
// Reading the document (quick-xml)
// ------------------------------------------------------------------

#[verifier::external_type_specification]
#[verifier::external_body]
#[verifier::reject_recursive_types(R)]
pub struct ExXmlReader<R>(quick_xml::Reader<R>);

#[verifier::external_type_specification]
#[verifier::external_body]
pub struct ExXmlBytesStart<'a>(quick_xml::events::BytesStart<'a>);

/// The events that quick-xml's `Reader::read_event` gives, one call after
/// another, on a reader made by `Reader::from_str(text)` with text trimming
/// on, up to and including its first `Eof` or error.
pub uninterp spec fn quick_xml_events(text: Seq<char>) -> Seq<XmlEvent>;

/// Converts quick-xml's `BytesStart`: its name, and each attribute that
/// `attributes()` reads without error, with its value through
/// `unescape_value` (`None` where that fails).  Nothing is stated of it:
/// the name `quick_xml_events` covers what comes out.
#[verifier::external_body]
fn xml_tag_of(e: &BytesStart) -> XmlTag {
    let attributes = e.attributes().flatten().map(
        |a| (String::from_utf8_lossy(a.key.as_ref()).into_owned(), a.unescape_value().ok().map(|v| v.into_owned())),
    );
    XmlTag { name: String::from_utf8_lossy(e.name().as_ref()).into_owned(), attributes: attributes.collect() }
}

#[verifier::external_type_specification]
#[verifier::external_body]
pub struct ExXmlBytesRef<'a>(quick_xml::events::BytesRef<'a>);

/// Converts quick-xml's `BytesRef`: the character `resolve_char_ref` names
/// (`None` where it names none or fails), and `xml_content`, or its error's
/// `Display` text.  Nothing is stated of it.
#[verifier::external_body]
fn xml_reference_of(r: &BytesRef) -> XmlEvent {
    XmlEvent::GeneralRef {
        char_ref: r.resolve_char_ref().ok().flatten(),
        content: r.xml_content().map(|c| c.into_owned()).map_err(|e| e.to_string()),
    }
}

/// Calls quick-xml's `Reader::read_event` once and converts the event,
/// one variant to one variant; errors become their `Display` text.  Nothing
/// is stated of it: the event depends on the reader's state.
#[verifier::external_body]
fn next_xml_event(reader: &mut quick_xml::Reader<&[u8]>) -> XmlEvent {
    match reader.read_event() {
        Ok(Event::Start(e)) => XmlEvent::Start(xml_tag_of(&e)),
        Ok(Event::Empty(e)) => XmlEvent::Empty(xml_tag_of(&e)),
        Ok(Event::End(e)) => XmlEvent::End(String::from_utf8_lossy(e.name().as_ref()).into_owned()),
        Ok(Event::Text(e)) => XmlEvent::Text(String::from_utf8_lossy(e.as_ref()).into_owned()),
        Ok(Event::GeneralRef(r)) => xml_reference_of(&r),
        Ok(Event::Eof) => XmlEvent::Eof,
        Ok(_) => XmlEvent::Other,
        Err(err) => XmlEvent::Error(err.to_string()),
    }
}

/// Reads `text` with quick-xml as its documentation shows: a reader from
/// `Reader::from_str`, text trimming on, `read_event` until `Eof` or an
/// error.  The events are `quick_xml_events` of the text: the reader's
/// output depends on the text alone.
#[verifier::external_body]
fn xml_events(text: &str) -> (r: Vec<XmlEvent>)
    ensures
        r@ == quick_xml_events(text@),
{
    let mut reader = quick_xml::Reader::from_str(text);
    reader.config_mut().trim_text(true);
    let mut out = Vec::new();
    loop {
        let event = next_xml_event(&mut reader);
        let last = matches!(event, XmlEvent::Eof | XmlEvent::Error(_));
        out.push(event);
        if last {
            return out;
        }
    }
}

// ------------------------------------------------------------------
// Decoding (quick-xml)
// ------------------------------------------------------------------

/// What `quick_xml::escape::unescape` gives for a text: the text with its
/// references replaced, or its error's message.
pub uninterp spec fn xml_unescaped(raw: Seq<char>) -> Result<Seq<char>, Seq<char>>;

/// Calls `quick_xml::escape::unescape`; its result, or its error's
/// `Display` text, is `xml_unescaped` of the input.
#[verifier::external_body]
fn xml_unescape(raw: &str) -> (r: Result<String, String>)
    ensures
        match r {
            Ok(t) => xml_unescaped(raw@) == Ok::<Seq<char>, Seq<char>>(t@),
            Err(e) => xml_unescaped(raw@) == Err::<Seq<char>, Seq<char>>(e@),
        },
{
    match quick_xml::escape::unescape(raw) {
        Ok(text) => Ok(text.into_owned()),
        Err(err) => Err(err.to_string()),
    }
}

/// The five entities that XML predefines.
pub open spec fn xml_entity(name: Seq<char>) -> Option<Seq<char>> {
    if name == "lt"@ {
        Some("<"@)
    } else if name == "gt"@ {
        Some(">"@)
    } else if name == "amp"@ {
        Some("&"@)
    } else if name == "apos"@ {
        Some("'"@)
    } else if name == "quot"@ {
        Some("\""@)
    } else {
        None
    }
}

/// Calls `quick_xml::escape::resolve_xml_entity`, which maps `lt`, `gt`,
/// `amp`, `apos` and `quot` to their characters and gives nothing for any
/// other name.
#[verifier::external_body]
fn resolve_xml_entity(name: &str) -> (r: Option<&'static str>)
    ensures
        match r {
            Some(t) => xml_entity(name@) == Some(t@),
            None => xml_entity(name@) is None,
        },
{
    quick_xml::escape::resolve_xml_entity(name)
}

/// A text's references decoded, or why they cannot be.
pub open spec fn decoded_text(raw: Seq<char>) -> Result<Seq<char>, Seq<char>> {
    match xml_unescaped(raw) {
        Ok(t) => Ok(t),
        Err(e) => Err("fallback XML text decode error: "@ + e),
    }
}

pub fn decode_xml_text(raw: &str) -> (r: Result<String, String>)
    ensures
        match r {
            Ok(t) => decoded_text(raw@) == Ok::<Seq<char>, Seq<char>>(t@),
            Err(e) => decoded_text(raw@) == Err::<Seq<char>, Seq<char>>(e@),
        },
{
    match xml_unescape(raw) {
        Ok(t) => Ok(t),
        Err(e) => {
            let mut m = to_string("fallback XML text decode error: ");
            m.append(e.as_str());
            Err(m)
        },
    }
}

/// A reference decoded: the character of a character reference; else a
/// predefined entity's text; else the reference written back as it was.
pub open spec fn decoded_reference(char_ref: Option<char>, content: Result<Seq<char>, Seq<char>>) -> Result<
    Seq<char>,
    Seq<char>,
> {
    match char_ref {
        Some(c) => Ok(seq![c]),
        None => match content {
            Err(e) => Err("fallback XML reference decode error: "@ + e),
            Ok(name) => match xml_entity(name) {
                Some(t) => Ok(t),
                None => Ok("&"@ + name + ";"@),
            },
        },
    }
}

pub open spec fn text_result(r: Result<String, String>) -> Result<Seq<char>, Seq<char>> {
    match r {
        Ok(t) => Ok(t@),
        Err(e) => Err(e@),
    }
}

pub fn decode_xml_general_ref(char_ref: Option<char>, content: &Result<String, String>) -> (r: Result<
    String,
    String,
>)
    ensures
        text_result(r) == decoded_reference(char_ref, text_result(*content)),
{
    if let Some(c) = char_ref {
        let one = [c];
        let s = string_of(&one);
        assert(one@ =~= seq![c]);
        return Ok(s);
    }
    match content {
        Err(e) => {
            let mut m = to_string("fallback XML reference decode error: ");
            m.append(e.as_str());
            Err(m)
        },
        Ok(name) => match resolve_xml_entity(name.as_str()) {
            Some(t) => Ok(to_string(t)),
            None => {
                let mut m = to_string("&");
                m.append(name.as_str());
                m.append(";");
                Ok(m)
            },
        },
    }
}

/// The value of the first attribute called `key`.
pub open spec fn attr_value(attrs: Seq<(String, Option<String>)>, key: Seq<char>) -> Option<Seq<char>>
    decreases attrs.len(),
{
    if attrs.len() == 0 {
        None
    } else if attrs[0].0@ == key {
        match attrs[0].1 {
            Some(v) => Some(v@),
            None => None,
        }
    } else {
        attr_value(attrs.drop_first(), key)
    }
}

pub fn attr_value_exec(tag: &XmlTag, key: &str) -> (r: Option<String>)
    ensures
        match r {
            Some(v) => attr_value(tag.attributes@, key@) == Some(v@),
            None => attr_value(tag.attributes@, key@) is None,
        },
{
    let attrs = &tag.attributes;
    let mut i: usize = 0;
    assert(attrs@.skip(0) =~= attrs@);
    while i < attrs.len()
        invariant
            i <= attrs@.len(),
            attrs@ == tag.attributes@,
            attr_value(attrs@, key@) == attr_value(attrs@.skip(i as int), key@),
        decreases attrs@.len() - i,
    {
        assert(attrs@.skip(i as int).drop_first() =~= attrs@.skip(i + 1));
        assert(attrs@.skip(i as int)[0] == attrs@[i as int]);
        if str_eq(attrs[i].0.as_str(), key) {
            assert(attr_value(attrs@.skip(i as int), key@) == match attrs@[i as int].1 {
                Some(v) => Some(v@),
                None => None,
            });
            let val: &Option<String> = &attrs[i].1;
            assert(*val == attrs@[i as int].1);
            match val {
                Some(v) => {
                    let c = v.clone();
                    assert(c@ == v@);
                    return Some(c);
                },
                None => {
                    return None;
                },
            }
        }
        i += 1;
    }
    None
}

/// An attribute value that means yes: `true`, `1` or `yes`, trimmed, in any
/// ASCII case.
pub open spec fn truthy(v: Seq<char>) -> bool {
    let l = lower_seq(trim_seq(v));
    l == "true"@ || l == "1"@ || l == "yes"@
}

/// The `alwaysActive` (else `always_active`) attribute of a tag, false when
/// absent.
pub open spec fn always_active_attr(tag: XmlTag) -> bool {
    match attr_value(tag.attributes@, "alwaysActive"@) {
        Some(v) => truthy(v),
        None => match attr_value(tag.attributes@, "always_active"@) {
            Some(v) => truthy(v),
            None => false,
        },
    }
}

fn truthy_exec(v: &str) -> (r: bool)
    ensures
        r == truthy(v@),
{
    let t = trim(v);
    let l = to_ascii_lowercase(t.as_str());
    str_eq(l.as_str(), "true") || str_eq(l.as_str(), "1") || str_eq(l.as_str(), "yes")
}

fn always_active_attr_exec(tag: &XmlTag) -> (r: bool)
    ensures
        r == always_active_attr(*tag),
{
    match attr_value_exec(tag, "alwaysActive") {
        Some(v) => truthy_exec(v.as_str()),
        None => match attr_value_exec(tag, "always_active") {
            Some(v) => truthy_exec(v.as_str()),
            None => false,
        },
    }
}

// ------------------------------------------------------------------
// A lorebook entry written as XML
// ------------------------------------------------------------------

/// The operation, the field being read, the title, content and reason read
/// so far, the keyword being read, the keywords read, and the flag.
pub type EntryXmlView = (
    Option<Seq<char>>,
    Option<Seq<char>>,
    Seq<char>,
    Seq<char>,
    Seq<char>,
    Seq<char>,
    Seq<Seq<char>>,
    bool,
);

/// Where the reading stands: still reading, finished, or failed.
pub enum ReadView<S> {
    Reading(S),
    Finished(S),
    Failed(Seq<char>),
}

pub open spec fn entry_xml_start() -> EntryXmlView {
    (None, None, seq![], seq![], seq![], seq![], seq![], false)
}

/// Text goes to the field being read: title, content, reason or keyword.
pub open spec fn entry_with_text(s: EntryXmlView, t: Seq<char>) -> EntryXmlView {
    let (op, field, title, content, reason, kw, kws, aa) = s;
    match field {
        Some(f) => if f == "title"@ {
            (op, field, title + t, content, reason, kw, kws, aa)
        } else if f == "content"@ {
            (op, field, title, content + t, reason, kw, kws, aa)
        } else if f == "reason"@ {
            (op, field, title, content, reason + t, kw, kws, aa)
        } else if f == "keyword"@ {
            (op, field, title, content, reason, kw + t, kws, aa)
        } else {
            s
        },
        None => s,
    }
}

pub open spec fn is_entry_operation(name: Seq<char>) -> bool {
    name == "write_lorebook_entry"@ || name == "no_entry"@
}

/// One event read: the first `write_lorebook_entry` or `no_entry` element
/// opens the operation (with its flag, or, for an empty `no_entry`, its
/// reason); inside it, an element opens a field; text and references go to
/// the field; a closed `keyword` adds the keyword read, trimmed, when not
/// blank; the operation's end or the document's end finishes.
pub open spec fn entry_xml_step(s: EntryXmlView, e: XmlEvent) -> ReadView<EntryXmlView> {
    let (op, field, title, content, reason, kw, kws, aa) = s;
    match e {
        XmlEvent::Start(tag) => if op is None && is_entry_operation(tag.name@) {
            ReadView::Reading(
                (
                    Some(tag.name@),
                    field,
                    title,
                    content,
                    reason,
                    kw,
                    kws,
                    if tag.name@ == "write_lorebook_entry"@ {
                        always_active_attr(tag)
                    } else {
                        aa
                    },
                ),
            )
        } else if op is Some {
            ReadView::Reading((op, Some(tag.name@), title, content, reason, kw, kws, aa))
        } else {
            ReadView::Reading(s)
        },
        XmlEvent::Empty(tag) => if op is None && tag.name@ == "write_lorebook_entry"@ {
            ReadView::Reading(
                (Some(tag.name@), field, title, content, reason, kw, kws, always_active_attr(tag)),
            )
        } else if op is None && tag.name@ == "no_entry"@ {
            ReadView::Reading(
                (
                    Some(tag.name@),
                    field,
                    title,
                    content,
                    match attr_value(tag.attributes@, "reason"@) {
                        Some(r) => r,
                        None => seq![],
                    },
                    kw,
                    kws,
                    aa,
                ),
            )
        } else {
            ReadView::Reading(s)
        },
        XmlEvent::Text(raw) => match decoded_text(raw@) {
            Ok(t) => ReadView::Reading(entry_with_text(s, t)),
            Err(m) => ReadView::Failed(m),
        },
        XmlEvent::GeneralRef { char_ref, content: c } => match decoded_reference(
            char_ref,
            text_result(c),
        ) {
            Ok(t) => ReadView::Reading(entry_with_text(s, t)),
            Err(m) => ReadView::Failed(m),
        },
        XmlEvent::End(name) => if name@ == "keyword"@ {
            ReadView::Reading(
                (
                    op,
                    None,
                    title,
                    content,
                    reason,
                    seq![],
                    if trim_seq(kw).len() > 0 {
                        kws.push(trim_seq(kw))
                    } else {
                        kws
                    },
                    aa,
                ),
            )
        } else if name@ == "title"@ || name@ == "content"@ || name@ == "reason"@ || name@
            == "keywords"@ {
            ReadView::Reading((op, None, title, content, reason, kw, kws, aa))
        } else if op == Some(name@) {
            ReadView::Finished(s)
        } else {
            ReadView::Reading((op, None, title, content, reason, kw, kws, aa))
        },
        XmlEvent::Eof => ReadView::Finished(s),
        XmlEvent::Other => ReadView::Reading(s),
        XmlEvent::Error(m) => ReadView::Failed("fallback XML parse error: "@ + m@),
    }
}

/// The reading of the events, in order, until it finishes or fails.
pub open spec fn entry_xml_run(events: Seq<XmlEvent>) -> ReadView<EntryXmlView>
    decreases events.len(),
{
    if events.len() == 0 {
        ReadView::Reading(entry_xml_start())
    } else {
        match entry_xml_run(events.drop_last()) {
            ReadView::Reading(s) => entry_xml_step(s, events.last()),
            other => other,
        }
    }
}

/// The keywords read, as a keyword list is normalized.
pub open spec fn xml_keywords(kws: Seq<Seq<char>>) -> Seq<Seq<char>> {
    let all = dedup_keywords(kws.map_values(|k: Seq<char>| Some(k)));
    if all.len() > MAX_GENERATED_KEYWORDS {
        all.take(MAX_GENERATED_KEYWORDS as int)
    } else {
        all
    }
}

/// The decision that what was read describes: an entry (title and
/// content trimmed and not blank), no entry (with its reason, or a default
/// one), or an error.
pub open spec fn entry_outcome(
    op: Option<Seq<char>>,
    title: Seq<char>,
    content: Seq<char>,
    reason: Seq<char>,
    kws: Seq<Seq<char>>,
    aa: bool,
) -> Result<ResultView, Seq<char>> {
    if op == Some("write_lorebook_entry"@) {
        if trim_seq(title).len() == 0 {
            Err("write_lorebook_entry is missing a non-empty title"@)
        } else if trim_seq(content).len() == 0 {
            Err("write_lorebook_entry is missing non-empty content"@)
        } else {
            Ok(
                (
                    "entry"@,
                    Some((trim_seq(title), xml_keywords(kws), trim_seq(content), aa)),
                    None,
                ),
            )
        }
    } else if op == Some("no_entry"@) {
        Ok(
            (
                "none"@,
                None,
                Some(
                    if trim_seq(reason).len() == 0 {
                        "The selected messages do not establish durable lore."@
                    } else {
                        trim_seq(reason)
                    },
                ),
            ),
        )
    } else {
        Err("fallback XML response did not contain a lorebook result"@)
    }
}

pub open spec fn entry_xml_outcome(s: EntryXmlView) -> Result<ResultView, Seq<char>> {
    entry_outcome(s.0, s.2, s.3, s.4, s.6, s.7)
}

pub open spec fn entry_from_xml(events: Seq<XmlEvent>) -> Result<ResultView, Seq<char>> {
    match entry_xml_run(events) {
        ReadView::Failed(m) => Err(m),
        ReadView::Reading(s) => entry_xml_outcome(s),
        ReadView::Finished(s) => entry_xml_outcome(s),
    }
}

fn owned_views(v: &Vec<String>) -> (r: Vec<Option<String>>)
    ensures
        items_view(r@) == views(v@).map_values(|k: Seq<char>| Some(k)),
{
    let mut out: Vec<Option<String>> = Vec::new();
    let mut i: usize = 0;
    while i < v.len()
        invariant
            i <= v@.len(),
            items_view(out@) == views(v@.take(i as int)).map_values(|k: Seq<char>| Some(k)),
        decreases v@.len() - i,
    {
        let ghost before = out@;
        let c = v[i].clone();
        assert(c@ == v@[i as int]@);
        out.push(Some(c));
        assert(out@ =~= before.push(Some(c)));
        assert(views(v@.take(i + 1)) =~= views(v@.take(i as int)).push(v@[i as int]@));
        assert(items_view(out@) =~= items_view(before).push(Some(c@)));
        assert(views(v@.take(i + 1)).map_values(|k: Seq<char>| Some(k)) =~= views(
            v@.take(i as int),
        ).map_values(|k: Seq<char>| Some(k)).push(Some(v@[i as int]@)));
        i += 1;
    }
    assert(v@.take(i as int) =~= v@);
    out
}


/// Once the reading has finished or failed, later events change nothing.
pub proof fn lemma_entry_run_sticky(events: Seq<XmlEvent>, n: int)
    requires
        0 <= n <= events.len(),
        !(entry_xml_run(events.take(n)) is Reading),
    ensures
        entry_xml_run(events) == entry_xml_run(events.take(n)),
    decreases events.len() - n,
{
    if n < events.len() {
        assert(events.take(n + 1).drop_last() =~= events.take(n));
        lemma_entry_run_sticky(events, n + 1);
    } else {
        assert(events.take(n) =~= events);
    }
}

/// The names of the fields are different from one another.
proof fn lemma_field_names_distinct()
    ensures
        "title"@ != "content"@,
        "title"@ != "reason"@,
        "title"@ != "keyword"@,
        "title"@ != "keywords"@,
        "content"@ != "reason"@,
        "content"@ != "keyword"@,
        "content"@ != "keywords"@,
        "reason"@ != "keyword"@,
        "reason"@ != "keywords"@,
        "keyword"@ != "keywords"@,
{
    reveal_strlit("title");
    reveal_strlit("content");
    reveal_strlit("reason");
    reveal_strlit("keyword");
    reveal_strlit("keywords");
    assert("title"@.len() == 5);
    assert("content"@.len() == 7);
    assert("reason"@.len() == 6);
    assert("keyword"@.len() == 7);
    assert("keywords"@.len() == 8);
    assert("content"@[0] != "keyword"@[0]);
}

pub open spec fn field_is(field: Option<String>, name: Seq<char>) -> bool {
    field matches Some(f) && f@ == name
}

fn append_entry_text(
    field: &Option<String>,
    t: &String,
    title: &mut String,
    content: &mut String,
    reason: &mut String,
    kw: &mut String,
)
    ensures
        final(title)@ == if field_is(*field, "title"@) {
            old(title)@ + t@
        } else {
            old(title)@
        },
        final(content)@ == if field_is(*field, "content"@) {
            old(content)@ + t@
        } else {
            old(content)@
        },
        final(reason)@ == if field_is(*field, "reason"@) {
            old(reason)@ + t@
        } else {
            old(reason)@
        },
        final(kw)@ == if field_is(*field, "keyword"@) {
            old(kw)@ + t@
        } else {
            old(kw)@
        },
{
    proof {
        lemma_field_names_distinct();
    }
    match field {
        Some(f) => {
            let name = f.as_str();
            if str_eq(name, "title") {
                title.append(t.as_str());
            } else if str_eq(name, "content") {
                content.append(t.as_str());
            } else if str_eq(name, "reason") {
                reason.append(t.as_str());
            } else if str_eq(name, "keyword") {
                kw.append(t.as_str());
            }
        },
        None => {},
    }
}

fn opt_eq(op: &Option<String>, n: &str) -> (r: bool)
    ensures
        r == (opt_view(*op) == Some(n@)),
{
    match op {
        Some(o) => str_eq(o.as_str(), n),
        None => false,
    }
}

fn entry_outcome_exec(
    op: Option<String>,
    title: String,
    content: String,
    reason: String,
    kws: &Vec<String>,
    aa: bool,
) -> (r: Result<LorebookEntryDraftResult, String>)
    ensures
        match r {
            Ok(x) => entry_outcome(opt_view(op), title@, content@, reason@, views(kws@), aa) == Ok::<
                ResultView,
                Seq<char>,
            >(result_view(x)),
            Err(e) => entry_outcome(opt_view(op), title@, content@, reason@, views(kws@), aa)
                == Err::<ResultView, Seq<char>>(e@),
        },
{
    if opt_eq(&op, "write_lorebook_entry") {
        let items = owned_views(kws);
        let arguments = EntryArguments {
            is_object: true,
            title: FieldValue::Text(trim(title.as_str())),
            content: FieldValue::Text(trim(content.as_str())),
            always_active_camel: FieldValue::Flag(aa),
            always_active_snake: FieldValue::Missing,
            keywords: FieldValue::List(items),
            reason: FieldValue::Missing,
        };
        proof {
            lemma_trim_idempotent(title@);
            lemma_trim_idempotent(content@);
        }
        match normalize_entry_draft(&arguments) {
            Ok(d) => Ok(
                LorebookEntryDraftResult { kind: to_string("entry"), draft: Some(d), reason: None },
            ),
            Err(e) => Err(e),
        }
    } else if opt_eq(&op, "no_entry") {
        let text = if is_blank(reason.as_str()) {
            to_string("The selected messages do not establish durable lore.")
        } else {
            trim(reason.as_str())
        };
        Ok(LorebookEntryDraftResult { kind: to_string("none"), draft: None, reason: Some(text) })
    } else {
        Err(to_string("fallback XML response did not contain a lorebook result"))
    }
}

/// The result of a lorebook entry written as XML (see `entry_from_xml`),
/// from the document's events in order.
pub fn parse_fallback_xml_events(events: &Vec<XmlEvent>) -> (r: Result<LorebookEntryDraftResult, String>)
    ensures
        match r {
            Ok(x) => entry_from_xml(events@) == Ok::<ResultView, Seq<char>>(result_view(x)),
            Err(e) => entry_from_xml(events@) == Err::<ResultView, Seq<char>>(e@),
        },
{
    let mut op: Option<String> = None;
    let mut field: Option<String> = None;
    let mut title = String::new();
    let mut content = String::new();
    let mut reason = String::new();
    let mut kw = String::new();
    let mut kws: Vec<String> = Vec::new();
    let mut aa = false;
    let mut i: usize = 0;
    assert(events@.take(0) =~= Seq::<XmlEvent>::empty());
    assert(views(kws@) =~= Seq::<Seq<char>>::empty());
    while i < events.len()
        invariant
            i <= events@.len(),
            entry_xml_run(events@.take(i as int)) == ReadView::Reading(
                (opt_view(op), opt_view(field), title@, content@, reason@, kw@, views(kws@), aa),
            ),
        decreases events@.len() - i,
    {
        assert(events@.take(i + 1).drop_last() =~= events@.take(i as int));
        assert(events@.take(i + 1).last() == events@[i as int]);
        let ghost s = (opt_view(op), opt_view(field), title@, content@, reason@, kw@, views(kws@), aa);
        proof {
            lemma_field_names_distinct();
        }
        assert(entry_xml_run(events@.take(i + 1)) == entry_xml_step(s, events@[i as int]));
        match &events[i] {
            XmlEvent::Start(tag) => {
                let name = tag.name.as_str();
                if op.is_none() && (str_eq(name, "write_lorebook_entry") || str_eq(name, "no_entry")) {
                    if str_eq(name, "write_lorebook_entry") {
                        aa = always_active_attr_exec(tag);
                    }
                    op = Some(tag.name.clone());
                } else if op.is_some() {
                    field = Some(tag.name.clone());
                }
                assert(entry_xml_step(s, events@[i as int]) == ReadView::Reading(
                    (opt_view(op), opt_view(field), title@, content@, reason@, kw@, views(kws@), aa)));
            },
            XmlEvent::Empty(tag) => {
                let name = tag.name.as_str();
                if op.is_none() && str_eq(name, "write_lorebook_entry") {
                    aa = always_active_attr_exec(tag);
                    op = Some(tag.name.clone());
                } else if op.is_none() && str_eq(name, "no_entry") {
                    reason = match attr_value_exec(tag, "reason") {
                        Some(r) => r,
                        None => String::new(),
                    };
                    op = Some(tag.name.clone());
                }
                assert(entry_xml_step(s, events@[i as int]) == ReadView::Reading(
                    (opt_view(op), opt_view(field), title@, content@, reason@, kw@, views(kws@), aa)));
            },
            XmlEvent::Text(raw) => {
                match decode_xml_text(raw.as_str()) {
                    Ok(t) => {
                        append_entry_text(&field, &t, &mut title, &mut content, &mut reason, &mut kw);
                        assert(entry_xml_step(s, events@[i as int]) == ReadView::Reading(
                            (opt_view(op), opt_view(field), title@, content@, reason@, kw@, views(kws@), aa)));
                    },
                    Err(m) => {
                        proof {
                            lemma_entry_run_sticky(events@, i + 1);
                        }
                        return Err(m);
                    },
                }
            },
            XmlEvent::GeneralRef { char_ref, content: c } => {
                match decode_xml_general_ref(*char_ref, c) {
                    Ok(t) => {
                        append_entry_text(&field, &t, &mut title, &mut content, &mut reason, &mut kw);
                    },
                    Err(m) => {
                        proof {
                            lemma_entry_run_sticky(events@, i + 1);
                        }
                        return Err(m);
                    },
                }
            },
            XmlEvent::End(name) => {
                let n = name.as_str();
                if str_eq(n, "keyword") {
                    let ghost old_kws = views(kws@);
                    if !is_blank(kw.as_str()) {
                        let trimmed = trim(kw.as_str());
                        kws.push(trimmed);
                        assert(views(kws@) =~= old_kws.push(trim_seq(s.5)));
                    }
                    kw = String::new();
                    field = None;
                } else if str_eq(n, "title") || str_eq(n, "content") || str_eq(n, "reason")
                    || str_eq(n, "keywords") {
                    field = None;
                } else if opt_eq(&op, n) {
                    proof {
                        lemma_entry_run_sticky(events@, i + 1);
                    }
                    return entry_outcome_exec(op, title, content, reason, &kws, aa);
                } else {
                    field = None;
                }
                assert(entry_xml_step(s, events@[i as int]) == ReadView::Reading(
                    (opt_view(op), opt_view(field), title@, content@, reason@, kw@, views(kws@), aa)));
            },
            XmlEvent::Eof => {
                proof {
                    lemma_entry_run_sticky(events@, i + 1);
                }
                return entry_outcome_exec(op, title, content, reason, &kws, aa);
            },
            XmlEvent::Other => {},
            XmlEvent::Error(m) => {
                let mut msg = to_string("fallback XML parse error: ");
                msg.append(m.as_str());
                proof {
                    lemma_entry_run_sticky(events@, i + 1);
                }
                return Err(msg);
            },
        }
        assert(entry_xml_step(s, events@[i as int]) == ReadView::Reading(
            (opt_view(op), opt_view(field), title@, content@, reason@, kw@, views(kws@), aa),
        ));
        i += 1;
    }
    assert(events@.take(i as int) =~= events@);
    entry_outcome_exec(op, title, content, reason, &kws, aa)
}

// ------------------------------------------------------------------
// Lorebook keywords written as XML
// ------------------------------------------------------------------

/// The operation, the field being read, the keyword being read, and the
/// keywords read.
pub type KeywordXmlView = (Option<Seq<char>>, Option<Seq<char>>, Seq<char>, Seq<Seq<char>>);

pub open spec fn is_result_root(name: Seq<char>) -> bool {
    name == "lorebook_result"@ || name == "result"@ || name == "response"@
}

/// One event read: the first `write_lorebook_keywords` element opens the
/// operation; inside it an element opens a field; the text of a `keyword`
/// field is gathered; a closed `keyword` adds it, trimmed, when not blank;
/// the end of `write_lorebook_keywords` or of the document finishes.
pub open spec fn keyword_xml_step(s: KeywordXmlView, e: XmlEvent) -> ReadView<KeywordXmlView> {
    let (op, field, kw, kws) = s;
    match e {
        XmlEvent::Start(tag) => if op is None && tag.name@ == "write_lorebook_keywords"@ {
            ReadView::Reading((Some(tag.name@), field, kw, kws))
        } else if op is Some {
            ReadView::Reading((op, Some(tag.name@), kw, kws))
        } else {
            ReadView::Reading(s)
        },
        XmlEvent::Text(raw) => match decoded_text(raw@) {
            Ok(t) => ReadView::Reading(
                if field == Some("keyword"@) {
                    (op, field, kw + t, kws)
                } else {
                    s
                },
            ),
            Err(m) => ReadView::Failed(m),
        },
        XmlEvent::GeneralRef { char_ref, content: c } => match decoded_reference(
            char_ref,
            text_result(c),
        ) {
            Ok(t) => ReadView::Reading(
                if field == Some("keyword"@) {
                    (op, field, kw + t, kws)
                } else {
                    s
                },
            ),
            Err(m) => ReadView::Failed(m),
        },
        XmlEvent::End(name) => if name@ == "keyword"@ {
            ReadView::Reading(
                (
                    op,
                    None,
                    seq![],
                    if trim_seq(kw).len() > 0 {
                        kws.push(trim_seq(kw))
                    } else {
                        kws
                    },
                ),
            )
        } else if name@ == "write_lorebook_keywords"@ {
            ReadView::Finished((op, None, kw, kws))
        } else if name@ == "keywords"@ || is_result_root(name@) {
            ReadView::Reading((op, None, kw, kws))
        } else {
            ReadView::Reading(s)
        },
        XmlEvent::Eof => ReadView::Finished(s),
        XmlEvent::Error(m) => ReadView::Failed("fallback XML parse error: "@ + m@),
        _ => ReadView::Reading(s),
    }
}

pub open spec fn keyword_xml_run(events: Seq<XmlEvent>) -> ReadView<KeywordXmlView>
    decreases events.len(),
{
    if events.len() == 0 {
        ReadView::Reading((None, None, seq![], seq![]))
    } else {
        match keyword_xml_run(events.drop_last()) {
            ReadView::Reading(s) => keyword_xml_step(s, events.last()),
            other => other,
        }
    }
}

pub open spec fn keyword_xml_outcome(s: KeywordXmlView) -> Result<Seq<Seq<char>>, Seq<char>> {
    if s.0 == Some("write_lorebook_keywords"@) {
        Ok(xml_keywords(s.3))
    } else {
        Err("fallback XML response did not contain lorebook keywords"@)
    }
}

/// The keywords of a keyword list written as XML, or why there are none.
pub open spec fn keywords_from_xml(events: Seq<XmlEvent>) -> Result<Seq<Seq<char>>, Seq<char>> {
    match keyword_xml_run(events) {
        ReadView::Failed(m) => Err(m),
        ReadView::Reading(s) => keyword_xml_outcome(s),
        ReadView::Finished(s) => keyword_xml_outcome(s),
    }
}

pub proof fn lemma_keyword_run_sticky(events: Seq<XmlEvent>, n: int)
    requires
        0 <= n <= events.len(),
        !(keyword_xml_run(events.take(n)) is Reading),
    ensures
        keyword_xml_run(events) == keyword_xml_run(events.take(n)),
    decreases events.len() - n,
{
    if n < events.len() {
        assert(events.take(n + 1).drop_last() =~= events.take(n));
        lemma_keyword_run_sticky(events, n + 1);
    } else {
        assert(events.take(n) =~= events);
    }
}

fn keyword_outcome_exec(op: &Option<String>, kws: &Vec<String>) -> (r: Result<
    LorebookKeywordDraftResult,
    String,
>)
    ensures
        match r {
            Ok(x) => keyword_xml_outcome((opt_view(*op), None, seq![], views(kws@)))
                == Ok::<Seq<Seq<char>>, Seq<char>>(views(x.keywords@)),
            Err(e) => keyword_xml_outcome((opt_view(*op), None, seq![], views(kws@)))
                == Err::<Seq<Seq<char>>, Seq<char>>(e@),
        },
{
    if !opt_eq(op, "write_lorebook_keywords") {
        return Err(to_string("fallback XML response did not contain lorebook keywords"));
    }
    let items = owned_views(kws);
    let list = FieldValue::List(items);
    Ok(LorebookKeywordDraftResult { keywords: normalize_keywords(&list) })
}

/// The keywords of a keyword list written as XML (see `keywords_from_xml`),
/// from the document's events in order.
pub fn parse_keyword_fallback_xml_events(events: &Vec<XmlEvent>) -> (r: Result<
    LorebookKeywordDraftResult,
    String,
>)
    ensures
        match r {
            Ok(x) => keywords_from_xml(events@) == Ok::<Seq<Seq<char>>, Seq<char>>(
                views(x.keywords@),
            ),
            Err(e) => keywords_from_xml(events@) == Err::<Seq<Seq<char>>, Seq<char>>(e@),
        },
{
    let mut op: Option<String> = None;
    let mut field: Option<String> = None;
    let mut kw = String::new();
    let mut kws: Vec<String> = Vec::new();
    let mut i: usize = 0;
    assert(events@.take(0) =~= Seq::<XmlEvent>::empty());
    assert(views(kws@) =~= Seq::<Seq<char>>::empty());
    proof {
        reveal_strlit("keyword");
        reveal_strlit("write_lorebook_keywords");
        reveal_strlit("keywords");
        assert("keyword"@.len() == 7);
        assert("keywords"@.len() == 8);
        assert("write_lorebook_keywords"@.len() == 23);
    }
    while i < events.len()
        invariant
            i <= events@.len(),
            "keyword"@ != "keywords"@,
            "keyword"@ != "write_lorebook_keywords"@,
            "keywords"@ != "write_lorebook_keywords"@,
            keyword_xml_run(events@.take(i as int)) == ReadView::Reading(
                (opt_view(op), opt_view(field), kw@, views(kws@)),
            ),
        decreases events@.len() - i,
    {
        assert(events@.take(i + 1).drop_last() =~= events@.take(i as int));
        assert(events@.take(i + 1).last() == events@[i as int]);
        let ghost s = (opt_view(op), opt_view(field), kw@, views(kws@));
        assert(keyword_xml_run(events@.take(i + 1)) == keyword_xml_step(s, events@[i as int]));
        match &events[i] {
            XmlEvent::Start(tag) => {
                if op.is_none() && str_eq(tag.name.as_str(), "write_lorebook_keywords") {
                    op = Some(tag.name.clone());
                } else if op.is_some() {
                    field = Some(tag.name.clone());
                }
            },
            XmlEvent::Text(raw) => {
                match decode_xml_text(raw.as_str()) {
                    Ok(t) => {
                        if opt_eq(&field, "keyword") {
                            kw.append(t.as_str());
                        }
                    },
                    Err(m) => {
                        proof {
                            lemma_keyword_run_sticky(events@, i + 1);
                        }
                        return Err(m);
                    },
                }
            },
            XmlEvent::GeneralRef { char_ref, content: c } => {
                match decode_xml_general_ref(*char_ref, c) {
                    Ok(t) => {
                        if opt_eq(&field, "keyword") {
                            kw.append(t.as_str());
                        }
                    },
                    Err(m) => {
                        proof {
                            lemma_keyword_run_sticky(events@, i + 1);
                        }
                        return Err(m);
                    },
                }
            },
            XmlEvent::End(name) => {
                let n = name.as_str();
                if str_eq(n, "keyword") {
                    let ghost old_kws = views(kws@);
                    if !is_blank(kw.as_str()) {
                        let trimmed = trim(kw.as_str());
                        kws.push(trimmed);
                        assert(views(kws@) =~= old_kws.push(trim_seq(s.2)));
                    }
                    kw = String::new();
                    field = None;
                } else if str_eq(n, "write_lorebook_keywords") {
                    proof {
                        lemma_keyword_run_sticky(events@, i + 1);
                    }
                    return keyword_outcome_exec(&op, &kws);
                } else if str_eq(n, "keywords") || str_eq(n, "lorebook_result") || str_eq(
                    n,
                    "result",
                ) || str_eq(n, "response") {
                    field = None;
                }
            },
            XmlEvent::Eof => {
                proof {
                    lemma_keyword_run_sticky(events@, i + 1);
                }
                return keyword_outcome_exec(&op, &kws);
            },
            XmlEvent::Error(m) => {
                let mut msg = to_string("fallback XML parse error: ");
                msg.append(m.as_str());
                proof {
                    lemma_keyword_run_sticky(events@, i + 1);
                }
                return Err(msg);
            },
            _ => {},
        }
        assert(keyword_xml_step(s, events@[i as int]) == ReadView::Reading(
            (opt_view(op), opt_view(field), kw@, views(kws@)),
        ));
        i += 1;
    }
    assert(events@.take(i as int) =~= events@);
    keyword_outcome_exec(&op, &kws)
}

/// A lorebook entry the model wrote as XML: the text unfenced, read with
/// quick-xml, its events read as an entry.
pub open spec fn fallback_xml_entry_of(raw: Seq<char>) -> Result<ResultView, Seq<char>> {
    entry_from_xml(quick_xml_events(unfenced(raw)))
}

pub fn parse_fallback_xml_result(raw: &str) -> (r: Result<LorebookEntryDraftResult, String>)
    ensures
        match r {
            Ok(x) => fallback_xml_entry_of(raw@) == Ok::<ResultView, Seq<char>>(result_view(x)),
            Err(e) => fallback_xml_entry_of(raw@) == Err::<ResultView, Seq<char>>(e@),
        },
{
    let normalized = normalize_structured_fallback_text(raw);
    let events = xml_events(normalized.as_str());
    parse_fallback_xml_events(&events)
}

/// Lorebook keywords the model wrote as XML.
pub open spec fn fallback_xml_keywords_of(raw: Seq<char>) -> Result<Seq<Seq<char>>, Seq<char>> {
    keywords_from_xml(quick_xml_events(unfenced(raw)))
}

pub fn parse_keyword_fallback_xml_result(raw: &str) -> (r: Result<LorebookKeywordDraftResult, String>)
    ensures
        match r {
            Ok(x) => fallback_xml_keywords_of(raw@) == Ok::<Seq<Seq<char>>, Seq<char>>(
                views(x.keywords@),
            ),
            Err(e) => fallback_xml_keywords_of(raw@) == Err::<Seq<Seq<char>>, Seq<char>>(e@),
        },
{
    let normalized = normalize_structured_fallback_text(raw);
    let events = xml_events(normalized.as_str());
    parse_keyword_fallback_xml_events(&events)
}

} // verus!
