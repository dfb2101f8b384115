//! Chat messages as the providers take them: the text and the images of a
//! message's content, data URLs, and messages in the Anthropic format.
use vstd::prelude::*;

use crate::json::{
    as_array, as_str, deref_opt, get, json_get, json_str, opt_get, opt_get_exec, JsonNumber, JsonValue,
};
use crate::response::{key_index, key_index_exec, lemma_key_index};
use crate::text::{
    bool_text, bool_to_string, decimal, first_occurrence, has_prefix, is_blank, join, join_seq,
    split_once_str, starts_with, str_eq, strip_prefix, to_string, trim_seq, u64_to_string, views,
};

verus! {

// ------------------------------------------------------------------
// The content of a message
// ------------------------------------------------------------------

/// The text of a content part of type `text`.
pub open spec fn part_text(p: JsonValue) -> Option<Seq<char>> {
    if json_str(json_get(p, "type"@)) == Some("text"@) {
        json_str(json_get(p, "text"@))
    } else {
        None
    }
}

pub open spec fn part_texts(parts: Seq<JsonValue>) -> Seq<Seq<char>>
    decreases parts.len(),
{
    if parts.len() == 0 {
        seq![]
    } else {
        part_texts(parts.drop_last()) + match part_text(parts.last()) {
            Some(t) => seq![t],
            None => seq![],
        }
    }
}

/// The URL of a content part of type `image_url`.
pub open spec fn part_image_url(p: JsonValue) -> Option<Seq<char>> {
    if json_str(json_get(p, "type"@)) == Some("image_url"@) {
        json_str(opt_get(json_get(p, "image_url"@), "url"@))
    } else {
        None
    }
}

pub open spec fn part_image_urls(parts: Seq<JsonValue>) -> Seq<Seq<char>>
    decreases parts.len(),
{
    if parts.len() == 0 {
        seq![]
    } else {
        part_image_urls(parts.drop_last()) + match part_image_url(parts.last()) {
            Some(u) => seq![u],
            None => seq![],
        }
    }
}

/// `i64::to_string`.
pub open spec fn signed_text(n: i64) -> Seq<char> {
    if n < 0 {
        "-"@ + decimal((-n) as nat)
    } else {
        decimal(n as nat)
    }
}

/// The text of a message's content: a string as it is; the texts of the
/// `text` parts of an array, one per line, when not blank; a flag or a
/// number as written; an object as its JSON text, `serialized`.
pub open spec fn content_text(c: Option<JsonValue>, serialized: Seq<char>) -> Option<Seq<char>> {
    match c {
        None => None,
        Some(JsonValue::Null) => None,
        Some(JsonValue::String(s)) => Some(s@),
        Some(JsonValue::Array(parts)) => {
            let t = join_seq(part_texts(parts@), "\n"@);
            if trim_seq(t).len() == 0 {
                None
            } else {
                Some(t)
            }
        },
        Some(JsonValue::Bool(b)) => Some(bool_text(b)),
        Some(JsonValue::Number(JsonNumber::PosInt(n))) => Some(decimal(n as nat)),
        Some(JsonValue::Number(JsonNumber::NegInt(n))) => Some(signed_text(n)),
        Some(JsonValue::Number(JsonNumber::Float(t))) => Some(t@),
        Some(JsonValue::Object(_)) => Some(serialized),
    }
}

fn i64_to_string(n: i64) -> (r: String)
    ensures
        r@ == signed_text(n),
{
    if n < 0 {
        let magnitude: u64 = if n == i64::MIN {
            9_223_372_036_854_775_808
        } else {
            (-n) as u64
        };
        let mut out = to_string("-");
        let digits = u64_to_string(magnitude);
        out.append(digits.as_str());
        proof {
            reveal_strlit("-");
        }
        out
    } else {
        u64_to_string(n as u64)
    }
}

/// The text of a message's content (see `content_text`); `serialized` is
/// the content's JSON text, read only for an object.
pub fn extract_text_content(value: Option<&JsonValue>, serialized: &str) -> (r: Option<String>)
    ensures
        match r {
            Some(t) => content_text(deref_opt(value), serialized@) == Some(t@),
            None => content_text(deref_opt(value), serialized@) is None,
        },
{
    match value {
        None => None,
        Some(JsonValue::Null) => None,
        Some(JsonValue::String(s)) => Some(s.clone()),
        Some(JsonValue::Array(parts)) => {
            let mut texts: Vec<String> = Vec::new();
            let mut i: usize = 0;
            while i < parts.len()
                invariant
                    i <= parts@.len(),
                    views(texts@) == part_texts(parts@.take(i as int)),
                decreases parts@.len() - i,
            {
                assert(parts@.take(i + 1).drop_last() =~= parts@.take(i as int));
                let ghost before = views(texts@);
                let p = &parts[i];
                let is_text = match as_str(get(p, "type")) {
                    Some(t) => str_eq(t, "text"),
                    None => false,
                };
                if is_text {
                    if let Some(t) = as_str(get(p, "text")) {
                        texts.push(to_string(t));
                        assert(views(texts@) =~= before + seq![t@]);
                    }
                }
                assert(views(texts@) =~= part_texts(parts@.take(i + 1)));
                i += 1;
            }
            assert(parts@.take(i as int) =~= parts@);
            let joined = join(&texts, "\n");
            if is_blank(joined.as_str()) {
                None
            } else {
                Some(joined)
            }
        },
        Some(JsonValue::Bool(b)) => Some(bool_to_string(*b)),
        Some(JsonValue::Number(JsonNumber::PosInt(n))) => Some(u64_to_string(*n)),
        Some(JsonValue::Number(JsonNumber::NegInt(n))) => Some(i64_to_string(*n)),
        Some(JsonValue::Number(JsonNumber::Float(t))) => Some(t.clone()),
        Some(JsonValue::Object(_)) => Some(to_string(serialized)),
    }
}

/// The image URLs of a message's content: those of its `image_url` parts.
pub open spec fn content_image_urls(c: Option<JsonValue>) -> Seq<Seq<char>> {
    match c {
        Some(JsonValue::Array(parts)) => part_image_urls(parts@),
        _ => seq![],
    }
}

pub fn extract_image_data_urls(value: Option<&JsonValue>) -> (r: Vec<String>)
    ensures
        views(r@) == content_image_urls(deref_opt(value)),
{
    let mut out: Vec<String> = Vec::new();
    match value {
        Some(JsonValue::Array(parts)) => {
            let mut i: usize = 0;
            while i < parts.len()
                invariant
                    i <= parts@.len(),
                    views(out@) == part_image_urls(parts@.take(i as int)),
                decreases parts@.len() - i,
            {
                assert(parts@.take(i + 1).drop_last() =~= parts@.take(i as int));
                let ghost before = views(out@);
                let p = &parts[i];
                let is_image = match as_str(get(p, "type")) {
                    Some(t) => str_eq(t, "image_url"),
                    None => false,
                };
                if is_image {
                    if let Some(u) = as_str(opt_get_exec(get(p, "image_url"), "url")) {
                        out.push(to_string(u));
                        assert(views(out@) =~= before + seq![u@]);
                    }
                }
                assert(views(out@) =~= part_image_urls(parts@.take(i + 1)));
                i += 1;
            }
            assert(parts@.take(i as int) =~= parts@);
        },
        _ => {
            assert(views(out@) =~= Seq::<Seq<char>>::empty());
        },
    }
    out
}

/// The media type and the data of a base64 data URL.
pub open spec fn data_url_parts(u: Seq<char>) -> Option<(Seq<char>, Seq<char>)> {
    match first_occurrence(u, ";base64,"@, 0) {
        Some(i) => if has_prefix(u.take(i), "data:"@) {
            Some((u.take(i).skip("data:"@.len() as int), u.skip(i + ";base64,"@.len())))
        } else {
            None
        },
        None => None,
    }
}

pub fn parse_data_url(data_url: &str) -> (r: Option<(String, String)>)
    ensures
        match data_url_parts(data_url@) {
            Some((m, d)) => r matches Some(p) && p.0@ == m && p.1@ == d,
            None => r is None,
        },
{
    match split_once_str(data_url, ";base64,") {
        Some((prefix, data)) => match strip_prefix(prefix.as_str(), "data:") {
            Some(mime) => Some((mime, data)),
            None => None,
        },
        None => None,
    }
}

// ------------------------------------------------------------------
// The Anthropic messages format
// ------------------------------------------------------------------

/// One block of an Anthropic message.
pub enum ContentPart {
    Text(String),
    /// An image sent inline: its media type and its base64 data.
    ImageBase64 { media_type: String, data: String },
    /// An image the provider fetches.
    ImageUrl(String),
}

pub enum PartView {
    Text(Seq<char>),
    ImageBase64(Seq<char>, Seq<char>),
    ImageUrl(Seq<char>),
}

pub open spec fn part_view(p: ContentPart) -> PartView {
    match p {
        ContentPart::Text(t) => PartView::Text(t@),
        ContentPart::ImageBase64 { media_type, data } => PartView::ImageBase64(media_type@, data@),
        ContentPart::ImageUrl(u) => PartView::ImageUrl(u@),
    }
}

/// A message for the provider: a role and its blocks.
pub struct ProviderMessage {
    pub role: String,
    pub content: Vec<ContentPart>,
}

pub open spec fn message_view(m: ProviderMessage) -> (Seq<char>, Seq<PartView>) {
    (m.role@, m.content@.map_values(|p: ContentPart| part_view(p)))
}

pub open spec fn messages_view(ms: Seq<ProviderMessage>) -> Seq<(Seq<char>, Seq<PartView>)> {
    ms.map_values(|m: ProviderMessage| message_view(m))
}

/// The block of an image URL: inline for a base64 data URL, fetched for an
/// http(s) URL, none otherwise.
pub open spec fn image_block(url: Seq<char>) -> Seq<PartView> {
    match data_url_parts(url) {
        Some((m, d)) => seq![PartView::ImageBase64(m, d)],
        None => if has_prefix(url, "http://"@) || has_prefix(url, "https://"@) {
            seq![PartView::ImageUrl(url)]
        } else {
            seq![]
        },
    }
}

pub open spec fn image_blocks(urls: Seq<Seq<char>>) -> Seq<PartView>
    decreases urls.len(),
{
    if urls.len() == 0 {
        seq![]
    } else {
        image_blocks(urls.drop_last()) + image_block(urls.last())
    }
}

/// The blocks of a message: its text, when not blank, then its images.
pub open spec fn message_blocks(text: Option<Seq<char>>, urls: Seq<Seq<char>>) -> Seq<PartView> {
    (match text {
        Some(t) => if trim_seq(t).len() > 0 {
            seq![PartView::Text(t)]
        } else {
            seq![]
        },
        None => seq![],
    }) + image_blocks(urls)
}

pub open spec fn role_of(m: JsonValue) -> Seq<char> {
    match json_str(json_get(m, "role"@)) {
        Some(r) => r,
        None => seq![],
    }
}

pub open spec fn is_system_role(r: Seq<char>) -> bool {
    r == "system"@ || r == "developer"@
}

pub open spec fn text_of_message(ms: Seq<JsonValue>, ser: Seq<Seq<char>>, i: int) -> Option<Seq<char>> {
    content_text(json_get(ms[i], "content"@), ser[i])
}

/// The texts that system and developer messages among the first `n` add to
/// the system prompt.
pub open spec fn system_texts(ms: Seq<JsonValue>, ser: Seq<Seq<char>>, n: int) -> Seq<Seq<char>>
    decreases n,
{
    if n <= 0 {
        seq![]
    } else {
        system_texts(ms, ser, n - 1) + if is_system_role(role_of(ms[n - 1])) {
            match text_of_message(ms, ser, n - 1) {
                Some(t) => if t.len() > 0 {
                    seq![t]
                } else {
                    seq![]
                },
                None => seq![],
            }
        } else {
            seq![]
        }
    }
}

/// The messages among the first `n` that are no system messages and have
/// a block, as the provider takes them: the assistant's under
/// `assistant_role`, every other under `user_role`.
pub open spec fn chat_messages(
    ms: Seq<JsonValue>,
    ser: Seq<Seq<char>>,
    n: int,
    user_role: Seq<char>,
    assistant_role: Seq<char>,
) -> Seq<(Seq<char>, Seq<PartView>)>
    decreases n,
{
    if n <= 0 {
        seq![]
    } else {
        let before = chat_messages(ms, ser, n - 1, user_role, assistant_role);
        let role = role_of(ms[n - 1]);
        let blocks = message_blocks(
            text_of_message(ms, ser, n - 1),
            content_image_urls(json_get(ms[n - 1], "content"@)),
        );
        if is_system_role(role) || blocks.len() == 0 {
            before
        } else {
            before.push(
                (
                    if role == "assistant"@ {
                        assistant_role
                    } else {
                        user_role
                    },
                    blocks,
                ),
            )
        }
    }
}

/// The system prompt: the one given, when not empty, then the texts of the
/// system messages, separated by blank lines; none when there is none.
pub open spec fn combined_system(
    system_prompt: Option<Seq<char>>,
    ms: Seq<JsonValue>,
    ser: Seq<Seq<char>>,
) -> Option<Seq<char>> {
    let parts = (match system_prompt {
        Some(p) => if p.len() > 0 {
            seq![p]
        } else {
            seq![]
        },
        None => seq![],
    }) + system_texts(ms, ser, ms.len() as int);
    if parts.len() == 0 {
        None
    } else {
        Some(join_seq(parts, "\n\n"@))
    }
}

fn push_image_blocks(urls: &Vec<String>, out: &mut Vec<ContentPart>)
    ensures
        final(out)@.map_values(|p: ContentPart| part_view(p)) == old(out)@.map_values(
            |p: ContentPart| part_view(p),
        ) + image_blocks(views(urls@)),
{
    let ghost start = old(out)@.map_values(|p: ContentPart| part_view(p));
    let ghost all = views(urls@);
    let mut i: usize = 0;
    while i < urls.len()
        invariant
            i <= urls@.len(),
            all == views(urls@),
            out@.map_values(|p: ContentPart| part_view(p)) == start + image_blocks(all.take(i as int)),
        decreases urls@.len() - i,
    {
        assert(all.take(i + 1).drop_last() =~= all.take(i as int));
        assert(all.take(i + 1).last() == urls@[i as int]@);
        let ghost before = out@.map_values(|p: ContentPart| part_view(p));
        let url = urls[i].as_str();
        match parse_data_url(url) {
            Some((media_type, data)) => {
                out.push(ContentPart::ImageBase64 { media_type, data });
                assert(out@.map_values(|p: ContentPart| part_view(p)) =~= before + image_block(
                    url@,
                ));
            },
            None => {
                if starts_with(url, "http://") || starts_with(url, "https://") {
                    out.push(ContentPart::ImageUrl(to_string(url)));
                    assert(out@.map_values(|p: ContentPart| part_view(p)) =~= before + image_block(
                        url@,
                    ));
                } else {
                    assert(before + image_block(url@) =~= before);
                }
            },
        }
        assert(before + image_block(url@) + Seq::<PartView>::empty() =~= before + image_block(url@));
        assert(start + image_blocks(all.take(i + 1)) =~= start + image_blocks(all.take(i as int))
            + image_block(url@));
        i += 1;
    }
    assert(all.take(i as int) =~= all);
}

/// Messages in the Anthropic format, and the system prompt they carry:
/// system and developer messages join the system prompt; every other
/// message keeps its text and its images as blocks, under `user_role` or,
/// for the assistant, `assistant_role`, and is left out when it has no
/// block.  `serialized` holds the JSON text of each message's content.
pub fn anthropic_messages(
    system_prompt: Option<String>,
    messages: &Vec<JsonValue>,
    serialized: &Vec<String>,
    user_role: &str,
    assistant_role: &str,
) -> (r: (Vec<ProviderMessage>, Option<String>))
    requires
        serialized@.len() == messages@.len(),
    ensures
        messages_view(r.0@) == chat_messages(
            messages@,
            views(serialized@),
            messages@.len() as int,
            user_role@,
            assistant_role@,
        ),
        match r.1 {
            Some(s) => combined_system(
                match system_prompt {
                    Some(p) => Some(p@),
                    None => None,
                },
                messages@,
                views(serialized@),
            ) == Some(s@),
            None => combined_system(
                match system_prompt {
                    Some(p) => Some(p@),
                    None => None,
                },
                messages@,
                views(serialized@),
            ) is None,
        },
{
    let ghost ser = views(serialized@);
    let ghost ms = messages@;
    let mut system_parts: Vec<String> = Vec::new();
    let ghost first: Seq<Seq<char>> = match &system_prompt {
        Some(p) => if p@.len() > 0 {
            seq![p@]
        } else {
            seq![]
        },
        None => seq![],
    };
    let ghost sp = match &system_prompt {
        Some(p) => Some(p@),
        None => None,
    };
    match system_prompt {
        Some(p) => {
            if p.unicode_len() > 0 {
                system_parts.push(p);
            }
        },
        None => {},
    }
    assert(views(system_parts@) =~= first);
    let mut out: Vec<ProviderMessage> = Vec::new();
    let mut i: usize = 0;
    while i < messages.len()
        invariant
            i <= messages@.len(),
            ms == messages@,
            ser == views(serialized@),
            serialized@.len() == messages@.len(),
            views(system_parts@) == first + system_texts(ms, ser, i as int),
            messages_view(out@) == chat_messages(ms, ser, i as int, user_role@, assistant_role@),
        decreases messages@.len() - i,
    {
        let msg = &messages[i];
        let role = match as_str(get(msg, "role")) {
            Some(r) => r,
            None => "",
        };
        proof {
            reveal_strlit("");
        }
        assert(role@ == role_of(ms[i as int]));
        let content = get(msg, "content");
        let text = extract_text_content(content, serialized[i].as_str());
        assert(ser[i as int] == serialized@[i as int]@);
        let urls = extract_image_data_urls(content);
        let ghost sys_before = views(system_parts@);
        let ghost out_before = messages_view(out@);
        let ghost tv = match &text {
            Some(t) => Some(t@),
            None => None,
        };
        assert(tv == text_of_message(ms, ser, i as int));
        if str_eq(role, "system") || str_eq(role, "developer") {
            assert(is_system_role(role_of(ms[i as int])));
            match text {
                Some(t) => {
                    if t.unicode_len() > 0 {
                        system_parts.push(t);
                        assert(views(system_parts@) =~= sys_before + seq![t@]);
                    } else {
                        assert(sys_before + Seq::<Seq<char>>::empty() =~= sys_before);
                    }
                },
                None => {
                    assert(sys_before + Seq::<Seq<char>>::empty() =~= sys_before);
                },
            }
            assert(views(system_parts@) =~= first + system_texts(ms, ser, i + 1));
        } else {
            let mut blocks: Vec<ContentPart> = Vec::new();
            let ghost text_view = match &text {
                Some(t) => Some(t@),
                None => None,
            };
            match text {
                Some(t) => {
                    if !is_blank(t.as_str()) {
                        blocks.push(ContentPart::Text(t));
                    }
                },
                None => {},
            }
            assert(blocks@.map_values(|p: ContentPart| part_view(p)) =~= (match text_view {
                Some(t) => if trim_seq(t).len() > 0 {
                    seq![PartView::Text(t)]
                } else {
                    seq![]
                },
                None => seq![],
            }));
            push_image_blocks(&urls, &mut blocks);
            assert(blocks@.map_values(|p: ContentPart| part_view(p)) =~= message_blocks(
                text_view,
                views(urls@),
            ));
            if blocks.len() > 0 {
                let mapped = if str_eq(role, "assistant") {
                    to_string(assistant_role)
                } else {
                    to_string(user_role)
                };
                out.push(ProviderMessage { role: mapped, content: blocks });
                assert(messages_view(out@) =~= out_before.push(message_view(out@.last())));
            }
            assert(views(system_parts@) =~= first + system_texts(ms, ser, i + 1));
        }
        assert(messages_view(out@) =~= chat_messages(ms, ser, i + 1, user_role@, assistant_role@));
        i += 1;
    }
    if system_parts.len() == 0 {
        (out, None)
    } else {
        (out, Some(join(&system_parts, "\n\n")))
    }
}

/// The token limits of an Anthropic request: with reasoning on and a
/// budget given, the budget becomes the thinking budget and is added to
/// the limit of the answer, which must exceed it.
pub fn anthropic_token_budget(
    max_tokens: u32,
    reasoning_enabled: bool,
    reasoning_budget: Option<u32>,
) -> (r: (u32, Option<u32>))
    requires
        reasoning_enabled && reasoning_budget is Some ==> max_tokens + reasoning_budget.unwrap()
            <= u32::MAX,
    ensures
        r == if reasoning_enabled && reasoning_budget is Some {
            ((max_tokens + reasoning_budget.unwrap()) as u32, reasoning_budget)
        } else {
            (max_tokens, None)
        },
{
    let thinking = if reasoning_enabled {
        reasoning_budget
    } else {
        None
    };
    match thinking {
        Some(budget) => (max_tokens + budget, Some(budget)),
        None => (max_tokens, None),
    }
}

// ------------------------------------------------------------------
// Messages of the same role, joined
// ------------------------------------------------------------------

/// `b` is the object `a` with its member called `key` holding the string
/// `text`, every other member as it was.
pub open spec fn with_member_text(a: JsonValue, key: Seq<char>, b: JsonValue, text: Seq<char>) -> bool {
    match (a, b) {
        (JsonValue::Object(pa), JsonValue::Object(pb)) => match key_index(pa@, key) {
            Some(i) => {
                &&& pb@.len() == pa@.len()
                &&& 0 <= i < pa@.len()
                &&& pb@[i].0 == pa@[i].0
                &&& pb@[i].1 matches JsonValue::String(t) && t@ == text
                &&& forall|j: int| 0 <= j < pa@.len() && j != i ==> pb@[j] == pa@[j]
            },
            None => false,
        },
        _ => false,
    }
}

pub proof fn lemma_same_keys_index(
    pa: Seq<(String, JsonValue)>,
    pb: Seq<(String, JsonValue)>,
    key: Seq<char>,
)
    requires
        pa.len() == pb.len(),
        forall|j: int| 0 <= j < pa.len() ==> (#[trigger] pb[j]).0 == pa[j].0,
    ensures
        key_index(pb, key) == key_index(pa, key),
    decreases pa.len(),
{
    if pa.len() > 0 {
        assert forall|j: int| 0 <= j < pa.drop_first().len() implies (
        #[trigger] pb.drop_first()[j]).0 == pa.drop_first()[j].0 by {
            assert(pb.drop_first()[j] == pb[j + 1]);
            assert(pa.drop_first()[j] == pa[j + 1]);
        }
        lemma_same_keys_index(pa.drop_first(), pb.drop_first(), key);
        assert(pb[0].0 == pa[0].0);
    }
}

/// A member other than the one replaced reads the same.
pub proof fn lemma_other_member(a: JsonValue, key: Seq<char>, b: JsonValue, text: Seq<char>, other: Seq<char>)
    requires
        with_member_text(a, key, b, text),
        other != key,
    ensures
        json_get(b, other) == json_get(a, other),
        json_str(json_get(b, key)) == Some(text),
{
    let pa = a->Object_0@;
    let pb = b->Object_0@;
    let i = key_index(pa, key)->0;
    lemma_same_keys_index(pa, pb, other);
    lemma_same_keys_index(pa, pb, key);
    lemma_key_index(pa, other);
    lemma_key_index(pb, other);
    lemma_key_index(pa, key);
    lemma_key_index(pb, key);
    match key_index(pa, other) {
        Some(k) => {
            assert(pa[k].0@ == other);
            assert(k != i);
            assert(pb[k] == pa[k]);
        },
        None => {},
    }
}

/// Replacing the same member twice is replacing it once.
pub proof fn lemma_member_text_twice(
    h: JsonValue,
    key: Seq<char>,
    a: JsonValue,
    t1: Seq<char>,
    b: JsonValue,
    t2: Seq<char>,
)
    requires
        with_member_text(h, key, a, t1),
        with_member_text(a, key, b, t2),
    ensures
        with_member_text(h, key, b, t2),
{
    let ph = h->Object_0@;
    let pa = a->Object_0@;
    lemma_same_keys_index(ph, pa, key);
}

pub open spec fn role_str(m: JsonValue) -> Option<Seq<char>> {
    json_str(json_get(m, "role"@))
}

pub open spec fn content_str(m: JsonValue) -> Option<Seq<char>> {
    json_str(json_get(m, "content"@))
}

/// The text a message with text `cur` has once `next` is joined to it.
pub open spec fn joined_content(cur: Seq<char>, next: Seq<char>) -> Seq<char> {
    cur + (if cur.len() > 0 {
        "\n\n"@
    } else {
        seq![]
    }) + next
}

/// The messages after joining, each as the message it starts from and,
/// where others were joined to it, its text then.  A message with a string
/// role and string content is joined to the one before when that has the
/// same role and string content; any other message stands alone.
pub open spec fn combine_fold(ms: Seq<JsonValue>) -> Seq<(JsonValue, Option<Seq<char>>)>
    decreases ms.len(),
{
    if ms.len() == 0 {
        seq![]
    } else {
        let acc = combine_fold(ms.drop_last());
        let m = ms.last();
        if role_str(m) is None || content_str(m) is None {
            acc.push((m, None))
        } else if acc.len() > 0 && role_str(acc.last().0) == role_str(m) && content_str(
            acc.last().0,
        ) is Some {
            let cur = match acc.last().1 {
                Some(c) => c,
                None => content_str(acc.last().0)->0,
            };
            acc.update(
                acc.len() - 1,
                (acc.last().0, Some(joined_content(cur, content_str(m)->0))),
            )
        } else {
            acc.push((m, None))
        }
    }
}

/// `r` holds the joined messages: each the message it starts from, with its
/// `content` replaced by the joined text where others were joined to it.
pub open spec fn combined_matches(ms: Seq<JsonValue>, r: Seq<JsonValue>) -> bool {
    let f = combine_fold(ms);
    &&& r.len() == f.len()
    &&& forall|i: int|
        0 <= i < f.len() ==> match (#[trigger] f[i]).1 {
            None => r[i] == f[i].0,
            Some(c) => with_member_text(f[i].0, "content"@, r[i], c),
        }
}

pub proof fn lemma_fold_joins_strings(ms: Seq<JsonValue>)
    ensures
        forall|i: int|
            0 <= i < combine_fold(ms).len() && (#[trigger] combine_fold(ms)[i]).1 is Some
                ==> content_str(combine_fold(ms)[i].0) is Some,
    decreases ms.len(),
{
    if ms.len() > 0 {
        lemma_fold_joins_strings(ms.drop_last());
    }
}

fn role_and_content(m: &JsonValue) -> (r: (Option<&str>, Option<&str>))
    ensures
        match r.0 {
            Some(x) => role_str(*m) == Some(x@),
            None => role_str(*m) is None,
        },
        match r.1 {
            Some(x) => content_str(*m) == Some(x@),
            None => content_str(*m) is None,
        },
{
    (as_str(get(m, "role")), as_str(get(m, "content")))
}

/// Joins each message to the one before when both have the same role and
/// plain string content (see `combine_fold`).
pub fn combine_same_role_messages(messages: Vec<JsonValue>) -> (r: Vec<JsonValue>)
    ensures
        combined_matches(messages@, r@),
{
    let ghost all = messages@;
    let mut rest = messages;
    let mut combined: Vec<JsonValue> = Vec::new();
    let ghost mut i: int = 0;
    assert(all.skip(0) =~= all);
    assert(all.take(0) =~= Seq::<JsonValue>::empty());
    proof {
        reveal_strlit("role");
        reveal_strlit("content");
        assert("role"@.len() == 4);
        assert("content"@.len() == 7);
    }
    while rest.len() > 0
        invariant
            0 <= i <= all.len(),
            all.len() == i + rest@.len(),
            rest@ == all.skip(i),
            "role"@ != "content"@,
            combined_matches(all.take(i), combined@),
        decreases rest@.len(),
    {
        assert(all.take(i + 1).drop_last() =~= all.take(i));
        assert(all.take(i + 1).last() == all[i]);
        assert(rest@[0] == all[i]);
        let m = rest.remove(0);
        assert(rest@ =~= all.skip(i + 1));
        let ghost acc = combine_fold(all.take(i));
        let ghost before = combined@;
        proof {
            lemma_fold_joins_strings(all.take(i));
        }
        let (role, content) = role_and_content(&m);
        let mut merged = false;
        if role.is_some() && content.is_some() && combined.len() > 0 {
            let last_index = combined.len() - 1;
            let (last_role, last_content) = role_and_content(&combined[last_index]);
            proof {
                let k = last_index as int;
                assert(acc[k] == acc[k]);
                match acc[k].1 {
                    Some(c) => {
                        lemma_other_member(acc[k].0, "content"@, before[k], c, "role"@);
                    },
                    None => {},
                }
            }
            if opt_str_eq(last_role, role) && last_content.is_some() {
                let addition = content.unwrap();
                let existing = last_content.unwrap();
                let mut next = to_string(existing);
                if existing.unicode_len() > 0 {
                    next.append("\n\n");
                }
                next.append(addition);
                let ghost next_view = next@;
                let last = combined.pop().unwrap();
                assert(last == before[last_index as int]);
                match last {
                    JsonValue::Object(mut pairs) => {
                        proof {
                            lemma_key_index(pairs@, "content"@);
                        }
                        let idx = key_index_exec(&pairs, "content").unwrap();
                        let ghost old_pairs = pairs@;
                        let key = pairs[idx].0.clone();
                        pairs.set(idx, (key, JsonValue::String(next)));
                        let rebuilt = JsonValue::Object(pairs);
                        proof {
                            let k = last_index as int;
                            assert(with_member_text(before[k], "content"@, rebuilt, next_view));
                            match acc[k].1 {
                                Some(c) => {
                                    lemma_member_text_twice(
                                        acc[k].0,
                                        "content"@,
                                        before[k],
                                        c,
                                        rebuilt,
                                        next_view,
                                    );
                                },
                                None => {},
                            }
                        }
                        combined.push(rebuilt);
                        merged = true;
                    },
                    _ => {
                        combined.push(last);
                    },
                }
            }
        }
        if !merged {
            combined.push(m);
        }
        assert(combined_matches(all.take(i + 1), combined@));
        proof {
            i = i + 1;
        }
    }
    assert(all.take(i) =~= all);
    combined
}

fn opt_str_eq(a: Option<&str>, b: Option<&str>) -> (r: bool)
    ensures
        r == (match a {
            Some(x) => Some(x@),
            None => None,
        } == match b {
            Some(x) => Some(x@),
            None => None,
        }),
{
    match (a, b) {
        (Some(x), Some(y)) => str_eq(x, y),
        (None, None) => true,
        _ => false,
    }
}

/// `new` is `old` with its role `from` renamed `to`; other messages are
/// kept as they are.
pub open spec fn remapped(old: JsonValue, new: JsonValue, from: Seq<char>, to: Seq<char>) -> bool {
    if role_str(old) == Some(from) {
        with_member_text(old, "role"@, new, to)
    } else {
        new == old
    }
}

/// The messages with the role `from` renamed `to`, as a provider with its
/// own role names takes them.
pub fn remap_role(messages: Vec<JsonValue>, from: &str, to: &str) -> (r: Vec<JsonValue>)
    ensures
        r@.len() == messages@.len(),
        forall|i: int| 0 <= i < messages@.len() ==> remapped(messages@[i], #[trigger] r@[i], from@, to@),
{
    let ghost all = messages@;
    let mut rest = messages;
    let mut out: Vec<JsonValue> = Vec::new();
    let ghost mut i: int = 0;
    assert(all.skip(0) =~= all);
    while rest.len() > 0
        invariant
            0 <= i <= all.len(),
            all.len() == i + rest@.len(),
            rest@ == all.skip(i),
            out@.len() == i,
            forall|j: int| 0 <= j < i ==> remapped(all[j], #[trigger] out@[j], from@, to@),
        decreases rest@.len(),
    {
        assert(rest@[0] == all[i]);
        let m = rest.remove(0);
        assert(rest@ =~= all.skip(i + 1));
        let matches = match as_str(get(&m, "role")) {
            Some(r) => str_eq(r, from),
            None => false,
        };
        if matches {
            match m {
                JsonValue::Object(mut pairs) => {
                    proof {
                        lemma_key_index(pairs@, "role"@);
                    }
                    let idx = key_index_exec(&pairs, "role").unwrap();
                    let key = pairs[idx].0.clone();
                    pairs.set(idx, (key, JsonValue::String(to_string(to))));
                    out.push(JsonValue::Object(pairs));
                },
                other => {
                    out.push(other);
                },
            }
        } else {
            out.push(m);
        }
        proof {
            i = i + 1;
        }
    }
    out
}

/// Joining never adds messages.
pub proof fn lemma_combine_never_grows(ms: Seq<JsonValue>)
    ensures
        combine_fold(ms).len() <= ms.len(),
    decreases ms.len(),
{
    if ms.len() > 0 {
        lemma_combine_never_grows(ms.drop_last());
    }
}

} // verus!
