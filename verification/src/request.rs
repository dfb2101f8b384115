//! Stored chat messages, their alternative replies, and the messages shown
//! for provider-side refusals.
use vstd::prelude::*;

use crate::text::{replace, replace_seq, str_eq, to_string};

verus! {

/// One generated alternative of an assistant reply.
pub struct MessageVariant {
    pub id: String,
    pub content: String,
    pub created_at: u64,
    pub reasoning: Option<String>,
}

/// A message of a chat session, with the alternatives generated for it.
pub struct StoredMessage {
    pub id: String,
    pub role: String,
    pub content: String,
    pub created_at: u64,
    pub selected_variant_id: Option<String>,
    pub variants: Vec<MessageVariant>,
}

/// Id, content, creation time and reasoning of an alternative.
pub type VariantView = (Seq<char>, Seq<char>, u64, Option<Seq<char>>);

pub open spec fn opt_view(o: Option<String>) -> Option<Seq<char>> {
    match o {
        Some(s) => Some(s@),
        None => None,
    }
}

pub open spec fn variant_view(v: MessageVariant) -> VariantView {
    (v.id@, v.content@, v.created_at, opt_view(v.reasoning))
}

/// Id, role, content, creation time, selection and alternatives of a message.
pub type MessageView = (Seq<char>, Seq<char>, Seq<char>, u64, Option<Seq<char>>, Seq<VariantView>);

pub open spec fn message_view(m: StoredMessage) -> MessageView {
    (
        m.id@,
        m.role@,
        m.content@,
        m.created_at,
        opt_view(m.selected_variant_id),
        m.variants@.map_values(|v: MessageVariant| variant_view(v)),
    )
}

pub fn copy_opt_string(o: &Option<String>) -> (r: Option<String>)
    ensures
        opt_view(r) == opt_view(*o),
{
    match o {
        Some(s) => Some(s.clone()),
        None => None,
    }
}

pub fn copy_variant(v: &MessageVariant) -> (r: MessageVariant)
    ensures
        variant_view(r) == variant_view(*v),
{
    MessageVariant {
        id: v.id.clone(),
        content: v.content.clone(),
        created_at: v.created_at,
        reasoning: copy_opt_string(&v.reasoning),
    }
}

/// A copy of a message, alternatives included.
pub fn copy_message(m: &StoredMessage) -> (r: StoredMessage)
    ensures
        message_view(r) == message_view(*m),
{
    let mut variants: Vec<MessageVariant> = Vec::new();
    let mut i: usize = 0;
    while i < m.variants.len()
        invariant
            i <= m.variants@.len(),
            variants@.len() == i,
            forall|k: int| 0 <= k < i ==> variant_view(#[trigger] variants@[k]) == variant_view(m.variants@[k]),
        decreases m.variants@.len() - i,
    {
        variants.push(copy_variant(&m.variants[i]));
        i += 1;
    }
    let r = StoredMessage {
        id: m.id.clone(),
        role: m.role.clone(),
        content: m.content.clone(),
        created_at: m.created_at,
        selected_variant_id: copy_opt_string(&m.selected_variant_id),
        variants,
    };
    assert(r.variants@.map_values(|v: MessageVariant| variant_view(v)) =~= m.variants@.map_values(
        |v: MessageVariant| variant_view(v),
    ));
    r
}

/// Most alternatives kept for one message.
pub const MAX_ASSISTANT_VARIANTS_PER_MESSAGE: usize = 8;

/// Lower-case hexadecimal digits.
pub open spec fn is_lower_hex(c: char) -> bool {
    ('0' <= c && c <= '9') || ('a' <= c && c <= 'f')
}

/// Calls `uuid::Uuid::new_v4` and renders it with `to_string`.  The value
/// is random; its form is stated: 36 characters, hyphens after the 8th,
/// 12th, 16th and 20th hex digit, lower-case hex digits elsewhere, the
/// version digit `4` and an RFC 4122 variant digit (`8`, `9`, `a` or `b`).
#[verifier::external_body]
pub(crate) fn new_uuid_v4() -> (r: String)
    ensures
        r@.len() == 36,
        forall|i: int|
            0 <= i < 36 ==> if i == 8 || i == 13 || i == 18 || i == 23 {
                r@[i] == '-'
            } else {
                is_lower_hex(#[trigger] r@[i])
            },
        r@[14] == '4',
        r@[19] == '8' || r@[19] == '9' || r@[19] == 'a' || r@[19] == 'b',
{
    uuid::Uuid::new_v4().to_string()
}

/// Index of the first alternative whose id is `id`.
pub open spec fn first_index_with_id(vs: Seq<MessageVariant>, id: Seq<char>) -> Option<int>
    decreases vs.len(),
{
    if vs.len() == 0 {
        None
    } else if vs[0].id@ == id {
        Some(0)
    } else {
        match first_index_with_id(vs.drop_first(), id) {
            Some(i) => Some(i + 1),
            None => None,
        }
    }
}

pub proof fn lemma_first_index_bounds(vs: Seq<MessageVariant>, id: Seq<char>)
    ensures
        first_index_with_id(vs, id) matches Some(i) ==> 0 <= i < vs.len() && vs[i].id@ == id,
    decreases vs.len(),
{
    if vs.len() > 0 {
        lemma_first_index_bounds(vs.drop_first(), id);
    }
}

/// The alternative the message shows, if one is selected and present.
pub open spec fn selected_index(m: StoredMessage) -> Option<int> {
    match m.selected_variant_id {
        Some(id) => first_index_with_id(m.variants@, id@),
        None => None,
    }
}

pub fn selected_variant(message: &StoredMessage) -> (r: Option<&MessageVariant>)
    ensures
        r is Some <==> selected_index(*message) is Some,
        r is Some ==> 0 <= selected_index(*message).unwrap() < message.variants@.len()
            && *r.unwrap() == message.variants@[selected_index(*message).unwrap()],
{
    match &message.selected_variant_id {
        None => None,
        Some(selected_id) => {
            let n = message.variants.len();
            let mut i: usize = 0;
            assert(message.variants@.skip(0) =~= message.variants@);
            while i < n
                invariant
                    n == message.variants.len(),
                    i <= n,
                    message.selected_variant_id == Some(*selected_id),
                    first_index_with_id(message.variants@, selected_id@) == match first_index_with_id(
                        message.variants@.skip(i as int),
                        selected_id@,
                    ) {
                        Some(j) => Some(j + i),
                        None => None,
                    },
                decreases n - i,
            {
                assert(message.variants@.skip(i as int).drop_first() =~= message.variants@.skip(
                    i + 1,
                ));
                if str_eq(message.variants[i].id.as_str(), selected_id.as_str()) {
                    return Some(&message.variants[i]);
                }
                i += 1;
            }
            None
        },
    }
}

/// The text sent to a provider for a message: the selected alternative when
/// there is one, the message's own content otherwise.
pub open spec fn api_text(m: StoredMessage) -> Seq<char> {
    match selected_index(m) {
        Some(i) => m.variants@[i].content@,
        None => m.content@,
    }
}

pub fn message_text_for_api(message: &StoredMessage) -> (r: String)
    ensures
        r@ == api_text(*message),
{
    match selected_variant(message) {
        Some(variant) => variant.content.clone(),
        None => message.content.clone(),
    }
}

/// A new alternative with a fresh random id.
pub fn new_assistant_variant(content: String, created_at: u64) -> (r: MessageVariant)
    ensures
        r.content == content,
        r.created_at == created_at,
        r.reasoning is None,
        r.id@.len() == 36,
{
    MessageVariant { id: new_uuid_v4(), content, created_at, reasoning: None }
}

/// The alternatives kept after appending: the newest
/// `MAX_ASSISTANT_VARIANTS_PER_MESSAGE` of them.
pub open spec fn kept_variants(vs: Seq<MessageVariant>) -> Seq<MessageVariant> {
    if vs.len() > MAX_ASSISTANT_VARIANTS_PER_MESSAGE {
        vs.skip(vs.len() - MAX_ASSISTANT_VARIANTS_PER_MESSAGE)
    } else {
        vs
    }
}

/// Appends an alternative, keeps only the newest eight, and selects the new one.
pub fn push_assistant_variant(message: &mut StoredMessage, variant: MessageVariant)
    requires
        old(message).variants@.len() < usize::MAX,
    ensures
        final(message).variants@ == kept_variants(old(message).variants@.push(variant)),
        final(message).selected_variant_id matches Some(id) && id@ == variant.id@,
        final(message).id == old(message).id,
        final(message).role == old(message).role,
        final(message).content == old(message).content,
        final(message).created_at == old(message).created_at,
{
    let ghost all = old(message).variants@.push(variant);
    let variant_id = variant.id.clone();
    let mut vs: Vec<MessageVariant> = Vec::new();
    std::mem::swap(&mut vs, &mut message.variants);
    vs.push(variant);
    if vs.len() > MAX_ASSISTANT_VARIANTS_PER_MESSAGE {
        let overflow = vs.len() - MAX_ASSISTANT_VARIANTS_PER_MESSAGE;
        let mut removed: usize = 0;
        while removed < overflow
            invariant
                removed <= overflow,
                overflow == all.len() - MAX_ASSISTANT_VARIANTS_PER_MESSAGE,
                vs@ == all.skip(removed as int),
            decreases overflow - removed,
        {
            vs.remove(0);
            assert(vs@ =~= all.skip(removed + 1));
            removed += 1;
        }
    }
    message.variants = vs;
    message.selected_variant_id = Some(variant_id);
}

/// Gives a message without alternatives one holding its content, and selects
/// the newest alternative when none is selected.
pub fn ensure_assistant_variant(message: &mut StoredMessage)
    ensures
        old(message).variants@.len() == 0 ==> {
            &&& final(message).variants@.len() == 1
            &&& final(message).variants@[0].content == old(message).content
            &&& final(message).variants@[0].created_at == old(message).created_at
            &&& final(message).variants@[0].reasoning is None
            &&& final(message).selected_variant_id matches Some(id) && id
                == final(message).variants@[0].id
        },
        old(message).variants@.len() > 0 ==> {
            &&& final(message).variants == old(message).variants
            &&& final(message).selected_variant_id == if old(message).selected_variant_id is None {
                Some(old(message).variants@.last().id)
            } else {
                old(message).selected_variant_id
            }
        },
        final(message).content == old(message).content,
        final(message).created_at == old(message).created_at,
{
    if message.variants.len() == 0 {
        let id = new_uuid_v4();
        let v = MessageVariant {
            id: id.clone(),
            content: message.content.clone(),
            created_at: message.created_at,
            reasoning: None,
        };
        message.variants.push(v);
        message.selected_variant_id = Some(id);
    } else if message.selected_variant_id.is_none() {
        let last = message.variants.len() - 1;
        let id = message.variants[last].id.clone();
        message.selected_variant_id = Some(id);
    }
}

/// After appending an alternative, at most eight are kept, the newest of
/// them is the appended one, and the selection names it.
pub proof fn lemma_push_variant_bounded(vs: Seq<MessageVariant>, v: MessageVariant)
    ensures
        kept_variants(vs.push(v)).len() <= MAX_ASSISTANT_VARIANTS_PER_MESSAGE,
        kept_variants(vs.push(v)).last() == v,
        kept_variants(vs.push(v)).len() == if vs.len() + 1 > MAX_ASSISTANT_VARIANTS_PER_MESSAGE {
            MAX_ASSISTANT_VARIANTS_PER_MESSAGE as int
        } else {
            vs.len() + 1int
        },
{
}

// ------------------------------------------------------------------
// Refusal messages
// ------------------------------------------------------------------

/// What `str::to_lowercase` (full Unicode lower-casing) gives for `s`.
pub uninterp spec fn unicode_lowercase(s: Seq<char>) -> Seq<char>;

/// Calls `str::to_lowercase`; the result is named by `unicode_lowercase`.
#[verifier::external_body]
pub(crate) fn to_lowercase(s: &str) -> (r: String)
    ensures
        r@ == unicode_lowercase(s@),
{
    s.to_lowercase()
}

/// `reason` with underscores turned into spaces, then lower-cased.
pub open spec fn humanized_reason(reason: Seq<char>) -> Seq<char> {
    unicode_lowercase(replace_seq(reason, seq!['_'], seq![' ']))
}

pub fn humanize_reason(reason: &str) -> (r: String)
    ensures
        r@ == humanized_reason(reason@),
{
    proof {
        reveal_strlit("_");
        reveal_strlit(" ");
        assert("_"@.len() == 1);
        assert(" "@.len() == 1);
        assert("_"@ =~= seq!['_']);
        assert(" "@ =~= seq![' ']);
    }
    let spaced = replace(reason, "_", " ");
    to_lowercase(spaced.as_str())
}

/// The message shown when the provider refuses a prompt for `reason`.
pub open spec fn block_reason_message(reason: Seq<char>) -> Seq<char> {
    if reason == "BLOCK_REASON_UNSPECIFIED"@ {
        "Content was blocked by Gemini for an unspecified reason."@
    } else if reason == "SAFETY"@ {
        "Content was blocked by Gemini safety filters. Try adjusting your prompt or safety settings."@
    } else if reason == "OTHER"@ {
        "Content was blocked by Gemini for an uncategorized reason."@
    } else if reason == "BLOCKLIST"@ {
        "Content was blocked: the prompt contains terms from the blocklist."@
    } else if reason == "PROHIBITED_CONTENT"@ {
        "Content was blocked by Gemini: prohibited content detected (e.g., CSAM or policy violation)."@
    } else if reason == "IMAGE_SAFETY"@ {
        "Content was blocked by Gemini: the image failed safety checks."@
    } else {
        "Content was blocked by Gemini: "@ + humanized_reason(reason)
    }
}

pub fn format_gemini_block_reason(reason: &str) -> (r: String)
    ensures
        r@ == block_reason_message(reason@),
{
    if str_eq(reason, "BLOCK_REASON_UNSPECIFIED") {
        to_string("Content was blocked by Gemini for an unspecified reason.")
    } else if str_eq(reason, "SAFETY") {
        to_string(
            "Content was blocked by Gemini safety filters. Try adjusting your prompt or safety settings.",
        )
    } else if str_eq(reason, "OTHER") {
        to_string("Content was blocked by Gemini for an uncategorized reason.")
    } else if str_eq(reason, "BLOCKLIST") {
        to_string("Content was blocked: the prompt contains terms from the blocklist.")
    } else if str_eq(reason, "PROHIBITED_CONTENT") {
        to_string(
            "Content was blocked by Gemini: prohibited content detected (e.g., CSAM or policy violation).",
        )
    } else if str_eq(reason, "IMAGE_SAFETY") {
        to_string("Content was blocked by Gemini: the image failed safety checks.")
    } else {
        let mut m = to_string("Content was blocked by Gemini: ");
        let h = humanize_reason(reason);
        m.append(h.as_str());
        m
    }
}

/// The message for a response that stopped for `reason`; `None` for the
/// reasons of a normal end.
pub open spec fn finish_reason_message(reason: Seq<char>) -> Option<Seq<char>> {
    if reason == "STOP"@ || reason == "MAX_TOKENS"@ || reason == "FINISH_REASON_UNSPECIFIED"@ {
        None
    } else if reason == "SAFETY"@ {
        Some("Response was blocked by Gemini safety filters."@)
    } else if reason == "RECITATION"@ {
        Some("Response was blocked due to recitation concerns (potential copyright issues)."@)
    } else if reason == "LANGUAGE"@ {
        Some("Response was blocked: unsupported language detected."@)
    } else if reason == "OTHER"@ {
        Some("Response was blocked by Gemini for an uncategorized reason."@)
    } else if reason == "BLOCKLIST"@ {
        Some("Response was blocked: output contains terms from the blocklist."@)
    } else if reason == "PROHIBITED_CONTENT"@ {
        Some("Response was blocked: prohibited content detected."@)
    } else if reason == "SPII"@ {
        Some(
            "Response was blocked: sensitive personally identifiable information (SPII) detected."@,
        )
    } else if reason == "MALFORMED_FUNCTION_CALL"@ {
        Some("Response generation failed: malformed function call."@)
    } else if reason == "IMAGE_SAFETY"@ {
        Some("Image generation was blocked by safety filters."@)
    } else if reason == "IMAGE_PROHIBITED_CONTENT"@ {
        Some("Image generation was blocked: prohibited content detected."@)
    } else if reason == "IMAGE_OTHER"@ {
        Some("Image generation was blocked for an uncategorized reason."@)
    } else if reason == "NO_IMAGE"@ {
        Some("Image generation failed: no image was produced."@)
    } else if reason == "IMAGE_RECITATION"@ {
        Some("Image generation was blocked due to recitation concerns."@)
    } else if reason == "UNEXPECTED_TOOL_CALL"@ {
        Some("Response generation failed: unexpected tool call."@)
    } else if reason == "TOO_MANY_TOOL_CALLS"@ {
        Some("Response generation failed: too many tool calls."@)
    } else if reason == "MISSING_THOUGHT_SIGNATURE"@ {
        Some("Response generation failed: missing thought signature."@)
    } else {
        Some("Response was blocked by Gemini: "@ + humanized_reason(reason))
    }
}

fn some_text(s: &str) -> (r: Option<String>)
    ensures
        r matches Some(t) && t@ == s@,
{
    Some(to_string(s))
}

pub fn format_gemini_finish_reason_error(reason: &str) -> (r: Option<String>)
    ensures
        match r {
            Some(m) => finish_reason_message(reason@) == Some(m@),
            None => finish_reason_message(reason@) is None,
        },
{
    if str_eq(reason, "STOP") || str_eq(reason, "MAX_TOKENS") || str_eq(
        reason,
        "FINISH_REASON_UNSPECIFIED",
    ) {
        None
    } else if str_eq(reason, "SAFETY") {
        some_text("Response was blocked by Gemini safety filters.")
    } else if str_eq(reason, "RECITATION") {
        some_text("Response was blocked due to recitation concerns (potential copyright issues).")
    } else if str_eq(reason, "LANGUAGE") {
        some_text("Response was blocked: unsupported language detected.")
    } else if str_eq(reason, "OTHER") {
        some_text("Response was blocked by Gemini for an uncategorized reason.")
    } else if str_eq(reason, "BLOCKLIST") {
        some_text("Response was blocked: output contains terms from the blocklist.")
    } else if str_eq(reason, "PROHIBITED_CONTENT") {
        some_text("Response was blocked: prohibited content detected.")
    } else if str_eq(reason, "SPII") {
        some_text(
            "Response was blocked: sensitive personally identifiable information (SPII) detected.",
        )
    } else if str_eq(reason, "MALFORMED_FUNCTION_CALL") {
        some_text("Response generation failed: malformed function call.")
    } else if str_eq(reason, "IMAGE_SAFETY") {
        some_text("Image generation was blocked by safety filters.")
    } else if str_eq(reason, "IMAGE_PROHIBITED_CONTENT") {
        some_text("Image generation was blocked: prohibited content detected.")
    } else if str_eq(reason, "IMAGE_OTHER") {
        some_text("Image generation was blocked for an uncategorized reason.")
    } else if str_eq(reason, "NO_IMAGE") {
        some_text("Image generation failed: no image was produced.")
    } else if str_eq(reason, "IMAGE_RECITATION") {
        some_text("Image generation was blocked due to recitation concerns.")
    } else if str_eq(reason, "UNEXPECTED_TOOL_CALL") {
        some_text("Response generation failed: unexpected tool call.")
    } else if str_eq(reason, "TOO_MANY_TOOL_CALLS") {
        some_text("Response generation failed: too many tool calls.")
    } else if str_eq(reason, "MISSING_THOUGHT_SIGNATURE") {
        some_text("Response generation failed: missing thought signature.")
    } else {
        let mut m = to_string("Response was blocked by Gemini: ");
        let h = humanize_reason(reason);
        m.append(h.as_str());
        Some(m)
    }
}

} // verus!
