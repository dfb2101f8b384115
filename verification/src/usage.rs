//! The token counts a provider reports: read from one object, from one
//! streamed frame, or searched for anywhere in an answer.
use vstd::prelude::*;

use crate::json::{
    aliased, aliased_get, deref_opt, get, json_get, json_str, opt_get, opt_get_exec, JsonNumber,
    JsonValue,
};
use crate::request::opt_view;
use crate::response::{first_item, first_item_exec, key_index, key_index_exec, lemma_key_index, or_else, str_owned};
use crate::temporal::{all_digits, digits_value, is_digit, lemma_digits_value_grows};
use crate::text::{chars_of, is_blank, str_eq, trim, trim_seq};

verus! {

// ------------------------------------------------------------------
// Token counts
// ------------------------------------------------------------------

/// `str::parse::<u64>`: an optional `+`, then one or more ASCII digits, with
/// a value that fits.
pub open spec fn parsed_u64(s: Seq<char>) -> Option<u64> {
    let body = if s.len() > 0 && s[0] == '+' {
        s.drop_first()
    } else {
        s
    };
    if body.len() == 0 || !all_digits(body) || digits_value(body) > u64::MAX {
        None
    } else {
        Some(digits_value(body) as u64)
    }
}

pub fn parse_u64(s: &str) -> (r: Option<u64>)
    ensures
        r == parsed_u64(s@),
{
    let v = chars_of(s);
    let n = v.len();
    let start: usize = if n > 0 && v[0] == '+' {
        1
    } else {
        0
    };
    let ghost body = if v@.len() > 0 && v@[0] == '+' {
        v@.drop_first()
    } else {
        v@
    };
    assert(body =~= v@.skip(start as int));
    if start == n {
        return None;
    }
    let mut acc: u64 = 0;
    let mut i: usize = start;
    while i < n
        invariant
            start <= i <= n,
            n == v@.len(),
            v@ == s@,
            body == v@.skip(start as int),
            body == (if v@.len() > 0 && v@[0] == '+' {
                v@.drop_first()
            } else {
                v@
            }),
            acc == digits_value(body.take(i - start)),
            all_digits(body.take(i - start)),
        decreases n - i,
    {
        let c = v[i];
        assert(body[i - start] == c);
        if !('0' <= c && c <= '9') {
            assert(!is_digit(body[i - start]));
            return None;
        }
        let d = (c as u32 - '0' as u32) as u64;
        assert(body.take(i - start + 1).drop_last() =~= body.take(i - start));
        assert(body.take(i - start + 1).last() == c);
        if acc > (u64::MAX - d) / 10 {
            proof {
                assert(acc * 10 + d > u64::MAX) by (nonlinear_arith)
                    requires
                        acc > (u64::MAX - d) / 10,
                        d <= 9,
                ;
                if all_digits(body) {
                    lemma_digits_value_grows(body, i - start + 1);
                }
            }
            return None;
        }
        proof {
            assert(acc * 10 + d <= u64::MAX) by (nonlinear_arith)
                requires
                    acc <= (u64::MAX - d) / 10,
                    d <= 9,
            ;
        }
        acc = acc * 10 + d;
        i += 1;
        assert(all_digits(body.take(i - start))) by {
            assert forall|k: int| 0 <= k < body.take(i - start).len() implies is_digit(
                #[trigger] body.take(i - start)[k],
            ) by {
                if k < i - start - 1 {
                    assert(body.take(i - start)[k] == body.take(i - start - 1)[k]);
                }
            }
        }
    }
    assert(body.take(n - start) =~= body);
    Some(acc)
}

/// A token count as a provider writes it: a non-negative integer, or a
/// string holding one (trimmed).
pub open spec fn token_value(v: JsonValue) -> Option<u64> {
    match v {
        JsonValue::Number(JsonNumber::PosInt(n)) => Some(n),
        JsonValue::String(t) => parsed_u64(trim_seq(t@)),
        _ => None,
    }
}

pub fn parse_token_value(v: &JsonValue) -> (r: Option<u64>)
    ensures
        r == token_value(*v),
{
    match v {
        JsonValue::Number(JsonNumber::PosInt(n)) => Some(*n),
        JsonValue::String(t) => {
            let tt = trim(t.as_str());
            parse_u64(tt.as_str())
        },
        _ => None,
    }
}

pub open spec fn keys_view(keys: Seq<&str>) -> Seq<Seq<char>> {
    keys.map_values(|k: &str| k@)
}

/// The count under the first of `keys` that holds one.
pub open spec fn first_count(v: JsonValue, keys: Seq<Seq<char>>) -> Option<u64>
    decreases keys.len(),
{
    if keys.len() == 0 {
        None
    } else {
        match json_get(v, keys[0]) {
            Some(x) => if token_value(x) is Some {
                token_value(x)
            } else {
                first_count(v, keys.drop_first())
            },
            None => first_count(v, keys.drop_first()),
        }
    }
}

pub open spec fn opt_first_count(v: Option<JsonValue>, keys: Seq<Seq<char>>) -> Option<u64> {
    match v {
        Some(x) => first_count(x, keys),
        None => None,
    }
}

fn take_first(v: &JsonValue, keys: &Vec<&str>) -> (r: Option<u64>)
    ensures
        r == first_count(*v, keys_view(keys@)),
{
    let ghost all = keys_view(keys@);
    let mut i: usize = 0;
    assert(all.skip(0) =~= all);
    while i < keys.len()
        invariant
            i <= keys@.len(),
            all == keys_view(keys@),
            first_count(*v, all) == first_count(*v, all.skip(i as int)),
        decreases keys@.len() - i,
    {
        assert(all.skip(i as int).drop_first() =~= all.skip(i + 1));
        assert(all.skip(i as int)[0] == keys@[i as int]@);
        if let Some(x) = get(v, keys[i]) {
            if let Some(n) = parse_token_value(x) {
                return Some(n);
            }
        }
        i += 1;
    }
    None
}

fn take_first_opt(v: Option<&JsonValue>, keys: &Vec<&str>) -> (r: Option<u64>)
    ensures
        r == opt_first_count(deref_opt(v), keys_view(keys@)),
{
    match v {
        Some(x) => take_first(x, keys),
        None => None,
    }
}

/// The counts of a provider's usage report.  Its speed in tokens per
/// second, a fraction, is read beside them by the application.
pub struct UsageCounts {
    pub prompt_tokens: Option<u64>,
    pub completion_tokens: Option<u64>,
    pub total_tokens: Option<u64>,
    pub reasoning_tokens: Option<u64>,
    pub image_tokens: Option<u64>,
    pub first_token_ms: Option<u64>,
    pub finish_reason: Option<String>,
}

/// Prompt, completion, total, reasoning and image tokens, the time to the
/// first token, and the finish reason.
pub type UsageView = (
    Option<u64>,
    Option<u64>,
    Option<u64>,
    Option<u64>,
    Option<u64>,
    Option<u64>,
    Option<Seq<char>>,
);

pub open spec fn usage_view(u: UsageCounts) -> UsageView {
    (
        u.prompt_tokens,
        u.completion_tokens,
        u.total_tokens,
        u.reasoning_tokens,
        u.image_tokens,
        u.first_token_ms,
        opt_view(u.finish_reason),
    )
}

pub open spec fn opt_usage_view(u: Option<UsageCounts>) -> Option<UsageView> {
    match u {
        Some(x) => Some(usage_view(x)),
        None => None,
    }
}

/// Whether the total, when it is the sum of the prompt and completion
/// counts, fits in a `u64`.
pub open spec fn sum_fits(p: Option<u64>, c: Option<u64>, found_total: Option<u64>) -> bool {
    (found_total is None && p is Some && c is Some) ==> p.unwrap() + c.unwrap() <= u64::MAX
}

/// The total given, else the sum of the prompt and completion counts.
pub open spec fn total_of(found_total: Option<u64>, p: Option<u64>, c: Option<u64>) -> Option<u64> {
    if found_total is Some {
        found_total
    } else if p is Some && c is Some {
        Some((p.unwrap() + c.unwrap()) as u64)
    } else {
        None
    }
}

fn total_exec(found_total: Option<u64>, p: Option<u64>, c: Option<u64>) -> (r: Option<u64>)
    requires
        sum_fits(p, c, found_total),
    ensures
        r == total_of(found_total, p, c),
{
    match found_total {
        Some(t) => Some(t),
        None => match (p, c) {
            (Some(a), Some(b)) => Some(a + b),
            _ => None,
        },
    }
}

pub open spec fn or_count(a: Option<u64>, b: Option<u64>) -> Option<u64> {
    if a is Some {
        a
    } else {
        b
    }
}

pub open spec fn report(
    p: Option<u64>,
    c: Option<u64>,
    t: Option<u64>,
    reasoning: Option<u64>,
    image: Option<u64>,
    first_token_ms: Option<u64>,
    finish_reason: Option<Seq<char>>,
) -> Option<UsageView> {
    if p is None && c is None && t is None {
        None
    } else {
        Some((p, c, t, reasoning, image, first_token_ms, finish_reason))
    }
}

fn report_exec(
    p: Option<u64>,
    c: Option<u64>,
    t: Option<u64>,
    reasoning: Option<u64>,
    image: Option<u64>,
    first_token_ms: Option<u64>,
    finish_reason: Option<String>,
) -> (r: Option<UsageCounts>)
    ensures
        opt_usage_view(r) == report(p, c, t, reasoning, image, first_token_ms, opt_view(finish_reason)),
{
    if p.is_none() && c.is_none() && t.is_none() {
        None
    } else {
        Some(
            UsageCounts {
                prompt_tokens: p,
                completion_tokens: c,
                total_tokens: t,
                reasoning_tokens: reasoning,
                image_tokens: image,
                first_token_ms,
                finish_reason,
            },
        )
    }
}

// The member names each report uses.

pub open spec fn map_prompt_keys() -> Seq<Seq<char>> {
    seq!["prompt_eval_count"@, "prompt_tokens"@, "input_tokens"@, "promptTokens"@, "inputTokens"@]
}

pub open spec fn map_completion_keys() -> Seq<Seq<char>> {
    seq!["eval_count"@, "completion_tokens"@, "output_tokens"@, "completionTokens"@, "outputTokens"@]
}

pub open spec fn reasoning_keys() -> Seq<Seq<char>> {
    seq!["reasoning_tokens"@, "reasoningTokens"@, "thinking_tokens"@, "thinkingTokens"@]
}

pub open spec fn nested_reasoning_keys() -> Seq<Seq<char>> {
    seq!["reasoning_tokens"@, "reasoningTokens"@]
}

pub open spec fn image_keys() -> Seq<Seq<char>> {
    seq!["image_tokens"@, "imageTokens"@]
}

pub open spec fn prompt_detail_image_keys() -> Seq<Seq<char>> {
    seq!["image_tokens"@, "imageTokens"@, "cached_tokens"@]
}

pub open spec fn map_total_keys() -> Seq<Seq<char>> {
    seq!["total_tokens"@, "totalTokens"@]
}

pub open spec fn first_token_keys() -> Seq<Seq<char>> {
    seq!["first_token_ms"@, "firstTokenMs"@, "ttft_ms"@, "ttftMs"@]
}

fn map_prompt_keys_exec() -> (r: Vec<&'static str>)
    ensures
        keys_view(r@) == map_prompt_keys(),
{
    let r = vec!["prompt_eval_count", "prompt_tokens", "input_tokens", "promptTokens", "inputTokens"];
    assert(keys_view(r@) =~= map_prompt_keys());
    r
}

fn map_completion_keys_exec() -> (r: Vec<&'static str>)
    ensures
        keys_view(r@) == map_completion_keys(),
{
    let r = vec!["eval_count", "completion_tokens", "output_tokens", "completionTokens", "outputTokens"];
    assert(keys_view(r@) =~= map_completion_keys());
    r
}

fn reasoning_keys_exec() -> (r: Vec<&'static str>)
    ensures
        keys_view(r@) == reasoning_keys(),
{
    let r = vec!["reasoning_tokens", "reasoningTokens", "thinking_tokens", "thinkingTokens"];
    assert(keys_view(r@) =~= reasoning_keys());
    r
}

fn nested_reasoning_keys_exec() -> (r: Vec<&'static str>)
    ensures
        keys_view(r@) == nested_reasoning_keys(),
{
    let r = vec!["reasoning_tokens", "reasoningTokens"];
    assert(keys_view(r@) =~= nested_reasoning_keys());
    r
}

fn image_keys_exec() -> (r: Vec<&'static str>)
    ensures
        keys_view(r@) == image_keys(),
{
    let r = vec!["image_tokens", "imageTokens"];
    assert(keys_view(r@) =~= image_keys());
    r
}

fn prompt_detail_image_keys_exec() -> (r: Vec<&'static str>)
    ensures
        keys_view(r@) == prompt_detail_image_keys(),
{
    let r = vec!["image_tokens", "imageTokens", "cached_tokens"];
    assert(keys_view(r@) =~= prompt_detail_image_keys());
    r
}

fn map_total_keys_exec() -> (r: Vec<&'static str>)
    ensures
        keys_view(r@) == map_total_keys(),
{
    let r = vec!["total_tokens", "totalTokens"];
    assert(keys_view(r@) =~= map_total_keys());
    r
}

fn first_token_keys_exec() -> (r: Vec<&'static str>)
    ensures
        keys_view(r@) == first_token_keys(),
{
    let r = vec!["first_token_ms", "firstTokenMs", "ttft_ms", "ttftMs"];
    assert(keys_view(r@) =~= first_token_keys());
    r
}

/// The usage report of an object that holds the counts itself: prompt and
/// completion tokens under their several names, reasoning and image tokens
/// here or in the token details, the total given or else summed, the time
/// to the first token, and the finish reason; nothing when neither a prompt,
/// a completion nor a total count is there.
pub open spec fn map_usage(v: JsonValue) -> Option<UsageView> {
    let p = first_count(v, map_prompt_keys());
    let c = first_count(v, map_completion_keys());
    let reasoning = or_count(
        first_count(v, reasoning_keys()),
        opt_first_count(json_get(v, "completion_tokens_details"@), nested_reasoning_keys()),
    );
    let image = or_count(
        first_count(v, image_keys()),
        or_count(
            opt_first_count(json_get(v, "prompt_tokens_details"@), prompt_detail_image_keys()),
            opt_first_count(json_get(v, "completion_tokens_details"@), image_keys()),
        ),
    );
    let t = total_of(first_count(v, map_total_keys()), p, c);
    report(
        p,
        c,
        t,
        reasoning,
        image,
        first_count(v, first_token_keys()),
        json_str(aliased(v, "finish_reason"@, "finishReason"@)),
    )
}

pub open spec fn map_sum_fits(v: JsonValue) -> bool {
    sum_fits(
        first_count(v, map_prompt_keys()),
        first_count(v, map_completion_keys()),
        first_count(v, map_total_keys()),
    )
}

pub fn map_usage_fits(v: &JsonValue) -> (r: bool)
    ensures
        r == map_sum_fits(*v),
{
    let p = take_first(v, &map_prompt_keys_exec());
    let c = take_first(v, &map_completion_keys_exec());
    let t = take_first(v, &map_total_keys_exec());
    match (t, p, c) {
        (None, Some(a), Some(b)) => a <= u64::MAX - b,
        _ => true,
    }
}

/// The usage report of an object that holds the counts itself (see
/// `map_usage`).
pub fn usage_from_map(v: &JsonValue) -> (r: Option<UsageCounts>)
    requires
        map_sum_fits(*v),
    ensures
        opt_usage_view(r) == map_usage(*v),
{
    let p = take_first(v, &map_prompt_keys_exec());
    let c = take_first(v, &map_completion_keys_exec());
    let reasoning = match take_first(v, &reasoning_keys_exec()) {
        Some(n) => Some(n),
        None => take_first_opt(get(v, "completion_tokens_details"), &nested_reasoning_keys_exec()),
    };
    let image = match take_first(v, &image_keys_exec()) {
        Some(n) => Some(n),
        None => match take_first_opt(
            get(v, "prompt_tokens_details"),
            &prompt_detail_image_keys_exec(),
        ) {
            Some(n) => Some(n),
            None => take_first_opt(get(v, "completion_tokens_details"), &image_keys_exec()),
        },
    };
    let t = total_exec(take_first(v, &map_total_keys_exec()), p, c);
    let first_token_ms = take_first(v, &first_token_keys_exec());
    let finish = str_owned(aliased_get(v, "finish_reason", "finishReason"));
    report_exec(p, c, t, reasoning, image, first_token_ms, finish)
}

pub open spec fn report_prompt_keys() -> Seq<Seq<char>> {
    seq!["prompt_tokens"@, "input_tokens"@, "promptTokens"@, "inputTokens"@, "promptTokenCount"@]
}

pub open spec fn report_completion_keys() -> Seq<Seq<char>> {
    seq![
        "completion_tokens"@,
        "output_tokens"@,
        "completionTokens"@,
        "outputTokens"@,
        "candidatesTokenCount"@,
    ]
}

pub open spec fn report_reasoning_keys() -> Seq<Seq<char>> {
    seq![
        "reasoning_tokens"@,
        "reasoningTokens"@,
        "thinking_tokens"@,
        "thinkingTokens"@,
        "thoughtsTokenCount"@,
    ]
}

pub open spec fn report_total_keys() -> Seq<Seq<char>> {
    seq!["total_tokens"@, "totalTokens"@, "totalTokenCount"@]
}

pub open spec fn bare_prompt_keys() -> Seq<Seq<char>> {
    seq!["prompt_eval_count"@, "prompt_tokens"@]
}

pub open spec fn bare_completion_keys() -> Seq<Seq<char>> {
    seq!["eval_count"@, "completion_tokens"@]
}

fn report_prompt_keys_exec() -> (r: Vec<&'static str>)
    ensures
        keys_view(r@) == report_prompt_keys(),
{
    let r = vec!["prompt_tokens", "input_tokens", "promptTokens", "inputTokens", "promptTokenCount"];
    assert(keys_view(r@) =~= report_prompt_keys());
    r
}

fn report_completion_keys_exec() -> (r: Vec<&'static str>)
    ensures
        keys_view(r@) == report_completion_keys(),
{
    let r = vec![
        "completion_tokens",
        "output_tokens",
        "completionTokens",
        "outputTokens",
        "candidatesTokenCount",
    ];
    assert(keys_view(r@) =~= report_completion_keys());
    r
}

fn report_reasoning_keys_exec() -> (r: Vec<&'static str>)
    ensures
        keys_view(r@) == report_reasoning_keys(),
{
    let r = vec![
        "reasoning_tokens",
        "reasoningTokens",
        "thinking_tokens",
        "thinkingTokens",
        "thoughtsTokenCount",
    ];
    assert(keys_view(r@) =~= report_reasoning_keys());
    r
}

fn report_total_keys_exec() -> (r: Vec<&'static str>)
    ensures
        keys_view(r@) == report_total_keys(),
{
    let r = vec!["total_tokens", "totalTokens", "totalTokenCount"];
    assert(keys_view(r@) =~= report_total_keys());
    r
}

fn bare_prompt_keys_exec() -> (r: Vec<&'static str>)
    ensures
        keys_view(r@) == bare_prompt_keys(),
{
    let r = vec!["prompt_eval_count", "prompt_tokens"];
    assert(keys_view(r@) =~= bare_prompt_keys());
    r
}

fn bare_completion_keys_exec() -> (r: Vec<&'static str>)
    ensures
        keys_view(r@) == bare_completion_keys(),
{
    let r = vec!["eval_count", "completion_tokens"];
    assert(keys_view(r@) =~= bare_completion_keys());
    r
}

/// The usage member of a frame: `usage`, else `usageMetadata`.
pub open spec fn usage_member(v: JsonValue) -> Option<JsonValue> {
    aliased(v, "usage"@, "usageMetadata"@)
}

/// Prompt, completion, given total, reasoning and image counts of a frame:
/// from its usage member when it has one, else prompt and completion
/// counts from the frame itself.
pub open spec fn frame_counts(v: JsonValue) -> (
    Option<u64>,
    Option<u64>,
    Option<u64>,
    Option<u64>,
    Option<u64>,
) {
    match usage_member(v) {
        Some(u) => (
            first_count(u, report_prompt_keys()),
            first_count(u, report_completion_keys()),
            first_count(u, report_total_keys()),
            or_count(
                first_count(u, report_reasoning_keys()),
                opt_first_count(json_get(u, "completion_tokens_details"@), nested_reasoning_keys()),
            ),
            or_count(
                first_count(u, image_keys()),
                opt_first_count(json_get(u, "prompt_tokens_details"@), prompt_detail_image_keys()),
            ),
        ),
        None => (
            first_count(v, bare_prompt_keys()),
            first_count(v, bare_completion_keys()),
            None,
            None,
            None,
        ),
    }
}

/// The finish reason of a frame: of its first choice, else of its first
/// candidate, else its `stop_reason`.
pub open spec fn frame_finish_reason(v: JsonValue) -> Option<Seq<char>> {
    or_else(
        json_str(opt_get(first_item(json_get(v, "choices"@)), "finish_reason"@)),
        or_else(
            json_str(opt_get(first_item(json_get(v, "candidates"@)), "finishReason"@)),
            json_str(json_get(v, "stop_reason"@)),
        ),
    )
}

/// The usage report of one frame (see `frame_counts`), with the total given
/// or else summed.
pub open spec fn value_usage(v: JsonValue) -> Option<UsageView> {
    let (p, c, found_total, reasoning, image) = frame_counts(v);
    report(
        p,
        c,
        total_of(found_total, p, c),
        reasoning,
        image,
        first_count(v, first_token_keys()),
        frame_finish_reason(v),
    )
}

pub open spec fn value_sum_fits(v: JsonValue) -> bool {
    let (p, c, found_total, _r, _i) = frame_counts(v);
    sum_fits(p, c, found_total)
}

fn frame_counts_exec(v: &JsonValue) -> (r: (
    Option<u64>,
    Option<u64>,
    Option<u64>,
    Option<u64>,
    Option<u64>,
))
    ensures
        r == frame_counts(*v),
{
    match aliased_get(v, "usage", "usageMetadata") {
        Some(u) => {
            let p = take_first(u, &report_prompt_keys_exec());
            let c = take_first(u, &report_completion_keys_exec());
            let t = take_first(u, &report_total_keys_exec());
            let reasoning = match take_first(u, &report_reasoning_keys_exec()) {
                Some(n) => Some(n),
                None => take_first_opt(
                    get(u, "completion_tokens_details"),
                    &nested_reasoning_keys_exec(),
                ),
            };
            let image = match take_first(u, &image_keys_exec()) {
                Some(n) => Some(n),
                None => take_first_opt(
                    get(u, "prompt_tokens_details"),
                    &prompt_detail_image_keys_exec(),
                ),
            };
            (p, c, t, reasoning, image)
        },
        None => (
            take_first(v, &bare_prompt_keys_exec()),
            take_first(v, &bare_completion_keys_exec()),
            None,
            None,
            None,
        ),
    }
}

pub fn value_usage_fits(v: &JsonValue) -> (r: bool)
    ensures
        r == value_sum_fits(*v),
{
    let (p, c, t, _reasoning, _image) = frame_counts_exec(v);
    match (t, p, c) {
        (None, Some(a), Some(b)) => a <= u64::MAX - b,
        _ => true,
    }
}

/// The usage report of one frame (see `value_usage`).
pub fn usage_from_value(v: &JsonValue) -> (r: Option<UsageCounts>)
    requires
        value_sum_fits(*v),
    ensures
        opt_usage_view(r) == value_usage(*v),
{
    let (p, c, found_total, reasoning, image) = frame_counts_exec(v);
    let t = total_exec(found_total, p, c);
    let c0 = first_item_exec(get(v, "choices"));
    let finish = match str_owned(opt_get_exec(c0, "finish_reason")) {
        Some(f) => Some(f),
        None => match str_owned(opt_get_exec(first_item_exec(get(v, "candidates")), "finishReason")) {
            Some(f) => Some(f),
            None => str_owned(get(v, "stop_reason")),
        },
    };
    let first_token_ms = take_first(v, &first_token_keys_exec());
    report_exec(p, c, t, reasoning, image, first_token_ms, finish)
}

/// The last usage report among the frames.
pub open spec fn frames_usage(frames: Seq<JsonValue>) -> Option<UsageView>
    decreases frames.len(),
{
    if frames.len() == 0 {
        None
    } else {
        match value_usage(frames.last()) {
            Some(u) => Some(u),
            None => frames_usage(frames.drop_last()),
        }
    }
}

/// The usage of a stream is the report of its last frame that carries one:
/// some frame carries it and no later frame carries a report; when no
/// frame carries one, there is none.
pub proof fn lemma_stream_usage_is_last_report(frames: Seq<JsonValue>)
    ensures
        match frames_usage(frames) {
            Some(u) => exists|i: int|
                0 <= i < frames.len() && #[trigger] value_usage(frames[i]) == Some(u) && forall|j: int|
                    i < j < frames.len() ==> (#[trigger] value_usage(frames[j])) is None,
            None => forall|j: int| 0 <= j < frames.len() ==> (#[trigger] value_usage(frames[j])) is None,
        },
    decreases frames.len(),
{
    if frames.len() > 0 {
        let init = frames.drop_last();
        lemma_stream_usage_is_last_report(init);
        assert forall|j: int| 0 <= j < init.len() implies #[trigger] init[j] == frames[j] by {}
        let last = frames.len() - 1;
        match value_usage(frames.last()) {
            Some(u) => {
                assert(value_usage(frames[last]) == Some(u));
            },
            None => {
                match frames_usage(init) {
                    Some(u) => {
                        let i = choose|i: int|
                            0 <= i < init.len() && #[trigger] value_usage(init[i]) == Some(u) && forall|j: int|
                                i < j < init.len() ==> (#[trigger] value_usage(init[j])) is None;
                        assert(value_usage(frames[i]) == Some(u));
                        assert forall|j: int| i < j < frames.len() implies (#[trigger] value_usage(frames[j])) is None by {
                            if j < init.len() {
                                assert(value_usage(init[j]) is None);
                            }
                        }
                    },
                    None => {
                        assert forall|j: int| 0 <= j < frames.len() implies (#[trigger] value_usage(frames[j])) is None by {
                            if j < init.len() {
                                assert(value_usage(init[j]) is None);
                            }
                        }
                    },
                }
            },
        }
    }
}

/// Frames that come later decide: the usage of a stream followed by more
/// frames is that of the later frames when they carry a report, else that
/// of the earlier ones.
pub proof fn lemma_stream_usage_append(a: Seq<JsonValue>, b: Seq<JsonValue>)
    ensures
        frames_usage(a + b) == match frames_usage(b) {
            Some(u) => Some(u),
            None => frames_usage(a),
        },
    decreases b.len(),
{
    if b.len() == 0 {
        assert(a + b =~= a);
    } else {
        assert((a + b).drop_last() =~= a + b.drop_last());
        assert((a + b).last() == b.last());
        lemma_stream_usage_append(a, b.drop_last());
    }
}

/// The usage report of a streamed answer: that of its last frame that has
/// one.
pub fn usage_from_sse(frames: &Vec<JsonValue>) -> (r: Option<UsageCounts>)
    requires
        forall|i: int| 0 <= i < frames@.len() ==> value_sum_fits(#[trigger] frames@[i]),
    ensures
        opt_usage_view(r) == frames_usage(frames@),
{
    let mut last: Option<UsageCounts> = None;
    let mut i: usize = 0;
    while i < frames.len()
        invariant
            i <= frames@.len(),
            forall|j: int| 0 <= j < frames@.len() ==> value_sum_fits(#[trigger] frames@[j]),
            opt_usage_view(last) == frames_usage(frames@.take(i as int)),
        decreases frames@.len() - i,
    {
        assert(frames@.take(i + 1).drop_last() =~= frames@.take(i as int));
        assert(frames@.take(i + 1).last() == frames@[i as int]);
        let u = usage_from_value(&frames[i]);
        if u.is_some() {
            last = u;
        }
        i += 1;
    }
    assert(frames@.take(i as int) =~= frames@);
    last
}

// ------------------------------------------------------------------
// Finding the usage report anywhere in an answer
// ------------------------------------------------------------------

/// What the search for a usage report comes to: a report, none, a sum of
/// counts too large for a `u64`, or a string whose report must be read
/// first (its text is JSON, or lines of JSON, that the caller parses).
pub enum UsageStep {
    Done(Option<UsageCounts>),
    Overflow,
    ReadString(String),
}

pub enum WalkView {
    Found(UsageView),
    Missing,
    Overflow,
    Ask(Seq<char>),
}

pub open spec fn step_view(r: UsageStep) -> WalkView {
    match r {
        UsageStep::Done(Some(u)) => WalkView::Found(usage_view(u)),
        UsageStep::Done(None) => WalkView::Missing,
        UsageStep::Overflow => WalkView::Overflow,
        UsageStep::ReadString(s) => WalkView::Ask(s@),
    }
}

pub type KnownView = Seq<(Seq<char>, Option<UsageView>)>;

pub open spec fn known_view(known: Seq<(String, Option<UsageCounts>)>) -> KnownView {
    known.map_values(|e: (String, Option<UsageCounts>)| (e.0@, opt_usage_view(e.1)))
}

/// What the caller has read of a string, the first time it told it.
pub open spec fn lookup(known: KnownView, s: Seq<char>) -> Option<Option<UsageView>>
    decreases known.len(),
{
    if known.len() == 0 {
        None
    } else if known[0].0 == s {
        Some(known[0].1)
    } else {
        lookup(known.drop_first(), s)
    }
}

/// The report of an object that holds the counts itself, as a step.
pub open spec fn map_step(v: JsonValue) -> WalkView {
    if !map_sum_fits(v) {
        WalkView::Overflow
    } else {
        match map_usage(v) {
            Some(u) => WalkView::Found(u),
            None => WalkView::Missing,
        }
    }
}

/// The search for a usage report, depth first: a string by what the
/// caller read of it (a blank one has none); an array item by item; an
/// object by its `usage` member (counted in place when an object, searched
/// otherwise), then by its own counts, then member by member.
pub open spec fn usage_walk(v: JsonValue, known: KnownView) -> WalkView
    decreases v,
{
    match v {
        JsonValue::String(s) => if trim_seq(s@).len() == 0 {
            WalkView::Missing
        } else {
            match lookup(known, s@) {
                Some(Some(u)) => WalkView::Found(u),
                Some(None) => WalkView::Missing,
                None => WalkView::Ask(s@),
            }
        },
        JsonValue::Array(items) => items_walk(items@, known),
        JsonValue::Object(pairs) => {
            let from_usage = match key_index(pairs@, "usage"@) {
                Some(i) => if 0 <= i < pairs@.len() {
                    match pairs@[i].1 {
                        JsonValue::Object(_) => map_step(pairs@[i].1),
                        _ => usage_walk(pairs@[i].1, known),
                    }
                } else {
                    WalkView::Missing
                },
                None => WalkView::Missing,
            };
            if !(from_usage is Missing) {
                from_usage
            } else if !(map_step(v) is Missing) {
                map_step(v)
            } else {
                values_walk(pairs@, known)
            }
        },
        _ => WalkView::Missing,
    }
}

pub open spec fn items_walk(items: Seq<JsonValue>, known: KnownView) -> WalkView
    decreases items,
{
    if items.len() == 0 {
        WalkView::Missing
    } else if usage_walk(items[0], known) is Missing {
        items_walk(items.drop_first(), known)
    } else {
        usage_walk(items[0], known)
    }
}

pub open spec fn values_walk(pairs: Seq<(String, JsonValue)>, known: KnownView) -> WalkView
    decreases pairs,
{
    if pairs.len() == 0 {
        WalkView::Missing
    } else if usage_walk(pairs[0].1, known) is Missing {
        values_walk(pairs.drop_first(), known)
    } else {
        usage_walk(pairs[0].1, known)
    }
}

fn lookup_exec<'a>(known: &'a Vec<(String, Option<UsageCounts>)>, s: &str) -> (r: Option<
    &'a Option<UsageCounts>,
>)
    ensures
        match r {
            Some(u) => lookup(known_view(known@), s@) == Some(opt_usage_view(*u)),
            None => lookup(known_view(known@), s@) is None,
        },
{
    let ghost all = known_view(known@);
    let mut i: usize = 0;
    assert(all.skip(0) =~= all);
    while i < known.len()
        invariant
            i <= known@.len(),
            all == known_view(known@),
            lookup(all, s@) == lookup(all.skip(i as int), s@),
        decreases known@.len() - i,
    {
        assert(all.skip(i as int).drop_first() =~= all.skip(i + 1));
        assert(all.skip(i as int)[0] == (known@[i as int].0@, opt_usage_view(known@[i as int].1)));
        if str_eq(known[i].0.as_str(), s) {
            return Some(&known[i].1);
        }
        i += 1;
    }
    None
}

fn copy_usage(u: &Option<UsageCounts>) -> (r: Option<UsageCounts>)
    ensures
        opt_usage_view(r) == opt_usage_view(*u),
{
    match u {
        Some(x) => Some(
            UsageCounts {
                prompt_tokens: x.prompt_tokens,
                completion_tokens: x.completion_tokens,
                total_tokens: x.total_tokens,
                reasoning_tokens: x.reasoning_tokens,
                image_tokens: x.image_tokens,
                first_token_ms: x.first_token_ms,
                finish_reason: match &x.finish_reason {
                    Some(f) => Some(f.clone()),
                    None => None,
                },
            },
        ),
        None => None,
    }
}

fn map_step_exec(v: &JsonValue) -> (r: UsageStep)
    ensures
        step_view(r) == map_step(*v),
{
    if !map_usage_fits(v) {
        UsageStep::Overflow
    } else {
        UsageStep::Done(usage_from_map(v))
    }
}

/// One search for the usage report of an answer (see `usage_walk`), with
/// `known` holding what the caller has read of strings so far.
pub fn extract_usage(data: &JsonValue, known: &Vec<(String, Option<UsageCounts>)>) -> (r: UsageStep)
    ensures
        step_view(r) == usage_walk(*data, known_view(known@)),
    decreases data,
{
    let ghost kv = known_view(known@);
    match data {
        JsonValue::String(s) => {
            if is_blank(s.as_str()) {
                return UsageStep::Done(None);
            }
            match lookup_exec(known, s.as_str()) {
                Some(u) => UsageStep::Done(copy_usage(u)),
                None => UsageStep::ReadString(s.clone()),
            }
        },
        JsonValue::Array(items) => {
            let mut i: usize = 0;
            assert(items@.skip(0) =~= items@);
            while i < items.len()
                invariant
                    i <= items@.len(),
                    *data == JsonValue::Array(*items),
                    kv == known_view(known@),
                    usage_walk(*data, kv) == items_walk(items@.skip(i as int), kv),
                decreases items@.len() - i,
            {
                assert(items@.skip(i as int).drop_first() =~= items@.skip(i + 1));
                assert(items@.skip(i as int)[0] == items@[i as int]);
                proof {
                    assert(decreases_to!(*data => (*data)->Array_0));
                    assert(decreases_to!(*items => items@));
                    assert(decreases_to!(items@ => items@[i as int]));
                }
                let step = extract_usage(&items[i], known);
                match step {
                    UsageStep::Done(None) => {},
                    _ => {
                        return step;
                    },
                }
                i += 1;
            }
            UsageStep::Done(None)
        },
        JsonValue::Object(pairs) => {
            proof {
                lemma_key_index(pairs@, "usage"@);
            }
            match key_index_exec(pairs, "usage") {
                Some(i) => {
                    let u = &pairs[i].1;
                    let step = match u {
                        JsonValue::Object(_) => map_step_exec(u),
                        _ => {
                            proof {
                                assert(decreases_to!(*data => (*data)->Object_0));
                                assert(decreases_to!(*pairs => pairs@));
                                assert(decreases_to!(pairs@ => pairs@[i as int]));
                                assert(decreases_to!(pairs@[i as int] => pairs@[i as int].1));
                            }
                            extract_usage(u, known)
                        },
                    };
                    match step {
                        UsageStep::Done(None) => {},
                        _ => {
                            return step;
                        },
                    }
                },
                None => {},
            }
            let own = map_step_exec(data);
            match own {
                UsageStep::Done(None) => {},
                _ => {
                    return own;
                },
            }
            let mut i: usize = 0;
            assert(pairs@.skip(0) =~= pairs@);
            while i < pairs.len()
                invariant
                    i <= pairs@.len(),
                    *data == JsonValue::Object(*pairs),
                    kv == known_view(known@),
                    usage_walk(*data, kv) == values_walk(pairs@.skip(i as int), kv),
                decreases pairs@.len() - i,
            {
                assert(pairs@.skip(i as int).drop_first() =~= pairs@.skip(i + 1));
                assert(pairs@.skip(i as int)[0] == pairs@[i as int]);
                proof {
                    assert(decreases_to!(*data => (*data)->Object_0));
                    assert(decreases_to!(*pairs => pairs@));
                    assert(decreases_to!(pairs@ => pairs@[i as int]));
                    assert(decreases_to!(pairs@[i as int] => pairs@[i as int].1));
                }
                let step = extract_usage(&pairs[i].1, known);
                match step {
                    UsageStep::Done(None) => {},
                    _ => {
                        return step;
                    },
                }
                i += 1;
            }
            UsageStep::Done(None)
        },
        _ => UsageStep::Done(None),
    }
}

/// The search asks only for strings that the caller has not told yet, and
/// never for a blank one: each answer the caller gives lets it go further.
pub proof fn lemma_walk_asks_unknown(v: JsonValue, known: KnownView)
    ensures
        usage_walk(v, known) matches WalkView::Ask(s) ==> lookup(known, s) is None && trim_seq(
            s,
        ).len() > 0,
    decreases v,
{
    match v {
        JsonValue::Array(items) => {
            lemma_items_walk_asks_unknown(items@, known);
        },
        JsonValue::Object(pairs) => {
            lemma_key_index(pairs@, "usage"@);
            match key_index(pairs@, "usage"@) {
                Some(i) => {
                    assert(decreases_to!(v => pairs));
                    assert(decreases_to!(pairs => pairs@));
                    assert(decreases_to!(pairs@ => pairs@[i]));
                    assert(decreases_to!(pairs@[i] => pairs@[i].1));
                    lemma_walk_asks_unknown(pairs@[i].1, known);
                },
                None => {},
            }
            lemma_values_walk_asks_unknown(pairs@, known);
        },
        _ => {},
    }
}

proof fn lemma_items_walk_asks_unknown(items: Seq<JsonValue>, known: KnownView)
    ensures
        items_walk(items, known) matches WalkView::Ask(s) ==> lookup(known, s) is None
            && trim_seq(s).len() > 0,
    decreases items,
{
    if items.len() > 0 {
        lemma_walk_asks_unknown(items[0], known);
        lemma_items_walk_asks_unknown(items.drop_first(), known);
    }
}

proof fn lemma_values_walk_asks_unknown(pairs: Seq<(String, JsonValue)>, known: KnownView)
    ensures
        values_walk(pairs, known) matches WalkView::Ask(s) ==> lookup(known, s) is None
            && trim_seq(s).len() > 0,
    decreases pairs,
{
    if pairs.len() > 0 {
        lemma_walk_asks_unknown(pairs[0].1, known);
        lemma_values_walk_asks_unknown(pairs.drop_first(), known);
    }
}

} // verus!
