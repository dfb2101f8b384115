//! Shortening and masking of values before they are written to logs.
use vstd::prelude::*;

use crate::text::{contains, has_sub, lower_seq, min_nat, take_chars, to_ascii_lowercase, to_string};

verus! {

/// `text` itself when its UTF-8 encoding (`str::len`) has at most `max` bytes; otherwise
/// its first `max` characters followed by an ellipsis.
pub open spec fn truncated_for_log(text: &str, max: nat) -> Seq<char> {
    if text.len() <= max {
        text@
    } else {
        text@.take(min_nat(max, text@.len()) as int) + "…"@
    }
}

pub fn truncate_for_log(text: &str, max: usize) -> (r: String)
    ensures
        r@ == truncated_for_log(text, max as nat),
{
    if text.len() <= max {
        to_string(text)
    } else {
        let mut truncated = take_chars(text, max);
        truncated.append("…");
        truncated
    }
}

/// Header names whose values are secrets.
pub open spec fn is_secret_header(key: Seq<char>) -> bool {
    let lowered = lower_seq(key);
    has_sub(lowered, "authorization"@) || has_sub(lowered, "api-key"@) || has_sub(
        lowered,
        "apikey"@,
    ) || has_sub(lowered, "secret"@) || has_sub(lowered, "token"@) || has_sub(lowered, "cookie"@)
}

/// A header value as it may appear in a log: masked for secret headers,
/// otherwise shortened to 64 bytes.
pub fn sanitize_header_value(key: &str, value: &str) -> (r: String)
    ensures
        r@ == if is_secret_header(key@) {
            "***"@
        } else {
            truncated_for_log(value, 64)
        },
{
    let lowered = to_ascii_lowercase(key);
    let l = lowered.as_str();
    if contains(l, "authorization") || contains(l, "api-key") || contains(l, "apikey") || contains(
        l,
        "secret",
    ) || contains(l, "token") || contains(l, "cookie") {
        to_string("***")
    } else {
        truncate_for_log(value, 64)
    }
}

} // verus!
