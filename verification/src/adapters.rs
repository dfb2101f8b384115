//! Endpoints, roles and request headers of the chat and image providers.
//!
//! Headers are kept as a list of name/value pairs read left to right: a later
//! pair overrides an earlier one of the same name, as inserting them one by
//! one into a map would.
use vstd::prelude::*;

use crate::json::{
    as_array, as_str, as_u64, get, json_array, json_get, json_str, json_u64, opt_get, opt_get_exec,
    JsonValue,
};
use crate::request::opt_view;
use crate::text::{
    ends_with, has_suffix, is_blank, replace, replace_seq, str_eq, to_string, trim,
    trim_end_matches, trim_end_pat, trim_seq,
};

verus! {

pub type HeaderPairs = Seq<(Seq<char>, Seq<char>)>;

pub open spec fn header_pairs(v: Seq<(String, String)>) -> HeaderPairs {
    v.map_values(|p: (String, String)| (p.0@, p.1@))
}

pub open spec fn extra_pairs(extra: Option<Vec<(String, String)>>) -> HeaderPairs {
    match extra {
        Some(v) => header_pairs(v@),
        None => seq![],
    }
}

/// The value a header ends up with: that of its last pair.
pub open spec fn header_value(h: HeaderPairs, name: Seq<char>) -> Option<Seq<char>>
    decreases h.len(),
{
    if h.len() == 0 {
        None
    } else if h.last().0 == name {
        Some(h.last().1)
    } else {
        header_value(h.drop_last(), name)
    }
}

/// A header given among the extra ones wins over a default of the same name;
/// any other default stays.
pub proof fn lemma_extra_headers_override(defaults: HeaderPairs, extra: HeaderPairs, name: Seq<char>)
    ensures
        header_value(defaults + extra, name) == match header_value(extra, name) {
            Some(v) => Some(v),
            None => header_value(defaults, name),
        },
    decreases extra.len(),
{
    if extra.len() == 0 {
        assert(defaults + extra =~= defaults);
    } else {
        assert((defaults + extra).drop_last() =~= defaults + extra.drop_last());
        lemma_extra_headers_override(defaults, extra.drop_last(), name);
    }
}

pub(crate) fn pair(k: &str, v: &str) -> (r: (String, String))
    ensures
        r.0@ == k@,
        r.1@ == v@,
{
    (to_string(k), to_string(v))
}

fn bearer(api_key: &str) -> (r: String)
    ensures
        r@ == "Bearer "@ + api_key@,
{
    let mut s = to_string("Bearer ");
    s.append(api_key);
    s
}

/// `out` followed by the extra headers.
pub(crate) fn with_extra(out: Vec<(String, String)>, extra: &Option<Vec<(String, String)>>) -> (r: Vec<
    (String, String),
>)
    ensures
        header_pairs(r@) == header_pairs(out@) + extra_pairs(*extra),
{
    let mut out = out;
    match extra {
        Some(ex) => {
            let ghost start = header_pairs(out@);
            let mut i: usize = 0;
            while i < ex.len()
                invariant
                    i <= ex@.len(),
                    header_pairs(out@) == start + header_pairs(ex@).take(i as int),
                decreases ex@.len() - i,
            {
                let kc = ex[i].0.clone();
                let vc = ex[i].1.clone();
                assert(kc@ == ex@[i as int].0@ && vc@ == ex@[i as int].1@);
                let ghost before = header_pairs(out@);
                out.push((kc, vc));
                assert(header_pairs(out@) =~= before.push(header_pairs(ex@)[i as int]));
                assert(header_pairs(ex@).take(i + 1) =~= header_pairs(ex@).take(i as int).push(
                    header_pairs(ex@)[i as int],
                ));
                i += 1;
                assert(header_pairs(out@) =~= start + header_pairs(ex@).take(i as int));
            }
            assert(header_pairs(ex@).take(ex@.len() as int) =~= header_pairs(ex@));
        },
        None => {
            assert(header_pairs(out@) + extra_pairs(*extra) =~= header_pairs(out@));
        },
    }
    out
}

pub open spec fn names_view(v: Seq<&'static str>) -> Seq<Seq<char>> {
    v.map_values(|s: &'static str| s@)
}

/// The user agent every chat request carries unless an extra header sets one.
pub open spec fn user_agent() -> (Seq<char>, Seq<char>) {
    ("User-Agent"@, "LettuceAI/0.1"@)
}

// ------------------------------------------------------------------
// Endpoint paths
// ------------------------------------------------------------------

/// `path` under the `/v1` prefix, which is added unless `t` already ends in it.
pub open spec fn under_v1(t: Seq<char>, path: Seq<char>) -> Seq<char> {
    if has_suffix(t, "/v1"@) {
        t + path
    } else {
        t + "/v1"@ + path
    }
}

/// The base URL without trailing slashes, then `path` under `/v1`.
pub open spec fn versioned(base: Seq<char>, path: Seq<char>) -> Seq<char> {
    under_v1(trim_end_pat(base, "/"@), path)
}

fn under_v1_exec(t: String, path: &str) -> (r: String)
    ensures
        r@ == under_v1(t@, path@),
{
    let mut t = t;
    if !ends_with(t.as_str(), "/v1") {
        t.append("/v1");
    }
    t.append(path);
    t
}

fn versioned_endpoint(base_url: &str, path: &str) -> (r: String)
    ensures
        r@ == versioned(base_url@, path@),
{
    let t = trim_end_matches(base_url, "/");
    under_v1_exec(t, path)
}

fn slash_trimmed_plus(base_url: &str, path: &str) -> (r: String)
    ensures
        r@ == trim_end_pat(base_url@, "/"@) + path@,
{
    let mut t = trim_end_matches(base_url, "/");
    t.append(path);
    t
}

// ------------------------------------------------------------------
// Chat providers
// ------------------------------------------------------------------

/// The headers an OpenAI-style provider sends: bearer token, JSON body,
/// `accept`, the user agent, then the extra headers.
pub open spec fn bearer_headers(api_key: Seq<char>, accept: Seq<char>, extra: HeaderPairs) -> HeaderPairs {
    seq![
        ("Authorization"@, "Bearer "@ + api_key),
        ("Content-Type"@, "application/json"@),
        ("Accept"@, accept),
        user_agent(),
    ] + extra
}

fn bearer_headers_exec(api_key: &str, accept: &str, extra: &Option<Vec<(String, String)>>) -> (r:
    Vec<(String, String)>)
    ensures
        header_pairs(r@) == bearer_headers(api_key@, accept@, extra_pairs(*extra)),
{
    let mut out: Vec<(String, String)> = Vec::new();
    out.push((to_string("Authorization"), bearer(api_key)));
    out.push(pair("Content-Type", "application/json"));
    out.push(pair("Accept", accept));
    out.push(pair("User-Agent", "LettuceAI/0.1"));
    let r = with_extra(out, extra);
    assert(header_pairs(r@) =~= bearer_headers(api_key@, accept@, extra_pairs(*extra)));
    r
}

/// A template of the bearer headers with the key left out.
pub open spec fn bearer_template(accept: Option<Seq<char>>) -> HeaderPairs {
    seq![("Authorization"@, "Bearer <apiKey>"@), ("Content-Type"@, "application/json"@)] + match accept {
        Some(a) => seq![("Accept"@, a)],
        None => seq![],
    }
}

fn bearer_template_exec(accept: Option<&str>) -> (r: Vec<(String, String)>)
    ensures
        header_pairs(r@) == bearer_template(
            match accept {
                Some(a) => Some(a@),
                None => None,
            },
        ),
{
    let mut out: Vec<(String, String)> = Vec::new();
    out.push(pair("Authorization", "Bearer <apiKey>"));
    out.push(pair("Content-Type", "application/json"));
    match accept {
        Some(a) => out.push(pair("Accept", a)),
        None => {},
    }
    assert(header_pairs(out@) =~= bearer_template(
        match accept {
            Some(a) => Some(a@),
            None => None,
        },
    ));
    out
}

/// Anthropic's messages API.
pub struct AnthropicAdapter;

impl AnthropicAdapter {
    pub fn endpoint(&self, base_url: &str) -> (r: String)
        ensures
            r@ == versioned(base_url@, "/messages"@),
    {
        versioned_endpoint(base_url, "/messages")
    }

    pub fn system_role(&self) -> (r: &'static str)
        ensures
            r@ == "system"@,
    {
        "system"
    }

    pub fn supports_stream(&self) -> (r: bool)
        ensures
            r,
    {
        true
    }

    pub fn required_auth_headers(&self) -> (r: Vec<&'static str>)
        ensures
            names_view(r@) == seq!["x-api-key"@, "X-API-Key"@],
    {
        let r = vec!["x-api-key", "X-API-Key"];
        assert(names_view(r@) =~= seq!["x-api-key"@, "X-API-Key"@]);
        r
    }

    pub fn default_headers_template(&self) -> (r: Vec<(String, String)>)
        ensures
            header_pairs(r@) == seq![
                ("x-api-key"@, "<apiKey>"@),
                ("Content-Type"@, "application/json"@),
                ("Accept"@, "text/event-stream"@),
            ],
    {
        let r = vec![
            pair("x-api-key", "<apiKey>"),
            pair("Content-Type", "application/json"),
            pair("Accept", "text/event-stream"),
        ];
        assert(header_pairs(r@) =~= seq![
            ("x-api-key"@, "<apiKey>"@),
            ("Content-Type"@, "application/json"@),
            ("Accept"@, "text/event-stream"@),
        ]);
        r
    }

    /// The key, JSON and streaming headers, the API version and the user
    /// agent, then the extra headers.
    pub fn headers(&self, api_key: &str, extra: &Option<Vec<(String, String)>>) -> (r: Vec<
        (String, String),
    >)
        ensures
            header_pairs(r@) == seq![
                ("x-api-key"@, api_key@),
                ("Content-Type"@, "application/json"@),
                ("Accept"@, "text/event-stream"@),
                ("anthropic-version"@, "2023-06-01"@),
                user_agent(),
            ] + extra_pairs(*extra),
    {
        let out = vec![
            pair("x-api-key", api_key),
            pair("Content-Type", "application/json"),
            pair("Accept", "text/event-stream"),
            pair("anthropic-version", "2023-06-01"),
            pair("User-Agent", "LettuceAI/0.1"),
        ];
        let r = with_extra(out, extra);
        assert(header_pairs(r@) =~= seq![
            ("x-api-key"@, api_key@),
            ("Content-Type"@, "application/json"@),
            ("Accept"@, "text/event-stream"@),
            ("anthropic-version"@, "2023-06-01"@),
            user_agent(),
        ] + extra_pairs(*extra));
        r
    }

    pub fn list_models_endpoint(&self, base_url: &str) -> (r: String)
        ensures
            r@ == versioned(base_url@, "/models"@),
    {
        versioned_endpoint(base_url, "/models")
    }
}

/// DeepSeek's OpenAI-compatible API.
pub struct DeepSeekAdapter;

impl DeepSeekAdapter {
    pub fn endpoint(&self, base_url: &str) -> (r: String)
        ensures
            r@ == versioned(base_url@, "/chat/completions"@),
    {
        versioned_endpoint(base_url, "/chat/completions")
    }

    pub fn system_role(&self) -> (r: &'static str)
        ensures
            r@ == "system"@,
    {
        "system"
    }

    pub fn supports_stream(&self) -> (r: bool)
        ensures
            r,
    {
        true
    }

    pub fn required_auth_headers(&self) -> (r: Vec<&'static str>)
        ensures
            names_view(r@) == seq!["Authorization"@],
    {
        let r = vec!["Authorization"];
        assert(names_view(r@) =~= seq!["Authorization"@]);
        r
    }

    pub fn default_headers_template(&self) -> (r: Vec<(String, String)>)
        ensures
            header_pairs(r@) == bearer_template(Some("text/event-stream"@)),
    {
        bearer_template_exec(Some("text/event-stream"))
    }

    pub fn headers(&self, api_key: &str, extra: &Option<Vec<(String, String)>>) -> (r: Vec<
        (String, String),
    >)
        ensures
            header_pairs(r@) == bearer_headers(api_key@, "text/event-stream"@, extra_pairs(*extra)),
    {
        bearer_headers_exec(api_key, "text/event-stream", extra)
    }

    pub fn list_models_endpoint(&self, base_url: &str) -> (r: String)
        ensures
            r@ == versioned(base_url@, "/models"@),
    {
        versioned_endpoint(base_url, "/models")
    }
}

/// Mistral's API.
pub struct MistralAdapter;

impl MistralAdapter {
    pub fn endpoint(&self, base_url: &str) -> (r: String)
        ensures
            r@ == versioned(base_url@, "/chat/completions"@),
    {
        versioned_endpoint(base_url, "/chat/completions")
    }

    pub fn system_role(&self) -> (r: &'static str)
        ensures
            r@ == "system"@,
    {
        "system"
    }

    pub fn supports_stream(&self) -> (r: bool)
        ensures
            r,
    {
        true
    }

    pub fn required_auth_headers(&self) -> (r: Vec<&'static str>)
        ensures
            names_view(r@) == seq!["X-API-KEY"@, "x-api-key"@],
    {
        let r = vec!["X-API-KEY", "x-api-key"];
        assert(names_view(r@) =~= seq!["X-API-KEY"@, "x-api-key"@]);
        r
    }

    pub fn default_headers_template(&self) -> (r: Vec<(String, String)>)
        ensures
            header_pairs(r@) == seq![
                ("X-API-KEY"@, "<apiKey>"@),
                ("Content-Type"@, "application/json"@),
                ("Accept"@, "text/event-stream"@),
            ],
    {
        let r = vec![
            pair("X-API-KEY", "<apiKey>"),
            pair("Content-Type", "application/json"),
            pair("Accept", "text/event-stream"),
        ];
        assert(header_pairs(r@) =~= seq![
            ("X-API-KEY"@, "<apiKey>"@),
            ("Content-Type"@, "application/json"@),
            ("Accept"@, "text/event-stream"@),
        ]);
        r
    }

    pub fn headers(&self, api_key: &str, extra: &Option<Vec<(String, String)>>) -> (r: Vec<
        (String, String),
    >)
        ensures
            header_pairs(r@) == seq![
                ("X-API-KEY"@, api_key@),
                ("Content-Type"@, "application/json"@),
                ("Accept"@, "text/event-stream"@),
                user_agent(),
            ] + extra_pairs(*extra),
    {
        let out = vec![
            pair("X-API-KEY", api_key),
            pair("Content-Type", "application/json"),
            pair("Accept", "text/event-stream"),
            pair("User-Agent", "LettuceAI/0.1"),
        ];
        let r = with_extra(out, extra);
        assert(header_pairs(r@) =~= seq![
            ("X-API-KEY"@, api_key@),
            ("Content-Type"@, "application/json"@),
            ("Accept"@, "text/event-stream"@),
            user_agent(),
        ] + extra_pairs(*extra));
        r
    }

    pub fn list_models_endpoint(&self, base_url: &str) -> (r: String)
        ensures
            r@ == versioned(base_url@, "/models"@),
    {
        versioned_endpoint(base_url, "/models")
    }
}

/// The base URL without trailing slashes and, when it ends in `/v1`,
/// without that suffix either.
pub open spec fn ollama_root(base: Seq<char>) -> Seq<char> {
    let t = trim_end_pat(base, "/"@);
    if has_suffix(t, "/v1"@) {
        trim_end_pat(t, "/v1"@)
    } else {
        t
    }
}

/// A local Ollama server.
pub struct OllamaAdapter;

impl OllamaAdapter {
    pub fn endpoint(&self, base_url: &str) -> (r: String)
        ensures
            r@ == ollama_root(base_url@) + "/api/chat"@,
    {
        let t = trim_end_matches(base_url, "/");
        let mut root = if ends_with(t.as_str(), "/v1") {
            trim_end_matches(t.as_str(), "/v1")
        } else {
            t
        };
        root.append("/api/chat");
        root
    }

    pub fn system_role(&self) -> (r: &'static str)
        ensures
            r@ == "system"@,
    {
        "system"
    }

    pub fn supports_stream(&self) -> (r: bool)
        ensures
            r,
    {
        true
    }

    pub fn required_auth_headers(&self) -> (r: Vec<&'static str>)
        ensures
            names_view(r@) == seq!["Authorization"@],
    {
        let r = vec!["Authorization"];
        assert(names_view(r@) =~= seq!["Authorization"@]);
        r
    }

    pub fn default_headers_template(&self) -> (r: Vec<(String, String)>)
        ensures
            header_pairs(r@) == bearer_template(Some("application/json"@)),
    {
        bearer_template_exec(Some("application/json"))
    }

    pub fn headers(&self, api_key: &str, extra: &Option<Vec<(String, String)>>) -> (r: Vec<
        (String, String),
    >)
        ensures
            header_pairs(r@) == bearer_headers(api_key@, "application/json"@, extra_pairs(*extra)),
    {
        bearer_headers_exec(api_key, "application/json", extra)
    }

    /// The tags listing: the root with slashes, and a `/v1` suffix with the
    /// slashes before it, removed.
    pub fn list_models_endpoint(&self, base_url: &str) -> (r: String)
        ensures
            r@ == (if has_suffix(trim_end_pat(base_url@, "/"@), "/v1"@) {
                trim_end_pat(trim_end_pat(trim_end_pat(base_url@, "/"@), "/v1"@), "/"@)
            } else {
                trim_end_pat(base_url@, "/"@)
            }) + "/api/tags"@,
    {
        let t = trim_end_matches(base_url, "/");
        let mut base = if ends_with(t.as_str(), "/v1") {
            let u = trim_end_matches(t.as_str(), "/v1");
            trim_end_matches(u.as_str(), "/")
        } else {
            t
        };
        base.append("/api/tags");
        base
    }
}

/// Z.AI's API.
pub struct ZAIAdapter;

impl ZAIAdapter {
    pub fn endpoint(&self, base_url: &str) -> (r: String)
        ensures
            r@ == versioned(base_url@, "/llm"@),
    {
        versioned_endpoint(base_url, "/llm")
    }

    pub fn system_role(&self) -> (r: &'static str)
        ensures
            r@ == "system"@,
    {
        "system"
    }

    pub fn supports_stream(&self) -> (r: bool)
        ensures
            r,
    {
        true
    }

    pub fn required_auth_headers(&self) -> (r: Vec<&'static str>)
        ensures
            names_view(r@) == seq!["Authorization"@],
    {
        let r = vec!["Authorization"];
        assert(names_view(r@) =~= seq!["Authorization"@]);
        r
    }

    pub fn default_headers_template(&self) -> (r: Vec<(String, String)>)
        ensures
            header_pairs(r@) == bearer_template(None),
    {
        bearer_template_exec(None)
    }

    /// Bearer token and JSON body, then the extra headers.
    pub fn headers(&self, api_key: &str, extra: &Option<Vec<(String, String)>>) -> (r: Vec<
        (String, String),
    >)
        ensures
            header_pairs(r@) == seq![
                ("Authorization"@, "Bearer "@ + api_key@),
                ("Content-Type"@, "application/json"@),
            ] + extra_pairs(*extra),
    {
        json_bearer_headers(api_key, extra)
    }

    pub fn list_models_endpoint(&self, base_url: &str) -> (r: String)
        ensures
            r@ == versioned(base_url@, "/models"@),
    {
        versioned_endpoint(base_url, "/models")
    }
}

fn json_bearer_headers(api_key: &str, extra: &Option<Vec<(String, String)>>) -> (r: Vec<
    (String, String),
>)
    ensures
        header_pairs(r@) == seq![
            ("Authorization"@, "Bearer "@ + api_key@),
            ("Content-Type"@, "application/json"@),
        ] + extra_pairs(*extra),
{
    let mut out: Vec<(String, String)> = Vec::new();
    out.push((to_string("Authorization"), bearer(api_key)));
    out.push(pair("Content-Type", "application/json"));
    let r = with_extra(out, extra);
    assert(header_pairs(r@) =~= seq![
        ("Authorization"@, "Bearer "@ + api_key@),
        ("Content-Type"@, "application/json"@),
    ] + extra_pairs(*extra));
    r
}

/// The Lettuce engine, which answers a health check and does not stream.
pub struct LettuceEngineAdapter;

impl LettuceEngineAdapter {
    pub fn endpoint(&self, base_url: &str) -> (r: String)
        ensures
            r@ == trim_end_pat(base_url@, "/"@) + "/health"@,
    {
        slash_trimmed_plus(base_url, "/health")
    }

    pub fn system_role(&self) -> (r: &'static str)
        ensures
            r@ == "system"@,
    {
        "system"
    }

    pub fn supports_stream(&self) -> (r: bool)
        ensures
            !r,
    {
        false
    }

    pub fn required_auth_headers(&self) -> (r: Vec<&'static str>)
        ensures
            names_view(r@) == seq!["Authorization"@],
    {
        let r = vec!["Authorization"];
        assert(names_view(r@) =~= seq!["Authorization"@]);
        r
    }

    pub fn default_headers_template(&self) -> (r: Vec<(String, String)>)
        ensures
            header_pairs(r@) == bearer_template(None),
    {
        bearer_template_exec(None)
    }

    pub fn headers(&self, api_key: &str, extra: &Option<Vec<(String, String)>>) -> (r: Vec<
        (String, String),
    >)
        ensures
            header_pairs(r@) == seq![
                ("Authorization"@, "Bearer "@ + api_key@),
                ("Content-Type"@, "application/json"@),
            ] + extra_pairs(*extra),
    {
        json_bearer_headers(api_key, extra)
    }

    pub fn list_models_endpoint(&self, base_url: &str) -> (r: String)
        ensures
            r@ == versioned(base_url@, "/models"@),
    {
        versioned_endpoint(base_url, "/models")
    }
}

/// The Chutes host: the trimmed base URL with the old API host names
/// replaced, or the default host when none is configured.
pub open spec fn chutes_base(base: Seq<char>) -> Seq<char> {
    let t = trim_seq(base);
    if t.len() == 0 {
        "https://llm.chutes.ai"@
    } else {
        replace_seq(
            replace_seq(t, "://api.chutes.ai"@, "://llm.chutes.ai"@),
            "://www.api.chutes.ai"@,
            "://llm.chutes.ai"@,
        )
    }
}

pub fn normalize_chutes_base_url(base_url: &str) -> (r: String)
    ensures
        r@ == chutes_base(base_url@),
{
    if is_blank(base_url) {
        return to_string("https://llm.chutes.ai");
    }
    let t = trim(base_url);
    let once = replace(t.as_str(), "://api.chutes.ai", "://llm.chutes.ai");
    replace(once.as_str(), "://www.api.chutes.ai", "://llm.chutes.ai")
}

/// Chutes, an OpenAI-compatible host that shares DeepSeek's request shape.
pub struct ChutesAdapter;

impl ChutesAdapter {
    pub fn endpoint(&self, base_url: &str) -> (r: String)
        ensures
            r@ == versioned(chutes_base(base_url@), "/chat/completions"@),
    {
        let normalized = normalize_chutes_base_url(base_url);
        DeepSeekAdapter.endpoint(normalized.as_str())
    }

    pub fn system_role(&self) -> (r: &'static str)
        ensures
            r@ == "system"@,
    {
        "system"
    }

    pub fn supports_stream(&self) -> (r: bool)
        ensures
            r,
    {
        true
    }

    pub fn required_auth_headers(&self) -> (r: Vec<&'static str>)
        ensures
            names_view(r@) == seq!["Authorization"@],
    {
        let r = vec!["Authorization"];
        assert(names_view(r@) =~= seq!["Authorization"@]);
        r
    }

    pub fn default_headers_template(&self) -> (r: Vec<(String, String)>)
        ensures
            header_pairs(r@) == bearer_template(Some("text/event-stream"@)),
    {
        DeepSeekAdapter.default_headers_template()
    }

    pub fn headers(&self, api_key: &str, extra: &Option<Vec<(String, String)>>) -> (r: Vec<
        (String, String),
    >)
        ensures
            header_pairs(r@) == bearer_headers(api_key@, "text/event-stream"@, extra_pairs(*extra)),
    {
        DeepSeekAdapter.headers(api_key, extra)
    }

    pub fn list_models_endpoint(&self, base_url: &str) -> (r: String)
        ensures
            r@ == versioned(base_url@, "/models"@),
    {
        versioned_endpoint(base_url, "/models")
    }
}

// ------------------------------------------------------------------
// Image providers
// ------------------------------------------------------------------

pub open spec fn has_images(input_images: Option<Vec<String>>) -> bool {
    match input_images {
        Some(v) => v@.len() > 0,
        None => false,
    }
}

/// Edits when input images are given, generations otherwise.
pub open spec fn image_path(input_images: Option<Vec<String>>) -> Seq<char> {
    if has_images(input_images) {
        "/images/edits"@
    } else {
        "/images/generations"@
    }
}

fn image_path_exec(input_images: &Option<Vec<String>>) -> (r: &'static str)
    ensures
        r@ == image_path(*input_images),
{
    let edit = match input_images {
        Some(v) => v.len() > 0,
        None => false,
    };
    if edit {
        "/images/edits"
    } else {
        "/images/generations"
    }
}

/// OpenAI's image API.
pub struct OpenAIAdapter;

impl OpenAIAdapter {
    pub fn endpoint(&self, base_url: &str, input_images: &Option<Vec<String>>) -> (r: String)
        ensures
            r@ == versioned(base_url@, image_path(*input_images)),
    {
        versioned_endpoint(base_url, image_path_exec(input_images))
    }

    pub fn required_auth_headers(&self) -> (r: Vec<&'static str>)
        ensures
            names_view(r@) == seq!["Authorization"@],
    {
        let r = vec!["Authorization"];
        assert(names_view(r@) =~= seq!["Authorization"@]);
        r
    }

    pub fn headers(&self, api_key: &str, extra: &Option<Vec<(String, String)>>) -> (r: Vec<
        (String, String),
    >)
        ensures
            header_pairs(r@) == seq![
                ("Authorization"@, "Bearer "@ + api_key@),
                ("Content-Type"@, "application/json"@),
            ] + extra_pairs(*extra),
    {
        json_bearer_headers(api_key, extra)
    }
}

/// xAI's image API.
pub struct XAIAdapter;

impl XAIAdapter {
    pub fn endpoint(&self, base_url: &str, input_images: &Option<Vec<String>>) -> (r: String)
        ensures
            r@ == versioned(base_url@, image_path(*input_images)),
    {
        versioned_endpoint(base_url, image_path_exec(input_images))
    }

    pub fn required_auth_headers(&self) -> (r: Vec<&'static str>)
        ensures
            names_view(r@) == seq!["Authorization"@],
    {
        let r = vec!["Authorization"];
        assert(names_view(r@) =~= seq!["Authorization"@]);
        r
    }

    pub fn headers(&self, api_key: &str, extra: &Option<Vec<(String, String)>>) -> (r: Vec<
        (String, String),
    >)
        ensures
            header_pairs(r@) == seq![
                ("Authorization"@, "Bearer "@ + api_key@),
                ("Content-Type"@, "application/json"@),
            ] + extra_pairs(*extra),
    {
        json_bearer_headers(api_key, extra)
    }
}

/// The aspect ratio and resolution xAI uses for a requested size.
pub open spec fn xai_settings(size: Option<Seq<char>>) -> (Option<Seq<char>>, Option<Seq<char>>) {
    match size {
        Some(s) => if s == "1024x1024"@ {
            (Some("1:1"@), Some("1k"@))
        } else if s == "1536x1024"@ {
            (Some("3:2"@), Some("1k"@))
        } else if s == "1024x1536"@ {
            (Some("2:3"@), Some("1k"@))
        } else if s == "2048x2048"@ {
            (Some("1:1"@), Some("2k"@))
        } else if s == "2048x1024"@ {
            (Some("2:1"@), Some("2k"@))
        } else if s == "1024x2048"@ {
            (Some("1:2"@), Some("2k"@))
        } else {
            (None, None)
        },
        None => (None, None),
    }
}

pub open spec fn opt_str_view(o: Option<&'static str>) -> Option<Seq<char>> {
    match o {
        Some(s) => Some(s@),
        None => None,
    }
}

pub fn size_to_xai_settings(size: Option<&str>) -> (r: (Option<&'static str>, Option<&'static str>))
    ensures
        (opt_str_view(r.0), opt_str_view(r.1)) == xai_settings(
            match size {
                Some(s) => Some(s@),
                None => None,
            },
        ),
{
    match size {
        Some(s) => {
            if crate::text::str_eq(s, "1024x1024") {
                (Some("1:1"), Some("1k"))
            } else if crate::text::str_eq(s, "1536x1024") {
                (Some("3:2"), Some("1k"))
            } else if crate::text::str_eq(s, "1024x1536") {
                (Some("2:3"), Some("1k"))
            } else if crate::text::str_eq(s, "2048x2048") {
                (Some("1:1"), Some("2k"))
            } else if crate::text::str_eq(s, "2048x1024") {
                (Some("2:1"), Some("2k"))
            } else if crate::text::str_eq(s, "1024x2048") {
                (Some("1:2"), Some("2k"))
            } else {
                (None, None)
            }
        },
        None => (None, None),
    }
}

/// NanoGPT's base URL: trailing slashes, then trailing `/api`, removed.
pub open spec fn nanogpt_base(base: Seq<char>) -> Seq<char> {
    trim_end_pat(trim_end_pat(base, "/"@), "/api"@)
}

/// NanoGPT's image API.
pub struct NanoGPTAdapter;

impl NanoGPTAdapter {
    pub fn endpoint(&self, base_url: &str) -> (r: String)
        ensures
            r@ == under_v1(nanogpt_base(base_url@), "/images/generations"@),
    {
        let t = trim_end_matches(base_url, "/");
        let normalized = trim_end_matches(t.as_str(), "/api");
        under_v1_exec(normalized, "/images/generations")
    }

    pub fn required_auth_headers(&self) -> (r: Vec<&'static str>)
        ensures
            names_view(r@) == seq!["Authorization"@],
    {
        let r = vec!["Authorization"];
        assert(names_view(r@) =~= seq!["Authorization"@]);
        r
    }

    pub fn headers(&self, api_key: &str, extra: &Option<Vec<(String, String)>>) -> (r: Vec<
        (String, String),
    >)
        ensures
            header_pairs(r@) == seq![
                ("Authorization"@, "Bearer "@ + api_key@),
                ("Content-Type"@, "application/json"@),
            ] + extra_pairs(*extra),
    {
        json_bearer_headers(api_key, extra)
    }
}

/// OpenRouter, whose images come from its chat completions API.
pub struct OpenRouterAdapter;

impl OpenRouterAdapter {
    pub fn endpoint(&self, base_url: &str) -> (r: String)
        ensures
            r@ == trim_end_pat(base_url@, "/"@) + "/v1/chat/completions"@,
    {
        slash_trimmed_plus(base_url, "/v1/chat/completions")
    }

    pub fn required_auth_headers(&self) -> (r: Vec<&'static str>)
        ensures
            names_view(r@) == seq!["Authorization"@],
    {
        let r = vec!["Authorization"];
        assert(names_view(r@) =~= seq!["Authorization"@]);
        r
    }

    /// Bearer token, JSON body and the referer, then the extra headers.
    pub fn headers(&self, api_key: &str, extra: &Option<Vec<(String, String)>>) -> (r: Vec<
        (String, String),
    >)
        ensures
            header_pairs(r@) == seq![
                ("Authorization"@, "Bearer "@ + api_key@),
                ("Content-Type"@, "application/json"@),
                ("HTTP-Referer"@, "https://www.lettuceai.app/"@),
            ] + extra_pairs(*extra),
    {
        let mut out: Vec<(String, String)> = Vec::new();
        out.push((to_string("Authorization"), bearer(api_key)));
        out.push(pair("Content-Type", "application/json"));
        out.push(pair("HTTP-Referer", "https://www.lettuceai.app/"));
        let r = with_extra(out, extra);
        assert(header_pairs(r@) =~= seq![
            ("Authorization"@, "Bearer "@ + api_key@),
            ("Content-Type"@, "application/json"@),
            ("HTTP-Referer"@, "https://www.lettuceai.app/"@),
        ] + extra_pairs(*extra));
        r
    }
}

/// The file extension for an image type, PNG when unknown.
pub open spec fn extension_for_mime(m: Seq<char>) -> Seq<char> {
    if m == "image/png"@ {
        "png"@
    } else if m == "image/webp"@ {
        "webp"@
    } else if m == "image/jpeg"@ || m == "image/jpg"@ {
        "jpg"@
    } else {
        "png"@
    }
}

pub fn file_extension_for_mime(mime_type: &str) -> (r: &'static str)
    ensures
        r@ == extension_for_mime(mime_type@),
{
    if crate::text::str_eq(mime_type, "image/png") {
        "png"
    } else if crate::text::str_eq(mime_type, "image/webp") {
        "webp"
    } else if crate::text::str_eq(mime_type, "image/jpeg") || crate::text::str_eq(
        mime_type,
        "image/jpg",
    ) {
        "jpg"
    } else {
        "png"
    }
}

// ------------------------------------------------------------------
// Which adapter serves a provider
// ------------------------------------------------------------------

/// The adapters, one per way of talking to a provider.
#[derive(Clone, Copy, Debug, PartialEq, Eq, Structural)]
pub enum ProviderKind {
    Custom,
    CustomAnthropic,
    Ollama,
    IntenseRp,
    LlamaCpp,
    LmStudio,
    Chutes,
    Anthropic,
    Mistral,
    Groq,
    DeepSeek,
    NanoGpt,
    Xai,
    Anannas,
    GoogleGemini,
    Zai,
    Moonshot,
    Featherless,
    Nvidia,
    Qwen,
    OpenRouter,
    LettuceEngine,
    OpenAi,
}

/// The adapter of a provider id; unknown ids are served as OpenAI.
pub open spec fn provider_kind(id: Seq<char>) -> ProviderKind {
    if id == "custom"@ {
        ProviderKind::Custom
    } else if id == "custom-anthropic"@ {
        ProviderKind::CustomAnthropic
    } else if id == "ollama"@ {
        ProviderKind::Ollama
    } else if id == "intenserp"@ {
        ProviderKind::IntenseRp
    } else if id == "llamacpp"@ {
        ProviderKind::LlamaCpp
    } else if id == "lmstudio"@ {
        ProviderKind::LmStudio
    } else if id == "chutes"@ || id == "chutes.ai"@ {
        ProviderKind::Chutes
    } else if id == "anthropic"@ {
        ProviderKind::Anthropic
    } else if id == "mistral"@ {
        ProviderKind::Mistral
    } else if id == "groq"@ {
        ProviderKind::Groq
    } else if id == "deepseek"@ {
        ProviderKind::DeepSeek
    } else if id == "nanogpt"@ {
        ProviderKind::NanoGpt
    } else if id == "xai"@ {
        ProviderKind::Xai
    } else if id == "anannas"@ {
        ProviderKind::Anannas
    } else if id == "google"@ || id == "google-gemini"@ || id == "gemini"@ {
        ProviderKind::GoogleGemini
    } else if id == "zai"@ || id == "z.ai"@ {
        ProviderKind::Zai
    } else if id == "moonshot"@ || id == "moonshot-ai"@ {
        ProviderKind::Moonshot
    } else if id == "featherless"@ {
        ProviderKind::Featherless
    } else if id == "nvidia"@ || id == "nvidia-nim"@ {
        ProviderKind::Nvidia
    } else if id == "qwen"@ {
        ProviderKind::Qwen
    } else if id == "openrouter"@ {
        ProviderKind::OpenRouter
    } else if id == "lettuce-engine"@ {
        ProviderKind::LettuceEngine
    } else {
        ProviderKind::OpenAi
    }
}

pub fn adapter_for(provider_id: &str) -> (r: ProviderKind)
    ensures
        r == provider_kind(provider_id@),
{
    let id = provider_id;
    if str_eq(id, "custom") {
        ProviderKind::Custom
    } else if str_eq(id, "custom-anthropic") {
        ProviderKind::CustomAnthropic
    } else if str_eq(id, "ollama") {
        ProviderKind::Ollama
    } else if str_eq(id, "intenserp") {
        ProviderKind::IntenseRp
    } else if str_eq(id, "llamacpp") {
        ProviderKind::LlamaCpp
    } else if str_eq(id, "lmstudio") {
        ProviderKind::LmStudio
    } else if str_eq(id, "chutes") || str_eq(id, "chutes.ai") {
        ProviderKind::Chutes
    } else if str_eq(id, "anthropic") {
        ProviderKind::Anthropic
    } else if str_eq(id, "mistral") {
        ProviderKind::Mistral
    } else if str_eq(id, "groq") {
        ProviderKind::Groq
    } else if str_eq(id, "deepseek") {
        ProviderKind::DeepSeek
    } else if str_eq(id, "nanogpt") {
        ProviderKind::NanoGpt
    } else if str_eq(id, "xai") {
        ProviderKind::Xai
    } else if str_eq(id, "anannas") {
        ProviderKind::Anannas
    } else if str_eq(id, "google") || str_eq(id, "google-gemini") || str_eq(id, "gemini") {
        ProviderKind::GoogleGemini
    } else if str_eq(id, "zai") || str_eq(id, "z.ai") {
        ProviderKind::Zai
    } else if str_eq(id, "moonshot") || str_eq(id, "moonshot-ai") {
        ProviderKind::Moonshot
    } else if str_eq(id, "featherless") {
        ProviderKind::Featherless
    } else if str_eq(id, "nvidia") || str_eq(id, "nvidia-nim") {
        ProviderKind::Nvidia
    } else if str_eq(id, "qwen") {
        ProviderKind::Qwen
    } else if str_eq(id, "openrouter") {
        ProviderKind::OpenRouter
    } else if str_eq(id, "lettuce-engine") {
        ProviderKind::LettuceEngine
    } else {
        ProviderKind::OpenAi
    }
}

// ------------------------------------------------------------------
// Model lists
// ------------------------------------------------------------------

/// A model a provider lists.  The lists read here give no prices.
pub struct ModelListing {
    pub id: String,
    pub display_name: Option<String>,
    pub description: Option<String>,
    pub context_length: Option<u64>,
}

pub type ListingView = (Seq<char>, Option<Seq<char>>, Option<Seq<char>>, Option<u64>);

pub open spec fn listing_view(m: ModelListing) -> ListingView {
    (m.id@, opt_view(m.display_name), opt_view(m.description), m.context_length)
}

pub open spec fn listings_view(ms: Seq<ModelListing>) -> Seq<ListingView> {
    ms.map_values(|m: ModelListing| listing_view(m))
}

/// How each provider describes one listed model, given its item.
pub enum ListingStyle {
    /// `id`, with `name` as display name and `context_length`.
    OpenAi,
    /// `id`, with `display_name`.
    Anthropic,
    /// `name` as id and display name, `details.parameter_size` as description.
    Ollama,
}

pub open spec fn listing_of(item: JsonValue, style: ListingStyle) -> Option<ListingView> {
    match style {
        ListingStyle::OpenAi => match json_str(json_get(item, "id"@)) {
            Some(id) => Some(
                (id, json_str(json_get(item, "name"@)), None, json_u64(json_get(item, "context_length"@))),
            ),
            None => None,
        },
        ListingStyle::Anthropic => match json_str(json_get(item, "id"@)) {
            Some(id) => Some((id, json_str(json_get(item, "display_name"@)), None, None)),
            None => None,
        },
        ListingStyle::Ollama => match json_str(json_get(item, "name"@)) {
            Some(name) => Some(
                (
                    name,
                    Some(name),
                    match json_str(opt_get(json_get(item, "details"@), "parameter_size"@)) {
                        Some(size) => Some(size + " parameters"@),
                        None => None,
                    },
                    None,
                ),
            ),
            None => None,
        },
    }
}

pub open spec fn listings_of(items: Seq<JsonValue>, style: ListingStyle) -> Seq<ListingView>
    decreases items.len(),
{
    if items.len() == 0 {
        seq![]
    } else {
        listings_of(items.drop_last(), style) + match listing_of(items.last(), style) {
            Some(l) => seq![l],
            None => seq![],
        }
    }
}

/// The models of a list response: the items of its `data` array (its
/// `models` array for Ollama) that name a model.
pub open spec fn model_list(response: JsonValue, style: ListingStyle) -> Seq<ListingView> {
    let key = match style {
        ListingStyle::Ollama => "models"@,
        _ => "data"@,
    };
    match json_array(json_get(response, key)) {
        Some(items) => listings_of(items, style),
        None => seq![],
    }
}

fn opt_owned(s: Option<&str>) -> (r: Option<String>)
    ensures
        opt_view(r) == match s {
            Some(x) => Some(x@),
            None => None,
        },
{
    match s {
        Some(x) => Some(to_string(x)),
        None => None,
    }
}

fn listing_exec(item: &JsonValue, style: &ListingStyle) -> (r: Option<ModelListing>)
    ensures
        match r {
            Some(m) => listing_of(*item, *style) == Some(listing_view(m)),
            None => listing_of(*item, *style) is None,
        },
{
    match style {
        ListingStyle::OpenAi => match as_str(get(item, "id")) {
            Some(id) => Some(
                ModelListing {
                    id: to_string(id),
                    display_name: opt_owned(as_str(get(item, "name"))),
                    description: None,
                    context_length: as_u64(get(item, "context_length")),
                },
            ),
            None => None,
        },
        ListingStyle::Anthropic => match as_str(get(item, "id")) {
            Some(id) => Some(
                ModelListing {
                    id: to_string(id),
                    display_name: opt_owned(as_str(get(item, "display_name"))),
                    description: None,
                    context_length: None,
                },
            ),
            None => None,
        },
        ListingStyle::Ollama => match as_str(get(item, "name")) {
            Some(name) => {
                let description = match as_str(opt_get_exec(get(item, "details"), "parameter_size")) {
                    Some(size) => {
                        let mut d = to_string(size);
                        d.append(" parameters");
                        Some(d)
                    },
                    None => None,
                };
                Some(
                    ModelListing {
                        id: to_string(name),
                        display_name: Some(to_string(name)),
                        description,
                        context_length: None,
                    },
                )
            },
            None => None,
        },
    }
}

/// The models a provider lists (see `model_list`).
pub fn parse_models_list(response: &JsonValue, style: ListingStyle) -> (r: Vec<ModelListing>)
    ensures
        listings_view(r@) == model_list(*response, style),
{
    let list = match style {
        ListingStyle::Ollama => as_array(get(response, "models")),
        _ => as_array(get(response, "data")),
    };
    let mut out: Vec<ModelListing> = Vec::new();
    match list {
        Some(items) => {
            let mut i: usize = 0;
            while i < items.len()
                invariant
                    i <= items@.len(),
                    listings_view(out@) == listings_of(items@.take(i as int), style),
                decreases items@.len() - i,
            {
                assert(items@.take(i + 1).drop_last() =~= items@.take(i as int));
                let ghost before = listings_view(out@);
                match listing_exec(&items[i], &style) {
                    Some(m) => {
                        out.push(m);
                        assert(listings_view(out@) =~= before + seq![listing_view(out@.last())]);
                    },
                    None => {},
                }
                assert(listings_view(out@) =~= listings_of(items@.take(i + 1), style));
                i += 1;
            }
            assert(items@.take(i as int) =~= items@);
        },
        None => {
            assert(listings_view(out@) =~= Seq::<ListingView>::empty());
        },
    }
    out
}

impl AnthropicAdapter {
    /// The models Anthropic lists.
    pub fn parse_models_list(&self, response: &JsonValue) -> (r: Vec<ModelListing>)
        ensures
            listings_view(r@) == model_list(*response, ListingStyle::Anthropic),
    {
        parse_models_list(response, ListingStyle::Anthropic)
    }
}

impl OllamaAdapter {
    /// The models an Ollama server lists.
    pub fn parse_models_list(&self, response: &JsonValue) -> (r: Vec<ModelListing>)
        ensures
            listings_view(r@) == model_list(*response, ListingStyle::Ollama),
    {
        parse_models_list(response, ListingStyle::Ollama)
    }
}

} // verus!
