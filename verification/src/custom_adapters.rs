//! Providers that the user describes: an OpenAI-style endpoint and an
//! Anthropic-style one, each shaped by the JSON configuration saved with the
//! credential (endpoint paths, role names, how the key is sent).
use vstd::prelude::*;

use crate::adapters::{extra_pairs, header_pairs, pair, with_extra, HeaderPairs, names_view};
use crate::json::{as_bool, as_str, json_bool, json_str, opt_get, opt_get_exec, JsonValue};
use crate::messages::{combine_same_role_messages, combined_matches, remap_role, remapped};
use crate::request::{opt_view, to_lowercase, unicode_lowercase};
use crate::text::{
    contains, has_prefix, has_sub, is_blank, starts_with, str_eq, to_string, trim_end_matches,
    trim_end_pat, trim_seq,
};

verus! {

// ------------------------------------------------------------------
// Reading the configuration
// ------------------------------------------------------------------

/// The string saved under `key`.
pub open spec fn config_str(c: Option<JsonValue>, key: Seq<char>) -> Option<Seq<char>> {
    json_str(opt_get(c, key))
}

/// The string saved under `key`, or `default`.
pub open spec fn config_or(c: Option<JsonValue>, key: Seq<char>, default: Seq<char>) -> Seq<char> {
    match config_str(c, key) {
        Some(s) => s,
        None => default,
    }
}

/// The flag saved under `key`, or `default`.
pub open spec fn config_flag(c: Option<JsonValue>, key: Seq<char>, default: bool) -> bool {
    match json_bool(opt_get(c, key)) {
        Some(b) => b,
        None => default,
    }
}

/// How the key is sent (`header`, `query`, `bearer`, `none`...), lower-cased;
/// `header` unless configured.
pub open spec fn auth_mode_of(c: Option<JsonValue>) -> Seq<char> {
    unicode_lowercase(config_or(c, "authMode"@, "header"@))
}

/// `url` with the key appended as a query parameter, when the key goes in
/// the query and is not blank.
pub open spec fn query_auth_url(c: Option<JsonValue>, url: Seq<char>, api_key: Seq<char>) -> Seq<char> {
    if auth_mode_of(c) != "query"@ || trim_seq(api_key).len() == 0 {
        url
    } else {
        url + (if has_sub(url, "?"@) {
            "&"@
        } else {
            "?"@
        }) + config_or(c, "authQueryParamName"@, "api_key"@) + "="@ + api_key
    }
}

/// The header that carries the key: under the configured name in `header`
/// mode, as a bearer token in any mode other than `header`, `query` and
/// `none`; none for a blank key.
pub open spec fn auth_pairs(c: Option<JsonValue>, api_key: Seq<char>) -> HeaderPairs {
    let mode = auth_mode_of(c);
    if mode == "none"@ || mode == "query"@ || trim_seq(api_key).len() == 0 {
        seq![]
    } else if mode == "header"@ {
        seq![(config_or(c, "authHeaderName"@, "x-api-key"@), api_key)]
    } else {
        seq![("Authorization"@, "Bearer "@ + api_key)]
    }
}

/// The models endpoint: an absolute URL as configured, a path joined to the
/// base URL, `/v1/models` unless configured.
pub open spec fn models_endpoint_of(c: Option<JsonValue>, base_url: Seq<char>) -> Seq<char> {
    let e = config_or(c, "modelsEndpoint"@, "/v1/models"@);
    if has_prefix(e, "http://"@) || has_prefix(e, "https://"@) {
        e
    } else if has_prefix(e, "/"@) {
        trim_end_pat(base_url, "/"@) + e
    } else {
        trim_end_pat(base_url, "/"@) + "/"@ + e
    }
}

fn config_value_of(c: &Option<JsonValue>, key: &str) -> (r: Option<String>)
    ensures
        opt_view(r) == config_str(*c, key@),
{
    let found = match c {
        Some(v) => opt_get_exec(Some(v), key),
        None => None,
    };
    match as_str(found) {
        Some(s) => Some(to_string(s)),
        None => None,
    }
}

fn config_or_exec(c: &Option<JsonValue>, key: &str, default: &str) -> (r: String)
    ensures
        r@ == config_or(*c, key@, default@),
{
    match config_value_of(c, key) {
        Some(s) => s,
        None => to_string(default),
    }
}

fn config_flag_exec(c: &Option<JsonValue>, key: &str, default: bool) -> (r: bool)
    ensures
        r == config_flag(*c, key@, default),
{
    let found = match c {
        Some(v) => opt_get_exec(Some(v), key),
        None => None,
    };
    match as_bool(found) {
        Some(b) => b,
        None => default,
    }
}

fn auth_mode_exec(c: &Option<JsonValue>) -> (r: String)
    ensures
        r@ == auth_mode_of(*c),
{
    let m = config_or_exec(c, "authMode", "header");
    to_lowercase(m.as_str())
}

fn query_auth_exec(c: &Option<JsonValue>, url: String, api_key: &str) -> (r: String)
    ensures
        r@ == query_auth_url(*c, url@, api_key@),
{
    let mode = auth_mode_exec(c);
    if !str_eq(mode.as_str(), "query") || is_blank(api_key) {
        return url;
    }
    let name = config_or_exec(c, "authQueryParamName", "api_key");
    let has_query = contains(url.as_str(), "?");
    let mut out = url;
    if has_query {
        out.append("&");
    } else {
        out.append("?");
    }
    out.append(name.as_str());
    out.append("=");
    out.append(api_key);
    out
}

/// `out` followed by the header that carries the key.
fn push_auth(out: Vec<(String, String)>, c: &Option<JsonValue>, api_key: &str) -> (r: Vec<
    (String, String),
>)
    ensures
        header_pairs(r@) == header_pairs(out@) + auth_pairs(*c, api_key@),
{
    let mut out = out;
    let ghost start = header_pairs(out@);
    let mode = auth_mode_exec(c);
    if str_eq(mode.as_str(), "none") || str_eq(mode.as_str(), "query") || is_blank(api_key) {
        assert(start + auth_pairs(*c, api_key@) =~= start);
    } else if str_eq(mode.as_str(), "header") {
        let name = config_or_exec(c, "authHeaderName", "x-api-key");
        out.push((name, to_string(api_key)));
        assert(header_pairs(out@) =~= start + auth_pairs(*c, api_key@));
    } else {
        let mut b = to_string("Bearer ");
        b.append(api_key);
        out.push((to_string("Authorization"), b));
        assert(header_pairs(out@) =~= start + auth_pairs(*c, api_key@));
    }
    out
}

fn models_endpoint_exec(c: &Option<JsonValue>, base_url: &str) -> (r: String)
    ensures
        r@ == models_endpoint_of(*c, base_url@),
{
    let e = config_or_exec(c, "modelsEndpoint", "/v1/models");
    if starts_with(e.as_str(), "http://") || starts_with(e.as_str(), "https://") {
        e
    } else if starts_with(e.as_str(), "/") {
        let mut t = trim_end_matches(base_url, "/");
        t.append(e.as_str());
        t
    } else {
        let mut t = trim_end_matches(base_url, "/");
        t.append("/");
        t.append(e.as_str());
        t
    }
}

fn configured_endpoint(c: &Option<JsonValue>, base_url: &str, default_path: &str) -> (r: String)
    ensures
        r@ == trim_end_pat(base_url@, "/"@) + config_or(*c, "chatEndpoint"@, default_path@),
{
    let path = config_or_exec(c, "chatEndpoint", default_path);
    let mut t = trim_end_matches(base_url, "/");
    t.append(path.as_str());
    t
}

// ------------------------------------------------------------------
// The OpenAI-style custom provider
// ------------------------------------------------------------------

/// What the request says about tool choice, by the configured mode.
pub enum CustomToolChoice {
    /// The given choice string.
    Named(String),
    /// No choice field.
    Omit,
    /// Whatever the tool configuration itself asks for.
    Passthrough,
}

/// The tool choice for a lower-cased mode: `auto`, `none` and `required` as
/// named, `omit` and `passthrough` as such, anything else `auto`.
pub open spec fn tool_choice_for(mode: Seq<char>) -> Option<Option<Seq<char>>> {
    if mode == "none"@ || mode == "required"@ || mode == "auto"@ {
        Some(Some(mode))
    } else if mode == "omit"@ {
        Some(None)
    } else if mode == "passthrough"@ {
        None
    } else {
        Some(Some("auto"@))
    }
}

pub open spec fn choice_view(c: CustomToolChoice) -> Option<Option<Seq<char>>> {
    match c {
        CustomToolChoice::Named(s) => Some(Some(s@)),
        CustomToolChoice::Omit => Some(None),
        CustomToolChoice::Passthrough => None,
    }
}

/// `after` is `before` with the role `from` renamed as configured, or
/// `before` itself when no name is configured.
pub open spec fn role_step(
    before: Seq<JsonValue>,
    after: Seq<JsonValue>,
    from: Seq<char>,
    to: Option<Seq<char>>,
) -> bool {
    match to {
        Some(t) => after.len() == before.len() && forall|i: int|
            0 <= i < before.len() ==> remapped(before[i], #[trigger] after[i], from, t),
        None => after == before,
    }
}

/// The messages a custom OpenAI-style request carries: joined by role when
/// so configured, then with the user, assistant and system roles renamed as
/// configured, in that order.
pub open spec fn custom_messages(c: Option<JsonValue>, input: Seq<JsonValue>, r: Seq<JsonValue>) -> bool {
    exists|merged: Seq<JsonValue>, a: Seq<JsonValue>, b: Seq<JsonValue>|
        {
            &&& if config_flag(c, "mergeSameRoleMessages"@, true) {
                combined_matches(input, merged)
            } else {
                merged == input
            }
            &&& role_step(merged, a, "user"@, config_str(c, "userRole"@))
            &&& role_step(a, b, "assistant"@, config_str(c, "assistantRole"@))
            &&& role_step(b, r, "system"@, config_str(c, "systemRole"@))
        }
}

fn rename_role(messages: Vec<JsonValue>, c: &Option<JsonValue>, from: &str, key: &str) -> (r: Vec<
    JsonValue,
>)
    ensures
        role_step(messages@, r@, from@, config_str(*c, key@)),
{
    match config_value_of(c, key) {
        Some(to) => remap_role(messages, from, to.as_str()),
        None => messages,
    }
}

/// A user-described OpenAI-compatible provider.
pub struct CustomGenericAdapter {
    credential_config: Option<JsonValue>,
}

impl CustomGenericAdapter {
    /// The configuration saved with the credential.
    pub closed spec fn config(&self) -> Option<JsonValue> {
        self.credential_config
    }

    pub fn new(credential_config: Option<JsonValue>) -> (r: Self)
        ensures
            r.config() == credential_config,
    {
        CustomGenericAdapter { credential_config }
    }

    pub fn config_value(&self, key: &str) -> (r: Option<String>)
        ensures
            opt_view(r) == config_str(self.config(), key@),
    {
        config_value_of(&self.credential_config, key)
    }

    /// Consecutive messages of one role are merged unless turned off.
    pub fn merge_same_role_messages(&self) -> (r: bool)
        ensures
            r == config_flag(self.config(), "mergeSameRoleMessages"@, true),
    {
        config_flag_exec(&self.credential_config, "mergeSameRoleMessages", true)
    }

    pub fn auth_mode(&self) -> (r: String)
        ensures
            r@ == auth_mode_of(self.config()),
    {
        auth_mode_exec(&self.credential_config)
    }

    pub fn auth_header_name(&self) -> (r: String)
        ensures
            r@ == config_or(self.config(), "authHeaderName"@, "x-api-key"@),
    {
        config_or_exec(&self.credential_config, "authHeaderName", "x-api-key")
    }

    pub fn auth_query_param_name(&self) -> (r: String)
        ensures
            r@ == config_or(self.config(), "authQueryParamName"@, "api_key"@),
    {
        config_or_exec(&self.credential_config, "authQueryParamName", "api_key")
    }

    pub fn append_query_auth(&self, url: String, api_key: &str) -> (r: String)
        ensures
            r@ == query_auth_url(self.config(), url@, api_key@),
    {
        query_auth_exec(&self.credential_config, url, api_key)
    }

    /// The messages as the request carries them (see `custom_messages`).
    pub fn request_messages(&self, messages: Vec<JsonValue>) -> (r: Vec<JsonValue>)
        ensures
            custom_messages(self.config(), messages@, r@),
    {
        let ghost input = messages@;
        let merged = if self.merge_same_role_messages() {
            combine_same_role_messages(messages)
        } else {
            messages
        };
        let ghost m = merged@;
        let a = rename_role(merged, &self.credential_config, "user", "userRole");
        let ghost av = a@;
        let b = rename_role(a, &self.credential_config, "assistant", "assistantRole");
        let ghost bv = b@;
        let r = rename_role(b, &self.credential_config, "system", "systemRole");
        assert(role_step(m, av, "user"@, config_str(self.config(), "userRole"@)));
        assert(role_step(av, bv, "assistant"@, config_str(self.config(), "assistantRole"@)));
        assert(role_step(bv, r@, "system"@, config_str(self.config(), "systemRole"@)));
        r
    }

    /// The configured tool-choice mode, lower-cased; `auto` unless set.
    pub fn tool_choice_mode(&self) -> (r: String)
        ensures
            r@ == unicode_lowercase(config_or(self.config(), "toolChoiceMode"@, "auto"@)),
    {
        let m = config_or_exec(&self.credential_config, "toolChoiceMode", "auto");
        to_lowercase(m.as_str())
    }

    /// The tool choice a request with tools carries.
    pub fn tool_choice(&self) -> (r: CustomToolChoice)
        ensures
            choice_view(r) == tool_choice_for(
                unicode_lowercase(config_or(self.config(), "toolChoiceMode"@, "auto"@)),
            ),
    {
        let mode = self.tool_choice_mode();
        let m = mode.as_str();
        if str_eq(m, "none") || str_eq(m, "required") || str_eq(m, "auto") {
            CustomToolChoice::Named(mode)
        } else if str_eq(m, "omit") {
            CustomToolChoice::Omit
        } else if str_eq(m, "passthrough") {
            CustomToolChoice::Passthrough
        } else {
            CustomToolChoice::Named(to_string("auto"))
        }
    }

    /// The base URL without trailing slashes, then the configured chat path
    /// (`/chat/completions` unless set).
    pub fn endpoint(&self, base_url: &str) -> (r: String)
        ensures
            r@ == trim_end_pat(base_url@, "/"@) + config_or(
                self.config(),
                "chatEndpoint"@,
                "/chat/completions"@,
            ),
    {
        configured_endpoint(&self.credential_config, base_url, "/chat/completions")
    }

    pub fn system_role(&self) -> (r: String)
        ensures
            r@ == config_or(self.config(), "systemRole"@, "system"@),
    {
        config_or_exec(&self.credential_config, "systemRole", "system")
    }

    /// The chat endpoint, with the key in the query when so configured.
    pub fn build_url(&self, base_url: &str, _model_name: &str, api_key: &str, _should_stream: bool) -> (r:
        String)
        ensures
            r@ == query_auth_url(
                self.config(),
                trim_end_pat(base_url@, "/"@) + config_or(
                    self.config(),
                    "chatEndpoint"@,
                    "/chat/completions"@,
                ),
                api_key@,
            ),
    {
        let e = self.endpoint(base_url);
        self.append_query_auth(e, api_key)
    }

    pub fn list_models_endpoint(&self, base_url: &str) -> (r: String)
        ensures
            r@ == models_endpoint_of(self.config(), base_url@),
    {
        models_endpoint_exec(&self.credential_config, base_url)
    }

    pub fn supports_stream(&self) -> (r: bool)
        ensures
            r == config_flag(self.config(), "supportsStream"@, true),
    {
        config_flag_exec(&self.credential_config, "supportsStream", true)
    }

    pub fn required_auth_headers(&self) -> (r: Vec<&'static str>)
        ensures
            names_view(r@) == seq!["Authorization"@],
    {
        let r = vec!["Authorization"];
        assert(names_view(r@) =~= seq!["Authorization"@]);
        r
    }

    pub fn default_headers_template(&self) -> (r: Vec<(String, String)>)
        ensures
            header_pairs(r@) == seq![("Authorization"@, "Bearer $API_KEY"@)],
    {
        let r = vec![pair("Authorization", "Bearer $API_KEY")];
        assert(header_pairs(r@) =~= seq![("Authorization"@, "Bearer $API_KEY"@)]);
        r
    }

    /// JSON content type, the key as the configuration says, then the extra
    /// headers.
    pub fn headers(&self, api_key: &str, extra: &Option<Vec<(String, String)>>) -> (r: Vec<
        (String, String),
    >)
        ensures
            header_pairs(r@) == seq![("Content-Type"@, "application/json"@)] + auth_pairs(
                self.config(),
                api_key@,
            ) + extra_pairs(*extra),
    {
        let out = vec![pair("Content-Type", "application/json")];
        assert(header_pairs(out@) =~= seq![("Content-Type"@, "application/json"@)]);
        let out = push_auth(out, &self.credential_config, api_key);
        with_extra(out, extra)
    }
}

// ------------------------------------------------------------------
// The Anthropic-style custom provider
// ------------------------------------------------------------------

/// A user-described provider speaking Anthropic's messages API.
pub struct CustomAnthropicAdapter {
    credential_config: Option<JsonValue>,
}

impl CustomAnthropicAdapter {
    /// The configuration saved with the credential.
    pub closed spec fn config(&self) -> Option<JsonValue> {
        self.credential_config
    }

    pub fn new(credential_config: Option<JsonValue>) -> (r: Self)
        ensures
            r.config() == credential_config,
    {
        CustomAnthropicAdapter { credential_config }
    }

    pub fn config_value(&self, key: &str) -> (r: Option<String>)
        ensures
            opt_view(r) == config_str(self.config(), key@),
    {
        config_value_of(&self.credential_config, key)
    }

    pub fn merge_same_role_messages(&self) -> (r: bool)
        ensures
            r == config_flag(self.config(), "mergeSameRoleMessages"@, true),
    {
        config_flag_exec(&self.credential_config, "mergeSameRoleMessages", true)
    }

    pub fn auth_mode(&self) -> (r: String)
        ensures
            r@ == auth_mode_of(self.config()),
    {
        auth_mode_exec(&self.credential_config)
    }

    pub fn auth_header_name(&self) -> (r: String)
        ensures
            r@ == config_or(self.config(), "authHeaderName"@, "x-api-key"@),
    {
        config_or_exec(&self.credential_config, "authHeaderName", "x-api-key")
    }

    pub fn auth_query_param_name(&self) -> (r: String)
        ensures
            r@ == config_or(self.config(), "authQueryParamName"@, "api_key"@),
    {
        config_or_exec(&self.credential_config, "authQueryParamName", "api_key")
    }

    pub fn append_query_auth(&self, url: String, api_key: &str) -> (r: String)
        ensures
            r@ == query_auth_url(self.config(), url@, api_key@),
    {
        query_auth_exec(&self.credential_config, url, api_key)
    }

    /// The roles the messages are sent under: the configured user and
    /// assistant role names, `user` and `assistant` unless set.
    pub fn message_roles(&self) -> (r: (String, String))
        ensures
            r.0@ == config_or(self.config(), "userRole"@, "user"@),
            r.1@ == config_or(self.config(), "assistantRole"@, "assistant"@),
    {
        (
            config_or_exec(&self.credential_config, "userRole", "user"),
            config_or_exec(&self.credential_config, "assistantRole", "assistant"),
        )
    }

    /// The base URL without trailing slashes, then the configured chat path
    /// (`/v1/messages` unless set).
    pub fn endpoint(&self, base_url: &str) -> (r: String)
        ensures
            r@ == trim_end_pat(base_url@, "/"@) + config_or(
                self.config(),
                "chatEndpoint"@,
                "/v1/messages"@,
            ),
    {
        configured_endpoint(&self.credential_config, base_url, "/v1/messages")
    }

    pub fn system_role(&self) -> (r: String)
        ensures
            r@ == config_or(self.config(), "systemRole"@, "system"@),
    {
        config_or_exec(&self.credential_config, "systemRole", "system")
    }

    pub fn build_url(&self, base_url: &str, _model_name: &str, api_key: &str, _should_stream: bool) -> (r:
        String)
        ensures
            r@ == query_auth_url(
                self.config(),
                trim_end_pat(base_url@, "/"@) + config_or(self.config(), "chatEndpoint"@, "/v1/messages"@),
                api_key@,
            ),
    {
        let e = self.endpoint(base_url);
        self.append_query_auth(e, api_key)
    }

    pub fn list_models_endpoint(&self, base_url: &str) -> (r: String)
        ensures
            r@ == models_endpoint_of(self.config(), base_url@),
    {
        models_endpoint_exec(&self.credential_config, base_url)
    }

    pub fn supports_stream(&self) -> (r: bool)
        ensures
            r == config_flag(self.config(), "supportsStream"@, true),
    {
        config_flag_exec(&self.credential_config, "supportsStream", true)
    }

    pub fn required_auth_headers(&self) -> (r: Vec<&'static str>)
        ensures
            names_view(r@) == seq!["x-api-key"@],
    {
        let r = vec!["x-api-key"];
        assert(names_view(r@) =~= seq!["x-api-key"@]);
        r
    }

    pub fn default_headers_template(&self) -> (r: Vec<(String, String)>)
        ensures
            header_pairs(r@) == seq![("x-api-key"@, "$API_KEY"@)],
    {
        let r = vec![pair("x-api-key", "$API_KEY")];
        assert(header_pairs(r@) =~= seq![("x-api-key"@, "$API_KEY"@)]);
        r
    }

    /// JSON and streaming headers and the API version, the key as the
    /// configuration says, then the extra headers.
    pub fn headers(&self, api_key: &str, extra: &Option<Vec<(String, String)>>) -> (r: Vec<
        (String, String),
    >)
        ensures
            header_pairs(r@) == seq![
                ("Content-Type"@, "application/json"@),
                ("Accept"@, "text/event-stream"@),
                ("anthropic-version"@, "2023-06-01"@),
            ] + auth_pairs(self.config(), api_key@) + extra_pairs(*extra),
    {
        let out = vec![
            pair("Content-Type", "application/json"),
            pair("Accept", "text/event-stream"),
            pair("anthropic-version", "2023-06-01"),
        ];
        assert(header_pairs(out@) =~= seq![
            ("Content-Type"@, "application/json"@),
            ("Accept"@, "text/event-stream"@),
            ("anthropic-version"@, "2023-06-01"@),
        ]);
        let out = push_auth(out, &self.credential_config, api_key);
        with_extra(out, extra)
    }
}

} // verus!
