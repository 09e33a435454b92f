use vstd::prelude::*;
use crate::domain::ModelEndpoint;
use crate::text::{chars_of, contains, find_chars, lower, lower_chars, string_of, trim, trim_chars};

verus! {

/// Whether `s`, lower-cased, contains `needle`.
pub open spec fn mentions(s: Seq<char>, needle: Seq<char>) -> bool {
    contains(lower(s), needle)
}

fn str_mentions(s: &str, needle: &str) -> (r: bool)
    ensures
        r == mentions(s@, needle@),
{
    find_chars(&lower_chars(&chars_of(s)), &chars_of(needle)).is_some()
}

pub open spec fn deepseek_spec(provider: Seq<char>, base_url: Seq<char>, model: Seq<char>) -> bool {
    mentions(provider, "deepseek"@) || mentions(base_url, "deepseek"@) || mentions(model, "deepseek"@)
}

/// A DeepSeek endpoint: the provider, base URL or model mentions `deepseek`, in any case.
pub fn is_deepseek_profile(profile: &ModelEndpoint, base_url: &str, model: &str) -> (r: bool)
    ensures
        r == deepseek_spec(profile.provider@, base_url@, model@),
{
    str_mentions(profile.provider.as_str(), "deepseek") || str_mentions(base_url, "deepseek")
        || str_mentions(model, "deepseek")
}

pub open spec fn gemini_spec(provider: Seq<char>, base_url: Seq<char>) -> bool {
    mentions(provider, "gemini"@) || mentions(base_url, "generativelanguage"@)
}

/// A Gemini endpoint: the provider mentions `gemini` or the base URL `generativelanguage`.
pub fn is_gemini_profile(profile: &ModelEndpoint) -> (r: bool)
    ensures
        r == gemini_spec(profile.provider@, profile.base_url@),
{
    str_mentions(profile.provider.as_str(), "gemini") || str_mentions(
        profile.base_url.as_str(),
        "generativelanguage",
    )
}

/// The output limit a request carries: the override when given, else 16384 tokens for
/// JSON answers and 65536 otherwise.
pub open spec fn output_limit_spec(prefer_json_output: bool, output_limit_override: Option<usize>) -> usize {
    match output_limit_override {
        Some(n) => n,
        None => if prefer_json_output { 16_384 } else { 65_536 },
    }
}

/// The payload field and value that cap the output of an OpenAI-compatible request:
/// `max_tokens` for DeepSeek, `max_completion_tokens` for any other endpoint.
pub fn openai_output_limit(
    profile: &ModelEndpoint,
    base_url: &str,
    model: &str,
    prefer_json_output: bool,
    output_limit_override: Option<usize>,
) -> (r: (&'static str, usize))
    ensures
        r.1 == output_limit_spec(prefer_json_output, output_limit_override),
        deepseek_spec(profile.provider@, base_url@, model@) ==> r.0@ == "max_tokens"@,
        !deepseek_spec(profile.provider@, base_url@, model@) ==> r.0@ == "max_completion_tokens"@,
{
    let limit = match output_limit_override {
        Some(n) => n,
        None => if prefer_json_output { 16_384 } else { 65_536 },
    };
    if is_deepseek_profile(profile, base_url, model) {
        ("max_tokens", limit)
    } else {
        ("max_completion_tokens", limit)
    }
}

/// The `response_format` type an OpenAI-compatible request asks for: `json_object` on
/// DeepSeek, none elsewhere.
pub fn openai_json_response_type(profile: &ModelEndpoint, base_url: &str, model: &str) -> (r: Option<&'static str>)
    ensures
        deepseek_spec(profile.provider@, base_url@, model@) ==> (r matches Some(t) && t@ == "json_object"@),
        !deepseek_spec(profile.provider@, base_url@, model@) ==> r is None,
{
    if is_deepseek_profile(profile, base_url, model) {
        Some("json_object")
    } else {
        None
    }
}

/// The `generationConfig.responseMimeType` of a Gemini request: JSON when JSON output is
/// preferred, none otherwise.
pub fn gemini_json_mime_type(prefer_json_output: bool) -> (r: Option<&'static str>)
    ensures
        prefer_json_output ==> (r matches Some(t) && t@ == "application/json"@),
        !prefer_json_output ==> r is None,
{
    if prefer_json_output {
        Some("application/json")
    } else {
        None
    }
}

/// The `thinking.type` of an OpenAI-compatible request: on DeepSeek, `disabled` for thinking
/// mode `off` and `enabled` for `on`; no setting otherwise.
pub fn openai_thinking_type(profile: &ModelEndpoint, base_url: &str, model: &str) -> (r: Option<&'static str>)
    ensures
        profile.thinking_mode@ == "off"@ && deepseek_spec(profile.provider@, base_url@, model@) ==> (r matches Some(t) && t@ == "disabled"@),
        profile.thinking_mode@ == "on"@ && deepseek_spec(profile.provider@, base_url@, model@) ==> (r matches Some(t) && t@ == "enabled"@),
        !((profile.thinking_mode@ == "off"@ || profile.thinking_mode@ == "on"@) && deepseek_spec(profile.provider@, base_url@, model@)) ==> r is None,
{
    proof {
        reveal_strlit("off");
        reveal_strlit("on");
        assert("off"@.len() != "on"@.len());
    }
    let mode = profile.thinking_mode.as_str();
    let off = String::from_str("off");
    let on = String::from_str("on");
    let current = String::from_str(mode);
    if current == off {
        if is_deepseek_profile(profile, base_url, model) {
            return Some("disabled");
        }
        None
    } else if current == on {
        if is_deepseek_profile(profile, base_url, model) {
            return Some("enabled");
        }
        None
    } else {
        None
    }
}

/// The `generationConfig.thinkingConfig.thinkingBudget` of a Gemini request: none for
/// thinking mode `auto`, 0 for `off`, and -1 (dynamic) for any other mode.
pub fn gemini_thinking_budget(profile: &ModelEndpoint) -> (r: Option<i64>)
    ensures
        profile.thinking_mode@ == "auto"@ ==> r is None,
        profile.thinking_mode@ == "off"@ ==> r == Some(0i64),
        profile.thinking_mode@ != "auto"@ && profile.thinking_mode@ != "off"@ ==> r == Some(-1i64),
{
    proof {
        reveal_strlit("off");
        reveal_strlit("auto");
        assert("off"@.len() != "auto"@.len());
    }
    let current = String::from_str(profile.thinking_mode.as_str());
    if current == String::from_str("auto") {
        return None;
    }
    if current == String::from_str("off") {
        Some(0)
    } else {
        Some(-1)
    }
}

/// The model name to send: trimmed, and lower-cased on the official DeepSeek API.
pub open spec fn normalized_model(base_url: Seq<char>, model: Seq<char>) -> Seq<char> {
    if mentions(base_url, "api.deepseek.com"@) {
        lower(trim(model))
    } else {
        trim(model)
    }
}

pub fn normalize_model_name(base_url: &str, model: &str) -> (r: String)
    ensures
        r@ == normalized_model(base_url@, model@),
{
    let trimmed = trim_chars(&chars_of(model));
    if str_mentions(base_url, "api.deepseek.com") {
        string_of(lower_chars(&trimmed).as_slice())
    } else {
        string_of(trimmed.as_slice())
    }
}

} // verus!
