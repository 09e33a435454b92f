use vstd::prelude::*;
use crate::domain::ModelOutput;
use crate::numfmt::{dec, dec_string};
use crate::json::{
    bool_field, bool_of, field_of, items_of, json_as_array, json_document, json_field, json_get,
    json_syntax_error, parse_json, text_field, text_of,
};
use crate::text::{chars_of, contains, find_chars};

verus! {

#[verifier::external_type_specification]
#[verifier::external_body]
pub struct ExRequestError(reqwest::Error);

/// Whether `reqwest::Error::is_timeout` holds of `error`: some error in its source chain is a
/// time-out.
pub uninterp spec fn timed_out(error: reqwest::Error) -> bool;

/// Whether `reqwest::Error::is_connect` holds of `error`: some error in its source chain is a
/// failed connection.
pub uninterp spec fn failed_to_connect(error: reqwest::Error) -> bool;

/// The `Display` text of a `reqwest::Error`: its kind and, when known, the URL.
pub uninterp spec fn request_error_display(error: reqwest::Error) -> Seq<char>;

/// Calls `reqwest::Error::is_timeout`; the contract only names the answer.
#[verifier::external_body]
fn request_error_is_timeout(error: &reqwest::Error) -> (r: bool)
    ensures
        r == timed_out(*error),
{
    error.is_timeout()
}

/// Calls `reqwest::Error::is_connect`; the contract only names the answer.
#[verifier::external_body]
fn request_error_is_connect(error: &reqwest::Error) -> (r: bool)
    ensures
        r == failed_to_connect(*error),
{
    error.is_connect()
}

/// Formats a `reqwest::Error` with its `Display` impl; the contract only names the text.
#[verifier::external_body]
fn request_error_text(error: &reqwest::Error) -> (r: String)
    ensures
        r@ == request_error_display(*error),
{
    error.to_string()
}

/// A failed model request: a message, the HTTP status when the provider answered, and the
/// delay the provider asked for.
#[derive(Debug)]
pub struct ModelResponseError {
    pub message: String,
    pub status: Option<u16>,
    pub retry_after: Option<u64>,
}

impl ModelResponseError {
    pub fn other(message: String) -> (r: Self)
        ensures
            r.message == message,
            r.status is None,
            r.retry_after is None,
    {
        ModelResponseError { message, status: None, retry_after: None }
    }

    pub fn provider(status: u16, message: String, retry_after: Option<u64>) -> (r: Self)
        ensures
            r.message == message,
            r.status == Some(status),
            r.retry_after == retry_after,
    {
        ModelResponseError { message, status: Some(status), retry_after }
    }

    /// A request may be retried without thinking only when the provider rejected it with
    /// status 400 or 422.
    pub fn permits_thinking_retry(&self) -> (r: bool)
        ensures
            r == (self.status == Some(400u16) || self.status == Some(422u16)),
    {
        match self.status {
            Some(s) => s == 400 || s == 422,
            None => false,
        }
    }

    /// The text shown for the error: `HTTP <status>: <message>`, or the bare message when
    /// no status is known.
    pub fn to_display_string(&self) -> (r: String)
        ensures
            r@ == display_spec(self.status, self.message@),
    {
        match self.status {
            Some(s) => {
                let mut out = String::from_str("HTTP ");
                out.append(dec_string(s as u64).as_str());
                out.append(": ");
                out.append(self.message.as_str());
                out
            },
            None => self.message.clone(),
        }
    }
}

pub open spec fn display_spec(status: Option<u16>, message: Seq<char>) -> Seq<char> {
    match status {
        Some(s) => "HTTP "@ + dec(s as nat) + ": "@ + message,
        None => message,
    }
}

pub open spec fn timeout_message() -> Seq<char> {
    "模型请求超时（最长等待 20 分钟），请检查网络或降低单次处理量。"@
}

/// The message for a failed request: a fixed text on time-out, the error prefixed on a
/// failed connection, else the error text.
pub open spec fn request_error_message_spec(is_timeout: bool, is_connect: bool, detail: Seq<char>) -> Seq<char> {
    if is_timeout {
        timeout_message()
    } else if is_connect {
        "无法连接模型服务："@ + detail
    } else {
        detail
    }
}

pub fn request_error_message(is_timeout: bool, is_connect: bool, detail: &str) -> (r: String)
    ensures
        r@ == request_error_message_spec(is_timeout, is_connect, detail@),
{
    if is_timeout {
        String::from_str("模型请求超时（最长等待 20 分钟），请检查网络或降低单次处理量。")
    } else if is_connect {
        let mut out = String::from_str("无法连接模型服务：");
        out.append(detail);
        out
    } else {
        String::from_str(detail)
    }
}

/// The message for a failed `reqwest` request.
pub fn format_request_error(error: reqwest::Error) -> (r: String)
    ensures
        r@ == request_error_message_spec(
            timed_out(error),
            failed_to_connect(error),
            request_error_display(error),
        ),
{
    let t = request_error_is_timeout(&error);
    let c = request_error_is_connect(&error);
    let d = request_error_text(&error);
    request_error_message(t, c, d.as_str())
}

/// What checking a model's HTTP answer gives: the provider's status and body when the status
/// is not a success, a parse error when the body is not JSON, else the body.
pub open spec fn response_outcome(status: u16, body: Seq<char>) -> Result<Seq<char>, (Option<u16>, Seq<char>)> {
    if !(200 <= status < 300) {
        Err((Some(status), body))
    } else {
        match json_syntax_error(body) {
            Some(e) => Err((None, "模型响应不是合法 JSON: "@ + e + "；原始响应："@ + body)),
            None => Ok(body),
        }
    }
}

/// Checks a model's HTTP answer (status and body text) and parses the body as JSON.
pub fn response_json_or_error(status: u16, body: String) -> (r: Result<(serde_json::Value, String), ModelResponseError>)
    ensures
        match response_outcome(status, body@) {
            Ok(b) => r matches Ok(ok) && ok.1@ == b
                && json_document(b) == Ok::<serde_json::Value, Seq<char>>(ok.0),
            Err((st, msg)) => r matches Err(e) && e.status == st && e.message@ == msg
                && e.retry_after is None,
        },
{
    if !(200 <= status && status < 300) {
        return Err(ModelResponseError::provider(status, body, None));
    }
    match parse_json(body.as_str()) {
        Ok(value) => Ok((value, body)),
        Err(e) => {
            let mut msg = String::from_str("模型响应不是合法 JSON: ");
            msg.append(e.as_str());
            msg.append("；原始响应：");
            msg.append(body.as_str());
            Err(ModelResponseError::other(msg))
        },
    }
}

/// One part of a Gemini answer: whether it is a thought, and its text.
#[derive(Debug)]
pub struct GeminiPart {
    pub thought: Option<bool>,
    pub text: Option<String>,
}

/// A part as a pair of its `thought` flag and its text.
pub open spec fn part_view(p: GeminiPart) -> (Option<bool>, Option<Seq<char>>) {
    (
        p.thought,
        match p.text {
            Some(t) => Some(t@),
            None => None,
        },
    )
}

/// How a Gemini answer can lack the parts.
#[derive(Debug)]
pub enum GeminiShapeError {
    MissingCandidates,
    EmptyCandidates,
    MissingParts,
}

/// The parts of a Gemini answer: the array `content.parts` of the first element of the array
/// `candidates`, or the first step of that path that is missing.
pub open spec fn gemini_parts_spec(value: serde_json::Value) -> Result<Seq<serde_json::Value>, GeminiShapeError> {
    match items_of(json_field(value, "candidates"@)) {
        None => Err(GeminiShapeError::MissingCandidates),
        Some(candidates) => if candidates.len() == 0 {
            Err(GeminiShapeError::EmptyCandidates)
        } else {
            match items_of(field_of(json_field(candidates[0], "content"@), "parts"@)) {
                None => Err(GeminiShapeError::MissingParts),
                Some(parts) => Ok(parts),
            }
        },
    }
}

/// A part of a Gemini answer read for its boolean `thought` and string `text` members.
pub open spec fn json_part(p: serde_json::Value) -> (Option<bool>, Option<Seq<char>>) {
    (bool_of(json_field(p, "thought"@)), text_of(json_field(p, "text"@)))
}

/// The parts of a Gemini answer, each read for its `thought` flag and `text`.
pub fn gemini_parts(value: &serde_json::Value) -> (r: Result<Vec<GeminiPart>, GeminiShapeError>)
    ensures
        match gemini_parts_spec(*value) {
            Ok(parts) => r matches Ok(v) && v@.map_values(|p: GeminiPart| part_view(p))
                == parts.map_values(|p: serde_json::Value| json_part(p)),
            Err(e) => r matches Err(e2) && e2 == e,
        },
{
    let candidates = match json_get(value, "candidates") {
        Some(c) => match json_as_array(c) {
            Some(a) => a,
            None => return Err(GeminiShapeError::MissingCandidates),
        },
        None => return Err(GeminiShapeError::MissingCandidates),
    };
    if candidates.len() == 0 {
        return Err(GeminiShapeError::EmptyCandidates);
    }
    let candidate = &candidates[0];
    let parts = match json_get(candidate, "content") {
        Some(content) => match json_get(content, "parts") {
            Some(p) => match json_as_array(p) {
                Some(a) => a,
                None => return Err(GeminiShapeError::MissingParts),
            },
            None => return Err(GeminiShapeError::MissingParts),
        },
        None => return Err(GeminiShapeError::MissingParts),
    };
    let mut out: Vec<GeminiPart> = Vec::new();
    let mut i: usize = 0;
    while i < parts.len()
        invariant
            i <= parts@.len(),
            out@.len() == i,
            forall|k: int| 0 <= k < i ==> part_view(#[trigger] out@[k]) == json_part(parts@[k]),
        decreases parts@.len() - i,
    {
        let part = &parts[i];
        let p = GeminiPart { thought: bool_field(part, "thought"), text: text_field(part, "text") };
        out.push(p);
        i = i + 1;
    }
    assert(out@.map_values(|p: GeminiPart| part_view(p)) =~= parts@.map_values(
        |p: serde_json::Value| json_part(p),
    ));
    Ok(out)
}

pub open spec fn is_thought(p: (Option<bool>, Option<Seq<char>>)) -> bool {
    p.0 == Some(true)
}

/// The answer text: the texts of the parts that are not thoughts, joined.
pub open spec fn answer_text(parts: Seq<(Option<bool>, Option<Seq<char>>)>) -> Seq<char>
    decreases parts.len(),
{
    if parts.len() == 0 {
        Seq::empty()
    } else {
        let p = parts.last();
        answer_text(parts.drop_last()) + if !is_thought(p) && p.1 is Some {
            p.1.unwrap()
        } else {
            Seq::empty()
        }
    }
}

/// The reasoning text: the texts of the thought parts, joined.
pub open spec fn reasoning_text(parts: Seq<(Option<bool>, Option<Seq<char>>)>) -> Seq<char>
    decreases parts.len(),
{
    if parts.len() == 0 {
        Seq::empty()
    } else {
        let p = parts.last();
        reasoning_text(parts.drop_last()) + if is_thought(p) && p.1 is Some {
            p.1.unwrap()
        } else {
            Seq::empty()
        }
    }
}

/// Whether some thought part carries a text.
pub open spec fn has_reasoning(parts: Seq<(Option<bool>, Option<Seq<char>>)>) -> bool {
    exists|i: int| 0 <= i < parts.len() && is_thought(#[trigger] parts[i]) && parts[i].1 is Some
}

/// Joins the parts of a Gemini answer into its text and, when some thought part has text,
/// its reasoning.
pub fn assemble_gemini_parts(parts: &Vec<GeminiPart>) -> (r: (String, Option<String>))
    ensures
        ({
            let views = parts@.map_values(|p: GeminiPart| part_view(p));
            &&& r.0@ == answer_text(views)
            &&& has_reasoning(views) ==> (r.1 matches Some(s) && s@ == reasoning_text(views))
            &&& !has_reasoning(views) ==> r.1 is None
        }),
{
    let ghost views = parts@.map_values(|p: GeminiPart| part_view(p));
    let mut text = String::new();
    let mut reasoning = String::new();
    let mut any_reasoning = false;
    let mut i: usize = 0;
    while i < parts.len()
        invariant
            i <= parts@.len(),
            views == parts@.map_values(|p: GeminiPart| part_view(p)),
            text@ == answer_text(views.take(i as int)),
            reasoning@ == reasoning_text(views.take(i as int)),
            any_reasoning == has_reasoning(views.take(i as int)),
        decreases parts@.len() - i,
    {
        let part = &parts[i];
        let ghost pv = views[i as int];
        proof {
            assert(views.take(i + 1).drop_last() =~= views.take(i as int));
            assert(views.take(i + 1).last() == pv);
            assert(pv == part_view(parts@[i as int]));
        }
        let thought = match part.thought {
            Some(b) => b,
            None => false,
        };
        match &part.text {
            Some(t) => {
                if thought {
                    reasoning.append(t.as_str());
                    any_reasoning = true;
                } else {
                    text.append(t.as_str());
                }
            },
            None => {},
        }
        proof {
            let pre = views.take(i as int);
            let post = views.take(i + 1);
            assert(has_reasoning(post) == (has_reasoning(pre) || (is_thought(pv) && pv.1 is Some))) by {
                if has_reasoning(pre) {
                    let k = choose|k: int| 0 <= k < pre.len() && is_thought(#[trigger] pre[k])
                        && pre[k].1 is Some;
                    assert(post[k] == pre[k]);
                }
                if has_reasoning(post) {
                    let k = choose|k: int| 0 <= k < post.len() && is_thought(#[trigger] post[k])
                        && post[k].1 is Some;
                    if k < i {
                        assert(pre[k] == post[k]);
                    }
                }
                if is_thought(pv) && pv.1 is Some {
                    assert(post[i as int] == pv);
                }
            }
        }
        i = i + 1;
    }
    assert(views.take(i as int) =~= views);
    if any_reasoning {
        (text, Some(reasoning))
    } else {
        (text, None)
    }
}

pub open spec fn gemini_shape_message(e: GeminiShapeError) -> Seq<char> {
    match e {
        GeminiShapeError::MissingCandidates => "Gemini 响应缺少 candidates 数组"@,
        GeminiShapeError::EmptyCandidates => "Gemini 响应 candidates 为空"@,
        GeminiShapeError::MissingParts => "Gemini 响应缺少 content.parts"@,
    }
}

/// The text and reasoning of a Gemini answer, or why the answer has none.
pub fn parse_gemini_parts(value: &serde_json::Value) -> (r: Result<(String, Option<String>), String>)
    ensures
        match gemini_parts_spec(*value) {
            Ok(parts) => {
                let views = parts.map_values(|p: serde_json::Value| json_part(p));
                r matches Ok(out) && out.0@ == answer_text(views) && match out.1 {
                    Some(s) => has_reasoning(views) && s@ == reasoning_text(views),
                    None => !has_reasoning(views),
                }
            },
            Err(e) => r matches Err(m) && m@ == gemini_shape_message(e),
        },
{
    match gemini_parts(value) {
        Ok(parts) => Ok(assemble_gemini_parts(&parts)),
        Err(e) => {
            let m = match e {
                GeminiShapeError::MissingCandidates => String::from_str(
                    "Gemini 响应缺少 candidates 数组",
                ),
                GeminiShapeError::EmptyCandidates => String::from_str("Gemini 响应 candidates 为空"),
                GeminiShapeError::MissingParts => String::from_str("Gemini 响应缺少 content.parts"),
            };
            assert(m@ == gemini_shape_message(e));
            Err(m)
        },
    }
}

pub open spec fn truncation_message() -> Seq<char> {
    "输出被截断"@
}

/// A truncation notice when the raw answer mentions `length` or `max_tokens`.
pub fn model_output_truncation_error(raw_response: &str) -> (r: Option<String>)
    ensures
        (contains(raw_response@, "length"@) || contains(raw_response@, "max_tokens"@)) ==> (r matches Some(m) && m@ == truncation_message()),
        !(contains(raw_response@, "length"@) || contains(raw_response@, "max_tokens"@)) ==> r is None,
{
    let raw = chars_of(raw_response);
    if find_chars(&raw, &chars_of("length")).is_some() || find_chars(
        &raw,
        &chars_of("max_tokens"),
    ).is_some() {
        Some(String::from_str("输出被截断"))
    } else {
        None
    }
}

/// Completes a model's output with what was measured of the call: the characters sent
/// (system and user prompt), the characters received and the time taken.
pub fn finish_model_output(output: ModelOutput, system: &str, user: &str, elapsed_ms: u128) -> (r: ModelOutput)
    requires
        system@.len() + user@.len() <= usize::MAX,
        output.text@.len() <= usize::MAX,
    ensures
        r.input_chars == system@.len() + user@.len(),
        r.output_chars == output.text@.len(),
        r.elapsed_ms == elapsed_ms,
        r.text == output.text,
        r.reasoning == output.reasoning,
        r.raw_response == output.raw_response,
        r.retried_without_thinking == output.retried_without_thinking,
{
    let input_chars = system.unicode_len() + user.unicode_len();
    let output_chars = output.text.as_str().unicode_len();
    ModelOutput { input_chars, output_chars, elapsed_ms, ..output }
}

} // verus!
