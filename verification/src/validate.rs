use vstd::prelude::*;
use crate::domain::Chapter;
use crate::json::{
    bool_field, bool_of, json_as_array, json_document, json_field, json_items, parse_json,
    text_field, text_of,
};
use crate::text::{
    chars_of, find, find_chars, rfind_char, rfind_char_chars, slice_chars, string_of, trim,
    trim_chars,
};

verus! {

/// `text[a..=b]`: the part of `text` from the first `[` to the last `]`.
pub open spec fn bracket_span(t: Seq<char>) -> Option<(int, int)> {
    match (find(t, seq!['[']), rfind_char(t, ']')) {
        (Some(a), Some(b)) => Some((a, b)),
        _ => None,
    }
}

/// The text inside the first fence that opens with `opener` and closes with three
/// backticks, trimmed.
pub open spec fn fenced(t: Seq<char>, opener: Seq<char>) -> Option<Seq<char>> {
    match find(t, opener) {
        Some(s) => {
            let rest = t.skip(s + opener.len());
            match find(rest, "```"@) {
                Some(e) => Some(trim(rest.take(e))),
                None => None,
            }
        },
        None => None,
    }
}

/// The JSON part of a model answer: the inside of a ```` ```json ```` fence, else of a plain
/// fence, else the span from the first `[` to the last `]`, else the whole answer; the answer
/// is trimmed first.
pub open spec fn extract_json(text: Seq<char>) -> Seq<char> {
    let t = trim(text);
    match fenced(t, "```json"@) {
        Some(j) => j,
        None => match fenced(t, "```"@) {
            Some(j) => j,
            None => match bracket_span(t) {
                Some((a, b)) => t.subrange(a, b + 1),
                None => t,
            },
        },
    }
}

/// Whether extracting the JSON of `text` would slice backwards: no fence, and the last `]`
/// lies before the first `[` with text between them.
pub open spec fn extract_json_fails(text: Seq<char>) -> bool {
    let t = trim(text);
    &&& fenced(t, "```json"@) is None
    &&& fenced(t, "```"@) is None
    &&& bracket_span(t) matches Some((a, b)) && a > b + 1
}

fn fenced_chars(t: &Vec<char>, opener: &str) -> (r: Option<Vec<char>>)
    ensures
        match fenced(t@, opener@) {
            Some(j) => r matches Some(v) && v@ == j,
            None => r is None,
        },
{
    let op = chars_of(opener);
    match find_chars(t, &op) {
        None => None,
        Some(s) => {
            proof {
                crate::text::lemma_find_from_facts(t@, op@, 0);
                assert(crate::text::occurs_at(t@, op@, s as int));
            }
            assert(t@.len() == t.len());
            let rest = slice_chars(t, s + op.len(), t.len());
            assert(rest@ =~= t@.skip(s + op@.len()));
            let fence = chars_of("```");
            match find_chars(&rest, &fence) {
                None => None,
                Some(e) => {
                    proof {
                        crate::text::lemma_find_from_facts(rest@, fence@, 0);
                    }
                    let inner = slice_chars(&rest, 0, e);
                    assert(inner@ =~= rest@.take(e as int));
                    Some(trim_chars(&inner))
                },
            }
        },
    }
}

/// Whether `extract_json_from_response` would fail on `text` (see `extract_json_fails`).
pub fn extract_json_would_fail(text: &str) -> (r: bool)
    ensures
        r == extract_json_fails(text@),
{
    let t = trim_chars(&chars_of(text));
    if fenced_chars(&t, "```json").is_some() || fenced_chars(&t, "```").is_some() {
        return false;
    }
    let mut open: Vec<char> = Vec::new();
    open.push('[');
    assert(open@ =~= seq!['[']);
    match (find_chars(&t, &open), rfind_char_chars(&t, ']')) {
        (Some(a), Some(b)) => a > b && a - b > 1,
        _ => false,
    }
}

/// The JSON part of a model answer (see `extract_json`).
pub fn extract_json_from_response(text: &str) -> (r: String)
    requires
        !extract_json_fails(text@),
    ensures
        r@ == extract_json(text@),
{
    let t = trim_chars(&chars_of(text));
    if let Some(j) = fenced_chars(&t, "```json") {
        return string_of(j.as_slice());
    }
    if let Some(j) = fenced_chars(&t, "```") {
        return string_of(j.as_slice());
    }
    let mut open: Vec<char> = Vec::new();
    open.push('[');
    assert(open@ =~= seq!['[']);
    match (find_chars(&t, &open), rfind_char_chars(&t, ']')) {
        (Some(a), Some(b)) => {
            proof {
                crate::text::lemma_find_from_facts(t@, open@, 0);
                crate::text::lemma_rfind_char_in_range(t@, ']', t@.len() as int);
            }
            assert(t@.len() == t.len());
            string_of(slice_chars(&t, a, b + 1).as_slice())
        },
        _ => string_of(t.as_slice()),
    }
}


/// The verdict of the model on one chapter title, as it appears in the JSON answer.
#[derive(Debug)]
pub struct ValidationVerdict {
    pub is_valid: Option<bool>,
    pub reason: Option<String>,
}

pub open spec fn verdict_view(v: ValidationVerdict) -> (Option<bool>, Option<Seq<char>>) {
    (
        v.is_valid,
        match v.reason {
            Some(r) => Some(r@),
            None => None,
        },
    )
}

/// An element of a validation answer read for its boolean `is_valid` and string `reason`
/// members.
pub open spec fn json_verdict(item: serde_json::Value) -> (Option<bool>, Option<Seq<char>>) {
    (bool_of(json_field(item, "is_valid"@)), text_of(json_field(item, "reason"@)))
}

/// Reads each element of a validation answer for its `is_valid` flag and `reason`.
pub fn read_verdicts(items: &Vec<serde_json::Value>) -> (r: Vec<ValidationVerdict>)
    ensures
        r@.map_values(|x: ValidationVerdict| verdict_view(x)) == items@.map_values(
            |x: serde_json::Value| json_verdict(x),
        ),
{
    let mut out: Vec<ValidationVerdict> = Vec::new();
    let mut i: usize = 0;
    while i < items.len()
        invariant
            i <= items@.len(),
            out@.len() == i,
            forall|k: int| 0 <= k < i ==> verdict_view(#[trigger] out@[k]) == json_verdict(items@[k]),
        decreases items@.len() - i,
    {
        let item = &items[i];
        let v = ValidationVerdict {
            is_valid: bool_field(item, "is_valid"),
            reason: text_field(item, "reason"),
        };
        out.push(v);
        i = i + 1;
    }
    assert(out@.map_values(|x: ValidationVerdict| verdict_view(x)) =~= items@.map_values(
        |x: serde_json::Value| json_verdict(x),
    ));
    out
}

/// The result for chapter `i`: its id, the verdict at the same position (valid when the flag
/// is missing), or valid with no reason when the answer has fewer verdicts.
pub open spec fn chapter_verdict(
    c: Chapter,
    i: int,
    items: Seq<(Option<bool>, Option<Seq<char>>)>,
) -> (Seq<char>, bool, Option<Seq<char>>) {
    if i < items.len() {
        (
            c.id@,
            match items[i].0 {
                Some(b) => b,
                None => true,
            },
            items[i].1,
        )
    } else {
        (c.id@, true, None)
    }
}

pub open spec fn verdict_results(chapters: Seq<Chapter>, items: Seq<(Option<bool>, Option<Seq<char>>)>) -> Seq<(Seq<char>, bool, Option<Seq<char>>)> {
    Seq::new(chapters.len(), |i: int| chapter_verdict(chapters[i], i, items))
}

pub open spec fn result_views(v: Seq<(String, bool, Option<String>)>) -> Seq<(Seq<char>, bool, Option<Seq<char>>)> {
    v.map_values(|t: (String, bool, Option<String>)| (t.0@, t.1, match t.2 {
        Some(r) => Some(r@),
        None => None,
    }))
}

/// Pairs each chapter with the verdict at the same position.
pub fn match_verdicts(chapters: &[Chapter], items: &Vec<ValidationVerdict>) -> (r: Vec<(String, bool, Option<String>)>)
    ensures
        result_views(r@) == verdict_results(chapters@, items@.map_values(|x: ValidationVerdict| verdict_view(x))),
{
    let ghost iv = items@.map_values(|x: ValidationVerdict| verdict_view(x));
    let mut out: Vec<(String, bool, Option<String>)> = Vec::new();
    let mut i: usize = 0;
    while i < chapters.len()
        invariant
            i <= chapters@.len(),
            iv == items@.map_values(|x: ValidationVerdict| verdict_view(x)),
            out@.len() == i,
            forall|k: int| 0 <= k < i ==> #[trigger] result_views(out@)[k] == chapter_verdict(chapters@[k], k, iv),
        decreases chapters@.len() - i,
    {
        let c = &chapters[i];
        let entry = if i < items.len() {
            let item = &items[i];
            let valid = match item.is_valid {
                Some(b) => b,
                None => true,
            };
            let reason = match &item.reason {
                Some(r) => Some(r.clone()),
                None => None,
            };
            (c.id.clone(), valid, reason)
        } else {
            (c.id.clone(), true, None)
        };
        let ghost before = out@;
        out.push(entry);
        proof {
            assert forall|k: int| 0 <= k < i + 1 implies #[trigger] result_views(out@)[k] == chapter_verdict(chapters@[k], k, iv) by {
                if k < i {
                    assert(out@[k] == before[k]);
                    assert(result_views(before)[k] == chapter_verdict(chapters@[k], k, iv));
                }
            }
        }
        i = i + 1;
    }
    assert(result_views(out@) =~= verdict_results(chapters@, iv));
    out
}

pub open spec fn not_array_message() -> Seq<char> {
    "AI响应不是JSON数组"@
}

/// What a validation answer gives: the verdict of each chapter, or why the answer cannot
/// be read.
pub open spec fn validation_outcome(text: Seq<char>, chapters: Seq<Chapter>) -> Result<Seq<(Seq<char>, bool, Option<Seq<char>>)>, Seq<char>> {
    match json_document(extract_json(text)) {
        Err(e) => Err("无法解析AI响应："@ + e),
        Ok(value) => match json_items(value) {
            None => Err(not_array_message()),
            Some(items) => Ok(verdict_results(
                chapters,
                items.map_values(|x: serde_json::Value| json_verdict(x)),
            )),
        },
    }
}

/// Reads the verdicts of a validation answer and pairs them with the chapters.
pub fn parse_validation_reply(text: &str, chapters: &[Chapter]) -> (r: Result<Vec<(String, bool, Option<String>)>, String>)
    requires
        !extract_json_fails(text@),
    ensures
        match validation_outcome(text@, chapters@) {
            Ok(v) => r matches Ok(res) && result_views(res@) == v,
            Err(m) => r matches Err(e) && e@ == m,
        },
{
    let json = extract_json_from_response(text);
    match parse_json(json.as_str()) {
        Err(e) => {
            let mut m = String::from_str("无法解析AI响应：");
            m.append(e.as_str());
            Err(m)
        },
        Ok(value) => match json_as_array(&value) {
            None => Err(String::from_str("AI响应不是JSON数组")),
            Some(items) => {
                let verdicts = read_verdicts(items);
                Ok(match_verdicts(chapters, &verdicts))
            },
        },
    }
}

} // verus!

verus! {

/// The verdict for chapter `i`: its id is the chapter's; when the answer has an element at
/// its position, the flag is that element's `is_valid` boolean whatever its reason says (valid
/// when the flag is missing) and the reason is the element's; without an element the chapter
/// stays valid, with no reason.
pub proof fn law_verdict_follows_element(
    chapters: Seq<Chapter>,
    items: Seq<(Option<bool>, Option<Seq<char>>)>,
    i: int,
    b: bool,
)
    requires
        0 <= i < chapters.len(),
    ensures
        verdict_results(chapters, items).len() == chapters.len(),
        verdict_results(chapters, items)[i].0 == chapters[i].id@,
        i < items.len() && items[i].0 == Some(b) ==> verdict_results(chapters, items)[i].1 == b,
        i < items.len() && items[i].0 is None ==> verdict_results(chapters, items)[i].1,
        i < items.len() ==> verdict_results(chapters, items)[i].2 == items[i].1,
        i >= items.len() ==> verdict_results(chapters, items)[i].1 && verdict_results(
            chapters,
            items,
        )[i].2 is None,
{
}

/// Read from the answer itself: when the extracted JSON is an array whose element `i` holds
/// the boolean `is_valid` member `b`, chapter `i` is reported with flag `b`, and with the
/// element's `reason` string as its reason.
pub proof fn law_answer_flag_is_model_flag(text: Seq<char>, chapters: Seq<Chapter>, i: int, b: bool)
    requires
        0 <= i < chapters.len(),
    ensures
        validation_outcome(text, chapters) matches Ok(res) ==> res.len() == chapters.len()
            && res[i].0 == chapters[i].id@,
        validation_outcome(text, chapters) matches Ok(res) ==> (json_document(extract_json(text))
            matches Ok(v) ==> (json_items(v) matches Some(items) ==> (
        (i < items.len() && bool_of(json_field(items[i], "is_valid"@)) == Some(b) ==> res[i].1 == b)
            && (i < items.len() ==> res[i].2 == text_of(json_field(items[i], "reason"@)))))),
{
    match json_document(extract_json(text)) {
        Ok(v) => match json_items(v) {
            Some(items) => {
                let views = items.map_values(|x: serde_json::Value| json_verdict(x));
                law_verdict_follows_element(chapters, views, i, b);
            },
            None => {},
        },
        Err(_) => {},
    }
}

} // verus!
