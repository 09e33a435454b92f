use novel_processor::jobs::{review_retry_delay, REVIEW_RETRY_DELAY_MS};
use novel_processor::json::{bool_field, text_field};
use novel_processor::model_support::{gemini_parts, parse_gemini_parts, GeminiShapeError};
use novel_processor::rate_limit::{RateLimitCoordinator, RateLimitScope};
use novel_processor::jobs::JobKind;
use novel_processor::task_control::{claim_task, TaskControl};
use novel_processor::update::{release_assets, update_info_from_release};
use novel_processor::validate::read_verdicts;

fn json(text: &str) -> serde_json::Value {
    serde_json::from_str(text).unwrap()
}

#[test]
fn gemini_reads_the_first_candidate() {
    let v = json(
        r#"{"candidates":[{"content":{"parts":[{"text":"first"}]}},{"content":{"parts":[{"text":"second"}]}}]}"#,
    );
    assert_eq!(parse_gemini_parts(&v).unwrap(), ("first".to_string(), None));
}

#[test]
fn gemini_parts_keep_flag_and_text() {
    let v = json(
        r#"{"candidates":[{"content":{"parts":[{"thought":true,"text":"t"},{"thought":"yes","text":"a"},{"text":5}]}}]}"#,
    );
    let parts = gemini_parts(&v).unwrap();
    assert_eq!(parts.len(), 3);
    assert_eq!(parts[0].thought, Some(true));
    assert_eq!(parts[0].text.as_deref(), Some("t"));
    assert_eq!(parts[1].thought, None);
    assert_eq!(parts[1].text.as_deref(), Some("a"));
    assert_eq!(parts[2].text, None);
    assert_eq!(
        parse_gemini_parts(&v).unwrap(),
        ("a".to_string(), Some("t".to_string()))
    );
}

#[test]
fn gemini_shape_errors_in_order() {
    assert!(matches!(gemini_parts(&json(r#"{"candidates":{}}"#)), Err(GeminiShapeError::MissingCandidates)));
    assert!(matches!(gemini_parts(&json(r#"[]"#)), Err(GeminiShapeError::MissingCandidates)));
    assert!(matches!(gemini_parts(&json(r#"{"candidates":[]}"#)), Err(GeminiShapeError::EmptyCandidates)));
    assert!(matches!(
        gemini_parts(&json(r#"{"candidates":[{"content":{"parts":"x"}}]}"#)),
        Err(GeminiShapeError::MissingParts)
    ));
}

#[test]
fn fields_are_read_by_type() {
    let v = json(r#"{"b":false,"s":"x","n":1}"#);
    assert_eq!(bool_field(&v, "b"), Some(false));
    assert_eq!(bool_field(&v, "s"), None);
    assert_eq!(bool_field(&v, "missing"), None);
    assert_eq!(text_field(&v, "s"), Some("x".to_string()));
    assert_eq!(text_field(&v, "n"), None);
    assert_eq!(text_field(&json("[1]"), "s"), None);
}

#[test]
fn verdicts_read_is_valid_and_reason() {
    let items = match json(r#"[{"is_valid":false,"reason":"r"},{"valid":false},{"is_valid":"no","reason":3}]"#) {
        serde_json::Value::Array(a) => a,
        _ => unreachable!(),
    };
    let v = read_verdicts(&items);
    assert_eq!(v.len(), 3);
    assert_eq!(v[0].is_valid, Some(false));
    assert_eq!(v[0].reason.as_deref(), Some("r"));
    assert_eq!(v[1].is_valid, None);
    assert_eq!(v[2].is_valid, None);
    assert_eq!(v[2].reason, None);
}

#[test]
fn failed_review_is_retried_once() {
    assert_eq!(review_retry_delay(1, true), Some(REVIEW_RETRY_DELAY_MS));
    assert_eq!(REVIEW_RETRY_DELAY_MS, 2000);
    assert_eq!(review_retry_delay(1, false), None);
    assert_eq!(review_retry_delay(2, true), None);
}

#[test]
fn new_coordinator_does_not_wait_and_waits_stay_within_delay() {
    let scope = RateLimitScope("p|openai|https://x|m".to_string());
    let mut c = RateLimitCoordinator::new();
    assert_eq!(c.cooldown_delay(&scope, 0), None);
    let d = c.record_rate_limit(&scope, None, 1, 1_000);
    assert_eq!(d, 45_000);
    let w = c.cooldown_delay(&scope, 2_000).unwrap();
    assert!(w > 0 && w <= d);
    assert_eq!(w, 44_000);
    assert_eq!(c.cooldown_delay(&scope, 46_000), None);
}

#[test]
fn release_reply_gives_update_info() {
    let release = json(
        r#"{"tag_name":"v1.2.0","body":"notes","assets":[{"name":"a.txt","browser_download_url":"u1"},{"name":"app.zip","browser_download_url":"https://x/app.zip"},{"name":"b.zip","browser_download_url":"u3"}]}"#,
    );
    let info = update_info_from_release(&release, "1.1.9");
    assert!(info.has_update);
    assert_eq!(info.latest_version, "1.2.0");
    assert_eq!(info.current_version, "1.1.9");
    assert_eq!(info.release_notes, "notes");
    assert_eq!(info.download_url, "https://x/app.zip");
}

#[test]
fn release_reply_with_missing_members() {
    let info = update_info_from_release(&json(r#"{"tag_name":3,"assets":{}}"#), "0.1.0");
    assert!(!info.has_update);
    assert_eq!(info.latest_version, "");
    assert_eq!(info.release_notes, "");
    assert_eq!(info.download_url, "");
    let items = match json(r#"[{"name":"x.zip"},{"name":1,"browser_download_url":"u"}]"#) {
        serde_json::Value::Array(a) => a,
        _ => unreachable!(),
    };
    let assets = release_assets(&items);
    assert_eq!(assets[0].name.as_deref(), Some("x.zip"));
    assert_eq!(assets[0].browser_download_url, None);
    assert_eq!(assets[1].name, None);
    assert_eq!(assets[1].browser_download_url.as_deref(), Some("u"));
}

#[test]
fn busy_slot_refuses_with_the_kind_message() {
    let mut task = TaskControl::new();
    assert_eq!(claim_task(&mut task, JobKind::Validation), Ok(()));
    assert!(task.is_active());
    assert_eq!(
        claim_task(&mut task, JobKind::Review),
        Err("任务已在运行中，请等待完成或终止后再试。".to_string())
    );
    assert_eq!(
        claim_task(&mut task, JobKind::Validation),
        Err("验证任务已在运行中，请等待完成或终止后再试。".to_string())
    );
}
