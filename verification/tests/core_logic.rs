use novel_processor::chapters::{
    chapter_directory_text, export_content, plan_chapter_batches, sync_chapter_text,
};
use novel_processor::domain::{Chapter, ModelEndpoint, ModelOutput};
use novel_processor::jobs::{
    new_job, plan_chunks, plan_review_slices, valid_chapters, JobAction, JobKind, JobRun,
};
use novel_processor::model_support::{
    finish_model_output, model_output_truncation_error, parse_gemini_parts,
    request_error_message, response_json_or_error, format_request_error, ModelResponseError,
};
use novel_processor::prompts::{
    build_batch_review_prompt, build_batch_validation_prompt, truncate_text, REVIEW_PROMPT_HEAD,
    VALIDATION_PROMPT_HEAD,
};
use novel_processor::provider::{
    gemini_json_mime_type, gemini_thinking_budget, is_deepseek_profile, is_gemini_profile,
    normalize_model_name, openai_json_response_type, openai_output_limit, openai_thinking_type,
};
use novel_processor::rate_limit::{
    default_backoff_delay, is_rate_limit_retry_exhausted, parse_retry_after,
    RateLimitCoordinator, RateLimitScope, MAX_RATE_LIMIT_RETRIES,
};
use novel_processor::review::parse_review_output;
use novel_processor::settings::{
    api_key_source, app_settings_from, diagnose_profile, i64_setting_or, key_from_store,
    normalize_api_key_input, usize_setting_or, ApiKeySource,
};
use novel_processor::task_control::{
    cancel_review, cancel_validation, pause_review, resume_review, TaskControl,
};
use novel_processor::update::{
    compare_versions, download_file_name, parse_version, pick_download_url, update_info,
    version_from_tag, ReleaseAsset,
};
use novel_processor::validate::{
    extract_json_from_response, extract_json_would_fail, parse_validation_reply,
};

fn chapter(id: &str, index: i64, title: &str, text: &str, valid: bool) -> Chapter {
    Chapter {
        id: id.to_string(),
        novel_id: "n1".to_string(),
        index,
        title: title.to_string(),
        original_text: text.to_string(),
        is_valid: valid,
        validation_reason: None,
        corrected_text: None,
        validation_status: "pending".to_string(),
        review_status: "pending".to_string(),
    }
}

fn endpoint(provider: &str, base_url: &str, model: &str, thinking: &str) -> ModelEndpoint {
    ModelEndpoint {
        id: " p1 ".to_string(),
        provider: provider.to_string(),
        base_url: base_url.to_string(),
        model: model.to_string(),
        thinking_mode: thinking.to_string(),
    }
}

// ---------------------------------------------------------------- task control

#[test]
fn task_control_allows_one_task_at_a_time() {
    let mut t = TaskControl::new();
    assert!(!t.is_active());
    assert!(t.start());
    assert!(!t.start());
    t.finish();
    assert!(t.start());
}

#[test]
fn task_control_start_clears_requests() {
    let mut t = TaskControl::new();
    t.start();
    t.cancel();
    t.pause();
    assert!(t.is_cancelled() && t.is_paused());
    t.finish();
    assert!(!t.is_cancelled() && !t.is_paused() && !t.is_active());
    assert!(t.start());
    assert!(!t.is_cancelled() && !t.is_paused());
}

#[test]
fn task_commands_report_missing_task() {
    let mut t = TaskControl::new();
    assert_eq!(cancel_validation(&mut t).unwrap_err(), "当前没有正在运行的验证任务。");
    assert_eq!(cancel_review(&mut t).unwrap_err(), "当前没有正在运行的审查任务。");
    assert_eq!(pause_review(&mut t).unwrap_err(), "当前没有正在运行的审查任务。");
    assert_eq!(resume_review(&mut t).unwrap_err(), "当前没有暂停的审查任务。");
    assert!(!t.is_cancelled());
}

#[test]
fn pause_and_resume_round_trip() {
    let mut t = TaskControl::new();
    t.start();
    assert!(pause_review(&mut t).is_ok());
    assert!(t.is_paused());
    assert!(pause_review(&mut t).is_err());
    assert!(resume_review(&mut t).is_ok());
    assert!(!t.is_paused() && t.is_active());
    assert!(resume_review(&mut t).is_err());
    assert!(cancel_review(&mut t).is_ok());
    assert!(t.is_cancelled() && t.is_active());
}

// ---------------------------------------------------------------- rate limits

#[test]
fn scope_is_normalised() {
    let p = endpoint(" OpenAI ", " HTTPS://API.Example.com/v1// ", " GPT-4o ", "auto");
    let scope = RateLimitScope::for_profile(&p);
    assert_eq!(scope.0, "p1|openai|https://api.example.com/v1|gpt-4o");
}

#[test]
fn cooldown_follows_recorded_limit() {
    let scope = RateLimitScope("a|b|c|d".to_string());
    let other = RateLimitScope("x|b|c|d".to_string());
    let mut c = RateLimitCoordinator::new();
    assert_eq!(c.cooldown_delay(&scope, 1_000), None);
    assert_eq!(c.record_rate_limit(&scope, None, 2, 1_000), 90_000);
    assert_eq!(c.cooldown_delay(&scope, 1_000), Some(90_000));
    assert_eq!(c.cooldown_delay(&scope, 61_000), Some(30_000));
    assert_eq!(c.cooldown_delay(&other, 61_000), None);
    assert_eq!(c.cooldown_delay(&scope, 91_000), None);
    assert_eq!(c.cooldown_delay(&scope, 2_000), None);
}

#[test]
fn provider_delay_and_success() {
    let scope = RateLimitScope("s".to_string());
    let mut c = RateLimitCoordinator::new();
    assert_eq!(c.record_rate_limit(&scope, Some(5_000), 9, 0), 5_000);
    assert_eq!(c.cooldown_delay(&scope, 1_000), Some(4_000));
    c.record_success(&scope);
    assert_eq!(c.cooldown_delay(&scope, 1_000), None);
}

#[test]
fn backoff_schedule() {
    assert_eq!(default_backoff_delay(0), 45_000);
    assert_eq!(default_backoff_delay(1), 45_000);
    assert_eq!(default_backoff_delay(2), 90_000);
    assert_eq!(default_backoff_delay(3), 180_000);
    assert_eq!(default_backoff_delay(4), 300_000);
    assert_eq!(default_backoff_delay(MAX_RATE_LIMIT_RETRIES), 300_000);
}

#[test]
fn retry_after_is_clamped() {
    assert_eq!(parse_retry_after(None), None);
    assert_eq!(parse_retry_after(Some(" 30 ")), Some(30_000));
    assert_eq!(parse_retry_after(Some("0")), Some(1_000));
    assert_eq!(parse_retry_after(Some("9999")), Some(600_000));
    assert_eq!(parse_retry_after(Some("soon")), None);
}

#[test]
fn exhausted_marker_detected() {
    assert!(is_rate_limit_retry_exhausted("错误：服务商限流重试已耗尽（5 次）"));
    assert!(!is_rate_limit_retry_exhausted("HTTP 429"));
}

// ---------------------------------------------------------------- model responses

#[test]
fn model_error_display_and_retry() {
    let e = ModelResponseError::provider(400, "bad".to_string(), Some(3));
    assert_eq!(e.to_display_string(), "HTTP 400: bad");
    assert!(e.permits_thinking_retry());
    assert!(ModelResponseError::provider(422, String::new(), None).permits_thinking_retry());
    assert!(!ModelResponseError::provider(429, String::new(), None).permits_thinking_retry());
    let o = ModelResponseError::other("boom".to_string());
    assert_eq!(o.to_display_string(), "boom");
    assert!(!o.permits_thinking_retry());
}

#[test]
fn request_error_messages() {
    assert_eq!(
        request_error_message(true, true, "x"),
        "模型请求超时（最长等待 20 分钟），请检查网络或降低单次处理量。"
    );
    assert_eq!(request_error_message(false, true, "refused"), "无法连接模型服务：refused");
    assert_eq!(request_error_message(false, false, "other"), "other");
}

#[test]
fn request_error_of_bad_url_keeps_text() {
    let err = reqwest::Client::new().get("not a url").build().unwrap_err();
    let text = err.to_string();
    assert!(!err.is_timeout() && !err.is_connect());
    assert_eq!(format_request_error(err), text);
}

#[test]
fn request_error_of_refused_connection_is_prefixed() {
    let runtime = tokio::runtime::Runtime::new().unwrap();
    let err = runtime
        .block_on(reqwest::Client::new().get("http://127.0.0.1:1/").send())
        .unwrap_err();
    assert!(err.is_connect());
    let text = err.to_string();
    assert_eq!(format_request_error(err), format!("无法连接模型服务：{}", text));
}

#[test]
fn response_checks_status_and_json() {
    let e = response_json_or_error(500, "oops".to_string()).unwrap_err();
    assert_eq!(e.status, Some(500));
    assert_eq!(e.message, "oops");
    let e = response_json_or_error(200, "not json".to_string()).unwrap_err();
    assert_eq!(e.status, None);
    assert!(e.message.starts_with("模型响应不是合法 JSON: "));
    assert!(e.message.ends_with("；原始响应：not json"));
    let (value, body) = response_json_or_error(200, "{\"a\":1}".to_string()).unwrap();
    assert_eq!(body, "{\"a\":1}");
    assert_eq!(value["a"], 1);
}

#[test]
fn gemini_parts_are_joined() {
    let v: serde_json::Value = serde_json::from_str(
        r#"{"candidates":[{"content":{"parts":[{"text":"think","thought":true},{"text":"Hel"},{"text":"lo","thought":false}]}}]}"#,
    )
    .unwrap();
    let (text, reasoning) = parse_gemini_parts(&v).unwrap();
    assert_eq!(text, "Hello");
    assert_eq!(reasoning.as_deref(), Some("think"));
    let v: serde_json::Value =
        serde_json::from_str(r#"{"candidates":[{"content":{"parts":[{"text":"a"}]}}]}"#).unwrap();
    assert_eq!(parse_gemini_parts(&v).unwrap(), ("a".to_string(), None));
}

#[test]
fn gemini_shape_errors() {
    let v: serde_json::Value = serde_json::from_str("{}").unwrap();
    assert_eq!(parse_gemini_parts(&v).unwrap_err(), "Gemini 响应缺少 candidates 数组");
    let v: serde_json::Value = serde_json::from_str(r#"{"candidates":[]}"#).unwrap();
    assert_eq!(parse_gemini_parts(&v).unwrap_err(), "Gemini 响应 candidates 为空");
    let v: serde_json::Value = serde_json::from_str(r#"{"candidates":[{}]}"#).unwrap();
    assert_eq!(parse_gemini_parts(&v).unwrap_err(), "Gemini 响应缺少 content.parts");
}

#[test]
fn truncation_detected() {
    assert_eq!(model_output_truncation_error("finish_reason: length").as_deref(), Some("输出被截断"));
    assert_eq!(model_output_truncation_error("max_tokens reached").as_deref(), Some("输出被截断"));
    assert_eq!(model_output_truncation_error("stop"), None);
}

#[test]
fn output_is_measured() {
    let out = ModelOutput {
        text: "你好ab".to_string(),
        reasoning: None,
        raw_response: "{}".to_string(),
        input_chars: 0,
        output_chars: 0,
        elapsed_ms: 0,
        retried_without_thinking: true,
    };
    let r = finish_model_output(out, "系统", "用户提示", 17);
    assert_eq!(r.input_chars, 6);
    assert_eq!(r.output_chars, 4);
    assert_eq!(r.elapsed_ms, 17);
    assert!(r.retried_without_thinking);
}

// ---------------------------------------------------------------- providers

#[test]
fn provider_detection() {
    let p = endpoint("OpenAI", "https://api.DeepSeek.com", "chat", "auto");
    assert!(is_deepseek_profile(&p, &p.base_url, &p.model));
    assert!(is_deepseek_profile(&p, "https://x", "DeepSeek-R1"));
    assert!(!is_deepseek_profile(&p, "https://x", "gpt"));
    assert!(is_gemini_profile(&endpoint("Google Gemini", "", "", "auto")));
    assert!(is_gemini_profile(&endpoint("x", "https://generativelanguage.googleapis.com", "", "auto")));
    assert!(!is_gemini_profile(&endpoint("x", "https://api.openai.com", "", "auto")));
}

#[test]
fn request_settings() {
    let ds = endpoint("deepseek", "", "", "off");
    let other = endpoint("openai", "", "", "on");
    assert_eq!(openai_output_limit(&ds, "", "", true, None), ("max_tokens", 16_384));
    assert_eq!(openai_output_limit(&other, "", "", false, None), ("max_completion_tokens", 65_536));
    assert_eq!(openai_output_limit(&other, "", "", false, Some(10)), ("max_completion_tokens", 10));
    assert_eq!(openai_json_response_type(&ds, "", ""), Some("json_object"));
    assert_eq!(openai_json_response_type(&other, "", ""), None);
    assert_eq!(gemini_json_mime_type(true), Some("application/json"));
    assert_eq!(gemini_json_mime_type(false), None);
    assert_eq!(openai_thinking_type(&ds, "", ""), Some("disabled"));
    assert_eq!(openai_thinking_type(&endpoint("deepseek", "", "", "on"), "", ""), Some("enabled"));
    assert_eq!(openai_thinking_type(&other, "", ""), None);
    assert_eq!(openai_thinking_type(&endpoint("deepseek", "", "", "auto"), "", ""), None);
    assert_eq!(gemini_thinking_budget(&endpoint("g", "", "", "auto")), None);
    assert_eq!(gemini_thinking_budget(&endpoint("g", "", "", "off")), Some(0));
    assert_eq!(gemini_thinking_budget(&endpoint("g", "", "", "on")), Some(-1));
}

#[test]
fn model_names_normalised() {
    assert_eq!(normalize_model_name("https://API.deepseek.com/v1", " DeepSeek-Chat "), "deepseek-chat");
    assert_eq!(normalize_model_name("https://api.openai.com", " GPT-4o "), "GPT-4o");
}

// ---------------------------------------------------------------- prompts and replies

#[test]
fn truncate_text_cases() {
    assert_eq!(truncate_text("你好世界", 2), "你好...");
    assert_eq!(truncate_text("你好", 2), "你好");
    assert_eq!(truncate_text("", 0), "");
    assert_eq!(truncate_text("abc", 0), "...");
}

#[test]
fn validation_prompt_lists_chapters() {
    let chs = vec![chapter("a", 1, "第一章", "", true), chapter("b", -2, "楔子", "", true)];
    let p = build_batch_validation_prompt(&chs);
    assert_eq!(p, format!("{}1. 第一章\n-2. 楔子", VALIDATION_PROMPT_HEAD));
    assert!(p.contains("{\"is_valid\": true或false, \"reason\": \"简要原因\"}"));
}

#[test]
fn review_prompt_blocks() {
    let long: String = std::iter::repeat('字').take(15_001).collect();
    let chs = vec![chapter("a", 3, "T", "body", true), chapter("b", 4, "U", &long, true)];
    let p = build_batch_review_prompt(&chs);
    let cut: String = std::iter::repeat('字').take(15_000).collect();
    assert_eq!(
        p,
        format!("{}=== 章节 3 : T ===\nbody\n\n=== 章节 4 : U ===\n{}...", REVIEW_PROMPT_HEAD, cut)
    );
}

#[test]
fn review_reply_round_trip() {
    let chs = vec![chapter("a", 1, "", "", true), chapter("b", 2, "", "", true)];
    let reply = "<<<CHAPTER_START index=1>>>\n 第一章 正文 \n<<<CHAPTER_END index=1>>>\n<<<CHAPTER_START index=2>>>二<<<CHAPTER_END index=2>>>";
    let out = parse_review_output(reply, &chs).unwrap();
    assert_eq!(out, vec![("a".to_string(), "第一章 正文".to_string()), ("b".to_string(), "二".to_string())]);
}

#[test]
fn review_reply_missing_markers() {
    let chs = vec![chapter("a", 7, "", "", true)];
    assert_eq!(parse_review_output("nothing", &chs).unwrap_err(), "AI输出缺少章节7的开始标记");
    assert_eq!(
        parse_review_output("<<<CHAPTER_START index=7>>>text", &chs).unwrap_err(),
        "AI输出缺少章节7的结束标记"
    );
    assert_eq!(parse_review_output("", &[]).unwrap(), vec![]);
}

#[test]
fn json_extraction() {
    assert_eq!(extract_json_from_response("```json\n[1]\n```"), "[1]");
    assert_eq!(extract_json_from_response(" ```\n[2] \n``` "), "[2]");
    assert_eq!(extract_json_from_response("here: [3, 4] done"), "[3, 4]");
    assert_eq!(extract_json_from_response(" plain "), "plain");
    assert_eq!(extract_json_from_response("]["), "");
    assert!(!extract_json_would_fail("]["));
    assert!(extract_json_would_fail("] ["));
    assert!(!extract_json_would_fail("```json\n] [\n```"));
}

#[test]
fn validation_reply_matches_chapters() {
    let chs = vec![chapter("a", 1, "", "", true), chapter("b", 2, "", "", true), chapter("c", 3, "", "", true)];
    let r = parse_validation_reply(
        "```json\n[{\"is_valid\": false, \"reason\": \"正文\"}, {\"reason\": \"x\"}]\n```",
        &chs,
    )
    .unwrap();
    assert_eq!(
        r,
        vec![
            ("a".to_string(), false, Some("正文".to_string())),
            ("b".to_string(), true, Some("x".to_string())),
            ("c".to_string(), true, None),
        ]
    );
}

#[test]
fn validation_reply_errors() {
    let chs = vec![chapter("a", 1, "", "", true)];
    assert_eq!(parse_validation_reply("{\"a\": 1}", &chs).unwrap_err(), "AI响应不是JSON数组");
    let e = parse_validation_reply("[1,", &chs).unwrap_err();
    assert!(e.starts_with("无法解析AI响应："));
}

// ---------------------------------------------------------------- chapters and settings

#[test]
fn chapter_text_follows_title() {
    assert_eq!(sync_chapter_text(" 第1章 ", "第一章", "第1章\n正文第1章"), "第一章\n正文第1章");
    assert_eq!(sync_chapter_text("同", "同", "同"), "同");
    assert_eq!(sync_chapter_text("  ", "新", "旧文"), "旧文");
}

#[test]
fn directory_lines() {
    let chs = vec![chapter("a", 1, " 开端 ", "", true), chapter("b", 2, "  ", "", true)];
    assert_eq!(chapter_directory_text(&chs), "1. 开端\n第2章");
    assert_eq!(chapter_directory_text(&vec![]), "");
}

#[test]
fn export_uses_corrections() {
    let mut a = chapter("a", 1, "一", "原文", true);
    a.corrected_text = Some("修正".to_string());
    let b = chapter("b", 2, "二", "丢弃", false);
    let c = chapter("c", 3, "三", "保留", true);
    assert_eq!(export_content(&vec![a, b, c]).unwrap(), "一\n\n修正\n\n三\n\n保留\n\n");
    assert_eq!(
        export_content(&vec![chapter("b", 2, "二", "丢弃", false)]).unwrap_err(),
        "没有可导出的有效章节"
    );
}

#[test]
fn import_batches() {
    let chs: Vec<Chapter> = (1..=61).map(|i| chapter(&i.to_string(), i, "", "", true)).collect();
    let plan = plan_chapter_batches(&chs);
    assert_eq!(plan.len(), 3);
    assert_eq!(plan[0].label, "第1-30章");
    assert_eq!(plan[1].label, "第31-60章");
    assert_eq!((plan[2].batch_index, plan[2].start_chapter, plan[2].end_chapter), (2, 61, 61));
    assert!(plan_chapter_batches(&[]).is_empty());
}

#[test]
fn settings_defaults() {
    assert_eq!(i64_setting_or(None, 30), 30);
    assert_eq!(i64_setting_or(Some("12"), 30), 12);
    assert_eq!(i64_setting_or(Some("x"), 30), 30);
    assert_eq!(usize_setting_or(Some("-1"), 50), 50);
    assert_eq!(usize_setting_or(Some("8"), 50), 8);
    let s = app_settings_from(Some("/tmp".to_string()), None, Some("45"), None);
    assert_eq!((s.chapter_batch_size, s.review_parallelism), (45, 10));
    assert_eq!(s.export_dir.as_deref(), Some("/tmp"));
    let saved = 77i64;
    assert_eq!(i64_setting_or(Some(&saved.to_string()), 30), saved);
}

#[test]
fn api_key_input() {
    assert_eq!(normalize_api_key_input(Some("  sk-1 ")).as_deref(), Some("sk-1"));
    assert_eq!(normalize_api_key_input(Some(" ******** ")), None);
    assert_eq!(normalize_api_key_input(Some("   ")), None);
    assert_eq!(normalize_api_key_input(None), None);
}

#[test]
fn api_key_sources() {
    assert!(matches!(api_key_source(Some("__KEYRING__")), ApiKeySource::Keyring));
    assert!(matches!(api_key_source(Some("sk")), ApiKeySource::Stored(k) if k == "sk"));
    assert!(matches!(api_key_source(None), ApiKeySource::Stored(k) if k.is_empty()));
    assert_eq!(key_from_store(None), "");
    assert_eq!(key_from_store(Some("k".to_string())), "k");
}

#[test]
fn diagnosis_statuses() {
    let d = diagnose_profile(true, "https://x", "m");
    assert_eq!(d.status, "ok");
    assert_eq!(d.checks[1].message, "Base URL: https://x");
    assert_eq!(d.checks[2].message, "模型: m");
    let d = diagnose_profile(false, "https://x", "m");
    assert_eq!(d.status, "warning");
    assert_eq!(d.checks[0].message, "API Key 未配置");
    let d = diagnose_profile(true, "", "请填写模型名");
    assert_eq!(d.status, "failed");
    assert_eq!(d.checks[1].status, "failed");
    assert_eq!(d.checks[2].message, "模型名称未配置");
    assert!(d.recommended_thinking_mode.is_none());
}

// ---------------------------------------------------------------- jobs

#[test]
fn chunk_plans() {
    assert_eq!(plan_chunks(7, 3), vec![(0, 3), (3, 6), (6, 7)]);
    assert_eq!(plan_chunks(0, 3), vec![]);
    assert_eq!(plan_chunks(100, 30).len(), (100 + 30 - 1) / 30);
}

#[test]
fn review_slice_plans() {
    // 10 chapters, batches of 4, 2 requests in parallel: slices of 2 inside each batch.
    assert_eq!(plan_review_slices(10, 4, 2), vec![(0, 2), (2, 4), (4, 6), (6, 8), (8, 10)]);
    // More requests than chapters per batch: one chapter per slice.
    assert_eq!(plan_review_slices(3, 2, 5), vec![(0, 1), (1, 2), (2, 3)]);
    // Slices never cross a batch: batches (0,3),(3,5) with slices of 2.
    assert_eq!(plan_review_slices(5, 3, 1), vec![(0, 3), (3, 5)]);
    assert_eq!(plan_review_slices(5, 3, 0), vec![(0, 3), (3, 5)]);
}

#[test]
fn new_jobs() {
    let j = new_job(JobKind::Review, "j".into(), "n".into(), 12, "t".into());
    assert_eq!((j.job_type.as_str(), j.status.as_str(), j.message.as_str()), ("review", "running", "开始审查章节..."));
    assert_eq!((j.current_chapter, j.total_chapters), (0, 12));
    let j = new_job(JobKind::Validation, "j".into(), "n".into(), 3, "t".into());
    assert_eq!((j.job_type.as_str(), j.message.as_str()), ("validate", "开始验证章节..."));
    let chs = vec![chapter("a", 1, "", "", true), chapter("b", 2, "", "", false), chapter("c", 3, "", "", true)];
    let v: Vec<String> = valid_chapters(chs).into_iter().map(|c| c.id).collect();
    assert_eq!(v, vec!["a", "c"]);
}

#[test]
fn validation_job_messages() {
    let mut run = JobRun::new(JobKind::Validation, 70, 3);
    match run.next_action(0, 2, false, true) {
        JobAction::Dispatch(m) => assert_eq!(m, "正在验证第 1~2 批 (共 3 批) · 0/70"),
        other => panic!("{:?}", other),
    }
    assert_eq!(run.finish_group(60, 0, 2), "已验证 60 / 70 章 · 第 1~2 批");
    match run.next_action(2, 4, true, false) {
        JobAction::Stop(m) => assert_eq!(m, "验证已终止，已完成 60 / 70 章"),
        other => panic!("{:?}", other),
    }
    assert_eq!(run.final_message(), "验证完成，共 70 章");
    run.record_failure("坏了".to_string());
    assert_eq!(run.final_message(), "验证完成（部分失败），共 70 章。错误：坏了");
}

#[test]
fn review_job_messages() {
    let mut run = JobRun::new(JobKind::Review, 4, 4);
    match run.next_action(0, 2, false, true) {
        JobAction::Wait(m) => assert_eq!(m, "已暂停 · 已审查 0 / 4 章 · 第 1~2 片段"),
        other => panic!("{:?}", other),
    }
    match run.next_action(0, 2, false, false) {
        JobAction::Dispatch(m) => assert_eq!(m, "正在审查第 1~2 片段 (共 4 片段) · 0/4"),
        other => panic!("{:?}", other),
    }
    assert_eq!(run.finish_group(2, 0, 2), "已审查 2 / 4 章 · 第 1~2 片段");
    match run.next_action(2, 4, true, true) {
        JobAction::Stop(m) => assert_eq!(m, "审查已终止，已完成 2 / 4 章"),
        other => panic!("{:?}", other),
    }
    assert_eq!(run.final_message(), "审查完成，共 4 章");
}

// ---------------------------------------------------------------- updates

#[test]
fn version_comparison() {
    assert!(compare_versions("1.2.0", "1.1.9"));
    assert!(!compare_versions("1.2.0", "1.2.0"));
    assert!(!compare_versions("1.1", "1.2"));
    assert!(compare_versions("1.2.1", "1.2"));
    assert!(!compare_versions("1.2", "1.2.1"));
    assert!(compare_versions("1.x.3", "1.2"));
    assert_eq!(parse_version("1..x.+2.4294967296"), vec![1, 2]);
}

#[test]
fn update_report() {
    assert_eq!(version_from_tag("vv1.2"), "1.2");
    let assets = vec![
        ReleaseAsset { name: Some("src.tar.gz".into()), browser_download_url: Some("a".into()) },
        ReleaseAsset { name: None, browser_download_url: Some("b".into()) },
        ReleaseAsset { name: Some("app.zip".into()), browser_download_url: Some("https://x/app.zip".into()) },
        ReleaseAsset { name: Some("other.zip".into()), browser_download_url: Some("c".into()) },
    ];
    assert_eq!(pick_download_url(&assets), "https://x/app.zip");
    let info = update_info(Some("v0.3.0"), Some("notes"), &assets, "0.2.9");
    assert!(info.has_update);
    assert_eq!(info.latest_version, "0.3.0");
    assert_eq!(info.release_notes, "notes");
    assert_eq!(info.current_version, "0.2.9");
    let none = update_info(None, None, &vec![], "0.1.0");
    assert!(!none.has_update);
    assert_eq!((none.latest_version.as_str(), none.download_url.as_str()), ("", ""));
}

#[test]
fn download_names() {
    assert_eq!(download_file_name("https://x/y/app.zip").unwrap(), "app.zip");
    assert_eq!(download_file_name("plain").unwrap(), "plain");
    assert_eq!(download_file_name("https://x/").unwrap(), "");
    assert_eq!(download_file_name("").unwrap_err(), "下载链接为空");
}

#[test]
fn readme_slice_example() {
    // 100 chapters per group over 50 parallel requests: 2 chapters per request.
    let slices = plan_review_slices(100, 100, 50);
    assert_eq!(slices.len(), 50);
    assert!(slices.iter().all(|(s, e)| e - s == 2));
}
